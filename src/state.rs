use vstd::prelude::*;

use crate::change::{changes_view, ChangeView, PostingChange, ProgramStatus};
use crate::error::SnapshotError;
use crate::parse::{decimal_value, is_decimal, parse_number};
use crate::part::{
    find_part, has_key, insert_part, key_index, keys_unique, part_key, part_keys, part_quantities,
    remove_key,
    remove_part, same_part_keys, same_parts, upsert_part, Part,
};
use crate::sheet::{apply_sheet_updates, same_sheet, sheet_diff, Sheet, SheetData};
use crate::time::Timestamp;

verus! {

/// The state of a program at one moment: observed in the source system, or
/// rebuilt from its change log.
#[derive(Debug)]
pub struct ProgramStateSnapshot {
    pub name: String,
    pub machine: String,
    pub sheet: Sheet,
    /// At most one part per identity.
    pub parts: Vec<Part>,
    pub status: ProgramStatus,
}

/// A program state as a value.
pub struct StateView {
    pub name: Seq<char>,
    pub machine: Seq<char>,
    pub sheet: Sheet,
    pub parts: Seq<Part>,
    pub status: ProgramStatus,
}

impl View for ProgramStateSnapshot {
    type V = StateView;

    open spec fn view(&self) -> StateView {
        StateView {
            name: self.name@,
            machine: self.machine@,
            sheet: self.sheet,
            parts: self.parts@,
            status: self.status,
        }
    }
}

/// The state after one change of the log.
pub open spec fn apply_change(st: StateView, c: PostingChange) -> StateView {
    match c {
        PostingChange::Posted { timestamp, machine, sheet, parts } => StateView {
            machine: machine@,
            sheet: sheet,
            parts: parts@,
            status: ProgramStatus::Posted(timestamp),
            ..st
        },
        PostingChange::Deleted(ts) => StateView { status: ProgramStatus::Deleted(ts), ..st },
        PostingChange::Completed(ts) => StateView { status: ProgramStatus::Updated(ts), ..st },
        PostingChange::RePosted => st,
        PostingChange::ChangeMachine(m) => StateView { machine: m@, ..st },
        PostingChange::SwapSheet(s) => StateView { sheet: s, ..st },
        PostingChange::UpdatedSheetData(d) => StateView {
            sheet: apply_sheet_updates(st.sheet, d@),
            ..st
        },
        PostingChange::AddPart(p) => StateView { parts: upsert_part(st.parts, p), ..st },
        PostingChange::ChangePartQty(p) => StateView { parts: upsert_part(st.parts, p), ..st },
        PostingChange::DeletePart(p) => StateView { parts: remove_key(st.parts, part_key(p)), ..st },
    }
}

/// The state after the changes of `s`, in order.
pub open spec fn replay(st: StateView, s: Seq<PostingChange>) -> StateView
    decreases s.len(),
{
    if s.len() == 0 {
        st
    } else {
        apply_change(replay(st, s.drop_last()), s.last())
    }
}

/// Archive transaction code of a post.
pub const POSTED_CODE: char = 'A';

/// Archive transaction code of a deletion.
pub const DELETED_CODE: char = 'B';

/// Archive transaction code of a completion.
pub const COMPLETED_CODE: char = 'C';

/// The status that the archive transaction `code` at `timestamp` stands for,
/// if the code is known.
pub open spec fn archive_status(code: Seq<char>, timestamp: Timestamp) -> Option<ProgramStatus> {
    if code == seq![POSTED_CODE] {
        Some(ProgramStatus::Posted(timestamp))
    } else if code == seq![DELETED_CODE] {
        Some(ProgramStatus::Deleted(timestamp))
    } else if code == seq![COMPLETED_CODE] {
        Some(ProgramStatus::Updated(timestamp))
    } else {
        None
    }
}

/// Whether `s` is the one-character text `c`.
fn is_code(s: &str, c: char) -> (r: bool)
    ensures
        r == (s@ == seq![c]),
{
    if s.unicode_len() != 1 {
        return false;
    }
    let r = s.get_char(0) == c;
    if r {
        assert(s@ =~= seq![c]);
    }
    r
}

/// The change to the sheet, if any: none when all fields agree; the changed
/// fields when the name (the piece of stock) is the same; else a swap to the
/// new sheet.
pub open spec fn sheet_changes(before: Sheet, after: Sheet) -> Seq<ChangeView> {
    if same_sheet(before, after) {
        seq![]
    } else if before.name@ == after.name@ {
        seq![ChangeView::UpdatedSheetData(sheet_diff(before, after))]
    } else {
        seq![ChangeView::SwapSheet(after)]
    }
}

/// What becomes of the previous part `p` in `observed`: a new quantity when
/// its identity is there with another quantity, nothing when it is there
/// unchanged, a deletion when it is gone.
pub open spec fn part_scan_change(p: Part, observed: Seq<Part>) -> Seq<ChangeView> {
    if has_key(observed, part_key(p)) {
        let q = observed[key_index(observed, part_key(p))];
        if q.qty != p.qty {
            seq![ChangeView::ChangePartQty(q)]
        } else {
            seq![]
        }
    } else {
        seq![ChangeView::DeletePart(p)]
    }
}

/// The changes for the previous parts, in their order.
pub open spec fn part_scan(previous: Seq<Part>, observed: Seq<Part>) -> Seq<ChangeView>
    decreases previous.len(),
{
    if previous.len() == 0 {
        seq![]
    } else {
        part_scan(previous.drop_last(), observed) + part_scan_change(previous.last(), observed)
    }
}

/// An addition for each observed part whose identity was not there before,
/// in the observed order.
pub open spec fn part_additions(observed: Seq<Part>, previous: Seq<Part>) -> Seq<ChangeView>
    decreases observed.len(),
{
    if observed.len() == 0 {
        seq![]
    } else {
        part_additions(observed.drop_last(), previous) + if has_key(
            previous,
            part_key(observed.last()),
        ) {
            seq![]
        } else {
            seq![ChangeView::AddPart(observed.last())]
        }
    }
}

/// The changes from one sheet and parts to another: the sheet change first,
/// then quantity changes and deletions, then additions.
pub open spec fn content_changes(
    previous_sheet: Sheet,
    previous_parts: Seq<Part>,
    observed_sheet: Sheet,
    observed_parts: Seq<Part>,
) -> Seq<ChangeView> {
    sheet_changes(previous_sheet, observed_sheet) + part_scan(previous_parts, observed_parts)
        + part_additions(observed_parts, previous_parts)
}

/// Two states that need no change between them: same program, same sheet
/// in every field, same parts with the same quantities.
pub open spec fn unchanged(previous: StateView, observed: StateView) -> bool {
    &&& previous.name == observed.name
    &&& same_sheet(previous.sheet, observed.sheet)
    &&& part_quantities(previous.parts) == part_quantities(observed.parts)
}

/// A change of sheet name gives a swap to the new sheet whatever else differs;
/// a change of grade alone on the same sheet gives an update of the grade
/// alone. Either comes first among the changes.
pub proof fn lemma_sheet_swap_vs_update(
    previous_sheet: Sheet,
    previous_parts: Seq<Part>,
    observed_sheet: Sheet,
    observed_parts: Seq<Part>,
)
    ensures
        previous_sheet.name@ != observed_sheet.name@ ==> {
            let c = content_changes(previous_sheet, previous_parts, observed_sheet, observed_parts);
            c.len() > 0 && c[0] == ChangeView::SwapSheet(observed_sheet)
        },
        ({
            &&& previous_sheet.name@ == observed_sheet.name@
            &&& previous_sheet.grade@ != observed_sheet.grade@
            &&& previous_sheet.mm@ == observed_sheet.mm@
            &&& previous_sheet.heat@ == observed_sheet.heat@
            &&& previous_sheet.po == observed_sheet.po
        }) ==> {
            let c = content_changes(previous_sheet, previous_parts, observed_sheet, observed_parts);
            c.len() > 0 && c[0] == ChangeView::UpdatedSheetData(
                seq![SheetData::Grade(observed_sheet.grade)],
            )
        },
{
    if previous_sheet.name@ == observed_sheet.name@ && previous_sheet.grade@
        != observed_sheet.grade@ && previous_sheet.mm@ == observed_sheet.mm@
        && previous_sheet.heat@ == observed_sheet.heat@ && previous_sheet.po == observed_sheet.po {
        assert(sheet_diff(previous_sheet, observed_sheet) =~= seq![
            SheetData::Grade(observed_sheet.grade),
        ]);
    }
}

/// The changes that turn a program with `previous_sheet` and
/// `previous_parts` into one with `observed_sheet` and `observed_parts`.
pub fn diff_contents(
    previous_sheet: &Sheet,
    previous_parts: &Vec<Part>,
    observed_sheet: Sheet,
    observed_parts: &Vec<Part>,
) -> (r: Vec<PostingChange>)
    ensures
        changes_view(r@) == content_changes(
            *previous_sheet,
            previous_parts@,
            observed_sheet,
            observed_parts@,
        ),
{
    let ghost obs_sheet = observed_sheet;
    let mut changes: Vec<PostingChange> = Vec::new();
    if !(*previous_sheet == observed_sheet) {
        if previous_sheet.name == observed_sheet.name {
            changes.push(PostingChange::UpdatedSheetData(previous_sheet.diff_sheet(observed_sheet)));
        } else {
            changes.push(PostingChange::SwapSheet(observed_sheet));
        }
    }
    let ghost head = changes_view(changes@);
    assert(head =~= sheet_changes(*previous_sheet, obs_sheet));

    let n = previous_parts.len();
    let mut i: usize = 0;
    assert(previous_parts@.take(0) =~= Seq::<Part>::empty());
    while i < n
        invariant
            n == previous_parts@.len(),
            i <= n,
            changes_view(changes@) == head + part_scan(
                previous_parts@.take(i as int),
                observed_parts@,
            ),
        decreases n - i,
    {
        let ghost before = changes@;
        let part = &previous_parts[i];
        match find_part(observed_parts, part) {
            Some(j) => {
                if part.qty != observed_parts[j].qty {
                    changes.push(PostingChange::ChangePartQty(observed_parts[j].clone()));
                }
            },
            None => {
                changes.push(PostingChange::DeletePart(part.clone()));
            },
        }
        assert(previous_parts@.take(i + 1).drop_last() =~= previous_parts@.take(i as int));
        assert(changes_view(changes@) =~= changes_view(before) + part_scan_change(
            previous_parts@[i as int],
            observed_parts@,
        ));
        i = i + 1;
    }
    assert(previous_parts@.take(n as int) =~= previous_parts@);
    let ghost middle = changes_view(changes@);

    let m = observed_parts.len();
    let mut j: usize = 0;
    assert(observed_parts@.take(0) =~= Seq::<Part>::empty());
    while j < m
        invariant
            m == observed_parts@.len(),
            j <= m,
            changes_view(changes@) == middle + part_additions(
                observed_parts@.take(j as int),
                previous_parts@,
            ),
        decreases m - j,
    {
        let ghost before = changes@;
        let part = &observed_parts[j];
        if find_part(previous_parts, part).is_none() {
            changes.push(PostingChange::AddPart(part.clone()));
        }
        assert(observed_parts@.take(j + 1).drop_last() =~= observed_parts@.take(j as int));
        assert(changes_view(changes@) =~= changes_view(before) + if has_key(
            previous_parts@,
            part_key(observed_parts@[j as int]),
        ) {
            seq![]
        } else {
            seq![ChangeView::AddPart(observed_parts@[j as int])]
        });
        j = j + 1;
    }
    assert(observed_parts@.take(m as int) =~= observed_parts@);
    changes
}

impl PartialEq for ProgramStateSnapshot {
    /// Same program, same sheet in every field, and the same part identities
    /// (quantities and machine aside).
    fn eq(&self, other: &ProgramStateSnapshot) -> (r: bool)
        ensures
            r == (self.name@ == other.name@ && same_sheet(self.sheet, other.sheet) && part_keys(
                self.parts@,
            ) == part_keys(other.parts@)),
    {
        self.name == other.name && self.sheet == other.sheet && same_part_keys(
            &self.parts,
            &other.parts,
        )
    }
}

impl vstd::std_specs::cmp::PartialEqSpecImpl for ProgramStateSnapshot {
    open spec fn obeys_eq_spec() -> bool {
        true
    }

    open spec fn eq_spec(&self, other: &ProgramStateSnapshot) -> bool {
        self.name@ == other.name@ && same_sheet(self.sheet, other.sheet) && part_keys(self.parts@)
            == part_keys(other.parts@)
    }
}

impl ProgramStateSnapshot {
    /// The state of a program as read from its source row: the text fields
    /// as they are, the PO number parsed, no parts yet, posted at
    /// `timestamp`. Fails with `MalformedData` when the PO number is not an
    /// unsigned decimal that fits in a `u64`.
    pub fn from_row_fields(
        program: &str,
        machine: &str,
        sheet: &str,
        grade: &str,
        material: &str,
        heat: &str,
        po: &str,
        timestamp: Timestamp,
    ) -> (r: Result<ProgramStateSnapshot, SnapshotError>)
        ensures
            r is Ok <==> is_decimal(po@) && decimal_value(po@) <= u64::MAX,
            r is Ok ==> {
                let st = r->Ok_0;
                &&& keys_unique(st.parts@)
                &&& st.name@ == program@
                &&& st.machine@ == machine@
                &&& st.sheet.name@ == sheet@
                &&& st.sheet.grade@ == grade@
                &&& st.sheet.mm@ == material@
                &&& st.sheet.heat@ == heat@
                &&& st.sheet.po == decimal_value(po@)
                &&& st.parts@.len() == 0
                &&& st.status == ProgramStatus::Posted(timestamp)
            },
            r is Err ==> r->Err_0 is MalformedData && r->Err_0->MalformedData_0@ == po@,
    {
        let po = match parse_number(po) {
            Ok(v) => v,
            Err(e) => {
                return Err(e);
            },
        };
        Ok(ProgramStateSnapshot {
            name: program.to_owned(),
            machine: machine.to_owned(),
            sheet: Sheet {
                name: sheet.to_owned(),
                grade: grade.to_owned(),
                mm: material.to_owned(),
                heat: heat.to_owned(),
                po,
            },
            parts: Vec::new(),
            status: ProgramStatus::Posted(timestamp),
        })
    }

    /// Adds a part read from the source; a part of the same identity is replaced.
    pub fn add_part(&mut self, part: Part)
        ensures
            final(self)@ == (StateView { parts: upsert_part(old(self)@.parts, part), ..old(self)@ }),
            keys_unique(old(self).parts@) ==> keys_unique(final(self).parts@),
    {
        insert_part(&mut self.parts, part);
    }

    /// What became of this program, from the code and time of its latest
    /// archive transaction: a post, a deletion or a completion. An unknown
    /// code fails with `UnexpectedClassificationCode`, naming the code and
    /// this program.
    pub fn is_updated_or_deleted(&self, code: &str, timestamp: Timestamp) -> (r: Result<
        ProgramStatus,
        SnapshotError,
    >)
        ensures
            match archive_status(code@, timestamp) {
                Some(status) => r == Ok::<ProgramStatus, SnapshotError>(status),
                None => r is Err && r->Err_0 is UnexpectedClassificationCode
                    && r->Err_0->code@ == code@ && r->Err_0->program@ == self.name@,
            },
    {
        if is_code(code, POSTED_CODE) {
            Ok(ProgramStatus::Posted(timestamp))
        } else if is_code(code, DELETED_CODE) {
            Ok(ProgramStatus::Deleted(timestamp))
        } else if is_code(code, COMPLETED_CODE) {
            Ok(ProgramStatus::Updated(timestamp))
        } else {
            Err(
                SnapshotError::UnexpectedClassificationCode {
                    code: code.to_owned(),
                    program: self.name.clone(),
                },
            )
        }
    }

    /// The changes from this state to the `latest` observation of the same
    /// program; none when the program, the sheet (every field) and the parts
    /// with their quantities are all unchanged. Quantities take part in that
    /// test, so a change of quantity alone is reported.
    pub fn calculate_changes(&self, latest: Self) -> (r: Option<Vec<PostingChange>>)
        ensures
            r is None <==> unchanged(self@, latest@),
            r is Some ==> changes_view(r->0@) == content_changes(
                self.sheet,
                self.parts@,
                latest.sheet,
                latest.parts@,
            ),
    {
        if self.name == latest.name && self.sheet == latest.sheet && same_parts(
            &self.parts,
            &latest.parts,
        ) {
            return None;
        }
        Some(diff_contents(&self.sheet, &self.parts, latest.sheet, &latest.parts))
    }

    /// Applies one change of a log to this state.
    pub fn apply(&mut self, change: &PostingChange)
        ensures
            final(self)@ == apply_change(old(self)@, *change),
            keys_unique(old(self).parts@) && (change is Posted ==> keys_unique(
                change->Posted_parts@,
            )) ==> keys_unique(final(self).parts@),
    {
        match change {
            PostingChange::Posted { timestamp, machine, sheet, parts } => {
                self.machine = machine.clone();
                self.sheet = sheet.clone();
                self.parts = crate::change::clone_parts(parts);
                self.status = ProgramStatus::Posted(*timestamp);
            },
            PostingChange::Deleted(ts) => {
                self.status = ProgramStatus::Deleted(*ts);
            },
            PostingChange::Completed(ts) => {
                self.status = ProgramStatus::Updated(*ts);
            },
            PostingChange::RePosted => {},
            PostingChange::ChangeMachine(mach) => {
                self.machine = mach.clone();
            },
            PostingChange::SwapSheet(sheet) => {
                self.sheet = sheet.clone();
            },
            PostingChange::UpdatedSheetData(sheet_data) => {
                self.sheet.update(sheet_data);
            },
            PostingChange::AddPart(part) => {
                insert_part(&mut self.parts, part.clone());
            },
            PostingChange::ChangePartQty(part) => {
                insert_part(&mut self.parts, part.clone());
            },
            PostingChange::DeletePart(part) => {
                remove_part(&mut self.parts, part);
            },
        }
    }
}

} // verus!
