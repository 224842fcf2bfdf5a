use vstd::prelude::*;

use crate::part::Part;
use crate::sheet::{Sheet, SheetData};
use crate::time::{Timestamp, NANOS_PER_SEC};

verus! {

/// Largest gap, in whole seconds, between a delete and a post that the source
/// system emits for one re-post; a pair is a re-post when the gap is below it.
pub const REPOST_DURATION: i64 = 15;

/// Where a program stands in its lifetime, and since when.
#[derive(Debug, Clone, Copy, PartialEq, Eq, Structural)]
pub enum ProgramStatus {
    Posted(Timestamp),
    Deleted(Timestamp),
    Updated(Timestamp),
}

/// One entry of a program's change log.
#[derive(Debug)]
pub enum PostingChange {
    /// The program was posted with this machine, sheet and parts.
    Posted { timestamp: Timestamp, machine: String, sheet: Sheet, parts: Vec<Part> },
    Deleted(Timestamp),
    /// Marks a delete/post pair that stood for one re-post.
    RePosted,
    Completed(Timestamp),
    ChangeMachine(String),
    /// The program moved to another piece of stock.
    SwapSheet(Sheet),
    /// Fields of the same piece of stock changed.
    UpdatedSheetData(Vec<SheetData>),
    AddPart(Part),
    ChangePartQty(Part),
    DeletePart(Part),
}

/// A log entry as a value: [`PostingChange`] with its lists as sequences.
pub enum ChangeView {
    Posted { timestamp: Timestamp, machine: String, sheet: Sheet, parts: Seq<Part> },
    Deleted(Timestamp),
    RePosted,
    Completed(Timestamp),
    ChangeMachine(String),
    SwapSheet(Sheet),
    UpdatedSheetData(Seq<SheetData>),
    AddPart(Part),
    ChangePartQty(Part),
    DeletePart(Part),
}

impl View for PostingChange {
    type V = ChangeView;

    open spec fn view(&self) -> ChangeView {
        match self {
            PostingChange::Posted { timestamp, machine, sheet, parts } => ChangeView::Posted {
                timestamp: *timestamp,
                machine: *machine,
                sheet: *sheet,
                parts: parts@,
            },
            PostingChange::Deleted(ts) => ChangeView::Deleted(*ts),
            PostingChange::RePosted => ChangeView::RePosted,
            PostingChange::Completed(ts) => ChangeView::Completed(*ts),
            PostingChange::ChangeMachine(m) => ChangeView::ChangeMachine(*m),
            PostingChange::SwapSheet(s) => ChangeView::SwapSheet(*s),
            PostingChange::UpdatedSheetData(d) => ChangeView::UpdatedSheetData(d@),
            PostingChange::AddPart(p) => ChangeView::AddPart(*p),
            PostingChange::ChangePartQty(p) => ChangeView::ChangePartQty(*p),
            PostingChange::DeletePart(p) => ChangeView::DeletePart(*p),
        }
    }
}

/// The views of a list of changes.
pub open spec fn changes_view(s: Seq<PostingChange>) -> Seq<ChangeView> {
    s.map_values(|c: PostingChange| c@)
}

/// A post at `posted` and a delete at `deleted` lie within the re-post window.
pub open spec fn within_repost_window(posted: Timestamp, deleted: Timestamp) -> bool {
    let gap = posted.instant() - deleted.instant();
    -REPOST_DURATION * NANOS_PER_SEC < gap < REPOST_DURATION * NANOS_PER_SEC
}

/// One of the two changes is a post and the other a delete, within the
/// re-post window of each other, in either order.
pub open spec fn reposting(first: ChangeView, second: ChangeView) -> bool {
    match (first, second) {
        (ChangeView::Posted { timestamp, .. }, ChangeView::Deleted(when_deleted)) => {
            within_repost_window(timestamp, when_deleted)
        },
        (ChangeView::Deleted(when_deleted), ChangeView::Posted { timestamp, .. }) => {
            within_repost_window(timestamp, when_deleted)
        },
        _ => false,
    }
}

/// The change that records a program's passage to `status`.
pub open spec fn status_change(status: ProgramStatus) -> ChangeView
    recommends
        !(status is Posted),
{
    match status {
        ProgramStatus::Deleted(ts) => ChangeView::Deleted(ts),
        ProgramStatus::Updated(ts) => ChangeView::Completed(ts),
        ProgramStatus::Posted(_) => ChangeView::RePosted,
    }
}

/// Whether two changes form a re-post pair does not depend on their order.
pub proof fn lemma_reposting_symmetric(a: ChangeView, b: ChangeView)
    ensures
        reposting(a, b) == reposting(b, a),
{
}

/// Copies a list of parts.
pub fn clone_parts(parts: &Vec<Part>) -> (r: Vec<Part>)
    ensures
        r@ == parts@,
{
    let r = parts.clone();
    assert(r@ =~= parts@);
    r
}

/// Copies a list of sheet field updates.
pub fn clone_sheet_data(data: &Vec<SheetData>) -> (r: Vec<SheetData>)
    ensures
        r@ == data@,
{
    let r = data.clone();
    assert(r@ =~= data@);
    r
}

impl Clone for PostingChange {
    fn clone(&self) -> (r: Self)
        ensures
            r@ == self@,
    {
        match self {
            PostingChange::Posted { timestamp, machine, sheet, parts } => PostingChange::Posted {
                timestamp: *timestamp,
                machine: machine.clone(),
                sheet: sheet.clone(),
                parts: clone_parts(parts),
            },
            PostingChange::Deleted(ts) => PostingChange::Deleted(*ts),
            PostingChange::RePosted => PostingChange::RePosted,
            PostingChange::Completed(ts) => PostingChange::Completed(*ts),
            PostingChange::ChangeMachine(m) => PostingChange::ChangeMachine(m.clone()),
            PostingChange::SwapSheet(s) => PostingChange::SwapSheet(s.clone()),
            PostingChange::UpdatedSheetData(d) => PostingChange::UpdatedSheetData(
                clone_sheet_data(d),
            ),
            PostingChange::AddPart(p) => PostingChange::AddPart(p.clone()),
            PostingChange::ChangePartQty(p) => PostingChange::ChangePartQty(p.clone()),
            PostingChange::DeletePart(p) => PostingChange::DeletePart(p.clone()),
        }
    }
}

impl PostingChange {
    /// Whether `first` and `second` are a post and a delete, in either order,
    /// less than [`REPOST_DURATION`] seconds apart.
    pub fn is_reposting(first: &Self, second: &Self) -> (r: bool)
        ensures
            r == reposting(first@, second@),
    {
        match (first, second) {
            (PostingChange::Posted { timestamp, .. }, PostingChange::Deleted(when_deleted)) => {
                Self::within_window(timestamp, when_deleted)
            },
            (PostingChange::Deleted(when_deleted), PostingChange::Posted { timestamp, .. }) => {
                Self::within_window(timestamp, when_deleted)
            },
            _ => false,
        }
    }

    fn within_window(when_posted: &Timestamp, when_deleted: &Timestamp) -> (r: bool)
        ensures
            r == within_repost_window(*when_posted, *when_deleted),
    {
        let gap = when_posted.nanos_since(when_deleted);
        let window = REPOST_DURATION as i128 * NANOS_PER_SEC;
        -window < gap && gap < window
    }

    /// The change recorded when a program leaves the source system with
    /// `status`: `Deleted` for a deletion, `Completed` for a completion.
    pub fn from_status(status: ProgramStatus) -> (r: PostingChange)
        requires
            !(status is Posted),
        ensures
            r@ == status_change(status),
    {
        match status {
            ProgramStatus::Deleted(ts) => PostingChange::Deleted(ts),
            ProgramStatus::Updated(ts) => PostingChange::Completed(ts),
            ProgramStatus::Posted(_) => PostingChange::RePosted,
        }
    }
}

} // verus!
