use vstd::prelude::*;

use crate::change::{
    changes_view, reposting, status_change, ChangeView, PostingChange, ProgramStatus,
};
use crate::error::SnapshotError;
use crate::part::keys_unique;
use crate::state::{content_changes, replay, unchanged, ProgramStateSnapshot, StateView};

verus! {

/// The change log of one program. Its first entry is the post that every
/// later state is derived from.
#[derive(Debug)]
pub struct ProgramHistory {
    pub program: String,
    pub changes: Vec<PostingChange>,
}

/// Every post in the log holds at most one part per identity.
pub open spec fn posts_keys_unique(changes: Seq<PostingChange>) -> bool {
    forall|i: int|
        0 <= i < changes.len() && (#[trigger] changes[i]) is Posted ==> keys_unique(
            changes[i]->Posted_parts@,
        )
}

/// What one pass over the source system saw of a program.
#[derive(Debug)]
pub enum Observation {
    /// The program is live, in this state.
    Found(ProgramStateSnapshot),
    /// The program is gone; its archive says it was deleted or completed.
    Gone(ProgramStatus),
}

/// The changes that an observation adds to a log whose state is `st`.
pub open spec fn observation_changes(st: StateView, observation: Observation) -> Seq<ChangeView> {
    match observation {
        Observation::Found(observed) => if unchanged(st, observed@) {
            seq![]
        } else {
            content_changes(st.sheet, st.parts, observed.sheet, observed.parts@)
        },
        Observation::Gone(status) => seq![status_change(status)],
    }
}

/// The state that a post seeds for the program named `name`.
pub open spec fn seed_state(name: Seq<char>, c: PostingChange) -> StateView
    recommends
        c is Posted,
{
    match c {
        PostingChange::Posted { timestamp, machine, sheet, parts } => StateView {
            name,
            machine: machine@,
            sheet,
            parts: parts@,
            status: ProgramStatus::Posted(timestamp),
        },
        _ => arbitrary(),
    }
}

/// The state that the log `changes` of the program `name` describes: seeded
/// from its first entry, then the rest applied in order; none when the log
/// is empty or does not start with a post.
pub open spec fn current_state(name: Seq<char>, changes: Seq<PostingChange>) -> Option<StateView> {
    if changes.len() > 0 && changes[0] is Posted {
        Some(replay(seed_state(name, changes[0]), changes.skip(1)))
    } else {
        None
    }
}

/// The log with re-post pairs collapsed: scanning from the front, each
/// adjacent pair that is a re-post becomes one `RePosted` marker, and its
/// second entry cannot start another pair.
pub open spec fn flatten_reposts(s: Seq<ChangeView>) -> Seq<ChangeView>
    decreases s.len(),
{
    if s.len() < 2 {
        s
    } else if reposting(s[0], s[1]) {
        seq![ChangeView::RePosted] + flatten_reposts(s.skip(2))
    } else {
        seq![s[0]] + flatten_reposts(s.skip(1))
    }
}

/// A collapsed log starts with the log's own first entry or with a marker.
proof fn lemma_flatten_head(s: Seq<ChangeView>)
    requires
        s.len() > 0,
    ensures
        flatten_reposts(s).len() > 0,
        flatten_reposts(s)[0] == s[0] || flatten_reposts(s)[0] is RePosted,
{
}

/// Collapsing re-posts a second time changes nothing.
pub proof fn lemma_flatten_idempotent(s: Seq<ChangeView>)
    ensures
        flatten_reposts(flatten_reposts(s)) == flatten_reposts(s),
    decreases s.len(),
{
    if s.len() >= 2 {
        let f = flatten_reposts(s);
        if reposting(s[0], s[1]) {
            let t = flatten_reposts(s.skip(2));
            lemma_flatten_idempotent(s.skip(2));
            if f.len() >= 2 {
                assert(f.skip(1) =~= t);
            }
        } else {
            let t = flatten_reposts(s.skip(1));
            lemma_flatten_idempotent(s.skip(1));
            lemma_flatten_head(s.skip(1));
            if f.len() >= 2 {
                assert(f[1] == t[0]);
                assert(f.skip(1) =~= t);
            }
        }
    }
}

/// A log that holds only its initial post rebuilds to exactly that post's
/// machine, sheet, parts and time, under the log's program name.
pub proof fn lemma_seed_round_trip(h: ProgramHistory)
    requires
        h.changes@.len() == 1,
        h.changes@[0] is Posted,
    ensures
        current_state(h.program@, h.changes@) == Some(
            StateView {
                name: h.program@,
                machine: h.changes@[0]->Posted_machine@,
                sheet: h.changes@[0]->Posted_sheet,
                parts: h.changes@[0]->Posted_parts@,
                status: ProgramStatus::Posted(h.changes@[0]->Posted_timestamp),
            },
        ),
{
    assert(h.changes@.skip(1).len() == 0);
}

impl ProgramHistory {
    /// A log whose first entry is the post `posting_data`.
    pub fn new(name: &str, posting_data: PostingChange) -> (r: ProgramHistory)
        requires
            posting_data is Posted,
        ensures
            r.program@ == name@,
            r.changes@ == seq![posting_data],
    {
        let mut changes: Vec<PostingChange> = Vec::new();
        changes.push(posting_data);
        ProgramHistory { program: name.to_owned(), changes }
    }

    /// The log of a program first seen in `state`: a single post of its
    /// machine, sheet and parts at the time of its posting, which rebuilds
    /// to `state` itself.
    pub fn from_state(state: ProgramStateSnapshot) -> (r: ProgramHistory)
        requires
            state.status is Posted,
        ensures
            r.program@ == state.name@,
            r.changes@.len() == 1,
            r.changes@[0] is Posted,
            current_state(r.program@, r.changes@) == Some(state@),
    {
        let ghost st = state@;
        let timestamp = match state.status {
            ProgramStatus::Posted(ts) => ts,
            ProgramStatus::Deleted(ts) => ts,
            ProgramStatus::Updated(ts) => ts,
        };
        let posted = PostingChange::Posted {
            timestamp,
            machine: state.machine,
            sheet: state.sheet,
            parts: state.parts,
        };
        let mut changes: Vec<PostingChange> = Vec::new();
        changes.push(posted);
        let r = ProgramHistory { program: state.name, changes };
        proof {
            lemma_seed_round_trip(r);
        }
        r
    }

    /// Brings the log up to date with one observation of the program: the
    /// state is rebuilt from the log, the changes to the observed state (or
    /// the program's departure) are appended, and re-post pairs are
    /// collapsed. Returns whether any change was appended. A log that does
    /// not start with a post is left as it is and fails with
    /// `PreconditionViolation`.
    pub fn apply_observation(&mut self, observation: Observation) -> (r: Result<bool, SnapshotError>)
        requires
            observation is Gone ==> !(observation->Gone_0 is Posted),
        ensures
            final(self).program == old(self).program,
            match current_state(old(self).program@, old(self).changes@) {
                None => r == Err::<bool, SnapshotError>(SnapshotError::PreconditionViolation)
                    && final(self).changes@ == old(self).changes@,
                Some(st) => {
                    let added = observation_changes(st, observation);
                    &&& r == Ok::<bool, SnapshotError>(added.len() > 0)
                    &&& changes_view(final(self).changes@) == flatten_reposts(
                        changes_view(old(self).changes@) + added,
                    )
                },
            },
    {
        let current = match self.get_current_state() {
            Ok(st) => st,
            Err(e) => {
                return Err(e);
            },
        };
        let mut added: Vec<PostingChange> = match observation {
            Observation::Found(observed) => match current.calculate_changes(observed) {
                Some(changes) => changes,
                None => Vec::new(),
            },
            Observation::Gone(status) => {
                let mut v: Vec<PostingChange> = Vec::new();
                v.push(PostingChange::from_status(status));
                assert(changes_view(v@) =~= seq![status_change(status)]);
                v
            },
        };
        let appended = added.len() > 0;
        let ghost before = self.changes@;
        let ghost new = added@;
        self.changes.append(&mut added);
        assert(changes_view(self.changes@) =~= changes_view(before) + changes_view(new));
        self.flatten_repost();
        Ok(appended)
    }

    /// Collapses re-post pairs in place: each adjacent post/delete pair (in
    /// either order) less than the re-post window apart becomes a single
    /// `RePosted` marker; pairs are taken from the front and do not overlap.
    pub fn flatten_repost(&mut self)
        ensures
            final(self).program == old(self).program,
            changes_view(final(self).changes@) == flatten_reposts(changes_view(old(self).changes@)),
    {
        let mut i: usize = 0;
        let ghost v0 = changes_view(self.changes@);
        assert(v0.take(0) + v0.skip(0) =~= v0.skip(0));
        assert(v0.skip(0) =~= v0);
        while self.changes.len() - i >= 2
            invariant
                self.program == old(self).program,
                i <= self.changes@.len(),
                ({
                    let v = changes_view(self.changes@);
                    v.take(i as int) + flatten_reposts(v.skip(i as int)) == flatten_reposts(
                        changes_view(old(self).changes@),
                    )
                }),
            decreases self.changes@.len() - i,
        {
            let ghost v = changes_view(self.changes@);
            let ghost rest = v.skip(i as int);
            if PostingChange::is_reposting(&self.changes[i], &self.changes[i + 1]) {
                self.changes.remove(i + 1);
                self.changes.set(i, PostingChange::RePosted);
                let ghost w = changes_view(self.changes@);
                assert(w.take(i + 1) =~= v.take(i as int).push(ChangeView::RePosted));
                assert(w.skip(i + 1) =~= rest.skip(2));
                assert(v.take(i as int) + flatten_reposts(rest) =~= w.take(i + 1)
                    + flatten_reposts(w.skip(i + 1)));
            } else {
                assert(v.take(i + 1) =~= v.take(i as int).push(rest[0]));
                assert(v.skip(i + 1) =~= rest.skip(1));
                assert(v.take(i as int) + flatten_reposts(rest) =~= v.take(i + 1)
                    + flatten_reposts(v.skip(i + 1)));
            }
            i = i + 1;
        }
        let ghost v = changes_view(self.changes@);
        assert(v.take(i as int) + v.skip(i as int) =~= v);
    }


    /// Rebuilds the program's current state from its log.
    pub fn get_current_state(&self) -> (r: Result<ProgramStateSnapshot, SnapshotError>)
        ensures
            match current_state(self.program@, self.changes@) {
                Some(st) => r is Ok && r->Ok_0@ == st,
                None => r == Err::<ProgramStateSnapshot, SnapshotError>(
                    SnapshotError::PreconditionViolation,
                ),
            },
            r is Ok && posts_keys_unique(self.changes@) ==> keys_unique(r->Ok_0.parts@),
    {
        let n = self.changes.len();
        if n == 0 {
            return Err(SnapshotError::PreconditionViolation);
        }
        let mut result = match &self.changes[0] {
            PostingChange::Posted { timestamp, machine, sheet, parts } => ProgramStateSnapshot {
                name: self.program.clone(),
                machine: machine.clone(),
                sheet: sheet.clone(),
                parts: crate::change::clone_parts(parts),
                status: ProgramStatus::Posted(*timestamp),
            },
            _ => {
                return Err(SnapshotError::PreconditionViolation);
            },
        };
        let ghost seed = seed_state(self.program@, self.changes@[0]);
        let mut i: usize = 1;
        while i < n
            invariant
                n == self.changes@.len(),
                1 <= i <= n,
                result@ == replay(seed, self.changes@.subrange(1, i as int)),
                posts_keys_unique(self.changes@) ==> keys_unique(result.parts@),
            decreases n - i,
        {
            assert(self.changes@.subrange(1, i + 1).drop_last() == self.changes@.subrange(
                1,
                i as int,
            ));
            result.apply(&self.changes[i]);
            i = i + 1;
        }
        assert(self.changes@.subrange(1, n as int) == self.changes@.skip(1));
        Ok(result)
    }
}

} // verus!
