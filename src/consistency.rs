//! The diff engine and the log fold agree: the changes reported between two
//! states, replayed onto the first, give the second's sheet and parts.
use vstd::prelude::*;

use crate::change::{changes_view, ChangeView, PostingChange};
use crate::part::{
    has_key, key_index, keys_unique, lemma_key_index, lemma_quantities_remove, lemma_quantities_upsert,
    lemma_quantity_at, part_key, part_quantities, Part,
};
use crate::sheet::{lemma_update_with_diff, same_sheet, Sheet};
use crate::state::{
    apply_change, content_changes, part_additions, part_scan, part_scan_change, replay,
    sheet_changes, StateView,
};

verus! {

proof fn lemma_replay_concat(st: StateView, a: Seq<PostingChange>, b: Seq<PostingChange>)
    ensures
        replay(st, a + b) == replay(replay(st, a), b),
    decreases b.len(),
{
    if b.len() == 0 {
        assert(a + b =~= a);
    } else {
        assert((a + b).drop_last() =~= a + b.drop_last());
        lemma_replay_concat(st, a, b.drop_last());
    }
}

proof fn lemma_replay_one(st: StateView, cs: Seq<PostingChange>)
    requires
        cs.len() <= 1,
    ensures
        cs.len() == 0 ==> replay(st, cs) == st,
        cs.len() == 1 ==> replay(st, cs) == apply_change(st, cs[0]),
{
    if cs.len() == 1 {
        assert(cs.drop_last() =~= Seq::<PostingChange>::empty());
        assert(replay(st, cs.drop_last()) == st);
    }
}

/// Splits a list of changes whose views are `x + y` where its views do.
proof fn lemma_split_views(cs: Seq<PostingChange>, x: Seq<ChangeView>, y: Seq<ChangeView>)
    requires
        changes_view(cs) == x + y,
    ensures
        cs == cs.take(x.len() as int) + cs.skip(x.len() as int),
        changes_view(cs.take(x.len() as int)) == x,
        changes_view(cs.skip(x.len() as int)) == y,
{
    let n = x.len() as int;
    assert(changes_view(cs).len() == cs.len());
    assert(cs =~= cs.take(n) + cs.skip(n));
    assert forall|j: int| 0 <= j < n implies #[trigger] changes_view(cs.take(n))[j] == x[j] by {
        assert(changes_view(cs)[j] == (x + y)[j]);
    }
    assert forall|j: int| 0 <= j < y.len() implies #[trigger] changes_view(cs.skip(n))[j] == y[j] by {
        assert(changes_view(cs)[j + n] == (x + y)[j + n]);
    }
    assert(changes_view(cs.take(n)) =~= x);
    assert(changes_view(cs.skip(n)) =~= y);
}

/// The quantities after the scan of the first `i` previous parts.
spec fn scanned(prev: Seq<Part>, obs: Seq<Part>, i: int) -> Map<(Seq<char>, Seq<char>), u32> {
    Map::new(
        |k: (Seq<char>, Seq<char>)|
            if has_key(prev.take(i), k) {
                has_key(obs, k)
            } else {
                has_key(prev, k)
            },
        |k: (Seq<char>, Seq<char>)|
            if has_key(prev.take(i), k) {
                part_quantities(obs)[k]
            } else {
                part_quantities(prev)[k]
            },
    )
}

proof fn lemma_replay_scan(st: StateView, prev: Seq<Part>, obs: Seq<Part>, cs: Seq<PostingChange>, i: int)
    requires
        keys_unique(prev),
        0 <= i <= prev.len(),
        keys_unique(st.parts),
        part_quantities(st.parts) == part_quantities(prev),
        changes_view(cs) == part_scan(prev.take(i), obs),
    ensures
        keys_unique(replay(st, cs).parts),
        part_quantities(replay(st, cs).parts) == scanned(prev, obs, i),
        replay(st, cs).sheet == st.sheet,
    decreases i,
{
    if i == 0 {
        assert(prev.take(0) =~= Seq::<Part>::empty());
        assert(changes_view(cs).len() == cs.len());
        lemma_replay_one(st, cs);
        assert forall|k| #![auto] !has_key(prev.take(0), k) by {}
        assert(part_quantities(prev) =~= scanned(prev, obs, 0));
        assert(cs.len() == 0);
        assert(replay(st, cs) == st);
    } else {
        let before = prev.take(i - 1);
        assert(prev.take(i).drop_last() =~= before);
        let p = prev[i - 1];
        let k = part_key(p);
        lemma_split_views(cs, part_scan(before, obs), part_scan_change(p, obs));
        let cs1 = cs.take(part_scan(before, obs).len() as int);
        let cs2 = cs.skip(part_scan(before, obs).len() as int);
        lemma_replay_concat(st, cs1, cs2);
        lemma_replay_scan(st, prev, obs, cs1, i - 1);
        let mid = replay(st, cs1);
        assert(changes_view(cs2).len() == cs2.len());
        lemma_replay_one(mid, cs2);
        lemma_quantity_at(prev, i - 1);
        assert(forall|j: int| 0 <= j < i - 1 ==> part_key(#[trigger] prev[j]) != k);
        assert(!has_key(before, k));
        assert forall|k2| #[trigger] has_key(prev.take(i), k2) <==> (has_key(before, k2) || k2 == k) by {
            if has_key(prev.take(i), k2) {
                let j = choose|j: int| 0 <= j < i && #[trigger] part_key(prev.take(i)[j]) == k2;
                if j < i - 1 {
                    assert(part_key(before[j]) == k2);
                }
            }
            if has_key(before, k2) {
                let j = choose|j: int| 0 <= j < i - 1 && #[trigger] part_key(before[j]) == k2;
                assert(part_key(prev.take(i)[j]) == k2);
            }
            if k2 == k {
                assert(part_key(prev.take(i)[i - 1]) == k2);
            }
        }
        if has_key(obs, k) {
            lemma_key_index(obs, k);
            if part_quantities(obs)[k] != p.qty {
                assert(cs2.len() == 1);
                assert(changes_view(cs2)[0] == cs2[0]@);
                assert(cs2[0]@ == ChangeView::ChangePartQty(obs[key_index(obs, k)]));
                assert(cs2[0] is ChangePartQty);
                let q = cs2[0]->ChangePartQty_0;
                assert(part_key(q) == k);
                lemma_quantities_upsert(mid.parts, q);
                assert(replay(st, cs) == replay(mid, cs2));
                assert(scanned(prev, obs, i) =~= scanned(prev, obs, i - 1).insert(
                    k,
                    part_quantities(obs)[k],
                ));
            } else {
                assert(scanned(prev, obs, i) =~= scanned(prev, obs, i - 1));
            }
        } else {
            assert(cs2.len() == 1);
            assert(changes_view(cs2)[0] == cs2[0]@);
            assert(cs2[0]@ == ChangeView::DeletePart(p));
            assert(cs2[0] is DeletePart);
            lemma_quantities_remove(mid.parts, k);
            assert(scanned(prev, obs, i) =~= scanned(prev, obs, i - 1).remove(k));
        }
    }
}

/// The quantities `base` after the additions for the first `j` observed parts.
spec fn added(
    base: Map<(Seq<char>, Seq<char>), u32>,
    obs: Seq<Part>,
    prev: Seq<Part>,
    j: int,
) -> Map<(Seq<char>, Seq<char>), u32> {
    Map::new(
        |k: (Seq<char>, Seq<char>)|
            base.contains_key(k) || (has_key(obs.take(j), k) && !has_key(prev, k)),
        |k: (Seq<char>, Seq<char>)|
            if has_key(obs.take(j), k) && !has_key(prev, k) {
                part_quantities(obs)[k]
            } else {
                base[k]
            },
    )
}

proof fn lemma_replay_additions(
    st: StateView,
    prev: Seq<Part>,
    obs: Seq<Part>,
    cs: Seq<PostingChange>,
    j: int,
)
    requires
        keys_unique(obs),
        0 <= j <= obs.len(),
        keys_unique(st.parts),
        changes_view(cs) == part_additions(obs.take(j), prev),
    ensures
        keys_unique(replay(st, cs).parts),
        part_quantities(replay(st, cs).parts) == added(part_quantities(st.parts), obs, prev, j),
        replay(st, cs).sheet == st.sheet,
    decreases j,
{
    let base = part_quantities(st.parts);
    if j == 0 {
        assert(obs.take(0) =~= Seq::<Part>::empty());
        assert(changes_view(cs).len() == cs.len());
        lemma_replay_one(st, cs);
        assert forall|k| #![auto] !has_key(obs.take(0), k) by {}
        assert(base =~= added(base, obs, prev, 0));
    } else {
        let before = obs.take(j - 1);
        assert(obs.take(j).drop_last() =~= before);
        let o = obs[j - 1];
        let k = part_key(o);
        let tail = if has_key(prev, k) {
            Seq::<ChangeView>::empty()
        } else {
            seq![ChangeView::AddPart(o)]
        };
        assert(part_additions(obs.take(j), prev) == part_additions(before, prev) + tail);
        lemma_split_views(cs, part_additions(before, prev), tail);
        let cs1 = cs.take(part_additions(before, prev).len() as int);
        let cs2 = cs.skip(part_additions(before, prev).len() as int);
        lemma_replay_concat(st, cs1, cs2);
        lemma_replay_additions(st, prev, obs, cs1, j - 1);
        let mid = replay(st, cs1);
        assert(changes_view(cs2).len() == cs2.len());
        lemma_replay_one(mid, cs2);
        lemma_quantity_at(obs, j - 1);
        assert(forall|i: int| 0 <= i < j - 1 ==> part_key(#[trigger] obs[i]) != k);
        assert(!has_key(before, k));
        assert forall|k2| #[trigger] has_key(obs.take(j), k2) <==> (has_key(before, k2) || k2 == k) by {
            if has_key(obs.take(j), k2) {
                let i = choose|i: int| 0 <= i < j && #[trigger] part_key(obs.take(j)[i]) == k2;
                if i < j - 1 {
                    assert(part_key(before[i]) == k2);
                }
            }
            if has_key(before, k2) {
                let i = choose|i: int| 0 <= i < j - 1 && #[trigger] part_key(before[i]) == k2;
                assert(part_key(obs.take(j)[i]) == k2);
            }
            if k2 == k {
                assert(part_key(obs.take(j)[j - 1]) == k2);
            }
        }
        if has_key(prev, k) {
            assert(added(base, obs, prev, j) =~= added(base, obs, prev, j - 1));
        } else {
            assert(cs2.len() == 1);
            assert(changes_view(cs2)[0] == cs2[0]@);
            assert(cs2[0] is AddPart);
            lemma_quantities_upsert(mid.parts, cs2[0]->AddPart_0);
            assert(added(base, obs, prev, j) =~= added(base, obs, prev, j - 1).insert(k, o.qty));
        }
    }
}

proof fn lemma_replay_sheet(st: StateView, after: Sheet, cs: Seq<PostingChange>)
    requires
        changes_view(cs) == sheet_changes(st.sheet, after),
    ensures
        same_sheet(replay(st, cs).sheet, after),
        replay(st, cs).parts == st.parts,
{
    assert(changes_view(cs).len() == cs.len());
    lemma_replay_one(st, cs);
    if cs.len() == 1 {
        assert(changes_view(cs)[0] == cs[0]@);
        if st.sheet.name@ == after.name@ {
            lemma_update_with_diff(st.sheet, after);
        }
    }
}

/// Replaying the changes reported from a state to an observation onto that
/// state gives the observed sheet in every field and the observed parts
/// with their quantities, when each side holds at most one part per
/// identity.
pub proof fn lemma_replay_reaches_observed(
    st: StateView,
    observed_sheet: Sheet,
    observed_parts: Seq<Part>,
    cs: Seq<PostingChange>,
)
    requires
        keys_unique(st.parts),
        keys_unique(observed_parts),
        changes_view(cs) == content_changes(st.sheet, st.parts, observed_sheet, observed_parts),
    ensures
        same_sheet(replay(st, cs).sheet, observed_sheet),
        keys_unique(replay(st, cs).parts),
        part_quantities(replay(st, cs).parts) == part_quantities(observed_parts),
{
    let prev = st.parts;
    let obs = observed_parts;
    let sc = sheet_changes(st.sheet, observed_sheet);
    let ps = part_scan(prev, obs);
    let pa = part_additions(obs, prev);
    lemma_split_views(cs, sc + ps, pa);
    let head = cs.take((sc + ps).len() as int);
    let cs3 = cs.skip((sc + ps).len() as int);
    lemma_split_views(head, sc, ps);
    let cs1 = head.take(sc.len() as int);
    let cs2 = head.skip(sc.len() as int);
    lemma_replay_concat(st, head, cs3);
    lemma_replay_concat(st, cs1, cs2);

    lemma_replay_sheet(st, observed_sheet, cs1);
    let st1 = replay(st, cs1);
    assert(prev.take(prev.len() as int) =~= prev);
    lemma_replay_scan(st1, prev, obs, cs2, prev.len() as int);
    let st2 = replay(st1, cs2);
    assert(obs.take(obs.len() as int) =~= obs);
    lemma_replay_additions(st2, prev, obs, cs3, obs.len() as int);
    let st3 = replay(st2, cs3);
    assert(part_quantities(st3.parts) =~= part_quantities(obs));
}

} // verus!
