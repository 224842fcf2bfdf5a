use vstd::prelude::*;

verus! {

/// A part cut on a program, for a work order, with its quantity in process.
///
/// A part's identity is its `name` and work order `wo`; `==` compares only
/// that identity, while [`Part::equals`] also compares the quantity.
#[derive(Debug)]
pub struct Part {
    pub name: String,
    pub wo: String,
    pub qty: u32,
}

/// The identity of a part: its name and its work order.
pub open spec fn part_key(p: Part) -> (Seq<char>, Seq<char>) {
    (p.name@, p.wo@)
}

/// Some part in `s` has the identity `k`.
pub open spec fn has_key(s: Seq<Part>, k: (Seq<char>, Seq<char>)) -> bool {
    exists|i: int| 0 <= i < s.len() && #[trigger] part_key(s[i]) == k
}

/// `i` is the first position in `s` of a part with identity `k`.
pub open spec fn is_first_with_key(s: Seq<Part>, k: (Seq<char>, Seq<char>), i: int) -> bool {
    &&& 0 <= i < s.len()
    &&& part_key(s[i]) == k
    &&& forall|j: int| 0 <= j < i ==> #[trigger] part_key(s[j]) != k
}

/// The first position in `s` of a part with identity `k` (meaningful when `has_key(s, k)`).
pub open spec fn key_index(s: Seq<Part>, k: (Seq<char>, Seq<char>)) -> int {
    choose|i: int| is_first_with_key(s, k, i)
}

/// No two parts in `s` share an identity.
pub open spec fn keys_unique(s: Seq<Part>) -> bool {
    forall|i: int, j: int|
        0 <= i < s.len() && 0 <= j < s.len() && i != j ==> part_key(#[trigger] s[i]) != part_key(
            #[trigger] s[j],
        )
}

/// The identities of the parts in `s`.
pub open spec fn part_keys(s: Seq<Part>) -> Set<(Seq<char>, Seq<char>)> {
    Set::new(|k: (Seq<char>, Seq<char>)| has_key(s, k))
}

/// The parts in `s` as a map from identity to quantity (the first part of
/// each identity counts).
pub open spec fn part_quantities(s: Seq<Part>) -> Map<(Seq<char>, Seq<char>), u32> {
    Map::new(|k: (Seq<char>, Seq<char>)| has_key(s, k), |k: (Seq<char>, Seq<char>)| s[key_index(s, k)].qty)
}

/// `s` with `p` put in place of the part of the same identity, or appended
/// when there is none.
pub open spec fn upsert_part(s: Seq<Part>, p: Part) -> Seq<Part> {
    if has_key(s, part_key(p)) {
        s.update(key_index(s, part_key(p)), p)
    } else {
        s.push(p)
    }
}

/// `s` without the part of identity `k`, or `s` itself when there is none.
pub open spec fn remove_key(s: Seq<Part>, k: (Seq<char>, Seq<char>)) -> Seq<Part> {
    if has_key(s, k) {
        s.remove(key_index(s, k))
    } else {
        s
    }
}

/// A first position of an identity is the only one.
pub proof fn lemma_first_is_key_index(s: Seq<Part>, k: (Seq<char>, Seq<char>), i: int)
    requires
        is_first_with_key(s, k, i),
    ensures
        has_key(s, k),
        key_index(s, k) == i,
{
    let m = key_index(s, k);
    assert(is_first_with_key(s, k, m));
    if m < i {
        assert(part_key(s[m]) != k);
    }
    if i < m {
        assert(part_key(s[i]) != k);
    }
}

/// Every identity present has a first position.
pub proof fn lemma_key_index(s: Seq<Part>, k: (Seq<char>, Seq<char>))
    requires
        has_key(s, k),
    ensures
        is_first_with_key(s, k, key_index(s, k)),
{
    let i = choose|i: int| 0 <= i < s.len() && #[trigger] part_key(s[i]) == k;
    lemma_first_below(s, k, i);
}

proof fn lemma_first_below(s: Seq<Part>, k: (Seq<char>, Seq<char>), i: int)
    requires
        0 <= i < s.len(),
        part_key(s[i]) == k,
    ensures
        exists|m: int| is_first_with_key(s, k, m),
    decreases i,
{
    if exists|j: int| 0 <= j < i && #[trigger] part_key(s[j]) == k {
        let j = choose|j: int| 0 <= j < i && #[trigger] part_key(s[j]) == k;
        lemma_first_below(s, k, j);
    } else {
        assert(is_first_with_key(s, k, i));
    }
}

/// Under unique identities, each part's quantity is the one mapped to its identity.
pub proof fn lemma_quantity_at(s: Seq<Part>, j: int)
    requires
        keys_unique(s),
        0 <= j < s.len(),
    ensures
        part_quantities(s).contains_key(part_key(s[j])),
        part_quantities(s)[part_key(s[j])] == s[j].qty,
{
    assert(is_first_with_key(s, part_key(s[j]), j));
    lemma_first_is_key_index(s, part_key(s[j]), j);
}

/// Under unique identities, putting a part in maps its identity to its quantity.
pub proof fn lemma_quantities_upsert(s: Seq<Part>, p: Part)
    requires
        keys_unique(s),
    ensures
        keys_unique(upsert_part(s, p)),
        part_quantities(upsert_part(s, p)) == part_quantities(s).insert(part_key(p), p.qty),
{
    let k = part_key(p);
    let t = upsert_part(s, p);
    if has_key(s, k) {
        lemma_key_index(s, k);
        let i = key_index(s, k);
        assert(forall|j: int| 0 <= j < t.len() ==> part_key(#[trigger] t[j]) == part_key(s[j]));
        assert(keys_unique(t));
        lemma_quantity_at(t, i);
        assert forall|k2| #[trigger] part_quantities(t).contains_key(k2) <==> part_quantities(
            s,
        ).insert(k, p.qty).contains_key(k2) by {
            if has_key(t, k2) {
                let j = choose|j: int| 0 <= j < t.len() && #[trigger] part_key(t[j]) == k2;
                assert(part_key(s[j]) == k2);
            }
            if has_key(s, k2) {
                let j = choose|j: int| 0 <= j < s.len() && #[trigger] part_key(s[j]) == k2;
                assert(part_key(t[j]) == k2);
            }
        }
        assert forall|k2| #[trigger] part_quantities(t).contains_key(k2) && k2 != k implies part_quantities(
            t,
        )[k2] == part_quantities(s)[k2] by {
            let j = choose|j: int| 0 <= j < t.len() && #[trigger] part_key(t[j]) == k2;
            assert(j != i);
            lemma_quantity_at(t, j);
            lemma_quantity_at(s, j);
        }
        assert(part_quantities(t) =~= part_quantities(s).insert(k, p.qty));
    } else {
        assert(forall|j: int| 0 <= j < s.len() ==> #[trigger] t[j] == s[j]);
        assert(forall|j: int| 0 <= j < s.len() ==> part_key(#[trigger] s[j]) != k);
        assert(keys_unique(t));
        lemma_quantity_at(t, s.len() as int);
        assert forall|k2| #[trigger] part_quantities(t).contains_key(k2) <==> part_quantities(
            s,
        ).insert(k, p.qty).contains_key(k2) by {
            if has_key(t, k2) && k2 != k {
                let j = choose|j: int| 0 <= j < t.len() && #[trigger] part_key(t[j]) == k2;
                assert(part_key(s[j]) == k2);
            }
            if has_key(s, k2) {
                let j = choose|j: int| 0 <= j < s.len() && #[trigger] part_key(s[j]) == k2;
                assert(part_key(t[j]) == k2);
            }
        }
        assert forall|k2| #[trigger] part_quantities(t).contains_key(k2) && k2 != k implies part_quantities(
            t,
        )[k2] == part_quantities(s)[k2] by {
            let j = choose|j: int| 0 <= j < t.len() && #[trigger] part_key(t[j]) == k2;
            lemma_quantity_at(t, j);
            lemma_quantity_at(s, j);
        }
        assert(part_quantities(t) =~= part_quantities(s).insert(k, p.qty));
    }
}

/// Under unique identities, removing an identity removes it from the map.
pub proof fn lemma_quantities_remove(s: Seq<Part>, k: (Seq<char>, Seq<char>))
    requires
        keys_unique(s),
    ensures
        keys_unique(remove_key(s, k)),
        part_quantities(remove_key(s, k)) == part_quantities(s).remove(k),
{
    let t = remove_key(s, k);
    if has_key(s, k) {
        lemma_key_index(s, k);
        let i = key_index(s, k);
        assert(forall|j: int| 0 <= j < t.len() ==> #[trigger] t[j] == s[if j < i {
            j
        } else {
            j + 1
        }]);
        assert(keys_unique(t));
        assert forall|k2| #[trigger] part_quantities(t).contains_key(k2) <==> part_quantities(
            s,
        ).remove(k).contains_key(k2) by {
            if has_key(t, k2) {
                let j = choose|j: int| 0 <= j < t.len() && #[trigger] part_key(t[j]) == k2;
                let j2 = if j < i { j } else { j + 1 };
                assert(part_key(s[j2]) == k2);
                assert(j2 != i);
            }
            if has_key(s, k2) && k2 != k {
                let j = choose|j: int| 0 <= j < s.len() && #[trigger] part_key(s[j]) == k2;
                assert(j != i);
                let j2 = if j < i { j } else { j - 1 };
                assert(part_key(t[j2]) == k2);
            }
        }
        assert forall|k2| #[trigger] part_quantities(t).contains_key(k2) implies part_quantities(
            t,
        )[k2] == part_quantities(s)[k2] by {
            let j = choose|j: int| 0 <= j < t.len() && #[trigger] part_key(t[j]) == k2;
            let j2 = if j < i { j } else { j + 1 };
            lemma_quantity_at(t, j);
            lemma_quantity_at(s, j2);
        }
        assert(part_quantities(t) =~= part_quantities(s).remove(k));
    } else {
        assert(part_quantities(t) =~= part_quantities(s).remove(k));
    }
}

impl Clone for Part {
    fn clone(&self) -> (r: Self)
        ensures
            r == *self,
    {
        Part { name: self.name.clone(), wo: self.wo.clone(), qty: self.qty }
    }
}

impl PartialEq for Part {
    /// Equality of identity: name and work order.
    fn eq(&self, other: &Part) -> (r: bool)
        ensures
            r == (part_key(*self) == part_key(*other)),
    {
        self.name == other.name && self.wo == other.wo
    }
}

impl vstd::std_specs::cmp::PartialEqSpecImpl for Part {
    open spec fn obeys_eq_spec() -> bool {
        true
    }

    open spec fn eq_spec(&self, other: &Part) -> bool {
        part_key(*self) == part_key(*other)
    }
}

impl Part {
    /// Equality of identity and of quantity.
    pub fn equals(&self, other: &Self) -> (r: bool)
        ensures
            r == (part_key(*self) == part_key(*other) && self.qty == other.qty),
    {
        self == other && self.qty == other.qty
    }
}

/// The first position in `parts` of a part with the identity of `part`.
pub fn find_part(parts: &Vec<Part>, part: &Part) -> (r: Option<usize>)
    ensures
        r is Some <==> has_key(parts@, part_key(*part)),
        r is Some ==> r->0 == key_index(parts@, part_key(*part)) && r->0 < parts@.len()
            && part_key(parts@[r->0 as int]) == part_key(*part),
{
    let n = parts.len();
    let mut i: usize = 0;
    while i < n
        invariant
            n == parts@.len(),
            i <= n,
            forall|j: int| 0 <= j < i ==> #[trigger] part_key(parts@[j]) != part_key(*part),
        decreases n - i,
    {
        if parts[i] == *part {
            proof {
                lemma_first_is_key_index(parts@, part_key(*part), i as int);
            }
            return Some(i);
        }
        i = i + 1;
    }
    None
}

/// Puts `part` in place of the part of the same identity, or appends it.
pub fn insert_part(parts: &mut Vec<Part>, part: Part)
    ensures
        final(parts)@ == upsert_part(old(parts)@, part),
        keys_unique(old(parts)@) ==> keys_unique(final(parts)@),
{
    let ghost before = parts@;
    match find_part(parts, &part) {
        Some(i) => {
            parts.set(i, part);
            assert(forall|j: int|
                0 <= j < parts@.len() ==> part_key(#[trigger] parts@[j]) == part_key(before[j]));
        },
        None => {
            parts.push(part);
            assert(forall|j: int|
                0 <= j < before.len() ==> part_key(#[trigger] before[j]) != part_key(part));
            assert(forall|j: int| 0 <= j < before.len() ==> #[trigger] parts@[j] == before[j]);
        },
    }
}

/// Removes the part with the identity of `part`, if there is one.
pub fn remove_part(parts: &mut Vec<Part>, part: &Part)
    ensures
        final(parts)@ == remove_key(old(parts)@, part_key(*part)),
        keys_unique(old(parts)@) ==> keys_unique(final(parts)@),
{
    match find_part(parts, part) {
        Some(i) => {
            let ghost before = parts@;
            parts.remove(i);
            assert(forall|j: int| 0 <= j < parts@.len() ==> #[trigger] parts@[j] == before[if j < i {
                j
            } else {
                j + 1
            }]);
        },
        None => {},
    }
}

/// Whether the two collections hold the same identities (quantities aside).
pub fn same_part_keys(a: &Vec<Part>, b: &Vec<Part>) -> (r: bool)
    ensures
        r == (part_keys(a@) == part_keys(b@)),
{
    if !keys_within(a, b) {
        return false;
    }
    if !keys_within(b, a) {
        return false;
    }
    assert(part_keys(a@) =~= part_keys(b@));
    true
}

/// Whether every identity in `a` is also in `b`.
fn keys_within(a: &Vec<Part>, b: &Vec<Part>) -> (r: bool)
    ensures
        r == part_keys(a@).subset_of(part_keys(b@)),
{
    let n = a.len();
    let mut i: usize = 0;
    while i < n
        invariant
            n == a@.len(),
            i <= n,
            forall|j: int| 0 <= j < i ==> has_key(b@, #[trigger] part_key(a@[j])),
        decreases n - i,
    {
        if find_part(b, &a[i]).is_none() {
            assert(part_keys(a@).contains(part_key(a@[i as int])));
            return false;
        }
        i = i + 1;
    }
    assert forall|k| part_keys(a@).contains(k) implies part_keys(b@).contains(k) by {
        let j = choose|j: int| 0 <= j < a@.len() && #[trigger] part_key(a@[j]) == k;
        assert(has_key(b@, part_key(a@[j])));
    }
    true
}

/// Whether the two collections hold the same identities with the same
/// quantities, that is, the same identity-to-quantity map.
pub fn same_parts(a: &Vec<Part>, b: &Vec<Part>) -> (r: bool)
    ensures
        r == (part_quantities(a@) == part_quantities(b@)),
{
    let n = a.len();
    let mut i: usize = 0;
    while i < n
        invariant
            n == a@.len(),
            i <= n,
            forall|j: int|
                0 <= j < i ==> {
                    let k = #[trigger] part_key(a@[j]);
                    has_key(b@, k) && b@[key_index(b@, k)].qty == a@[key_index(a@, k)].qty
                },
        decreases n - i,
    {
        let ghost k = part_key(a@[i as int]);
        let first = find_part(a, &a[i]);
        let found = find_part(b, &a[i]);
        proof {
            assert(has_key(a@, k));
        }
        match (first, found) {
            (Some(ia), Some(jb)) => {
                if a[ia].qty != b[jb].qty {
                    assert(part_quantities(a@)[k] != part_quantities(b@)[k]);
                    return false;
                }
            },
            _ => {
                assert(part_quantities(a@).dom().contains(k));
                assert(!part_quantities(b@).dom().contains(k));
                return false;
            },
        }
        i = i + 1;
    }
    assert forall|k| part_keys(a@).contains(k) implies part_keys(b@).contains(k) && b@[key_index(
        b@,
        k,
    )].qty == a@[key_index(a@, k)].qty by {
        let j = choose|j: int| 0 <= j < a@.len() && #[trigger] part_key(a@[j]) == k;
        assert(has_key(b@, part_key(a@[j])));
    }
    if !keys_within(b, a) {
        assert(!(part_quantities(a@).dom() =~= part_quantities(b@).dom()));
        return false;
    }
    assert(part_keys(b@) =~= part_keys(a@));
    assert(part_quantities(a@) =~= part_quantities(b@));
    true
}

} // verus!
