use vstd::prelude::*;

use crate::error::SnapshotError;

verus! {

/// `c` is one of the ASCII digits `0` to `9`.
pub open spec fn is_digit(c: char) -> bool {
    48 <= (c as u32) <= 57
}

/// The value of a string of digits, read in base ten.
pub open spec fn digits_value(s: Seq<char>) -> nat
    decreases s.len(),
{
    if s.len() == 0 {
        0
    } else {
        digits_value(s.drop_last()) * 10 + ((s.last() as u32) - 48) as nat
    }
}

/// The digits of an unsigned decimal: the text without a leading `+`.
pub open spec fn unsigned_digits(s: Seq<char>) -> Seq<char> {
    if s.len() > 0 && s[0] == '+' {
        s.skip(1)
    } else {
        s
    }
}

/// `s` is an unsigned decimal: an optional `+`, then one or more digits.
pub open spec fn is_decimal(s: Seq<char>) -> bool {
    let d = unsigned_digits(s);
    d.len() > 0 && forall|i: int| 0 <= i < d.len() ==> is_digit(#[trigger] d[i])
}

/// The value of the unsigned decimal `s`.
pub open spec fn decimal_value(s: Seq<char>) -> nat {
    digits_value(unsigned_digits(s))
}

/// A string of digits is worth at least any of its prefixes.
proof fn lemma_prefix_value(s: Seq<char>, k: int)
    requires
        0 <= k <= s.len(),
        forall|i: int| 0 <= i < s.len() ==> is_digit(#[trigger] s[i]),
    ensures
        digits_value(s.take(k)) <= digits_value(s),
    decreases s.len(),
{
    if k < s.len() {
        assert(s.drop_last().take(k) =~= s.take(k));
        assert(is_digit(s[s.len() - 1]));
        lemma_prefix_value(s.drop_last(), k);
    } else {
        assert(s.take(k) =~= s);
    }
}

/// Reads an unsigned decimal that fits in a `u64`.
pub fn parse_u64(s: &str) -> (r: Option<u64>)
    ensures
        r is Some <==> is_decimal(s@) && decimal_value(s@) <= u64::MAX,
        r is Some ==> r->0 == decimal_value(s@),
{
    let n = s.unicode_len();
    let mut start: usize = 0;
    if n > 0 && s.get_char(0) == '+' {
        start = 1;
    }
    let ghost d = unsigned_digits(s@);
    assert(d =~= s@.skip(start as int));
    if start == n {
        return None;
    }
    let mut acc: u64 = 0;
    let mut i: usize = start;
    assert(d.take(0) =~= Seq::<char>::empty());
    while i < n
        invariant
            n == s@.len(),
            start <= i <= n,
            d == s@.skip(start as int),
            d == unsigned_digits(s@),
            forall|j: int| 0 <= j < i - start ==> is_digit(#[trigger] d[j]),
            acc == digits_value(d.take(i - start)),
        decreases n - i,
    {
        let c = s.get_char(i);
        assert(c == d[i - start]);
        let code = c as u32;
        if !(48 <= code && code <= 57) {
            assert(!is_digit(d[i - start]));
            return None;
        }
        let digit = (code - 48) as u64;
        assert(d.take(i - start + 1).drop_last() =~= d.take(i - start));
        let next = match acc.checked_mul(10) {
            Some(m) => m.checked_add(digit),
            None => None,
        };
        match next {
            Some(v) => {
                acc = v;
            },
            None => {
                proof {
                    if is_decimal(s@) {
                        assert(forall|j: int| 0 <= j < d.len() ==> is_digit(#[trigger] d[j]));
                        lemma_prefix_value(d, i - start + 1);
                        assert(digits_value(d.take(i - start + 1)) == acc * 10 + digit);
                    }
                }
                return None;
            },
        }
        i = i + 1;
    }
    assert(d.take(n - start) =~= d);
    Some(acc)
}

/// Reads an unsigned decimal that fits in a `u32`.
pub fn parse_u32(s: &str) -> (r: Option<u32>)
    ensures
        r is Some <==> is_decimal(s@) && decimal_value(s@) <= u32::MAX,
        r is Some ==> r->0 == decimal_value(s@),
{
    match parse_u64(s) {
        Some(v) => {
            if v <= u32::MAX as u64 {
                Some(v as u32)
            } else {
                None
            }
        },
        None => None,
    }
}

/// Reads a numeric field, failing with the text itself when it is not an
/// unsigned decimal that fits in a `u64`.
pub fn parse_number(field: &str) -> (r: Result<u64, SnapshotError>)
    ensures
        r is Ok <==> is_decimal(field@) && decimal_value(field@) <= u64::MAX,
        r is Ok ==> r->Ok_0 == decimal_value(field@),
        r is Err ==> r->Err_0 is MalformedData && r->Err_0->MalformedData_0@ == field@,
{
    match parse_u64(field) {
        Some(v) => Ok(v),
        None => Err(SnapshotError::MalformedData(field.to_owned())),
    }
}

} // verus!
