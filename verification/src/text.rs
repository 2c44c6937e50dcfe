//! Small text operations: equality of strings and the decimal-separator cleanup
//! applied to raw tariff values.
use vstd::prelude::*;

verus! {

/// Calls `String::push` of std.
/// Claimed: the character is appended at the end.
#[verifier::external_body]
fn string_push(s: &mut String, c: char)
    ensures
        final(s)@ == old(s)@.push(c),
{
    s.push(c);
}

/// Whether two strings hold the same characters.
pub fn str_equals(a: &str, b: &str) -> (r: bool)
    ensures
        r == (a@ == b@),
{
    let n = a.unicode_len();
    let k = b.unicode_len();
    if n != k {
        return false;
    }
    let mut i: usize = 0;
    while i < n
        invariant
            n as nat == a@.len(),
            k as nat == b@.len(),
            n == k,
            i <= n,
            forall|j: int| 0 <= j < i ==> a@[j] == b@[j],
        decreases n - i,
    {
        if a.get_char(i) != b.get_char(i) {
            return false;
        }
        i = i + 1;
    }
    assert(a@ =~= b@);
    true
}

/// A comma becomes a point; every other character stays.
pub open spec fn point_for_comma(c: char) -> char {
    if c == ',' {
        '.'
    } else {
        c
    }
}

/// The text with every comma replaced by a point.
pub open spec fn commas_to_points(s: Seq<char>) -> Seq<char> {
    Seq::new(s.len(), |i: int| point_for_comma(s[i]))
}

/// Replaces every `,` by `.`: raw values may use a decimal comma.
pub fn replace_commas_with_points(s: &str) -> (r: String)
    ensures
        r@ == commas_to_points(s@),
{
    let n = s.unicode_len();
    let mut out = String::new();
    let mut i: usize = 0;
    while i < n
        invariant
            n as nat == s@.len(),
            i <= n,
            out@ =~= commas_to_points(s@).take(i as int),
        decreases n - i,
    {
        let c = s.get_char(i);
        if c == ',' {
            string_push(&mut out, '.');
        } else {
            string_push(&mut out, c);
        }
        i = i + 1;
    }
    assert(commas_to_points(s@).take(n as int) =~= commas_to_points(s@));
    out
}

} // verus!
