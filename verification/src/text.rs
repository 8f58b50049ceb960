//! Case-insensitive text comparison, specified by ASCII case folding.

use vstd::prelude::*;

verus! {

/// ASCII upper-case image of a single character: `'a'..='z'` map to
/// `'A'..='Z'`, every other character is unchanged.
pub open spec fn ascii_upper(c: char) -> char {
    if 'a' <= c && c <= 'z' {
        ((c as u32) - 32) as char
    } else {
        c
    }
}

/// ASCII upper-case image of a character sequence.
pub open spec fn ascii_upper_seq(s: Seq<char>) -> Seq<char> {
    s.map_values(|c: char| ascii_upper(c))
}

/// Relies on `str::eq_ignore_ascii_case`: true exactly when the two
/// strings agree after ASCII case folding (non-ASCII characters must
/// match exactly).
#[verifier::external_body]
pub(crate) fn str_eq_ignore_ascii_case(a: &str, b: &str) -> (r: bool)
    ensures
        r == (ascii_upper_seq(a@) == ascii_upper_seq(b@)),
{
    a.eq_ignore_ascii_case(b)
}

/// Relies on `<str as PartialEq>::eq`: true exactly when the two string
/// slices hold the same characters.
#[verifier::external_body]
pub(crate) fn str_eq(a: &str, b: &str) -> (r: bool)
    ensures
        r == (a@ == b@),
{
    a == b
}

} // verus!
