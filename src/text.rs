//! Character-level helpers over `String` and `char` that vstd leaves unspecified.
use vstd::prelude::*;

verus! {

/// The characters with the Unicode `White_Space` property.
pub open spec fn is_white_space(c: char) -> bool {
    ('\u{9}' <= c && c <= '\u{d}') || c == ' ' || c == '\u{85}' || c == '\u{a0}' || c
        == '\u{1680}' || ('\u{2000}' <= c && c <= '\u{200a}') || c == '\u{2028}' || c
        == '\u{2029}' || c == '\u{202f}' || c == '\u{205f}' || c == '\u{3000}'
}

/// What `str::to_uppercase` makes of a string: the Unicode full uppercase mapping.
pub uninterp spec fn upper_of(s: Seq<char>) -> Seq<char>;

/// An ASCII character other than a lowercase letter: one without an uppercase
/// mapping.
pub open spec fn keeps_case(c: char) -> bool {
    c <= '\u{7f}' && !('a' <= c && c <= 'z')
}

/// Relies on `String::push`: appends one character.
#[verifier::external_body]
pub(crate) fn push_char(s: &mut String, c: char)
    ensures
        final(s)@ == old(s)@.push(c),
{
    s.push(c);
}

/// Relies on `String::pop`: removes and returns the last character, if any.
#[verifier::external_body]
pub(crate) fn pop_char(s: &mut String) -> (r: Option<char>)
    ensures
        old(s)@.len() == 0 ==> r is None && final(s)@ == old(s)@,
        old(s)@.len() > 0 ==> r == Some(old(s)@.last()) && final(s)@ == old(s)@.drop_last(),
{
    s.pop()
}

/// Relies on `char::is_whitespace`: true exactly for the `White_Space` characters.
#[verifier::external_body]
pub(crate) fn char_is_white_space(c: char) -> (r: bool)
    ensures
        r == is_white_space(c),
{
    c.is_whitespace()
}

/// Relies on `str::to_uppercase`: the result depends on the characters alone,
/// an empty string stays empty, and a string of characters without an
/// uppercase mapping is returned unchanged.
#[verifier::external_body]
pub(crate) fn to_upper(s: &str) -> (r: String)
    ensures
        r@ == upper_of(s@),
        s@.len() == 0 ==> r@.len() == 0,
        (forall|i: int| 0 <= i < s@.len() ==> keeps_case(#[trigger] s@[i])) ==> r@ == s@,
{
    s.to_uppercase()
}

} // verus!
