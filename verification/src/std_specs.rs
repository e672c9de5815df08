//! Specifications of the standard-library functions that the editor calls and
//! that `vstd` leaves unspecified. Nothing here is proved: each contract
//! restates what the standard library documents.

use vstd::prelude::*;

verus! {

/// What `char::is_alphanumeric` answers for `c`: whether the code point has
/// the Unicode property `Alphabetic` or is in one of the number categories.
/// The tables are the standard library's; the editor only needs the answer to
/// be a function of the character.
pub uninterp spec fn char_is_alphanumeric(c: char) -> bool;

/// `char::is_alphanumeric` is a pure function of the character: the result is
/// the named property of `c`, and nothing else is claimed of it.
pub assume_specification[ char::is_alphanumeric ](c: char) -> (r: bool)
    ensures
        r == char_is_alphanumeric(c),
;

/// The five characters that `char::is_ascii_whitespace` accepts: space, tab,
/// line feed, form feed and carriage return.
pub open spec fn is_ascii_space(c: char) -> bool {
    c == ' ' || c == '\t' || c == '\n' || c == '\x0C' || c == '\r'
}

/// `char::is_ascii_whitespace` is documented to accept exactly U+0020,
/// U+0009, U+000A, U+000C and U+000D.
pub assume_specification[ char::is_ascii_whitespace ](c: &char) -> (r: bool)
    ensures
        r == is_ascii_space(*c),
;

/// `String::push` appends the given character to the end of the string.
pub assume_specification[ String::push ](s: &mut String, ch: char)
    ensures
        final(s)@ == old(s)@.push(ch),
;

} // verus!
