//! What this library takes on trust from the standard library.

use vstd::prelude::*;
use crate::token::segments_of;

verus! {

/// Whether `c` is alphabetic or numeric by the Unicode tables that
/// `char::is_alphanumeric` consults.
pub uninterp spec fn unicode_alphanumeric(c: char) -> bool;

/// `char::is_alphanumeric` depends on the character alone; its answer is
/// named, not spelled out.
pub assume_specification[ char::is_alphanumeric ](c: char) -> (r: bool)
    ensures
        r == unicode_alphanumeric(c),
;

/// `String::push` appends one character to the end of the string.
pub assume_specification[ String::push ](s: &mut String, ch: char)
    ensures
        final(s)@ == old(s)@.push(ch),
;

/// The text that the pretty debug format (`{:#?}`) of the standard library
/// gives for a list of lists of characters.
pub uninterp spec fn pretty_debug(segments: Seq<Seq<char>>) -> Seq<char>;

/// Formats `segments` with `{:#?}`, through `Debug` for `Vec` and `char`.
/// The text depends on the characters alone; it is named, not spelled out.
#[verifier::external_body]
pub(crate) fn format_segments(segments: &Vec<Vec<char>>) -> (text: String)
    ensures
        text@ == pretty_debug(segments_of(segments@)),
{
    format!("{:#?}", segments)
}

} // verus!
