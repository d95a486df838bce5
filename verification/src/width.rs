//! Display widths of characters and strings, as the terminal shows them.

use unicode_width::UnicodeWidthChar;
use unicode_width::UnicodeWidthStr;
use vstd::prelude::*;

verus! {

/// The number of terminal columns that `c` takes, or `None` for a control character.
pub uninterp spec fn unicode_char_width(c: char) -> Option<usize>;

/// The number of terminal columns that the text `s` takes as a whole.
pub uninterp spec fn unicode_str_width(s: Seq<char>) -> usize;

/// `UnicodeWidthChar::width`: the width of `c` in columns, which is three
/// at most, or none for a control character.
#[verifier::external_body]
pub(crate) fn char_width(c: char) -> (w: Option<usize>)
    ensures
        w == unicode_char_width(c),
        w matches Some(n) ==> n <= 3,
{
    UnicodeWidthChar::width(c)
}

/// `UnicodeWidthStr::width`: the width of the whole string, which is not
/// always the sum of the widths of its characters.
#[verifier::external_body]
pub(crate) fn str_width(s: &str) -> (w: usize)
    ensures
        w == unicode_str_width(s@),
{
    UnicodeWidthStr::width(s)
}

/// The columns to advance for `c`: its width, or nothing where it has none.
pub open spec fn columns(c: char) -> nat {
    match unicode_char_width(c) {
        Some(n) => n as nat,
        None => 0,
    }
}

} // verus!
