//! Display width of rendered text, measured in terminal columns.

use vstd::prelude::*;
use unicode_width::UnicodeWidthStr;

verus! {

/// Display width in terminal columns of a sequence of characters, as
/// `unicode_width` assigns it: a pure function of the characters alone.
pub uninterp spec fn display_width_of(s: Seq<char>) -> nat;

/// Relies on `unicode_width::UnicodeWidthStr::width`: the display width of a
/// string in columns, determined by its characters alone; an empty string
/// has width zero.
#[verifier::external_body]
pub fn str_width(s: &str) -> (w: usize)
    ensures
        w as nat == display_width_of(s@),
        s@.len() == 0 ==> w == 0,
{
    UnicodeWidthStr::width(s)
}

} // verus!
