//! The display width of text: how many terminal columns a string occupies.

use vstd::prelude::*;

verus! {

/// The number of monospace columns that `text` occupies on a terminal. It is
/// computed by `textwrap::core::display_width`, which walks the characters,
/// skips ANSI escape sequences and adds up the Unicode width of the rest; the
/// library only relies on it being a fixed function of the text.
pub uninterp spec fn display_width_of(text: Seq<char>) -> usize;

/// Measures `text` with `textwrap::core::display_width`. The contract claims
/// only that the result is the display width of these characters: the same
/// text always measures the same.
#[verifier::external_body]
pub(crate) fn display_width(text: &str) -> (width: usize)
    ensures
        width == display_width_of(text@),
{
    textwrap::core::display_width(text)
}

} // verus!
