//! A cell of the grid: a piece of text together with the number of columns
//! it is counted as when the grid is laid out.

use vstd::prelude::*;
use vstd::string::*;
use crate::measure::{display_width, display_width_of};

verus! {

/// A piece of text and its width. The width is that of the text as it is
/// displayed, unless whoever made the cell says otherwise: text that the
/// terminal will not show at its measured width can be given the width it
/// will really take.
#[derive(PartialEq, Eq, Debug)]
pub struct Cell {
    /// The text shown in the grid.
    pub contents: String,
    /// The number of columns the text is counted as.
    pub width: usize,
}

impl Cell {
    /// Makes a cell of `contents` that is as wide as the text is displayed.
    pub fn new(contents: String) -> (cell: Cell)
        ensures
            cell.contents@ == contents@,
            cell.width == display_width_of(contents@),
    {
        let width: usize = display_width(contents.as_str());
        Cell { contents, width }
    }
}

/// The text of each cell.
pub open spec fn contents_of(cells: Seq<Cell>) -> Seq<Seq<char>> {
    Seq::new(cells.len(), |i: int| cells[i].contents@)
}

/// The width of each cell.
pub open spec fn widths_of(cells: Seq<Cell>) -> Seq<usize> {
    Seq::new(cells.len(), |i: int| cells[i].width)
}

/// The display width of each of the given texts.
pub open spec fn measured(texts: Seq<Seq<char>>) -> Seq<usize> {
    Seq::new(texts.len(), |i: int| display_width_of(texts[i]))
}

} // verus!
