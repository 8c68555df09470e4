//! What a grid looks like as text: each line holds the cells of one row,
//! padded to the widths of their columns and joined by the separator.

use vstd::prelude::*;
use crate::dimensions::{cell_index, fits_cells, shows_every_cell, total_width, Layout};
use crate::options::{repeated, Direction};

verus! {

/// A grid as mathematics: the cells with their widths, how they are arranged
/// and separated, and the layout they are shown in.
pub struct GridModel {
    /// The text of each cell, in the order the cells were given.
    pub cells: Seq<Seq<char>>,
    /// The display width of each cell.
    pub widths: Seq<usize>,
    /// The direction the cells run in.
    pub direction: Direction,
    /// The characters written between two neighbouring columns.
    pub separator: Seq<char>,
    /// The number of columns the separator counts for.
    pub separator_width: int,
    /// The number of lines and the width of each column.
    pub layout: Layout,
}

impl GridModel {
    /// Whether the parts of the model belong together: every cell has a
    /// width, and where the layout shows a cell its column is wide enough.
    pub open spec fn valid(self) -> bool {
        &&& self.cells.len() == self.widths.len()
        &&& 0 <= self.separator_width
        &&& 0 <= self.layout.num_lines
        &&& fits_cells(self.layout, self.widths, self.direction)
    }

    /// Whether every cell is shown somewhere in the grid.
    pub open spec fn shows_every_cell(self) -> bool {
        shows_every_cell(self.layout, self.cells.len() as int, self.direction)
    }

    /// The number of columns of the layout.
    pub open spec fn num_columns(self) -> int {
        self.layout.widths.len() as int
    }

    /// The position in the list of the cell shown in line `y`, column `x`.
    pub open spec fn index_at(self, y: int, x: int) -> int {
        cell_index(self.direction, y, x, self.layout.num_lines, self.num_columns())
    }

    /// What is written for line `y`, column `x`: nothing where the cells have
    /// run out; else the cell's text, followed in every column but the last
    /// by spaces up to the width of the column and by the separator.
    pub open spec fn cell_text(self, y: int, x: int) -> Seq<char> {
        let index = self.index_at(y, x);
        if !(0 <= index < self.cells.len()) {
            Seq::empty()
        } else if x == self.num_columns() - 1 {
            self.cells[index]
        } else {
            self.cells[index] + repeated(
                ' ',
                (self.layout.widths[x] - self.widths[index]) as nat,
            ) + self.separator
        }
    }

    /// What is written for the first `columns` columns of line `y`.
    pub open spec fn line_start(self, y: int, columns: int) -> Seq<char>
        decreases columns,
    {
        if columns <= 0 {
            Seq::empty()
        } else {
            self.line_start(y, columns - 1) + self.cell_text(y, columns - 1)
        }
    }

    /// Line `y` in full, with the newline that ends it.
    pub open spec fn line_text(self, y: int) -> Seq<char> {
        self.line_start(y, self.num_columns()) + seq!['\n']
    }

    /// The first `lines` lines.
    pub open spec fn lines_text(self, lines: int) -> Seq<char>
        decreases lines,
    {
        if lines <= 0 {
            Seq::empty()
        } else {
            self.lines_text(lines - 1) + self.line_text(lines - 1)
        }
    }

    /// The whole grid as text.
    pub open spec fn text(self) -> Seq<char> {
        self.lines_text(self.layout.num_lines)
    }

    /// The number of terminal columns the grid takes up.
    pub open spec fn total_width(self) -> int {
        total_width(self.layout.widths, self.separator_width)
    }

    /// Whether every column holds a cell of some width.
    pub open spec fn is_complete(self) -> bool {
        forall|x: int| 0 <= x < self.layout.widths.len() ==> self.layout.widths[x] > 0
    }
}

/// In a grid written across, line `y`, column `x` shows the cell at position
/// `y * columns + x` of the list, where there is one: what is written there
/// starts with that cell's text, and is that text alone in the last column.
pub proof fn lemma_row_major_cell(model: GridModel, y: int, x: int)
    requires
        model.direction == Direction::LeftToRight,
        0 <= y < model.layout.num_lines,
        0 <= x < model.num_columns(),
        y * model.num_columns() + x < model.cells.len(),
    ensures
        model.index_at(y, x) == y * model.num_columns() + x,
        model.cells[y * model.num_columns() + x].is_prefix_of(model.cell_text(y, x)),
        x == model.num_columns() - 1 ==> model.cell_text(y, x) == model.cells[y
            * model.num_columns() + x],
{
    let index = y * model.num_columns() + x;
    assert(0 <= index) by (nonlinear_arith)
        requires
            index == y * model.num_columns() + x,
            0 <= y,
            0 <= x,
            0 <= model.num_columns(),
    ;
    let cell = model.cells[index];
    assert(model.cell_text(y, x).subrange(0, cell.len() as int) =~= cell);
}

/// In a grid written downwards, line `y`, column `x` shows the cell at
/// position `y + lines * x` of the list, where there is one.
pub proof fn lemma_column_major_cell(model: GridModel, y: int, x: int)
    requires
        model.direction == Direction::TopToBottom,
        0 <= y < model.layout.num_lines,
        0 <= x < model.num_columns(),
        y + model.layout.num_lines * x < model.cells.len(),
    ensures
        model.index_at(y, x) == y + model.layout.num_lines * x,
        model.cells[y + model.layout.num_lines * x].is_prefix_of(model.cell_text(y, x)),
        x == model.num_columns() - 1 ==> model.cell_text(y, x) == model.cells[y
            + model.layout.num_lines * x],
{
    let index = y + model.layout.num_lines * x;
    assert(0 <= index) by (nonlinear_arith)
        requires
            index == y + model.layout.num_lines * x,
            0 <= y,
            0 <= x,
            0 <= model.layout.num_lines,
    ;
    let cell = model.cells[index];
    assert(model.cell_text(y, x).subrange(0, cell.len() as int) =~= cell);
}

/// A grid without lines is written as the empty text.
pub proof fn lemma_no_lines_no_text(model: GridModel)
    requires
        model.layout.num_lines <= 0,
    ensures
        model.text() == Seq::<char>::empty(),
{
}

} // verus!
