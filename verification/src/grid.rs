//! The grid itself: cells measured once, laid out for the options it was
//! made with, ready to be queried and written out.

use vstd::prelude::*;
use vstd::string::*;
use crate::arith::ceil_div;
use crate::cell::{contents_of, measured, widths_of, Cell};
use crate::measure::{display_width, display_width_of};
use crate::dimensions::{
    cell_index,
    fits_cells,
    has_place,
    shows_every_cell,
    sum_widths,
    total_width,
    Dimensions,
    Layout,
};
use crate::options::{push_repeated, Direction, GridOptions};
use crate::render::GridModel;
use crate::solver::{
    column_dimensions,
    column_layout,
    lemma_column_layout_fits_cells,
    lemma_widest_of,
    lemma_width_layout_fits_cells,
    widest_of,
    widest_width,
    width_dimensions,
    width_layout,
};

verus! {

/// Everything needed to format the cells with the grid options.
#[derive(Debug)]
pub struct Grid {
    options: GridOptions,
    cells: Vec<String>,
    widths: Vec<usize>,
    widest_cell_width: usize,
    dimensions: Dimensions,
}

/// The text of each cell.
pub open spec fn texts(cells: Seq<String>) -> Seq<Seq<char>> {
    Seq::new(cells.len(), |i: int| cells[i]@)
}

/// The layout a grid gets for a maximum width: the one with the fewest lines
/// that fits, and where none fits, one cell per line in a single column as
/// wide as the widest cell.
pub open spec fn fitted_layout(
    widths: Seq<usize>,
    direction: Direction,
    separator_width: int,
    maximum_width: int,
) -> Layout {
    match width_layout(widths, direction, separator_width, maximum_width) {
        Some(layout) => layout,
        None => Layout { num_lines: widths.len() as int, widths: seq![widest_of(widths)] },
    }
}

/// The grid that cells of the given texts and `widths` make when they are
/// laid out for the width of `options`.
pub open spec fn laid_out(
    cells: Seq<Seq<char>>,
    widths: Seq<usize>,
    options: GridOptions,
) -> GridModel {
    GridModel {
        cells: cells,
        widths: widths,
        direction: options.direction,
        separator: options.filling.separator(),
        separator_width: options.filling.spec_width() as int,
        layout: fitted_layout(
            widths,
            options.direction,
            options.filling.spec_width() as int,
            options.width as int,
        ),
    }
}

/// The grid that cells of the given texts and `widths` make in exactly
/// `num_columns` columns.
pub open spec fn laid_out_in_columns(
    cells: Seq<Seq<char>>,
    widths: Seq<usize>,
    options: GridOptions,
    num_columns: int,
) -> GridModel {
    GridModel {
        cells: cells,
        widths: widths,
        direction: options.direction,
        separator: options.filling.separator(),
        separator_width: options.filling.spec_width() as int,
        layout: column_layout(widths, options.direction, num_columns),
    }
}

/// The grid that `cells` and `options` make: each cell as wide as it is
/// displayed, all of them laid out for the width of the options.
pub open spec fn grid_model(cells: Seq<Seq<char>>, options: GridOptions) -> GridModel {
    laid_out(cells, measured(cells), options)
}

/// Whether some layout fits cells of these `widths` into the width of
/// `options`.
pub open spec fn fits_width(widths: Seq<usize>, options: GridOptions) -> bool {
    width_layout(
        widths,
        options.direction,
        options.filling.spec_width() as int,
        options.width as int,
    ) is Some
}

/// Grids made from the same cells with the same options are written out as
/// the same text, character for character.
pub proof fn lemma_same_cells_same_text(
    first: Grid,
    second: Grid,
    cells: Seq<Seq<char>>,
    options: GridOptions,
)
    requires
        first@ == grid_model(cells, options),
        second@ == grid_model(cells, options),
    ensures
        first@.text() == second@.text(),
        first@.layout == second@.layout,
{
}

/// A grid made of no cells has no lines and is written as the empty text.
pub proof fn lemma_no_cells_no_text(options: GridOptions)
    ensures
        grid_model(Seq::empty(), options).layout.num_lines == 0,
        grid_model(Seq::empty(), options).text() == Seq::<char>::empty(),
{
    let cells = Seq::<Seq<char>>::empty();
    assert(measured(cells) =~= Seq::<usize>::empty());
}

/// One cell per line in a single column shows every cell, and the column is
/// wide enough for each of them.
pub proof fn lemma_single_column_fits(widths: Seq<usize>, direction: Direction)
    ensures
        fits_cells(
            Layout { num_lines: widths.len() as int, widths: seq![widest_of(widths)] },
            widths,
            direction,
        ),
        shows_every_cell(
            Layout { num_lines: widths.len() as int, widths: seq![widest_of(widths)] },
            widths.len() as int,
            direction,
        ),
{
    lemma_widest_of(widths);
    let layout = Layout { num_lines: widths.len() as int, widths: seq![widest_of(widths)] };
    assert(layout.widths.len() == 1);
    assert forall|i: int| 0 <= i < widths.len() implies #[trigger] has_place(
        layout,
        direction,
        i,
    ) by {
        match direction {
            Direction::LeftToRight => {
                assert(i * 1 + 0 == i);
            },
            Direction::TopToBottom => {
                assert(layout.num_lines * 0 == 0) by (nonlinear_arith);
            },
        }
        assert(cell_index(direction, i, 0, layout.num_lines, layout.widths.len() as int) == i);
    }
}

impl View for Grid {
    type V = GridModel;

    closed spec fn view(&self) -> GridModel {
        GridModel {
            cells: texts(self.cells@),
            widths: self.widths@,
            direction: self.options.direction,
            separator: self.options.filling.separator(),
            separator_width: self.options.filling.spec_width() as int,
            layout: self.dimensions@,
        }
    }
}

/// Measures every cell.
fn measure_cells(cells: &Vec<String>) -> (widths: Vec<usize>)
    ensures
        widths@ == measured(texts(cells@)),
{
    let mut widths: Vec<usize> = Vec::new();
    let mut i: usize = 0;
    while i < cells.len()
        invariant
            i <= cells.len(),
            widths.len() == i,
            forall|j: int| 0 <= j < i ==> #[trigger] widths[j] == display_width_of(cells[j]@),
        decreases cells.len() - i,
    {
        widths.push(display_width(cells[i].as_str()));
        i = i + 1;
    }
    assert(widths@ =~= measured(texts(cells@)));
    widths
}

/// Parts the cells into their texts and their widths.
fn part_cells(cells: Vec<Cell>) -> (parts: (Vec<String>, Vec<usize>))
    ensures
        texts(parts.0@) == contents_of(cells@),
        parts.1@ == widths_of(cells@),
        parts.0.len() == parts.1.len(),
{
    let mut contents: Vec<String> = Vec::new();
    let mut widths: Vec<usize> = Vec::new();
    let mut i: usize = 0;
    while i < cells.len()
        invariant
            i <= cells.len(),
            contents.len() == i,
            widths.len() == i,
            forall|j: int| 0 <= j < i ==> (#[trigger] contents[j])@ == cells[j].contents@,
            forall|j: int| 0 <= j < i ==> #[trigger] widths[j] == cells[j].width,
        decreases cells.len() - i,
    {
        let cell: &Cell = &cells[i];
        let text: String = cell.contents.clone();
        assert(text@ == cells[i as int].contents@);
        contents.push(text);
        widths.push(cell.width);
        i = i + 1;
    }
    assert(texts(contents@) =~= contents_of(cells@));
    assert(widths@ =~= widths_of(cells@));
    (contents, widths)
}

impl Grid {
    /// What holds of every grid: each cell has its width, the widest width is
    /// known, and the layout's columns are wide enough for the cells in them.
    #[verifier::type_invariant]
    pub closed spec fn wf(&self) -> bool {
        &&& self.cells.len() == self.widths.len()
        &&& self.widest_cell_width == widest_of(self.widths@)
        &&& fits_cells(self.dimensions@, self.widths@, self.options.direction)
    }

    /// Lays cells of the given texts and widths out for the width of the
    /// options. Where nothing fits, each cell gets a line of its own if
    /// `fall_back` is set, and no grid is made if it is not.
    fn lay_out(
        contents: Vec<String>,
        widths: Vec<usize>,
        options: GridOptions,
        fall_back: bool,
    ) -> (found: Option<Grid>)
        requires
            contents.len() == widths.len(),
        ensures
            found is Some <==> fall_back || fits_width(widths@, options),
            found matches Some(grid) ==> {
                &&& grid.wf()
                &&& grid@.valid()
                &&& grid@ == laid_out(texts(contents@), widths@, options)
                &&& grid@.shows_every_cell()
                &&& grid@.total_width() <= usize::MAX
                &&& fits_width(widths@, options) ==> grid@.total_width() <= options.width
                &&& fits_width(widths@, options) && total_width(
                    widths@,
                    options.filling.spec_width() as int,
                ) != options.width ==> grid@.total_width() < options.width
            },
    {
        let widest_cell_width: usize = widest_width(&widths);
        let separator_width: usize = options.filling.width();
        let dimensions: Dimensions = match width_dimensions(
            &widths,
            options.direction,
            separator_width,
            options.width,
        ) {
            Some(dimensions) => {
                proof {
                    lemma_width_layout_fits_cells(
                        widths@,
                        options.direction,
                        separator_width as int,
                        options.width as int,
                    );
                }
                dimensions
            },
            None => {
                if !fall_back {
                    return None;
                }
                let mut single: Vec<usize> = Vec::new();
                single.push(widest_cell_width);
                proof {
                    lemma_single_column_fits(widths@, options.direction);
                    assert(single@ =~= seq![widest_of(widths@)]);
                    assert(single@.drop_last() =~= Seq::<usize>::empty());
                    assert(sum_widths(single@.drop_last()) == 0);
                    assert(total_width(single@, separator_width as int) == widest_cell_width)
                        by {
                        assert(separator_width * (single@.len() - 1) == 0) by (nonlinear_arith)
                            requires
                                single@.len() == 1,
                        ;
                    }
                }
                Dimensions { num_lines: contents.len(), widths: single }
            },
        };
        Some(Grid { options, cells: contents, widths, widest_cell_width, dimensions })
    }

    /// Creates a new grid view with the given cells and options. The cells
    /// are measured and laid out in the fewest lines that fit the width of
    /// the options; where nothing fits, each cell gets a line of its own.
    pub fn new(cells: Vec<String>, options: GridOptions) -> (grid: Grid)
        ensures
            grid.wf(),
            grid@.valid(),
            grid@ == grid_model(texts(cells@), options),
            grid@.shows_every_cell(),
            grid@.total_width() <= usize::MAX,
            fits_width(measured(texts(cells@)), options) ==> grid@.total_width()
                <= options.width,
    {
        let widths: Vec<usize> = measure_cells(&cells);
        Grid::lay_out(cells, widths, options, true).unwrap()
    }

    /// Creates a grid of cells whose widths are already known, laid out as
    /// `new` lays them out.
    pub fn from_cells(cells: Vec<Cell>, options: GridOptions) -> (grid: Grid)
        ensures
            grid.wf(),
            grid@.valid(),
            grid@ == laid_out(contents_of(cells@), widths_of(cells@), options),
            grid@.shows_every_cell(),
            grid@.total_width() <= usize::MAX,
            fits_width(widths_of(cells@), options) ==> grid@.total_width() <= options.width,
    {
        let (contents, widths) = part_cells(cells);
        Grid::lay_out(contents, widths, options, true).unwrap()
    }

    /// Creates a grid only if some layout fits the cells into the width of
    /// the options, and reports `None` where `from_cells` would fall back to
    /// one cell per line.
    pub fn fit_into_width(cells: Vec<Cell>, options: GridOptions) -> (found: Option<Grid>)
        ensures
            found is Some <==> fits_width(widths_of(cells@), options),
            found matches Some(grid) ==> {
                &&& grid.wf()
                &&& grid@.valid()
                &&& grid@ == laid_out(contents_of(cells@), widths_of(cells@), options)
                &&& grid@.shows_every_cell()
                &&& grid@.total_width() <= options.width
                &&& total_width(widths_of(cells@), options.filling.spec_width() as int)
                    != options.width ==> grid@.total_width() < options.width
            },
    {
        let (contents, widths) = part_cells(cells);
        Grid::lay_out(contents, widths, options, false)
    }

    /// Creates a grid with the given cells laid out in exactly `num_columns`
    /// columns, whatever width that takes. With no columns nothing is shown.
    pub fn with_columns(cells: Vec<Cell>, options: GridOptions, num_columns: usize) -> (grid:
        Grid)
        ensures
            grid.wf(),
            grid@.valid(),
            grid@ == laid_out_in_columns(
                contents_of(cells@),
                widths_of(cells@),
                options,
                num_columns as int,
            ),
            num_columns > 0 ==> grid@.shows_every_cell(),
            num_columns > 0 ==> grid@.layout.num_lines == ceil_div(
                cells.len() as int,
                num_columns as int,
            ),
    {
        let (contents, widths) = part_cells(cells);
        let widest_cell_width: usize = widest_width(&widths);
        let dimensions: Dimensions = column_dimensions(&widths, options.direction, num_columns);
        proof {
            if num_columns > 0 {
                lemma_column_layout_fits_cells(widths@, options.direction, num_columns as int);
            }
        }
        Grid { options, cells: contents, widths, widest_cell_width, dimensions }
    }

    /// The number of terminal columns this display takes up, based on the
    /// separator width and the number and width of the columns. A width
    /// beyond the largest integer is reported as that integer.
    pub fn width(&self) -> (width: usize)
        ensures
            width == if self@.total_width() <= usize::MAX {
                self@.total_width()
            } else {
                usize::MAX as int
            },
    {
        self.dimensions.total_width(self.options.filling.width())
    }

    /// The number of rows this display takes up.
    pub fn row_count(&self) -> (rows: usize)
        ensures
            rows == self@.layout.num_lines,
    {
        self.dimensions.num_lines
    }

    /// Returns whether this display takes up as many columns as were allotted
    /// to it.
    ///
    /// It is possible to construct tables that do not actually use up all the
    /// columns that they could, such as when there are more columns than
    /// cells. In this case, a column would have a width of zero. This just
    /// checks for that.
    pub fn is_complete(&self) -> (complete: bool)
        ensures
            complete == self@.is_complete(),
    {
        let mut x: usize = 0;
        while x < self.dimensions.widths.len()
            invariant
                x <= self.dimensions.widths.len(),
                forall|c: int| 0 <= c < x ==> self.dimensions.widths[c] > 0,
            decreases self.dimensions.widths.len() - x,
        {
            if self.dimensions.widths[x] == 0 {
                assert(self@.layout.widths[x as int] == 0);
                return false;
            }
            x = x + 1;
        }
        true
    }

    /// Writes the grid out as text, one line for each row. Every cell but
    /// those of the last column is padded with spaces to the width of its
    /// column and followed by the separator; positions past the last cell
    /// are left out.
    pub fn to_string(&self) -> (text: String)
        ensures
            text@ == self@.text(),
    {
        proof {
            use_type_invariant(self);
        }
        let separator: String = self.options.filling.separator_text();
        let num_lines: usize = self.dimensions.num_lines;
        let num_columns: usize = self.dimensions.widths.len();
        let mut out: String = String::new();
        let mut y: usize = 0;
        while y < num_lines
            invariant
                self.wf(),
                y <= num_lines,
                num_lines == self.dimensions.num_lines,
                num_columns == self.dimensions.widths.len(),
                separator@ == self@.separator,
                out@ == self@.lines_text(y as int),
            decreases num_lines - y,
        {
            let ghost before = out@;
            let mut x: usize = 0;
            while x < num_columns
                invariant
                    self.wf(),
                    y < num_lines,
                    x <= num_columns,
                    num_lines == self.dimensions.num_lines,
                    num_columns == self.dimensions.widths.len(),
                    separator@ == self@.separator,
                    out@ == before + self@.line_start(y as int, x as int),
                decreases num_columns - x,
            {
                let ghost index = self@.index_at(y as int, x as int);
                let ghost line_so_far = self@.line_start(y as int, x as int);
                let num: Option<usize> = match self.options.direction {
                    Direction::LeftToRight => match y.checked_mul(num_columns) {
                        Some(product) => product.checked_add(x),
                        None => None,
                    },
                    // A position that overflows lies past the last cell.
                    Direction::TopToBottom => match num_lines.checked_mul(x) {
                        Some(product) => y.checked_add(product),
                        None => None,
                    },
                };
                proof {
                    assert(y * num_columns >= 0 && num_lines * x >= 0) by (nonlinear_arith)
                        requires
                            y >= 0,
                            num_columns >= 0,
                            num_lines >= 0,
                            x >= 0,
                    ;
                    assert(match num {
                        Some(n) => n == index,
                        None => index > usize::MAX,
                    });
                }
                let shown: bool = match num {
                    Some(n) => n < self.cells.len(),
                    None => false,
                };
                if shown {
                    let n: usize = num.unwrap();
                    assert(texts(self.cells@)[n as int] == self.cells[n as int]@);
                    out.append(self.cells[n].as_str());
                    if x != num_columns - 1 {
                        assert(self.widths[n as int] <= self.dimensions.widths[x as int]);
                        let padding_size: usize = self.dimensions.widths[x] - self.widths[n];
                        push_repeated(&mut out, ' ', padding_size);
                        out.append(separator.as_str());
                    }
                }
                proof {
                    assert(out@ =~= before + (line_so_far + self@.cell_text(y as int, x as int)));
                }
                x = x + 1;
            }
            out.append("\n");
            proof {
                reveal_strlit("\n");
                assert("\n"@ =~= seq!['\n']);
                assert(out@ =~= self@.lines_text(y as int) + self@.line_text(y as int));
            }
            y = y + 1;
        }
        out
    }
}

} // verus!
