//! The shape of a solved grid: how many lines it has and how wide each column
//! is, together with the mapping between a cell's position in the list and its
//! place in the grid.

use vstd::prelude::*;
use vstd::arithmetic::div_mod::lemma_fundamental_div_mod_converse;
use crate::options::Direction;

verus! {

/// A solved layout.
#[derive(PartialEq, Eq, Debug)]
pub struct Dimensions {
    /// The number of lines in the grid.
    pub num_lines: usize,
    /// The width of each column in the grid. The length of this vector serves
    /// as the number of columns.
    pub widths: Vec<usize>,
}

/// What a layout says, as mathematics: the number of lines and the width of
/// each column.
pub struct Layout {
    pub num_lines: int,
    pub widths: Seq<usize>,
}

impl View for Dimensions {
    type V = Layout;

    open spec fn view(&self) -> Layout {
        Layout { num_lines: self.num_lines as int, widths: self.widths@ }
    }
}

/// The sum of a list of widths.
pub open spec fn sum_widths(widths: Seq<usize>) -> int
    decreases widths.len(),
{
    if widths.len() == 0 {
        0
    } else {
        sum_widths(widths.drop_last()) + widths.last()
    }
}

/// The number of terminal columns taken up by columns of these `widths` with
/// a separator of `separator_width` between each neighbouring pair.
pub open spec fn total_width(widths: Seq<usize>, separator_width: int) -> int {
    if widths.len() == 0 {
        0
    } else {
        sum_widths(widths) + separator_width * (widths.len() - 1)
    }
}

/// The column that holds the cell at position `index` of the list.
pub open spec fn column_of(direction: Direction, index: int, num_lines: int, num_columns: int) -> int {
    match direction {
        Direction::LeftToRight => index % num_columns,
        Direction::TopToBottom => index / num_lines,
    }
}

/// The position in the list of the cell shown in line `y`, column `x`.
pub open spec fn cell_index(direction: Direction, y: int, x: int, num_lines: int, num_columns: int) -> int {
    match direction {
        Direction::LeftToRight => y * num_columns + x,
        Direction::TopToBottom => y + num_lines * x,
    }
}

/// The width of one column: the greatest width among the cells that the
/// direction maps to it, and zero where it holds none.
pub open spec fn column_width(
    widths: Seq<usize>,
    direction: Direction,
    num_lines: int,
    num_columns: int,
    column: int,
) -> usize
    decreases widths.len(),
{
    if widths.len() == 0 {
        0
    } else {
        let rest = column_width(widths.drop_last(), direction, num_lines, num_columns, column);
        if column_of(direction, widths.len() - 1, num_lines, num_columns) == column && widths.last()
            > rest {
            widths.last()
        } else {
            rest
        }
    }
}

/// The widths of all `num_columns` columns of a grid of `num_lines` lines.
pub open spec fn column_widths_of(
    widths: Seq<usize>,
    direction: Direction,
    num_lines: int,
    num_columns: int,
) -> Seq<usize> {
    Seq::new(
        num_columns as nat,
        |column: int| column_width(widths, direction, num_lines, num_columns, column),
    )
}

/// A column is as wide as its widest cell: no cell mapped to it is wider, and
/// unless the width is zero some cell mapped to it has exactly that width.
pub proof fn lemma_column_width_is_max(
    widths: Seq<usize>,
    direction: Direction,
    num_lines: int,
    num_columns: int,
    column: int,
)
    ensures
        forall|i: int|
            0 <= i < widths.len() && column_of(direction, i, num_lines, num_columns) == column
                ==> #[trigger] widths[i] <= column_width(
                widths,
                direction,
                num_lines,
                num_columns,
                column,
            ),
        column_width(widths, direction, num_lines, num_columns, column) == 0 || exists|i: int|
            0 <= i < widths.len() && column_of(direction, i, num_lines, num_columns) == column
                && #[trigger] widths[i] == column_width(
                widths,
                direction,
                num_lines,
                num_columns,
                column,
            ),
    decreases widths.len(),
{
    if widths.len() > 0 {
        let shorter = widths.drop_last();
        lemma_column_width_is_max(shorter, direction, num_lines, num_columns, column);
        let whole = column_width(widths, direction, num_lines, num_columns, column);
        let rest = column_width(shorter, direction, num_lines, num_columns, column);
        assert forall|i: int|
            0 <= i < widths.len() && column_of(direction, i, num_lines, num_columns)
                == column implies #[trigger] widths[i] <= whole by {
            if i < widths.len() - 1 {
                assert(shorter[i] == widths[i]);
            }
        }
        if whole != 0 {
            if whole == rest {
                let i = choose|i: int|
                    0 <= i < shorter.len() && column_of(direction, i, num_lines, num_columns)
                        == column && #[trigger] shorter[i] == rest;
                assert(widths[i] == whole);
            } else {
                assert(widths[widths.len() - 1] == whole);
            }
        }
    }
}

/// The sum of a list of widths grows with every width appended to it.
pub proof fn lemma_sum_widths_prefix(widths: Seq<usize>, k: int)
    requires
        0 <= k <= widths.len(),
    ensures
        0 <= sum_widths(widths.take(k)) <= sum_widths(widths),
    decreases widths.len() - k,
{
    if k == widths.len() {
        assert(widths.take(k) =~= widths);
        lemma_sum_widths_nonnegative(widths);
    } else {
        lemma_sum_widths_prefix(widths, k + 1);
        assert(widths.take(k + 1).drop_last() =~= widths.take(k));
        lemma_sum_widths_nonnegative(widths.take(k));
    }
}

/// A sum of widths is never negative.
pub proof fn lemma_sum_widths_nonnegative(widths: Seq<usize>)
    ensures
        0 <= sum_widths(widths),
    decreases widths.len(),
{
    if widths.len() > 0 {
        lemma_sum_widths_nonnegative(widths.drop_last());
    }
}

/// Whether every column of `layout` is at least as wide as each cell shown in
/// it, so that a cell can be padded to the width of its column.
pub open spec fn fits_cells(layout: Layout, widths: Seq<usize>, direction: Direction) -> bool {
    forall|y: int, x: int|
        0 <= y < layout.num_lines && 0 <= x < layout.widths.len() && 0 <= #[trigger] cell_index(
            direction,
            y,
            x,
            layout.num_lines,
            layout.widths.len() as int,
        ) < widths.len() ==> widths[cell_index(
            direction,
            y,
            x,
            layout.num_lines,
            layout.widths.len() as int,
        )] <= layout.widths[x]
}

/// Whether the cell at position `index` of the list is shown somewhere in
/// `layout`.
pub open spec fn has_place(layout: Layout, direction: Direction, index: int) -> bool {
    exists|y: int, x: int|
        0 <= y < layout.num_lines && 0 <= x < layout.widths.len() && #[trigger] cell_index(
            direction,
            y,
            x,
            layout.num_lines,
            layout.widths.len() as int,
        ) == index
}

/// Whether every one of `count` cells is shown somewhere in `layout`.
pub open spec fn shows_every_cell(layout: Layout, count: int, direction: Direction) -> bool {
    forall|i: int| 0 <= i < count ==> #[trigger] has_place(layout, direction, i)
}

/// The cell shown in line `y`, column `x` is one that the direction maps to
/// column `x`.
pub proof fn lemma_column_of_cell_index(
    direction: Direction,
    y: int,
    x: int,
    num_lines: int,
    num_columns: int,
)
    requires
        0 <= y < num_lines,
        0 <= x < num_columns,
    ensures
        column_of(
            direction,
            cell_index(direction, y, x, num_lines, num_columns),
            num_lines,
            num_columns,
        ) == x,
        cell_index(direction, y, x, num_lines, num_columns) >= 0,
{
    match direction {
        Direction::LeftToRight => {
            lemma_fundamental_div_mod_converse(y * num_columns + x, num_columns, y, x);
            assert(y * num_columns >= 0) by (nonlinear_arith)
                requires
                    0 <= y,
                    0 <= num_columns,
            ;
        },
        Direction::TopToBottom => {
            assert(num_lines * x == x * num_lines) by (nonlinear_arith);
            lemma_fundamental_div_mod_converse(y + num_lines * x, num_lines, x, y);
            assert(num_lines * x >= 0) by (nonlinear_arith)
                requires
                    0 <= x,
                    0 <= num_lines,
            ;
        },
    }
}

/// In a grid with room for every cell, each cell has a place, and that place
/// is in the column the direction maps it to.
pub proof fn lemma_cell_has_place(
    direction: Direction,
    index: int,
    count: int,
    num_lines: int,
    num_columns: int,
) -> (place: (int, int))
    requires
        0 <= index < count <= num_lines * num_columns,
        0 <= num_lines,
        0 <= num_columns,
    ensures
        0 <= place.0 < num_lines,
        0 <= place.1 < num_columns,
        cell_index(direction, place.0, place.1, num_lines, num_columns) == index,
        place.1 == column_of(direction, index, num_lines, num_columns),
{
    assert(num_lines > 0 && num_columns > 0) by (nonlinear_arith)
        requires
            0 < num_lines * num_columns,
            0 <= num_lines,
            0 <= num_columns,
    ;
    match direction {
        Direction::LeftToRight => {
            let y = index / num_columns;
            let x = index % num_columns;
            assert(index == y * num_columns + x && 0 <= x < num_columns && 0 <= y && y
                < num_lines) by (nonlinear_arith)
                requires
                    y == index / num_columns,
                    x == index % num_columns,
                    0 <= index < num_lines * num_columns,
                    0 < num_columns,
            ;
            (y, x)
        },
        Direction::TopToBottom => {
            let x = index / num_lines;
            let y = index % num_lines;
            assert(index == y + num_lines * x && 0 <= y < num_lines && 0 <= x && x
                < num_columns) by (nonlinear_arith)
                requires
                    x == index / num_lines,
                    y == index % num_lines,
                    0 <= index < num_lines * num_columns,
                    0 < num_lines,
            ;
            (y, x)
        },
    }
}

/// The column widths computed for a grid with room for every cell fit the
/// cells, and the grid shows each of them.
pub proof fn lemma_column_widths_fit(
    widths: Seq<usize>,
    direction: Direction,
    num_lines: int,
    num_columns: int,
)
    requires
        0 <= num_lines,
        0 <= num_columns,
        widths.len() <= num_lines * num_columns,
    ensures
        fits_cells(
            Layout {
                num_lines,
                widths: column_widths_of(widths, direction, num_lines, num_columns),
            },
            widths,
            direction,
        ),
        shows_every_cell(
            Layout {
                num_lines,
                widths: column_widths_of(widths, direction, num_lines, num_columns),
            },
            widths.len() as int,
            direction,
        ),
{
    let layout = Layout {
        num_lines,
        widths: column_widths_of(widths, direction, num_lines, num_columns),
    };
    assert(layout.widths.len() == num_columns);
    assert forall|y: int, x: int|
        0 <= y < layout.num_lines && 0 <= x < layout.widths.len() && 0 <= #[trigger] cell_index(
            direction,
            y,
            x,
            layout.num_lines,
            layout.widths.len() as int,
        ) < widths.len() implies widths[cell_index(
        direction,
        y,
        x,
        layout.num_lines,
        layout.widths.len() as int,
    )] <= layout.widths[x] by {
        lemma_column_of_cell_index(direction, y, x, num_lines, num_columns);
        lemma_column_width_is_max(widths, direction, num_lines, num_columns, x);
    }
    assert forall|i: int| 0 <= i < widths.len() implies #[trigger] has_place(
        layout,
        direction,
        i,
    ) by {
        let place = lemma_cell_has_place(direction, i, widths.len() as int, num_lines, num_columns);
        assert(cell_index(direction, place.0, place.1, num_lines, num_columns) == i);
    }
}

impl Dimensions {
    /// The total width of the layout, separators included, where it fits the
    /// machine's integers, and the largest such integer where it does not.
    pub fn total_width(&self, separator_width: usize) -> (total: usize)
        ensures
            total == if total_width(self.widths@, separator_width as int) <= usize::MAX {
                total_width(self.widths@, separator_width as int)
            } else {
                usize::MAX as int
            },
    {
        if self.widths.len() == 0 {
            return 0;
        }
        let ghost all = self.widths@;
        let mut values: usize = 0;
        let mut i: usize = 0;
        while i < self.widths.len()
            invariant
                i <= self.widths.len(),
                all == self.widths@,
                values == sum_widths(all.take(i as int)),
            decreases self.widths.len() - i,
        {
            proof {
                assert(all.take(i + 1).drop_last() =~= all.take(i as int));
                lemma_sum_widths_prefix(all, i + 1);
            }
            match values.checked_add(self.widths[i]) {
                Some(more) => {
                    values = more;
                },
                None => {
                    proof {
                        assert(separator_width * (all.len() - 1) >= 0) by (nonlinear_arith)
                            requires
                                separator_width >= 0,
                                all.len() >= 1,
                        ;
                    }
                    return usize::MAX;
                },
            }
            i = i + 1;
        }
        proof {
            assert(all.take(i as int) =~= all);
        }
        match separator_width.checked_mul(self.widths.len() - 1) {
            Some(separators) => values.saturating_add(separators),
            None => usize::MAX,
        }
    }
}

/// Computes the width of each of `num_columns` columns when the cells of the
/// given `widths` are laid out in `num_lines` lines. The grid must have room
/// for every cell.
pub fn column_widths(
    widths: &Vec<usize>,
    direction: Direction,
    num_lines: usize,
    num_columns: usize,
) -> (dimensions: Dimensions)
    requires
        widths.len() <= num_lines * num_columns,
    ensures
        dimensions.num_lines == num_lines,
        dimensions.widths@ == column_widths_of(
            widths@,
            direction,
            num_lines as int,
            num_columns as int,
        ),
{
    let mut column_widths: Vec<usize> = Vec::new();
    let mut made: usize = 0;
    while made < num_columns
        invariant
            made <= num_columns,
            column_widths.len() == made,
            forall|c: int| 0 <= c < made ==> column_widths[c] == 0,
        decreases num_columns - made,
    {
        column_widths.push(0);
        made = made + 1;
    }
    let mut index: usize = 0;
    while index < widths.len()
        invariant
            index <= widths.len(),
            widths.len() <= num_lines * num_columns,
            column_widths.len() == num_columns,
            forall|c: int|
                0 <= c < num_columns ==> column_widths[c] == column_width(
                    widths@.take(index as int),
                    direction,
                    num_lines as int,
                    num_columns as int,
                    c,
                ),
        decreases widths.len() - index,
    {
        proof {
            assert(num_lines > 0 && num_columns > 0 && index / num_lines < num_columns)
                by (nonlinear_arith)
                requires
                    index < num_lines * num_columns,
            ;
            assert(widths@.take(index + 1).drop_last() =~= widths@.take(index as int));
        }
        let column: usize = match direction {
            Direction::LeftToRight => index % num_columns,
            Direction::TopToBottom => index / num_lines,
        };
        let cell_width: usize = widths[index];
        if cell_width > column_widths[column] {
            column_widths.set(column, cell_width);
        }
        index = index + 1;
    }
    proof {
        assert(widths@.take(index as int) =~= widths@);
        assert(column_widths@ =~= column_widths_of(
            widths@,
            direction,
            num_lines as int,
            num_columns as int,
        ));
    }
    Dimensions { num_lines, widths: column_widths }
}

} // verus!
