//! The dimension solver: from cell widths to the number of lines and the
//! width of every column, either for a given number of columns or for the
//! fewest lines that fit a maximum width.

use vstd::prelude::*;
use vstd::seq_lib::{commutative_foldl, lemma_fold_left_permutation, lemma_sorted_unique};
use crate::arith::{ceil_div, div_ceil, lemma_ceil_div_bounds, lemma_ceil_div_least};
use crate::dimensions::{
    cell_index,
    column_widths,
    column_widths_of,
    fits_cells,
    has_place,
    lemma_column_widths_fit,
    shows_every_cell,
    lemma_sum_widths_nonnegative,
    lemma_sum_widths_prefix,
    sum_widths,
    total_width,
    Dimensions,
    Layout,
};
use crate::options::Direction;

verus! {

/// The greatest of a list of widths, and zero for an empty list.
pub open spec fn widest_of(widths: Seq<usize>) -> usize
    decreases widths.len(),
{
    if widths.len() == 0 {
        0
    } else if widths.last() > widest_of(widths.drop_last()) {
        widths.last()
    } else {
        widest_of(widths.drop_last())
    }
}

/// No width in the list exceeds `widest_of`, and a non-empty list holds it.
pub proof fn lemma_widest_of(widths: Seq<usize>)
    ensures
        forall|i: int| 0 <= i < widths.len() ==> #[trigger] widths[i] <= widest_of(widths),
        widths.len() > 0 ==> exists|i: int|
            0 <= i < widths.len() && #[trigger] widths[i] == widest_of(widths),
    decreases widths.len(),
{
    if widths.len() > 0 {
        let shorter = widths.drop_last();
        lemma_widest_of(shorter);
        assert forall|i: int| 0 <= i < widths.len() implies #[trigger] widths[i] <= widest_of(
            widths,
        ) by {
            if i < widths.len() - 1 {
                assert(shorter[i] == widths[i]);
            }
        }
        if widths.last() > widest_of(shorter) || shorter.len() == 0 {
            assert(widths[widths.len() - 1] == widest_of(widths));
        } else {
            let i = choose|i: int| 0 <= i < shorter.len() && #[trigger] shorter[i] == widest_of(shorter);
            assert(widths[i] == widest_of(widths));
        }
    }
}

/// Finds the width of the widest cell.
pub fn widest_width(widths: &Vec<usize>) -> (widest: usize)
    ensures
        widest == widest_of(widths@),
{
    let mut widest: usize = 0;
    let mut i: usize = 0;
    while i < widths.len()
        invariant
            i <= widths.len(),
            widest == widest_of(widths@.take(i as int)),
        decreases widths.len() - i,
    {
        proof {
            assert(widths@.take(i + 1).drop_last() =~= widths@.take(i as int));
        }
        if widths[i] > widest {
            widest = widths[i];
        }
        i = i + 1;
    }
    proof {
        assert(widths@.take(i as int) =~= widths@);
    }
    widest
}

/// The widths from the widest to the narrowest.
pub open spec fn descending(widths: Seq<usize>) -> Seq<usize> {
    widths.sort_by(|a: usize, b: usize| a >= b)
}

/// How many of the widest cells a single line absorbs: starting from `count`
/// cells that fit, one more is taken for as long as the widest `count + 1`
/// cells with the separators between them stay within `maximum_width`.
pub open spec fn absorbed(
    sorted: Seq<usize>,
    separator_width: int,
    maximum_width: int,
    count: int,
) -> int
    decreases sorted.len() - count,
{
    if 0 <= count < sorted.len() && total_width(sorted.take(count + 1), separator_width)
        <= maximum_width {
        absorbed(sorted, separator_width, maximum_width, count + 1)
    } else {
        count
    }
}

/// An upper bound on the number of lines worth trying: if one line absorbs
/// every cell the bound is one line, and otherwise it is the number of lines
/// needed when each line holds as many cells as one line of the widest cells
/// absorbs.
pub open spec fn max_num_lines(
    widths: Seq<usize>,
    separator_width: int,
    maximum_width: int,
) -> int {
    let count = absorbed(descending(widths), separator_width, maximum_width, 0);
    if count >= widths.len() {
        1
    } else {
        ceil_div(widths.len() as int, count)
    }
}

/// Sorts `values` with `sort_unstable` of the standard library's slices.
/// The contract claims what its documentation promises: the result holds the
/// same values as before, in ascending order.
#[verifier::external_body]
fn sort_ascending(values: &mut Vec<usize>)
    ensures
        final(values)@.to_multiset() == old(values)@.to_multiset(),
        forall|i: int, j: int|
            0 <= i <= j < final(values)@.len() ==> final(values)@[i] <= final(values)@[j],
{
    values.sort_unstable();
}

/// An ascending list read backwards is the descending order of any list with
/// the same widths.
proof fn lemma_reverse_is_descending(widths: Seq<usize>, ascending: Seq<usize>)
    requires
        ascending.to_multiset() == widths.to_multiset(),
        forall|i: int, j: int| 0 <= i <= j < ascending.len() ==> ascending[i] <= ascending[j],
    ensures
        ascending.reverse() == descending(widths),
        ascending.len() == widths.len(),
{
    let geq = |a: usize, b: usize| a >= b;
    assert(vstd::relations::total_ordering(geq));
    widths.lemma_sort_by_ensures(geq);
    ascending.lemma_reverse_to_multiset();
    let backwards = ascending.reverse();
    assert(vstd::relations::sorted_by(backwards, geq)) by {
        assert forall|i: int, j: int| 0 <= i < j < backwards.len() implies #[trigger] geq(
            backwards[i],
            backwards[j],
        ) by {
            assert(backwards[i] == ascending[ascending.len() - 1 - i]);
            assert(backwards[j] == ascending[ascending.len() - 1 - j]);
        }
    }
    lemma_sorted_unique(backwards, descending(widths), geq);
    widths.to_multiset_ensures();
    ascending.to_multiset_ensures();
}

/// Bounds the number of lines that the search for a layout has to try, by a
/// single pass over the widths from the widest down. No cell may be wider
/// than `maximum_width`.
pub fn theoretical_max_num_lines(
    widths: &Vec<usize>,
    separator_width: usize,
    maximum_width: usize,
) -> (bound: usize)
    requires
        widest_of(widths@) <= maximum_width,
    ensures
        bound == max_num_lines(widths@, separator_width as int, maximum_width as int),
        1 <= bound,
        bound <= widths.len() || widths.len() == 0,
        widths.len() >= 1 ==> (bound == 1 <==> total_width(widths@, separator_width as int)
            <= maximum_width),
{
    proof {
        if widths.len() >= 1 {
            lemma_max_num_lines(widths@, separator_width as int, maximum_width as int);
        }
    }
    let count: usize = widths.len();
    let mut sorted: Vec<usize> = widths.clone();
    assert(sorted@ =~= widths@);
    sort_ascending(&mut sorted);
    let ghost order = sorted@.reverse();
    proof {
        lemma_reverse_is_descending(widths@, sorted@);
        lemma_widest_of(widths@);
        if count > 0 {
            widths@.lemma_sort_by_ensures(|a: usize, b: usize| a >= b);
            assert(order.contains(order[0]));
            assert(widths@.contains(order[0]));
        }
    }
    let mut fitted: usize = 0;
    let mut i: usize = 0;
    while i < count
        invariant
            i <= count,
            count == widths.len(),
            sorted.len() == count,
            order == sorted@.reverse(),
            order == descending(widths@),
            order.len() == count,
            fitted == total_width(order.take(i as int), separator_width as int),
            fitted <= maximum_width,
            absorbed(order, separator_width as int, maximum_width as int, 0) == absorbed(
                order,
                separator_width as int,
                maximum_width as int,
                i as int,
            ),
            i == 0 && count > 0 ==> order[0] <= maximum_width,
            widest_of(widths@) <= maximum_width,
        decreases count - i,
    {
        let width: usize = sorted[count - 1 - i];
        proof {
            assert(order[i as int] == width);
            assert(order.take(i + 1).drop_last() =~= order.take(i as int));
            assert(order.take(i + 1).last() == width);
            let longer = order.take(i + 1);
            let shorter = order.take(i as int);
            assert(longer.len() == i + 1 && shorter.len() == i);
            assert(sum_widths(longer) == sum_widths(shorter) + width);
            assert(separator_width * (longer.len() - 1) == separator_width * i)
                by (nonlinear_arith)
                requires
                    longer.len() == i + 1,
            ;
            if i > 0 {
                assert(separator_width * i == separator_width * (shorter.len() - 1)
                    + separator_width) by (nonlinear_arith)
                    requires
                        shorter.len() == i,
                ;
            } else {
                assert(separator_width * i == 0) by (nonlinear_arith)
                    requires
                        i == 0,
                ;
            }
            assert(total_width(order.take(i + 1), separator_width as int) == fitted + (if i
                > 0 {
                separator_width as int
            } else {
                0
            }) + width);
        }
        let gap: usize = if i > 0 {
            separator_width
        } else {
            0
        };
        let with_gap: Option<usize> = fitted.checked_add(gap);
        let next: Option<usize> = match with_gap {
            Some(sum) => sum.checked_add(width),
            None => None,
        };
        let fits: bool = match next {
            Some(sum) => sum <= maximum_width,
            None => false,
        };
        if fits {
            fitted = next.unwrap();
            i = i + 1;
        } else {
            proof {
                assert(i > 0);
                lemma_ceil_div_bounds(count as int, i as int);
                lemma_max_num_lines(widths@, separator_width as int, maximum_width as int);
            }
            return div_ceil(count, i);
        }
    }
    proof {
        assert(order.take(count as int) =~= order);
    }
    1
}

/// Taking more columns never makes the total width smaller.
pub proof fn lemma_total_width_prefix(widths: Seq<usize>, separator_width: int, k: int)
    requires
        0 <= k <= widths.len(),
        0 <= separator_width,
    ensures
        0 <= total_width(widths.take(k), separator_width) <= total_width(widths, separator_width),
{
    lemma_sum_widths_prefix(widths, k);
    lemma_sum_widths_nonnegative(widths);
    if k > 0 {
        assert(separator_width * (k - 1) <= separator_width * (widths.len() - 1))
            by (nonlinear_arith)
            requires
                0 <= separator_width,
                k <= widths.len(),
        ;
        assert(0 <= separator_width * (k - 1)) by (nonlinear_arith)
            requires
                0 <= separator_width,
                k >= 1,
        ;
    } else if widths.len() > 0 {
        assert(0 <= separator_width * (widths.len() - 1)) by (nonlinear_arith)
            requires
                0 <= separator_width,
                widths.len() >= 1,
        ;
    }
}

/// The sum of widths written as a fold, the form in which it is known not to
/// depend on the order of the widths.
proof fn lemma_sum_widths_is_fold(widths: Seq<usize>)
    ensures
        sum_widths(widths) == widths.fold_left(0int, |acc: int, w: usize| acc + w),
    decreases widths.len(),
{
    if widths.len() > 0 {
        lemma_sum_widths_is_fold(widths.drop_last());
    }
}

/// Sorting the widths changes neither their number nor their total width.
pub proof fn lemma_total_width_descending(widths: Seq<usize>, separator_width: int)
    ensures
        descending(widths).len() == widths.len(),
        total_width(descending(widths), separator_width) == total_width(widths, separator_width),
{
    let geq = |a: usize, b: usize| a >= b;
    let plus = |acc: int, w: usize| acc + w;
    assert(vstd::relations::total_ordering(geq));
    widths.lemma_sort_by_ensures(geq);
    widths.to_multiset_ensures();
    descending(widths).to_multiset_ensures();
    assert(commutative_foldl(plus));
    lemma_fold_left_permutation(descending(widths), widths, plus, 0int);
    lemma_sum_widths_is_fold(widths);
    lemma_sum_widths_is_fold(descending(widths));
}

/// Fewer lines never need fewer columns.
pub proof fn lemma_ceil_div_antitone(n: int, fewer: int, more: int)
    requires
        0 <= n,
        0 < fewer <= more,
    ensures
        ceil_div(n, more) <= ceil_div(n, fewer),
{
    lemma_ceil_div_bounds(n, fewer);
    let q = ceil_div(n, fewer);
    assert(q * more >= q * fewer) by (nonlinear_arith)
        requires
            0 <= q,
            fewer <= more,
    ;
    lemma_ceil_div_least(n, more, q);
}

/// The column widths when the cells are laid out in `num_lines` lines, with
/// as few columns as that takes.
pub open spec fn candidate(widths: Seq<usize>, direction: Direction, num_lines: int) -> Seq<usize> {
    column_widths_of(widths, direction, num_lines, ceil_div(widths.len() as int, num_lines))
}

/// Whether the layout in `num_lines` lines is narrower than `maximum_width`,
/// separators included.
pub open spec fn candidate_fits(
    widths: Seq<usize>,
    direction: Direction,
    separator_width: int,
    maximum_width: int,
    num_lines: int,
) -> bool {
    total_width(candidate(widths, direction, num_lines), separator_width) < maximum_width
}

/// The number of lines the search settles on when the layout in `num_lines`
/// lines fits: it moves to one line fewer for as long as that layout fits too.
pub open spec fn fewest_lines(
    widths: Seq<usize>,
    direction: Direction,
    separator_width: int,
    maximum_width: int,
    num_lines: int,
) -> int
    decreases num_lines,
{
    if num_lines > 1 && candidate_fits(
        widths,
        direction,
        separator_width,
        maximum_width,
        num_lines - 1,
    ) {
        fewest_lines(widths, direction, separator_width, maximum_width, num_lines - 1)
    } else {
        num_lines
    }
}

/// The layout that fits the cells into `maximum_width`, if there is one.
///
/// There is none when a cell is wider than `maximum_width`. No cells make an
/// empty layout. Cells that one line absorbs, a single cell among them, stand
/// in one line at their own widths. Otherwise the search starts at the bound
/// on the number of lines, fails if that layout does not fit, and else moves
/// down to the fewest lines reached through layouts that all fit.
pub open spec fn width_layout(
    widths: Seq<usize>,
    direction: Direction,
    separator_width: int,
    maximum_width: int,
) -> Option<Layout> {
    let bound = max_num_lines(widths, separator_width, maximum_width);
    if widest_of(widths) > maximum_width {
        None
    } else if widths.len() == 0 {
        Some(Layout { num_lines: 0, widths: Seq::empty() })
    } else if widths.len() == 1 || bound == 1 {
        Some(Layout { num_lines: 1, widths: widths })
    } else if !candidate_fits(widths, direction, separator_width, maximum_width, bound) {
        None
    } else {
        let num_lines = fewest_lines(widths, direction, separator_width, maximum_width, bound);
        Some(Layout { num_lines: num_lines, widths: candidate(widths, direction, num_lines) })
    }
}

/// The layout in exactly `num_columns` columns: as many lines as that takes,
/// and an empty layout for no columns at all.
pub open spec fn column_layout(widths: Seq<usize>, direction: Direction, num_columns: int) -> Layout {
    if num_columns <= 0 {
        Layout { num_lines: 0, widths: Seq::empty() }
    } else {
        let num_lines = ceil_div(widths.len() as int, num_columns);
        Layout {
            num_lines: num_lines,
            widths: column_widths_of(widths, direction, num_lines, num_columns),
        }
    }
}

/// Tells whether the widths add up to less than `limit`.
pub fn sum_below(widths: &Vec<usize>, limit: usize) -> (below: bool)
    ensures
        below == (sum_widths(widths@) < limit),
{
    let mut sum: usize = 0;
    let mut i: usize = 0;
    while i < widths.len()
        invariant
            i <= widths.len(),
            sum == sum_widths(widths@.take(i as int)),
            sum < limit || (i == 0 && sum == 0),
        decreases widths.len() - i,
    {
        proof {
            assert(widths@.take(i + 1).drop_last() =~= widths@.take(i as int));
            lemma_sum_widths_prefix(widths@, i + 1);
        }
        if limit <= sum || widths[i] >= limit - sum {
            return false;
        }
        sum = sum + widths[i];
        i = i + 1;
    }
    proof {
        assert(widths@.take(i as int) =~= widths@);
    }
    sum < limit
}

/// Lays the cells out in `num_columns` columns and as many lines as that
/// takes. Columns beyond the last cell get a width of zero; for no columns
/// the layout is empty.
pub fn column_dimensions(widths: &Vec<usize>, direction: Direction, num_columns: usize) -> (dimensions:
    Dimensions)
    ensures
        dimensions@ == column_layout(widths@, direction, num_columns as int),
        num_columns > 0 ==> dimensions.num_lines == ceil_div(
            widths.len() as int,
            num_columns as int,
        ),
        num_columns > 0 ==> dimensions.widths.len() == num_columns,
{
    if num_columns == 0 {
        return Dimensions { num_lines: 0, widths: Vec::new() };
    }
    let num_lines: usize = div_ceil(widths.len(), num_columns);
    column_widths(widths, direction, num_lines, num_columns)
}

/// Finds the layout with the fewest lines that fits the cells into
/// `maximum_width`, or `None` when there is none.
pub fn width_dimensions(
    widths: &Vec<usize>,
    direction: Direction,
    separator_width: usize,
    maximum_width: usize,
) -> (found: Option<Dimensions>)
    ensures
        match found {
            Some(dimensions) => width_layout(
                widths@,
                direction,
                separator_width as int,
                maximum_width as int,
            ) == Some(dimensions@),
            None => width_layout(
                widths@,
                direction,
                separator_width as int,
                maximum_width as int,
            ) is None,
        },
        (exists|i: int| 0 <= i < widths.len() && widths[i] > maximum_width) ==> found is None,
        found matches Some(dimensions) ==> total_width(
            dimensions.widths@,
            separator_width as int,
        ) <= maximum_width,
        found matches Some(dimensions) ==> total_width(widths@, separator_width as int)
            != maximum_width ==> total_width(dimensions.widths@, separator_width as int)
            < maximum_width,
{
    let count: usize = widths.len();
    let ghost sep = separator_width as int;
    let ghost max = maximum_width as int;
    proof {
        lemma_widest_of(widths@);
        if width_layout(widths@, direction, sep, max) is Some {
            lemma_width_layout_within(widths@, direction, sep, max);
        }
    }
    if widest_width(widths) > maximum_width {
        // The widest cell alone is too wide; nothing can fit.
        return None;
    }
    if count == 0 {
        return Some(Dimensions { num_lines: 0, widths: Vec::new() });
    }
    if count == 1 {
        let mut one: Vec<usize> = Vec::new();
        one.push(widths[0]);
        assert(one@ =~= widths@);
        return Some(Dimensions { num_lines: 1, widths: one });
    }
    let bound: usize = theoretical_max_num_lines(widths, separator_width, maximum_width);
    if bound == 1 {
        let natural: Vec<usize> = widths.clone();
        assert(natural@ =~= widths@);
        return Some(Dimensions { num_lines: 1, widths: natural });
    }
    // Instead of numbers of columns, look for the fewest number of lines
    // that the cells fit in.
    let mut smallest_dimensions_yet: Option<Dimensions> = None;
    let mut num_lines: usize = bound;
    let ghost mut skipping: bool = false;
    while num_lines >= 1
        invariant
            count == widths.len(),
            count >= 2,
            sep == separator_width as int,
            max == maximum_width as int,
            1 < bound <= count,
            bound == max_num_lines(widths@, sep, max),
            widest_of(widths@) <= maximum_width,
            num_lines <= bound,
            !skipping && num_lines == bound ==> smallest_dimensions_yet is None,
            !skipping && num_lines < bound ==> {
                &&& candidate_fits(widths@, direction, sep, max, bound as int)
                &&& smallest_dimensions_yet is Some
                &&& smallest_dimensions_yet->0.num_lines == num_lines + 1
                &&& smallest_dimensions_yet->0.widths@ == candidate(
                    widths@,
                    direction,
                    num_lines + 1,
                )
                &&& fewest_lines(widths@, direction, sep, max, bound as int) == fewest_lines(
                    widths@,
                    direction,
                    sep,
                    max,
                    num_lines + 1,
                )
            },
            skipping ==> {
                &&& num_lines < bound
                &&& (ceil_div(count as int, num_lines + 1) - 1) * sep > max
                &&& is_search_result(
                    widths@,
                    direction,
                    sep,
                    max,
                    bound as int,
                    smallest_dimensions_yet,
                )
            },
        decreases num_lines,
    {
        // The number of columns is the number of cells divided by the number
        // of lines, rounded up.
        let num_columns: usize = div_ceil(count, num_lines);
        proof {
            lemma_widest_of(widths@);
            if width_layout(widths@, direction, sep, max) is Some {
                lemma_width_layout_within(widths@, direction, sep, max);
            }
            lemma_ceil_div_bounds(count as int, num_lines as int);
            assert(num_columns >= 1);
            assert(count <= num_lines * num_columns) by (nonlinear_arith)
                requires
                    num_columns * num_lines >= count,
            ;
            lemma_candidate_total(widths@, direction, sep, num_lines as int);
            if skipping {
                lemma_ceil_div_antitone(count as int, num_lines as int, num_lines + 1);
                assert((num_columns - 1) * sep >= (ceil_div(count as int, num_lines + 1) - 1)
                    * sep) by (nonlinear_arith)
                    requires
                        num_columns >= ceil_div(count as int, num_lines + 1),
                        sep >= 0,
                ;
            }
        }
        // With so many columns that the separators alone are wider than the
        // available width, there is no point in laying the cells out.
        let total_separator_width: Option<usize> = (num_columns - 1).checked_mul(separator_width);
        let too_many_columns: bool = match total_separator_width {
            Some(separators) => maximum_width < separators,
            None => true,
        };
        if too_many_columns {
            proof {
                if !skipping {
                    assert(!candidate_fits(widths@, direction, sep, max, num_lines as int));
                }
                skipping = true;
            }
            num_lines = num_lines - 1;
            continue ;
        }
        assert(!skipping);
        // Remove the separator width from the available space.
        let adjusted_width: usize = maximum_width - total_separator_width.unwrap();
        let potential_dimensions = column_widths(widths, direction, num_lines, num_columns);
        if sum_below(&potential_dimensions.widths, adjusted_width) {
            assert(candidate_fits(widths@, direction, sep, max, num_lines as int));
            smallest_dimensions_yet = Some(potential_dimensions);
        } else {
            assert(!candidate_fits(widths@, direction, sep, max, num_lines as int));
            return smallest_dimensions_yet;
        }
        num_lines = num_lines - 1;
    }
    smallest_dimensions_yet
}

/// What it means for `found` to be the outcome of the search that starts at
/// `bound` lines.
spec fn is_search_result(
    widths: Seq<usize>,
    direction: Direction,
    separator_width: int,
    maximum_width: int,
    bound: int,
    found: Option<Dimensions>,
) -> bool {
    if candidate_fits(widths, direction, separator_width, maximum_width, bound) {
        &&& found is Some
        &&& found->0.num_lines == fewest_lines(
            widths,
            direction,
            separator_width,
            maximum_width,
            bound,
        )
        &&& found->0.widths@ == candidate(widths, direction, found->0.num_lines as int)
    } else {
        found is None
    }
}

/// The total width of the layout in `num_lines` lines is the sum of its
/// column widths and one separator less than it has columns.
proof fn lemma_candidate_total(
    widths: Seq<usize>,
    direction: Direction,
    separator_width: int,
    num_lines: int,
)
    requires
        widths.len() > 0,
        num_lines > 0,
        separator_width >= 0,
    ensures
        candidate(widths, direction, num_lines).len() == ceil_div(widths.len() as int, num_lines),
        total_width(candidate(widths, direction, num_lines), separator_width) == sum_widths(
            candidate(widths, direction, num_lines),
        ) + (ceil_div(widths.len() as int, num_lines) - 1) * separator_width,
        sum_widths(candidate(widths, direction, num_lines)) >= 0,
{
    lemma_ceil_div_bounds(widths.len() as int, num_lines);
    let columns = ceil_div(widths.len() as int, num_lines);
    lemma_sum_widths_nonnegative(candidate(widths, direction, num_lines));
    assert(separator_width * (columns - 1) == (columns - 1) * separator_width)
        by (nonlinear_arith);
}

/// What `absorbed` counts: starting from `count` cells that fit, it ends at a
/// number of cells that still fit and that one more cell would overflow.
pub proof fn lemma_absorbed(
    sorted: Seq<usize>,
    separator_width: int,
    maximum_width: int,
    count: int,
)
    requires
        0 <= count <= sorted.len(),
        count > 0 ==> total_width(sorted.take(count), separator_width) <= maximum_width,
    ensures
        count <= absorbed(sorted, separator_width, maximum_width, count) <= sorted.len(),
        absorbed(sorted, separator_width, maximum_width, count) > 0 ==> total_width(
            sorted.take(absorbed(sorted, separator_width, maximum_width, count)),
            separator_width,
        ) <= maximum_width,
        absorbed(sorted, separator_width, maximum_width, count) < sorted.len() ==> total_width(
            sorted.take(absorbed(sorted, separator_width, maximum_width, count) + 1),
            separator_width,
        ) > maximum_width,
    decreases sorted.len() - count,
{
    if count < sorted.len() && total_width(sorted.take(count + 1), separator_width)
        <= maximum_width {
        lemma_absorbed(sorted, separator_width, maximum_width, count + 1);
    }
}

/// The bound on the number of lines is at least one line and at most one
/// line per cell, and it is one line exactly when all cells fit in one line.
pub proof fn lemma_max_num_lines(widths: Seq<usize>, separator_width: int, maximum_width: int)
    requires
        widths.len() >= 1,
        widest_of(widths) <= maximum_width,
        0 <= separator_width,
    ensures
        1 <= max_num_lines(widths, separator_width, maximum_width) <= widths.len(),
        max_num_lines(widths, separator_width, maximum_width) == 1 <==> total_width(
            widths,
            separator_width,
        ) <= maximum_width,
{
    let order = descending(widths);
    let count = widths.len() as int;
    lemma_total_width_descending(widths, separator_width);
    lemma_widest_of(widths);
    widths.lemma_sort_by_ensures(|a: usize, b: usize| a >= b);
    assert(order.contains(order[0]));
    assert(widths.contains(order[0]));
    assert(order.take(1).drop_last() =~= Seq::<usize>::empty());
    assert(sum_widths(order.take(1).drop_last()) == 0);
    assert(order.take(1).last() == order[0]);
    assert(sum_widths(order.take(1)) == order[0]);
    assert(total_width(order.take(1), separator_width) == order[0]) by {
        assert(separator_width * (order.take(1).len() - 1) == 0) by (nonlinear_arith)
            requires
                order.take(1).len() == 1,
        ;
    }
    lemma_absorbed(order, separator_width, maximum_width, 1);
    let taken = absorbed(order, separator_width, maximum_width, 0);
    assert(taken == absorbed(order, separator_width, maximum_width, 1));
    if taken >= count {
        assert(order.take(count) =~= order);
    } else {
        lemma_total_width_prefix(order, separator_width, taken + 1);
        lemma_ceil_div_bounds(count, taken);
        assert(ceil_div(count, taken) != 1) by (nonlinear_arith)
            requires
                ceil_div(count, taken) * taken >= count,
                taken < count,
        ;
    }
}

/// The search ends at a number of lines between one and where it started,
/// and at a layout that fits if the one it started from does.
pub proof fn lemma_fewest_lines(
    widths: Seq<usize>,
    direction: Direction,
    separator_width: int,
    maximum_width: int,
    num_lines: int,
)
    requires
        1 <= num_lines,
    ensures
        1 <= fewest_lines(widths, direction, separator_width, maximum_width, num_lines)
            <= num_lines,
        candidate_fits(widths, direction, separator_width, maximum_width, num_lines)
            ==> candidate_fits(
            widths,
            direction,
            separator_width,
            maximum_width,
            fewest_lines(widths, direction, separator_width, maximum_width, num_lines),
        ),
    decreases num_lines,
{
    if num_lines > 1 && candidate_fits(
        widths,
        direction,
        separator_width,
        maximum_width,
        num_lines - 1,
    ) {
        lemma_fewest_lines(widths, direction, separator_width, maximum_width, num_lines - 1);
    }
}

/// In one line with each cell as its own column, every cell fits and is shown.
pub proof fn lemma_single_line_fits(widths: Seq<usize>, direction: Direction)
    requires
        widths.len() >= 1,
    ensures
        fits_cells(Layout { num_lines: 1, widths: widths }, widths, direction),
        shows_every_cell(Layout { num_lines: 1, widths: widths }, widths.len() as int, direction),
{
    let layout = Layout { num_lines: 1, widths: widths };
    let count = widths.len() as int;
    assert forall|i: int| 0 <= i < count implies #[trigger] has_place(layout, direction, i) by {
        match direction {
            Direction::LeftToRight => {
                assert(0 * count + i == i);
            },
            Direction::TopToBottom => {
                assert(0 + 1 * i == i);
            },
        }
        assert(cell_index(direction, 0, i, layout.num_lines, layout.widths.len() as int) == i);
    }
}

/// A layout found for a maximum width is no wider than that width, and it is
/// strictly narrower unless the cells in a single line are exactly as wide as
/// the maximum.
pub proof fn lemma_width_layout_within(
    widths: Seq<usize>,
    direction: Direction,
    separator_width: int,
    maximum_width: int,
)
    requires
        0 <= separator_width,
        0 <= maximum_width,
        width_layout(widths, direction, separator_width, maximum_width) is Some,
    ensures
        total_width(
            width_layout(widths, direction, separator_width, maximum_width)->0.widths,
            separator_width,
        ) <= maximum_width,
        total_width(widths, separator_width) != maximum_width ==> total_width(
            width_layout(widths, direction, separator_width, maximum_width)->0.widths,
            separator_width,
        ) < maximum_width,
{
    if widths.len() >= 1 {
        lemma_max_num_lines(widths, separator_width, maximum_width);
        let bound = max_num_lines(widths, separator_width, maximum_width);
        if widths.len() == 1 {
            assert(bound == 1);
        }
        if bound > 1 {
            lemma_fewest_lines(widths, direction, separator_width, maximum_width, bound);
        }
    }
}

/// A layout found for a maximum width shows every cell, in a column at least
/// as wide as the cell.
pub proof fn lemma_width_layout_fits_cells(
    widths: Seq<usize>,
    direction: Direction,
    separator_width: int,
    maximum_width: int,
)
    requires
        0 <= separator_width,
        width_layout(widths, direction, separator_width, maximum_width) is Some,
    ensures
        fits_cells(
            width_layout(widths, direction, separator_width, maximum_width)->0,
            widths,
            direction,
        ),
        shows_every_cell(
            width_layout(widths, direction, separator_width, maximum_width)->0,
            widths.len() as int,
            direction,
        ),
        width_layout(widths, direction, separator_width, maximum_width)->0.num_lines >= 0,
{
    let bound = max_num_lines(widths, separator_width, maximum_width);
    if widths.len() == 0 {
    } else if widths.len() == 1 || bound == 1 {
        lemma_single_line_fits(widths, direction);
    } else {
        lemma_max_num_lines(widths, separator_width, maximum_width);
        lemma_fewest_lines(widths, direction, separator_width, maximum_width, bound);
        let num_lines = fewest_lines(widths, direction, separator_width, maximum_width, bound);
        let num_columns = ceil_div(widths.len() as int, num_lines);
        lemma_ceil_div_bounds(widths.len() as int, num_lines);
        assert(widths.len() <= num_lines * num_columns) by (nonlinear_arith)
            requires
                num_columns * num_lines >= widths.len(),
        ;
        lemma_column_widths_fit(widths, direction, num_lines, num_columns);
    }
}

/// A layout in a given number of columns shows every cell, in a column at
/// least as wide as the cell.
pub proof fn lemma_column_layout_fits_cells(
    widths: Seq<usize>,
    direction: Direction,
    num_columns: int,
)
    requires
        0 < num_columns,
    ensures
        fits_cells(column_layout(widths, direction, num_columns), widths, direction),
        shows_every_cell(
            column_layout(widths, direction, num_columns),
            widths.len() as int,
            direction,
        ),
{
    let num_lines = ceil_div(widths.len() as int, num_columns);
    lemma_ceil_div_bounds(widths.len() as int, num_columns);
    lemma_column_widths_fit(widths, direction, num_lines, num_columns);
}

} // verus!
