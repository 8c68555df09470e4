use term_grid::arith::div_ceil;
use term_grid::dimensions::{column_widths, Dimensions};
use term_grid::options::Direction;
use term_grid::solver::{
    column_dimensions, sum_below, theoretical_max_num_lines, widest_width, width_dimensions,
};

#[test]
fn div_ceil_rounds_up() {
    assert_eq!(div_ceil(12, 4), 3);
    assert_eq!(div_ceil(13, 4), 4);
    assert_eq!(div_ceil(0, 4), 0);
    assert_eq!(div_ceil(1, 4), 1);
    assert_eq!(div_ceil(usize::MAX, 1), usize::MAX);
    assert_eq!(div_ceil(usize::MAX, usize::MAX), 1);
}

#[test]
fn column_widths_take_the_widest_cell() {
    let widths = vec![3, 3, 5, 4, 4, 3, 5, 5, 4, 3, 6, 6];
    let across = column_widths(&widths, Direction::LeftToRight, 3, 4);
    assert_eq!(across.num_lines, 3);
    assert_eq!(across.widths, vec![4, 3, 6, 6]);
    let down = column_widths(&widths, Direction::TopToBottom, 3, 4);
    assert_eq!(down.widths, vec![5, 4, 5, 6]);
}

#[test]
fn column_without_cells_has_no_width() {
    let widths = vec![2, 7];
    let found = column_widths(&widths, Direction::TopToBottom, 2, 3);
    assert_eq!(found.widths, vec![7, 0, 0]);
}

#[test]
fn widest_width_of_cells() {
    assert_eq!(widest_width(&vec![]), 0);
    assert_eq!(widest_width(&vec![3, 9, 4]), 9);
}

#[test]
fn sum_below_compares_the_whole_sum() {
    assert!(sum_below(&vec![1, 2, 3], 7));
    assert!(!sum_below(&vec![1, 2, 3], 6));
    assert!(!sum_below(&vec![], 0));
    assert!(sum_below(&vec![], 1));
    assert!(!sum_below(&vec![usize::MAX, usize::MAX], usize::MAX));
}

#[test]
fn bound_counts_lines_of_widest_cells() {
    let widths = vec![3, 3, 5, 4, 4, 3, 5, 5, 4, 3, 6, 6];
    assert_eq!(theoretical_max_num_lines(&widths, 1, 24), 4);
    assert_eq!(theoretical_max_num_lines(&widths, 1, 1000), 1);
    assert_eq!(theoretical_max_num_lines(&vec![], 1, 0), 1);
}

#[test]
fn bound_starts_from_the_widest_cell() {
    // Only the widest cell fits a line of its own size class.
    assert_eq!(theoretical_max_num_lines(&vec![10, 1, 1], 1, 11), 3);
    assert_eq!(theoretical_max_num_lines(&vec![1, 1, 10], 1, 11), 3);
}

#[test]
fn bound_does_not_overflow() {
    let widths = vec![usize::MAX, usize::MAX];
    assert_eq!(theoretical_max_num_lines(&widths, usize::MAX, usize::MAX), 2);
}

#[test]
fn width_search_finds_three_lines() {
    let widths = vec![3, 3, 5, 4, 4, 3, 5, 5, 4, 3, 6, 6];
    let found = width_dimensions(&widths, Direction::LeftToRight, 1, 24).unwrap();
    assert_eq!(found.num_lines, 3);
    assert_eq!(found.widths, vec![4, 3, 6, 6]);
}

#[test]
fn width_search_for_no_cells() {
    let found = width_dimensions(&vec![], Direction::LeftToRight, 1, 0).unwrap();
    assert_eq!(found.num_lines, 0);
    assert_eq!(found.widths, Vec::<usize>::new());
}

#[test]
fn width_search_for_one_cell() {
    let found = width_dimensions(&vec![10], Direction::LeftToRight, 100, 10).unwrap();
    assert_eq!(found.num_lines, 1);
    assert_eq!(found.widths, vec![10]);
    assert!(width_dimensions(&vec![11], Direction::LeftToRight, 100, 10).is_none());
}

#[test]
fn width_search_takes_one_line_when_everything_fits() {
    let found = width_dimensions(&vec![2, 5, 1], Direction::TopToBottom, 2, 12).unwrap();
    assert_eq!(found.num_lines, 1);
    assert_eq!(found.widths, vec![2, 5, 1]);
}

#[test]
fn width_search_rejects_a_cell_that_is_too_wide() {
    assert!(width_dimensions(&vec![1, 2, 16], Direction::TopToBottom, 3, 15).is_none());
}

#[test]
fn width_search_with_rapidly_growing_cells() {
    let widths: Vec<usize> = (0..48u32)
        .map(|i| 2_isize.pow(i).to_string().len())
        .collect();
    // The widest cell fills the fifteen columns exactly, which is not narrower.
    assert!(width_dimensions(&widths, Direction::TopToBottom, 3, 15).is_none());
    let found = width_dimensions(&widths, Direction::TopToBottom, 3, 16).unwrap();
    assert_eq!(found.num_lines, 48);
    assert_eq!(found.widths, vec![15]);
    assert_eq!(found.total_width(3), 15);
}

#[test]
fn width_search_with_huge_numbers() {
    let widths = vec![usize::MAX - 1, usize::MAX - 1, 1];
    let found = width_dimensions(&widths, Direction::LeftToRight, usize::MAX, usize::MAX).unwrap();
    assert_eq!(found.num_lines, 3);
    assert_eq!(found.widths, vec![usize::MAX - 1]);
}

#[test]
fn fixed_columns_round_lines_up() {
    let widths = vec![1, 2, 3, 4, 5];
    let found = column_dimensions(&widths, Direction::LeftToRight, 2);
    assert_eq!(found.num_lines, 3);
    assert_eq!(found.widths, vec![5, 4]);
    let found = column_dimensions(&widths, Direction::TopToBottom, 2);
    assert_eq!(found.num_lines, 3);
    assert_eq!(found.widths, vec![3, 5]);
}

#[test]
fn fixed_columns_beyond_the_cells_are_empty() {
    let found = column_dimensions(&vec![4, 2], Direction::LeftToRight, 4);
    assert_eq!(found.num_lines, 1);
    assert_eq!(found.widths, vec![4, 2, 0, 0]);
    let found = column_dimensions(&vec![], Direction::LeftToRight, 2);
    assert_eq!(found.num_lines, 0);
    assert_eq!(found.widths, vec![0, 0]);
}

#[test]
fn fixed_columns_of_none() {
    let found = column_dimensions(&vec![4, 2], Direction::LeftToRight, 0);
    assert_eq!(found.num_lines, 0);
    assert_eq!(found.widths, Vec::<usize>::new());
}

#[test]
fn total_width_counts_separators_between_columns() {
    let dimensions = Dimensions {
        num_lines: 3,
        widths: vec![4, 3, 6, 6],
    };
    assert_eq!(dimensions.total_width(1), 22);
    assert_eq!(dimensions.total_width(0), 19);
    let none = Dimensions {
        num_lines: 0,
        widths: vec![],
    };
    assert_eq!(none.total_width(5), 0);
}

#[test]
fn total_width_stops_at_the_largest_integer() {
    let wide = Dimensions {
        num_lines: 1,
        widths: vec![usize::MAX, 1],
    };
    assert_eq!(wide.total_width(0), usize::MAX);
    let far_apart = Dimensions {
        num_lines: 1,
        widths: vec![1, 1, 1],
    };
    assert_eq!(far_apart.total_width(usize::MAX), usize::MAX);
}
