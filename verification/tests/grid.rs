use term_grid::{Cell, Direction, Filling, Grid, GridOptions};

fn words(contents: &[&str]) -> Vec<String> {
    contents.iter().map(|c| c.to_string()).collect()
}

fn measured(contents: &[&str]) -> Vec<Cell> {
    contents.iter().map(|c| Cell::new(c.to_string())).collect()
}

fn options(direction: Direction, filling: Filling, width: usize) -> GridOptions {
    GridOptions {
        direction,
        filling,
        width,
    }
}

const NUMBERS: [&str; 12] = [
    "one", "two", "three", "four", "five", "six", "seven", "eight", "nine", "ten", "eleven",
    "twelve",
];

#[test]
fn empty_grid_has_no_rows() {
    let grid = Grid::new(
        Vec::new(),
        options(Direction::LeftToRight, Filling::Spaces(1), 0),
    );
    assert_eq!(grid.row_count(), 0);
    assert_eq!(grid.width(), 0);
    assert_eq!(grid.to_string(), "");
    assert!(grid.is_complete());
}

#[test]
fn found_layout_is_narrower_than_the_maximum() {
    let grid = Grid::new(
        words(&NUMBERS),
        options(Direction::LeftToRight, Filling::Spaces(1), 24),
    );
    assert_eq!(grid.width(), 4 + 3 + 6 + 6 + 3);
    assert!(grid.width() < 24);
    assert!(grid.is_complete());
}

#[test]
fn single_line_may_be_exactly_as_wide_as_the_maximum() {
    let grid = Grid::new(
        words(&["1", "2"]),
        options(Direction::LeftToRight, Filling::Spaces(2), 4),
    );
    assert_eq!(grid.row_count(), 1);
    assert_eq!(grid.width(), 4);
    assert_eq!(grid.to_string(), "1  2\n");
}

#[test]
fn cell_wider_than_the_maximum_fits_nowhere() {
    let found = Grid::fit_into_width(
        measured(&["1234567890!"]),
        options(Direction::TopToBottom, Filling::Spaces(2), 10),
    );
    assert!(found.is_none());
    let found = Grid::fit_into_width(
        measured(&["a", "1234567890!", "b"]),
        options(Direction::LeftToRight, Filling::Spaces(2), 10),
    );
    assert!(found.is_none());
}

#[test]
fn fitting_grid_is_the_one_new_makes() {
    let found = Grid::fit_into_width(
        measured(&NUMBERS),
        options(Direction::LeftToRight, Filling::Spaces(1), 24),
    )
    .unwrap();
    let grid = Grid::new(
        words(&NUMBERS),
        options(Direction::LeftToRight, Filling::Spaces(1), 24),
    );
    assert_eq!(found.to_string(), grid.to_string());
    assert_eq!(found.row_count(), 3);
}

#[test]
fn nothing_fits_when_the_first_candidate_is_exactly_as_wide() {
    // Two cells per line fill the ten columns exactly, which is not narrower.
    let found = Grid::fit_into_width(
        measured(&["aaaaa", "bbbbb", "ccccc"]),
        options(Direction::LeftToRight, Filling::Spaces(0), 10),
    );
    assert!(found.is_none());
    let grid = Grid::new(
        words(&["aaaaa", "bbbbb", "ccccc"]),
        options(Direction::LeftToRight, Filling::Spaces(0), 10),
    );
    assert_eq!(grid.row_count(), 3);
    assert_eq!(grid.to_string(), "aaaaa\nbbbbb\nccccc\n");
}

#[test]
fn falls_back_to_one_cell_per_line() {
    let grid = Grid::new(
        words(&["a", "1234567890!", "b"]),
        options(Direction::LeftToRight, Filling::Spaces(2), 10),
    );
    assert_eq!(grid.row_count(), 3);
    assert_eq!(grid.width(), 11);
    assert_eq!(grid.to_string(), "a\n1234567890!\nb\n");
}

#[test]
fn keeps_the_best_layout_when_fewer_lines_need_too_many_separators() {
    let grid = Grid::new(
        words(&["a", "b", "c", "d"]),
        options(Direction::LeftToRight, Filling::Spaces(10), 15),
    );
    assert_eq!(grid.row_count(), 2);
    assert_eq!(grid.width(), 12);
    assert_eq!(grid.to_string(), "a          b\nc          d\n");
}

#[test]
fn same_cells_and_options_give_the_same_text() {
    let first = Grid::new(
        words(&NUMBERS),
        options(Direction::TopToBottom, Filling::Text(" | ".into()), 30),
    );
    let second = Grid::new(
        words(&NUMBERS),
        options(Direction::TopToBottom, Filling::Text(" | ".into()), 30),
    );
    assert_eq!(first.to_string(), second.to_string());
    assert_eq!(first.to_string(), first.to_string());
}

#[test]
fn fixed_columns_take_as_many_rows_as_needed() {
    let grid = Grid::with_columns(
        measured(&["a", "bb", "ccc", "dddd", "eeeee"]),
        options(Direction::LeftToRight, Filling::Spaces(1), 0),
        2,
    );
    assert_eq!(grid.row_count(), 3);
    assert_eq!(grid.width(), 5 + 1 + 4);
    assert_eq!(grid.to_string(), "a     bb\nccc   dddd\neeeee \n");
    assert!(grid.is_complete());
}

#[test]
fn fixed_columns_written_downwards() {
    let grid = Grid::with_columns(
        measured(&["a", "bb", "ccc", "dddd", "eeeee"]),
        options(Direction::TopToBottom, Filling::Text("|".into()), 0),
        2,
    );
    assert_eq!(grid.row_count(), 3);
    assert_eq!(grid.to_string(), "a  |dddd\nbb |eeeee\nccc|\n");
}

#[test]
fn row_major_cell_is_at_row_times_columns_plus_column() {
    let grid = Grid::with_columns(
        measured(&["r0c0", "r0c1", "r0c2", "r1c0", "r1c1", "r1c2"]),
        options(Direction::LeftToRight, Filling::Spaces(1), 0),
        3,
    );
    assert_eq!(grid.to_string(), "r0c0 r0c1 r0c2\nr1c0 r1c1 r1c2\n");
}

#[test]
fn more_columns_than_cells_is_not_complete() {
    let grid = Grid::with_columns(
        measured(&["a", "b"]),
        options(Direction::LeftToRight, Filling::Spaces(1), 0),
        4,
    );
    assert_eq!(grid.row_count(), 1);
    assert!(!grid.is_complete());
    assert_eq!(grid.width(), 1 + 1 + 3);
    assert_eq!(grid.to_string(), "a b \n");
}

#[test]
fn no_columns_show_nothing() {
    let grid = Grid::with_columns(
        measured(&["a", "b"]),
        options(Direction::LeftToRight, Filling::Spaces(1), 0),
        0,
    );
    assert_eq!(grid.row_count(), 0);
    assert_eq!(grid.width(), 0);
    assert_eq!(grid.to_string(), "");
}

#[test]
fn tabs_replace_full_runs_of_spaces_in_the_separator() {
    let filling = Filling::Tabs {
        spaces: 10,
        tab_size: 4,
    };
    assert_eq!(filling.width(), 10);
    assert_eq!(filling.separator_text(), "\t\t  ");
    let grid = Grid::with_columns(
        measured(&["a", "bbb", "cc", "d"]),
        options(Direction::LeftToRight, filling, 0),
        2,
    );
    // Padding stays spaces; only the separator holds tabs.
    assert_eq!(grid.to_string(), "a \t\t  bbb\ncc\t\t  d\n");
    assert_eq!(grid.width(), 2 + 10 + 3);
}

#[test]
fn tab_size_of_zero_keeps_the_spaces() {
    let filling = Filling::Tabs {
        spaces: 3,
        tab_size: 0,
    };
    assert_eq!(filling.separator_text(), "   ");
    assert_eq!(filling.width(), 3);
}

#[test]
fn filling_width_is_the_display_width() {
    assert_eq!(Filling::Spaces(7).width(), 7);
    assert_eq!(Filling::Text(" | ".into()).width(), 3);
    assert_eq!(Filling::Text("你好".into()).width(), 4);
    assert_eq!(Filling::Text(String::new()).width(), 0);
    assert_eq!(Filling::Spaces(3).separator_text(), "   ");
    assert_eq!(Filling::Text("ab".into()).separator_text(), "ab");
}

#[test]
fn cells_are_measured_by_display_width() {
    let grid = Grid::new(
        words(&["你好", "ab"]),
        options(Direction::LeftToRight, Filling::Spaces(1), 40),
    );
    assert_eq!(grid.width(), 4 + 1 + 2);
    let grid = Grid::new(
        words(&["\u{1b}[31mred\u{1b}[0m", "x"]),
        options(Direction::TopToBottom, Filling::Spaces(1), 4),
    );
    assert_eq!(grid.row_count(), 2);
    assert_eq!(grid.width(), 3);
}

#[test]
fn new_cell_is_as_wide_as_its_text_is_displayed() {
    let cell = Cell::new("hello".to_string());
    assert_eq!(cell.contents, "hello");
    assert_eq!(cell.width, 5);
    assert_eq!(Cell::new("🦀".to_string()).width, 2);
    assert_eq!(Cell::new(String::new()).width, 0);
}

#[test]
fn measured_cells_make_the_grid_that_new_makes() {
    let from_cells = Grid::from_cells(
        measured(&NUMBERS),
        options(Direction::TopToBottom, Filling::Spaces(2), 30),
    );
    let new = Grid::new(
        words(&NUMBERS),
        options(Direction::TopToBottom, Filling::Spaces(2), 30),
    );
    assert_eq!(from_cells.to_string(), new.to_string());
    assert_eq!(from_cells.row_count(), new.row_count());
    assert_eq!(from_cells.width(), new.width());
}

#[test]
fn given_width_is_used_in_place_of_the_measured_one() {
    let cells = vec![
        Cell {
            contents: "ab".to_string(),
            width: 4,
        },
        Cell {
            contents: "c".to_string(),
            width: 1,
        },
        Cell {
            contents: "d".to_string(),
            width: 1,
        },
        Cell {
            contents: "e".to_string(),
            width: 1,
        },
    ];
    let grid = Grid::from_cells(
        cells,
        options(Direction::TopToBottom, Filling::Spaces(1), 8),
    );
    assert_eq!(grid.row_count(), 2);
    assert_eq!(grid.width(), 4 + 1 + 1);
    // The first cell counts for four columns, so it gets no padding.
    assert_eq!(grid.to_string(), "ab d\nc    e\n");
}

#[test]
fn cells_that_fit_nowhere_fall_back_with_their_given_widths() {
    let cells = vec![
        Cell {
            contents: "x".to_string(),
            width: 50,
        },
        Cell {
            contents: "y".to_string(),
            width: 2,
        },
    ];
    let grid = Grid::from_cells(
        cells,
        options(Direction::LeftToRight, Filling::Spaces(1), 10),
    );
    assert_eq!(grid.row_count(), 2);
    assert_eq!(grid.width(), 50);
    assert_eq!(grid.to_string(), "x\ny\n");
}
