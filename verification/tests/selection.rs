use pylon::grid::Grid;
use pylon::selection::{extract_selection_text, Selection};

fn select(start_row: usize, start_col: usize, end_row: usize, end_col: usize) -> Selection {
    Selection { start_row, start_col, end_row, end_col }
}

fn grid_of(lines: &[&str]) -> Grid {
    let cols = lines.iter().map(|line| line.chars().count()).max().unwrap();
    let mut grid = Grid::new(lines.len(), cols, 10);
    for (row, line) in lines.iter().enumerate() {
        for (col, c) in line.chars().enumerate() {
            grid.cell_mut(row, col).unwrap().ch = c;
        }
    }
    grid
}

#[test]
fn selections_are_ordered() {
    assert_eq!(select(1, 5, 3, 2).ordered(), (1, 5, 3, 2));
    assert_eq!(select(3, 2, 1, 5).ordered(), (1, 5, 3, 2));
    assert_eq!(select(1, 5, 1, 2).ordered(), (1, 2, 1, 5));
}

#[test]
fn selections_contain_what_lies_between() {
    for s in [select(1, 5, 3, 2), select(3, 2, 1, 5)] {
        assert!(s.contains(1, 5) && s.contains(1, 99) && s.contains(2, 0) && s.contains(3, 2));
        assert!(!s.contains(1, 4) && !s.contains(3, 3) && !s.contains(0, 7) && !s.contains(4, 0));
    }
    let s = select(2, 3, 2, 5);
    assert!(s.contains(2, 3) && s.contains(2, 5) && !s.contains(2, 2) && !s.contains(2, 6));
}

#[test]
fn selected_text_is_copied_line_by_line() {
    let grid = grid_of(&["ab cd  ", "ef", "", "ghij"]);
    assert_eq!(extract_selection_text(&grid, &select(0, 1, 3, 1), 0), "b cd\nef\n\ngh");
    assert_eq!(extract_selection_text(&grid, &select(3, 1, 0, 1), 0), "b cd\nef\n\ngh");
    assert_eq!(extract_selection_text(&grid, &select(0, 2, 0, 2), 0), "");
    assert_eq!(extract_selection_text(&grid, &select(0, 3, 0, 99), 0), "cd");
    assert_eq!(extract_selection_text(&grid, &select(9, 0, 10, 3), 0), "\n");
}

#[test]
fn empty_cells_are_copied_as_spaces() {
    let mut grid = grid_of(&["axb"]);
    grid.cell_mut(0, 1).unwrap().ch = '\0';
    assert_eq!(extract_selection_text(&grid, &select(0, 0, 0, 2), 0), "a b");
}

#[test]
fn text_is_copied_from_the_history() {
    let mut grid = grid_of(&["one", "two"]);
    grid.scroll_up(0, 2, 1);
    assert_eq!(extract_selection_text(&grid, &select(0, 0, 1, 2), 1), "one\ntwo");
    assert_eq!(extract_selection_text(&grid, &select(0, 0, 1, 2), 0), "two\n");
}
