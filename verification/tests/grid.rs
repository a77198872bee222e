use pylon::grid::{Cell, CellFlags, Color, Grid, NamedColor, Row, ScrollbackBuffer};

fn row_of(text: &str) -> Row {
    let mut row = Row::new(text.chars().count());
    for (i, c) in text.chars().enumerate() {
        *row.get_mut(i).unwrap() = Cell::with_char(c);
    }
    row
}

fn text_of(row: &Row) -> String {
    (0..row.len()).map(|i| row.get(i).unwrap().ch).collect()
}

fn grid_of(lines: &[&str], history: usize) -> Grid {
    let cols = lines[0].chars().count();
    let mut grid = Grid::new(lines.len(), cols, history);
    for (i, line) in lines.iter().enumerate() {
        *grid.row_mut(i).unwrap() = row_of(line);
    }
    grid
}

fn screen(grid: &Grid) -> Vec<String> {
    (0..grid.visible_rows()).map(|i| text_of(grid.row(i).unwrap())).collect()
}

fn history(grid: &Grid) -> Vec<String> {
    (0..grid.scrollback_len()).map(|i| text_of(grid.scrollback_row(i).unwrap())).collect()
}

#[test]
fn cells_start_blank() {
    let mut cell = Cell::with_char('x');
    assert_eq!((cell.ch, cell.fg, cell.bg), ('x', Color::Default, Color::Default));
    assert_eq!(cell.flags, CellFlags::empty());
    cell.fg = Color::Named(NamedColor::Red);
    cell.flags.bold = true;
    cell.reset();
    assert_eq!(cell, Cell::blank());
    assert_eq!(cell.ch, ' ');
}

#[test]
fn flags_have_their_bits() {
    let mut flags = CellFlags::empty();
    assert_eq!(flags.bits(), 0);
    flags.bold = true;
    flags.italic = true;
    flags.strikethrough = true;
    assert_eq!(flags.bits(), 1 + 4 + 64);
    flags.dim = true;
    flags.underline = true;
    flags.inverse = true;
    flags.hidden = true;
    assert_eq!(flags.bits(), 127);
}

#[test]
fn rows_are_cleared_in_part() {
    let mut row = row_of("abcdef");
    assert_eq!(row.len(), 6);
    assert!(!row.is_empty());
    row.clear_from(4);
    assert_eq!(text_of(&row), "abcd  ");
    row.clear_to(2);
    assert_eq!(text_of(&row), "  cd  ");
    row.clear_range(3, 99);
    assert_eq!(text_of(&row), "  c   ");
    row.clear_range(5, 2);
    row.clear_from(17);
    assert_eq!(text_of(&row), "  c   ");
    row.clear();
    assert_eq!(text_of(&row), "      ");
    assert!(row.get(6).is_none());
    assert!(row.get_mut(6).is_none());
}

#[test]
fn cells_are_inserted_and_deleted() {
    let mut row = row_of("abcdef");
    row.insert_cells(2, 2);
    assert_eq!(text_of(&row), "ab  cd");
    row.delete_cells(2, 2);
    assert_eq!(text_of(&row), "abcd  ");
    row.delete_cells(1, 99);
    assert_eq!(text_of(&row), "a     ");
    row.insert_cells(0, 99);
    assert_eq!(text_of(&row), "      ");
    let mut row = row_of("abc");
    row.insert_cells(3, 1);
    row.delete_cells(3, 1);
    assert_eq!(text_of(&row), "abc");
}

#[test]
fn rows_are_resized() {
    let mut row = row_of("abc");
    row.resize(5);
    assert_eq!(text_of(&row), "abc  ");
    row.resize(2);
    assert_eq!(text_of(&row), "ab");
    row.resize(0);
    assert!(row.is_empty());
}

#[test]
fn the_ring_keeps_the_newest_rows() {
    let mut ring = ScrollbackBuffer::new(3);
    assert!(ring.is_empty());
    assert_eq!(ring.capacity(), 3);
    for c in ["a", "b", "c", "d", "e"] {
        ring.push(row_of(c));
    }
    assert_eq!(ring.len(), 3);
    let held: String = (0..3).map(|i| text_of(ring.get(i).unwrap())).collect();
    assert_eq!(held, "cde");
    assert!(ring.get(3).is_none());
}

#[test]
fn a_ring_without_room_keeps_nothing() {
    let mut ring = ScrollbackBuffer::new(0);
    ring.push(row_of("a"));
    assert!(ring.is_empty());
    assert!(ring.get(0).is_none());
}

#[test]
fn scrolling_up_fills_the_history() {
    let mut grid = grid_of(&["a", "b", "c"], 10);
    grid.scroll_up(0, 3, 2);
    assert_eq!(screen(&grid), ["c", " ", " "]);
    assert_eq!(history(&grid), ["a", "b"]);
    grid.scroll_up(0, 2, 99);
    assert_eq!(screen(&grid), [" ", " ", " "]);
    assert_eq!(history(&grid), ["a", "b", "c", " "]);
}

#[test]
fn scrolling_up_a_part_keeps_the_history() {
    let mut grid = grid_of(&["a", "b", "c", "d"], 10);
    grid.scroll_up(1, 3, 1);
    assert_eq!(screen(&grid), ["a", "c", " ", "d"]);
    assert_eq!(grid.scrollback_len(), 0);
    grid.suppress_scrollback = true;
    grid.scroll_up(0, 4, 1);
    assert_eq!(screen(&grid), ["c", " ", "d", " "]);
    assert_eq!(grid.scrollback_len(), 0);
}

#[test]
fn scrolling_nothing_changes_nothing() {
    let mut grid = grid_of(&["a", "b"], 10);
    grid.scroll_up(1, 1, 1);
    grid.scroll_up(0, 3, 1);
    grid.scroll_up(0, 2, 0);
    grid.scroll_down(2, 1, 1);
    grid.scroll_down(0, 3, 1);
    grid.scroll_down(0, 2, 0);
    assert_eq!(screen(&grid), ["a", "b"]);
    assert_eq!(grid.scrollback_len(), 0);
}

#[test]
fn scrolling_down_loses_the_bottom() {
    let mut grid = grid_of(&["a", "b", "c", "d"], 10);
    grid.scroll_down(1, 4, 2);
    assert_eq!(screen(&grid), ["a", " ", " ", "b"]);
    assert_eq!(grid.scrollback_len(), 0);
}

#[test]
fn lines_are_inserted_and_deleted_in_a_region() {
    let mut grid = grid_of(&["a", "b", "c", "d"], 10);
    grid.insert_lines(1, 1, 0, 3);
    assert_eq!(screen(&grid), ["a", " ", "b", "d"]);
    grid.delete_lines(1, 1, 0, 3);
    assert_eq!(screen(&grid), ["a", "b", " ", "d"]);
    grid.insert_lines(3, 1, 0, 3);
    grid.delete_lines(0, 1, 1, 3);
    grid.insert_lines(0, 1, 0, 9);
    assert_eq!(screen(&grid), ["a", "b", " ", "d"]);
}

#[test]
fn resizing_keeps_what_fits() {
    let mut grid = grid_of(&["abc", "def", "ghi"], 10);
    grid.resize(2, 2);
    assert_eq!(screen(&grid), ["de", "gh"]);
    assert_eq!(history(&grid), ["ab"]);
    assert_eq!((grid.visible_rows(), grid.cols()), (2, 2));
    grid.resize(3, 4);
    assert_eq!(screen(&grid), ["de  ", "gh  ", "    "]);
    assert_eq!(history(&grid), ["ab"]);
    grid.resize(3, 4);
    assert_eq!(screen(&grid), ["de  ", "gh  ", "    "]);
}

#[test]
fn the_view_shifts_into_the_history() {
    let mut grid = grid_of(&["a", "b", "c"], 10);
    grid.scroll_up(0, 3, 2);
    let shown = |grid: &Grid, offset: usize| -> String {
        (0..3).map(|row| grid.cell_scrolled(row, 0, offset).unwrap().ch).collect()
    };
    assert_eq!(shown(&grid, 0), "c  ");
    assert_eq!(shown(&grid, 1), "bc ");
    assert_eq!(shown(&grid, 2), "abc");
    assert_eq!(shown(&grid, 9), "abc");
    assert_eq!(grid.cell_scrolled(0, 0, 0).unwrap(), grid.cell(0, 0).unwrap());
    assert!(grid.cell_scrolled(0, 1, 1).is_none());
    assert!(grid.cell_scrolled(5, 0, 2).is_none());
}

#[test]
fn clearing_leaves_the_history_alone() {
    let mut grid = grid_of(&["ab", "cd"], 10);
    grid.scroll_up(0, 2, 1);
    grid.clear_visible();
    assert_eq!(screen(&grid), ["  ", "  "]);
    assert_eq!(history(&grid), ["ab"]);
    assert!(grid.cell(2, 0).is_none());
    assert!(grid.cell_mut(0, 2).is_none());
    grid.cell_mut(1, 1).unwrap().ch = 'z';
    assert_eq!(screen(&grid), ["  ", " z"]);
}
