use pylon::config::{ColorScheme, Rgb};
use pylon::gpu::atlas::{entry_at, GlyphAtlas, GlyphEntry, GlyphKey, ATLAS_SIZE};
use pylon::gpu::buffers::{clamp_rows, CellBuffer, SIDEBAR_DEFAULT_CAPACITY};
use pylon::gpu::frame::{resolve_color, FrameCell, FrameView, Paint};
use pylon::grid::{Cell, CellFlags, Color, Grid, NamedColor};
use pylon::primitives::DirtyRows;
use pylon::selection::Selection;
use pylon::vt::CursorState;

fn key(ch: char) -> GlyphKey {
    GlyphKey { ch, bold: false, italic: false }
}

fn apart(a: GlyphEntry, b: GlyphEntry) -> bool {
    a.x + a.width <= b.x || b.x + b.width <= a.x || a.y + a.height <= b.y || b.y + b.height <= a.y
}

#[test]
fn glyphs_get_places_of_their_own() {
    let mut atlas = GlyphAtlas::new();
    let mut places: Vec<GlyphEntry> = Vec::new();
    for ch in 'a'..='z' {
        for (bold, italic) in [(false, false), (true, false), (false, true), (true, true)] {
            let entry = atlas.get_or_insert(GlyphKey { ch, bold, italic }).unwrap();
            assert_eq!((entry.width, entry.height), (8, 17));
            assert_eq!((entry.bearing_x, entry.bearing_y), (0, 17));
            assert!(entry.x as i32 + 8 <= ATLAS_SIZE && entry.y as i32 + 17 <= ATLAS_SIZE);
            assert!(places.iter().all(|other| apart(*other, entry)));
            places.push(entry);
        }
    }
    assert_eq!(atlas.get_or_insert(key('a')).unwrap(), places[0]);
}

#[test]
fn a_full_atlas_refuses() {
    let mut atlas = GlyphAtlas::with_cell_size(1024, 1024);
    let mut placed = 0;
    let mut refused = None;
    for ch in 'a'..='z' {
        match atlas.get_or_insert(key(ch)) {
            Ok(_) => placed += 1,
            Err(e) => {
                refused = Some(e.message());
                break;
            }
        }
    }
    assert!(1 <= placed && placed <= 4);
    assert_eq!(refused.unwrap(), "Glyph error: atlas full");
    assert!(atlas.get_or_insert(key('a')).is_ok());
    assert!(GlyphAtlas::with_cell_size(2048, 2048).get_or_insert(key('a')).is_ok());
    assert!(GlyphAtlas::with_cell_size(2049, 1).get_or_insert(key('a')).is_err());
    assert!(GlyphAtlas::with_cell_size(0, 17).get_or_insert(key('a')).is_err());
}

#[test]
fn entries_say_where_a_glyph_stands() {
    let entry = entry_at(3, 4, 5, 6);
    assert_eq!((entry.x, entry.y, entry.width, entry.height), (3, 4, 5, 6));
    assert_eq!((entry.bearing_x, entry.bearing_y), (0, 6));
}

#[test]
fn buffers_grow_on_demand() {
    let buffer = CellBuffer::for_grid(80, 24);
    assert_eq!(buffer.capacity, 1920);
    assert_eq!(buffer.resize_if_needed(80, 24), None);
    assert_eq!(buffer.resize_if_needed(81, 24), Some(1944));
    assert_eq!(SIDEBAR_DEFAULT_CAPACITY, 1600);
    assert_eq!(clamp_rows(80, 24, 1920), 24);
    assert_eq!(clamp_rows(80, 24, 1919), 23);
    assert_eq!(clamp_rows(0, 24, 0), 24);
}

#[test]
fn colors_are_resolved() {
    assert_eq!(resolve_color(Color::Default, true), Paint::Foreground);
    assert_eq!(resolve_color(Color::Default, false), Paint::Background);
    assert_eq!(resolve_color(Color::Named(NamedColor::BrightCyan), true), Paint::Ansi(14));
    assert_eq!(resolve_color(Color::Indexed(7), true), Paint::Ansi(7));
    assert_eq!(resolve_color(Color::Indexed(16), true), Paint::Rgb(0, 0, 0));
    assert_eq!(resolve_color(Color::Indexed(16 + 36 * 5 + 6 + 2), true), Paint::Rgb(255, 95, 135));
    assert_eq!(resolve_color(Color::Indexed(232), true), Paint::Rgb(8, 8, 8));
    assert_eq!(resolve_color(Color::Indexed(255), true), Paint::Rgb(238, 238, 238));
    assert_eq!(resolve_color(Color::Rgb(1, 2, 3), false), Paint::Rgb(1, 2, 3));
}

#[test]
fn paints_come_from_the_scheme() {
    let colors = ColorScheme::default();
    assert_eq!(Paint::Foreground.rgb(&colors), colors.foreground);
    assert_eq!(Paint::Background.rgb(&colors), colors.background);
    assert_eq!(Paint::Ansi(4).rgb(&colors), Rgb { r: 0x26, g: 0x8b, b: 0xd2 });
    assert_eq!(Paint::Ansi(16).rgb(&colors), colors.foreground);
    assert_eq!(Paint::Rgb(9, 8, 7).rgb(&colors), Rgb { r: 9, g: 8, b: 7 });
}

fn view(scroll_offset: usize) -> FrameView {
    FrameView {
        scroll_offset,
        cursor: CursorState { row: 0, col: 1, visible: true },
        blink_visible: true,
        selection: None,
    }
}

#[test]
fn the_cursor_and_the_selection_exchange_colors() {
    let mut grid = Grid::new(2, 3, 5);
    *grid.cell_mut(0, 1).unwrap() = Cell {
        ch: 'x',
        fg: Color::Named(NamedColor::Red),
        bg: Color::Default,
        flags: CellFlags::empty(),
    };
    let plain = FrameCell {
        ch: Some('x'),
        fg: Paint::Ansi(1),
        bg: Paint::Background,
        flags: CellFlags::empty(),
    };
    let turned = FrameCell { fg: plain.bg, bg: plain.fg, ..plain };
    assert_eq!(view(0).frame_cell(&grid, 0, 1), turned);
    assert_eq!(FrameView { blink_visible: false, ..view(0) }.frame_cell(&grid, 0, 1), plain);
    let selection = Some(Selection { start_row: 0, start_col: 0, end_row: 0, end_col: 2 });
    assert_eq!(FrameView { selection, ..view(0) }.frame_cell(&grid, 0, 1), plain);
    let outside = view(0).frame_cell(&grid, 5, 5);
    assert_eq!((outside.ch, outside.fg), (None, Paint::Rgb(255, 255, 255)));
    assert_eq!(outside.bg, Paint::Rgb(0, 0, 0));
    grid.scroll_up(0, 2, 1);
    assert_eq!(view(1).frame_cell(&grid, 0, 1), plain);
}

#[test]
fn only_marked_rows_are_drawn() {
    let grid = Grid::new(4, 3, 0);
    let mut rows = DirtyRows::new();
    rows.mark(3);
    rows.mark(1);
    rows.mark(9);
    let drawn = view(0).draw_marked(&grid, &rows.drain(), 3, 4, 11);
    let shape: Vec<(u16, usize)> = drawn.iter().map(|row| (row.row, row.cells.len())).collect();
    assert_eq!(shape, [(1, 3), (3, 2)]);
}
