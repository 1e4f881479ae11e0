//! The cell grid: what every operation keeps, and exact results at the edges.

use soltty::grid::{char_width, CellAttrs, Color, Cursor, Grid, Pen, Row};

fn text(row: &Row) -> String {
    row.cells.iter().map(|c| c.ch).collect()
}

fn screen(g: &Grid) -> Vec<String> {
    g.lines.iter().map(text).collect()
}

fn write(g: &mut Grid, s: &str) {
    for c in s.chars() {
        match c {
            '\n' => g.line_feed(),
            '\r' => g.carriage_return(),
            c => g.put_char(c),
        }
    }
}

fn filled() -> Grid {
    let mut g = Grid::new(3, 4, 100);
    write(&mut g, "abcd\r\nefgh\r\nijkl");
    g
}

#[test]
fn every_operation_keeps_the_cursor_on_the_screen() {
    let mut g = Grid::new(3, 4, 5);
    for round in 0..40usize {
        match round % 16 {
            0 => g.put_char('x'),
            1 => g.put_char('漢'),
            2 => g.line_feed(),
            3 => g.reverse_index(),
            4 => g.tab(),
            5 => g.backspace(),
            6 => g.goto(99, 99),
            7 => g.move_cursor(-100, 100),
            8 => g.scroll_up_in_region(2),
            9 => g.scroll_down_in_region(9),
            10 => g.insert_lines(1),
            11 => g.delete_lines(1),
            12 => g.insert_chars(2),
            13 => g.delete_chars(2),
            14 => g.set_scroll_region(1, 2),
            _ => g.erase_display(2),
        }
        assert!(g.cursor.row < 3 && g.cursor.col < 4, "round {round}");
        assert_eq!(g.lines.len(), 3, "round {round}");
        assert!(g.lines.iter().all(|r| r.cells.len() == 4), "round {round}");
    }
}

#[test]
fn line_feed_at_the_bottom_saves_the_top_row() {
    let mut g = filled();
    assert_eq!(g.scrollback.len(), 0);
    g.line_feed();
    assert_eq!(screen(&g), ["efgh", "ijkl", "    "]);
    assert_eq!(g.scrollback.len(), 1);
    assert_eq!(text(&g.scrollback[0]), "abcd");
}

#[test]
fn a_partial_region_saves_nothing() {
    let mut g = filled();
    g.set_scroll_region(1, 2);
    g.goto(2, 0);
    g.line_feed();
    assert_eq!(screen(&g), ["abcd", "ijkl", "    "]);
    assert_eq!(g.scrollback.len(), 0);
}

#[test]
fn history_forgets_the_oldest_row_at_its_limit() {
    let mut g = Grid::new(1, 1, 2);
    write(&mut g, "a\r\nb\r\nc\r\nd");
    let kept: Vec<String> = g.scrollback.iter().map(text).collect();
    assert_eq!(kept, ["b", "c"]);
    assert_eq!(screen(&g), ["d"]);
}

#[test]
fn any_number_may_limit_the_history() {
    let mut g = Grid::new(1, 1, usize::MAX);
    write(&mut g, "a\r\nb\r\nc\r\nd");
    let kept: Vec<String> = g.scrollback.iter().map(text).collect();
    assert_eq!(kept, ["a", "b", "c"]);
}

#[test]
fn restore_brings_back_what_was_saved() {
    let mut g = filled();
    g.goto(1, 2);
    g.pen.fg = Color::Indexed(3);
    g.save_cursor();
    g.goto(0, 0);
    g.pen = Pen::default();
    g.restore_cursor();
    assert_eq!((g.cursor.row, g.cursor.col), (1, 2));
    assert!(g.pen.fg == Color::Indexed(3));
}

#[test]
fn restore_without_a_saved_cursor_does_nothing() {
    let mut g = filled();
    g.goto(2, 1);
    g.restore_cursor();
    assert_eq!((g.cursor.row, g.cursor.col), (2, 1));
}

#[test]
fn the_last_column_waits_before_wrapping() {
    let mut g = Grid::new(2, 3, 0);
    write(&mut g, "abc");
    assert_eq!((g.cursor.row, g.cursor.col, g.cursor.wrap_next), (0, 2, true));
    g.put_char('d');
    assert_eq!(screen(&g), ["abc", "d  "]);
    assert_eq!((g.cursor.row, g.cursor.col, g.cursor.wrap_next), (1, 1, false));
}

#[test]
fn a_printed_character_is_read_back_with_its_pen() {
    let mut g = Grid::new(2, 5, 0);
    g.pen.bg = Color::Rgb(1, 2, 3);
    g.pen.attrs.set(CellAttrs::BOLD, true);
    g.goto(1, 3);
    g.put_char('Q');
    let c = g.lines[1].cells[3];
    assert_eq!(c.ch, 'Q');
    assert!(c.bg == Color::Rgb(1, 2, 3));
    assert!(c.attrs.has(CellAttrs::BOLD));
    assert!(!c.attrs.has(CellAttrs::ITALIC));
}

#[test]
fn half_a_wide_character_never_remains() {
    let mut g = Grid::new(1, 4, 0);
    write(&mut g, "漢字");
    let widths: Vec<u8> = g.lines[0].cells.iter().map(|c| c.width).collect();
    assert_eq!(widths, [2, 0, 2, 0]);
    assert_eq!(g.lines[0].cells[0].ch, '漢');
}

#[test]
fn scrolling_down_takes_back_scrolling_up() {
    let mut g = Grid::new(4, 2, 10);
    write(&mut g, "\r\nbb\r\ncc\r\ndd");
    let before = screen(&g);
    g.scroll_up_in_region(1);
    assert_eq!(screen(&g), ["bb", "cc", "dd", "  "]);
    g.scroll_down_in_region(1);
    assert_eq!(screen(&g), before);
}

#[test]
fn delete_lines_takes_back_insert_lines() {
    let mut g = Grid::new(4, 2, 10);
    write(&mut g, "aa\r\nbb");
    g.goto(1, 0);
    let before = screen(&g);
    g.insert_lines(2);
    assert_eq!(screen(&g), ["aa", "  ", "  ", "bb"]);
    g.delete_lines(2);
    assert_eq!(screen(&g), before);
}

#[test]
fn delete_chars_takes_back_insert_chars() {
    let mut g = Grid::new(1, 6, 0);
    write(&mut g, "abcd");
    g.goto(0, 1);
    g.insert_chars(2);
    assert_eq!(screen(&g), ["a  bcd"]);
    g.delete_chars(2);
    assert_eq!(screen(&g), ["abcd  "]);
}

#[test]
fn insert_chars_drops_what_leaves_the_row() {
    let mut g = filled();
    g.goto(0, 1);
    g.insert_chars(99);
    assert_eq!(screen(&g)[0], "a   ");
}

#[test]
fn a_grown_grid_shrinks_back_to_itself() {
    let mut g = filled();
    g.goto(1, 1);
    let before = screen(&g);
    g.resize(5, 9);
    assert_eq!(g.lines.len(), 5);
    assert_eq!(text(&g.lines[0]), "abcd     ");
    g.resize(3, 4);
    assert_eq!(screen(&g), before);
    assert_eq!((g.cursor.row, g.cursor.col), (1, 1));
}

#[test]
fn an_erased_screen_is_blank() {
    let mut g = filled();
    g.pen.bg = Color::Indexed(4);
    g.erase_display(2);
    assert!(g.lines.iter().all(|r| r.cells.iter().all(|c| c.ch == ' ')));
}

#[test]
fn erasing_part_of_a_line() {
    let mut g = filled();
    g.goto(1, 2);
    g.erase_line(0);
    assert_eq!(screen(&g)[1], "ef  ");
    g.goto(0, 1);
    g.erase_line(1);
    assert_eq!(screen(&g)[0], "  cd");
    g.goto(2, 0);
    g.erase_chars(2);
    assert_eq!(screen(&g)[2], "  kl");
    g.erase_line(2);
    assert_eq!(screen(&g)[2], "    ");
}

#[test]
fn erasing_above_and_below_the_cursor() {
    let mut g = filled();
    g.goto(1, 2);
    g.erase_display(0);
    assert_eq!(screen(&g), ["abcd", "ef  ", "    "]);
    let mut h = filled();
    h.goto(1, 1);
    h.erase_display(1);
    assert_eq!(screen(&h), ["    ", "  gh", "ijkl"]);
}

#[test]
fn tabs_stop_every_eight_columns() {
    let mut g = Grid::new(1, 20, 0);
    g.tab();
    assert_eq!(g.cursor.col, 8);
    g.tab();
    assert_eq!(g.cursor.col, 16);
    g.tab();
    assert_eq!(g.cursor.col, 19);
}

#[test]
fn reverse_index_at_the_top_scrolls_down() {
    let mut g = filled();
    g.goto(0, 0);
    g.reverse_index();
    assert_eq!(screen(&g), ["    ", "abcd", "efgh"]);
}

#[test]
fn ascii_fast_is_put_char() {
    let mut a = Grid::new(2, 3, 0);
    let mut b = Grid::new(2, 3, 0);
    for byte in b"hello" {
        a.put_ascii_fast(*byte);
        b.put_char(*byte as char);
    }
    assert_eq!(screen(&a), screen(&b));
    assert_eq!((a.cursor.row, a.cursor.col), (b.cursor.row, b.cursor.col));
}

#[test]
fn widths_at_the_borders_of_the_wide_ranges() {
    assert_eq!(char_width('\u{2FFF}'), 1);
    assert_eq!(char_width('\u{3000}'), 2);
    assert_eq!(char_width('\u{303E}'), 2);
    assert_eq!(char_width('\u{303F}'), 1);
    assert_eq!(char_width('\u{FF60}'), 2);
    assert_eq!(char_width('\u{FF61}'), 1);
    assert_eq!(char_width('😀'), 2);
}

#[test]
fn combining_marks_take_no_cell() {
    assert_eq!(char_width('\u{0301}'), 0);
    for (first, last) in [
        ('\u{0300}', '\u{036F}'),
        ('\u{1AB0}', '\u{1AFF}'),
        ('\u{1DC0}', '\u{1DFF}'),
        ('\u{20D0}', '\u{20FF}'),
        ('\u{FE20}', '\u{FE2F}'),
    ] {
        assert_eq!((char_width(first), char_width(last)), (0, 0));
        assert_eq!(char_width(char::from_u32(first as u32 - 1).unwrap()), 1);
    }
    for after in ['\u{0370}', '\u{1B00}', '\u{1E00}', '\u{2100}', '\u{02FF}'] {
        assert_eq!(char_width(after), 1);
    }

    let mut g = Grid::new(2, 3, 5);
    write(&mut g, "e\u{0301}a");
    assert_eq!(screen(&g), ["ea ", "   "]);
    assert_eq!(g.cursor.col, 2);
    // Nor does one carry out a pending wrap.
    write(&mut g, "b\u{0302}");
    assert!(g.cursor.wrap_next);
    assert_eq!((g.cursor.row, g.cursor.col), (0, 2));
    write(&mut g, "c");
    assert_eq!(screen(&g), ["eab", "c  "]);
}

#[test]
fn a_new_grid_shows_its_cursor_at_the_origin() {
    let c: Cursor = Grid::new(1, 1, 0).cursor;
    assert_eq!((c.row, c.col, c.visible, c.wrap_next), (0, 0, true, false));
    assert!(!Cursor::default().visible);
}

#[test]
fn a_bad_scroll_region_is_ignored() {
    let mut g = filled();
    g.set_scroll_region(1, 2);
    g.goto(1, 1);
    g.set_scroll_region(2, 1);
    g.set_scroll_region(0, 3);
    assert_eq!((g.scroll_top, g.scroll_bot), (1, 2));
    assert_eq!((g.cursor.row, g.cursor.col), (1, 1));
}

#[test]
fn resizing_leaves_the_history_alone() {
    let mut g = filled();
    write(&mut g, "\r\nmnop\r\nqrst");
    let history: Vec<String> = g.scrollback.iter().map(text).collect();
    assert_eq!(history, ["abcd", "efgh"]);
    for (rows, cols) in [(1, 1), (2, 9), (7, 3)] {
        g.resize(rows, cols);
        let after: Vec<String> = g.scrollback.iter().map(text).collect();
        assert_eq!(after, history);
    }
}

#[test]
fn wrapping_in_the_last_row_scrolls() {
    let mut g = Grid::new(2, 2, 10);
    write(&mut g, "ab\r\ncd");
    assert!(g.cursor.wrap_next);
    g.put_char('e');
    assert_eq!(screen(&g), ["cd", "e "]);
    assert_eq!((g.cursor.row, g.cursor.col), (1, 1));
    assert_eq!(text(&g.scrollback[0]), "ab");
}
