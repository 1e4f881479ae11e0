//! The grid of cells.

use soltty::grid::{char_width, Color, Grid};

#[test]
fn char_width_ascii_is_single() {
    assert_eq!(char_width('A'), 1);
    assert_eq!(char_width(' '), 1);
    assert_eq!(char_width('5'), 1);
    assert_eq!(char_width('!'), 1);
}

#[test]
fn char_width_latin_extended_stays_single() {
    // Accented Latin and Cyrillic are single-width in monospace.
    assert_eq!(char_width('é'), 1);
    assert_eq!(char_width('ñ'), 1);
    assert_eq!(char_width('Я'), 1);
}

#[test]
fn char_width_cjk_unified_is_wide() {
    assert_eq!(char_width('中'), 2);
    assert_eq!(char_width('文'), 2);
    assert_eq!(char_width('日'), 2);
}

#[test]
fn char_width_kana_and_hangul() {
    assert_eq!(char_width('あ'), 2); // Hiragana
    assert_eq!(char_width('カ'), 2); // Katakana
    assert_eq!(char_width('한'), 2); // Hangul
}

#[test]
fn char_width_fullwidth_forms_are_wide() {
    // Fullwidth ASCII letters / digits.
    assert_eq!(char_width('Ａ'), 2);
    assert_eq!(char_width('１'), 2);
}

#[test]
fn char_width_box_drawing_is_single() {
    // Box-drawing chars are EAW=N → width 1, even though they look
    // similar to wide chars culturally.
    assert_eq!(char_width('┌'), 1);
    assert_eq!(char_width('☐'), 1);
}

#[test]
fn put_char_wide_advances_by_two_and_marks_spacer() {
    let mut g = Grid::new(3, 10, 0);
    // Pen carries SGR attrs / colors that should propagate to the
    // spacer too so the bg paints continuously.
    g.pen.fg = Color::Indexed(2);
    g.put_char('中');
    assert_eq!(g.cursor.col, 2);
    assert_eq!(g.lines[0].cells[0].ch, '中');
    assert_eq!(g.lines[0].cells[0].width, 2);
    assert_eq!(g.lines[0].cells[1].width, 0);
    assert_eq!(g.lines[0].cells[1].fg, Color::Indexed(2));
}

#[test]
fn put_char_wide_at_right_edge_wraps_first() {
    let mut g = Grid::new(3, 5, 0);
    // Move cursor to last column.
    g.put_char('a');
    g.put_char('b');
    g.put_char('c');
    g.put_char('d');
    // Now cursor is at col=4 (the last cell). A wide char here
    // can't fit — should wrap to next row before placing.
    g.put_char('中');
    assert_eq!(g.cursor.row, 1);
    assert_eq!(g.cursor.col, 2);
    assert_eq!(g.lines[1].cells[0].ch, '中');
    assert_eq!(g.lines[1].cells[0].width, 2);
    assert_eq!(g.lines[1].cells[1].width, 0);
}

#[test]
fn put_char_normal_followed_by_wide_lays_out_correctly() {
    let mut g = Grid::new(2, 10, 0);
    g.put_char('a');
    g.put_char('中');
    g.put_char('b');
    assert_eq!(g.lines[0].cells[0].ch, 'a');
    assert_eq!(g.lines[0].cells[0].width, 1);
    assert_eq!(g.lines[0].cells[1].ch, '中');
    assert_eq!(g.lines[0].cells[1].width, 2);
    assert_eq!(g.lines[0].cells[2].width, 0); // spacer
    assert_eq!(g.lines[0].cells[3].ch, 'b');
    assert_eq!(g.cursor.col, 4);
}
