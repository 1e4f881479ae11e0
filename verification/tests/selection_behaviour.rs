//! Selections: covered cells, copied text and words.

use soltty::selection::{
    can_extract, copy_selection, extract_text, line_bounds, word_bounds, Selection, SelectionMode,
};
use soltty::term::Term;

fn term(rows: usize, cols: usize, bytes: &[u8]) -> Term {
    let mut t = Term::new(rows, cols);
    t.feed(bytes);
    t
}

fn between(anchor: (usize, usize), end: (usize, usize), mode: SelectionMode) -> Selection {
    Selection { anchor, end, dragging: false, mode }
}

#[test]
fn it_does_not_matter_which_end_was_first() {
    for mode in [SelectionMode::Char, SelectionMode::Block] {
        let there = between((0, 3), (2, 1), mode);
        let back = between((2, 1), (0, 3), mode);
        for row in 0..4 {
            for col in 0..6 {
                assert_eq!(there.contains(row, col), back.contains(row, col), "{row} {col}");
            }
        }
        let t = term(3, 6, b"abcdef\r\nghijkl\r\nmnopqr");
        assert_eq!(extract_text(&t, &there), extract_text(&t, &back));
    }
}

#[test]
fn both_ends_are_covered() {
    for mode in [SelectionMode::Char, SelectionMode::Block] {
        let sel = between((1, 4), (2, 0), mode);
        assert!(sel.contains(1, 4) && sel.contains(2, 0));
    }
}

#[test]
fn a_single_cell_is_empty_until_dragged() {
    let sel = Selection::new((2, 2));
    assert!(sel.is_empty());
    assert!(!between((2, 2), (2, 3), SelectionMode::Char).is_empty());
}

#[test]
fn copied_rows_lose_their_trailing_blanks() {
    let t = term(3, 6, b"ab\r\n\r\ncd");
    let sel = between((0, 0), (2, 5), SelectionMode::Char);
    assert_eq!(extract_text(&t, &sel), "ab\n\ncd");
}

#[test]
fn a_wide_character_is_copied_with_its_spacer() {
    let t = term(1, 6, "漢字x".as_bytes());
    let sel = between((0, 0), (0, 5), SelectionMode::Char);
    assert_eq!(extract_text(&t, &sel), "漢 字 x");
}

#[test]
fn a_selection_off_the_screen_copies_nothing() {
    let t = term(2, 4, b"abcd");
    let sel = between((0, 0), (7, 1), SelectionMode::Char);
    assert!(!can_extract(&t, &sel));
    assert_eq!(copy_selection(&t, &sel), "");
    let ok = between((0, 1), (0, 2), SelectionMode::Char);
    assert!(can_extract(&t, &ok));
    assert_eq!(copy_selection(&t, &ok), "bc");
}

#[test]
fn words_are_parted_by_white_space() {
    let t = term(1, 12, "a día9_x, b".as_bytes());
    assert_eq!(word_bounds(&t, 0, 3), ((0, 2), (0, 8)));
    assert_eq!(line_bounds(&t, 0), ((0, 0), (0, 11)));
}

#[test]
fn rows_of_the_history_keep_their_width_and_can_be_copied() {
    let mut t = term(2, 4, b"ab\r\nc\r\nd");
    t.resize(2, 8);
    t.scroll_view(1);
    let whole = between((0, 0), (0, 7), SelectionMode::Char);
    assert!(can_extract(&t, &whole));
    assert_eq!(extract_text(&t, &whole), "ab");
    assert_eq!(copy_selection(&t, &whole), "ab");
    let both = between((0, 1), (1, 7), SelectionMode::Char);
    assert_eq!(extract_text(&t, &both), "b\nc");
    let beyond = between((0, 6), (0, 7), SelectionMode::Char);
    assert_eq!(extract_text(&t, &beyond), "");
    let block = between((0, 1), (1, 6), SelectionMode::Block);
    assert_eq!(extract_text(&t, &block), "b  \n      ");
}
