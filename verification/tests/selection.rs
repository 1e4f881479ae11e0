//! Selections and the text they cover.

use soltty::grid::Cell;
use soltty::selection::{extract_text, word_bounds_in_cells, Selection, SelectionMode};
use soltty::term::Term;

fn cells(s: &str) -> Vec<Cell> {
    s.chars()
        .map(|c| Cell {
            ch: c,
            ..Cell::default()
        })
        .collect()
}

#[test]
fn word_bounds_finds_run() {
    let row = cells("hello world");
    assert_eq!(word_bounds_in_cells(&row, 0), (0, 4));
    assert_eq!(word_bounds_in_cells(&row, 4), (0, 4));
    assert_eq!(word_bounds_in_cells(&row, 6), (6, 10));
    // Click on the space — doesn't expand.
    assert_eq!(word_bounds_in_cells(&row, 5), (5, 5));
}

#[test]
fn char_mode_contains_row_major() {
    let mut sel = Selection::new((1, 3));
    sel.end = (3, 5);
    sel.dragging = false;
    // Inside the row-major run.
    assert!(sel.contains(1, 3));
    assert!(sel.contains(2, 0));   // middle row, all cols
    assert!(sel.contains(3, 5));
    // Char mode: cells in cols 0-2 of row 1 are NOT included
    // (selection starts at col 3 of row 1).
    assert!(!sel.contains(1, 2));
    // After the end.
    assert!(!sel.contains(3, 6));
}

#[test]
fn block_mode_contains_rect() {
    let mut sel = Selection::new((1, 3));
    sel.end = (3, 5);
    sel.mode = SelectionMode::Block;
    sel.dragging = false;
    // Inside the rect.
    assert!(sel.contains(1, 3));
    assert!(sel.contains(2, 4));
    assert!(sel.contains(3, 5));
    // Block mode: row 2 cols 0-2 are OUTSIDE the rect, even though
    // Char mode would have included them.
    assert!(!sel.contains(2, 0));
    assert!(!sel.contains(2, 2));
    assert!(!sel.contains(2, 6));
    // Above / below the rect.
    assert!(!sel.contains(0, 4));
    assert!(!sel.contains(4, 4));
}

#[test]
fn block_mode_normalises_corners() {
    // Anchor bottom-right, end top-left → still a rect from
    // top-left to bottom-right.
    let mut sel = Selection::new((5, 9));
    sel.end = (2, 4);
    sel.mode = SelectionMode::Block;
    let ((r1, c1), (r2, c2)) = sel.block_bounds();
    assert_eq!((r1, c1), (2, 4));
    assert_eq!((r2, c2), (5, 9));
    assert!(sel.contains(3, 6));
    assert!(!sel.contains(3, 3));
}

#[test]
fn word_bounds_handles_punctuation() {
    // We treat `is_word_char` as "non-whitespace" so paths and URLs
    // get selected as one unit.
    let row = cells("/usr/local/bin");
    assert_eq!(word_bounds_in_cells(&row, 0), (0, 13));
    assert_eq!(word_bounds_in_cells(&row, 13), (0, 13));
}

#[test]
fn block_extract_keeps_columns() {
    let mut t = Term::new(4, 20);
    t.feed(b"abcdefghij\r\nklmnopqrst\r\nuvwxyz1234");
    // Rect from (0, 2) to (2, 5) — cols c..f on each of three rows.
    let mut sel = Selection::new((0, 2));
    sel.end = (2, 5);
    sel.mode = SelectionMode::Block;
    sel.dragging = false;
    let text = extract_text(&t, &sel);
    assert_eq!(text, "cdef\nmnop\nwxyz");
}

#[test]
fn block_extract_preserves_internal_whitespace() {
    let mut t = Term::new(2, 20);
    t.feed(b"aa  bb\r\ncc  dd");
    let mut sel = Selection::new((0, 1));
    sel.end = (1, 5);
    sel.mode = SelectionMode::Block;
    let text = extract_text(&t, &sel);
    // Char mode would trim trailing whitespace per line; Block keeps
    // the column-aligned spaces because the user explicitly picked
    // those columns.
    assert_eq!(text, "a  bb\nc  dd");
}
