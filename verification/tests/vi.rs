//! Vi mode: its state, its key binding, search and text objects.

use soltty::keys::{Key, Modifiers, NamedKey};
use soltty::motion::{classify, WordClass};
use soltty::search::{find_matches, pick_current_match, Match, SearchDirection};
use soltty::term::Term;
use soltty::vi::{PendingOp, ViMode, VisualMode};
use soltty::vi_bind::{parse_vi_key, KeyMatch, ViKeyBind};
use soltty::yank::{around_word_bounds, extract_absolute_range, inner_word_bounds};

fn mods(ctrl: bool, alt: bool, shift: bool) -> Modifiers {
    Modifiers { ctrl, alt, shift }
}

#[test]
fn parse_default_form() {
    let k = parse_vi_key("ctrl+shift+space").unwrap();
    assert!(k.ctrl && k.shift && !k.alt);
    assert!(matches!(k.key, KeyMatch::Named(NamedKey::Space)));
}

#[test]
fn parse_letter() {
    let k = parse_vi_key("alt+v").unwrap();
    assert!(!k.ctrl && !k.shift && k.alt);
    assert!(matches!(k.key, KeyMatch::Char('v')));
}

#[test]
fn parse_case_insensitive() {
    let k = parse_vi_key("CTRL+Shift+SPACE").unwrap();
    assert!(k.ctrl && k.shift);
    assert!(matches!(k.key, KeyMatch::Named(NamedKey::Space)));
}

#[test]
fn parse_rejects_unknown() {
    assert!(parse_vi_key("ctrl+!").is_none());
    assert!(parse_vi_key("hyper+a").is_none());
}

#[test]
fn matches_exact_modifiers() {
    let k = ViKeyBind::default_activation();
    let n = Key::Character(String::from("n"));
    // Plain Ctrl+N → match.
    assert!(k.matches(&n, mods(true, false, false)));
    // Extra modifiers → reject.
    assert!(!k.matches(&n, mods(true, false, true)));
    // Missing ctrl → reject.
    assert!(!k.matches(&n, mods(false, false, false)));
}

#[test]
fn matches_letter_case_insensitive() {
    let k = parse_vi_key("ctrl+v").unwrap();
    let lower = Key::Character(String::from("v"));
    let upper = Key::Character(String::from("V"));
    assert!(k.matches(&lower, mods(true, false, false)));
    assert!(k.matches(&upper, mods(true, false, false)));
}

#[test]
fn vi_mode_starts_inactive() {
    let v = ViMode::new();
    assert!(!v.active);
    assert_eq!(v.visual, VisualMode::Off);
}

#[test]
fn enter_seeds_cursor() {
    let mut v = ViMode::new();
    v.enter((3, 7));
    assert!(v.active);
    assert_eq!(v.cursor, (3, 7));
}

#[test]
fn visual_char_selection_follows_cursor() {
    let mut v = ViMode::new();
    v.enter((2, 4));
    v.start_visual_char();
    v.cursor = (2, 9);
    let sel = v.selection(80).unwrap();
    assert_eq!(sel.anchor, (2, 4));
    assert_eq!(sel.end, (2, 9));
}

#[test]
fn visual_line_covers_full_rows() {
    let mut v = ViMode::new();
    v.enter((2, 4));
    v.start_visual_line();
    v.cursor = (5, 1);
    let sel = v.selection(80).unwrap();
    assert_eq!(sel.anchor, (2, 0));
    assert_eq!(sel.end, (5, 79));
}

#[test]
fn count_accumulates_digits() {
    let mut v = ViMode::new();
    v.push_digit(1);
    v.push_digit(5);
    assert_eq!(v.pending_count, Some(15));
    // take_count returns and resets.
    assert_eq!(v.take_count(), 15);
    assert_eq!(v.pending_count, None);
    // No digits → defaults to 1.
    assert_eq!(v.take_count(), 1);
}

#[test]
fn count_caps_to_avoid_runaway() {
    let mut v = ViMode::new();
    for _ in 0..20 {
        v.push_digit(9);
    }
    assert!(v.pending_count.unwrap() <= 10_000);
}

#[test]
fn cancel_pending_clears_count_and_op() {
    let mut v = ViMode::new();
    v.push_digit(7);
    v.pending_op = Some(PendingOp::Goto);
    v.cancel_pending();
    assert!(v.pending_count.is_none());
    assert!(v.pending_op.is_none());
}

#[test]
fn find_matches_basic() {
    let mut t = Term::new(4, 20);
    t.feed(b"hello world\r\nfoo bar baz\r\nhello again");
    let m = find_matches(&t, "hello");
    assert_eq!(m.len(), 2);
    assert_eq!(m[0].row, 0);
    assert_eq!(m[0].col_start, 0);
    assert_eq!(m[0].col_end, 4);
    assert_eq!(m[1].row, 2);
    assert_eq!(m[1].col_start, 0);
    assert_eq!(m[1].col_end, 4);
}

#[test]
fn find_matches_multiple_per_line() {
    let mut t = Term::new(2, 30);
    t.feed(b"foofoo bar foo baz");
    // "foo" appears at cols 0, 3, 11. We don't allow overlap, so the
    // run "foofoo" yields hits at 0 and 3, not 0/1/2/3 as overlapping
    // would. A hit at 0 advances 3 chars, so the next viable position
    // is col 3.
    let m = find_matches(&t, "foo");
    let cols: Vec<usize> = m.iter().map(|x| x.col_start).collect();
    assert_eq!(cols, vec![0, 3, 11]);
}

#[test]
fn find_matches_empty_query_is_empty() {
    let mut t = Term::new(2, 10);
    t.feed(b"hello");
    assert!(find_matches(&t, "").is_empty());
}

#[test]
fn pick_current_match_forward_picks_next() {
    let ms = vec![
        Match { row: 1, col_start: 0, col_end: 2 },
        Match { row: 5, col_start: 3, col_end: 5 },
        Match { row: 10, col_start: 0, col_end: 2 },
    ];
    assert_eq!(
        pick_current_match(&ms, 3, 0, SearchDirection::Forward),
        Some(1)
    );
    // Past the last → wrap to first.
    assert_eq!(
        pick_current_match(&ms, 11, 0, SearchDirection::Forward),
        Some(0)
    );
}

#[test]
fn pick_current_match_backward_picks_prev() {
    let ms = vec![
        Match { row: 1, col_start: 0, col_end: 2 },
        Match { row: 5, col_start: 3, col_end: 5 },
        Match { row: 10, col_start: 0, col_end: 2 },
    ];
    assert_eq!(
        pick_current_match(&ms, 7, 0, SearchDirection::Backward),
        Some(1)
    );
    // Before the first → wrap to last.
    assert_eq!(
        pick_current_match(&ms, 0, 0, SearchDirection::Backward),
        Some(2)
    );
}

#[test]
fn inner_word_finds_run_around_cursor() {
    let mut t = Term::new(2, 30);
    t.feed(b"hello world,foo");
    // Cursor on 'l' (col 3) — inner word is "hello" (cols 0..=4).
    let ((r1, c1), (r2, c2)) = inner_word_bounds(&t, (0, 3), false);
    assert_eq!((r1, c1), (0, 0));
    assert_eq!((r2, c2), (0, 4));

    // Cursor on space (col 5) — inner whitespace is just that one cell.
    let ((_, c1), (_, c2)) = inner_word_bounds(&t, (0, 5), false);
    assert_eq!(c1, 5);
    assert_eq!(c2, 5);

    // Cursor on ',' (col 11) — punctuation is its own class in word
    // (small) mode; just the comma.
    let ((_, c1), (_, c2)) = inner_word_bounds(&t, (0, 11), false);
    assert_eq!((c1, c2), (11, 11));

    // Big-word mode: punctuation collapses with letters, so the
    // entire "world,foo" run from col 6 to 14 is one WORD.
    let ((_, c1), (_, c2)) = inner_word_bounds(&t, (0, 11), true);
    assert_eq!((c1, c2), (6, 14));
}

#[test]
fn around_word_extends_into_trailing_ws() {
    let mut t = Term::new(2, 30);
    t.feed(b"foo  bar  baz");
    // Cursor on 'f' (col 0) → around is "foo  " (cols 0..=4).
    let ((_, c1), (_, c2)) = around_word_bounds(&t, (0, 1), false);
    assert_eq!((c1, c2), (0, 4));

    // Cursor on 'b' of "bar" (col 5) → around is "bar  " (cols 5..=9).
    let ((_, c1), (_, c2)) = around_word_bounds(&t, (0, 5), false);
    assert_eq!((c1, c2), (5, 9));
}

#[test]
fn extract_absolute_range_crosses_rows() {
    let mut t = Term::new(3, 10);
    t.feed(b"hello\r\nworld\r\nfoo");
    // Live grid only (no scrollback) — absolute row indices 0..=2.
    let s = extract_absolute_range(&t, (0, 2), (1, 1));
    assert_eq!(s, "llo\nwo");
}

#[test]
fn extract_absolute_range_normalises_swapped_endpoints() {
    let mut t = Term::new(2, 20);
    t.feed(b"abcdefghij");
    let forward = extract_absolute_range(&t, (0, 1), (0, 4));
    let backward = extract_absolute_range(&t, (0, 4), (0, 1));
    assert_eq!(forward, backward);
    assert_eq!(forward, "bcde");
}

#[test]
fn classify_word_vs_punct_vs_ws() {
    assert_eq!(classify('a', false), WordClass::Word);
    assert_eq!(classify('_', false), WordClass::Word);
    assert_eq!(classify('5', false), WordClass::Word);
    assert_eq!(classify(',', false), WordClass::Punct);
    assert_eq!(classify('/', false), WordClass::Punct);
    assert_eq!(classify(' ', false), WordClass::Whitespace);
    // Big-word mode collapses Word and Punct into Word.
    assert_eq!(classify(',', true), WordClass::Word);
    assert_eq!(classify('a', true), WordClass::Word);
    assert_eq!(classify(' ', true), WordClass::Whitespace);
}
