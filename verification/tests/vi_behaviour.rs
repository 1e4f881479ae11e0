//! Vi mode: motions, commands, searches and what they copy.

use soltty::keys::{Key, Modifiers, NamedKey};
use soltty::motion::{apply_motion, classify, classify_as, Motion, WordClass};
use soltty::search::{find_matches, pick_current_match, SearchDirection};
use soltty::selection::Selection;
use soltty::term::Term;
use soltty::vi::{ViMode, VisualMode, MAX_COUNT};
use soltty::vi_bind::{parse_vi_key, ViKeyBind};
use soltty::vi_keys::{key_to_motion, vi_key};
use soltty::vi_search::{cancel_search, refresh_search, search_navigate, start_search};
use soltty::yank::{
    around_word_bounds, copy_range, cursor_to_absolute, inner_word_bounds, jump_viewport_to,
    range_fits, viewport_to_absolute,
};

const PLAIN: Modifiers = Modifiers { ctrl: false, alt: false, shift: false };
const SHIFT: Modifiers = Modifiers { ctrl: false, alt: false, shift: true };
const CTRL: Modifiers = Modifiers { ctrl: true, alt: false, shift: false };

struct World {
    vi: ViMode,
    term: Term,
    selection: Option<Selection>,
}

fn world(rows: usize, cols: usize, output: &str, at: (usize, usize)) -> World {
    let mut term = Term::new(rows, cols);
    term.feed(output.as_bytes());
    let mut vi = ViMode::new();
    vi.enter(at);
    World { vi, term, selection: None }
}

impl World {
    fn press(&mut self, key: &str, mods: Modifiers) -> Option<String> {
        let key = Key::Character(key.to_string());
        vi_key(&mut self.vi, &mut self.term, &mut self.selection, &key, mods)
    }

    fn named(&mut self, key: NamedKey) -> Option<String> {
        vi_key(&mut self.vi, &mut self.term, &mut self.selection, &Key::Named(key), PLAIN)
    }

    /// Types each character by itself; capitals come with Shift.
    fn keys(&mut self, keys: &str) -> Option<String> {
        let mut copied = None;
        for c in keys.chars() {
            let mods = if c.is_ascii_uppercase() { SHIFT } else { PLAIN };
            copied = self.press(&c.to_string(), mods);
        }
        copied
    }
}

const TEXT: &str = "alpha beta\r\n  gamma, x\r\nlast line";

#[test]
fn steps_stay_on_the_screen() {
    let mut w = world(3, 12, TEXT, (0, 0));
    w.keys("h");
    assert_eq!(w.vi.cursor, (0, 0));
    w.keys("99l");
    assert_eq!(w.vi.cursor, (0, 11));
    w.keys("99j");
    assert_eq!(w.vi.cursor, (2, 11));
    w.keys("99k");
    assert_eq!(w.vi.cursor.0, 0);
}

#[test]
fn opposite_steps_take_each_other_back() {
    let mut w = world(3, 12, TEXT, (1, 5));
    for pair in ["hl", "lh", "jk", "kj"] {
        w.keys(pair);
        assert_eq!(w.vi.cursor, (1, 5), "{pair}");
    }
}

#[test]
fn word_motions_land_on_words() {
    let mut w = world(3, 12, TEXT, (0, 0));
    w.keys("w");
    assert_eq!(w.vi.cursor, (0, 6));
    w.keys("w");
    assert_eq!(w.vi.cursor, (1, 2));
    w.keys("w");
    assert_eq!(w.vi.cursor, (1, 7));
    w.keys("b");
    assert_eq!(w.vi.cursor, (1, 2));
    w.keys("e");
    assert_eq!(w.vi.cursor, (1, 6));
    w.keys("E");
    assert_eq!(w.vi.cursor, (1, 7));
}

#[test]
fn line_and_screen_motions() {
    let mut w = world(3, 12, TEXT, (1, 5));
    w.keys("0");
    assert_eq!(w.vi.cursor, (1, 0));
    w.keys("^");
    assert_eq!(w.vi.cursor, (1, 2));
    w.keys("$");
    assert_eq!(w.vi.cursor, (1, 9));
    w.keys("H");
    assert_eq!(w.vi.cursor.0, 0);
    w.keys("L");
    assert_eq!(w.vi.cursor.0, 2);
    w.keys("M");
    assert_eq!(w.vi.cursor.0, 1);
}

#[test]
fn gg_goes_to_the_top_of_the_history() {
    let mut w = world(2, 4, "a\r\nb\r\nc\r\nd\r\ne", (1, 0));
    w.keys("gg");
    assert_eq!(w.term.viewport_offset(), 3);
    assert_eq!(w.vi.cursor, (0, 0));
    w.keys("G");
    assert_eq!(w.term.viewport_offset(), 0);
    assert_eq!(w.vi.cursor.0, 1);
}

#[test]
fn page_motions_scroll_the_view() {
    let mut w = world(4, 3, "a\r\nb\r\nc\r\nd\r\ne\r\nf\r\ng\r\nh", (3, 0));
    w.press("u", CTRL);
    assert_eq!(w.term.viewport_offset(), 2);
    w.press("d", CTRL);
    assert_eq!(w.term.viewport_offset(), 0);
    w.press("b", CTRL);
    assert_eq!(w.term.viewport_offset(), 3);
    w.press("f", CTRL);
    assert_eq!(w.term.viewport_offset(), 0);
}

#[test]
fn a_motion_repeats_as_often_as_its_count() {
    let mut w = world(3, 12, TEXT, (0, 0));
    let mut once = world(3, 12, TEXT, (0, 0));
    apply_motion(&mut w.vi, &mut w.term, Motion::Char(0, 1), 3);
    once.keys("lll");
    assert_eq!(w.vi.cursor, once.vi.cursor);
    apply_motion(&mut w.vi, &mut w.term, Motion::LineStart, 1);
    assert_eq!(w.vi.cursor, (0, 0));
}

#[test]
fn keys_stand_for_motions() {
    assert!(key_to_motion('w', true, false) == Some(Motion::WordNext { big: true }));
    assert!(key_to_motion('d', false, true) == Some(Motion::HalfPageDown));
    assert!(key_to_motion('j', true, false).is_none());
    assert!(key_to_motion('q', false, false).is_none());
}

#[test]
fn letters_of_any_script_make_words() {
    assert!(classify('é', false) == WordClass::Word);
    assert!(classify('漢', false) == WordClass::Word);
    assert!(classify('_', false) == WordClass::Word);
    assert!(classify('…', false) == WordClass::Punct);
    assert!(classify('…', true) == WordClass::Word);
    assert!(classify('\u{3000}', false) == WordClass::Whitespace);
    assert!(classify_as('a', false, false) == WordClass::Punct);
    assert!(classify_as('.', false, true) == WordClass::Word);
}

#[test]
fn vi_mode_changes_nothing_but_the_view() {
    let mut w = world(3, 12, TEXT, (0, 0));
    let before: Vec<String> = (0..3)
        .map(|r| w.term.grid().lines[r].cells.iter().map(|c| c.ch).collect())
        .collect();
    w.keys("3wvjyGggn/abc");
    let after: Vec<String> = (0..3)
        .map(|r| w.term.grid().lines[r].cells.iter().map(|c| c.ch).collect())
        .collect();
    assert_eq!(before, after);
    assert!(w.term.take_reply().is_empty());
}

#[test]
fn a_visual_selection_is_copied_and_left() {
    let mut w = world(3, 12, TEXT, (0, 6));
    w.keys("v3l");
    assert!(w.vi.visual == VisualMode::Char);
    let copied = w.keys("y");
    assert_eq!(copied.as_deref(), Some("beta"));
    assert!(!w.vi.active);
    assert!(w.selection.is_none());
}

#[test]
fn a_visual_block_is_copied() {
    let mut w = world(3, 12, TEXT, (0, 0));
    w.press("v", CTRL);
    w.keys("jl");
    assert!(w.vi.visual == VisualMode::Block);
    assert_eq!(w.keys("y").as_deref(), Some("al\n  "));
}

#[test]
fn yank_commands_copy_and_leave() {
    for (keys, copied) in [
        ("yy", "alpha beta"),
        ("Y", "alpha beta"),
        ("2yy", "alpha beta\n  gamma, x"),
        ("yw", "alpha b"),
        ("yiw", "alpha"),
        ("yaw", "alpha"),
        ("y$", "alpha beta"),
        ("y2l", "alp"),
    ] {
        let mut w = world(3, 12, TEXT, (0, 0));
        assert_eq!(w.keys(keys).as_deref(), Some(copied), "{keys}");
        assert!(!w.vi.active, "{keys}");
    }
}

#[test]
fn an_unknown_key_drops_the_command() {
    let mut w = world(3, 12, TEXT, (0, 0));
    w.keys("yq");
    assert!(w.vi.pending_op.is_none());
    w.keys("gq");
    assert!(w.vi.pending_op.is_none());
    assert_eq!(w.vi.cursor, (0, 0));
    assert!(w.vi.active);
}

#[test]
fn escape_takes_back_one_thing_at_a_time() {
    let mut w = world(3, 12, TEXT, (0, 0));
    w.keys("v");
    w.keys("/beta");
    w.named(NamedKey::Enter);
    w.keys("3");
    w.named(NamedKey::Escape);
    assert!(w.vi.search.is_none() && w.vi.pending_count.is_some());
    w.named(NamedKey::Escape);
    assert!(w.vi.pending_count.is_none() && w.vi.visual == VisualMode::Char);
    w.named(NamedKey::Escape);
    assert!(w.vi.visual == VisualMode::Off && w.vi.active);
    w.named(NamedKey::Escape);
    assert!(!w.vi.active);
}

#[test]
fn counts_stop_at_their_limit() {
    let mut vi = ViMode::new();
    for _ in 0..20 {
        vi.push_digit(9);
    }
    assert!(vi.take_count() <= MAX_COUNT);
    assert_eq!(vi.take_count(), 1);
}

#[test]
fn typing_a_query_jumps_to_the_first_match() {
    let mut w = world(3, 12, TEXT, (0, 0));
    w.keys("/ga");
    assert_eq!(w.vi.cursor, (1, 2));
    let s = w.vi.search.as_ref().unwrap();
    assert_eq!(s.matches.len(), 1);
    assert_eq!(s.current, Some(0));
    w.named(NamedKey::Backspace);
    w.named(NamedKey::Backspace);
    assert_eq!(w.vi.search.as_ref().unwrap().query, "");
    w.named(NamedKey::Escape);
    assert!(w.vi.search.is_none());
    assert!(w.vi.active);
}

#[test]
fn cancelling_a_search_goes_back_to_where_it_began() {
    let mut w = world(2, 6, "one\r\ntwo\r\nthree\r\nfour\r\nfive", (1, 2));
    start_search(&mut w.vi, &w.term, SearchDirection::Backward);
    w.vi.search.as_mut().unwrap().query.push_str("one");
    refresh_search(&mut w.vi, &mut w.term);
    assert!(w.term.viewport_offset() > 0);
    assert_ne!(w.vi.cursor, (1, 2));
    cancel_search(&mut w.vi, &mut w.term);
    assert_eq!(w.vi.cursor, (1, 2));
    assert_eq!(w.term.viewport_offset(), 0);
    assert!(w.vi.search.is_none());
}

#[test]
fn next_and_previous_take_each_other_back() {
    let mut w = world(3, 12, "ab ab\r\nab\r\nab", (0, 0));
    w.keys("/ab");
    w.named(NamedKey::Enter);
    let at = w.vi.search.as_ref().unwrap().current;
    for _ in 0..5 {
        search_navigate(&mut w.vi, &mut w.term, false);
        search_navigate(&mut w.vi, &mut w.term, true);
        assert_eq!(w.vi.search.as_ref().unwrap().current, at);
        search_navigate(&mut w.vi, &mut w.term, false);
        search_navigate(&mut w.vi, &mut w.term, false);
        search_navigate(&mut w.vi, &mut w.term, true);
        search_navigate(&mut w.vi, &mut w.term, true);
        assert_eq!(w.vi.search.as_ref().unwrap().current, at);
    }
}

#[test]
fn matches_spell_the_query_in_reading_order() {
    let mut term = Term::new(2, 8);
    term.feed(b"xaaxa\r\naab\r\naa");
    let found = find_matches(&term, "aa");
    let places: Vec<(usize, usize, usize)> =
        found.iter().map(|m| (m.row, m.col_start, m.col_end)).collect();
    assert_eq!(places.len(), 3);
    assert_eq!(places[0].0, 0);
    assert_eq!(places[0].1, 1);
    assert!(places.windows(2).all(|p| (p[0].0, p[0].1) < (p[1].0, p[1].1)));
    assert_eq!(pick_current_match(&found, 0, 2, SearchDirection::Forward), Some(1));
    assert_eq!(pick_current_match(&found, 0, 0, SearchDirection::Backward), Some(2));
    assert_eq!(pick_current_match(&[], 0, 0, SearchDirection::Forward), None);
}

#[test]
fn a_jump_brings_the_row_into_view() {
    let mut term = Term::new(3, 4);
    term.feed(b"0\r\n1\r\n2\r\n3\r\n4\r\n5\r\n6\r\n7");
    let vrow = jump_viewport_to(&mut term, 1, 3);
    assert!(vrow < 3);
    let shown: String = term.viewport_row(vrow).cells.iter().map(|c| c.ch).collect();
    assert_eq!(shown, "1   ");
}

#[test]
fn ranges_read_the_same_from_both_ends() {
    let w = world(3, 12, TEXT, (0, 0));
    assert_eq!(copy_range(&w.term, (0, 6), (1, 6)), "beta\n  gamma");
    assert_eq!(copy_range(&w.term, (1, 6), (0, 6)), "beta\n  gamma");
    assert_eq!(copy_range(&w.term, (1, 0), (9, 0)), "  gamma, x\nlast line\n");
    assert!(range_fits(&w.term, (0, 0), (0, usize::MAX)));
    let mut narrow = Term::new(2, 6);
    narrow.feed(b"abcdef\r\nx\r\ny");
    narrow.resize(2, 3);
    assert!(!range_fits(&narrow, (0, 5), (1, 0)));
    assert_eq!(copy_range(&narrow, (0, 5), (1, 0)), "");
}

#[test]
fn words_under_the_cursor() {
    let w = world(3, 12, TEXT, (0, 0));
    assert_eq!(inner_word_bounds(&w.term, (0, 2), false), ((0, 0), (0, 4)));
    assert_eq!(inner_word_bounds(&w.term, (1, 7), false), ((1, 7), (1, 7)));
    assert_eq!(inner_word_bounds(&w.term, (1, 4), true), ((1, 2), (1, 7)));
    assert_eq!(around_word_bounds(&w.term, (0, 0), false), ((0, 0), (0, 5)));
}

#[test]
fn places_count_from_the_oldest_row() {
    let mut term = Term::new(2, 3);
    term.feed(b"a\r\nb\r\nc\r\nd");
    assert_eq!(viewport_to_absolute(&term, 1, 0), 3);
    assert_eq!(viewport_to_absolute(&term, 1, 2), 1);
    term.scroll_view(1);
    assert_eq!(cursor_to_absolute(&term, (0, 2)), (1, 2));
}

#[test]
fn a_binding_wants_exactly_its_modifiers() {
    let bind = parse_vi_key("ctrl+x").unwrap();
    let key = Key::Character("X".to_string());
    for ctrl in [false, true] {
        for alt in [false, true] {
            for shift in [false, true] {
                let mods = Modifiers { ctrl, alt, shift };
                assert_eq!(bind.matches(&key, mods), ctrl && !alt && !shift);
            }
        }
    }
}

#[test]
fn the_environment_decides_on_the_binding_first() {
    let from_env = ViKeyBind::resolve(Some("ctrl+a"), Some("ctrl+b"));
    assert!(from_env.matches(&Key::Character("a".to_string()), CTRL));
    let from_config = ViKeyBind::resolve(Some("nonsense+"), Some("ctrl+b"));
    assert!(from_config.matches(&Key::Character("b".to_string()), CTRL));
    let by_default = ViKeyBind::resolve(None, None);
    assert!(by_default == ViKeyBind::default_activation());
}

#[test]
fn word_motions_do_not_scroll() {
    let mut w = world(2, 6, "one\r\ntwo\r\nthree\r\nfour\r\nfive", (0, 0));
    w.term.scroll_view(1);
    for keys in ["9w", "9b", "9e", "9W", "9B", "9E", "$", "0", "^", "H", "M", "L"] {
        w.keys(keys);
        assert_eq!(w.term.viewport_offset(), 1, "{keys}");
    }
}

#[test]
fn four_escapes_leave_vi_mode() {
    for keys in ["", "v", "V", "3", "y", "/al", "v/al", "2y", "yi"] {
        let mut w = world(3, 12, TEXT, (0, 0));
        w.keys(keys);
        assert!(w.vi.active, "{keys}");
        for _ in 0..4 {
            w.named(NamedKey::Escape);
        }
        assert!(!w.vi.active, "{keys}");
    }
}

#[test]
fn giving_up_a_search_takes_back_every_jump() {
    let mut w = world(2, 6, "one\r\ntwo\r\nthree\r\nfour\r\nfive", (1, 2));
    w.term.scroll_view(1);
    start_search(&mut w.vi, &w.term, SearchDirection::Forward);
    for query in ["one", "five", "nowhere", "t", ""] {
        w.vi.search.as_mut().unwrap().query = query.to_string();
        refresh_search(&mut w.vi, &mut w.term);
    }
    cancel_search(&mut w.vi, &mut w.term);
    assert_eq!(w.vi.cursor, (1, 2));
    assert_eq!(w.term.viewport_offset(), 1);
    assert!(w.vi.search.is_none());
}

#[test]
fn a_slanted_step_and_back() {
    let mut w = world(3, 12, TEXT, (1, 5));
    apply_motion(&mut w.vi, &mut w.term, Motion::Char(1, -3), 1);
    assert_eq!(w.vi.cursor, (2, 2));
    apply_motion(&mut w.vi, &mut w.term, Motion::Char(-1, 3), 1);
    assert_eq!(w.vi.cursor, (1, 5));
}
