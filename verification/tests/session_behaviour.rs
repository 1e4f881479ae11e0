//! Keys, the mouse and output in one session.

use soltty::keys::{
    ctrl_byte, encode_key, font_zoom_target, mod_param, named_key_seq, Key, Modifiers, NamedKey, Zoom,
};
use soltty::pointer::{grid_dims_for_window, pixel_to_cell, Pointer, MULTI_CLICK_NANOS};
use soltty::selection::Selection;
use soltty::session::{write_paste, KeyAction, KeyPress, Session};
use soltty::term::Term;
use soltty::theme::Theme;
use soltty::theme_lib::ThemeLib;
use soltty::vi_bind::ViKeyBind;

const PLAIN: Modifiers = Modifiers { ctrl: false, alt: false, shift: false };
const SHIFT: Modifiers = Modifiers { ctrl: false, alt: false, shift: true };
const CTRL: Modifiers = Modifiers { ctrl: true, alt: false, shift: false };
const CTRL_SHIFT: Modifiers = Modifiers { ctrl: true, alt: false, shift: true };

fn theme(name: &str, shade: u8) -> Theme {
    Theme {
        name: name.to_string(),
        bg: [shade; 3],
        fg: [shade + 1; 3],
        cursor_bg: [shade + 2; 3],
        cursor_fg: [shade + 3; 3],
        palette: [[shade; 3]; 16],
    }
}

fn session() -> Session {
    let lib = ThemeLib::load(vec![theme("Beta", 10), theme("Alpha", 20), theme("Gamma", 30)], vec![]);
    Session::new(3, 10, lib, "Beta".to_string(), ViKeyBind::default_activation())
}

fn typed(c: &str) -> KeyPress {
    KeyPress {
        logical: Key::Character(c.to_string()),
        at_t: false,
        at_v: false,
        typed: Some(c.to_string()),
        mods: PLAIN,
    }
}

fn named(key: NamedKey) -> KeyPress {
    KeyPress { logical: Key::Named(key), at_t: false, at_v: false, typed: None, mods: PLAIN }
}

fn chord(c: &str, mods: Modifiers) -> KeyPress {
    KeyPress { logical: Key::Character(c.to_string()), at_t: false, at_v: false, typed: None, mods }
}

fn sent(action: KeyAction) -> Option<Vec<u8>> {
    match action {
        KeyAction::Send(bytes) => Some(bytes),
        _ => None,
    }
}

#[test]
fn typing_goes_to_the_application_and_back_to_the_live_screen() {
    let mut s = session();
    assert!(s.output(b"a\r\nb\r\nc\r\nd\r\ne").is_empty());
    s.term.scroll_view(2);
    s.selection = Some(Selection::new((0, 0)));
    assert_eq!(sent(s.key(&typed("x"))), Some(b"x".to_vec()));
    assert_eq!(s.term.viewport_offset(), 0);
    assert!(s.selection.is_none());
}

#[test]
fn output_returns_the_reply_it_asks_for() {
    let mut s = session();
    assert_eq!(s.output(b"\x1b[2;3H\x1b[6n"), b"\x1b[2;3R");
    assert!(s.output(b"x").is_empty());
}

#[test]
fn the_picker_previews_and_takes_back() {
    let mut s = session();
    s.use_theme(1);
    let before = s.term.default_bg;
    assert!(matches!(s.key(&chord("T", CTRL_SHIFT)), KeyAction::Local(None)));
    assert!(s.picker.is_some());
    assert!(matches!(s.key(&named(NamedKey::ArrowDown)), KeyAction::ShowTheme(2)));
    assert_ne!(s.term.default_bg, before);
    assert!(matches!(s.key(&typed("x")), KeyAction::Local(None)));
    assert!(matches!(s.key(&named(NamedKey::Escape)), KeyAction::ShowTheme(1)));
    assert_eq!(s.term.default_bg, before);
    assert_eq!(s.active_theme_name, "Beta");
    assert!(s.picker.is_none());
}

#[test]
fn enter_keeps_the_theme() {
    let mut s = session();
    s.key(&chord("t", CTRL_SHIFT));
    s.key(&named(NamedKey::End));
    s.key(&named(NamedKey::Enter));
    assert_eq!(s.active_theme_name, "Gamma");
    assert_eq!(s.term.default_bg, [30; 3]);
}

#[test]
fn the_modes_keep_the_keyboard() {
    let mut s = session();
    s.output(b"hello");
    let open = chord("n", CTRL);
    assert!(matches!(s.key(&open), KeyAction::Local(None)));
    assert!(s.vi.active);
    for key in ["a", "x", "0", "l"] {
        assert!(sent(s.key(&typed(key))).is_none(), "{key}");
    }
    match s.key(&KeyPress { mods: SHIFT, ..typed("Y") }) {
        KeyAction::Local(copied) => assert_eq!(copied.as_deref(), Some("hello")),
        _ => panic!("nothing was copied"),
    }
    assert!(!s.vi.active);
}

#[test]
fn paste_and_zoom_keys() {
    let mut s = session();
    assert!(matches!(s.key(&chord("V", CTRL_SHIFT)), KeyAction::Paste));
    assert!(matches!(s.key(&chord("=", CTRL)), KeyAction::Zoom(Zoom::In)));
    assert!(font_zoom_target(&Key::Character("-".to_string()), CTRL) == Some(Zoom::Out));
    assert!(font_zoom_target(&Key::Character("0".to_string()), CTRL) == Some(Zoom::Reset));
    assert!(font_zoom_target(&Key::Character("=".to_string()), PLAIN).is_none());
}

#[test]
fn paste_is_bracketed_when_the_application_wants_it() {
    let mut s = session();
    assert_eq!(s.paste("a\nb").as_deref(), Some(&b"a\nb"[..]));
    assert_eq!(s.paste(""), None);
    s.output(b"\x1b[?2004h");
    assert_eq!(s.paste("hi").as_deref(), Some(&b"\x1b[200~hi\x1b[201~"[..]));
    assert_eq!(write_paste("é", false), "é".as_bytes());
}

#[test]
fn the_grid_follows_the_window() {
    let mut s = session();
    assert_eq!(s.resized((8, 16), 100, 50), (3, 12));
    assert_eq!((s.term.grid().rows, s.term.grid().cols), (3, 12));
    assert_eq!(grid_dims_for_window((8, 16), 7, 15), (1, 1));
    let (rows, cols) = grid_dims_for_window((9, 19), 1000, 777);
    assert!(rows as u32 * 19 <= 777 && cols as u32 * 9 <= 1000);
}

#[test]
fn pixels_fall_into_cells() {
    let t = Term::new(3, 4);
    assert_eq!(pixel_to_cell((0, 0), (10, 20), &t), (0, 0));
    assert_eq!(pixel_to_cell((29, 41), (10, 20), &t), (2, 2));
    assert_eq!(pixel_to_cell((-5, 999), (10, 20), &t), (2, 0));
    assert_eq!(pixel_to_cell((999, -1), (10, 20), &t), (0, 3));
}

#[test]
fn a_drag_selects_and_copies() {
    let mut t = Term::new(2, 8);
    t.feed(b"one two");
    let mut p = Pointer::new();
    let mut sel = None;
    assert!(p.left(&t, &mut sel, true, (0, 0), 0, PLAIN).redraw);
    let r = p.moved(&mut t, &mut sel, (0, 2), false, false, PLAIN);
    assert!(r.redraw && r.copy.is_none());
    let r = p.left(&t, &mut sel, false, (0, 2), 1, PLAIN);
    assert_eq!(r.copy.as_deref(), Some("one"));
    assert!(!sel.unwrap().dragging);
}

#[test]
fn clicks_take_the_word_and_then_the_line() {
    let mut t = Term::new(2, 8);
    t.feed(b"one two");
    let mut p = Pointer::new();
    let mut sel = None;
    p.left(&t, &mut sel, true, (0, 5), 1_000, PLAIN);
    let word = p.left(&t, &mut sel, true, (0, 5), 2_000, PLAIN);
    assert_eq!(word.copy.as_deref(), Some("two"));
    let line = p.left(&t, &mut sel, true, (0, 5), 3_000, PLAIN);
    assert_eq!(line.copy.as_deref(), Some("one two"));
    let late = p.left(&t, &mut sel, true, (0, 5), 4_000 + MULTI_CLICK_NANOS, PLAIN);
    assert!(late.copy.is_none());
}

#[test]
fn a_drag_beyond_the_window_scrolls() {
    let mut t = Term::new(2, 3);
    t.feed(b"a\r\nb\r\nc\r\nd");
    let mut p = Pointer::new();
    let mut sel = None;
    p.left(&t, &mut sel, true, (1, 0), 0, PLAIN);
    p.moved(&mut t, &mut sel, (0, 0), true, false, PLAIN);
    assert_eq!(t.viewport_offset(), 1);
    p.moved(&mut t, &mut sel, (1, 0), false, true, PLAIN);
    assert_eq!(t.viewport_offset(), 0);
}

#[test]
fn the_mouse_has_one_reader() {
    let mut t = Term::new(4, 8);
    t.feed(b"\x1b[?1003h\x1b[?1006h");
    let mut p = Pointer::new();
    let mut sel = None;
    let r = p.left(&t, &mut sel, true, (1, 2), 0, PLAIN);
    assert_eq!(r.send, b"\x1b[<0;3;2M");
    assert!(sel.is_none() && r.copy.is_none());
    let r = p.moved(&mut t, &mut sel, (1, 3), false, false, PLAIN);
    assert_eq!(r.send, b"\x1b[<32;4;2M");
    let again = p.moved(&mut t, &mut sel, (1, 3), false, false, PLAIN);
    assert!(again.send.is_empty());
    let r = p.left(&t, &mut sel, false, (1, 3), 1, PLAIN);
    assert_eq!(r.send, b"\x1b[<0;4;2m");
    let r = p.wheel(&mut t, -2, (0, 0), PLAIN);
    assert_eq!(r.send, b"\x1b[<65;1;1M\x1b[<65;1;1M");
    let r = p.middle(&t, true, (0, 0), PLAIN);
    assert_eq!(r.send, b"\x1b[<1;1;1M");
    assert!(!r.paste);
}

#[test]
fn shift_keeps_the_mouse_from_the_application() {
    let mut t = Term::new(4, 8);
    t.feed(b"text\x1b[?1003h");
    let mut p = Pointer::new();
    let mut sel = None;
    let r = p.left(&t, &mut sel, true, (0, 0), 0, SHIFT);
    assert!(r.send.is_empty() && sel.is_some());
    assert!(p.middle(&t, true, (0, 0), SHIFT).paste);
    assert!(p.wheel(&mut t, 1, (0, 0), SHIFT).send.is_empty());
}

#[test]
fn key_encodings_at_their_edges() {
    assert_eq!(mod_param(true, true, true), 8);
    assert_eq!(ctrl_byte(&Key::Character("@".to_string())), Some(0));
    assert_eq!(ctrl_byte(&Key::Named(NamedKey::Space)), Some(0));
    assert_eq!(
        named_key_seq(NamedKey::F5, CTRL, false).as_deref(),
        Some(&b"\x1b[15;5~"[..])
    );
    assert_eq!(named_key_seq(NamedKey::Delete, PLAIN, true).as_deref(), Some(&b"\x1b[3~"[..]));
    assert_eq!(encode_key(&Key::Unidentified, None, PLAIN, false), None);
    assert_eq!(
        encode_key(&Key::Character("é".to_string()), Some("é"), PLAIN, false).as_deref(),
        Some("é".as_bytes())
    );
}

#[test]
fn a_long_look_at_the_themes_is_taken_back() {
    let mut s = session();
    s.use_theme(1);
    let before = (s.term.default_bg, s.term.default_fg);
    s.key(&chord("T", CTRL_SHIFT));
    for key in [
        NamedKey::ArrowDown,
        NamedKey::ArrowDown,
        NamedKey::Home,
        NamedKey::End,
        NamedKey::ArrowUp,
        NamedKey::PageUp,
        NamedKey::PageDown,
    ] {
        s.key(&named(key));
        s.key(&typed("q"));
    }
    assert_ne!((s.term.default_bg, s.term.default_fg), before);
    s.key(&named(NamedKey::Escape));
    assert_eq!((s.term.default_bg, s.term.default_fg), before);
    assert_eq!(s.active_theme_name, "Beta");
    assert!(s.picker.is_none());
}

#[test]
fn output_and_resizing_follow_one_another() {
    let mut s = session();
    for (w, h) in [(80, 48), (1, 1), (800, 480)] {
        let (rows, cols) = s.resized((8, 16), w, h);
        assert!(rows >= 1 && cols >= 1);
        s.output(b"more\r\noutput");
        assert_eq!(s.term.grid().rows, rows as usize);
        assert_eq!(s.term.grid().cols, cols as usize);
    }
}
