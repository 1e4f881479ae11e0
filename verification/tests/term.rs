//! The terminal, fed with output.

use soltty::grid::{Color, CursorShape, Grid};
use soltty::mouse::{encode_mouse, MouseAction, MouseButton, MouseEncoding, MouseEvent, MouseMode};
use soltty::term::Term;

fn line(grid: &Grid, row: usize) -> String {
    grid.lines[row].cells.iter().map(|c| c.ch).collect()
}

#[test]
fn prints_plain_text() {
    let mut t = Term::new(4, 10);
    t.feed(b"hello");
    assert!(line(t.grid(), 0).starts_with("hello"));
    assert_eq!(t.grid().cursor.row, 0);
    assert_eq!(t.grid().cursor.col, 5);
}

#[test]
fn lf_advances_row_cr_resets_col() {
    let mut t = Term::new(4, 10);
    t.feed(b"ab\r\ncd");
    assert!(line(t.grid(), 0).starts_with("ab"));
    assert!(line(t.grid(), 1).starts_with("cd"));
}

#[test]
fn line_wraps_at_right_edge() {
    let mut t = Term::new(4, 5);
    t.feed(b"abcdefg");
    assert_eq!(&line(t.grid(), 0)[..5], "abcde");
    assert_eq!(&line(t.grid(), 1)[..2], "fg");
}

#[test]
fn scrolls_when_lf_past_bottom() {
    let mut t = Term::new(2, 4);
    t.feed(b"a\r\nb\r\nc");
    assert_eq!(t.grid().scrollback.len(), 1);
    assert!(line(t.grid(), 0).starts_with("b"));
    assert!(line(t.grid(), 1).starts_with("c"));
}

#[test]
fn ascii_fast_path_preserves_pen_after_csi() {
    // Regression: the printable-ASCII fast path must run AFTER a
    // CSI sequence has fully resolved. If we mistakenly fast-path
    // bytes mid-CSI we'd skip the SGR and the pen would be wrong.
    let mut t = Term::new(2, 16);
    // truecolor red, then "RED", then reset, then "X"
    t.feed(b"\x1b[38;2;200;30;30mRED\x1b[0mX");
    let l0 = &t.grid().lines[0].cells;
    assert_eq!(l0[0].ch, 'R');
    assert_eq!(l0[0].fg, Color::Rgb(200, 30, 30));
    assert_eq!(l0[1].ch, 'E');
    assert_eq!(l0[1].fg, Color::Rgb(200, 30, 30));
    assert_eq!(l0[2].ch, 'D');
    assert_eq!(l0[2].fg, Color::Rgb(200, 30, 30));
    assert_eq!(l0[3].ch, 'X');
    assert_eq!(l0[3].fg, Color::Default);
}

#[test]
fn ascii_fast_path_excludes_del_and_falls_back() {
    // 0x7F (DEL) sits just outside our 0x20..=0x7E fast-path
    // range, so it falls through to vte. The fast path must not
    // accidentally include it.
    let mut t1 = Term::new(2, 16);
    t1.feed(b"AB\x7FCD");
    let mut t2 = Term::new(2, 16);
    // Reference: feed each byte separately so vte sees them
    // exactly as it would without our fast path. Both grids
    // should match cell-for-cell.
    for &b in b"AB\x7FCD" {
        t2.feed(&[b]);
    }
    let r1: String = t1.grid().lines[0].cells.iter().map(|c| c.ch).collect();
    let r2: String = t2.grid().lines[0].cells.iter().map(|c| c.ch).collect();
    assert_eq!(r1, r2);
}

#[test]
fn ascii_fast_path_handles_cr_lf_inside_run() {
    // Control bytes inside an "ASCII run" should kick us out of
    // the fast path and execute correctly.
    let mut t = Term::new(3, 8);
    t.feed(b"abc\r\ndef\r\nghi");
    assert!(line(t.grid(), 0).starts_with("abc"));
    assert!(line(t.grid(), 1).starts_with("def"));
    assert!(line(t.grid(), 2).starts_with("ghi"));
}

#[test]
fn ascii_fast_path_split_across_feeds_keeps_state() {
    // A CSI may straddle two feed calls (PTY chunk boundary).
    // We must remember `in_ground = false` between calls.
    let mut t = Term::new(2, 16);
    t.feed(b"\x1b[38;2;10;");           // mid-CSI
    t.feed(b"20;30mX");                 // finish + print
    let cell = &t.grid().lines[0].cells[0];
    assert_eq!(cell.ch, 'X');
    assert_eq!(cell.fg, Color::Rgb(10, 20, 30));
}

#[test]
fn sgr_truecolor_fg_applies_to_pen() {
    let mut t = Term::new(2, 4);
    t.feed(b"\x1b[38;2;10;20;30mX");
    let cell = &t.grid().lines[0].cells[0];
    assert_eq!(cell.ch, 'X');
    assert_eq!(cell.fg, Color::Rgb(10, 20, 30));
}

#[test]
fn cup_positions_cursor() {
    let mut t = Term::new(5, 10);
    t.feed(b"\x1b[3;5HX");
    assert_eq!(t.grid().lines[2].cells[4].ch, 'X');
}

#[test]
fn scroll_view_walks_into_scrollback() {
    let mut t = Term::new(2, 4);
    t.feed(b"a\r\nb\r\nc\r\nd"); // pushes "a", "b" to scrollback, "c\nd" live
    assert_eq!(t.grid().scrollback.len(), 2);
    t.scroll_view(2);
    assert_eq!(t.viewport_offset, 2);
    // viewport_row(0) should now be the oldest scrollback line
    assert!(t.viewport_row(0).cells[0].ch == 'a');
    // Cursor scrolled out of view
    assert!(t.viewport_cursor().is_none());
}

#[test]
fn keypress_resets_view() {
    let mut t = Term::new(2, 4);
    t.feed(b"a\r\nb\r\nc\r\nd");
    t.scroll_view(2);
    assert_eq!(t.viewport_offset, 2);
    t.reset_view();
    assert_eq!(t.viewport_offset, 0);
    assert!(t.viewport_cursor().is_some());
}

#[test]
fn viewport_anchors_when_output_arrives_during_scrollback() {
    let mut t = Term::new(2, 4);
    t.feed(b"a\r\nb\r\nc\r\nd"); // scrollback=[a,b], live=[c,d]
    t.scroll_view(2);            // viewing [a,b]
    let top_before = t.viewport_row(0).cells[0].ch;
    t.feed(b"\r\ne");            // pushes "c" into scrollback
    // Anchored: top of viewport should still show 'a'
    assert_eq!(top_before, 'a');
    assert_eq!(t.viewport_row(0).cells[0].ch, 'a');
}

#[test]
fn decscusr_sets_cursor_shape() {
    let mut t = Term::new(2, 4);
    // Default is Block.
    assert_eq!(t.cursor_shape(), CursorShape::Block);
    // Steady bar.
    t.feed(b"\x1b[6 q");
    assert_eq!(t.cursor_shape(), CursorShape::Bar);
    // Blinking underline collapses to plain Underline.
    t.feed(b"\x1b[3 q");
    assert_eq!(t.cursor_shape(), CursorShape::Underline);
    // No-arg form == reset to default Block.
    t.feed(b"\x1b[ q");
    assert_eq!(t.cursor_shape(), CursorShape::Block);
}

#[test]
fn cursor_shape_is_per_grid() {
    let mut t = Term::new(3, 4);
    t.feed(b"\x1b[5 q"); // Bar on primary
    assert_eq!(t.cursor_shape(), CursorShape::Bar);
    t.feed(b"\x1b[?1049h"); // enter alt
    // Alt starts fresh, default Block.
    assert_eq!(t.cursor_shape(), CursorShape::Block);
    t.feed(b"\x1b[3 q"); // Underline on alt
    assert_eq!(t.cursor_shape(), CursorShape::Underline);
    t.feed(b"\x1b[?1049l"); // back to primary
    // Primary's shape preserved.
    assert_eq!(t.cursor_shape(), CursorShape::Bar);
}

#[test]
fn osc_11_query_reports_default_bg() {
    let mut t = Term::new(2, 4);
    t.set_theme_colors([0xab, 0xcd, 0xef], [0x12, 0x34, 0x56], [0xff, 0xff, 0xff]);
    // OSC 11 ; ? BEL  → query for default background.
    t.feed(b"\x1b]11;?\x07");
    let reply = t.take_reply();
    let s = std::str::from_utf8(&reply).unwrap();
    // Both 8-bit halves of each component should appear (16-bit
    // form). Component bytes are 12 / 34 / 56 → "1212/3434/5656".
    assert!(s.starts_with("\x1b]11;rgb:1212/3434/5656"));
    assert!(s.ends_with('\x07'));
}

#[test]
fn osc_10_and_12_query_use_their_colors() {
    let mut t = Term::new(2, 4);
    t.set_theme_colors([0x10, 0x20, 0x30], [0x99, 0x88, 0x77], [0xaa, 0xbb, 0xcc]);
    t.feed(b"\x1b]10;?\x07");
    let r = t.take_reply();
    assert!(std::str::from_utf8(&r)
        .unwrap()
        .starts_with("\x1b]10;rgb:1010/2020/3030"));
    t.feed(b"\x1b]12;?\x07");
    let r = t.take_reply();
    assert!(std::str::from_utf8(&r)
        .unwrap()
        .starts_with("\x1b]12;rgb:aaaa/bbbb/cccc"));
}

#[test]
fn osc_11_set_request_is_ignored() {
    let mut t = Term::new(2, 4);
    let original_bg = [0x28, 0x2a, 0x36];
    t.set_theme_colors([0xff, 0xff, 0xff], original_bg, [0xaa, 0xbb, 0xcc]);
    // App tries to override the background.
    t.feed(b"\x1b]11;rgb:ff0000\x07");
    // No reply (it wasn't a query) and the cached bg didn't change.
    assert!(t.take_reply().is_empty());
    assert_eq!(t.default_bg, original_bg);
}

// ---------- Mouse reporting ----------

#[test]
fn decset_1000_enables_button_event_mode() {
    let mut t = Term::new(2, 4);
    assert_eq!(t.mouse_mode, MouseMode::Off);
    t.feed(b"\x1b[?1000h");
    assert_eq!(t.mouse_mode, MouseMode::ButtonEvent);
    t.feed(b"\x1b[?1000l");
    assert_eq!(t.mouse_mode, MouseMode::Off);
}

#[test]
fn decset_1002_and_1003_modes() {
    let mut t = Term::new(2, 4);
    t.feed(b"\x1b[?1002h");
    assert_eq!(t.mouse_mode, MouseMode::ButtonAndMotion);
    t.feed(b"\x1b[?1003h");
    assert_eq!(t.mouse_mode, MouseMode::AllMotion);
}

#[test]
fn decset_1006_swaps_to_sgr_encoding() {
    let mut t = Term::new(2, 4);
    assert_eq!(t.mouse_encoding, MouseEncoding::Default);
    t.feed(b"\x1b[?1006h");
    assert_eq!(t.mouse_encoding, MouseEncoding::Sgr);
    t.feed(b"\x1b[?1006l");
    assert_eq!(t.mouse_encoding, MouseEncoding::Default);
}

#[test]
fn encode_mouse_sgr_press_left_at_origin() {
    let event = MouseEvent {
        button: MouseButton::Left,
        action: MouseAction::Press,
        col: 1,
        row: 1,
        shift: false,
        alt: false,
        ctrl: false,
    };
    assert_eq!(
        encode_mouse(event, MouseEncoding::Sgr),
        b"\x1b[<0;1;1M".to_vec()
    );
}

#[test]
fn encode_mouse_sgr_release_uses_lowercase_m() {
    let event = MouseEvent {
        button: MouseButton::Right,
        action: MouseAction::Release,
        col: 6,
        row: 11,
        shift: false,
        alt: false,
        ctrl: false,
    };
    // Right button = 2; lowercase m = release.
    assert_eq!(
        encode_mouse(event, MouseEncoding::Sgr),
        b"\x1b[<2;6;11m".to_vec()
    );
}

#[test]
fn encode_mouse_sgr_motion_sets_motion_bit() {
    let event = MouseEvent {
        button: MouseButton::Left,
        action: MouseAction::Motion,
        col: 5,
        row: 3,
        shift: false,
        alt: false,
        ctrl: false,
    };
    // 0 (left) | 0x20 (motion) = 32
    assert_eq!(
        encode_mouse(event, MouseEncoding::Sgr),
        b"\x1b[<32;5;3M".to_vec()
    );
}

#[test]
fn encode_mouse_sgr_modifiers_add_bits() {
    let event = MouseEvent {
        button: MouseButton::Left,
        action: MouseAction::Press,
        col: 1,
        row: 1,
        shift: true,
        alt: true,
        ctrl: true,
    };
    // 0 | 4 (shift) | 8 (alt) | 16 (ctrl) = 28
    assert_eq!(
        encode_mouse(event, MouseEncoding::Sgr),
        b"\x1b[<28;1;1M".to_vec()
    );
}

#[test]
fn encode_mouse_sgr_wheel_uses_64_65() {
    let up = MouseEvent {
        button: MouseButton::WheelUp,
        action: MouseAction::Press,
        col: 1,
        row: 1,
        shift: false,
        alt: false,
        ctrl: false,
    };
    assert_eq!(
        encode_mouse(up, MouseEncoding::Sgr),
        b"\x1b[<64;1;1M".to_vec()
    );
    let down = MouseEvent {
        button: MouseButton::WheelDown,
        action: MouseAction::Press,
        col: 1,
        row: 1,
        shift: false,
        alt: false,
        ctrl: false,
    };
    assert_eq!(
        encode_mouse(down, MouseEncoding::Sgr),
        b"\x1b[<65;1;1M".to_vec()
    );
}

#[test]
fn encode_mouse_default_form_press_left() {
    let event = MouseEvent {
        button: MouseButton::Left,
        action: MouseAction::Press,
        col: 1,
        row: 1,
        shift: false,
        alt: false,
        ctrl: false,
    };
    // Default form: ESC [ M b+0x20 col+0x20 row+0x20.
    // b=0, so byte=0x20=32. col=1 → 0x21. row=1 → 0x21.
    assert_eq!(
        encode_mouse(event, MouseEncoding::Default),
        vec![0x1b, b'[', b'M', 0x20, 0x21, 0x21]
    );
}

#[test]
fn encode_mouse_default_form_release_collapses_to_button_3() {
    // The default form encodes release as button code 3 regardless
    // of which button was released — preserves modifier bits, drops
    // the button-specific bits.
    let event = MouseEvent {
        button: MouseButton::Right,
        action: MouseAction::Release,
        col: 1,
        row: 1,
        shift: true,
        alt: false,
        ctrl: false,
    };
    // Right=2, but release → 3; shift=4. (3 | 4) + 0x20 = 7 + 32 = 39 = 0x27.
    assert_eq!(
        encode_mouse(event, MouseEncoding::Default),
        vec![0x1b, b'[', b'M', 0x27, 0x21, 0x21]
    );
}

#[test]
fn decckm_toggles_application_cursor_keys() {
    let mut t = Term::new(2, 4);
    // Default off.
    assert!(!t.application_cursor_keys);
    // DECSET 1 → on.
    t.feed(b"\x1b[?1h");
    assert!(t.application_cursor_keys);
    // DECRESET 1 → off.
    t.feed(b"\x1b[?1l");
    assert!(!t.application_cursor_keys);
    // Combined DECSET with multiple modes: only DECCKM should flip.
    t.feed(b"\x1b[?1;2004h");
    assert!(t.application_cursor_keys);
    assert!(t.bracketed_paste);
}

#[test]
fn alt_screen_round_trip() {
    let mut t = Term::new(3, 4);
    t.feed(b"abc\x1b[?1049h");
    assert!(t.on_alt());
    t.feed(b"X");
    assert_eq!(t.grid().lines[0].cells[0].ch, 'X');
    t.feed(b"\x1b[?1049l");
    assert!(!t.on_alt());
    assert!(line(t.grid(), 0).starts_with("abc"));
}
