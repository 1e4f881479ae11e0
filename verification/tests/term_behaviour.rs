//! The terminal: what holds of every stream of output.

use soltty::grid::{CellAttrs, Color, CursorShape};
use soltty::mouse::{encode_mouse, MouseAction, MouseButton, MouseEncoding, MouseEvent, MouseMode};
use soltty::sgr::apply_sgr;
use soltty::term::Term;
use soltty::vt::VtEvent;

fn line(term: &Term, row: usize) -> String {
    term.grid().lines[row].cells.iter().map(|c| c.ch).collect()
}

fn screen(term: &Term) -> Vec<String> {
    (0..term.grid().rows).map(|r| line(term, r)).collect()
}

fn seen(term: &Term) -> Vec<String> {
    (0..term.grid().rows)
        .map(|r| term.viewport_row(r).cells.iter().map(|c| c.ch).collect())
        .collect()
}

const SAMPLE: &[u8] =
    b"\x1b[1;31mred\x1b[0m \xe6\xbc\xa2\r\n\x1b]0;title\x07\x1b[2;3Hxy\x1b[6n\x1b[?25l\x1b7\x1b[1;1H\x1b8z";

#[test]
fn output_may_be_split_anywhere() {
    let mut whole = Term::new(4, 10);
    whole.feed(SAMPLE);
    for cut in 0..=SAMPLE.len() {
        let mut pieces = Term::new(4, 10);
        pieces.feed(&SAMPLE[..cut]);
        pieces.feed(&SAMPLE[cut..]);
        assert_eq!(screen(&pieces), screen(&whole), "cut at {cut}");
        assert_eq!(pieces.title, whole.title, "cut at {cut}");
        assert_eq!(pieces.grid().cursor.row, whole.grid().cursor.row, "cut at {cut}");
        assert_eq!(pieces.grid().cursor.col, whole.grid().cursor.col, "cut at {cut}");
        let mut answered = Term::new(4, 10);
        answered.feed(SAMPLE);
        assert_eq!(pieces.take_reply(), answered.take_reply(), "cut at {cut}");
    }
}

#[test]
fn byte_by_byte_is_the_same_as_at_once() {
    let mut whole = Term::new(4, 10);
    whole.feed(SAMPLE);
    let mut single = Term::new(4, 10);
    for b in SAMPLE {
        single.feed(&[*b]);
    }
    assert_eq!(screen(&single), screen(&whole));
    assert!(single.grid().lines[0].cells[0].fg == Color::Indexed(1));
    assert!(single.grid().lines[0].cells[0].attrs.has(CellAttrs::BOLD));
}

#[test]
fn a_title_is_decoded_as_utf8() {
    let mut term = Term::new(2, 4);
    term.feed("\x1b]2;día 漢\x07".as_bytes());
    assert_eq!(term.title, "día 漢");
    term.feed(b"\x1b]2;\xff\xfe\x07");
    assert_eq!(term.title, "día 漢");
    term.feed(b"\x1b]0;a;b\x07");
    assert_eq!(term.title, "ab");
}

#[test]
fn replies_wait_until_they_are_taken() {
    let mut term = Term::new(3, 5);
    term.feed(b"\x1b[5n");
    term.feed(b"\x1b[2;4H\x1b[6n");
    assert_eq!(term.take_reply(), b"\x1b[0n\x1b[2;4R");
    assert!(term.take_reply().is_empty());
}

#[test]
fn colour_queries_double_each_byte() {
    let mut term = Term::new(2, 2);
    term.set_theme_colors([0x01, 0xab, 0xff], [0, 0x10, 0x20], [9, 9, 9]);
    term.feed(b"\x1b]10;?\x07");
    assert_eq!(term.take_reply(), b"\x1b]10;rgb:0101/abab/ffff\x07");
}

#[test]
fn no_output_changes_the_theme_colours() {
    let mut term = Term::new(2, 2);
    term.set_theme_colors([1, 2, 3], [4, 5, 6], [7, 8, 9]);
    term.feed(b"\x1b]10;#ffffff\x07\x1b]11;rgb:00/00/00\x07\x1b]12;red\x07\x1b[31m\x1bc");
    assert_eq!(term.default_fg, [1, 2, 3]);
    assert_eq!(term.default_bg, [4, 5, 6]);
    assert_eq!(term.cursor_color, [7, 8, 9]);
    assert!(term.take_reply().is_empty());
}

#[test]
fn scrolled_back_rows_stay_in_view() {
    let mut term = Term::new(2, 3);
    term.feed(b"a\r\nb\r\nc\r\nd\r\ne");
    term.scroll_view(3);
    let before = seen(&term);
    assert_eq!(before, ["a  ", "b  "]);
    term.feed(b"\r\nf\r\ng");
    assert_eq!(seen(&term), before);
    assert_eq!(term.viewport_offset(), 5);
}

#[test]
fn the_view_stays_within_the_history() {
    let mut term = Term::new(2, 3);
    term.feed(b"a\r\nb\r\nc");
    term.scroll_view(99);
    assert_eq!(term.viewport_offset(), 1);
    term.scroll_view(-99);
    assert_eq!(term.viewport_offset(), 0);
    term.scroll_view(1);
    term.resize(5, 5);
    assert!(term.viewport_offset() <= term.grid().scrollback.len());
}

#[test]
fn the_alternate_screen_protects_the_primary_one() {
    let mut term = Term::new(2, 4);
    term.feed(b"keep\x1b[31m");
    term.feed(b"\x1b[?1049h");
    assert!(term.on_alt());
    assert_eq!(screen(&term), ["    ", "    "]);
    term.feed(b"\x1b[Hdraw\x1b[2J\n\n\n\n\x1b[32mmore");
    term.feed(b"\x1b[?1049l");
    assert!(!term.on_alt());
    assert_eq!(screen(&term), ["keep", "    "]);
    assert_eq!((term.grid().cursor.row, term.grid().cursor.col), (0, 3));
    assert!(term.grid().pen.fg == Color::Indexed(1));
}

#[test]
fn several_modes_in_one_sequence() {
    let mut term = Term::new(2, 4);
    term.feed(b"\x1b[?1;2004;1003;1006h");
    assert!(term.application_cursor_keys());
    assert!(term.bracketed_paste());
    assert!(term.mouse_mode() == MouseMode::AllMotion);
    assert!(term.mouse_encoding() == MouseEncoding::Sgr);
    term.feed(b"\x1b[?1;2004;1003;1006l");
    assert!(!term.application_cursor_keys());
    assert!(!term.bracketed_paste());
    assert!(term.mouse_mode() == MouseMode::Off);
}

#[test]
fn reset_clears_the_screen() {
    let mut term = Term::new(2, 4);
    term.feed(b"abc\x1b[4 q\x1bc");
    assert_eq!(screen(&term), ["    ", "    "]);
    assert!(term.cursor_shape() == CursorShape::Block);
}

#[test]
fn invalid_utf8_shows_the_replacement_character() {
    let mut term = Term::new(1, 6);
    term.feed(b"a\xe6b");
    assert!(line(&term, 0).contains('\u{fffd}'));
}

#[test]
fn a_printed_event_is_put_char() {
    let mut term = Term::new(1, 3);
    term.perform(&VtEvent::Print('é'));
    term.perform(&VtEvent::Hook);
    term.perform(&VtEvent::Put(b'x'));
    term.perform(&VtEvent::Unhook);
    assert_eq!(line(&term, 0), "é  ");
}

#[test]
fn a_hidden_or_scrolled_cursor_has_no_place() {
    let mut term = Term::new(2, 3);
    term.feed(b"a\r\nb\r\nc");
    assert_eq!(term.viewport_cursor(), Some((1, 1)));
    term.scroll_view(1);
    assert_eq!(term.viewport_cursor(), None);
    term.reset_view();
    term.feed(b"\x1b[?25l");
    assert_eq!(term.viewport_cursor(), None);
}

#[test]
fn sgr_forms_of_extended_colours() {
    let pen = soltty::grid::Pen::default();
    let semicolons = apply_sgr(pen, &[vec![38], vec![5], vec![200]]);
    assert!(semicolons.fg == Color::Indexed(200));
    let colons = apply_sgr(pen, &[vec![38, 5, 200]]);
    assert!(colons.fg == Color::Indexed(200));
    let bright = apply_sgr(pen, &[vec![97], vec![104]]);
    assert!(bright.fg == Color::Indexed(15) && bright.bg == Color::Indexed(12));
    let reset = apply_sgr(bright, &[vec![39], vec![49]]);
    assert!(reset.fg == Color::Default && reset.bg == Color::Default);
    let on = apply_sgr(pen, &[vec![1], vec![3], vec![4], vec![7], vec![9]]);
    for mask in [
        CellAttrs::BOLD,
        CellAttrs::ITALIC,
        CellAttrs::UNDERLINE,
        CellAttrs::INVERSE,
        CellAttrs::STRIKE,
    ] {
        assert!(on.attrs.has(mask));
    }
    assert!(apply_sgr(on, &[vec![0]]) == pen);
}

#[test]
fn legacy_mouse_coordinates_are_capped() {
    let event = MouseEvent {
        button: MouseButton::Left,
        action: MouseAction::Press,
        col: 400,
        row: 1,
        shift: false,
        alt: false,
        ctrl: false,
    };
    let bytes = encode_mouse(event, MouseEncoding::Default);
    assert_eq!(bytes[..4], [0x1b, b'[', b'M', 32]);
    assert_eq!(bytes.len(), 6);
    assert_eq!(bytes[4], 255);
}

#[test]
fn plain_text_is_shown_as_it_comes() {
    let mut term = Term::new(2, 8);
    term.feed(b"hi there");
    assert_eq!(screen(&term), ["hi there", "        "]);
    let mut other = Term::new(2, 8);
    other.feed(b"hi");
    assert_eq!(line(&other, 0), "hi      ");
    assert_eq!((other.grid().cursor.row, other.grid().cursor.col), (0, 2));
}

#[test]
fn a_reset_forgets_what_was_set() {
    let plain = soltty::grid::Pen::default();
    let loud = apply_sgr(plain, &[vec![1], vec![4], vec![31], vec![42]]);
    assert!(apply_sgr(loud, &[]) == plain);
    assert!(apply_sgr(loud, &[vec![0]]) == plain);
    let rest = [vec![0], vec![3], vec![34]];
    assert!(apply_sgr(loud, &rest) == apply_sgr(plain, &rest));
}

#[test]
fn a_full_screen_program_leaves_no_trace() {
    let mut term = Term::new(2, 6);
    term.feed(b"one\r\ntwo\r\nthree\x1b[1;35m");
    let history = term.grid().scrollback.len();
    let before = screen(&term);
    let at = (term.grid().cursor.row, term.grid().cursor.col);
    term.feed(b"\x1b[?1049h");
    for _ in 0..20 {
        term.feed(b"\x1b[?25;1049;47h\x1b[?25l\x1b[5 q");
        term.feed(b"\x1b[2J\x1b[1;1Hdrawn\x1b[0m\r\n\n\n\x1b[1;2r\x1bM\x1b7\x1b8\x1b[L");
    }
    term.feed(b"\x1b[?1049l");
    assert_eq!(screen(&term), before);
    assert_eq!((term.grid().cursor.row, term.grid().cursor.col), at);
    assert_eq!(term.grid().scrollback.len(), history);
    assert!(term.grid().cursor.visible && term.cursor_shape() == CursorShape::Block);
    assert!(term.grid().pen.fg == Color::Indexed(5) && term.grid().pen.attrs.has(CellAttrs::BOLD));
}

#[test]
fn a_full_history_does_not_move_the_view() {
    let mut t = Term::new(2, 4);
    t.feed(&b"x\r\n".repeat(9_999));
    t.feed(b"m\r\nn\r\n");
    t.scroll_view(1);
    assert_eq!(t.grid().scrollback.len(), 10_000);
    assert_eq!(t.viewport_row(0).cells[0].ch, 'm');
    t.feed(b"\r\n");
    assert_eq!(t.viewport_row(0).cells[0].ch, 'm');
    for _ in 0..50 {
        t.feed(b"\r\nyyyyyyyy");
        assert_eq!(t.viewport_row(0).cells[0].ch, 'm');
    }
    assert_eq!(t.grid().scrollback.len(), 10_000);
    t.feed(&b"z\r\n".repeat(20_000));
    assert_eq!(t.viewport_offset(), 10_000);
}

#[test]
fn a_scrolled_view_does_not_depend_on_how_output_is_split() {
    let output = b"a\r\nb\x1b[1mc\r\nddddeeee\r\nf";
    let mut whole = Term::new(2, 4);
    whole.feed(&b"x\r\n".repeat(30));
    whole.scroll_view(7);
    whole.feed(output);
    for cut in 0..=output.len() {
        let mut pieces = Term::new(2, 4);
        pieces.feed(&b"x\r\n".repeat(30));
        pieces.scroll_view(7);
        pieces.feed(&output[..cut]);
        pieces.feed(&output[cut..]);
        assert_eq!(pieces.viewport_offset(), whole.viewport_offset(), "cut at {cut}");
        assert_eq!(seen(&pieces), seen(&whole), "cut at {cut}");
    }
}

#[test]
fn a_reset_leaves_nothing_to_look_back_at() {
    let mut t = Term::new(2, 4);
    t.feed(b"a\r\nb\r\nc\r\nd");
    t.scroll_view(2);
    t.feed(b"\x1bc");
    assert_eq!(t.viewport_offset(), 0);
    assert!(t.grid().scrollback.is_empty());
}

#[test]
fn after_a_reset_the_view_moves_by_the_rows_that_are_missing() {
    let mut t = Term::new(2, 4);
    t.feed(&b"x\r\n".repeat(11));
    assert_eq!(t.grid().scrollback.len(), 10);
    t.scroll_view(8);
    let mut output = b"\x1bc".to_vec();
    output.extend(b"y\r\n".repeat(6));
    t.feed(&output);
    assert_eq!(t.grid().scrollback.len(), 5);
    assert_eq!(t.viewport_offset(), 3);
}

#[test]
fn an_accent_stays_with_its_letter() {
    let mut t = Term::new(1, 6);
    t.feed("cafe\u{0301}s".as_bytes());
    assert_eq!(line(&t, 0), "cafes ");
    assert_eq!(t.viewport_cursor(), Some((0, 5)));
}
