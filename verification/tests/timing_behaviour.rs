//! Frame pacing, reading, clipboard offers and benchmarks.

use soltty::bench::{
    detect_size, fill_row, glyph_page, next_color, next_jump, tick_color, write_cup, write_line,
    write_sgr_bg_space, write_sgr_fg256, Bench, BenchEnv,
};
use soltty::clipboard::{Way, Ways};
use soltty::grid::CursorShape;
use soltty::offers::{pick_text_mime, Offers};
use soltty::pacing::{
    cursor_blinks, cursor_shown, cursor_visible_now, frame_interval, next_blink_toggle, pick_frame_rate, Pacing, Wake,
    BLINK_HALF_NANOS, BURST_BYTES, BURST_HOLDOFF_FRAMES, IDLE_NANOS,
};
use soltty::reader::{poll_millis, Batch, PipeText, ReadOutcome, ReadStep, BATCH_BYTES};

#[test]
fn the_frame_rate_comes_from_the_first_that_says_one() {
    assert_eq!(pick_frame_rate(Some("75"), Some(90), Some(144_000)), 75);
    assert_eq!(pick_frame_rate(Some("x"), Some(90), Some(144_000)), 90);
    assert_eq!(pick_frame_rate(None, Some(0), Some(143_856)), 144);
    assert_eq!(pick_frame_rate(None, None, None), 120);
    assert_eq!(pick_frame_rate(Some("1"), None, None), 60);
    assert_eq!(pick_frame_rate(None, None, Some(500_000)), 240);
}

#[test]
fn frame_intervals_are_rounded() {
    assert_eq!(frame_interval(60), 16_666_667);
    assert_eq!(frame_interval(120), 8_333_333);
    assert_eq!(frame_interval(144), 6_944_444);
}

#[test]
fn a_frame_is_asked_for_once_and_not_too_soon() {
    let mut p = Pacing::new(1000, 0);
    p.output(1);
    assert!(p.maybe_request_redraw(5));
    assert!(!p.maybe_request_redraw(6));
    p.rendered(10);
    p.output(1);
    assert!(!p.maybe_request_redraw(1009));
    assert_eq!(p.about_to_wait(1009, false), Wake::At(1010));
    assert!(p.maybe_request_redraw(1010));
}

#[test]
fn waiting_and_asking_agree() {
    for now in [0u64, 10, 999, 1000, 1009, 1010, 5000, IDLE_NANOS + 10] {
        for holdoff in [0, 3] {
            let mut p = Pacing::new(1000, 0);
            p.rendered(10);
            p.output(1);
            p.burst_holdoff = holdoff;
            let mut q = p;
            assert_eq!(p.about_to_wait(now, false) == Wake::Redraw, q.maybe_request_redraw(now));
        }
    }
}

#[test]
fn output_waits_a_tenth_of_a_second_at_most() {
    let mut p = Pacing::new(u64::MAX, 0);
    p.rendered(0);
    p.output(1);
    assert_ne!(p.about_to_wait(IDLE_NANOS - 1, false), Wake::Redraw);
    assert_eq!(p.about_to_wait(IDLE_NANOS, false), Wake::Redraw);
}

#[test]
fn a_burst_spaces_frames_out_until_it_ends() {
    let mut p = Pacing::new(1000, 0);
    p.rendered(0);
    p.output(BURST_BYTES);
    assert!(!p.maybe_request_redraw(2999));
    assert!(p.maybe_request_redraw(3000));
    for t in 0..BURST_HOLDOFF_FRAMES as u64 {
        p.rendered(t);
    }
    p.output(1);
    assert_eq!(p.burst_holdoff, 0);
    assert!(p.maybe_request_redraw(1005));
    p.rendered(2000);
    p.output(BURST_BYTES - 1);
    assert_eq!(p.burst_holdoff, 0);
    p.output(BURST_BYTES);
    p.key_pressed();
    assert!(p.maybe_request_redraw(3000));
}

#[test]
fn the_cursor_blinks_in_halves() {
    assert!(cursor_blinks(CursorShape::Bar) && !cursor_blinks(CursorShape::Block));
    assert!(cursor_visible_now(CursorShape::Block, 0, BLINK_HALF_NANOS));
    assert!(cursor_visible_now(CursorShape::Bar, 7, 7 + BLINK_HALF_NANOS - 1));
    assert!(!cursor_visible_now(CursorShape::Bar, 7, 7 + BLINK_HALF_NANOS));
    assert_eq!(next_blink_toggle(7, 8), 7 + BLINK_HALF_NANOS);
    assert_eq!(next_blink_toggle(7, 7 + BLINK_HALF_NANOS), 7 + 2 * BLINK_HALF_NANOS);
    let mut p = Pacing::new(1000, 0);
    p.rendered(1);
    assert!(p.at_rest(false) && !p.at_rest(true));
    assert_eq!(p.about_to_wait(2, true), Wake::At(BLINK_HALF_NANOS));
    assert_eq!(p.about_to_wait(BLINK_HALF_NANOS, true), Wake::Redraw);
    p.typed(9);
    assert_eq!(p.blink_epoch, 9);
}

#[test]
fn batches_are_full_or_all_there_is() {
    let mut b = Batch::new();
    assert_eq!(b.advance(ReadOutcome::Nothing), ReadStep::Wait);
    assert_eq!(b.advance(ReadOutcome::Interrupted), ReadStep::Read);
    assert_eq!(b.advance(ReadOutcome::Bytes(10)), ReadStep::Read);
    assert_eq!(b.advance(ReadOutcome::Nothing), ReadStep::Deliver);
    assert_eq!(b.total, 10);
    assert_eq!(b.advance(ReadOutcome::Bytes(BATCH_BYTES - 10)), ReadStep::Deliver);
    let mut end = Batch::new();
    assert_eq!(end.advance(ReadOutcome::End), ReadStep::Stop);
    assert_eq!(Batch::new().advance(ReadOutcome::Failed), ReadStep::Stop);
    let mut last = Batch::new();
    last.advance(ReadOutcome::Bytes(1));
    assert_eq!(last.advance(ReadOutcome::End), ReadStep::Deliver);
}

#[test]
fn a_pipe_is_read_until_its_deadline() {
    assert_eq!(poll_millis(1_000_000_000, 999_999_999), Some(0));
    assert_eq!(poll_millis(1_000_000_000, 500_000_000), Some(500));
    assert_eq!(poll_millis(5, 5), Some(0));
    assert_eq!(poll_millis(5, 6), None);
    let mut text = PipeText::new();
    text.push("dí".as_bytes());
    text.push(b"a");
    assert_eq!(text.finish().as_deref(), Some("día"));
    let mut broken = PipeText::new();
    broken.push(b"\xff");
    assert_eq!(broken.finish(), None);
}

#[test]
fn the_best_text_on_offer_is_taken() {
    let list = |kinds: &[&str]| kinds.iter().map(|k| k.to_string()).collect::<Vec<_>>();
    assert_eq!(
        pick_text_mime(&list(&["image/png", "TEXT", "Text/Plain;Charset=UTF-8"])).as_deref(),
        Some("Text/Plain;Charset=UTF-8")
    );
    assert_eq!(pick_text_mime(&list(&["image/png"])), None);
    let mut o = Offers::new();
    o.announced();
    o.offered("text/plain".to_string());
    o.selected();
    assert!(o.selection_seen);
    assert_eq!(pick_text_mime(&o.mimes).as_deref(), Some("text/plain"));
}

fn env() -> BenchEnv<'static> {
    BenchEnv { iters: None, out: None, cols: None, rows: None, measured: None }
}

#[test]
fn a_run_is_set_up_from_the_environment() {
    let b = Bench::start("scroll", 7, &env());
    assert_eq!((b.iters, b.cols, b.rows), (7, 80, 24));
    assert_eq!(b.out_path, "/tmp/soltty_bench.txt");
    let b = Bench::start(
        "x",
        7,
        &BenchEnv { iters: Some("12"), out: Some("/o"), cols: Some("x"), rows: Some("9"), measured: Some((70, 30)) },
    );
    assert_eq!((b.iters, b.cols, b.rows), (12, 70, 9));
    assert_eq!(b.out_path, "/o");
    assert_eq!(detect_size(Some("65536"), None, None), (80, 24));
}

#[test]
fn the_record_of_a_run() {
    let b = Bench::start("fill", 3, &env());
    assert_eq!(b.finish(1_234_567_500, 99), "fill 1.234568 3 80 24 99\n");
    assert_eq!(b.finish_after(999, 5, 0), "fill 0.000001 5 80 24 0\n");
}

#[test]
fn workloads_are_exact() {
    assert_eq!(write_cup(12, 3), b"\x1b[12;3H");
    assert_eq!(write_line(42), b"line 42\n");
    assert_eq!(write_sgr_bg_space(1, 22, 255), b"\x1b[48;2;1;22;255m ");
    assert_eq!(write_sgr_fg256(208), b"\x1b[38;5;208m");
    assert_eq!(fill_row(94, 0, 3), b"~ !");
    assert_eq!(tick_color(216), 16);
    assert_eq!(tick_color(215), 231);
    let rng = 1u32.wrapping_mul(1103515245).wrapping_add(12345);
    let (state, row, col) = next_jump(1, 24, 80);
    assert_eq!(state, rng);
    assert_eq!(row as u32, (rng >> 16) % 24 + 1);
    assert_eq!(col as u32, (rng & 0xffff) % 80 + 1);
    let mut x = 88172645463325252u64;
    x ^= x >> 12;
    x ^= x << 25;
    x ^= x >> 27;
    let v = x.wrapping_mul(2685821657736338717);
    assert_eq!(
        next_color(88172645463325252),
        (x, v as u8, (v >> 8) as u8, (v >> 16) as u8)
    );
}

#[test]
fn a_page_of_glyphs_has_full_rows() {
    let page = glyph_page(64);
    assert!(page.starts_with("!\"#$"));
    assert!(page.ends_with('\n'));
    assert!(page.contains('漢') == ('漢' as u32 <= 0x3fff));
    assert!(page.contains('é') && !page.contains('\u{7f}'));
    let lines: Vec<&str> = page.lines().collect();
    assert!(lines[..lines.len() - 1].iter().all(|l| l.chars().count() == 64));
}

#[test]
fn a_window_without_the_keyboard_shows_no_cursor() {
    assert!(cursor_shown(true, CursorShape::Block, 0, 7));
    assert!(!cursor_shown(false, CursorShape::Block, 0, 7));
    assert!(cursor_shown(true, CursorShape::Underline, 0, 7));
    assert!(!cursor_shown(true, CursorShape::Underline, 0, BLINK_HALF_NANOS));
}

#[test]
fn the_ways_to_the_clipboard_in_their_order() {
    let all = Ways { compositor: true, programs: true, desktop: true };
    assert_eq!(all.tried(false, false), [Way::Compositor, Way::Program, Way::Desktop]);
    assert_eq!(all.tried(false, true), [Way::Compositor, Way::Program]);
    assert_eq!(all.tried(true, false), [Way::Program, Way::Desktop]);
    assert_eq!(all.tried(true, true), [Way::Program]);
    let elsewhere = Ways { compositor: false, programs: true, desktop: true };
    assert_eq!(elsewhere.tried(false, false), [Way::Desktop]);
    assert!(elsewhere.tried(true, true).is_empty());
    assert!(!elsewhere.are_missing());
    assert!(Ways { compositor: true, programs: false, desktop: false }.are_missing());
}
