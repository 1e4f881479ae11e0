//! What an application can ask the terminal for: modes, the shape of the
//! cursor, the title, and answers to its questions.

use vstd::prelude::*;

use crate::grid::{CursorModel, CursorShape, GridModel};
use crate::mouse::{MouseEncoding, MouseMode};
use crate::screen_laws;
use crate::sgr;
use crate::term;
use crate::term::TermModel;
use crate::text;
use crate::vt::VtAction;

verus! {

/// Private modes switched on or off.
pub open spec fn switched(t: TermModel, params: Seq<Seq<u16>>, on: bool) -> TermModel {
    t.perform(
        VtAction::Csi {
            params,
            intermediates: seq![0x3fu8],
            action: if on {
                'h'
            } else {
                'l'
            },
        },
    )
}

/// One private mode switched on or off.
pub open spec fn switched_one(t: TermModel, mode: u16, on: bool) -> TermModel {
    switched(t, seq![seq![mode]], on)
}

proof fn lemma_switched(t: TermModel, params: Seq<Seq<u16>>, on: bool)
    ensures
        switched(t, params, on) == t.set_modes(params, params.len() as int, on),
{
    reveal(TermModel::perform);
    reveal(TermModel::csi);
    assert(seq![0x3fu8][0] != seq![0x20u8][0]);
}

proof fn lemma_switched_one(t: TermModel, mode: u16, on: bool)
    ensures
        switched_one(t, mode, on) == t.set_mode(mode, on),
{
    lemma_switched(t, seq![seq![mode]], on);
    assert(t.set_modes(seq![seq![mode]], 0, on) == t);
    assert(sgr::value_at(seq![seq![mode]], 0) == Some(mode));
}

proof fn lemma_modes_split(t: TermModel, a: Seq<Seq<u16>>, b: Seq<Seq<u16>>, n: int, on: bool)
    requires
        0 <= n <= b.len(),
    ensures
        t.set_modes(a + b, a.len() + n, on) == t.set_modes(a, a.len() as int, on).set_modes(
            b,
            n,
            on,
        ),
    decreases n,
{
    if n > 0 {
        lemma_modes_split(t, a, b, n - 1, on);
        assert((a + b)[a.len() + n - 1] == b[n - 1]);
    } else {
        lemma_modes_prefix(t, a, b, a.len() as int, on);
    }
}

proof fn lemma_modes_prefix(t: TermModel, a: Seq<Seq<u16>>, b: Seq<Seq<u16>>, n: int, on: bool)
    requires
        0 <= n <= a.len(),
    ensures
        t.set_modes(a + b, n, on) == t.set_modes(a, n, on),
    decreases n,
{
    if n > 0 {
        lemma_modes_prefix(t, a, b, n - 1, on);
        assert((a + b)[n - 1] == a[n - 1]);
    }
}

/// Several modes in one sequence are switched one after the other, as if each
/// had a sequence of its own.
pub proof fn law_modes_are_switched_one_by_one(
    t: TermModel,
    a: Seq<Seq<u16>>,
    b: Seq<Seq<u16>>,
    on: bool,
)
    ensures
        switched(t, a + b, on) == switched(switched(t, a, on), b, on),
{
    lemma_switched(t, a + b, on);
    lemma_switched(t, a, on);
    lemma_switched(switched(t, a, on), b, on);
    lemma_modes_split(t, a, b, b.len() as int, on);
}

/// Mode 1 is that of the application cursor keys, 2004 bracketed paste, 1006 the
/// long form of mouse reports. 1000, 1002 and 1003 ask for presses, for motion
/// with a button held, and for all motion; switching any of them off ends the
/// reports. 25 shows and hides the cursor. Each changes nothing else, and a mode
/// that is none of these, nor one of the alternate screen, changes nothing.
pub proof fn law_modes_are_what_they_are_called(t: TermModel, mode: u16, on: bool)
    ensures
        ({
            let g = screen_laws::in_use(t);
            &&& switched_one(t, 1, on) == (TermModel { application_cursor_keys: on, ..t })
            &&& switched_one(t, 2004, on) == (TermModel { bracketed_paste: on, ..t })
            &&& switched_one(t, 1006, true) == (TermModel {
                mouse_encoding: MouseEncoding::Sgr,
                ..t
            })
            &&& switched_one(t, 1006, false) == (TermModel {
                mouse_encoding: MouseEncoding::Default,
                ..t
            })
            &&& switched_one(t, 1000, true) == (TermModel {
                mouse_mode: MouseMode::ButtonEvent,
                ..t
            })
            &&& switched_one(t, 1002, true) == (TermModel {
                mouse_mode: MouseMode::ButtonAndMotion,
                ..t
            })
            &&& switched_one(t, 1003, true) == (TermModel {
                mouse_mode: MouseMode::AllMotion,
                ..t
            })
            &&& mode == 1000 || mode == 1002 || mode == 1003 ==> switched_one(t, mode, false) == (
            TermModel { mouse_mode: MouseMode::Off, ..t })
            &&& screen_laws::shows(
                t,
                switched_one(t, 25, on),
                GridModel { cursor: CursorModel { visible: on, ..g.cursor }, ..g },
            )
            &&& mode != 1 && mode != 25 && mode != 47 && mode != 1000 && mode != 1002 && mode != 1003
                && mode != 1006 && mode != 1047 && mode != 1049 && mode != 2004 ==> switched_one(
                t,
                mode,
                on,
            ) == t
        }),
{
    lemma_switched_one(t, 1, on);
    lemma_switched_one(t, 2004, on);
    lemma_switched_one(t, 1006, true);
    lemma_switched_one(t, 1006, false);
    lemma_switched_one(t, 1000, true);
    lemma_switched_one(t, 1002, true);
    lemma_switched_one(t, 1003, true);
    lemma_switched_one(t, mode, false);
    lemma_switched_one(t, mode, true);
    lemma_switched_one(t, 25, on);
    reveal(TermModel::set_mode);
}

/// Modes 47, 1047 and 1049 switch to an alternate screen that is blank, has the
/// size of the primary one, keeps no history and has its cursor in the corner.
/// The primary screen only remembers its cursor and pen, which switching back
/// restores, and the alternate screen is dropped. Only 1049 erases an alternate
/// screen that is already there; switching off without one does nothing.
pub proof fn law_alternate_screen(t: TermModel, mode: u16, r: int, c: int)
    requires
        t.wf(),
        mode == 47 || mode == 1047 || mode == 1049,
        0 <= r < t.primary.rows,
        0 <= c < t.primary.cols,
    ensures
        ({
            let p = t.primary;
            let on = switched_one(t, mode, true);
            let off = switched_one(t, mode, false);
            let h = on.alt->0;
            let back = match p.saved {
                Some((cursor, pen)) => GridModel { cursor, pen, ..p },
                None => p,
            };
            &&& t.alt is None ==> {
                &&& on == (TermModel {
                    primary: GridModel { saved: Some((p.cursor, p.pen)), ..p },
                    alt: on.alt,
                    ..t
                })
                &&& on.alt is Some
                &&& h.rows == p.rows && h.cols == p.cols
                &&& h.scrollback.len() == 0 && h.scrollback_limit == 0
                &&& h.cursor.row == 0 && h.cursor.col == 0 && h.cursor.visible
                &&& h.saved is None
                &&& h.lines[r][c].ch == ' ' && h.lines[r][c].width == 1
                &&& h.lines[r][c].attrs.0 == 0
                &&& h.lines[r][c].fg == crate::grid::Color::Default
                &&& h.lines[r][c].bg == crate::grid::Color::Default
                &&& off == t
            }
            &&& t.alt is Some ==> {
                &&& off == (TermModel { primary: back, alt: None, ..t })
                &&& mode != 1049 ==> on == t
                &&& mode == 1049 ==> on == (TermModel { alt: on.alt, ..t })
                &&& mode == 1049 ==> screen_laws::same_but_cells(t.alt->0, h)
                &&& mode == 1049 ==> h.lines[r][c] == screen_laws::erased(t.alt->0)
            }
        }),
{
    lemma_switched_one(t, mode, true);
    lemma_switched_one(t, mode, false);
    reveal(TermModel::set_mode);
}

/// The cursor is a block for 0, 1 and 2, an underline for 3 and 4, a bar for 5
/// and 6. Other numbers keep its shape. Nothing else changes.
pub proof fn law_cursor_shape_is_set(t: TermModel, params: Seq<Seq<u16>>)
    ensures
        ({
            let g = screen_laws::in_use(t);
            let n = screen_laws::given(params, 0);
            let after = t.perform(
                VtAction::Csi { params, intermediates: seq![0x20u8], action: 'q' },
            );
            let shape = screen_laws::in_use(after).cursor.shape;
            &&& screen_laws::shows(
                t,
                after,
                GridModel { cursor: CursorModel { shape, ..g.cursor }, ..g },
            )
            &&& n == 0 || n == 1 || n == 2 ==> shape == CursorShape::Block
            &&& n == 3 || n == 4 ==> shape == CursorShape::Underline
            &&& n == 5 || n == 6 ==> shape == CursorShape::Bar
            &&& n > 6 ==> shape == g.cursor.shape
        }),
{
    reveal(TermModel::perform);
    reveal(TermModel::csi);
    reveal(term::with_shape);
}

/// A question with 5 is answered `ESC [ 0 n`, one with 6 with the place of the
/// cursor, row first, counted from one. The answer follows what is already owed,
/// and nothing else changes. Other questions get no answer.
pub proof fn law_status_is_reported(t: TermModel, params: Seq<Seq<u16>>)
    ensures
        ({
            let at = screen_laws::in_use(t).cursor;
            let n = screen_laws::given(params, 0);
            let after = screen_laws::sequence(t, params, 'n');
            let place = seq![0x1bu8, 0x5b] + text::decimal((at.row + 1) as nat) + seq![0x3bu8]
                + text::decimal((at.col + 1) as nat) + seq![0x52u8];
            &&& after == (TermModel { reply: after.reply, ..t })
            &&& n == 5 ==> after.reply == t.reply + seq![0x1bu8, 0x5b, 0x30, 0x6e]
            &&& n == 6 ==> after.reply == t.reply + place
            &&& n != 5 && n != 6 ==> after.reply == t.reply
        }),
{
    reveal(TermModel::perform);
    reveal(TermModel::csi);
    reveal(term::status_reply);
    assert(Seq::<u8>::empty() != seq![0x20u8]) by {
        assert(seq![0x20u8].len() == 1);
    }
    reveal_strlit("\x1b[0n");
    reveal_strlit("\x1b[");
    reveal_strlit(";");
    reveal_strlit("R");
    assert(text::ascii("\x1b[0n"@) =~= seq![0x1bu8, 0x5b, 0x30, 0x6e]);
    assert(text::ascii("\x1b["@) =~= seq![0x1bu8, 0x5b]);
    assert(text::ascii(";"@) =~= seq![0x3bu8]);
    assert(text::ascii("R"@) =~= seq![0x52u8]);
    assert(t.reply + Seq::<u8>::empty() =~= t.reply);
}

/// An operating system command with one text after its number.
pub open spec fn command(t: TermModel, number: Seq<u8>, payload: Seq<u8>, bell: bool) -> TermModel {
    t.perform(VtAction::Osc { fields: seq![number, payload], bell })
}

proof fn lemma_command(t: TermModel, number: Seq<u8>, payload: Seq<u8>, bell: bool)
    ensures
        command(t, number, payload, bell) == t.osc(seq![number, payload]),
        term::joined(seq![number, payload].skip(1)) == payload,
{
    reveal(TermModel::perform);
    let rest = seq![number, payload].skip(1);
    assert(rest =~= seq![payload]);
    assert(rest.drop_last() =~= Seq::<Seq<u8>>::empty());
    assert(term::joined(rest.drop_last()) == Seq::<u8>::empty());
    assert(term::joined(rest) =~= payload);
}

/// Commands 0 and 2 make a text the title, if it is valid UTF-8, and change
/// nothing else.
pub proof fn law_title_is_set(t: TermModel, payload: Seq<u8>, bell: bool)
    ensures
        vstd::utf8::valid_utf8(payload) ==> command(t, seq![0x30u8], payload, bell) == (TermModel {
            title: vstd::utf8::decode_utf8(payload),
            ..t
        }),
        !vstd::utf8::valid_utf8(payload) ==> command(t, seq![0x30u8], payload, bell) == t,
        command(t, seq![0x32u8], payload, bell) == command(t, seq![0x30u8], payload, bell),
{
    lemma_command(t, seq![0x30u8], payload, bell);
    lemma_command(t, seq![0x32u8], payload, bell);
    reveal(TermModel::osc);
    reveal_strlit("0");
    reveal_strlit("2");
    assert(text::ascii("0"@) =~= seq![0x30u8]);
    assert(text::ascii("2"@) =~= seq![0x32u8]);
}

/// A component of a colour in an answer: its two hexadecimal digits, twice.
pub open spec fn component(b: u8) -> Seq<u8> {
    text::hex(b) + text::hex(b)
}

/// The answer to a question for a colour.
pub open spec fn color_answer(number: Seq<u8>, color: [u8; 3]) -> Seq<u8> {
    seq![0x1bu8, 0x5d] + number + seq![0x3bu8, 0x72, 0x67, 0x62, 0x3a] + component(color[0])
        + seq![0x2fu8] + component(color[1]) + seq![0x2fu8] + component(color[2]) + seq![0x07u8]
}

/// Command 10 asks for the colour of text, 11 for that of the background and 12
/// for that of the cursor. The answer repeats the number, gives each component
/// twice, and follows what is already owed.
pub proof fn law_colors_are_reported(t: TermModel, bell: bool)
    ensures
        command(t, seq![0x31u8, 0x30], seq![0x3fu8], bell) == (TermModel {
            reply: t.reply + color_answer(seq![0x31u8, 0x30], t.default_fg),
            ..t
        }),
        command(t, seq![0x31u8, 0x31], seq![0x3fu8], bell) == (TermModel {
            reply: t.reply + color_answer(seq![0x31u8, 0x31], t.default_bg),
            ..t
        }),
        command(t, seq![0x31u8, 0x32], seq![0x3fu8], bell) == (TermModel {
            reply: t.reply + color_answer(seq![0x31u8, 0x32], t.cursor_color),
            ..t
        }),
{
    let ask = seq![0x3fu8];
    lemma_command(t, seq![0x31u8, 0x30], ask, bell);
    lemma_command(t, seq![0x31u8, 0x31], ask, bell);
    lemma_command(t, seq![0x31u8, 0x32], ask, bell);
    lemma_color_answer(10, 0x30, t.default_fg);
    lemma_color_answer(11, 0x31, t.default_bg);
    lemma_color_answer(12, 0x32, t.cursor_color);
    reveal(TermModel::osc);
    reveal_strlit("?");
    reveal_strlit("0");
    reveal_strlit("2");
    reveal_strlit("10");
    reveal_strlit("11");
    reveal_strlit("12");
    assert(text::ascii("?"@) =~= ask);
    assert(text::ascii("0"@).len() == 1);
    assert(text::ascii("2"@).len() == 1);
    assert(seq![0x31u8, 0x30].len() == 2);
    assert(seq![0x31u8, 0x31].len() == 2);
    assert(seq![0x31u8, 0x32].len() == 2);
    assert(seq![0x31u8, 0x30][1] != seq![0x31u8, 0x31][1]);
    assert(seq![0x31u8, 0x30][1] != seq![0x31u8, 0x32][1]);
    assert(seq![0x31u8, 0x31][1] != seq![0x31u8, 0x32][1]);
    assert(text::ascii("10"@) =~= seq![0x31u8, 0x30]);
    assert(text::ascii("11"@) =~= seq![0x31u8, 0x31]);
    assert(text::ascii("12"@) =~= seq![0x31u8, 0x32]);
}

proof fn lemma_color_answer(code: int, digit: u8, color: [u8; 3])
    requires
        10 <= code <= 12,
        digit == 0x30 + (code - 10),
    ensures
        term::color_reply(code, color) == color_answer(seq![0x31u8, digit], color),
{
    reveal(term::color_reply);
    reveal_with_fuel(text::decimal, 2);
    reveal_strlit("\x1b]");
    reveal_strlit(";rgb:");
    reveal_strlit("/");
    reveal_strlit("\x07");
    assert(text::decimal(code as nat) =~= seq![0x31u8, digit]);
    assert(text::ascii("\x1b]"@) =~= seq![0x1bu8, 0x5d]);
    assert(text::ascii(";rgb:"@) =~= seq![0x3bu8, 0x72, 0x67, 0x62, 0x3a]);
    assert(text::ascii("/"@) =~= seq![0x2fu8]);
    assert(text::ascii("\x07"@) =~= seq![0x07u8]);
    assert(term::color_reply(code, color) =~= color_answer(seq![0x31u8, digit], color));
}

} // verus!
