//! The terminal: two screens, the modes an application can set, the replies
//! it is owed, and the window into history that the user looks at.
//!
//! A [`Term`] is modelled by a [`TermModel`]. What a stretch of output does is
//! defined byte by byte: the parser turns the byte into actions, see
//! [`crate::vt::vt_actions`], and [`TermModel::perform`] says what each action
//! does.

use vstd::prelude::*;

use crate::grid::{CursorShape, Grid, GridModel, Row};
use crate::mouse::{MouseEncoding, MouseMode};
use crate::sgr;
use crate::text;
use crate::vt;
use crate::vt::{VtAction, VtEvent};

verus! {

/// The number of rows of history that the primary screen keeps.
pub const SCROLLBACK_ROWS: usize = 10_000;

/// What a terminal holds.
#[verifier::ext_equal]
pub struct TermModel {
    pub primary: GridModel,
    pub alt: Option<GridModel>,
    pub title: Seq<char>,
    pub viewport_offset: int,
    pub bracketed_paste: bool,
    pub application_cursor_keys: bool,
    pub default_fg: [u8; 3],
    pub default_bg: [u8; 3],
    pub cursor_color: [u8; 3],
    pub mouse_mode: MouseMode,
    pub mouse_encoding: MouseEncoding,
    /// Bytes that the application is owed.
    pub reply: Seq<u8>,
}

/// The `idx`-th parameter, or `default` where it is missing or zero.
pub open spec fn arg_or(params: Seq<Seq<u16>>, idx: int, default: u16) -> u16 {
    match sgr::value_at(params, idx) {
        Some(n) => if n != 0 {
            n
        } else {
            default
        },
        None => default,
    }
}

/// A position counted from one as a position counted from zero.
pub open spec fn from_one(n: u16) -> int {
    if n > 0 {
        n - 1
    } else {
        0
    }
}

/// All pieces one after the other.
pub open spec fn joined(pieces: Seq<Seq<u8>>) -> Seq<u8>
    decreases pieces.len(),
{
    if pieces.len() == 0 {
        Seq::empty()
    } else {
        joined(pieces.drop_last()) + pieces.last()
    }
}

/// The effect of a control byte on the screen.
#[verifier::opaque]
pub open spec fn control(g: GridModel, byte: u8) -> GridModel {
    if byte == 0x08 {
        g.backspace()
    } else if byte == 0x09 {
        g.tab()
    } else if byte == 0x0a || byte == 0x0b || byte == 0x0c {
        g.line_feed()
    } else if byte == 0x0d {
        g.carriage_return()
    } else {
        g
    }
}

/// The effect on the screen of a control sequence without a private marker.
/// One that edits cells does nothing while the cursor is off the screen,
/// where a cursor restored after a resize can be.
#[verifier::opaque]
pub open spec fn csi_screen(g: GridModel, params: Seq<Seq<u16>>, action: char) -> GridModel {
    let n = arg_or(params, 0, 1) as int;
    let mode = arg_or(params, 0, 0) as int;
    if action == 'A' {
        g.move_cursor(-n, 0)
    } else if action == 'B' {
        g.move_cursor(n, 0)
    } else if action == 'C' {
        g.move_cursor(0, n)
    } else if action == 'D' {
        g.move_cursor(0, -n)
    } else if action == 'E' {
        g.move_cursor(n, 0).carriage_return()
    } else if action == 'F' {
        g.move_cursor(-n, 0).carriage_return()
    } else if action == 'G' {
        g.goto(g.cursor.row, n - 1)
    } else if action == 'H' || action == 'f' {
        g.goto(n - 1, arg_or(params, 1, 1) - 1)
    } else if action == 'J' {
        if g.can_erase_display(mode) {
            g.erase_display(mode)
        } else {
            g
        }
    } else if action == 'K' {
        if g.can_erase_line(mode) {
            g.erase_line(mode)
        } else {
            g
        }
    } else if action == 'L' {
        g.insert_lines(n)
    } else if action == 'M' {
        g.delete_lines(n)
    } else if action == 'P' {
        if g.cursor.row < g.rows && g.cursor.col <= g.cols {
            g.delete_chars(n)
        } else {
            g
        }
    } else if action == '@' {
        if g.cursor.row < g.rows && g.cursor.col <= g.cols {
            g.insert_chars(n)
        } else {
            g
        }
    } else if action == 'X' {
        if g.cursor.row < g.rows || g.cursor.col >= g.cols {
            g.erase_chars(n)
        } else {
            g
        }
    } else if action == 'd' {
        g.goto(n - 1, g.cursor.col)
    } else if action == 'r' {
        g.set_scroll_region(n - 1, from_one(arg_or(params, 1, g.rows as u16)))
    } else if action == 's' {
        g.save_cursor()
    } else if action == 'u' {
        g.restore_cursor()
    } else if action == 'm' {
        GridModel { pen: sgr::sgr(g.pen, params), ..g }
    } else {
        g
    }
}

/// The screen with another cursor shape; unknown codes keep the shape.
#[verifier::opaque]
pub open spec fn with_shape(g: GridModel, code: u16) -> GridModel {
    let shape = if code <= 2 {
        CursorShape::Block
    } else if code <= 4 {
        CursorShape::Underline
    } else if code <= 6 {
        CursorShape::Bar
    } else {
        g.cursor.shape
    };
    GridModel { cursor: crate::grid::CursorModel { shape, ..g.cursor }, ..g }
}

/// The effect of an escape sequence on the screen.
#[verifier::opaque]
pub open spec fn esc_screen(g: GridModel, byte: u8) -> GridModel {
    if byte == 0x37 {
        g.save_cursor()
    } else if byte == 0x38 {
        g.restore_cursor()
    } else if byte == 0x44 {
        g.line_feed()
    } else if byte == 0x45 {
        g.line_feed().carriage_return()
    } else if byte == 0x4d {
        g.reverse_index()
    } else if byte == 0x63 {
        GridModel::fresh(g.rows, g.cols, g.scrollback_limit)
    } else {
        g
    }
}

/// The answer to a colour query: 16 bits for each component, each byte
/// doubled.
#[verifier::opaque]
pub open spec fn color_reply(code: int, color: [u8; 3]) -> Seq<u8> {
    text::ascii("\x1b]"@) + text::decimal(code as nat) + text::ascii(";rgb:"@) + text::hex(
        color[0],
    ) + text::hex(color[0]) + text::ascii("/"@) + text::hex(color[1]) + text::hex(color[1])
        + text::ascii("/"@) + text::hex(color[2]) + text::hex(color[2]) + text::ascii("\x07"@)
}

/// The answer to a device status report.
#[verifier::opaque]
pub open spec fn status_reply(g: GridModel, n: u16) -> Seq<u8> {
    if n == 5 {
        text::ascii("\x1b[0n"@)
    } else if n == 6 {
        text::ascii("\x1b["@) + text::decimal((g.cursor.row + 1) as nat) + text::ascii(";"@)
            + text::decimal((g.cursor.col + 1) as nat) + text::ascii("R"@)
    } else {
        Seq::empty()
    }
}

impl TermModel {
    /// The alternate screen is in use.
    pub open spec fn on_alt(self) -> bool {
        self.alt is Some
    }

    /// The screen in use.
    pub open spec fn screen(self) -> GridModel {
        match self.alt {
            Some(g) => g,
            None => self.primary,
        }
    }

    /// The screen in use replaced.
    pub open spec fn with_screen(self, g: GridModel) -> TermModel {
        match self.alt {
            Some(_) => TermModel { alt: Some(g), ..self },
            None => TermModel { primary: g, ..self },
        }
    }

    /// Both screens are well formed and of one size; only the primary one
    /// keeps a history.
    pub open spec fn wf(self) -> bool {
        &&& self.primary.wf()
        &&& self.primary.scrollback_limit == SCROLLBACK_ROWS
        &&& self.alt matches Some(g) ==> {
            &&& g.wf()
            &&& g.rows == self.primary.rows
            &&& g.cols == self.primary.cols
            &&& g.scrollback_limit == 0
        }
        &&& 0 <= self.viewport_offset <= crate::grid::dim_limit()
    }

    /// The screen has at least one cell.
    pub open spec fn has_cells(self) -> bool {
        self.primary.rows > 0 && self.primary.cols > 0
    }

    /// A terminal before any output.
    pub open spec fn fresh(rows: int, cols: int) -> TermModel {
        TermModel {
            primary: GridModel::fresh(rows, cols, SCROLLBACK_ROWS as int),
            alt: None,
            title: Seq::empty(),
            viewport_offset: 0,
            bracketed_paste: false,
            application_cursor_keys: false,
            default_fg: [0, 0, 0],
            default_bg: [0, 0, 0],
            cursor_color: [0, 0, 0],
            mouse_mode: MouseMode::Off,
            mouse_encoding: MouseEncoding::Default,
            reply: Seq::empty(),
        }
    }

    /// Switches to a fresh alternate screen, remembering cursor and pen of
    /// the primary one.
    pub open spec fn enter_alt(self) -> TermModel {
        if self.on_alt() {
            self
        } else {
            TermModel {
                primary: self.primary.save_cursor(),
                alt: Some(GridModel::fresh(self.primary.rows, self.primary.cols, 0)),
                ..self
            }
        }
    }

    /// Drops the alternate screen and goes back to the primary one.
    pub open spec fn leave_alt(self) -> TermModel {
        if self.on_alt() {
            TermModel { primary: self.primary.restore_cursor(), alt: None, ..self }
        } else {
            self
        }
    }

    /// Sets or resets one private mode.
    #[verifier::opaque]
    pub open spec fn set_mode(self, mode: u16, on: bool) -> TermModel {
        if mode == 1 {
            TermModel { application_cursor_keys: on, ..self }
        } else if mode == 25 {
            let g = self.screen();
            self.with_screen(
                GridModel { cursor: crate::grid::CursorModel { visible: on, ..g.cursor }, ..g },
            )
        } else if mode == 1000 {
            TermModel {
                mouse_mode: if on {
                    MouseMode::ButtonEvent
                } else {
                    MouseMode::Off
                },
                ..self
            }
        } else if mode == 1002 {
            TermModel {
                mouse_mode: if on {
                    MouseMode::ButtonAndMotion
                } else {
                    MouseMode::Off
                },
                ..self
            }
        } else if mode == 1003 {
            TermModel {
                mouse_mode: if on {
                    MouseMode::AllMotion
                } else {
                    MouseMode::Off
                },
                ..self
            }
        } else if mode == 1006 {
            TermModel {
                mouse_encoding: if on {
                    MouseEncoding::Sgr
                } else {
                    MouseEncoding::Default
                },
                ..self
            }
        } else if mode == 47 || mode == 1047 {
            if on {
                self.enter_alt()
            } else {
                self.leave_alt()
            }
        } else if mode == 1049 {
            if on {
                let entered = self.enter_alt();
                entered.with_screen(entered.screen().erase_display(2))
            } else {
                self.leave_alt()
            }
        } else if mode == 2004 {
            TermModel { bracketed_paste: on, ..self }
        } else {
            self
        }
    }

    /// Sets or resets the private modes that the first `n` parameters name.
    pub open spec fn set_modes(self, params: Seq<Seq<u16>>, n: int, on: bool) -> TermModel
        decreases n,
    {
        if n <= 0 {
            self
        } else {
            let mode = match sgr::value_at(params, n - 1) {
                Some(m) => m,
                None => 0,
            };
            self.set_modes(params, n - 1, on).set_mode(mode, on)
        }
    }

    /// Carries out a control sequence.
    #[verifier::opaque]
    pub open spec fn csi(
        self,
        params: Seq<Seq<u16>>,
        intermediates: Seq<u8>,
        action: char,
    ) -> TermModel {
        let private = intermediates.len() > 0 && intermediates[0] == 0x3f;
        if intermediates == seq![0x20u8] && action == 'q' {
            self.with_screen(with_shape(self.screen(), arg_or(params, 0, 0)))
        } else if private {
            if action == 'h' {
                self.set_modes(params, params.len() as int, true)
            } else if action == 'l' {
                self.set_modes(params, params.len() as int, false)
            } else {
                self
            }
        } else if action == 'n' {
            TermModel {
                reply: self.reply + status_reply(self.screen(), arg_or(params, 0, 0)),
                ..self
            }
        } else {
            self.with_screen(csi_screen(self.screen(), params, action))
        }
    }

    /// Carries out an operating system command: 0 and 2 set the title, 10,
    /// 11 and 12 answer a query for a theme colour. A request to change a
    /// colour is ignored.
    #[verifier::opaque]
    pub open spec fn osc(self, fields: Seq<Seq<u8>>) -> TermModel {
        if fields.len() == 0 {
            self
        } else {
            let code = fields[0];
            let payload = joined(fields.skip(1));
            let query = payload == text::ascii("?"@);
            if code == text::ascii("0"@) || code == text::ascii("2"@) {
                if vstd::utf8::valid_utf8(payload) {
                    TermModel { title: vstd::utf8::decode_utf8(payload), ..self }
                } else {
                    self
                }
            } else if code == text::ascii("10"@) && query {
                TermModel { reply: self.reply + color_reply(10, self.default_fg), ..self }
            } else if code == text::ascii("11"@) && query {
                TermModel { reply: self.reply + color_reply(11, self.default_bg), ..self }
            } else if code == text::ascii("12"@) && query {
                TermModel { reply: self.reply + color_reply(12, self.cursor_color), ..self }
            } else {
                self
            }
        }
    }

    /// Carries out one action of the parser.
    #[verifier::opaque]
    pub open spec fn perform(self, action: VtAction) -> TermModel {
        match action {
            VtAction::Print(c) => self.with_screen(self.screen().put_char(c)),
            VtAction::Execute(byte) => self.with_screen(control(self.screen(), byte)),
            VtAction::Csi { params, intermediates, action } => self.csi(
                params,
                intermediates,
                action,
            ),
            VtAction::Esc { intermediates, byte } => if intermediates.len() == 0 {
                self.with_screen(esc_screen(self.screen(), byte))
            } else {
                self
            },
            VtAction::Osc { fields, .. } => self.osc(fields),
            _ => self,
        }
    }

    /// Carries out actions one after the other.
    pub open spec fn perform_all(self, actions: Seq<VtAction>) -> TermModel
        decreases actions.len(),
    {
        if actions.len() == 0 {
            self
        } else {
            self.perform_all(actions.drop_last()).perform(actions.last())
        }
    }

    /// Takes in one byte of output after `history`.
    pub open spec fn step(self, history: Seq<u8>, byte: u8) -> TermModel {
        self.perform_all(vt::vt_actions(history, byte))
    }

    /// Takes in bytes of output after `history`, leaving the viewport where
    /// it is.
    pub open spec fn run(self, history: Seq<u8>, bytes: Seq<u8>) -> TermModel
        decreases bytes.len(),
    {
        if bytes.len() == 0 {
            self
        } else {
            self.run(history, bytes.drop_last()).step(history + bytes.drop_last(), bytes.last())
        }
    }

    /// From now on, rows that enter the history count as new.
    pub open spec fn counted(self) -> TermModel {
        TermModel { primary: GridModel { new_rows: 0, ..self.primary }, ..self }
    }

    /// The viewport moved along with the history, which had `before` rows, so
    /// that a user who scrolled back keeps looking at the same rows, as long as
    /// the history has them: by as many rows as the history has grown, or, where
    /// it is full, by as many as are new in it. After a reset, which drops the
    /// history, it has shrunk unless as many rows followed, and the viewport
    /// moves towards the live screen by the rows that are missing. The new rows
    /// are counted with that.
    pub open spec fn anchored(self, before: int) -> TermModel {
        let now = self.primary.scrollback.len() as int;
        let moved = if now < self.primary.history_room() {
            self.viewport_offset + now - before
        } else {
            self.viewport_offset + self.primary.new_rows
        };
        TermModel {
            viewport_offset: if self.viewport_offset == 0 {
                0
            } else {
                crate::grid::clamp_below(moved, now + 1)
            },
            ..self.counted()
        }
    }

    /// Takes in bytes of output after `history`.
    pub open spec fn feed(self, history: Seq<u8>, bytes: Seq<u8>) -> TermModel {
        self.counted().run(history, bytes).anchored(self.primary.scrollback.len() as int)
    }

    /// Both screens in a new size; the view stays within the history of the
    /// screen in use.
    pub open spec fn resize(self, rows: int, cols: int) -> TermModel {
        let sized = TermModel {
            primary: self.primary.resize(rows, cols),
            alt: match self.alt {
                Some(g) => Some(g.resize(rows, cols)),
                None => None,
            },
            ..self
        };
        TermModel {
            viewport_offset: crate::grid::min_int(
                self.viewport_offset,
                self.screen().scrollback.len() as int,
            ),
            ..sized
        }
    }

    /// The view scrolled by `delta` rows, within the history.
    pub open spec fn scroll_view(self, delta: int) -> TermModel {
        if self.on_alt() {
            self
        } else {
            TermModel {
                viewport_offset: crate::grid::clamp_below(
                    self.viewport_offset + delta,
                    self.primary.scrollback.len() as int + 1,
                ),
                ..self
            }
        }
    }

    /// History and screen in one: history first, oldest row first.
    pub open spec fn all_rows(self) -> Seq<Seq<crate::grid::Cell>> {
        self.screen().scrollback + self.screen().lines
    }

    /// The index into [`TermModel::all_rows`] of the top row in view.
    pub open spec fn viewport_top(self) -> int {
        let n = self.screen().scrollback.len() as int;
        if self.viewport_offset < n {
            n - self.viewport_offset
        } else {
            0
        }
    }
}

/// The parser cannot tell two histories apart: what follows them is parsed
/// alike.
pub open spec fn same_future(a: Seq<u8>, b: Seq<u8>) -> bool {
    forall|rest: Seq<u8>, next: u8|
        #![trigger vt::vt_actions(a + rest, next)]
        #![trigger vt::vt_actions(b + rest, next)]
        vt::vt_actions(a + rest, next) == vt::vt_actions(b + rest, next)
}

/// A byte that both have taken in keeps two histories alike.
proof fn lemma_same_future_push(a: Seq<u8>, b: Seq<u8>, byte: u8)
    requires
        same_future(a, b),
    ensures
        vt::vt_actions(a, byte) == vt::vt_actions(b, byte),
        same_future(a.push(byte), b.push(byte)),
{
    assert(a + Seq::<u8>::empty() =~= a);
    assert(b + Seq::<u8>::empty() =~= b);
    assert forall|rest: Seq<u8>, next: u8|
        #![trigger vt::vt_actions(a.push(byte) + rest, next)]
        #![trigger vt::vt_actions(b.push(byte) + rest, next)]
        vt::vt_actions(a.push(byte) + rest, next) == vt::vt_actions(b.push(byte) + rest, next) by {
        assert(a.push(byte) + rest =~= a + (seq![byte] + rest));
        assert(b.push(byte) + rest =~= b + (seq![byte] + rest));
    }
}

/// Between sequences a printable byte need not be shown to the parser: it
/// stands for itself and the parser is none the wiser.
proof fn lemma_skip_printable(a: Seq<u8>, b: Seq<u8>, byte: u8)
    requires
        same_future(a, b),
        vt::idle(a),
        vt::printable(byte),
    ensures
        vt::vt_actions(b, byte) == seq![VtAction::Print(byte as char)],
        same_future(a, b.push(byte)),
{
    lemma_same_future_push(a, b, byte);
    assert(vt::vt_actions(a.push(byte) + Seq::<u8>::empty(), byte) == vt::vt_actions(
        a + Seq::<u8>::empty(),
        byte,
    ));
    assert forall|rest: Seq<u8>, next: u8|
        #![trigger vt::vt_actions(a + rest, next)]
        #![trigger vt::vt_actions(b.push(byte) + rest, next)]
        vt::vt_actions(a + rest, next) == vt::vt_actions(b.push(byte) + rest, next) by {
        assert(vt::vt_actions(a.push(byte) + rest, next) == vt::vt_actions(a + rest, next));
    }
}

/// The `idx`-th parameter, or `default` where it is missing or zero.
fn arg(params: &[Vec<u16>], idx: usize, default: u16) -> (n: u16)
    ensures
        n == arg_or(vt::lists(params@), idx as int, default),
{
    if idx < params.len() && params[idx].len() > 0 && params[idx][0] != 0 {
        params[idx][0]
    } else {
        default
    }
}

/// Carries out a control sequence without a private marker on the screen.
fn csi_on_screen(g: &mut Grid, params: &[Vec<u16>], action: char)
    requires
        old(g).wf(),
        old(g)@.rows > 0,
        old(g)@.cols > 0,
    ensures
        final(g).wf(),
        final(g)@ == csi_screen(old(g)@, vt::lists(params@), action),
        final(g)@.rows == old(g)@.rows,
        final(g)@.cols == old(g)@.cols,
        final(g)@.scrollback_limit == old(g)@.scrollback_limit,
{
    reveal(csi_screen);
    let n: u16 = arg(params, 0, 1);
    let mode: u16 = arg(params, 0, 0);
    if action == 'A' {
        g.move_cursor(-(n as isize), 0);
    } else if action == 'B' {
        g.move_cursor(n as isize, 0);
    } else if action == 'C' {
        g.move_cursor(0, n as isize);
    } else if action == 'D' {
        g.move_cursor(0, -(n as isize));
    } else if action == 'E' {
        g.move_cursor(n as isize, 0);
        g.carriage_return();
    } else if action == 'F' {
        g.move_cursor(-(n as isize), 0);
        g.carriage_return();
    } else if action == 'G' {
        let row: usize = g.cursor.row;
        g.goto(row, (n - 1) as usize);
    } else if action == 'H' || action == 'f' {
        let col: u16 = arg(params, 1, 1);
        g.goto((n - 1) as usize, (col - 1) as usize);
    } else if action == 'J' {
        if (mode != 0 && mode != 1) || g.cursor.row < g.rows || (mode == 0 && g.cursor.col
            >= g.cols) {
            g.erase_display(mode);
        }
    } else if action == 'K' {
        if mode > 2 || g.cursor.row < g.rows || (mode == 0 && g.cursor.col >= g.cols) {
            g.erase_line(mode);
        }
    } else if action == 'L' {
        g.insert_lines(n as usize);
    } else if action == 'M' {
        g.delete_lines(n as usize);
    } else if action == 'P' {
        if g.cursor.row < g.rows && g.cursor.col <= g.cols {
            g.delete_chars(n as usize);
        }
    } else if action == '@' {
        if g.cursor.row < g.rows && g.cursor.col <= g.cols {
            g.insert_chars(n as usize);
        }
    } else if action == 'X' {
        if g.cursor.row < g.rows || g.cursor.col >= g.cols {
            g.erase_chars(n as usize);
        }
    } else if action == 'd' {
        let col: usize = g.cursor.col;
        g.goto((n - 1) as usize, col);
    } else if action == 'r' {
        let bot: u16 = arg(params, 1, #[verifier::truncate] (g.rows as u16));
        g.set_scroll_region(
            (n - 1) as usize,
            if bot > 0 {
                (bot - 1) as usize
            } else {
                0
            },
        );
    } else if action == 's' {
        g.save_cursor();
    } else if action == 'u' {
        g.restore_cursor();
    } else if action == 'm' {
        g.pen = sgr::apply_sgr(g.pen, params);
    }
}

/// A terminal.
pub struct Term {
    primary: Grid,
    alt: Option<Grid>,
    parser: vte::Parser,
    pub title: String,
    /// 0 while the view is pinned to the live screen; otherwise the number of
    /// rows it is scrolled back.
    pub viewport_offset: usize,
    /// Mode 2004: pastes are wrapped so that the application can tell them
    /// from typing.
    pub bracketed_paste: bool,
    /// Mode 1: unmodified arrows, Home and End are sent in their application
    /// form.
    pub application_cursor_keys: bool,
    /// Theme colours, kept to answer colour queries. The theme owns them:
    /// applications cannot change them.
    pub default_fg: [u8; 3],
    pub default_bg: [u8; 3],
    pub cursor_color: [u8; 3],
    pub mouse_mode: MouseMode,
    pub mouse_encoding: MouseEncoding,
    reply: Vec<u8>,
    /// The parser is known to be between sequences, so that printable bytes
    /// can go straight to the screen.
    parser_in_ground: bool,
    history: Ghost<Seq<u8>>,
}

impl View for Term {
    type V = TermModel;

    closed spec fn view(&self) -> TermModel {
        TermModel {
            primary: self.primary@,
            alt: match self.alt {
                Some(g) => Some(g@),
                None => None,
            },
            title: self.title@,
            viewport_offset: self.viewport_offset as int,
            bracketed_paste: self.bracketed_paste,
            application_cursor_keys: self.application_cursor_keys,
            default_fg: self.default_fg,
            default_bg: self.default_bg,
            cursor_color: self.cursor_color,
            mouse_mode: self.mouse_mode,
            mouse_encoding: self.mouse_encoding,
            reply: self.reply@,
        }
    }
}

impl Term {
    /// All output received so far.
    pub closed spec fn history(&self) -> Seq<u8> {
        self.history@
    }

    /// The parser stands where the whole history would have left it.
    pub closed spec fn parser_in_step(&self) -> bool {
        &&& same_future(vt::bytes_taken(self.parser), self.history@)
        &&& self.parser_in_ground ==> vt::idle(vt::bytes_taken(self.parser))
    }

    /// See [`TermModel::wf`].
    pub open spec fn wf(&self) -> bool {
        self@.wf() && self.parser_in_step()
    }

    /// A terminal of the given size, before any output.
    pub fn new(rows: usize, cols: usize) -> (term: Term)
        requires
            rows <= crate::grid::dim_limit(),
            cols <= crate::grid::dim_limit(),
        ensures
            term.wf(),
            term.history() == Seq::<u8>::empty(),
            vt::idle(term.history()),
            term@ == TermModel::fresh(rows as int, cols as int),
    {
        let term = Term {
            primary: Grid::new(rows, cols, SCROLLBACK_ROWS),
            alt: None,
            parser: vt::parser_new(),
            title: String::new(),
            viewport_offset: 0,
            bracketed_paste: false,
            application_cursor_keys: false,
            default_fg: [0, 0, 0],
            default_bg: [0, 0, 0],
            cursor_color: [0, 0, 0],
            mouse_mode: MouseMode::Off,
            mouse_encoding: MouseEncoding::Default,
            reply: Vec::new(),
            parser_in_ground: true,
            history: Ghost(Seq::empty()),
        };
        assert(term@ =~= TermModel::fresh(rows as int, cols as int));
        term
    }

    /// Updates the theme colours that colour queries are answered with.
    pub fn set_theme_colors(&mut self, fg: [u8; 3], bg: [u8; 3], cursor: [u8; 3])
        requires
            old(self).wf(),
        ensures
            final(self).wf(),
            final(self).history() == old(self).history(),
            final(self)@ == (TermModel {
                default_fg: fg,
                default_bg: bg,
                cursor_color: cursor,
                ..old(self)@
            }),
    {
        self.default_fg = fg;
        self.default_bg = bg;
        self.cursor_color = cursor;
    }

    /// Hands over the bytes that the application is owed.
    pub fn take_reply(&mut self) -> (reply: Vec<u8>)
        requires
            old(self).wf(),
        ensures
            final(self).wf(),
            final(self).history() == old(self).history(),
            reply@ == old(self)@.reply,
            final(self)@ == (TermModel { reply: Seq::empty(), ..old(self)@ }),
    {
        let mut reply: Vec<u8> = Vec::new();
        std::mem::swap(&mut reply, &mut self.reply);
        reply
    }

    /// Whether the alternate screen is in use.
    pub fn on_alt(&self) -> (on: bool)
        ensures
            on == self@.on_alt(),
    {
        self.alt.is_some()
    }

    /// The screen in use.
    pub fn grid(&self) -> (g: &Grid)
        ensures
            g@ == self@.screen(),
    {
        match &self.alt {
            Some(g) => g,
            None => &self.primary,
        }
    }

    /// The screen in use, for changing it.
    pub fn grid_mut(&mut self) -> (g: &mut Grid)
        ensures
            g@ == old(self)@.screen(),
            final(self)@ == old(self)@.with_screen(final(g)@),
            final(self).parser_in_step() == old(self).parser_in_step(),
            final(self).history() == old(self).history(),
    {
        match self.alt.as_mut() {
            Some(g) => g,
            None => &mut self.primary,
        }
    }

    fn enter_alt(&mut self)
        requires
            old(self).wf(),
        ensures
            final(self).wf(),
            final(self).history() == old(self).history(),
            final(self)@ == old(self)@.enter_alt(),
    {
        if self.alt.is_some() {
            return ;
        }
        let rows: usize = self.primary.rows;
        let cols: usize = self.primary.cols;
        self.primary.save_cursor();
        self.alt = Some(Grid::new(rows, cols, 0));
    }

    fn leave_alt(&mut self)
        requires
            old(self).wf(),
        ensures
            final(self).wf(),
            final(self).history() == old(self).history(),
            final(self)@ == old(self)@.leave_alt(),
    {
        if self.alt.is_none() {
            return ;
        }
        self.alt = None;
        self.primary.restore_cursor();
    }

    /// Answers a device status report.
    fn dsr(&mut self, n: u16)
        requires
            old(self).wf(),
        ensures
            final(self).wf(),
            final(self).history() == old(self).history(),
            final(self)@ == (TermModel {
                reply: old(self)@.reply + status_reply(old(self)@.screen(), n),
                ..old(self)@
            }),
            final(self)@.primary.rows == old(self)@.primary.rows,
            final(self)@.primary.cols == old(self)@.primary.cols,
    {
        reveal(status_reply);
        if n == 5 {
            text::push_ascii(&mut self.reply, "\x1b[0n");
        } else if n == 6 {
            let row: usize = self.grid().cursor.row;
            let col: usize = self.grid().cursor.col;
            text::push_ascii(&mut self.reply, "\x1b[");
            text::push_decimal(&mut self.reply, row as u64 + 1);
            text::push_ascii(&mut self.reply, ";");
            text::push_decimal(&mut self.reply, col as u64 + 1);
            text::push_ascii(&mut self.reply, "R");
        }
        assert(self@.reply =~= old(self)@.reply + status_reply(old(self)@.screen(), n));
    }

    /// Sets the cursor shape by its request code.
    fn set_cursor_shape(&mut self, code: u16)
        requires
            old(self).wf(),
        ensures
            final(self).wf(),
            final(self).history() == old(self).history(),
            final(self)@ == old(self)@.with_screen(with_shape(old(self)@.screen(), code)),
            final(self)@.primary.rows == old(self)@.primary.rows,
            final(self)@.primary.cols == old(self)@.primary.cols,
    {
        reveal(with_shape);
        let g = self.grid_mut();
        if code <= 2 {
            g.cursor.shape = CursorShape::Block;
        } else if code <= 4 {
            g.cursor.shape = CursorShape::Underline;
        } else if code <= 6 {
            g.cursor.shape = CursorShape::Bar;
        }
    }

    /// Sets or resets one private mode.
    fn set_private_mode(&mut self, mode: u16, on: bool)
        requires
            old(self).wf(),
        ensures
            final(self).wf(),
            final(self).history() == old(self).history(),
            final(self)@ == old(self)@.set_mode(mode, on),
            final(self)@.primary.rows == old(self)@.primary.rows,
            final(self)@.primary.cols == old(self)@.primary.cols,
    {
        reveal(TermModel::set_mode);
        if mode == 1 {
            self.application_cursor_keys = on;
        } else if mode == 25 {
            let g = self.grid_mut();
            g.cursor.visible = on;
        } else if mode == 1000 {
            self.mouse_mode = if on {
                MouseMode::ButtonEvent
            } else {
                MouseMode::Off
            };
        } else if mode == 1002 {
            self.mouse_mode = if on {
                MouseMode::ButtonAndMotion
            } else {
                MouseMode::Off
            };
        } else if mode == 1003 {
            self.mouse_mode = if on {
                MouseMode::AllMotion
            } else {
                MouseMode::Off
            };
        } else if mode == 1006 {
            self.mouse_encoding = if on {
                MouseEncoding::Sgr
            } else {
                MouseEncoding::Default
            };
        } else if mode == 47 || mode == 1047 || mode == 1049 {
            if on {
                self.enter_alt();
                if mode == 1049 {
                    let g = self.grid_mut();
                    g.erase_display(2);
                }
            } else {
                self.leave_alt();
            }
        } else if mode == 2004 {
            self.bracketed_paste = on;
        }
    }

    /// Sets or resets the private modes that the parameters name.
    fn set_private_modes(&mut self, params: &[Vec<u16>], on: bool)
        requires
            old(self).wf(),
        ensures
            final(self).wf(),
            final(self).history() == old(self).history(),
            final(self)@ == old(self)@.set_modes(
                vt::lists(params@),
                params@.len() as int,
                on,
            ),
            final(self)@.primary.rows == old(self)@.primary.rows,
            final(self)@.primary.cols == old(self)@.primary.cols,
    {
        let mut i: usize = 0;
        while i < params.len()
            invariant
                i <= params@.len(),
                self.wf(),
                self.history() == old(self).history(),
                self@ == old(self)@.set_modes(vt::lists(params@), i as int, on),
                self@.primary.rows == old(self)@.primary.rows,
                self@.primary.cols == old(self)@.primary.cols,
            decreases params@.len() - i,
        {
            let mode: u16 = if params[i].len() > 0 {
                params[i][0]
            } else {
                0
            };
            self.set_private_mode(mode, on);
            i += 1;
        }
    }

    /// Carries out an operating system command.
    fn osc_dispatch(&mut self, fields: &[Vec<u8>])
        requires
            old(self).wf(),
        ensures
            final(self).wf(),
            final(self).history() == old(self).history(),
            final(self)@ == old(self)@.osc(vt::lists(fields@)),
            final(self)@.primary.rows == old(self)@.primary.rows,
            final(self)@.primary.cols == old(self)@.primary.cols,
    {
        reveal(TermModel::osc);
        if fields.len() == 0 {
            return ;
        }
        let ghost all = vt::lists(fields@);
        let mut payload: Vec<u8> = Vec::new();
        let mut i: usize = 1;
        assert(all.subrange(1, 1) =~= Seq::<Seq<u8>>::empty());
        while i < fields.len()
            invariant
                1 <= i <= fields@.len(),
                all == vt::lists(fields@),
                payload@ == joined(all.subrange(1, i as int)),
            decreases fields@.len() - i,
        {
            text::push_bytes(&mut payload, fields[i].as_slice());
            assert(all.subrange(1, i + 1).drop_last() =~= all.subrange(1, i as int));
            i += 1;
        }
        assert(all.subrange(1, all.len() as int) =~= all.skip(1));
        let code = fields[0].as_slice();
        if text::bytes_are(code, "0") || text::bytes_are(code, "2") {
            if let Some(title) = text::utf8_text(payload) {
                self.title = title;
            }
            return ;
        }
        if !text::bytes_are(payload.as_slice(), "?") {
            return ;
        }
        if text::bytes_are(code, "10") {
            let color = self.default_fg;
            self.push_color_reply(10, color);
        } else if text::bytes_are(code, "11") {
            let color = self.default_bg;
            self.push_color_reply(11, color);
        } else if text::bytes_are(code, "12") {
            let color = self.cursor_color;
            self.push_color_reply(12, color);
        }
    }

    fn push_color_reply(&mut self, code: u8, color: [u8; 3])
        requires
            old(self).wf(),
        ensures
            final(self).wf(),
            final(self).history() == old(self).history(),
            final(self)@ == (TermModel {
                reply: old(self)@.reply + color_reply(code as int, color),
                ..old(self)@
            }),
    {
        reveal(color_reply);
        text::push_ascii(&mut self.reply, "\x1b]");
        text::push_decimal(&mut self.reply, code as u64);
        text::push_ascii(&mut self.reply, ";rgb:");
        text::push_hex(&mut self.reply, color[0]);
        text::push_hex(&mut self.reply, color[0]);
        text::push_ascii(&mut self.reply, "/");
        text::push_hex(&mut self.reply, color[1]);
        text::push_hex(&mut self.reply, color[1]);
        text::push_ascii(&mut self.reply, "/");
        text::push_hex(&mut self.reply, color[2]);
        text::push_hex(&mut self.reply, color[2]);
        text::push_ascii(&mut self.reply, "\x07");
        assert(self@.reply =~= old(self)@.reply + color_reply(code as int, color));
    }

    /// Carries out a control sequence.
    fn csi_dispatch(&mut self, params: &[Vec<u16>], intermediates: &[u8], action: char)
        requires
            old(self).wf(),
            old(self)@.has_cells(),
        ensures
            final(self).wf(),
            final(self).history() == old(self).history(),
            final(self)@ == old(self)@.csi(vt::lists(params@), intermediates@, action),
            final(self)@.primary.rows == old(self)@.primary.rows,
            final(self)@.primary.cols == old(self)@.primary.cols,
    {
        reveal(TermModel::csi);
        assert(intermediates@ == seq![0x20u8] <==> intermediates@.len() == 1 && intermediates@[0]
            == 0x20) by {
            if intermediates@.len() == 1 && intermediates@[0] == 0x20 {
                assert(intermediates@ =~= seq![0x20u8]);
            }
        }
        if intermediates.len() == 1 && intermediates[0] == 0x20 && action == 'q' {
            self.set_cursor_shape(arg(params, 0, 0));
            return ;
        }
        if intermediates.len() > 0 && intermediates[0] == 0x3f {
            if action == 'h' {
                self.set_private_modes(params, true);
            } else if action == 'l' {
                self.set_private_modes(params, false);
            }
            return ;
        }
        if action == 'n' {
            self.dsr(arg(params, 0, 0));
            return ;
        }
        let g = self.grid_mut();
        csi_on_screen(g, params, action);
    }

    /// Carries out an escape sequence.
    fn esc_dispatch(&mut self, intermediates: &[u8], byte: u8)
        requires
            old(self).wf(),
            old(self)@.has_cells(),
        ensures
            final(self).wf(),
            final(self).history() == old(self).history(),
            final(self)@ == old(self)@.perform(
                VtAction::Esc { intermediates: intermediates@, byte },
            ),
            final(self)@.primary.rows == old(self)@.primary.rows,
            final(self)@.primary.cols == old(self)@.primary.cols,
    {
        reveal(TermModel::perform);
        reveal(esc_screen);
        if intermediates.len() > 0 {
            return ;
        }
        let g = self.grid_mut();
        if byte == 0x37 {
            g.save_cursor();
        } else if byte == 0x38 {
            g.restore_cursor();
        } else if byte == 0x44 {
            g.line_feed();
        } else if byte == 0x45 {
            g.line_feed();
            g.carriage_return();
        } else if byte == 0x4d {
            g.reverse_index();
        } else if byte == 0x63 {
            *g = Grid::new(g.rows, g.cols, g.scrollback_limit);
        }
    }

    /// Prints one character on the screen in use.
    fn print(&mut self, c: char)
        requires
            old(self).wf(),
            old(self)@.has_cells(),
        ensures
            final(self).wf(),
            final(self).history() == old(self).history(),
            final(self)@ == old(self)@.perform(VtAction::Print(c)),
            final(self)@.primary.rows == old(self)@.primary.rows,
            final(self)@.primary.cols == old(self)@.primary.cols,
    {
        reveal(TermModel::perform);
        let g = self.grid_mut();
        g.put_char(c);
    }

    /// Carries out a control byte.
    fn execute(&mut self, byte: u8)
        requires
            old(self).wf(),
            old(self)@.has_cells(),
        ensures
            final(self).wf(),
            final(self).history() == old(self).history(),
            final(self)@ == old(self)@.perform(VtAction::Execute(byte)),
            final(self)@.primary.rows == old(self)@.primary.rows,
            final(self)@.primary.cols == old(self)@.primary.cols,
    {
        reveal(TermModel::perform);
        reveal(control);
        let g = self.grid_mut();
        if byte == 0x08 {
            g.backspace();
        } else if byte == 0x09 {
            g.tab();
        } else if byte == 0x0a || byte == 0x0b || byte == 0x0c {
            g.line_feed();
        } else if byte == 0x0d {
            g.carriage_return();
        }
    }

    /// Carries out one event of the parser.
    pub fn perform(&mut self, event: &VtEvent)
        requires
            old(self).wf(),
            old(self)@.has_cells(),
        ensures
            final(self).wf(),
            final(self).history() == old(self).history(),
            final(self)@ == old(self)@.perform(event@),
            final(self)@.primary.rows == old(self)@.primary.rows,
            final(self)@.primary.cols == old(self)@.primary.cols,
    {
        reveal(TermModel::perform);
        match event {
            VtEvent::Print(c) => self.print(*c),
            VtEvent::Execute(byte) => self.execute(*byte),
            VtEvent::Csi { params, intermediates, action } => self.csi_dispatch(
                params.as_slice(),
                intermediates.as_slice(),
                *action,
            ),
            VtEvent::Esc { intermediates, byte } => self.esc_dispatch(
                intermediates.as_slice(),
                *byte,
            ),
            VtEvent::Osc { fields, .. } => self.osc_dispatch(fields.as_slice()),
            VtEvent::Hook => {},
            VtEvent::Put(_) => {},
            VtEvent::Unhook => {},
        }
    }

    /// Carries out events one after the other.
    fn perform_all(&mut self, events: &[VtEvent])
        requires
            old(self).wf(),
            old(self)@.has_cells(),
        ensures
            final(self).wf(),
            final(self).history() == old(self).history(),
            final(self)@ == old(self)@.perform_all(vt::actions_of(events@)),
            final(self)@.primary.rows == old(self)@.primary.rows,
            final(self)@.primary.cols == old(self)@.primary.cols,
    {
        let ghost all = vt::actions_of(events@);
        let mut i: usize = 0;
        assert(all.take(0) =~= Seq::<VtAction>::empty());
        while i < events.len()
            invariant
                i <= events@.len(),
                all == vt::actions_of(events@),
                self.wf(),
                self.history() == old(self).history(),
                self@.has_cells(),
                self@ == old(self)@.perform_all(all.take(i as int)),
                self@.primary.rows == old(self)@.primary.rows,
                self@.primary.cols == old(self)@.primary.cols,
            decreases events@.len() - i,
        {
            self.perform(&events[i]);
            assert(all.take(i + 1).drop_last() =~= all.take(i as int));
            i += 1;
        }
        assert(all.take(all.len() as int) =~= all);
    }

    /// Takes in one byte of output.
    fn feed_byte(&mut self, byte: u8)
        requires
            old(self).wf(),
            old(self)@.has_cells(),
        ensures
            final(self).wf(),
            final(self)@ == old(self)@.step(old(self).history(), byte),
            final(self).history() == old(self).history().push(byte),
            final(self)@.primary.rows == old(self)@.primary.rows,
            final(self)@.primary.cols == old(self)@.primary.cols,
    {
        let ghost before = self@;
        let ghost taken = vt::bytes_taken(self.parser);
        // Between sequences a printable byte goes straight to the screen,
        // past the parser's state machine.
        if self.parser_in_ground && 0x20 <= byte && byte <= 0x7e {
            proof {
                lemma_skip_printable(taken, self.history@, byte);
                let actions = seq![VtAction::Print(byte as char)];
                assert(actions.drop_last() =~= Seq::<VtAction>::empty());
                assert(before.perform_all(actions.drop_last()) == before);
                assert(before.perform_all(actions) == before.perform(actions.last()));
            }
            self.history = Ghost(self.history@.push(byte));
            self.print(byte as char);
            return ;
        }
        let in_ground: bool = self.parser_in_ground;
        let events = vt::parser_advance(&mut self.parser, byte);
        self.parser_in_ground = Self::back_in_ground(in_ground, &events);
        proof {
            lemma_same_future_push(taken, self.history@, byte);
        }
        self.history = Ghost(self.history@.push(byte));
        assert(self@ =~= before);
        self.perform_all(events.as_slice());
    }

    /// Whether the events for a byte show that the parser is between
    /// sequences after it; see [`vt::settles`].
    fn back_in_ground(before: bool, events: &Vec<VtEvent>) -> (settled: bool)
        ensures
            settled == vt::settles(before, vt::actions_of(events@)),
    {
        if events.len() == 0 {
            return false;
        }
        match &events[events.len() - 1] {
            VtEvent::Print(_) => true,
            VtEvent::Csi { .. } => true,
            VtEvent::Esc { .. } => true,
            VtEvent::Osc { bell, .. } => *bell,
            VtEvent::Execute(byte) => before || *byte == 0x18 || *byte == 0x1a,
            _ => false,
        }
    }

    /// From now on, rows that enter the history count as new.
    fn count_rows(&mut self)
        requires
            old(self).wf(),
        ensures
            final(self).wf(),
            final(self)@ == old(self)@.counted(),
            final(self).history() == old(self).history(),
    {
        self.primary.new_rows = 0;
        assert(self@ =~= old(self)@.counted());
    }

    /// Moves the view along with the history, which had `before` rows; see
    /// [`TermModel::anchored`].
    fn anchor_view(&mut self, before: usize)
        requires
            old(self).wf(),
            before <= crate::grid::dim_limit(),
        ensures
            final(self).wf(),
            final(self)@ == old(self)@.anchored(before as int),
            final(self).history() == old(self).history(),
    {
        if self.viewport_offset > 0 {
            let now: usize = self.primary.scrollback.len();
            let moved: usize = if now >= SCROLLBACK_ROWS {
                self.viewport_offset + self.primary.new_rows
            } else if self.viewport_offset + now >= before {
                self.viewport_offset + now - before
            } else {
                0
            };
            self.viewport_offset = if moved < now {
                moved
            } else {
                now
            };
        }
        self.count_rows();
    }

    /// Takes in output of the application. While the user is scrolled back, it
    /// does not move what they see, as long as the history has those rows.
    pub fn feed(&mut self, bytes: &[u8])
        requires
            old(self).wf(),
            old(self)@.has_cells(),
        ensures
            final(self).wf(),
            final(self)@.has_cells(),
            final(self)@ == old(self)@.feed(old(self).history(), bytes@),
            final(self).history() == old(self).history() + bytes@,
    {
        let before: usize = self.primary.scrollback.len();
        self.count_rows();
        let mut i: usize = 0;
        assert(bytes@.take(0) =~= Seq::<u8>::empty());
        while i < bytes.len()
            invariant
                i <= bytes@.len(),
                self.wf(),
                self@.has_cells(),
                self@ == old(self)@.counted().run(old(self).history(), bytes@.take(i as int)),
                self.history() == old(self).history() + bytes@.take(i as int),
            decreases bytes@.len() - i,
        {
            self.feed_byte(bytes[i]);
            assert(bytes@.take(i + 1).drop_last() =~= bytes@.take(i as int));
            i += 1;
        }
        assert(bytes@.take(bytes@.len() as int) =~= bytes@);
        self.anchor_view(before);
    }

    /// Changes the size of both screens.
    pub fn resize(&mut self, rows: usize, cols: usize)
        requires
            old(self).wf(),
            rows <= crate::grid::dim_limit(),
            cols <= crate::grid::dim_limit(),
        ensures
            final(self).wf(),
            final(self).history() == old(self).history(),
            final(self)@ == old(self)@.resize(rows as int, cols as int),
            final(self)@.has_cells() == (rows > 0 && cols > 0),
    {
        self.primary.resize(rows, cols);
        if let Some(g) = self.alt.as_mut() {
            g.resize(rows, cols);
        }
        let max: usize = self.grid().scrollback.len();
        if self.viewport_offset > max {
            self.viewport_offset = max;
        }
    }

    /// Pins the view to the live screen.
    pub fn reset_view(&mut self)
        requires
            old(self).wf(),
        ensures
            final(self).wf(),
            final(self).history() == old(self).history(),
            final(self)@ == (TermModel { viewport_offset: 0, ..old(self)@ }),
    {
        self.viewport_offset = 0;
    }

    /// The number of rows that the view is scrolled back.
    pub fn viewport_offset(&self) -> (offset: usize)
        ensures
            offset == self@.viewport_offset,
    {
        self.viewport_offset
    }

    /// Whether pastes are to be wrapped.
    pub fn bracketed_paste(&self) -> (on: bool)
        ensures
            on == self@.bracketed_paste,
    {
        self.bracketed_paste
    }

    /// Whether cursor keys are sent in their application form.
    pub fn application_cursor_keys(&self) -> (on: bool)
        ensures
            on == self@.application_cursor_keys,
    {
        self.application_cursor_keys
    }

    /// Which mouse events the application wants.
    pub fn mouse_mode(&self) -> (mode: MouseMode)
        ensures
            mode == self@.mouse_mode,
    {
        self.mouse_mode
    }

    /// How mouse events are written.
    pub fn mouse_encoding(&self) -> (encoding: MouseEncoding)
        ensures
            encoding == self@.mouse_encoding,
    {
        self.mouse_encoding
    }

    /// Scrolls the view by `delta` rows, back for a positive number. The
    /// alternate screen has no history to scroll into.
    pub fn scroll_view(&mut self, delta: isize)
        requires
            old(self).wf(),
        ensures
            final(self).wf(),
            final(self).history() == old(self).history(),
            final(self)@ == old(self)@.scroll_view(delta as int),
    {
        if self.alt.is_some() {
            return ;
        }
        let max: usize = self.grid().scrollback.len();
        let moved: i128 = self.viewport_offset as i128 + delta as i128;
        self.viewport_offset = if moved < 0 {
            0
        } else if moved > max as i128 {
            max
        } else {
            moved as usize
        };
    }

    /// The row at viewport position `vrow`, counted from the top of the view.
    pub fn viewport_row(&self, vrow: usize) -> (row: &Row)
        requires
            self.wf(),
            self@.viewport_top() + vrow < self@.all_rows().len(),
        ensures
            row.cells@ == self@.all_rows()[self@.viewport_top() + vrow],
    {
        let g = self.grid();
        let history: usize = g.scrollback.len();
        let top: usize = if self.viewport_offset < history {
            history - self.viewport_offset
        } else {
            0
        };
        let abs: usize = top + vrow;
        if abs < history {
            &g.scrollback[abs]
        } else {
            &g.lines[abs - history]
        }
    }

    /// The shape of the cursor; the two screens have one each.
    pub fn cursor_shape(&self) -> (shape: CursorShape)
        ensures
            shape == self@.screen().cursor.shape,
    {
        self.grid().cursor.shape
    }

    /// Row and column of the cursor within the view, unless it is hidden or
    /// scrolled out of sight.
    pub fn viewport_cursor(&self) -> (place: Option<(usize, usize)>)
        requires
            self.wf(),
        ensures
            place is Some <==> self@.screen().cursor.visible && self@.screen().cursor.row
                + self@.viewport_offset < self@.screen().rows,
            place matches Some((row, col)) ==> row == self@.screen().cursor.row
                + self@.viewport_offset && col == self@.screen().cursor.col,
    {
        let g = self.grid();
        if !g.cursor.visible {
            return None;
        }
        let row: usize = g.cursor.row + self.viewport_offset;
        if row < g.rows {
            Some((row, g.cursor.col))
        } else {
            None
        }
    }
}

} // verus!
