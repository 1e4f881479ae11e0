//! The keys of vi mode: what each one does to the vi cursor, the view, the
//! visual selection and the clipboard.

use vstd::prelude::*;

use crate::keys;
use crate::keys::{Key, Modifiers, NamedKey};
use crate::motion;
use crate::motion::Motion;
use crate::search::{SearchDirection, SearchModel};
use crate::selection;
use crate::selection::Selection;
use crate::term::{Term, TermModel};
use crate::text;
use crate::vi;
use crate::vi::{PendingOp, ViMode, ViModel, VisualMode};
use crate::vi_search;
use crate::yank;

verus! {

/// Everything that a key in vi mode can change.
#[verifier::ext_equal]
pub struct ViState {
    pub vi: ViModel,
    pub term: TermModel,
    pub selection: Option<Selection>,
    /// The text for the clipboard; empty where there is none.
    pub copied: Seq<char>,
}

/// A control character.
pub open spec fn control_char(c: char) -> bool {
    (c as u32) < 0x20 || 0x7f <= (c as u32) <= 0x9f
}

/// The motion of a key, given by its character in lower case.
pub open spec fn motion_of_key(ch: char, shift: bool, ctrl: bool) -> Option<Motion> {
    if ctrl {
        if ch == 'd' {
            Some(Motion::HalfPageDown)
        } else if ch == 'u' {
            Some(Motion::HalfPageUp)
        } else if ch == 'f' {
            Some(Motion::FullPageDown)
        } else if ch == 'b' {
            Some(Motion::FullPageUp)
        } else {
            None
        }
    } else if ch == 'h' {
        Some(
            if shift {
                Motion::ScreenTop
            } else {
                Motion::Char(0, (-1) as isize)
            },
        )
    } else if ch == 'l' {
        Some(
            if shift {
                Motion::ScreenBottom
            } else {
                Motion::Char(0, 1)
            },
        )
    } else if ch == 'j' && !shift {
        Some(Motion::Char(1, 0))
    } else if ch == 'k' && !shift {
        Some(Motion::Char((-1) as isize, 0))
    } else if ch == 'm' && shift {
        Some(Motion::ScreenMiddle)
    } else if ch == 'g' && shift {
        Some(Motion::DocEnd)
    } else if ch == 'w' {
        Some(Motion::WordNext { big: shift })
    } else if ch == 'e' {
        Some(Motion::WordEnd { big: shift })
    } else if ch == 'b' {
        Some(Motion::WordPrev { big: shift })
    } else if ch == '0' {
        Some(Motion::LineStart)
    } else if ch == '^' {
        Some(Motion::LineFirstNonBlank)
    } else if ch == '$' {
        Some(Motion::LineEnd)
    } else {
        None
    }
}

/// The motion of a key, given by its character in lower case.
pub fn key_to_motion(ch: char, shift: bool, ctrl: bool) -> (m: Option<Motion>)
    ensures
        m == motion_of_key(ch, shift, ctrl),
{
    if ctrl {
        return match ch {
            'd' => Some(Motion::HalfPageDown),
            'u' => Some(Motion::HalfPageUp),
            'f' => Some(Motion::FullPageDown),
            'b' => Some(Motion::FullPageUp),
            _ => None,
        };
    }
    match (ch, shift) {
        ('h', false) => Some(Motion::Char(0, -1)),
        ('j', false) => Some(Motion::Char(1, 0)),
        ('k', false) => Some(Motion::Char(-1, 0)),
        ('l', false) => Some(Motion::Char(0, 1)),
        ('h', true) => Some(Motion::ScreenTop),
        ('m', true) => Some(Motion::ScreenMiddle),
        ('l', true) => Some(Motion::ScreenBottom),
        ('g', true) => Some(Motion::DocEnd),
        ('w', big) => Some(Motion::WordNext { big }),
        ('e', big) => Some(Motion::WordEnd { big }),
        ('b', big) => Some(Motion::WordPrev { big }),
        ('0', _) => Some(Motion::LineStart),
        ('^', _) => Some(Motion::LineFirstNonBlank),
        ('$', _) => Some(Motion::LineEnd),
        _ => None,
    }
}

/// A digit that adds to a count. A zero that begins a count is a motion.
pub open spec fn counts(v: ViModel, ch: char) -> bool {
    '0' <= ch <= '9' && (ch != '0' || v.pending_count is Some)
}

impl ViState {
    pub open spec fn wf(self) -> bool {
        self.vi.wf() && self.term.wf() && self.term.has_cells()
    }

    /// The selection follows the vi cursor in a visual mode.
    pub open spec fn refreshed(self) -> ViState {
        if self.vi.active && self.vi.visual != VisualMode::Off {
            ViState {
                selection: vi::visual_selection(
                    self.vi.visual,
                    self.vi.visual_anchor,
                    self.vi.cursor,
                    self.term.screen().cols as usize,
                ),
                ..self
            }
        } else {
            self
        }
    }

    /// Vi mode left, with nothing selected.
    pub open spec fn left(self) -> ViState {
        ViState { vi: self.vi.exit(), selection: None, ..self }
    }

    /// A range copied, and vi mode left.
    pub open spec fn yanked(self, start: (usize, usize), end: (usize, usize)) -> ViState {
        ViState { copied: yank::range_copy(self.term, start, end), ..self }.left()
    }

    /// A motion carried out as often as the count says. A motion that reads
    /// the row of the cursor does nothing where that row is not in view.
    pub open spec fn moved(self, m: Motion) -> ViState {
        let after = motion::motion_steps(
            self.term,
            motion::place(self.vi.cursor),
            m,
            vi::repeats(self.vi.pending_count) as int,
        );
        let ready = ViModel { pending_count: None, ..self.vi };
        if m.reads() && !motion::in_view(self.term, self.vi.cursor) {
            ViState { vi: ready, ..self }
        } else {
            ViState {
                vi: ViModel { cursor: (after.1.0 as usize, after.1.1 as usize), ..ready },
                term: after.0,
                ..self
            }
        }
    }

    /// The place of the vi cursor in history and screen together.
    pub open spec fn cursor_place(self) -> (usize, usize) {
        ((self.term.viewport_top() + self.vi.cursor.0) as usize, self.vi.cursor.1)
    }

    /// As many whole lines copied as the count says, from a row on.
    pub open spec fn lines_yanked(self, row: usize) -> ViState {
        let last = row + vi::repeats(self.vi.pending_count) - 1;
        ViState { vi: ViModel { pending_count: None, ..self.vi }, ..self }.yanked(
            (row, 0),
            (
                (if last <= usize::MAX {
                    last
                } else {
                    usize::MAX as int
                }) as usize,
                (self.term.screen().cols - 1) as usize,
            ),
        )
    }

    /// A digit added to the count.
    pub open spec fn with_digit(self, ch: char) -> ViState {
        ViState {
            vi: ViModel {
                pending_count: Some(
                    vi::count_with_digit(
                        self.vi.pending_count,
                        ((ch as u32) - ('0' as u32)) as u32,
                    ),
                ),
                ..self.vi
            },
            ..self
        }
    }

    pub open spec fn with_op(self, op: Option<PendingOp>) -> ViState {
        ViState { vi: ViModel { pending_op: op, ..self.vi }, ..self }
    }

    pub open spec fn with_visual(self, visual: VisualMode) -> ViState {
        ViState {
            vi: ViModel { visual, visual_anchor: Some(self.vi.cursor), ..self.vi },
            ..self
        }
    }

    pub open spec fn with_search(self, after: (ViModel, TermModel)) -> ViState {
        ViState { vi: after.0, term: after.1, ..self }
    }

    /// Escape takes back one thing at a time: the search, then a half-typed
    /// command, then the visual mode, then vi mode itself.
    pub open spec fn escaped(self) -> ViState {
        if self.vi.search is Some {
            ViState { vi: ViModel { search: None, ..self.vi }, ..self }
        } else if self.vi.pending_count is Some || self.vi.pending_op is Some {
            ViState {
                vi: ViModel { pending_count: None, pending_op: None, ..self.vi },
                ..self
            }
        } else if self.vi.visual != VisualMode::Off {
            ViState {
                vi: ViModel { visual: VisualMode::Off, visual_anchor: None, ..self.vi },
                selection: None,
                ..self
            }
        } else {
            self.left()
        }
    }

    /// The key after `y`, which says what is copied from `start` on.
    pub open spec fn after_yank(
        self,
        start: (usize, usize),
        ch: char,
        shift: bool,
        ctrl: bool,
    ) -> ViState {
        if counts(self.vi, ch) {
            self.with_digit(ch)
        } else if ch == 'y' {
            self.with_op(None).lines_yanked(start.0)
        } else if ch == 'i' && !shift {
            self.with_op(Some(PendingOp::YankInner))
        } else if ch == 'a' && !shift {
            self.with_op(Some(PendingOp::YankAround))
        } else {
            match motion_of_key(ch, shift, ctrl) {
                Some(m) => {
                    let there = self.with_op(None).moved(m);
                    there.yanked(start, there.cursor_place())
                },
                None => self.with_op(None),
            }
        }
    }

    /// The key after `yi` or `ya`. Where the row of the cursor is not in
    /// view there is nothing to copy, and the command is dropped.
    pub open spec fn after_object(self, inner: bool, ch: char, shift: bool) -> ViState {
        let s = self.with_op(None);
        if ch == 'w' && motion::in_view(s.term, s.vi.cursor) {
            let ends = if inner {
                yank::inner_object(s.term, s.vi.cursor, shift)
            } else {
                yank::around_object(s.term, s.vi.cursor, shift)
            };
            let top = s.term.viewport_top();
            s.yanked(
                ((top + ends.0.0) as usize, ends.0.1),
                ((top + ends.1.0) as usize, ends.1.1),
            )
        } else {
            s
        }
    }

    /// A key that is neither a motion nor part of a command begun before.
    pub open spec fn command(self, ch: char, shift: bool) -> ViState {
        if ch == 'g' && !shift {
            self.with_op(Some(PendingOp::Goto))
        } else if ch == 'v' {
            self.with_visual(
                if shift {
                    VisualMode::Line
                } else {
                    VisualMode::Char
                },
            )
        } else if ch == 'y' {
            if self.vi.visual != VisualMode::Off {
                ViState {
                    copied: match self.selection {
                        Some(sel) => selection::selection_copy(self.term, sel),
                        None => Seq::empty(),
                    },
                    ..self
                }.left()
            } else if shift {
                self.lines_yanked(self.cursor_place().0)
            } else {
                self.with_op(Some(PendingOp::Yank { start_abs: self.cursor_place() }))
            }
        } else if ch == '/' {
            self.with_search(
                (vi_search::started(self.vi, self.term, SearchDirection::Forward), self.term),
            )
        } else if ch == '?' {
            self.with_search(
                (vi_search::started(self.vi, self.term, SearchDirection::Backward), self.term),
            )
        } else if ch == 'n' {
            self.with_search(vi_search::navigated(self.vi, self.term, shift))
        } else {
            self
        }
    }

    /// A character key, given by its character in lower case.
    pub open spec fn char_key(self, ch: char, shift: bool, ctrl: bool) -> ViState {
        if ctrl && ch == 'v' {
            self.with_visual(VisualMode::Block)
        } else {
            match self.vi.pending_op {
                Some(PendingOp::Yank { start_abs }) => self.after_yank(
                    start_abs,
                    ch,
                    shift,
                    ctrl,
                ),
                Some(PendingOp::YankInner) => self.after_object(true, ch, shift),
                Some(PendingOp::YankAround) => self.after_object(false, ch, shift),
                _ => if ctrl && motion_of_key(ch, shift, true) is Some {
                    self.moved(motion_of_key(ch, shift, true)->0)
                } else if counts(self.vi, ch) {
                    self.with_digit(ch)
                } else if self.vi.pending_op is Some {
                    if ch == 'g' {
                        self.with_op(None).moved(Motion::DocStart)
                    } else {
                        self.with_op(None)
                    }
                } else {
                    match motion_of_key(ch, shift, false) {
                        Some(m) => self.moved(m),
                        None => self.command(ch, shift),
                    }
                },
            }
        }
    }

    /// A key while a search is typed.
    pub open spec fn typed(self, key: Key, ctrl: bool) -> ViState {
        let s = self.vi.search->0;
        match key {
            Key::Named(NamedKey::Escape) => self.with_search(
                vi_search::cancelled(self.vi, self.term),
            ),
            Key::Named(NamedKey::Enter) => self.with_search(
                (
                    ViModel { search: Some(SearchModel { typing: false, ..s }), ..self.vi },
                    self.term,
                ),
            ),
            Key::Named(NamedKey::Backspace) => {
                let query = if s.query.len() > 0 {
                    s.query.drop_last()
                } else {
                    s.query
                };
                self.with_query(query)
            },
            Key::Character(t) => if !ctrl && t@.len() > 0 && !control_char(t@[0]) {
                self.with_query(s.query.push(t@[0]))
            } else {
                self
            },
            _ => self,
        }
    }

    /// The search with another query.
    pub open spec fn with_query(self, query: Seq<char>) -> ViState {
        self.with_search(
            vi_search::refreshed(
                ViModel {
                    search: Some(SearchModel { query, ..self.vi.search->0 }),
                    ..self.vi
                },
                self.term,
            ),
        )
    }

    /// A search is being typed.
    pub open spec fn is_typing(self) -> bool {
        self.vi.search matches Some(s) && s.typing
    }

    /// A key in vi mode.
    pub open spec fn key(self, key: Key, mods: Modifiers) -> ViState {
        (if self.is_typing() {
            self.typed(key, mods.ctrl)
        } else {
            match key {
                Key::Named(NamedKey::Escape) => self.escaped(),
                Key::Character(t) => {
                    let raw = if t@.len() > 0 {
                        t@[0]
                    } else {
                        '\0'
                    };
                    self.char_key(text::ascii_lower(raw), mods.shift, mods.ctrl)
                },
                _ => self,
            }
        }).refreshed()
    }
}

/// The state in its parts.
pub open spec fn state_of(
    v: ViModel,
    t: TermModel,
    selection: Option<Selection>,
    copied: Seq<char>,
) -> ViState {
    ViState { vi: v, term: t, selection, copied }
}

/// Carries out a motion as often as the count says.
fn do_motion(vi: &mut ViMode, term: &mut Term, m: Motion)
    requires
        old(vi)@.wf(),
        old(term).wf(),
        old(term)@.has_cells(),
    ensures
        final(vi)@.wf(),
        final(term).wf(),
        final(term)@.has_cells(),
        final(term).history() == old(term).history(),
        forall|sel: Option<Selection>, copied: Seq<char>|
            #[trigger] state_of(final(vi)@, final(term)@, sel, copied) == state_of(
                old(vi)@,
                old(term)@,
                sel,
                copied,
            ).moved(m),
{
    let ghost t = term@;
    let ghost v = vi@;
    let count: u32 = vi.take_count();
    let history: usize = term.grid().scrollback.len();
    let total: usize = history + term.grid().lines.len();
    let offset: usize = term.viewport_offset();
    let top: usize = if offset < history {
        history - offset
    } else {
        0
    };
    if m.reads_row() && top + vi.cursor.0 >= total {
        assert(vi@ =~= ViModel { pending_count: None, ..v });
        return ;
    }
    motion::apply_motion(vi, term, m, count);
    proof {
        motion::law_motions_stay_in_view(t, motion::place(v.cursor), m, count as int);
        let after = motion::motion_steps(t, motion::place(v.cursor), m, count as int);
        assert(vi@ =~= ViModel {
            pending_count: None,
            cursor: (after.1.0 as usize, after.1.1 as usize),
            ..v
        });
    }
}

/// Copies a range and leaves vi mode.
fn do_yank(
    vi: &mut ViMode,
    term: &Term,
    selection: &mut Option<Selection>,
    start: (usize, usize),
    end: (usize, usize),
) -> (copied: String)
    requires
        old(vi)@.wf(),
        term.wf(),
    ensures
        final(vi)@.wf(),
        state_of(final(vi)@, term@, *final(selection), copied@) == state_of(
            old(vi)@,
            term@,
            *old(selection),
            Seq::empty(),
        ).yanked(start, end),
{
    let copied = yank::copy_range(term, start, end);
    let ghost v = vi@;
    vi.exit();
    *selection = None;
    assert(vi@ =~= v.exit());
    copied
}

/// Copies as many whole lines as the count says, and leaves vi mode.
fn do_yank_lines(
    vi: &mut ViMode,
    term: &Term,
    selection: &mut Option<Selection>,
    row: usize,
) -> (copied: String)
    requires
        old(vi)@.wf(),
        term.wf(),
        term@.has_cells(),
    ensures
        final(vi)@.wf(),
        state_of(final(vi)@, term@, *final(selection), copied@) == state_of(
            old(vi)@,
            term@,
            *old(selection),
            Seq::empty(),
        ).lines_yanked(row),
{
    let ghost v = vi@;
    let count: u32 = vi.take_count();
    assert(vi@ =~= ViModel { pending_count: None, ..v });
    let extra: usize = (count - 1) as usize;
    let last: usize = if extra <= usize::MAX - row {
        row + extra
    } else {
        usize::MAX
    };
    let cols: usize = term.grid().cols;
    do_yank(vi, term, selection, (row, 0), (last, cols - 1))
}

/// The value of a digit.
fn digit_value(ch: char) -> (d: u32)
    requires
        '0' <= ch <= '9',
    ensures
        d == (ch as u32) - ('0' as u32),
{
    (ch as u32) - 48
}

fn adds_to_count(vi: &ViMode, ch: char) -> (adds: bool)
    ensures
        adds == counts(vi@, ch),
{
    '0' <= ch && ch <= '9' && (ch != '0' || vi.pending_count.is_some())
}

/// The key after `y`.
fn yank_key(
    vi: &mut ViMode,
    term: &mut Term,
    selection: &mut Option<Selection>,
    start: (usize, usize),
    ch: char,
    shift: bool,
    ctrl: bool,
) -> (copied: String)
    requires
        old(vi)@.wf(),
        old(term).wf(),
        old(term)@.has_cells(),
    ensures
        final(vi)@.wf(),
        final(term).wf(),
        final(term)@.has_cells(),
        final(term).history() == old(term).history(),
        state_of(final(vi)@, final(term)@, *final(selection), copied@) == state_of(
            old(vi)@,
            old(term)@,
            *old(selection),
            Seq::empty(),
        ).after_yank(start, ch, shift, ctrl),
{
    let ghost s = state_of(vi@, term@, *selection, Seq::empty());
    if adds_to_count(vi, ch) {
        vi.push_digit(digit_value(ch));
        assert(vi@ =~= s.with_digit(ch).vi);
        return String::new();
    }
    if ch == 'y' {
        vi.pending_op = None;
        assert(vi@ =~= s.with_op(None).vi);
        return do_yank_lines(vi, term, selection, start.0);
    }
    if ch == 'i' && !shift {
        vi.pending_op = Some(PendingOp::YankInner);
        assert(vi@ =~= s.with_op(Some(PendingOp::YankInner)).vi);
        return String::new();
    }
    if ch == 'a' && !shift {
        vi.pending_op = Some(PendingOp::YankAround);
        assert(vi@ =~= s.with_op(Some(PendingOp::YankAround)).vi);
        return String::new();
    }
    vi.pending_op = None;
    assert(vi@ =~= s.with_op(None).vi);
    match key_to_motion(ch, shift, ctrl) {
        Some(m) => {
            do_motion(vi, term, m);
            let end = yank::cursor_to_absolute(term, vi.cursor);
            let ghost there = s.with_op(None).moved(m);
            assert(state_of(vi@, term@, *selection, Seq::empty()) == there);
            assert(end == there.cursor_place());
            do_yank(vi, term, selection, start, end)
        },
        None => String::new(),
    }
}

/// The key after `yi` or `ya`.
fn object_key(
    vi: &mut ViMode,
    term: &Term,
    selection: &mut Option<Selection>,
    inner: bool,
    ch: char,
    shift: bool,
) -> (copied: String)
    requires
        old(vi)@.wf(),
        term.wf(),
        term@.has_cells(),
    ensures
        final(vi)@.wf(),
        state_of(final(vi)@, term@, *final(selection), copied@) == state_of(
            old(vi)@,
            term@,
            *old(selection),
            Seq::empty(),
        ).after_object(inner, ch, shift),
{
    let ghost s = state_of(vi@, term@, *selection, Seq::empty());
    vi.pending_op = None;
    assert(vi@ =~= s.with_op(None).vi);
    if ch != 'w' {
        return String::new();
    }
    let at = yank::cursor_to_absolute(term, vi.cursor);
    if at.0 >= term.grid().scrollback.len() + term.grid().lines.len() {
        return String::new();
    }
    let ends = if inner {
        yank::inner_word_bounds(term, vi.cursor, shift)
    } else {
        yank::around_word_bounds(term, vi.cursor, shift)
    };
    let start = yank::cursor_to_absolute(term, ends.0);
    let end = yank::cursor_to_absolute(term, ends.1);
    do_yank(vi, term, selection, start, end)
}

/// A key that is neither a motion nor part of a command begun before.
fn command_key(
    vi: &mut ViMode,
    term: &mut Term,
    selection: &mut Option<Selection>,
    ch: char,
    shift: bool,
) -> (copied: String)
    requires
        old(vi)@.wf(),
        old(term).wf(),
        old(term)@.has_cells(),
    ensures
        final(vi)@.wf(),
        final(term).wf(),
        final(term)@.has_cells(),
        final(term).history() == old(term).history(),
        state_of(final(vi)@, final(term)@, *final(selection), copied@) == state_of(
            old(vi)@,
            old(term)@,
            *old(selection),
            Seq::empty(),
        ).command(ch, shift),
{
    let ghost s = state_of(vi@, term@, *selection, Seq::empty());
    if ch == 'g' && !shift {
        vi.pending_op = Some(PendingOp::Goto);
        assert(vi@ =~= s.with_op(Some(PendingOp::Goto)).vi);
    } else if ch == 'v' {
        if shift {
            vi.start_visual_line();
            assert(vi@ =~= s.with_visual(VisualMode::Line).vi);
        } else {
            vi.start_visual_char();
            assert(vi@ =~= s.with_visual(VisualMode::Char).vi);
        }
    } else if ch == 'y' {
        if vi.visual != VisualMode::Off {
            let copied = match selection {
                Some(sel) => selection::copy_selection(term, sel),
                None => String::new(),
            };
            vi.exit();
            *selection = None;
            assert(vi@ =~= s.vi.exit());
            return copied;
        }
        let start = yank::cursor_to_absolute(term, vi.cursor);
        assert(start == s.cursor_place());
        if shift {
            return do_yank_lines(vi, term, selection, start.0);
        }
        vi.pending_op = Some(PendingOp::Yank { start_abs: start });
        assert(vi@ =~= s.with_op(Some(PendingOp::Yank { start_abs: start })).vi);
    } else if ch == '/' {
        vi_search::start_search(vi, term, SearchDirection::Forward);
    } else if ch == '?' {
        vi_search::start_search(vi, term, SearchDirection::Backward);
    } else if ch == 'n' {
        vi_search::search_navigate(vi, term, shift);
    }
    String::new()
}

/// A character key, given by its character in lower case.
fn char_key(
    vi: &mut ViMode,
    term: &mut Term,
    selection: &mut Option<Selection>,
    ch: char,
    shift: bool,
    ctrl: bool,
) -> (copied: String)
    requires
        old(vi)@.wf(),
        old(term).wf(),
        old(term)@.has_cells(),
    ensures
        final(vi)@.wf(),
        final(term).wf(),
        final(term)@.has_cells(),
        final(term).history() == old(term).history(),
        state_of(final(vi)@, final(term)@, *final(selection), copied@) == state_of(
            old(vi)@,
            old(term)@,
            *old(selection),
            Seq::empty(),
        ).char_key(ch, shift, ctrl),
{
    let ghost s = state_of(vi@, term@, *selection, Seq::empty());
    if ctrl && ch == 'v' {
        vi.start_visual_block();
        assert(vi@ =~= s.with_visual(VisualMode::Block).vi);
        return String::new();
    }
    match vi.pending_op {
        Some(PendingOp::Yank { start_abs }) => {
            return yank_key(vi, term, selection, start_abs, ch, shift, ctrl);
        },
        Some(PendingOp::YankInner) => {
            return object_key(vi, term, selection, true, ch, shift);
        },
        Some(PendingOp::YankAround) => {
            return object_key(vi, term, selection, false, ch, shift);
        },
        _ => {},
    }
    if ctrl {
        if let Some(m) = key_to_motion(ch, shift, true) {
            do_motion(vi, term, m);
            assert(state_of(vi@, term@, *selection, Seq::empty()) == s.moved(m));
            return String::new();
        }
    }
    if adds_to_count(vi, ch) {
        vi.push_digit(digit_value(ch));
        assert(vi@ =~= s.with_digit(ch).vi);
        return String::new();
    }
    if vi.pending_op.is_some() {
        vi.pending_op = None;
        assert(vi@ =~= s.with_op(None).vi);
        if ch == 'g' {
            do_motion(vi, term, Motion::DocStart);
            assert(state_of(vi@, term@, *selection, Seq::empty()) == s.with_op(None).moved(
                Motion::DocStart,
            ));
        }
        return String::new();
    }
    match key_to_motion(ch, shift, false) {
        Some(m) => {
            do_motion(vi, term, m);
            assert(state_of(vi@, term@, *selection, Seq::empty()) == s.moved(m));
            String::new()
        },
        None => command_key(vi, term, selection, ch, shift),
    }
}

/// Whether a character is a control character.
fn is_control_char(c: char) -> (is: bool)
    ensures
        is == control_char(c),
{
    let n: u32 = c as u32;
    n < 0x20 || (0x7f <= n && n <= 0x9f)
}

/// A text without its last character.
fn without_last(query: &str) -> (shorter: String)
    ensures
        shorter@ == (if query@.len() > 0 {
            query@.drop_last()
        } else {
            query@
        }),
{
    let mut chars = text::chars_of(query);
    let _ = chars.pop();
    let shorter = text::string_of(chars.as_slice());
    assert(query@.len() == 0 ==> shorter@ =~= query@);
    shorter
}

/// Changes the query of the search and looks for it.
fn change_query(vi: &mut ViMode, term: &mut Term, query: String)
    requires
        old(vi)@.wf(),
        old(vi).search is Some,
        old(term).wf(),
        old(term)@.has_cells(),
    ensures
        final(vi)@.wf(),
        final(term).wf(),
        final(term)@.has_cells(),
        final(term).history() == old(term).history(),
        forall|sel: Option<Selection>, copied: Seq<char>|
            #[trigger] state_of(final(vi)@, final(term)@, sel, copied) == state_of(
                old(vi)@,
                old(term)@,
                sel,
                copied,
            ).with_query(query@),
{
    let ghost v = vi@;
    if let Some(mut s) = vi.search.take() {
        s.query = query;
        vi.search = Some(s);
    }
    assert(vi@ =~= ViModel {
        search: Some(SearchModel { query: query@, ..v.search->0 }),
        ..v
    });
    vi_search::refresh_search(vi, term);
}

/// A key while a search is typed.
fn typed_key(vi: &mut ViMode, term: &mut Term, key: &Key, ctrl: bool)
    requires
        old(vi)@.wf(),
        old(vi).search is Some,
        old(term).wf(),
        old(term)@.has_cells(),
    ensures
        final(vi)@.wf(),
        final(term).wf(),
        final(term)@.has_cells(),
        final(term).history() == old(term).history(),
        forall|sel: Option<Selection>, copied: Seq<char>|
            #[trigger] state_of(final(vi)@, final(term)@, sel, copied) == state_of(
                old(vi)@,
                old(term)@,
                sel,
                copied,
            ).typed(*key, ctrl),
{
    let ghost v = vi@;
    match key {
        Key::Named(NamedKey::Escape) => {
            vi_search::cancel_search(vi, term);
        },
        Key::Named(NamedKey::Enter) => {
            if let Some(mut s) = vi.search.take() {
                s.typing = false;
                vi.search = Some(s);
            }
            assert(vi@ =~= ViModel {
                search: Some(SearchModel { typing: false, ..v.search->0 }),
                ..v
            });
        },
        Key::Named(NamedKey::Backspace) => {
            let query = match &vi.search {
                Some(s) => without_last(s.query.as_str()),
                None => String::new(),
            };
            change_query(vi, term, query);
        },
        Key::Character(t) => {
            if !ctrl {
                if let Some(c) = keys::first_char_of(t.as_str()) {
                    if !is_control_char(c) {
                        let mut query = match &vi.search {
                            Some(s) => s.query.as_str().to_owned(),
                            None => String::new(),
                        };
                        query.push(c);
                        change_query(vi, term, query);
                    }
                }
            }
        },
        _ => {},
    }
}

/// Escape outside of typing a search.
fn escape_key(vi: &mut ViMode, selection: &mut Option<Selection>)
    requires
        old(vi)@.wf(),
    ensures
        final(vi)@.wf(),
        forall|t: TermModel, copied: Seq<char>|
            #[trigger] state_of(final(vi)@, t, *final(selection), copied) == state_of(
                old(vi)@,
                t,
                *old(selection),
                copied,
            ).escaped(),
{
    let ghost v = vi@;
    if vi.search.is_some() {
        vi.search = None;
        assert(vi@ =~= ViModel { search: None, ..v });
    } else if vi.pending_count.is_some() || vi.pending_op.is_some() {
        vi.cancel_pending();
        assert(vi@ =~= ViModel { pending_count: None, pending_op: None, ..v });
    } else if vi.visual != VisualMode::Off {
        vi.exit_visual();
        *selection = None;
        assert(vi@ =~= ViModel { visual: VisualMode::Off, visual_anchor: None, ..v });
    } else {
        vi.exit();
        *selection = None;
        assert(vi@ =~= v.exit());
    }
}

/// What a text holds; nothing where there is none.
pub open spec fn text_of(s: Option<String>) -> Seq<char> {
    match s {
        Some(t) => t@,
        None => Seq::empty(),
    }
}

/// A text, unless it is empty.
pub fn unless_empty(s: String) -> (out: Option<String>)
    ensures
        text_of(out) == s@,
        out is Some <==> s@.len() > 0,
{
    if s.as_str().is_empty() {
        assert(s@ =~= Seq::<char>::empty());
        None
    } else {
        Some(s)
    }
}

/// Handles a key in vi mode and returns the text for the clipboard, if the
/// key copied any.
pub fn vi_key(
    vi: &mut ViMode,
    term: &mut Term,
    selection: &mut Option<Selection>,
    key: &Key,
    mods: Modifiers,
) -> (copied: Option<String>)
    requires
        old(vi)@.wf(),
        old(term).wf(),
        old(term)@.has_cells(),
    ensures
        final(vi)@.wf(),
        final(term).wf(),
        final(term)@.has_cells(),
        final(term).history() == old(term).history(),
        copied matches Some(t) ==> t@.len() > 0,
        state_of(final(vi)@, final(term)@, *final(selection), text_of(copied)) == state_of(
            old(vi)@,
            old(term)@,
            *old(selection),
            Seq::empty(),
        ).key(*key, mods),
{
    let ghost s = state_of(vi@, term@, *selection, Seq::empty());
    let typing: bool = match &vi.search {
        Some(search) => search.typing,
        None => false,
    };
    let mut copied = String::new();
    if typing {
        typed_key(vi, term, key, mods.ctrl);
        assert(state_of(vi@, term@, *selection, copied@) == s.typed(*key, mods.ctrl));
    } else {
        match key {
            Key::Named(NamedKey::Escape) => {
                escape_key(vi, selection);
                assert(state_of(vi@, term@, *selection, copied@) == s.escaped());
            },
            Key::Character(t) => {
                let raw: char = match keys::first_char_of(t.as_str()) {
                    Some(c) => c,
                    None => '\0',
                };
                let ch: char = text::to_ascii_lower(raw);
                copied = char_key(vi, term, selection, ch, mods.shift, mods.ctrl);
            },
            _ => {},
        }
    }
    if vi.active && vi.visual != VisualMode::Off {
        let cols: usize = term.grid().cols;
        *selection = vi.selection(cols);
    }
    unless_empty(copied)
}

proof fn lemma_view_only(s: ViState, m: Motion)
    requires
        s.wf(),
    ensures
        s.moved(m).term == (TermModel {
            viewport_offset: s.moved(m).term.viewport_offset,
            ..s.term
        }),
        s.moved(m).copied == s.copied,
        s.moved(m).vi.active == s.vi.active,
{
    motion::law_motions_stay_in_view(
        s.term,
        motion::place(s.vi.cursor),
        m,
        vi::repeats(s.vi.pending_count) as int,
    );
}

/// Two terminals differ at most in what part of them is in view.
pub open spec fn same_but_view(a: TermModel, b: TermModel) -> bool {
    b == TermModel { viewport_offset: b.viewport_offset, ..a }
}

proof fn lemma_typing_only_looks(s: ViState, key: Key, ctrl: bool)
    requires
        s.is_typing(),
    ensures
        same_but_view(s.term, s.typed(key, ctrl).term),
{
}

proof fn lemma_yanking_only_looks(
    s: ViState,
    start: (usize, usize),
    ch: char,
    shift: bool,
    ctrl: bool,
)
    requires
        s.wf(),
    ensures
        same_but_view(s.term, s.after_yank(start, ch, shift, ctrl).term),
{
    if let Some(m) = motion_of_key(ch, shift, ctrl) {
        lemma_view_only(s.with_op(None), m);
    }
}

proof fn lemma_commands_only_look(s: ViState, ch: char, shift: bool)
    requires
        s.wf(),
    ensures
        same_but_view(s.term, s.command(ch, shift).term),
{
}

proof fn lemma_characters_only_look(s: ViState, ch: char, shift: bool, ctrl: bool)
    requires
        s.wf(),
    ensures
        same_but_view(s.term, s.char_key(ch, shift, ctrl).term),
{
    lemma_commands_only_look(s, ch, shift);
    lemma_view_only(s.with_op(None), Motion::DocStart);
    if let Some(m) = motion_of_key(ch, shift, true) {
        lemma_view_only(s, m);
    }
    if let Some(m) = motion_of_key(ch, shift, false) {
        lemma_view_only(s, m);
    }
    if let Some(PendingOp::Yank { start_abs }) = s.vi.pending_op {
        lemma_yanking_only_looks(s, start_abs, ch, shift, ctrl);
    }
}

/// Vi mode only looks: whatever key is pressed, nothing on the screen or in
/// the history changes, nothing is sent to the application, and at most
/// another part is in view.
pub proof fn law_vi_mode_only_looks(s: ViState, key: Key, mods: Modifiers)
    requires
        s.wf(),
    ensures
        same_but_view(s.term, s.key(key, mods).term),
{
    if s.is_typing() {
        lemma_typing_only_looks(s, key, mods.ctrl);
    } else if let Key::Character(t) = key {
        let raw = if t@.len() > 0 {
            t@[0]
        } else {
            '\0'
        };
        lemma_characters_only_look(s, text::ascii_lower(raw), mods.shift, mods.ctrl);
    }
}

/// Whatever copies text also leaves vi mode and selects nothing.
pub proof fn law_copying_leaves_vi_mode(s: ViState, key: Key, mods: Modifiers)
    requires
        s.wf(),
        s.copied == Seq::<char>::empty(),
        s.key(key, mods).copied != Seq::<char>::empty(),
    ensures
        !s.key(key, mods).vi.active,
        s.key(key, mods).selection is None,
        s.key(key, mods).vi.search is None,
{
    if let Key::Character(t) = key {
        let raw = if t@.len() > 0 {
            t@[0]
        } else {
            '\0'
        };
        let ch = text::ascii_lower(raw);
        lemma_view_only(s.with_op(None), Motion::DocStart);
        if let Some(m) = motion_of_key(ch, mods.shift, mods.ctrl) {
            lemma_view_only(s, m);
            lemma_view_only(s.with_op(None), m);
        }
        if let Some(m) = motion_of_key(ch, mods.shift, false) {
            lemma_view_only(s, m);
        }
    }
}

/// Four times Escape leaves vi mode, whatever was begun before.
pub proof fn law_escape_leaves_vi_mode(s: ViState, mods: Modifiers)
    ensures
        ({
            let esc = Key::Named(NamedKey::Escape);
            !s.key(esc, mods).key(esc, mods).key(esc, mods).key(esc, mods).vi.active
        }),
{
}

} // verus!
