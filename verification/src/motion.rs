//! Vi motions: how keys move the vi cursor through the view and scroll the
//! view when they push past its edge.

use vstd::prelude::*;

use crate::grid;
use crate::grid::Cell;
use crate::selection;
use crate::term::{Term, TermModel};
use crate::text;
use crate::vi::ViMode;

verus! {

/// A motion. Counts repeat it.
#[derive(Copy, Clone, Debug, PartialEq, Eq, Structural)]
pub enum Motion {
    /// Rows down and columns right, for the h, j, k and l keys.
    Char(isize, isize),
    /// `0`
    LineStart,
    /// `^`
    LineFirstNonBlank,
    /// `$`
    LineEnd,
    /// `gg`: the top of the history.
    DocStart,
    /// `G`: the bottom of the live screen.
    DocEnd,
    /// `H`
    ScreenTop,
    /// `M`
    ScreenMiddle,
    /// `L`
    ScreenBottom,
    /// Ctrl-u
    HalfPageUp,
    /// Ctrl-d
    HalfPageDown,
    /// Ctrl-b
    FullPageUp,
    /// Ctrl-f
    FullPageDown,
    /// `w` and, for runs of anything but white space, `W`.
    WordNext { big: bool },
    /// `e` and `E`.
    WordEnd { big: bool },
    /// `b` and `B`.
    WordPrev { big: bool },
}

#[derive(Copy, Clone, Debug, PartialEq, Eq, Structural)]
pub enum WordClass {
    Whitespace,
    Word,
    Punct,
}

/// The class of a character. In big-word mode everything but white space is
/// one class.
pub open spec fn class_of(ch: char, big: bool) -> WordClass {
    if text::white_space(ch) || ch == '\0' {
        WordClass::Whitespace
    } else if big || text::alphanumeric(ch) || ch == '_' {
        WordClass::Word
    } else {
        WordClass::Punct
    }
}

/// The class of a character that [`text::alphanumeric`] has been asked about.
pub fn classify_as(ch: char, big: bool, alphanumeric: bool) -> (class: WordClass)
    ensures
        class == (if text::white_space(ch) || ch == '\0' {
            WordClass::Whitespace
        } else if big || alphanumeric || ch == '_' {
            WordClass::Word
        } else {
            WordClass::Punct
        }),
{
    if text::is_white_space(ch) || ch == '\0' {
        WordClass::Whitespace
    } else if big || alphanumeric || ch == '_' {
        WordClass::Word
    } else {
        WordClass::Punct
    }
}

/// The class of a character. In ASCII text a word is a run of letters, digits
/// and underscores.
pub fn classify(ch: char, big: bool) -> (class: WordClass)
    ensures
        class == class_of(ch, big),
        (ch as u32) < 0x80 && !big ==> (class == WordClass::Word <==> text::ascii_alphanumeric(ch)
            || ch == '_'),
{
    classify_as(ch, big, text::is_alphanumeric(ch))
}

/// The character in view at a place; NUL where the row is shorter.
pub open spec fn view_char(t: TermModel, at: (int, int)) -> char {
    let cells = selection::view_row(t, at.0);
    if at.1 < cells.len() {
        cells[at.1].ch
    } else {
        '\0'
    }
}

/// The class of the character in view at a place.
pub open spec fn class_at(t: TermModel, at: (int, int), big: bool) -> WordClass {
    class_of(view_char(t, at), big)
}

/// The place after `at` in reading order, if the view does not end there.
pub open spec fn next_cell(t: TermModel, at: (int, int)) -> Option<(int, int)> {
    if at.1 + 1 < t.screen().cols {
        Some((at.0, at.1 + 1))
    } else if at.0 + 1 < t.screen().rows {
        Some((at.0 + 1, 0))
    } else {
        None
    }
}

/// The place before `at` in reading order, if the view does not begin there.
pub open spec fn prev_cell(t: TermModel, at: (int, int)) -> Option<(int, int)> {
    if at.1 > 0 {
        Some((at.0, at.1 - 1))
    } else if at.0 > 0 {
        Some((at.0 - 1, last_column(t)))
    } else {
        None
    }
}

/// The last column of the screen.
pub open spec fn last_column(t: TermModel) -> int {
    if t.screen().cols > 0 {
        t.screen().cols - 1
    } else {
        0
    }
}

/// The first place from `at` on that is not of class `class`, or the end of
/// the view where all are; the flag tells which.
pub open spec fn skip_forward(
    t: TermModel,
    at: (int, int),
    class: WordClass,
    big: bool,
) -> (bool, (int, int))
    decreases t.screen().rows - at.0, t.screen().cols - at.1,
{
    if class_at(t, at, big) != class {
        (true, at)
    } else {
        match next_cell(t, at) {
            Some(next) => skip_forward(t, next, class, big),
            None => (false, at),
        }
    }
}

/// The last place of the run of class `class` that goes on after `at`.
pub open spec fn run_last(t: TermModel, at: (int, int), class: WordClass, big: bool) -> (int, int)
    decreases t.screen().rows - at.0, t.screen().cols - at.1,
{
    match next_cell(t, at) {
        Some(next) => if class_at(t, next, big) == class {
            run_last(t, next, class, big)
        } else {
            at
        },
        None => at,
    }
}

/// The first place from `at` backwards that is not of class `class`, or the
/// start of the view where all are; the flag tells which.
pub open spec fn skip_backward(
    t: TermModel,
    at: (int, int),
    class: WordClass,
    big: bool,
) -> (bool, (int, int))
    decreases at.0, at.1,
{
    if class_at(t, at, big) != class {
        (true, at)
    } else {
        match prev_cell(t, at) {
            Some(prev) => skip_backward(t, prev, class, big),
            None => (false, at),
        }
    }
}

/// The first place of the run of class `class` that begins before `at`.
pub open spec fn run_first(t: TermModel, at: (int, int), class: WordClass, big: bool) -> (int, int)
    decreases at.0, at.1,
{
    match prev_cell(t, at) {
        Some(prev) => if class_at(t, prev, big) == class {
            run_first(t, prev, class, big)
        } else {
            at
        },
        None => at,
    }
}

/// The start of the next word.
pub open spec fn word_next_of(t: TermModel, at: (int, int), big: bool) -> (int, int) {
    let class = class_at(t, at, big);
    let past = if class == WordClass::Whitespace {
        (true, at)
    } else {
        skip_forward(t, at, class, big)
    };
    if past.0 {
        skip_forward(t, past.1, WordClass::Whitespace, big).1
    } else {
        past.1
    }
}

/// The end of the word, or of the next one where the end is reached already.
pub open spec fn word_end_of(t: TermModel, at: (int, int), big: bool) -> (int, int) {
    match next_cell(t, at) {
        None => at,
        Some(next) => {
            let class = class_at(t, at, big);
            if class == WordClass::Whitespace || class_at(t, next, big) != class {
                let word = skip_forward(t, next, WordClass::Whitespace, big);
                if word.0 {
                    run_last(t, word.1, class_at(t, word.1, big), big)
                } else {
                    word.1
                }
            } else {
                run_last(t, at, class, big)
            }
        },
    }
}

/// The start of the word, or of the one before where the start is reached
/// already.
pub open spec fn word_prev_of(t: TermModel, at: (int, int), big: bool) -> (int, int) {
    match prev_cell(t, at) {
        None => at,
        Some(prev) => {
            let word = skip_backward(t, prev, WordClass::Whitespace, big);
            if word.0 {
                run_first(t, word.1, class_at(t, word.1, big), big)
            } else {
                word.1
            }
        },
    }
}

/// The first column from `i` on, below `limit`, that is not blank; 0 where
/// there is none.
pub open spec fn first_ink(cells: Seq<Cell>, limit: int, i: int) -> int
    decreases cells.len() - i,
{
    if i >= limit || i >= cells.len() {
        0
    } else if selection::word_char(cells[i].ch) {
        i
    } else {
        first_ink(cells, limit, i + 1)
    }
}

/// The last column below `n` that is not blank; 0 where there is none.
pub open spec fn last_ink(cells: Seq<Cell>, n: int) -> int
    decreases n,
{
    if n <= 0 {
        0
    } else if selection::word_char(cells[n - 1].ch) {
        n - 1
    } else {
        last_ink(cells, n - 1)
    }
}

/// View and cursor after one step of a motion, before the cursor is limited
/// to the screen.
pub open spec fn raw_step(t: TermModel, at: (int, int), motion: Motion) -> (TermModel, (int, int)) {
    let rows = t.screen().rows;
    let cols = t.screen().cols;
    match motion {
        Motion::Char(drow, dcol) => {
            let row = at.0 + drow;
            let col = grid::clamp_below(at.1 + dcol, cols);
            if row < 0 {
                (t.scroll_view(-row), (0, col))
            } else if row >= rows {
                (t.scroll_view(rows - 1 - row), (rows - 1, col))
            } else {
                (t, (row, col))
            }
        },
        Motion::LineStart => (t, (at.0, 0)),
        Motion::LineFirstNonBlank => (
            t,
            (at.0, first_ink(selection::view_row(t, at.0), cols, 0)),
        ),
        Motion::LineEnd => (
            t,
            (
                at.0,
                last_ink(
                    selection::view_row(t, at.0),
                    grid::min_int(cols, selection::view_row(t, at.0).len() as int),
                ),
            ),
        ),
        Motion::DocStart => (t.scroll_view(t.primary.scrollback.len() as int), (0, at.1)),
        Motion::DocEnd => (TermModel { viewport_offset: 0, ..t }, (rows - 1, at.1)),
        Motion::ScreenTop => (t, (0, at.1)),
        Motion::ScreenMiddle => (t, (rows / 2, at.1)),
        Motion::ScreenBottom => (t, (rows - 1, at.1)),
        Motion::HalfPageUp => (t.scroll_view(rows / 2), at),
        Motion::HalfPageDown => (t.scroll_view(-(rows / 2)), at),
        Motion::FullPageUp => (t.scroll_view(rows - 1), at),
        Motion::FullPageDown => (t.scroll_view(1 - rows), at),
        Motion::WordNext { big } => (t, word_next_of(t, at, big)),
        Motion::WordEnd { big } => (t, word_end_of(t, at, big)),
        Motion::WordPrev { big } => (t, word_prev_of(t, at, big)),
    }
}

/// View and cursor after one step of a motion.
pub open spec fn motion_step(t: TermModel, at: (int, int), motion: Motion) -> (
    TermModel,
    (int, int),
) {
    let raw = raw_step(t, at, motion);
    (
        raw.0,
        (
            grid::clamp_below(raw.1.0, t.screen().rows),
            grid::clamp_below(raw.1.1, t.screen().cols),
        ),
    )
}

/// View and cursor after `count` steps of a motion.
pub open spec fn motion_steps(t: TermModel, at: (int, int), motion: Motion, count: int) -> (
    TermModel,
    (int, int),
)
    decreases count,
{
    if count <= 0 {
        (t, at)
    } else {
        let before = motion_steps(t, at, motion, count - 1);
        motion_step(before.0, before.1, motion)
    }
}

/// A place as mathematical integers.
pub open spec fn place(at: (usize, usize)) -> (int, int) {
    (at.0 as int, at.1 as int)
}

/// The row of a place is in view.
pub open spec fn in_view(t: TermModel, at: (usize, usize)) -> bool {
    selection::row_in_view(t, at.0 as int)
}

impl Motion {
    /// Whether the motion depends on what the row of the cursor holds.
    pub open spec fn reads(self) -> bool {
        self is LineFirstNonBlank || self is LineEnd || self is WordNext || self is WordEnd
            || self is WordPrev
    }

    /// Whether the motion depends on what the row of the cursor holds.
    pub fn reads_row(self) -> (reads: bool)
        ensures
            reads == self.reads(),
    {
        match self {
            Motion::LineFirstNonBlank => true,
            Motion::LineEnd => true,
            Motion::WordNext { .. } => true,
            Motion::WordEnd { .. } => true,
            Motion::WordPrev { .. } => true,
            _ => false,
        }
    }
}

fn class_in_view(term: &Term, at: (usize, usize), big: bool) -> (class: WordClass)
    requires
        term.wf(),
        in_view(term@, at),
    ensures
        class == class_at(term@, place(at), big),
{
    let row = term.viewport_row(at.0);
    let ch: char = if at.1 < row.cells.len() {
        row.cells[at.1].ch
    } else {
        '\0'
    };
    classify(ch, big)
}

/// The place after `at`, if there is one.
fn advance(term: &Term, at: (usize, usize)) -> (next: Option<(usize, usize)>)
    requires
        term.wf(),
        in_view(term@, at),
    ensures
        next is Some <==> next_cell(term@, place(at)) is Some,
        next matches Some(n) ==> next_cell(term@, place(at)) == Some(place(n)) && in_view(
            term@,
            n,
        ),
{
    let g = term.grid();
    if at.1 < g.cols && at.1 + 1 < g.cols {
        Some((at.0, at.1 + 1))
    } else if at.0 < g.rows && at.0 + 1 < g.rows {
        Some((at.0 + 1, 0))
    } else {
        None
    }
}

/// The place before `at`, if there is one.
fn retreat(term: &Term, at: (usize, usize)) -> (prev: Option<(usize, usize)>)
    requires
        term.wf(),
        in_view(term@, at),
    ensures
        prev is Some <==> prev_cell(term@, place(at)) is Some,
        prev matches Some(p) ==> prev_cell(term@, place(at)) == Some(place(p)) && in_view(
            term@,
            p,
        ),
{
    let g = term.grid();
    if at.1 > 0 {
        Some((at.0, at.1 - 1))
    } else if at.0 > 0 {
        Some(
            (
                at.0 - 1,
                if g.cols > 0 {
                    g.cols - 1
                } else {
                    0
                },
            ),
        )
    } else {
        None
    }
}

fn skip_run_forward(term: &Term, at: (usize, usize), class: WordClass, big: bool) -> (end: (
    bool,
    (usize, usize),
))
    requires
        term.wf(),
        in_view(term@, at),
    ensures
        end.0 == skip_forward(term@, place(at), class, big).0,
        place(end.1) == skip_forward(term@, place(at), class, big).1,
        in_view(term@, end.1),
{
    let mut cur = at;
    loop
        invariant
            term.wf(),
            in_view(term@, cur),
            skip_forward(term@, place(cur), class, big) == skip_forward(term@, place(at), class, big),
        decreases term@.screen().rows - cur.0, term@.screen().cols - cur.1,
    {
        if class_in_view(term, cur, big) != class {
            return (true, cur);
        }
        match advance(term, cur) {
            Some(next) => {
                cur = next;
            },
            None => {
                return (false, cur);
            },
        }
    }
}

fn to_run_last(term: &Term, at: (usize, usize), class: WordClass, big: bool) -> (end: (
    usize,
    usize,
))
    requires
        term.wf(),
        in_view(term@, at),
    ensures
        place(end) == run_last(term@, place(at), class, big),
        in_view(term@, end),
{
    let mut cur = at;
    loop
        invariant
            term.wf(),
            in_view(term@, cur),
            run_last(term@, place(cur), class, big) == run_last(term@, place(at), class, big),
        decreases term@.screen().rows - cur.0, term@.screen().cols - cur.1,
    {
        match advance(term, cur) {
            Some(next) => {
                if class_in_view(term, next, big) != class {
                    return cur;
                }
                cur = next;
            },
            None => {
                return cur;
            },
        }
    }
}

fn skip_run_backward(term: &Term, at: (usize, usize), class: WordClass, big: bool) -> (end: (
    bool,
    (usize, usize),
))
    requires
        term.wf(),
        in_view(term@, at),
    ensures
        end.0 == skip_backward(term@, place(at), class, big).0,
        place(end.1) == skip_backward(term@, place(at), class, big).1,
        in_view(term@, end.1),
{
    let mut cur = at;
    loop
        invariant
            term.wf(),
            in_view(term@, cur),
            skip_backward(term@, place(cur), class, big) == skip_backward(term@, place(at), class, big),
        decreases cur.0, cur.1,
    {
        if class_in_view(term, cur, big) != class {
            return (true, cur);
        }
        match retreat(term, cur) {
            Some(prev) => {
                cur = prev;
            },
            None => {
                return (false, cur);
            },
        }
    }
}

fn to_run_first(term: &Term, at: (usize, usize), class: WordClass, big: bool) -> (end: (
    usize,
    usize,
))
    requires
        term.wf(),
        in_view(term@, at),
    ensures
        place(end) == run_first(term@, place(at), class, big),
        in_view(term@, end),
{
    let mut cur = at;
    loop
        invariant
            term.wf(),
            in_view(term@, cur),
            run_first(term@, place(cur), class, big) == run_first(term@, place(at), class, big),
        decreases cur.0, cur.1,
    {
        match retreat(term, cur) {
            Some(prev) => {
                if class_in_view(term, prev, big) != class {
                    return cur;
                }
                cur = prev;
            },
            None => {
                return cur;
            },
        }
    }
}

/// The start of the next word.
fn word_next(term: &Term, at: (usize, usize), big: bool) -> (end: (usize, usize))
    requires
        term.wf(),
        in_view(term@, at),
    ensures
        place(end) == word_next_of(term@, place(at), big),
        in_view(term@, end),
{
    let class = class_in_view(term, at, big);
    let mut past: (bool, (usize, usize)) = (true, at);
    if class != WordClass::Whitespace {
        past = skip_run_forward(term, at, class, big);
    }
    if past.0 {
        skip_run_forward(term, past.1, WordClass::Whitespace, big).1
    } else {
        past.1
    }
}

/// The end of this word or the next.
fn word_end(term: &Term, at: (usize, usize), big: bool) -> (end: (usize, usize))
    requires
        term.wf(),
        in_view(term@, at),
    ensures
        place(end) == word_end_of(term@, place(at), big),
        in_view(term@, end),
{
    match advance(term, at) {
        None => at,
        Some(next) => {
            let class = class_in_view(term, at, big);
            if class == WordClass::Whitespace || class_in_view(term, next, big) != class {
                let word = skip_run_forward(term, next, WordClass::Whitespace, big);
                if word.0 {
                    let inner = class_in_view(term, word.1, big);
                    to_run_last(term, word.1, inner, big)
                } else {
                    word.1
                }
            } else {
                to_run_last(term, at, class, big)
            }
        },
    }
}

/// The start of this word or the one before.
fn word_prev(term: &Term, at: (usize, usize), big: bool) -> (end: (usize, usize))
    requires
        term.wf(),
        in_view(term@, at),
    ensures
        place(end) == word_prev_of(term@, place(at), big),
        in_view(term@, end),
{
    match retreat(term, at) {
        None => at,
        Some(prev) => {
            let word = skip_run_backward(term, prev, WordClass::Whitespace, big);
            if word.0 {
                let inner = class_in_view(term, word.1, big);
                to_run_first(term, word.1, inner, big)
            } else {
                word.1
            }
        },
    }
}

/// The first column of a row that is not blank.
fn first_non_blank(term: &Term, row: usize) -> (col: usize)
    requires
        term.wf(),
        selection::row_in_view(term@, row as int),
    ensures
        col == first_ink(selection::view_row(term@, row as int), term@.screen().cols, 0),
{
    let cols: usize = term.grid().cols;
    let cells = &term.viewport_row(row).cells;
    let mut i: usize = 0;
    while i < cols && i < cells.len()
        invariant
            i <= cells@.len(),
            cells@ == selection::view_row(term@, row as int),
            cols == term@.screen().cols,
            first_ink(cells@, cols as int, 0) == first_ink(cells@, cols as int, i as int),
        decreases cells@.len() - i,
    {
        let ch: char = cells[i].ch;
        if !text::is_white_space(ch) && ch != '\0' {
            return i;
        }
        i += 1;
    }
    0
}

/// The last column of a row that is not blank.
fn last_non_blank(term: &Term, row: usize) -> (col: usize)
    requires
        term.wf(),
        selection::row_in_view(term@, row as int),
    ensures
        col == last_ink(
            selection::view_row(term@, row as int),
            grid::min_int(
                term@.screen().cols,
                selection::view_row(term@, row as int).len() as int,
            ),
        ),
{
    let cols: usize = term.grid().cols;
    let cells = &term.viewport_row(row).cells;
    let mut n: usize = if cols < cells.len() {
        cols
    } else {
        cells.len()
    };
    while n > 0
        invariant
            n <= cells@.len(),
            cells@ == selection::view_row(term@, row as int),
            last_ink(cells@, n as int) == last_ink(
                cells@,
                grid::min_int(term@.screen().cols, cells@.len() as int),
            ),
        decreases n,
    {
        let ch: char = cells[n - 1].ch;
        if !text::is_white_space(ch) && ch != '\0' {
            return n - 1;
        }
        n -= 1;
    }
    0
}

/// Moves by rows and columns, scrolling at the edges of the view.
fn char_move(term: &mut Term, at: (usize, usize), drow: isize, dcol: isize) -> (end: (usize, usize))
    requires
        old(term).wf(),
        old(term)@.screen().rows > 0,
    ensures
        final(term).wf(),
        final(term).history() == old(term).history(),
        ({
            let after = motion_step(old(term)@, place(at), Motion::Char(drow, dcol));
            final(term)@ == after.0 && place(end) == after.1
        }),
{
    let rows: usize = term.grid().rows;
    let cols: usize = term.grid().cols;
    let row: i128 = at.0 as i128 + drow as i128;
    let shifted: i128 = at.1 as i128 + dcol as i128;
    let col: usize = if shifted < 0 || cols == 0 {
        0
    } else if shifted >= cols as i128 {
        cols - 1
    } else {
        shifted as usize
    };
    if row < 0 {
        scroll_by(term, -row);
        (0, col)
    } else if row >= rows as i128 {
        scroll_by(term, (rows as i128 - 1) - row);
        (rows - 1, col)
    } else {
        (row as usize, col)
    }
}

/// Scrolls the view by a distance that need not fit `isize`.
fn scroll_by(term: &mut Term, delta: i128)
    requires
        old(term).wf(),
    ensures
        final(term).wf(),
        final(term).history() == old(term).history(),
        final(term)@ == old(term)@.scroll_view(delta as int),
{
    if delta > isize::MAX as i128 {
        term.scroll_view(isize::MAX);
    } else if delta < isize::MIN as i128 {
        term.scroll_view(isize::MIN);
    } else {
        term.scroll_view(delta as isize);
    }
}

/// One step of a motion.
fn step(term: &mut Term, at: (usize, usize), motion: Motion) -> (end: (usize, usize))
    requires
        old(term).wf(),
        old(term)@.screen().rows > 0,
        motion.reads() ==> in_view(old(term)@, at),
    ensures
        final(term).wf(),
        final(term).history() == old(term).history(),
        ({
            let after = motion_step(old(term)@, place(at), motion);
            final(term)@ == after.0 && place(end) == after.1
        }),
{
    let rows: usize = term.grid().rows;
    let cols: usize = term.grid().cols;
    let raw: (usize, usize) = match motion {
        Motion::Char(drow, dcol) => {
            return char_move(term, at, drow, dcol);
        },
        Motion::LineStart => (at.0, 0),
        Motion::LineFirstNonBlank => (at.0, first_non_blank(term, at.0)),
        Motion::LineEnd => (at.0, last_non_blank(term, at.0)),
        Motion::DocStart => {
            term.scroll_view(isize::MAX);
            (0, at.1)
        },
        Motion::DocEnd => {
            term.reset_view();
            (rows - 1, at.1)
        },
        Motion::ScreenTop => (0, at.1),
        Motion::ScreenMiddle => (rows / 2, at.1),
        Motion::ScreenBottom => (rows - 1, at.1),
        Motion::HalfPageUp => {
            term.scroll_view((rows / 2) as isize);
            at
        },
        Motion::HalfPageDown => {
            term.scroll_view(-((rows / 2) as isize));
            at
        },
        Motion::FullPageUp => {
            term.scroll_view((rows - 1) as isize);
            at
        },
        Motion::FullPageDown => {
            term.scroll_view(-((rows - 1) as isize));
            at
        },
        Motion::WordNext { big } => word_next(term, at, big),
        Motion::WordEnd { big } => word_end(term, at, big),
        Motion::WordPrev { big } => word_prev(term, at, big),
    };
    (
        if raw.0 < rows {
            raw.0
        } else {
            rows - 1
        },
        if raw.1 < cols {
            raw.1
        } else if cols > 0 {
            cols - 1
        } else {
            0
        },
    )
}

/// Applies a motion `count` times, scrolling the view when it pushes past the
/// edge.
pub fn apply_motion(vi: &mut ViMode, term: &mut Term, motion: Motion, count: u32)
    requires
        old(term).wf(),
        old(term)@.screen().rows > 0,
        count > 0 && motion.reads() ==> in_view(old(term)@, old(vi).cursor),
    ensures
        final(term).wf(),
        final(term).history() == old(term).history(),
        ({
            let after = motion_steps(old(term)@, place(old(vi).cursor), motion, count as int);
            &&& final(term)@ == after.0
            &&& place(final(vi).cursor) == after.1
        }),
        *final(vi) == (ViMode { cursor: final(vi).cursor, ..*old(vi) }),
{
    let mut i: u32 = 0;
    while i < count
        invariant
            i <= count,
            term.wf(),
            term.history() == old(term).history(),
            *vi == (ViMode { cursor: vi.cursor, ..*old(vi) }),
            term@.screen().rows > 0,
            i < count && motion.reads() ==> in_view(term@, vi.cursor),
            term@ == motion_steps(old(term)@, place(old(vi).cursor), motion, i as int).0,
            place(vi.cursor) == motion_steps(
                old(term)@,
                place(old(vi).cursor),
                motion,
                i as int,
            ).1,
        decreases count - i,
    {
        let at = vi.cursor;
        vi.cursor = step(term, at, motion);
        i += 1;
    }
}

/// Whatever the motion, the vi cursor ends up on a cell of the view, and the
/// terminal changes in nothing but what part of it is in view.
pub proof fn law_motions_stay_in_view(t: TermModel, at: (int, int), motion: Motion, count: int)
    requires
        t.screen().rows > 0,
        t.screen().cols > 0,
        count > 0,
    ensures
        ({
            let after = motion_steps(t, at, motion, count);
            &&& 0 <= after.1.0 < t.screen().rows
            &&& 0 <= after.1.1 < t.screen().cols
            &&& after.0 == (TermModel { viewport_offset: after.0.viewport_offset, ..t })
        }),
    decreases count,
{
    let before = motion_steps(t, at, motion, count - 1);
    if count > 1 {
        law_motions_stay_in_view(t, at, motion, count - 1);
    }
    assert(before.0 == (TermModel { viewport_offset: before.0.viewport_offset, ..t }));
    lemma_step_stays_in_view(before.0, before.1, motion);
}

proof fn lemma_step_stays_in_view(t: TermModel, at: (int, int), motion: Motion)
    requires
        t.screen().rows > 0,
        t.screen().cols > 0,
    ensures
        ({
            let after = motion_step(t, at, motion);
            &&& 0 <= after.1.0 < t.screen().rows
            &&& 0 <= after.1.1 < t.screen().cols
            &&& after.0 == (TermModel { viewport_offset: after.0.viewport_offset, ..t })
        }),
{
}

/// Motions by words, and within a row or the screen, never scroll: at the edge
/// of the view they stop.
pub proof fn law_words_do_not_scroll(t: TermModel, at: (int, int), motion: Motion, count: int)
    requires
        motion.reads() || motion is LineStart || motion is ScreenTop || motion is ScreenMiddle
            || motion is ScreenBottom,
    ensures
        motion_steps(t, at, motion, count).0 == t,
    decreases count,
{
    if count > 0 {
        law_words_do_not_scroll(t, at, motion, count - 1);
    }
}

/// A step and the opposite step, in either order, is back where it began, as
/// long as the edge is not reached.
pub proof fn law_opposite_steps_cancel(t: TermModel, at: (int, int), drow: isize, dcol: isize)
    requires
        0 <= at.0 < t.screen().rows,
        0 <= at.1 < t.screen().cols,
        0 <= at.0 + drow < t.screen().rows,
        0 <= at.1 + dcol < t.screen().cols,
        -drow <= isize::MAX,
        -dcol <= isize::MAX,
    ensures
        ({
            let there = motion_step(t, at, Motion::Char(drow, dcol));
            motion_step(there.0, there.1, Motion::Char((-drow) as isize, (-dcol) as isize))
        }) == (t, at),
{
}

/// Skipping ends on a place of another class, or at the end of the view.
proof fn lemma_skip_forward_ends(t: TermModel, at: (int, int), class: WordClass, big: bool)
    requires
        at.0 < t.screen().rows,
    ensures
        ({
            let end = skip_forward(t, at, class, big);
            &&& end.0 ==> class_at(t, end.1, big) != class
            &&& !end.0 ==> next_cell(t, end.1) is None
            &&& end.1.0 < t.screen().rows
        }),
    decreases t.screen().rows - at.0, t.screen().cols - at.1,
{
    if class_at(t, at, big) == class {
        if let Some(next) = next_cell(t, at) {
            lemma_skip_forward_ends(t, next, class, big);
        }
    }
}

/// Going to the next word lands on a character that is not blank, or at the
/// end of the view where there is no further word.
pub proof fn law_next_word_is_a_word(t: TermModel, at: (int, int), big: bool)
    requires
        at.0 < t.screen().rows,
    ensures
        ({
            let end = word_next_of(t, at, big);
            class_at(t, end, big) != WordClass::Whitespace || next_cell(t, end) is None
        }),
{
    let class = class_at(t, at, big);
    if class == WordClass::Whitespace {
        lemma_skip_forward_ends(t, at, WordClass::Whitespace, big);
    } else {
        lemma_skip_forward_ends(t, at, class, big);
        let past = skip_forward(t, at, class, big);
        if past.0 {
            lemma_skip_forward_ends(t, past.1, WordClass::Whitespace, big);
        }
    }
}

} // verus!
