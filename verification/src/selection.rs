//! Mouse and visual-mode selections, and the text they cover.

use vstd::prelude::*;

use crate::grid::Cell;
use crate::grid::Row;
use crate::term::{Term, TermModel};
use crate::text;

verus! {

/// What region a selection covers. `Char` is the run of cells from one end to
/// the other in reading order, `Block` the rectangle between two corners.
#[derive(Copy, Clone, Debug, PartialEq, Eq, Structural)]
pub enum SelectionMode {
    Char,
    Block,
}

impl Default for SelectionMode {
    fn default() -> (m: Self)
        ensures
            m == SelectionMode::Char,
    {
        SelectionMode::Char
    }
}

/// A selection in viewport coordinates. `anchor` is where it began, `end`
/// follows the pointer; either can come first.
#[derive(Copy, Clone, Debug, PartialEq, Eq)]
pub struct Selection {
    pub anchor: (usize, usize),
    pub end: (usize, usize),
    /// The mouse button is still held.
    pub dragging: bool,
    pub mode: SelectionMode,
}

/// Whether a cell comes before another in reading order, or is the same.
pub open spec fn reads_before(a: (usize, usize), b: (usize, usize)) -> bool {
    a.0 < b.0 || (a.0 == b.0 && a.1 <= b.1)
}

impl Selection {
    /// The end that comes first in reading order.
    pub open spec fn first(self) -> (usize, usize) {
        if reads_before(self.anchor, self.end) {
            self.anchor
        } else {
            self.end
        }
    }

    /// The end that comes last in reading order.
    pub open spec fn last(self) -> (usize, usize) {
        if reads_before(self.anchor, self.end) {
            self.end
        } else {
            self.anchor
        }
    }

    pub open spec fn top(self) -> usize {
        if self.anchor.0 <= self.end.0 {
            self.anchor.0
        } else {
            self.end.0
        }
    }

    pub open spec fn bottom(self) -> usize {
        if self.anchor.0 <= self.end.0 {
            self.end.0
        } else {
            self.anchor.0
        }
    }

    pub open spec fn left(self) -> usize {
        if self.anchor.1 <= self.end.1 {
            self.anchor.1
        } else {
            self.end.1
        }
    }

    pub open spec fn right(self) -> usize {
        if self.anchor.1 <= self.end.1 {
            self.end.1
        } else {
            self.anchor.1
        }
    }

    /// Whether a cell is selected.
    pub open spec fn covers(self, row: usize, col: usize) -> bool {
        match self.mode {
            SelectionMode::Char => reads_before(self.first(), (row, col)) && reads_before(
                (row, col),
                self.last(),
            ),
            SelectionMode::Block => self.top() <= row <= self.bottom() && self.left() <= col
                <= self.right(),
        }
    }

    /// A selection that begins with a single cell.
    pub fn new(at: (usize, usize)) -> (sel: Selection)
        ensures
            sel == (Selection { anchor: at, end: at, dragging: true, mode: SelectionMode::Char }),
    {
        Selection { anchor: at, end: at, dragging: true, mode: SelectionMode::Char }
    }

    /// Both ends in reading order.
    pub fn normalized(&self) -> (ends: ((usize, usize), (usize, usize)))
        ensures
            ends.0 == self.first(),
            ends.1 == self.last(),
    {
        if self.anchor.0 < self.end.0 || (self.anchor.0 == self.end.0 && self.anchor.1
            <= self.end.1) {
            (self.anchor, self.end)
        } else {
            (self.end, self.anchor)
        }
    }

    /// The top left and bottom right corners of the rectangle between the
    /// two ends.
    pub fn block_bounds(&self) -> (corners: ((usize, usize), (usize, usize)))
        ensures
            corners.0 == (self.top(), self.left()),
            corners.1 == (self.bottom(), self.right()),
    {
        let (r1, r2) = if self.anchor.0 <= self.end.0 {
            (self.anchor.0, self.end.0)
        } else {
            (self.end.0, self.anchor.0)
        };
        let (c1, c2) = if self.anchor.1 <= self.end.1 {
            (self.anchor.1, self.end.1)
        } else {
            (self.end.1, self.anchor.1)
        };
        ((r1, c1), (r2, c2))
    }

    /// Whether a cell is selected.
    pub fn contains(&self, row: usize, col: usize) -> (inside: bool)
        ensures
            inside == self.covers(row, col),
    {
        match self.mode {
            SelectionMode::Char => {
                let (first, last) = self.normalized();
                if row < first.0 || row > last.0 {
                    return false;
                }
                (row > first.0 || col >= first.1) && (row < last.0 || col <= last.1)
            },
            SelectionMode::Block => {
                let (top_left, bottom_right) = self.block_bounds();
                row >= top_left.0 && row <= bottom_right.0 && col >= top_left.1 && col
                    <= bottom_right.1
            },
        }
    }

    /// Both ends on one cell: a stray click, which selects nothing.
    pub fn is_empty(&self) -> (empty: bool)
        ensures
            empty == (self.anchor == self.end),
    {
        self.anchor.0 == self.end.0 && self.anchor.1 == self.end.1
    }
}

/// The characters of a row of cells.
pub open spec fn chars_in(cells: Seq<Cell>) -> Seq<char> {
    Seq::new(cells.len(), |i: int| cells[i].ch)
}

/// A character that belongs to a word under the mouse: anything but white
/// space, so that paths and addresses are picked as one.
pub open spec fn word_char(c: char) -> bool {
    !text::white_space(c) && c != '\0'
}

/// `start..=end` is the longest run around `col` of word characters, where
/// the run does not extend to `limit` or beyond.
pub open spec fn is_word_run(cells: Seq<Cell>, limit: int, col: int, start: int, end: int) -> bool {
    &&& 0 <= start <= col <= end < cells.len()
    &&& forall|i: int| start <= i <= end ==> word_char((#[trigger] cells[i]).ch)
    &&& start > 0 ==> !word_char(cells[start - 1].ch)
    &&& end == col || end < limit
    &&& end + 1 < limit && end + 1 < cells.len() ==> !word_char(cells[end + 1].ch)
}

/// Whether a mouse press on `col` picks a word.
pub open spec fn picks_word(cells: Seq<Cell>, col: int) -> bool {
    col < cells.len() && word_char(cells[col].ch)
}

fn is_word_char(c: char) -> (w: bool)
    ensures
        w == word_char(c),
{
    !text::is_white_space(c) && c != '\0'
}

/// The word around a column of a row, up to `limit`; the column alone where
/// there is no word.
fn word_run(cells: &[Cell], limit: usize, col: usize) -> (run: (usize, usize))
    ensures
        picks_word(cells@, col as int) ==> is_word_run(
            cells@,
            limit as int,
            col as int,
            run.0 as int,
            run.1 as int,
        ),
        !picks_word(cells@, col as int) ==> run == (col, col),
{
    if col >= cells.len() || !is_word_char(cells[col].ch) {
        return (col, col);
    }
    let mut start: usize = col;
    while start > 0 && is_word_char(cells[start - 1].ch)
        invariant
            start <= col < cells@.len(),
            forall|i: int| start <= i <= col ==> word_char((#[trigger] cells@[i]).ch),
        decreases start,
    {
        start -= 1;
    }
    let mut end: usize = col;
    while end < cells.len() - 1 && end + 1 < limit && is_word_char(cells[end + 1].ch)
        invariant
            start <= col <= end < cells@.len(),
            end == col || end < limit,
            forall|i: int| start <= i <= end ==> word_char((#[trigger] cells@[i]).ch),
        decreases cells@.len() - end,
    {
        end += 1;
    }
    (start, end)
}

/// The word around a column of a row; the column alone where there is none.
pub fn word_bounds_in_cells(cells: &[Cell], col: usize) -> (run: (usize, usize))
    ensures
        picks_word(cells@, col as int) ==> is_word_run(
            cells@,
            cells@.len() as int,
            col as int,
            run.0 as int,
            run.1 as int,
        ),
        !picks_word(cells@, col as int) ==> run == (col, col),
{
    let n: usize = cells.len();
    word_run(cells, n, col)
}

/// The cells in view at a row.
pub open spec fn view_row(t: TermModel, row: int) -> Seq<Cell> {
    t.all_rows()[t.viewport_top() + row]
}

/// Whether a row of the view exists.
pub open spec fn row_in_view(t: TermModel, row: int) -> bool {
    0 <= row && t.viewport_top() + row < t.all_rows().len()
}

/// `ends` is the word at a place in the view. White space picks only its own
/// cell.
pub open spec fn is_word_at(
    t: TermModel,
    row: usize,
    col: usize,
    ends: ((usize, usize), (usize, usize)),
) -> bool {
    let cells = view_row(t, row as int);
    &&& ends.0.0 == row
    &&& ends.1.0 == row
    &&& picks_word(cells, col as int) ==> is_word_run(
        cells,
        t.screen().cols,
        col as int,
        ends.0.1 as int,
        ends.1.1 as int,
    )
    &&& !picks_word(cells, col as int) ==> ends == ((row, col), (row, col))
}

/// The word at a place in the view.
pub open spec fn word_at(t: TermModel, row: usize, col: usize) -> (
    (usize, usize),
    (usize, usize),
) {
    choose|ends: ((usize, usize), (usize, usize))| is_word_at(t, row, col, ends)
}

/// There is only one word at a place.
pub proof fn law_word_is_unique(
    t: TermModel,
    row: usize,
    col: usize,
    ends: ((usize, usize), (usize, usize)),
)
    requires
        is_word_at(t, row, col, ends),
    ensures
        ends == word_at(t, row, col),
{
    let other = word_at(t, row, col);
    let cells = view_row(t, row as int);
    assert(is_word_at(t, row, col, other));
    if picks_word(cells, col as int) {
        if ends.0.1 < other.0.1 {
            assert(word_char(cells[other.0.1 - 1].ch));
        }
        if other.0.1 < ends.0.1 {
            assert(word_char(cells[ends.0.1 - 1].ch));
        }
        if ends.1.1 < other.1.1 {
            assert(word_char(cells[ends.1.1 + 1].ch));
        }
        if other.1.1 < ends.1.1 {
            assert(word_char(cells[other.1.1 + 1].ch));
        }
    }
}

/// The ends of the word at a place in the view. White space picks only its
/// own cell.
pub fn word_bounds(term: &Term, row: usize, col: usize) -> (ends: (
    (usize, usize),
    (usize, usize),
))
    requires
        term.wf(),
        row_in_view(term@, row as int),
    ensures
        is_word_at(term@, row, col, ends),
        ends == word_at(term@, row, col),
{
    let cells = &term.viewport_row(row).cells;
    let cols: usize = term.grid().cols;
    let (start, end) = word_run(cells.as_slice(), cols, col);
    proof {
        law_word_is_unique(term@, row, col, ((row, start), (row, end)));
    }
    ((row, start), (row, end))
}

/// The ends of a whole row.
pub fn line_bounds(term: &Term, row: usize) -> (ends: ((usize, usize), (usize, usize)))
    ensures
        ends.0 == (row, 0usize),
        ends.1.0 == row,
        ends.1.1 == (if term@.screen().cols > 0 {
            term@.screen().cols - 1
        } else {
            0
        }),
{
    let cols: usize = term.grid().cols;
    (
        (row, 0),
        (
            row,
            if cols > 0 {
                cols - 1
            } else {
                0
            },
        ),
    )
}

/// The columns `from..to` that a selection takes of a row of `n` cells, where
/// `from` is the first and `to` comes after the last. A row of the history can
/// be shorter than the screen is wide; the selection then ends with the row.
pub open spec fn span_of(sel: Selection, cols: int, n: int, row: int) -> (int, int) {
    let from = match sel.mode {
        SelectionMode::Char => if row == sel.first().0 {
            sel.first().1 as int
        } else {
            0
        },
        SelectionMode::Block => sel.left() as int,
    };
    let after = match sel.mode {
        SelectionMode::Char => if row == sel.last().0 {
            sel.last().1 + 1
        } else {
            cols
        },
        SelectionMode::Block => sel.right() + 1,
    };
    let to = crate::grid::min_int(after, crate::grid::min_int(cols, n));
    (crate::grid::min_int(from, to), to)
}

/// The selected part of a row. In `Char` mode the white space at its end is
/// dropped; in `Block` mode the columns keep their alignment.
pub open spec fn row_text(t: TermModel, sel: Selection, row: int) -> Seq<char> {
    let cells = view_row(t, row);
    let span = span_of(sel, t.screen().cols, cells.len() as int, row);
    let chars = chars_in(cells.subrange(span.0, span.1));
    match sel.mode {
        SelectionMode::Char => text::trim_end(chars),
        SelectionMode::Block => chars,
    }
}

/// The text that a selection covers, one line for each row.
pub open spec fn selected_text(t: TermModel, sel: Selection) -> Seq<char> {
    text::join_lines(
        Seq::new(
            (sel.bottom() - sel.top() + 1) as nat,
            |k: int| row_text(t, sel, sel.top() + k),
        ),
    )
}

/// All rows of a selection exist.
pub open spec fn selectable(t: TermModel, sel: Selection) -> bool {
    row_in_view(t, sel.bottom() as int)
}

/// The columns that a selection takes of a row of `n` cells; see [`span_of`].
fn span_at(sel: &Selection, cols: usize, n: usize, row: usize) -> (span: (usize, usize))
    ensures
        span.0 == span_of(*sel, cols as int, n as int, row as int).0,
        span.1 == span_of(*sel, cols as int, n as int, row as int).1,
        span.0 <= span.1 <= n,
{
    let limit: usize = if cols < n {
        cols
    } else {
        n
    };
    let (from, last): (usize, Option<usize>) = match sel.mode {
        SelectionMode::Char => {
            let (first, last) = sel.normalized();
            (
                if row == first.0 {
                    first.1
                } else {
                    0
                },
                if row == last.0 {
                    Some(last.1)
                } else {
                    None
                },
            )
        },
        SelectionMode::Block => {
            let (top_left, bottom_right) = sel.block_bounds();
            (top_left.1, Some(bottom_right.1))
        },
    };
    let to: usize = match last {
        Some(col) if col < limit => col + 1,
        _ => limit,
    };
    (
        if from < to {
            from
        } else {
            to
        },
        to,
    )
}

/// Whether all rows of a selection exist.
pub fn can_extract(term: &Term, sel: &Selection) -> (can: bool)
    requires
        term.wf(),
    ensures
        can == selectable(term@, *sel),
{
    let g = term.grid();
    let history: usize = g.scrollback.len();
    let total: usize = history + g.lines.len();
    let offset: usize = term.viewport_offset();
    let view_top: usize = if offset < history {
        history - offset
    } else {
        0
    };
    let (_, bottom_right) = sel.block_bounds();
    bottom_right.0 < total - view_top
}

/// The text of a selection; nothing where it reaches beyond the last row.
pub open spec fn selection_copy(t: TermModel, sel: Selection) -> Seq<char> {
    if selectable(t, sel) {
        selected_text(t, sel)
    } else {
        Seq::empty()
    }
}

/// The text to copy for a selection, if there is any.
pub fn copy_selection(term: &Term, sel: &Selection) -> (out: String)
    requires
        term.wf(),
    ensures
        out@ == selection_copy(term@, *sel),
{
    if can_extract(term, sel) {
        extract_text(term, sel)
    } else {
        String::new()
    }
}

/// The characters `from..to` of a row.
fn row_chars(row: &Row, from: usize, to: usize) -> (chars: Vec<char>)
    requires
        from <= to <= row.cells@.len(),
    ensures
        chars@ == chars_in(row.cells@.subrange(from as int, to as int)),
{
    let mut chars: Vec<char> = Vec::new();
    let mut i: usize = from;
    while i < to
        invariant
            from <= i <= to <= row.cells@.len(),
            chars@.len() == i - from,
            forall|k: int| 0 <= k < i - from ==> chars@[k] == row.cells@[from + k].ch,
        decreases to - i,
    {
        chars.push(row.cells[i].ch);
        i += 1;
    }
    assert(chars@ =~= chars_in(row.cells@.subrange(from as int, to as int)));
    chars
}

/// The text that a selection covers, also where it reaches into the history.
pub fn extract_text(term: &Term, sel: &Selection) -> (out: String)
    requires
        term.wf(),
        selectable(term@, *sel),
    ensures
        out@ == selected_text(term@, *sel),
{
    let cols: usize = term.grid().cols;
    let (top_left, bottom_right) = sel.block_bounds();
    let top: usize = top_left.0;
    let bottom: usize = bottom_right.0;
    let mut out = String::new();
    let mut row: usize = top;
    let ghost t = term@;
    let ghost lines = Seq::new(
        (bottom - top + 1) as nat,
        |k: int| row_text(t, *sel, top + k),
    );
    loop
        invariant_except_break
            row == top ==> out@ == Seq::<char>::empty(),
            row > top ==> out@ == text::join_lines(lines.take(row - top)).push('\n'),
        invariant
            term.wf(),
            t == term@,
            cols == t.screen().cols,
            selectable(t, *sel),
            top == sel.top(),
            bottom == sel.bottom(),
            top <= row <= bottom,
            lines == Seq::new((bottom - top + 1) as nat, |k: int| row_text(t, *sel, top + k)),
        ensures
            out@ == text::join_lines(lines),
        decreases bottom - row,
    {
        let cells = term.viewport_row(row);
        let (from, to): (usize, usize) = span_at(sel, cols, cells.cells.len(), row);
        let chars = row_chars(cells, from, to);
        let n: usize = match sel.mode {
            SelectionMode::Char => text::trimmed_len(chars.as_slice()),
            SelectionMode::Block => chars.len(),
        };
        let ghost before = out@;
        text::push_chars(&mut out, vstd::slice::slice_subrange(chars.as_slice(), 0, n));
        proof {
            assert(chars@.take(chars@.len() as int) =~= chars@);
            assert(chars@.subrange(0, n as int) =~= chars@.take(n as int));
            assert(lines[row - top] == row_text(t, *sel, row as int));
            let upto = lines.take(row - top + 1);
            assert(upto.drop_last() =~= lines.take(row - top));
            assert(out@ =~= text::join_lines(upto));
        }
        if row == bottom {
            assert(lines.take(row - top + 1) =~= lines);
            break ;
        }
        out.push('\n');
        row += 1;
    }
    out
}

/// It does not matter at which end a selection was begun.
pub proof fn law_selection_is_symmetric(sel: Selection, t: TermModel, row: usize, col: usize)
    ensures
        ({
            let turned = Selection { anchor: sel.end, end: sel.anchor, ..sel };
            &&& turned.covers(row, col) == sel.covers(row, col)
            &&& turned.first() == sel.first()
            &&& turned.last() == sel.last()
            &&& selected_text(t, turned) == selected_text(t, sel)
        }),
{
    let turned = Selection { anchor: sel.end, end: sel.anchor, ..sel };
    assert(Seq::new(
        (turned.bottom() - turned.top() + 1) as nat,
        |k: int| row_text(t, turned, turned.top() + k),
    ) =~= Seq::new(
        (sel.bottom() - sel.top() + 1) as nat,
        |k: int| row_text(t, sel, sel.top() + k),
    ));
}

/// Both ends of a selection are selected, and nothing outside the rows
/// between them is.
pub proof fn law_selection_covers_its_ends(sel: Selection, row: usize, col: usize)
    ensures
        sel.covers(sel.anchor.0, sel.anchor.1),
        sel.covers(sel.end.0, sel.end.1),
        sel.covers(row, col) ==> sel.top() <= row <= sel.bottom(),
{
}

} // verus!
