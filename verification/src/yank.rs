//! Ranges and text objects: rows counted through history and screen together,
//! the text between two places, and the words around the cursor.

use vstd::prelude::*;

use crate::grid;
use crate::grid::Cell;
use crate::motion;
use crate::motion::WordClass;
use crate::selection;
use crate::term::{Term, TermModel};
use crate::text;

verus! {

/// The row of the view as a row of history and screen together, if the view
/// were scrolled back by `offset`.
pub open spec fn absolute_of(t: TermModel, vrow: int, offset: int) -> int {
    TermModel { viewport_offset: offset, ..t }.viewport_top() + vrow
}

/// The row of the view as a row of history and screen together.
pub fn viewport_to_absolute(term: &Term, vrow: usize, viewport_offset: usize) -> (row: usize)
    requires
        term.wf(),
        vrow <= isize::MAX,
    ensures
        row == absolute_of(term@, vrow as int, viewport_offset as int),
{
    let history: usize = term.grid().scrollback.len();
    let top: usize = if viewport_offset < history {
        history - viewport_offset
    } else {
        0
    };
    top + vrow
}

/// A place in the view as a place in history and screen together.
pub fn cursor_to_absolute(term: &Term, cursor: (usize, usize)) -> (place: (usize, usize))
    requires
        term.wf(),
        cursor.0 <= isize::MAX,
    ensures
        place.0 == term@.viewport_top() + cursor.0,
        place.1 == cursor.1,
{
    let offset: usize = term.viewport_offset();
    (viewport_to_absolute(term, cursor.0, offset), cursor.1)
}

/// The earlier of two places.
pub open spec fn earlier(a: (usize, usize), b: (usize, usize)) -> (usize, usize) {
    if selection::reads_before(a, b) {
        a
    } else {
        b
    }
}

/// The later of two places.
pub open spec fn later(a: (usize, usize), b: (usize, usize)) -> (usize, usize) {
    if selection::reads_before(a, b) {
        b
    } else {
        a
    }
}

/// The columns `from..to` that a range takes of a row.
pub open spec fn range_span(
    first: (usize, usize),
    last: (usize, usize),
    cols: int,
    row: int,
    len: int,
) -> (int, int) {
    (
        if row == first.0 {
            first.1 as int
        } else {
            0
        },
        grid::min_int(
            if row == last.0 {
                grid::min_int(last.1 + 1, cols)
            } else {
                cols
            },
            len,
        ),
    )
}

/// What a range takes of a row, without the white space at its end. A row too
/// short to reach the range gives nothing.
pub open spec fn range_line(
    t: TermModel,
    first: (usize, usize),
    last: (usize, usize),
    row: int,
) -> Seq<char> {
    let cells = t.all_rows()[row];
    let span = range_span(first, last, t.screen().cols, row, cells.len() as int);
    if span.0 >= cells.len() {
        Seq::empty()
    } else {
        text::trim_end(selection::chars_in(cells.subrange(span.0, span.1)))
    }
}

/// The lines of a range that exist.
pub open spec fn range_lines(t: TermModel, first: (usize, usize), last: (usize, usize)) -> Seq<
    Seq<char>,
> {
    let end = grid::min_int(last.0 + 1, t.all_rows().len() as int);
    Seq::new(
        (if end > first.0 {
            end - first.0
        } else {
            0
        }) as nat,
        |k: int| range_line(t, first, last, first.0 + k),
    )
}

/// The text of a range, given by two places in either order. A range that
/// ends below the last row ends with a line feed.
pub open spec fn range_text(t: TermModel, start: (usize, usize), end: (usize, usize)) -> Seq<char> {
    let first = earlier(start, end);
    let last = later(start, end);
    let lines = range_lines(t, first, last);
    if lines.len() > 0 && last.0 >= t.all_rows().len() {
        text::join_lines(lines).push('\n')
    } else {
        text::join_lines(lines)
    }
}

/// In every row that the range reaches, it begins before it ends.
pub open spec fn range_ok(t: TermModel, start: (usize, usize), end: (usize, usize)) -> bool {
    let first = earlier(start, end);
    let last = later(start, end);
    forall|row: int|
        first.0 <= row <= last.0 && row < t.all_rows().len() ==> {
            let cells = #[trigger] t.all_rows()[row];
            let span = range_span(first, last, t.screen().cols, row, cells.len() as int);
            span.0 >= cells.len() || span.0 <= span.1
        }
}

/// Whether a range can be taken; see [`range_ok`].
pub fn range_fits(term: &Term, start: (usize, usize), end: (usize, usize)) -> (fits: bool)
    requires
        term.wf(),
    ensures
        fits == range_ok(term@, start, end),
{
    let in_order: bool = start.0 < end.0 || (start.0 == end.0 && start.1 <= end.1);
    let (first, last) = if in_order {
        (start, end)
    } else {
        (end, start)
    };
    let g = term.grid();
    let history: usize = g.scrollback.len();
    let total: usize = history + g.lines.len();
    let cols: usize = g.cols;
    let ghost t = term@;
    let mut row: usize = first.0;
    while row <= last.0 && row < total
        invariant
            term.wf(),
            t == term@,
            g@ == t.screen(),
            first == earlier(start, end),
            last == later(start, end),
            history == t.screen().scrollback.len(),
            total == t.all_rows().len(),
            cols == t.screen().cols,
            first.0 <= row,
            forall|r: int|
                first.0 <= r < row && r < total ==> {
                    let cells = #[trigger] t.all_rows()[r];
                    let span = range_span(first, last, t.screen().cols, r, cells.len() as int);
                    span.0 >= cells.len() || span.0 <= span.1
                },
        decreases total - row,
    {
        let cells = if row < history {
            g.scrollback[row].cells.as_slice()
        } else {
            g.lines[row - history].cells.as_slice()
        };
        assert(cells@ == t.all_rows()[row as int]);
        let from: usize = if row == first.0 {
            first.1
        } else {
            0
        };
        let wide: usize = if row == last.0 && last.1 < cols {
            last.1 + 1
        } else {
            cols
        };
        if from < cells.len() && from > wide {
            return false;
        }
        row += 1;
    }
    true
}

/// The text of a range; nothing where it cannot be taken.
pub open spec fn range_copy(t: TermModel, start: (usize, usize), end: (usize, usize)) -> Seq<char> {
    if range_ok(t, start, end) {
        range_text(t, start, end)
    } else {
        Seq::empty()
    }
}

/// The text to copy for a range, if there is any.
pub fn copy_range(term: &Term, start: (usize, usize), end: (usize, usize)) -> (out: String)
    requires
        term.wf(),
    ensures
        out@ == range_copy(term@, start, end),
{
    if range_fits(term, start, end) {
        extract_absolute_range(term, start, end)
    } else {
        String::new()
    }
}

/// The characters `from..to` of a row of cells.
fn chars_between(cells: &[Cell], from: usize, to: usize) -> (chars: Vec<char>)
    requires
        from <= to <= cells@.len(),
    ensures
        chars@ == selection::chars_in(cells@.subrange(from as int, to as int)),
{
    let mut chars: Vec<char> = Vec::new();
    let mut i: usize = from;
    while i < to
        invariant
            from <= i <= to <= cells@.len(),
            chars@.len() == i - from,
            forall|k: int| 0 <= k < i - from ==> chars@[k] == cells@[from + k].ch,
        decreases to - i,
    {
        chars.push(cells[i].ch);
        i += 1;
    }
    assert(chars@ =~= selection::chars_in(cells@.subrange(from as int, to as int)));
    chars
}

/// Appends what a range takes of a row.
fn push_range_line(
    out: &mut String,
    cells: &[Cell],
    first: (usize, usize),
    last: (usize, usize),
    cols: usize,
    row: usize,
)
    requires
        ({
            let span = range_span(first, last, cols as int, row as int, cells@.len() as int);
            span.0 >= cells@.len() || span.0 <= span.1
        }),
    ensures
        ({
            let span = range_span(first, last, cols as int, row as int, cells@.len() as int);
            final(out)@ == old(out)@ + (if span.0 >= cells@.len() {
                Seq::empty()
            } else {
                text::trim_end(selection::chars_in(cells@.subrange(span.0, span.1)))
            })
        }),
{
    let from: usize = if row == first.0 {
        first.1
    } else {
        0
    };
    if from >= cells.len() {
        assert(out@ =~= old(out)@ + Seq::<char>::empty());
        return ;
    }
    let wide: usize = if row == last.0 && last.1 < cols {
        last.1 + 1
    } else {
        cols
    };
    let to: usize = if wide < cells.len() {
        wide
    } else {
        cells.len()
    };
    let chars = chars_between(cells, from, to);
    let n: usize = text::trimmed_len(chars.as_slice());
    text::push_chars(out, vstd::slice::slice_subrange(chars.as_slice(), 0, n));
    assert(chars@.subrange(0, n as int) =~= chars@.take(n as int));
}

/// The text between two places, given in either order. Rows count history and
/// screen together, so that scrolling in between does not matter.
pub fn extract_absolute_range(term: &Term, start: (usize, usize), end: (usize, usize)) -> (out:
    String)
    requires
        term.wf(),
        range_ok(term@, start, end),
    ensures
        out@ == range_text(term@, start, end),
{
    let in_order: bool = start.0 < end.0 || (start.0 == end.0 && start.1 <= end.1);
    let (first, last) = if in_order {
        (start, end)
    } else {
        (end, start)
    };
    let g = term.grid();
    let history: usize = g.scrollback.len();
    let total: usize = history + g.lines.len();
    let cols: usize = g.cols;
    let ghost t = term@;
    let ghost lines = range_lines(t, first, last);
    let mut out = String::new();
    let mut row: usize = first.0;
    while row <= last.0 && row < total
        invariant
            term.wf(),
            t == term@,
            g@ == t.screen(),
            first == earlier(start, end),
            last == later(start, end),
            range_ok(t, start, end),
            history == t.screen().scrollback.len(),
            total == t.all_rows().len(),
            cols == t.screen().cols,
            lines == range_lines(t, first, last),
            first.0 <= row,
            row == first.0 || row <= total,
            row <= last.0 + 1,
            row == first.0 ==> out@ == Seq::<char>::empty(),
            first.0 < row <= last.0 ==> out@ == text::join_lines(
                lines.take(row - first.0),
            ).push('\n'),
            first.0 < row && row > last.0 ==> out@ == text::join_lines(lines),
        decreases last.0 + 1 - row,
    {
        let cells = if row < history {
            g.scrollback[row].cells.as_slice()
        } else {
            g.lines[row - history].cells.as_slice()
        };
        assert(cells@ == t.all_rows()[row as int]);
        push_range_line(&mut out, cells, first, last, cols, row);
        proof {
            let upto = lines.take(row - first.0 + 1);
            assert(lines[row - first.0] == range_line(t, first, last, row as int));
            assert(upto.drop_last() =~= lines.take(row - first.0));
            assert(out@ =~= text::join_lines(upto));
            if row == last.0 {
                assert(upto =~= lines);
            }
        }
        if row < last.0 {
            out.push('\n');
        }
        row += 1;
    }
    proof {
        if first.0 >= total {
            assert(lines.len() == 0);
        } else if last.0 >= total {
            assert(row == total);
            assert(lines.take(row - first.0) =~= lines);
        }
    }
    out
}

/// `start..=end` is the longest run of one class around `col`.
pub open spec fn is_class_run(cells: Seq<Cell>, col: int, big: bool, start: int, end: int) -> bool {
    let class = motion::class_of(cells[col].ch, big);
    &&& 0 <= start <= col <= end < cells.len()
    &&& forall|i: int|
        start <= i <= end ==> motion::class_of((#[trigger] cells[i]).ch, big) == class
    &&& start > 0 ==> motion::class_of(cells[start - 1].ch, big) != class
    &&& end + 1 < cells.len() ==> motion::class_of(cells[end + 1].ch, big) != class
}

/// The column of a row that stands for `col`: the last one where the row is
/// shorter.
pub open spec fn column_in(cells: Seq<Cell>, col: int) -> int {
    grid::min_int(col, cells.len() - 1)
}

/// `ends` is the word, or the run of blanks or of punctuation, under the
/// cursor; the cursor itself on a row without cells.
pub open spec fn is_inner_object(
    t: TermModel,
    cursor: (usize, usize),
    big: bool,
    ends: ((usize, usize), (usize, usize)),
) -> bool {
    let cells = selection::view_row(t, cursor.0 as int);
    &&& ends.0.0 == cursor.0
    &&& ends.1.0 == cursor.0
    &&& cells.len() == 0 ==> ends == (cursor, cursor)
    &&& cells.len() > 0 ==> is_class_run(
        cells,
        column_in(cells, cursor.1 as int),
        big,
        ends.0.1 as int,
        ends.1.1 as int,
    )
}

/// The word, or the run of blanks or of punctuation, under the cursor.
pub open spec fn inner_object(t: TermModel, cursor: (usize, usize), big: bool) -> (
    (usize, usize),
    (usize, usize),
) {
    choose|ends: ((usize, usize), (usize, usize))| is_inner_object(t, cursor, big, ends)
}

proof fn lemma_class_run_is_unique(
    cells: Seq<Cell>,
    col: int,
    big: bool,
    a: (int, int),
    b: (int, int),
)
    requires
        is_class_run(cells, col, big, a.0, a.1),
        is_class_run(cells, col, big, b.0, b.1),
    ensures
        a == b,
{
    let class = motion::class_of(cells[col].ch, big);
    if a.0 < b.0 {
        assert(motion::class_of(cells[b.0 - 1].ch, big) == class);
    }
    if b.0 < a.0 {
        assert(motion::class_of(cells[a.0 - 1].ch, big) == class);
    }
    if a.1 < b.1 {
        assert(motion::class_of(cells[a.1 + 1].ch, big) == class);
    }
    if b.1 < a.1 {
        assert(motion::class_of(cells[b.1 + 1].ch, big) == class);
    }
}

/// There is only one inner object under a cursor.
pub proof fn law_inner_object_is_unique(
    t: TermModel,
    cursor: (usize, usize),
    big: bool,
    ends: ((usize, usize), (usize, usize)),
)
    requires
        is_inner_object(t, cursor, big, ends),
    ensures
        ends == inner_object(t, cursor, big),
{
    let other = inner_object(t, cursor, big);
    let cells = selection::view_row(t, cursor.0 as int);
    assert(is_inner_object(t, cursor, big, other));
    if cells.len() > 0 {
        lemma_class_run_is_unique(
            cells,
            column_in(cells, cursor.1 as int),
            big,
            (ends.0.1 as int, ends.1.1 as int),
            (other.0.1 as int, other.1.1 as int),
        );
    }
}

/// The word, or the run of blanks or of punctuation, under the cursor.
pub fn inner_word_bounds(term: &Term, cursor: (usize, usize), big: bool) -> (ends: (
    (usize, usize),
    (usize, usize),
))
    requires
        term.wf(),
        selection::row_in_view(term@, cursor.0 as int),
    ensures
        is_inner_object(term@, cursor, big, ends),
        ends == inner_object(term@, cursor, big),
{
    let row: usize = cursor.0;
    let cells = &term.viewport_row(row).cells;
    if cells.len() == 0 {
        proof {
            law_inner_object_is_unique(term@, cursor, big, (cursor, cursor));
        }
        return (cursor, cursor);
    }
    let col: usize = if cursor.1 < cells.len() {
        cursor.1
    } else {
        cells.len() - 1
    };
    let class = motion::classify(cells[col].ch, big);
    let mut start: usize = col;
    while start > 0 && motion::classify(cells[start - 1].ch, big) == class
        invariant
            start <= col < cells@.len(),
            forall|i: int|
                start <= i <= col ==> motion::class_of((#[trigger] cells@[i]).ch, big) == class,
        decreases start,
    {
        start -= 1;
    }
    let mut end: usize = col;
    while end < cells.len() - 1 && motion::classify(cells[end + 1].ch, big) == class
        invariant
            start <= col <= end < cells@.len(),
            forall|i: int|
                start <= i <= end ==> motion::class_of((#[trigger] cells@[i]).ch, big) == class,
        decreases cells@.len() - end,
    {
        end += 1;
    }
    proof {
        law_inner_object_is_unique(term@, cursor, big, ((row, start), (row, end)));
    }
    ((row, start), (row, end))
}

/// The range `start..=end` holds only blanks of its line.
pub open spec fn all_blank(cells: Seq<Cell>, big: bool, start: int, end: int) -> bool {
    forall|i: int|
        start <= i <= end ==> motion::class_of((#[trigger] cells[i]).ch, big)
            == WordClass::Whitespace
}

/// `start..=end` is the run `inner` together with all blanks after it, or,
/// where there are none, with all blanks before it. A run of blanks stands for
/// itself.
pub open spec fn is_around(
    cells: Seq<Cell>,
    big: bool,
    inner: (int, int),
    start: int,
    end: int,
) -> bool {
    if motion::class_of(cells[inner.0].ch, big) == WordClass::Whitespace {
        start == inner.0 && end == inner.1
    } else if inner.1 + 1 < cells.len() && motion::class_of(cells[inner.1 + 1].ch, big)
        == WordClass::Whitespace {
        &&& start == inner.0
        &&& inner.1 < end < cells.len()
        &&& all_blank(cells, big, inner.1 + 1, end)
        &&& end + 1 < cells.len() ==> motion::class_of(cells[end + 1].ch, big)
            != WordClass::Whitespace
    } else {
        &&& end == inner.1
        &&& 0 <= start <= inner.0
        &&& all_blank(cells, big, start, inner.0 - 1)
        &&& start > 0 ==> motion::class_of(cells[start - 1].ch, big) != WordClass::Whitespace
    }
}

/// `ends` is the object under the cursor with the blanks on one side of it.
pub open spec fn is_around_object(
    t: TermModel,
    cursor: (usize, usize),
    big: bool,
    ends: ((usize, usize), (usize, usize)),
) -> bool {
    let cells = selection::view_row(t, cursor.0 as int);
    let inner = inner_object(t, cursor, big);
    &&& ends.0.0 == cursor.0
    &&& ends.1.0 == cursor.0
    &&& cells.len() == 0 ==> ends == (cursor, cursor)
    &&& cells.len() > 0 ==> is_around(
        cells,
        big,
        (inner.0.1 as int, inner.1.1 as int),
        ends.0.1 as int,
        ends.1.1 as int,
    )
}

/// The object under the cursor with the blanks on one side of it.
pub open spec fn around_object(t: TermModel, cursor: (usize, usize), big: bool) -> (
    (usize, usize),
    (usize, usize),
) {
    choose|ends: ((usize, usize), (usize, usize))| is_around_object(t, cursor, big, ends)
}

/// There is only one such object around a cursor.
pub proof fn law_around_object_is_unique(
    t: TermModel,
    cursor: (usize, usize),
    big: bool,
    ends: ((usize, usize), (usize, usize)),
)
    requires
        is_around_object(t, cursor, big, ends),
    ensures
        ends == around_object(t, cursor, big),
{
    let other = around_object(t, cursor, big);
    let cells = selection::view_row(t, cursor.0 as int);
    let inner = inner_object(t, cursor, big);
    assert(is_around_object(t, cursor, big, other));
    if cells.len() > 0 {
        let blank = |i: int| motion::class_of(cells[i].ch, big) == WordClass::Whitespace;
        if ends.1.1 < other.1.1 {
            assert(blank(ends.1.1 + 1));
        }
        if other.1.1 < ends.1.1 {
            assert(blank(other.1.1 + 1));
        }
        if ends.0.1 < other.0.1 {
            assert(blank(other.0.1 - 1));
        }
        if other.0.1 < ends.0.1 {
            assert(blank(ends.0.1 - 1));
        }
    }
}

/// The word under the cursor with the blanks on one side of it.
pub fn around_word_bounds(term: &Term, cursor: (usize, usize), big: bool) -> (ends: (
    (usize, usize),
    (usize, usize),
))
    requires
        term.wf(),
        selection::row_in_view(term@, cursor.0 as int),
    ensures
        is_around_object(term@, cursor, big, ends),
        ends == around_object(term@, cursor, big),
{
    let (inner_start, inner_end) = inner_word_bounds(term, cursor, big);
    let row: usize = cursor.0;
    let cells = &term.viewport_row(row).cells;
    if cells.len() == 0 {
        proof {
            law_around_object_is_unique(term@, cursor, big, (inner_start, inner_end));
        }
        return (inner_start, inner_end);
    }
    let mut start: usize = inner_start.1;
    let mut end: usize = inner_end.1;
    if motion::classify(cells[start].ch, big) == WordClass::Whitespace {
        proof {
            law_around_object_is_unique(term@, cursor, big, (inner_start, inner_end));
        }
        return (inner_start, inner_end);
    }
    while end < cells.len() - 1 && motion::classify(cells[end + 1].ch, big)
        == WordClass::Whitespace
        invariant
            inner_end.1 <= end < cells@.len(),
            all_blank(cells@, big, inner_end.1 + 1, end as int),
        decreases cells@.len() - end,
    {
        end += 1;
    }
    if end == inner_end.1 {
        while start > 0 && motion::classify(cells[start - 1].ch, big) == WordClass::Whitespace
            invariant
                start <= inner_start.1 < cells@.len(),
                all_blank(cells@, big, start as int, inner_start.1 - 1),
            decreases start,
        {
            start -= 1;
        }
    }
    proof {
        law_around_object_is_unique(term@, cursor, big, ((row, start), (row, end)));
    }
    ((row, start), (row, end))
}

/// The view scrolled, where needed, so that a row of history and screen
/// together is in it. A row that was out of sight ends up in the middle.
pub open spec fn jumped(t: TermModel, row: int, view_rows: int) -> TermModel {
    let top = t.viewport_top();
    let history = t.screen().scrollback.len() as int;
    if top <= row < top + view_rows {
        t
    } else {
        let target = if row > view_rows / 2 {
            row - view_rows / 2
        } else {
            0
        };
        let offset = if history > target {
            history - target
        } else {
            0
        };
        t.scroll_view(offset - t.viewport_offset)
    }
}

/// Brings a row into view and returns where in the view it is.
pub fn jump_viewport_to(term: &mut Term, match_row: usize, view_rows: usize) -> (vrow: usize)
    requires
        old(term).wf(),
        view_rows <= grid::dim_limit(),
    ensures
        final(term).wf(),
        final(term).history() == old(term).history(),
        final(term)@ == jumped(old(term)@, match_row as int, view_rows as int),
        vrow == (if match_row >= final(term)@.viewport_top() {
            match_row - final(term)@.viewport_top()
        } else {
            0
        }),
{
    let history: usize = term.grid().scrollback.len();
    let offset: usize = term.viewport_offset();
    let top: usize = if offset < history {
        history - offset
    } else {
        0
    };
    if match_row < top || match_row >= top + view_rows {
        let target: usize = if match_row > view_rows / 2 {
            match_row - view_rows / 2
        } else {
            0
        };
        let wanted: usize = if history > target {
            history - target
        } else {
            0
        };
        term.scroll_view(wanted as isize - offset as isize);
    }
    let after: usize = term.viewport_offset();
    let new_top: usize = if after < history {
        history - after
    } else {
        0
    };
    if match_row >= new_top {
        match_row - new_top
    } else {
        0
    }
}

/// After jumping to a row that exists, that row is in view.
pub proof fn law_jump_brings_row_into_view(t: TermModel, row: int)
    requires
        t.wf(),
        t.screen().rows > 0,
        0 <= row < t.all_rows().len(),
    ensures
        ({
            let after = jumped(t, row, t.screen().rows);
            after.viewport_top() <= row < after.viewport_top() + t.screen().rows
        }),
{
}

/// The text of a range does not depend on the order of its ends.
pub proof fn law_range_ends_can_be_swapped(t: TermModel, a: (usize, usize), b: (usize, usize))
    ensures
        range_text(t, a, b) == range_text(t, b, a),
{
}

} // verus!
