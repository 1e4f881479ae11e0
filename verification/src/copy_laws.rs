//! Which cells a selection or a range takes, and the text it makes of them.

use vstd::prelude::*;

use crate::grid::Cell;
use crate::motion;
use crate::motion_laws;
use crate::screen_laws;
use crate::search_laws;
use crate::selection;
use crate::selection::{Selection, SelectionMode};
use crate::term::TermModel;
use crate::text;
use crate::text_laws;
use crate::yank;

verus! {

/// A number lies between two others, in either order, or is one of them.
pub open spec fn between(x: usize, a: usize, b: usize) -> bool {
    a <= x <= b || b <= x <= a
}

/// A place comes before another in reading order, or is the same.
pub open spec fn not_after(a: (usize, usize), b: (usize, usize)) -> bool {
    a.0 < b.0 || (a.0 == b.0 && a.1 <= b.1)
}

/// A selection of text takes the cells between its two ends in reading order, one
/// of a block those of the rectangle between them, and no others.
pub proof fn law_selected_cells(sel: Selection, row: usize, col: usize)
    ensures
        sel.mode == SelectionMode::Char ==> (sel.covers(row, col) <==> {
            ||| not_after(sel.anchor, (row, col)) && not_after((row, col), sel.end)
            ||| not_after(sel.end, (row, col)) && not_after((row, col), sel.anchor)
        }),
        sel.mode == SelectionMode::Block ==> (sel.covers(row, col) <==> between(
            row,
            sel.anchor.0,
            sel.end.0,
        ) && between(col, sel.anchor.1, sel.end.1)),
{
}

/// The characters of a row from one column to another, both with it.
pub open spec fn written(cells: Seq<Cell>, from: int, to: int) -> Seq<char> {
    Seq::new((to - from + 1) as nat, |k: int| cells[from + k].ch)
}

/// A selection of text from one place to another.
pub open spec fn text_from(a: (usize, usize), b: (usize, usize)) -> Selection {
    Selection { anchor: a, end: b, dragging: false, mode: SelectionMode::Char }
}

/// A selection of the block between two corners.
pub open spec fn block_from(a: (usize, usize), b: (usize, usize)) -> Selection {
    Selection { anchor: a, end: b, dragging: false, mode: SelectionMode::Block }
}

/// Of one row, what is selected is copied character by character; as text without
/// the white space at its end, as a block with it.
pub proof fn law_a_selected_row_is_copied(t: TermModel, row: usize, from: usize, to: usize)
    requires
        t.wf(),
        row < screen_laws::in_use(t).rows,
        from <= to < screen_laws::in_use(t).cols,
        to < motion_laws::seen_row(t, row as int).len(),
    ensures
        ({
            let cells = motion_laws::seen_row(t, row as int);
            let chars = written(cells, from as int, to as int);
            &&& selection::selection_copy(t, text_from((row, from), (row, to))) == text::trim_end(
                chars,
            )
            &&& selection::selection_copy(t, block_from((row, from), (row, to))) == chars
        }),
{
    motion_laws::law_view_is_history_and_screen(t, row as int);
    let cells = motion_laws::seen_row(t, row as int);
    let chars = written(cells, from as int, to as int);
    assert(selection::chars_in(cells.subrange(from as int, to + 1)) =~= chars);
    lemma_one_line(t, text_from((row, from), (row, to)));
    lemma_one_line(t, block_from((row, from), (row, to)));
}

proof fn lemma_one_line(t: TermModel, sel: Selection)
    requires
        sel.anchor.0 == sel.end.0,
    ensures
        selection::selected_text(t, sel) == selection::row_text(t, sel, sel.anchor.0 as int),
{
    let lines = Seq::new(
        (sel.bottom() - sel.top() + 1) as nat,
        |k: int| selection::row_text(t, sel, sel.top() + k),
    );
    assert(lines.len() == 1);
}

/// Of several rows, the first is copied from where the selection begins to its end,
/// the last up to where the selection ends, and those between as a whole, with a
/// line feed between each two.
pub proof fn law_selected_rows_are_copied(t: TermModel, a: (usize, usize), b: (usize, usize))
    requires
        t.wf(),
        a.0 < b.0 < screen_laws::in_use(t).rows,
        screen_laws::in_use(t).cols > 0,
    ensures
        ({
            let right = (screen_laws::in_use(t).cols - 1) as usize;
            let next = (a.0 + 1) as usize;
            selection::selection_copy(t, text_from(a, b)) == selection::selection_copy(
                t,
                text_from(a, (a.0, if a.1 <= right { right } else { a.1 })),
            ) + seq!['\n'] + selection::selection_copy(t, text_from((next, 0), b))
        }),
{
    let right = (screen_laws::in_use(t).cols - 1) as usize;
    let sel = text_from(a, b);
    let top = text_from(a, (a.0, if a.1 <= right { right } else { a.1 }));
    let rest = text_from(((a.0 + 1) as usize, 0), b);
    motion_laws::law_view_is_history_and_screen(t, a.0 as int);
    motion_laws::law_view_is_history_and_screen(t, b.0 as int);
    lemma_rows_split(t, sel, top, rest);
}

/// A block is copied row by row, with a line feed between each two.
pub proof fn law_a_block_is_copied(t: TermModel, a: (usize, usize), b: (usize, usize))
    requires
        t.wf(),
        a.0 < b.0 < screen_laws::in_use(t).rows,
    ensures
        ({
            let next = (a.0 + 1) as usize;
            selection::selection_copy(t, block_from(a, b)) == selection::selection_copy(
                t,
                block_from(a, (a.0, b.1)),
            ) + seq!['\n'] + selection::selection_copy(t, block_from((next, a.1), b))
        }),
{
    motion_laws::law_view_is_history_and_screen(t, a.0 as int);
    motion_laws::law_view_is_history_and_screen(t, b.0 as int);
    lemma_rows_split(
        t,
        block_from(a, b),
        block_from(a, (a.0, b.1)),
        block_from(((a.0 + 1) as usize, a.1), b),
    );
}

proof fn lemma_rows_split(t: TermModel, sel: Selection, top: Selection, rest: Selection)
    requires
        sel.anchor.0 < sel.end.0,
        top.anchor.0 == sel.anchor.0 == top.end.0,
        rest.anchor.0 == sel.anchor.0 + 1,
        rest.end.0 == sel.end.0,
        selection::row_text(t, sel, sel.anchor.0 as int) == selection::row_text(
            t,
            top,
            sel.anchor.0 as int,
        ),
        forall|r: int|
            sel.anchor.0 < r <= sel.end.0 ==> #[trigger] selection::row_text(t, sel, r)
                == selection::row_text(t, rest, r),
    ensures
        selection::selected_text(t, sel) == selection::selected_text(t, top) + seq!['\n']
            + selection::selected_text(t, rest),
{
    let first = selection::row_text(t, sel, sel.anchor.0 as int);
    let all = Seq::new(
        (sel.bottom() - sel.top() + 1) as nat,
        |k: int| selection::row_text(t, sel, sel.top() + k),
    );
    let others = Seq::new(
        (rest.bottom() - rest.top() + 1) as nat,
        |k: int| selection::row_text(t, rest, rest.top() + k),
    );
    assert forall|k: int| 0 <= k < all.len() implies all[k] == (seq![first] + others)[k] by {
        if k > 0 {
            assert(selection::row_text(t, sel, sel.anchor.0 + k) == selection::row_text(
                t,
                rest,
                sel.anchor.0 + k,
            ));
        }
    }
    assert(all =~= seq![first] + others);
    text_laws::law_lines_are_joined(first, others);
    lemma_one_line(t, top);
}

/// A double click picks the run of characters around the place that are not blank,
/// and no more; on a blank only its cell.
pub proof fn law_picked_word(
    t: TermModel,
    row: usize,
    col: usize,
    ends: ((usize, usize), (usize, usize)),
    i: int,
)
    requires
        t.wf(),
        row < screen_laws::in_use(t).rows,
        col < screen_laws::in_use(t).cols,
        selection::is_word_at(t, row, col, ends),
    ensures
        ({
            let cells = motion_laws::seen_row(t, row as int);
            let (a, b) = (ends.0.1 as int, ends.1.1 as int);
            let blank = motion_laws::blank(motion_laws::seen(t, (row as int, col as int)));
            &&& ends.0.0 == row && ends.1.0 == row
            &&& blank ==> a == col && b == col
            &&& !blank ==> {
                &&& a <= col <= b < cells.len()
                &&& a <= i <= b ==> !motion_laws::blank(cells[i].ch)
                &&& a > 0 ==> motion_laws::blank(cells[a - 1].ch)
                &&& b + 1 < cells.len() && b + 1 < screen_laws::in_use(t).cols
                    ==> motion_laws::blank(cells[b + 1].ch)
            }
        }),
{
    motion_laws::law_view_is_history_and_screen(t, row as int);
}

/// In one row a range is copied character by character, without the white space
/// at its end. It does not matter which end comes first.
pub proof fn law_a_range_in_a_row_is_copied(t: TermModel, row: usize, from: usize, to: usize)
    requires
        t.wf(),
        row < search_laws::rows_of(t).len(),
        from <= to < screen_laws::in_use(t).cols,
        to < search_laws::rows_of(t)[row as int].len(),
    ensures
        ({
            let chars = written(search_laws::rows_of(t)[row as int], from as int, to as int);
            &&& yank::range_copy(t, (row, from), (row, to)) == text::trim_end(chars)
            &&& yank::range_copy(t, (row, to), (row, from)) == text::trim_end(chars)
        }),
{
    let cells = search_laws::rows_of(t)[row as int];
    let chars = written(cells, from as int, to as int);
    assert(t.all_rows() == search_laws::rows_of(t));
    assert(selection::chars_in(cells.subrange(from as int, to + 1)) =~= chars);
    let lines = yank::range_lines(t, (row, from), (row, to));
    assert(lines.len() == 1);
    assert(lines[0] == text::trim_end(chars));
    assert(yank::range_ok(t, (row, from), (row, to)));
    assert(yank::range_ok(t, (row, to), (row, from)));
}

/// A range over several rows is copied from its first place to the end of that row,
/// then the rows between, then the last row up to the last place, with a line feed
/// between each two.
pub proof fn law_a_range_of_rows_is_copied(t: TermModel, a: (usize, usize), b: (usize, usize))
    requires
        t.wf(),
        a.0 < b.0 < search_laws::rows_of(t).len(),
        a.1 < screen_laws::in_use(t).cols,
        b.1 < screen_laws::in_use(t).cols,
    ensures
        ({
            let right = (screen_laws::in_use(t).cols - 1) as usize;
            let next = (a.0 + 1) as usize;
            yank::range_copy(t, a, b) == yank::range_copy(t, a, (a.0, right)) + seq!['\n']
                + yank::range_copy(t, (next, 0), b)
        }),
{
    let right = (screen_laws::in_use(t).cols - 1) as usize;
    let next = ((a.0 + 1) as usize, 0usize);
    assert(t.all_rows() == search_laws::rows_of(t));
    let first = yank::range_line(t, a, b, a.0 as int);
    let all = yank::range_lines(t, a, b);
    let others = yank::range_lines(t, next, b);
    let top = yank::range_lines(t, a, (a.0, right));
    assert(top.len() == 1 && top[0] == first);
    assert forall|k: int| 0 <= k < all.len() implies all[k] == (seq![first] + others)[k] by {}
    assert(all =~= seq![first] + others);
    text_laws::law_lines_are_joined(first, others);
    assert(yank::range_ok(t, a, b));
    assert(yank::range_ok(t, a, (a.0, right)));
    assert(yank::range_ok(t, next, b));
}

/// A range that goes beyond the last row is copied to its end, with a line feed
/// after it.
pub proof fn law_a_range_beyond_the_end_is_copied(t: TermModel, a: (usize, usize), b: (usize, usize))
    requires
        t.wf(),
        a.0 < search_laws::rows_of(t).len() <= b.0,
        a.1 < screen_laws::in_use(t).cols,
        search_laws::rows_of(t).len() <= usize::MAX,
    ensures
        ({
            let right = (screen_laws::in_use(t).cols - 1) as usize;
            let last = (search_laws::rows_of(t).len() - 1) as usize;
            yank::range_copy(t, a, b) == yank::range_copy(t, a, (last, right)).push('\n')
        }),
{
    let right = (screen_laws::in_use(t).cols - 1) as usize;
    let last = (search_laws::rows_of(t).len() - 1) as usize;
    assert(t.all_rows() == search_laws::rows_of(t));
    assert(yank::range_lines(t, a, b) =~= yank::range_lines(t, a, (last, right)));
    assert(yank::range_ok(t, a, b));
    assert(yank::range_ok(t, a, (last, right)));
}

/// Two characters are of one kind: both are blank, or they go together in a word.
pub open spec fn alike(a: char, b: char, big: bool) -> bool {
    (motion_laws::blank(a) && motion_laws::blank(b)) || motion_laws::go_together(a, b, big)
}

proof fn lemma_alike(a: char, b: char, big: bool)
    ensures
        alike(a, b, big) <==> motion::class_of(a, big) == motion::class_of(b, big),
        motion_laws::blank(a) <==> motion::class_of(a, big) == motion::WordClass::Whitespace,
{
}

/// The inner object is the run of characters around the cursor that are of one
/// kind with the one under it, and no more.
pub proof fn law_inner_object(
    t: TermModel,
    cursor: (usize, usize),
    big: bool,
    ends: ((usize, usize), (usize, usize)),
    i: int,
)
    requires
        t.wf(),
        cursor.0 < screen_laws::in_use(t).rows,
        cursor.1 < motion_laws::seen_row(t, cursor.0 as int).len(),
        yank::is_inner_object(t, cursor, big, ends),
    ensures
        ({
            let cells = motion_laws::seen_row(t, cursor.0 as int);
            let (a, b) = (ends.0.1 as int, ends.1.1 as int);
            let here = cells[cursor.1 as int].ch;
            &&& ends.0.0 == cursor.0 && ends.1.0 == cursor.0
            &&& a <= cursor.1 <= b < cells.len()
            &&& a <= i <= b ==> alike(here, cells[i].ch, big)
            &&& a > 0 ==> !alike(here, cells[a - 1].ch, big)
            &&& b + 1 < cells.len() ==> !alike(here, cells[b + 1].ch, big)
        }),
{
    motion_laws::law_view_is_history_and_screen(t, cursor.0 as int);
    let cells = motion_laws::seen_row(t, cursor.0 as int);
    let (a, b) = (ends.0.1 as int, ends.1.1 as int);
    let here = cells[cursor.1 as int].ch;
    lemma_alike(here, cells[i].ch, big);
    lemma_alike(here, cells[a - 1].ch, big);
    lemma_alike(here, cells[b + 1].ch, big);
}

/// The outer object is the inner one with all blanks after it, or, where there are
/// none, with all blanks before it. Blanks under the cursor stand for themselves.
pub proof fn law_around_object(
    t: TermModel,
    cursor: (usize, usize),
    big: bool,
    inner: ((usize, usize), (usize, usize)),
    ends: ((usize, usize), (usize, usize)),
    i: int,
)
    requires
        t.wf(),
        cursor.0 < screen_laws::in_use(t).rows,
        cursor.1 < motion_laws::seen_row(t, cursor.0 as int).len(),
        yank::is_inner_object(t, cursor, big, inner),
        yank::is_around_object(t, cursor, big, ends),
    ensures
        ({
            let cells = motion_laws::seen_row(t, cursor.0 as int);
            let blank = |k: int| motion_laws::blank(cells[k].ch);
            let (a, b) = (inner.0.1 as int, inner.1.1 as int);
            let (from, to) = (ends.0.1 as int, ends.1.1 as int);
            let follow = b + 1 < cells.len() && blank(b + 1);
            &&& ends.0.0 == cursor.0 && ends.1.0 == cursor.0
            &&& 0 <= from <= a && b <= to < cells.len()
            &&& blank(cursor.1 as int) ==> from == a && to == b
            &&& !blank(cursor.1 as int) && follow ==> {
                &&& from == a
                &&& b < i <= to ==> blank(i)
                &&& to + 1 < cells.len() ==> !blank(to + 1)
                &&& to > b
            }
            &&& !blank(cursor.1 as int) && !follow ==> {
                &&& to == b
                &&& from <= i < a ==> blank(i)
                &&& from > 0 ==> !blank(from - 1)
            }
        }),
{
    motion_laws::law_view_is_history_and_screen(t, cursor.0 as int);
    yank::law_inner_object_is_unique(t, cursor, big, inner);
    let cells = motion_laws::seen_row(t, cursor.0 as int);
    let (a, b) = (inner.0.1 as int, inner.1.1 as int);
    let (from, to) = (ends.0.1 as int, ends.1.1 as int);
    law_inner_object(t, cursor, big, inner, a);
    lemma_alike(cells[cursor.1 as int].ch, cells[a].ch, big);
    lemma_alike(cells[a].ch, cells[a].ch, big);
    lemma_alike(cells[b + 1].ch, cells[a].ch, big);
    lemma_alike(cells[i].ch, cells[a].ch, big);
    lemma_alike(cells[to + 1].ch, cells[a].ch, big);
    lemma_alike(cells[from - 1].ch, cells[a].ch, big);
}

/// Nothing is copied from beyond the right edge of the screen, nor from beyond the end
/// of a shorter row of the history: what reaches further ends there, and what begins
/// there is empty.
pub proof fn law_nothing_is_copied_beyond_the_edge(
    t: TermModel,
    row: usize,
    from: usize,
    to: usize,
)
    requires
        t.wf(),
        from <= to,
    ensures
        ({
            let cells = search_laws::rows_of(t)[row as int];
            let cols = screen_laws::in_use(t).cols;
            let edge = if cells.len() < cols {
                cells.len() - 1
            } else {
                cols - 1
            };
            let copied = yank::range_copy(t, (row, from), (row, to));
            &&& row < search_laws::rows_of(t).len() && from <= edge <= to ==> copied
                == text::trim_end(written(cells, from as int, edge))
            &&& row < search_laws::rows_of(t).len() && from > edge ==> copied.len() == 0
        }),
        ({
            let cells = motion_laws::seen_row(t, row as int);
            let cols = screen_laws::in_use(t).cols;
            let edge = if cells.len() < cols {
                cells.len() - 1
            } else {
                cols - 1
            };
            let copied = selection::selection_copy(t, text_from((row, from), (row, to)));
            let block = selection::selection_copy(t, block_from((row, from), (row, to)));
            &&& row < screen_laws::in_use(t).rows && from <= edge <= to ==> {
                &&& copied == text::trim_end(written(cells, from as int, edge))
                &&& block == written(cells, from as int, edge)
            }
            &&& row < screen_laws::in_use(t).rows && from > edge ==> copied.len() == 0 && block.len() == 0
        }),
{
    lemma_range_beyond(t, row, from, to);
    if row < screen_laws::in_use(t).rows {
        lemma_selection_beyond(t, row, from, to);
    }
}

proof fn lemma_nothing_to_trim()
    ensures
        text::trim_end(Seq::<char>::empty()).len() == 0,
{
}

proof fn lemma_range_beyond(t: TermModel, row: usize, from: usize, to: usize)
    requires
        t.wf(),
        from <= to,
    ensures
        ({
            let cells = search_laws::rows_of(t)[row as int];
            let cols = screen_laws::in_use(t).cols;
            let edge = if cells.len() < cols {
                cells.len() - 1
            } else {
                cols - 1
            };
            let copied = yank::range_copy(t, (row, from), (row, to));
            &&& row < search_laws::rows_of(t).len() && from <= edge <= to ==> copied
                == text::trim_end(written(cells, from as int, edge))
            &&& row < search_laws::rows_of(t).len() && from > edge ==> copied.len() == 0
        }),
{
    assert(t.all_rows() == search_laws::rows_of(t));
    if row < search_laws::rows_of(t).len() {
        let cells = search_laws::rows_of(t)[row as int];
        let cols = screen_laws::in_use(t).cols;
        let edge = if cells.len() < cols {
            cells.len() - 1
        } else {
            cols - 1
        };
        let lines = yank::range_lines(t, (row, from), (row, to));
        assert(lines.len() == 1);
        lemma_nothing_to_trim();
        if from <= edge <= to {
            let chars = written(cells, from as int, edge);
            assert(selection::chars_in(cells.subrange(from as int, edge + 1)) =~= chars);
            assert(lines[0] == text::trim_end(chars));
            assert(yank::range_ok(t, (row, from), (row, to)));
        } else if from > edge {
            if yank::range_ok(t, (row, from), (row, to)) && from < cells.len() {
                assert(t.all_rows()[row as int] == cells);
                assert(selection::chars_in(cells.subrange(from as int, from as int))
                    =~= Seq::<char>::empty());
            }
        }
    }
}

proof fn lemma_selection_beyond(t: TermModel, row: usize, from: usize, to: usize)
    requires
        t.wf(),
        row < screen_laws::in_use(t).rows,
        from <= to,
    ensures
        ({
            let cells = motion_laws::seen_row(t, row as int);
            let cols = screen_laws::in_use(t).cols;
            let edge = if cells.len() < cols {
                cells.len() - 1
            } else {
                cols - 1
            };
            let copied = selection::selection_copy(t, text_from((row, from), (row, to)));
            let block = selection::selection_copy(t, block_from((row, from), (row, to)));
            &&& from <= edge <= to ==> {
                &&& copied == text::trim_end(written(cells, from as int, edge))
                &&& block == written(cells, from as int, edge)
            }
            &&& from > edge ==> copied.len() == 0 && block.len() == 0
        }),
{
    motion_laws::law_view_is_history_and_screen(t, row as int);
    let cells = motion_laws::seen_row(t, row as int);
    let cols = screen_laws::in_use(t).cols;
    let edge = if cells.len() < cols {
        cells.len() - 1
    } else {
        cols - 1
    };
    lemma_one_line(t, text_from((row, from), (row, to)));
    lemma_one_line(t, block_from((row, from), (row, to)));
    lemma_nothing_to_trim();
    if from <= edge <= to {
        let chars = written(cells, from as int, edge);
        assert(selection::chars_in(cells.subrange(from as int, edge + 1)) =~= chars);
    } else if from > edge {
        assert(selection::chars_in(cells.subrange(edge + 1, edge + 1)) =~= Seq::<char>::empty());
    }
}

} // verus!
