//! What an application's output does to the screen, sequence by sequence, in
//! terms of cells and of the place of the cursor.

use vstd::prelude::*;

use crate::grid::{Cell, CellAttrs, Color, CursorModel, CursorShape, GridModel, Pen};
use crate::term;
use crate::term::TermModel;
use crate::vt::VtAction;

verus! {

/// The number that a control sequence gives at a place; zero where it gives
/// none.
pub open spec fn given(params: Seq<Seq<u16>>, i: int) -> int {
    if 0 <= i < params.len() && params[i].len() > 0 {
        params[i][0] as int
    } else {
        0
    }
}

/// A count, or a place counted from one: where none is given, it is one.
pub open spec fn counted(params: Seq<Seq<u16>>, i: int) -> int {
    if given(params, i) == 0 {
        1
    } else {
        given(params, i)
    }
}

/// The nearest number between zero and `last`.
pub open spec fn limited(x: int, last: int) -> int {
    if x > last {
        last
    } else if x < 0 {
        0
    } else {
        x
    }
}

/// The screen that output goes to: the alternate one while there is one.
pub open spec fn in_use(t: TermModel) -> GridModel {
    if t.alt is Some {
        t.alt->0
    } else {
        t.primary
    }
}

/// Only the screen in use changed, to `g`.
pub open spec fn shows(t: TermModel, after: TermModel, g: GridModel) -> bool {
    if t.alt is Some {
        after == (TermModel { alt: Some(g), ..t })
    } else {
        after == (TermModel { primary: g, ..t })
    }
}

/// Only the place of the cursor changed, and no wrap is pending.
pub open spec fn moved_to(t: TermModel, after: TermModel, row: int, col: int) -> bool {
    let g = in_use(t);
    shows(
        t,
        after,
        GridModel { cursor: CursorModel { row, col, wrap_next: false, ..g.cursor }, ..g },
    )
}

/// The cell that erasing leaves: a space in the colours of the pen.
pub open spec fn erased(g: GridModel) -> Cell {
    Cell { ch: ' ', fg: g.pen.fg, bg: g.pen.bg, attrs: CellAttrs(0), width: 1 }
}

/// Two grids that differ at most in the cells on the screen.
pub open spec fn same_but_cells(g: GridModel, h: GridModel) -> bool {
    &&& h == (GridModel { lines: h.lines, ..g })
    &&& h.lines.len() == g.lines.len()
    &&& forall|r: int|
        0 <= r < g.lines.len() ==> (#[trigger] h.lines[r]).len() == g.lines[r].len()
}

/// The cell at a place of the screen in use.
pub open spec fn cell_at(t: TermModel, r: int, c: int) -> Cell {
    in_use(t).lines[r][c]
}

/// Only cells of the screen in use changed.
pub open spec fn repainted(t: TermModel, after: TermModel) -> bool {
    shows(t, after, in_use(after)) && same_but_cells(in_use(t), in_use(after))
}

/// The screen in use is well formed, and the cursor is on it.
pub open spec fn ready(t: TermModel) -> bool {
    let g = in_use(t);
    &&& g.wf()
    &&& g.rows <= 0xffff
    &&& 0 <= g.cursor.row < g.rows
    &&& 0 <= g.cursor.col < g.cols
}

/// A place is on the screen in use.
pub open spec fn on_screen(t: TermModel, r: int, c: int) -> bool {
    0 <= r < in_use(t).rows && 0 <= c < in_use(t).cols
}

/// What a control sequence without a private marker does.
pub open spec fn sequence(t: TermModel, params: Seq<Seq<u16>>, name: char) -> TermModel {
    t.perform(VtAction::Csi { params, intermediates: Seq::empty(), action: name })
}

proof fn lemma_sequence(t: TermModel, params: Seq<Seq<u16>>, name: char)
    requires
        name != 'n',
    ensures
        shows(t, sequence(t, params, name), term::csi_screen(in_use(t), params, name)),
{
    reveal(TermModel::perform);
    reveal(TermModel::csi);
    assert(Seq::<u8>::empty() != seq![0x20u8]) by {
        assert(seq![0x20u8].len() == 1);
    }
}

/// `A` moves the cursor up, `B` down, `C` to the right and `D` to the left, by
/// as many places as are given and at least one, as far as the screen goes.
/// Cells, pen and the rest stay.
pub proof fn law_cursor_moves(t: TermModel, params: Seq<Seq<u16>>)
    requires
        ready(t),
    ensures
        ({
            let g = in_use(t);
            let (row, col, n) = (g.cursor.row, g.cursor.col, counted(params, 0));
            &&& moved_to(t, sequence(t, params, 'A'), limited(row - n, g.rows - 1), col)
            &&& moved_to(t, sequence(t, params, 'B'), limited(row + n, g.rows - 1), col)
            &&& moved_to(t, sequence(t, params, 'C'), row, limited(col + n, g.cols - 1))
            &&& moved_to(t, sequence(t, params, 'D'), row, limited(col - n, g.cols - 1))
        }),
{
    lemma_sequence(t, params, 'A');
    lemma_sequence(t, params, 'B');
    lemma_sequence(t, params, 'C');
    lemma_sequence(t, params, 'D');
    reveal(term::csi_screen);
}

/// `E` goes to the start of a row further down, `F` to the start of one further
/// up.
pub proof fn law_cursor_moves_to_a_line(t: TermModel, params: Seq<Seq<u16>>)
    requires
        ready(t),
    ensures
        ({
            let g = in_use(t);
            let (row, n) = (g.cursor.row, counted(params, 0));
            &&& moved_to(t, sequence(t, params, 'E'), limited(row + n, g.rows - 1), 0)
            &&& moved_to(t, sequence(t, params, 'F'), limited(row - n, g.rows - 1), 0)
        }),
{
    lemma_sequence(t, params, 'E');
    lemma_sequence(t, params, 'F');
    reveal(term::csi_screen);
}

/// `H` and `f` go to a row and a column, `G` to a column of the same row and `d`
/// to a row of the same column. All are counted from one, top left, and what is
/// beyond the screen is its edge.
pub proof fn law_cursor_goes_to_a_place(t: TermModel, params: Seq<Seq<u16>>)
    requires
        ready(t),
    ensures
        ({
            let g = in_use(t);
            let (down, right) = (g.rows - 1, g.cols - 1);
            let (a, b) = (counted(params, 0) - 1, counted(params, 1) - 1);
            &&& moved_to(t, sequence(t, params, 'H'), limited(a, down), limited(b, right))
            &&& moved_to(t, sequence(t, params, 'f'), limited(a, down), limited(b, right))
            &&& moved_to(t, sequence(t, params, 'G'), g.cursor.row, limited(a, right))
            &&& moved_to(t, sequence(t, params, 'd'), limited(a, down), g.cursor.col)
        }),
{
    lemma_sequence(t, params, 'H');
    lemma_sequence(t, params, 'f');
    lemma_sequence(t, params, 'G');
    lemma_sequence(t, params, 'd');
    reveal(term::csi_screen);
}

/// `J` erases cells and nothing else: with 0 those from the cursor to the end of
/// the screen, with 1 those from its start up to and with the cursor, with 2 or
/// 3 all of them. All others stay.
pub proof fn law_display_is_erased(t: TermModel, params: Seq<Seq<u16>>, r: int, c: int)
    requires
        ready(t),
        on_screen(t, r, c),
    ensures
        ({
            let at = in_use(t).cursor;
            let mode = given(params, 0);
            let after = sequence(t, params, 'J');
            let from_cursor = r > at.row || (r == at.row && c >= at.col);
            let up_to_cursor = r < at.row || (r == at.row && c <= at.col);
            let gone = (mode == 0 && from_cursor) || (mode == 1 && up_to_cursor) || mode == 2
                || mode == 3;
            &&& repainted(t, after)
            &&& gone ==> cell_at(after, r, c) == erased(in_use(t))
            &&& !gone ==> cell_at(after, r, c) == cell_at(t, r, c)
        }),
{
    lemma_sequence(t, params, 'J');
    reveal(term::csi_screen);
}

/// `K` erases cells of the line of the cursor: with 0 those from the cursor on,
/// with 1 those up to and with the cursor, with 2 all of them. All others stay.
pub proof fn law_line_is_erased(t: TermModel, params: Seq<Seq<u16>>, r: int, c: int)
    requires
        ready(t),
        on_screen(t, r, c),
    ensures
        ({
            let at = in_use(t).cursor;
            let mode = given(params, 0);
            let after = sequence(t, params, 'K');
            let gone = r == at.row && ((mode == 0 && c >= at.col) || (mode == 1 && c <= at.col)
                || mode == 2);
            &&& repainted(t, after)
            &&& gone ==> cell_at(after, r, c) == erased(in_use(t))
            &&& !gone ==> cell_at(after, r, c) == cell_at(t, r, c)
        }),
{
    lemma_sequence(t, params, 'K');
    reveal(term::csi_screen);
}

/// `X` erases as many cells from the cursor on as are given, within the line.
pub proof fn law_characters_are_erased(t: TermModel, params: Seq<Seq<u16>>, r: int, c: int)
    requires
        ready(t),
        on_screen(t, r, c),
    ensures
        ({
            let at = in_use(t).cursor;
            let after = sequence(t, params, 'X');
            let gone = r == at.row && at.col <= c < at.col + counted(params, 0);
            &&& repainted(t, after)
            &&& gone ==> cell_at(after, r, c) == erased(in_use(t))
            &&& !gone ==> cell_at(after, r, c) == cell_at(t, r, c)
        }),
{
    lemma_sequence(t, params, 'X');
    reveal(term::csi_screen);
}

/// `P` takes cells out at the cursor: those right of them move left into their
/// place, and erased cells come in at the right edge. Other lines stay.
pub proof fn law_characters_are_deleted(t: TermModel, params: Seq<Seq<u16>>, r: int, c: int)
    requires
        ready(t),
        on_screen(t, r, c),
    ensures
        ({
            let g = in_use(t);
            let n = counted(params, 0);
            let after = sequence(t, params, 'P');
            let moves = r == g.cursor.row && c >= g.cursor.col;
            &&& repainted(t, after)
            &&& moves && c + n < g.cols ==> cell_at(after, r, c) == cell_at(t, r, c + n)
            &&& moves && c + n >= g.cols ==> cell_at(after, r, c) == erased(g)
            &&& !moves ==> cell_at(after, r, c) == cell_at(t, r, c)
        }),
{
    lemma_sequence(t, params, 'P');
    reveal(term::csi_screen);
    let g = in_use(t);
    assert(g.lines[g.cursor.row].len() == g.cols);
}

/// `@` puts erased cells in at the cursor: those that were there move right, and
/// what passes the right edge is lost. Other lines stay.
pub proof fn law_characters_are_inserted(t: TermModel, params: Seq<Seq<u16>>, r: int, c: int)
    requires
        ready(t),
        on_screen(t, r, c),
    ensures
        ({
            let g = in_use(t);
            let n = counted(params, 0);
            let after = sequence(t, params, '@');
            let moves = r == g.cursor.row && c >= g.cursor.col;
            &&& repainted(t, after)
            &&& moves && c < g.cursor.col + n ==> cell_at(after, r, c) == erased(g)
            &&& moves && c >= g.cursor.col + n ==> cell_at(after, r, c) == cell_at(t, r, c - n)
            &&& !moves ==> cell_at(after, r, c) == cell_at(t, r, c)
        }),
{
    lemma_sequence(t, params, '@');
    reveal(term::csi_screen);
    let g = in_use(t);
    assert(g.lines[g.cursor.row].len() == g.cols);
}

/// `L` puts erased lines in at the cursor: those from there to the bottom of the
/// scroll region move down, and what passes its bottom is lost. Outside the
/// region nothing happens.
pub proof fn law_lines_are_inserted(t: TermModel, params: Seq<Seq<u16>>, r: int, c: int)
    requires
        ready(t),
        on_screen(t, r, c),
    ensures
        ({
            let g = in_use(t);
            let n = counted(params, 0);
            let after = sequence(t, params, 'L');
            let moves = g.scroll_top <= g.cursor.row <= r <= g.scroll_bot;
            &&& repainted(t, after)
            &&& moves && r < g.cursor.row + n ==> cell_at(after, r, c) == erased(g)
            &&& moves && r >= g.cursor.row + n ==> cell_at(after, r, c) == cell_at(t, r - n, c)
            &&& !moves ==> cell_at(after, r, c) == cell_at(t, r, c)
        }),
{
    lemma_sequence(t, params, 'L');
    reveal(term::csi_screen);
}

/// `M` takes lines out at the cursor: those below them move up, down to the
/// bottom of the scroll region, where erased lines come in. Outside the region
/// nothing happens. What is taken out does not enter the history.
pub proof fn law_lines_are_deleted(t: TermModel, params: Seq<Seq<u16>>, r: int, c: int)
    requires
        ready(t),
        on_screen(t, r, c),
    ensures
        ({
            let g = in_use(t);
            let n = counted(params, 0);
            let after = sequence(t, params, 'M');
            let moves = g.scroll_top <= g.cursor.row <= r <= g.scroll_bot;
            &&& repainted(t, after)
            &&& moves && r + n <= g.scroll_bot ==> cell_at(after, r, c) == cell_at(t, r + n, c)
            &&& moves && r + n > g.scroll_bot ==> cell_at(after, r, c) == erased(g)
            &&& !moves ==> cell_at(after, r, c) == cell_at(t, r, c)
        }),
{
    lemma_sequence(t, params, 'M');
    reveal(term::csi_screen);
}

/// `r` limits scrolling to the rows from the first to the second number, counted
/// from one, and goes to the top left corner. Without a second number the region
/// ends with the screen. One of fewer than two rows, or one that goes beyond the
/// screen, is refused.
pub proof fn law_scroll_region_is_set(t: TermModel, params: Seq<Seq<u16>>)
    requires
        ready(t),
    ensures
        ({
            let g = in_use(t);
            let first = counted(params, 0);
            let last = if given(params, 1) == 0 {
                g.rows
            } else {
                given(params, 1)
            };
            let home = GridModel {
                scroll_top: first - 1,
                scroll_bot: last - 1,
                cursor: CursorModel { row: 0, col: 0, wrap_next: false, ..g.cursor },
                ..g
            };
            &&& first < last <= g.rows ==> shows(t, sequence(t, params, 'r'), home)
            &&& !(first < last <= g.rows) ==> sequence(t, params, 'r') == t
        }),
{
    lemma_sequence(t, params, 'r');
    reveal(term::csi_screen);
}

/// `s` and the escape `7` remember the cursor and the pen, and nothing else
/// changes. `u` and the escape `8` bring back what was remembered, if anything
/// was, and keep it.
pub proof fn law_cursor_is_saved(t: TermModel, params: Seq<Seq<u16>>)
    ensures
        ({
            let g = in_use(t);
            let saved = GridModel { saved: Some((g.cursor, g.pen)), ..g };
            &&& shows(t, sequence(t, params, 's'), saved)
            &&& shows(t, escape(t, 0x37), saved)
            &&& g.saved matches Some((cursor, pen)) ==> {
                &&& shows(t, sequence(t, params, 'u'), GridModel { cursor, pen, ..g })
                &&& shows(t, escape(t, 0x38), GridModel { cursor, pen, ..g })
            }
            &&& g.saved is None ==> sequence(t, params, 'u') == t && escape(t, 0x38) == t
        }),
{
    lemma_sequence(t, params, 's');
    lemma_sequence(t, params, 'u');
    lemma_escape(t, 0x37);
    lemma_escape(t, 0x38);
    reveal(term::csi_screen);
    reveal(term::esc_screen);
}

/// `m` changes the pen, by its numbers alone, and nothing else.
pub proof fn law_pen_is_changed(t: TermModel, params: Seq<Seq<u16>>)
    ensures
        ({
            let g = in_use(t);
            shows(
                t,
                sequence(t, params, 'm'),
                GridModel { pen: crate::sgr::sgr(g.pen, params), ..g },
            )
        }),
{
    lemma_sequence(t, params, 'm');
    reveal(term::csi_screen);
}

/// What an escape sequence without further bytes does.
pub open spec fn escape(t: TermModel, byte: u8) -> TermModel {
    t.perform(VtAction::Esc { intermediates: Seq::empty(), byte })
}

proof fn lemma_escape(t: TermModel, byte: u8)
    ensures
        shows(t, escape(t, byte), term::esc_screen(in_use(t), byte)),
{
    reveal(TermModel::perform);
}

/// What a control byte does.
pub open spec fn executed(t: TermModel, byte: u8) -> TermModel {
    t.perform(VtAction::Execute(byte))
}

proof fn lemma_executed(t: TermModel, byte: u8)
    ensures
        shows(t, executed(t, byte), term::control(in_use(t), byte)),
{
    reveal(TermModel::perform);
}

/// A name that no sequence has does nothing.
pub proof fn law_unknown_sequences_do_nothing(t: TermModel, params: Seq<Seq<u16>>, name: char)
    requires
        !('A' <= name <= 'H'),
        !('J' <= name <= 'M'),
        name != 'P' && name != 'X' && name != '@' && name != 'd' && name != 'f' && name != 'm' && name
            != 'n' && name != 'r' && name != 's' && name != 'u',
    ensures
        sequence(t, params, name) == t,
{
    lemma_sequence(t, params, name);
    reveal(term::csi_screen);
}

/// Backspace moves one column to the left, carriage return to the first one, and
/// the tab to the next column that is a multiple of eight, or to the last column
/// if there is none.
pub proof fn law_control_bytes_move_along_the_line(t: TermModel)
    requires
        ready(t),
    ensures
        ({
            let g = in_use(t);
            let (row, col) = (g.cursor.row, g.cursor.col);
            let tab = in_use(executed(t, 0x09)).cursor.col;
            &&& moved_to(t, executed(t, 0x08), row, limited(col - 1, g.cols - 1))
            &&& moved_to(t, executed(t, 0x0d), row, 0)
            &&& moved_to(t, executed(t, 0x09), row, tab)
            &&& col < tab < g.cols && tab % 8 == 0 && tab <= col + 8 || {
                &&& tab == g.cols - 1
                &&& forall|stop: int| col < stop < g.cols ==> #[trigger] (stop % 8) != 0
            }
        }),
{
    lemma_executed(t, 0x08);
    lemma_executed(t, 0x09);
    lemma_executed(t, 0x0d);
    reveal(term::control);
}

/// Line feed, vertical tab and form feed, and the escape `D`, go one row down in
/// the same column; in the last row of the screen outside the scroll region they
/// stay. Escape `E` does the same and goes to the start of the row.
pub proof fn law_line_feed_goes_down(t: TermModel, byte: u8)
    requires
        ready(t),
        byte == 0x0a || byte == 0x0b || byte == 0x0c,
        in_use(t).cursor.row != in_use(t).scroll_bot,
    ensures
        ({
            let g = in_use(t);
            let below = limited(g.cursor.row + 1, g.rows - 1);
            &&& moved_to(t, executed(t, byte), below, g.cursor.col)
            &&& moved_to(t, escape(t, 0x44), below, g.cursor.col)
            &&& moved_to(t, escape(t, 0x45), below, 0)
        }),
{
    lemma_executed(t, byte);
    lemma_escape(t, 0x44);
    lemma_escape(t, 0x45);
    reveal(term::control);
    reveal(term::esc_screen);
}

/// At the bottom of the scroll region a line feed leaves the cursor where it is:
/// every row of the region moves up by one, the bottom one is erased, and the
/// rows outside stay. Escape `D` does the same, and `E` also goes to the start of
/// the row.
pub proof fn law_line_feed_scrolls(t: TermModel, byte: u8, r: int, c: int)
    requires
        ready(t),
        byte == 0x0a || byte == 0x0b || byte == 0x0c,
        in_use(t).cursor.row == in_use(t).scroll_bot,
        on_screen(t, r, c),
    ensures
        ({
            let g = in_use(t);
            let after = executed(t, byte);
            let h = in_use(after);
            let moves = g.scroll_top <= r <= g.scroll_bot;
            &&& shows(t, after, h)
            &&& same_but_cells(
                g,
                GridModel {
                    scrollback: g.scrollback,
                    new_rows: g.new_rows,
                    cursor: CursorModel { wrap_next: g.cursor.wrap_next, ..h.cursor },
                    ..h
                },
            )
            &&& !h.cursor.wrap_next
            &&& moves && r < g.scroll_bot ==> cell_at(after, r, c) == cell_at(t, r + 1, c)
            &&& r == g.scroll_bot ==> cell_at(after, r, c) == erased(g)
            &&& !moves ==> cell_at(after, r, c) == cell_at(t, r, c)
            &&& escape(t, 0x44) == after
            &&& escape(t, 0x45) == executed(after, 0x0d)
        }),
{
    lemma_executed(t, byte);
    lemma_executed(executed(t, byte), 0x0d);
    lemma_escape(t, 0x44);
    lemma_escape(t, 0x45);
    reveal(term::control);
    reveal(term::esc_screen);
}

/// When the whole screen scrolls, its top row becomes the newest row of the
/// history, which gives up its oldest row only when it is full. When only a part
/// scrolls, the history stays.
pub proof fn law_scrolling_feeds_the_history(t: TermModel, byte: u8)
    requires
        ready(t),
        byte == 0x0a || byte == 0x0b || byte == 0x0c,
        in_use(t).cursor.row == in_use(t).scroll_bot,
        in_use(t).scrollback_limit <= crate::grid::dim_limit(),
    ensures
        ({
            let g = in_use(t);
            let after = in_use(executed(t, byte)).scrollback;
            let whole = g.scroll_top == 0 && g.scroll_bot == g.rows - 1;
            let grown = g.scrollback.push(g.lines[0]);
            &&& !whole ==> after == g.scrollback
            &&& whole && g.scrollback.len() < g.scrollback_limit ==> after == grown
            &&& whole && g.scrollback.len() == g.scrollback_limit ==> after == grown.skip(1)
        }),
{
    lemma_executed(t, byte);
    reveal(term::control);
    let g = in_use(t);
    assert(g.lines.subrange(0, 1) =~= seq![g.lines[0]]);
    assert(g.scrollback + seq![g.lines[0]] =~= g.scrollback.push(g.lines[0]));
    let after = in_use(executed(t, byte)).scrollback;
    if g.scroll_top == 0 && g.scroll_bot == g.rows - 1 && g.scrollback.len() == g.scrollback_limit {
        assert(after =~= g.scrollback.push(g.lines[0]).skip(1));
    }
}

/// Escape `M` goes one row up. At the top of the scroll region it stays, every
/// row of the region moves down by one, and the top one is erased.
pub proof fn law_reverse_index(t: TermModel, r: int, c: int)
    requires
        ready(t),
        on_screen(t, r, c),
    ensures
        ({
            let g = in_use(t);
            let after = escape(t, 0x4d);
            let h = in_use(after);
            let moves = g.scroll_top <= r <= g.scroll_bot;
            let scrolls = g.cursor.row == g.scroll_top;
            &&& !scrolls ==> moved_to(
                t,
                after,
                limited(g.cursor.row - 1, g.rows - 1),
                g.cursor.col,
            )
            &&& scrolls ==> {
                &&& shows(t, after, h)
                &&& same_but_cells(
                    g,
                    GridModel {
                        cursor: CursorModel { wrap_next: g.cursor.wrap_next, ..h.cursor },
                        ..h
                    },
                )
                &&& !h.cursor.wrap_next
                &&& moves && r > g.scroll_top ==> cell_at(after, r, c) == cell_at(t, r - 1, c)
                &&& r == g.scroll_top ==> cell_at(after, r, c) == erased(g)
                &&& !moves ==> cell_at(after, r, c) == cell_at(t, r, c)
            }
        }),
{
    lemma_escape(t, 0x4d);
    reveal(term::esc_screen);
}

/// Escape `c` begins anew on the screen in use: every cell is a plain space, the
/// visible block cursor is in the top left corner, nothing is remembered, the
/// history is empty, and the whole screen scrolls.
pub proof fn law_reset_begins_anew(t: TermModel, r: int, c: int)
    requires
        ready(t),
        on_screen(t, r, c),
    ensures
        ({
            let g = in_use(t);
            let after = escape(t, 0x63);
            let h = in_use(after);
            &&& shows(t, after, h)
            &&& h.rows == g.rows && h.cols == g.cols && h.scrollback_limit == g.scrollback_limit
            &&& h.lines.len() == g.rows && h.lines[r].len() == g.cols
            &&& h.lines[r][c] == (Cell {
                ch: ' ',
                fg: Color::Default,
                bg: Color::Default,
                attrs: CellAttrs(0),
                width: 1,
            })
            &&& h.cursor == (CursorModel {
                row: 0,
                col: 0,
                visible: true,
                wrap_next: false,
                shape: CursorShape::Block,
            })
            &&& h.pen == (Pen { fg: Color::Default, bg: Color::Default, attrs: CellAttrs(0) })
            &&& h.saved is None
            &&& h.scrollback.len() == 0 && h.new_rows == 0
            &&& h.scroll_top == 0 && h.scroll_bot == g.rows - 1
        }),
{
    lemma_escape(t, 0x63);
    reveal(term::esc_screen);
}

/// Other control bytes and other escape sequences do nothing, nor does an escape
/// sequence with further bytes.
pub proof fn law_unknown_bytes_do_nothing(t: TermModel, byte: u8, more: Seq<u8>)
    ensures
        byte < 0x08 || byte > 0x0d ==> executed(t, byte) == t,
        byte != 0x37 && byte != 0x38 && byte != 0x44 && byte != 0x45 && byte != 0x4d && byte != 0x63
            ==> escape(t, byte) == t,
        more.len() > 0 ==> t.perform(VtAction::Esc { intermediates: more, byte }) == t,
{
    lemma_executed(t, byte);
    lemma_escape(t, byte);
    reveal(TermModel::perform);
    reveal(term::control);
    reveal(term::esc_screen);
}

/// What printing a character does.
pub open spec fn printed(t: TermModel, ch: char) -> TermModel {
    t.perform(VtAction::Print(ch))
}

proof fn lemma_printed(t: TermModel, ch: char)
    ensures
        shows(t, printed(t, ch), in_use(t).put_char(ch)),
{
    reveal(TermModel::perform);
}

/// The cell of a character in the colours and attributes of the pen.
pub open spec fn inked(g: GridModel, ch: char, width: u8) -> Cell {
    Cell { ch, fg: g.pen.fg, bg: g.pen.bg, attrs: g.pen.attrs, width }
}

/// A character that takes one cell appears under the cursor in the pen's colours
/// and attributes, every other cell stays, and the cursor moves right by one. In
/// the last column it stays, and the wrap becomes pending.
pub proof fn law_a_character_is_printed(t: TermModel, ch: char, r: int, c: int)
    requires
        ready(t),
        on_screen(t, r, c),
        crate::grid::width_of(ch) == 1,
        !in_use(t).cursor.wrap_next,
    ensures
        ({
            let g = in_use(t);
            let after = printed(t, ch);
            let h = in_use(after);
            let last = g.cursor.col == g.cols - 1;
            &&& shows(t, after, h)
            &&& same_but_cells(g, GridModel { cursor: g.cursor, ..h })
            &&& h.cursor == (CursorModel {
                col: if last {
                    g.cursor.col
                } else {
                    g.cursor.col + 1
                },
                wrap_next: last,
                ..g.cursor
            })
            &&& r == g.cursor.row && c == g.cursor.col ==> cell_at(after, r, c) == inked(g, ch, 1)
            &&& r != g.cursor.row || c != g.cursor.col ==> cell_at(after, r, c) == cell_at(t, r, c)
        }),
{
    lemma_printed(t, ch);
}

/// A wide character takes the cell under the cursor and the one right of it,
/// which holds a space of no width in the same colours, and the cursor moves
/// right by two. At the right edge it stays, and the wrap becomes pending.
pub proof fn law_a_wide_character_is_printed(t: TermModel, ch: char, r: int, c: int)
    requires
        ready(t),
        on_screen(t, r, c),
        crate::grid::width_of(ch) == 2,
        !in_use(t).cursor.wrap_next,
        in_use(t).cursor.col + 1 < in_use(t).cols,
    ensures
        ({
            let g = in_use(t);
            let after = printed(t, ch);
            let h = in_use(after);
            let last = g.cursor.col + 2 >= g.cols;
            let (here, next) = (
                r == g.cursor.row && c == g.cursor.col,
                r == g.cursor.row && c == g.cursor.col + 1,
            );
            &&& shows(t, after, h)
            &&& same_but_cells(g, GridModel { cursor: g.cursor, ..h })
            &&& h.cursor == (CursorModel {
                col: if last {
                    g.cursor.col
                } else {
                    g.cursor.col + 2
                },
                wrap_next: last,
                ..g.cursor
            })
            &&& here ==> cell_at(after, r, c) == inked(g, ch, 2)
            &&& next ==> cell_at(after, r, c) == inked(g, ' ', 0)
            &&& !here && !next ==> cell_at(after, r, c) == cell_at(t, r, c)
        }),
{
    lemma_printed(t, ch);
}

/// Where a wrap is pending, or where a wide character does not fit at the right
/// edge, printing is the same as a carriage return, a line feed and printing.
pub proof fn law_printing_wraps(t: TermModel, ch: char)
    requires
        ready(t),
        crate::grid::width_of(ch) != 0,
        in_use(t).cursor.wrap_next || (crate::grid::width_of(ch) == 2 && in_use(t).cursor.col
            == in_use(t).cols - 1 && in_use(t).cols > 1),
    ensures
        printed(t, ch) == printed(executed(executed(t, 0x0d), 0x0a), ch),
{
    lemma_printed(t, ch);
    lemma_executed(t, 0x0d);
    let returned = executed(t, 0x0d);
    lemma_executed(returned, 0x0a);
    let below = executed(returned, 0x0a);
    lemma_printed(below, ch);
    reveal(term::control);
    let g = in_use(t);
    assert(in_use(returned) == g.at(g.cursor.row, 0));
    assert(in_use(below) == g.at(g.cursor.row, 0).line_feed());
    assert(in_use(below).cursor.col == 0 && !in_use(below).cursor.wrap_next);
    assert(g.ready_for(ch) == in_use(below).ready_for(ch));
}

/// Marks that combine with the letter before them take no cell. The scripts of
/// East Asia, fullwidth forms and emoji take two, and all else takes one.
pub proof fn law_width_of_characters(ch: char)
    ensures
        ({
            let c = ch as u32;
            let w = crate::grid::width_of(ch);
            let diacritics = 0x300 <= c <= 0x36F || 0x1AB0 <= c <= 0x1AFF || 0x1DC0 <= c <= 0x1DFF
                || 0x20D0 <= c <= 0x20FF || 0xFE20 <= c <= 0xFE2F;
            let kana = 0x3040 <= c <= 0x30FF || 0x31F0 <= c <= 0x31FF;
            let phonetic = 0x3100 <= c <= 0x318F || 0x31C0 <= c <= 0x31EF;
            let ideographs = 0x3000 <= c <= 0x303E || 0x3200 <= c <= 0x4DBF || 0x4E00 <= c <= 0x9FFF
                || 0xF900 <= c <= 0xFAFF || 0x20000 <= c <= 0x2FFFD;
            let syllables = 0xA000 <= c <= 0xA4CF || 0xAC00 <= c <= 0xD7A3;
            let forms = 0xFE30 <= c <= 0xFE4F || 0xFF00 <= c <= 0xFF60 || 0xFFE0 <= c <= 0xFFE6;
            let emoji = 0x1F300 <= c <= 0x1F64F || 0x1F680 <= c <= 0x1F6FF || 0x1F900 <= c <= 0x1F9FF;
            let wide = kana || phonetic || ideographs || syllables || forms || emoji;
            &&& w == 0 <==> diacritics
            &&& w == 2 <==> wide
            &&& w == 1 <==> !diacritics && !wide
        }),
{
}

} // verus!
