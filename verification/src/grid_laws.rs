//! What holds of the cell grid as a whole.

use vstd::prelude::*;

use crate::grid;
use crate::grid::GridModel;

verus! {

/// The operations of a grid that an application can ask for, except going
/// back to a saved cursor.
pub enum GridOp {
    PutChar(char),
    CarriageReturn,
    LineFeed,
    ReverseIndex,
    Backspace,
    Tab,
    Goto(int, int),
    MoveCursor(int, int),
    ScrollUp(int),
    ScrollDown(int),
    EraseLine(int),
    EraseDisplay(int),
    EraseChars(int),
    DeleteChars(int),
    InsertChars(int),
    InsertLines(int),
    DeleteLines(int),
    SetScrollRegion(int, int),
    SaveCursor,
}

impl GridOp {
    /// What the operation makes of a grid.
    pub open spec fn apply(self, g: GridModel) -> GridModel {
        match self {
            GridOp::PutChar(ch) => g.put_char(ch),
            GridOp::CarriageReturn => g.carriage_return(),
            GridOp::LineFeed => g.line_feed(),
            GridOp::ReverseIndex => g.reverse_index(),
            GridOp::Backspace => g.backspace(),
            GridOp::Tab => g.tab(),
            GridOp::Goto(row, col) => g.goto(row, col),
            GridOp::MoveCursor(drow, dcol) => g.move_cursor(drow, dcol),
            GridOp::ScrollUp(n) => g.scroll_up_in_region(n),
            GridOp::ScrollDown(n) => g.scroll_down_in_region(n),
            GridOp::EraseLine(mode) => g.erase_line(mode),
            GridOp::EraseDisplay(mode) => g.erase_display(mode),
            GridOp::EraseChars(n) => g.erase_chars(n),
            GridOp::DeleteChars(n) => g.delete_chars(n),
            GridOp::InsertChars(n) => g.insert_chars(n),
            GridOp::InsertLines(n) => g.insert_lines(n),
            GridOp::DeleteLines(n) => g.delete_lines(n),
            GridOp::SetScrollRegion(top, bot) => g.set_scroll_region(top, bot),
            GridOp::SaveCursor => g.save_cursor(),
        }
    }

    /// Distances and counts are not negative where they cannot be.
    pub open spec fn valid(self) -> bool {
        match self {
            GridOp::ScrollUp(n) => n >= 0,
            GridOp::ScrollDown(n) => n >= 0,
            GridOp::EraseChars(n) => n >= 0,
            GridOp::DeleteChars(n) => n >= 0,
            GridOp::InsertChars(n) => n >= 0,
            GridOp::InsertLines(n) => n >= 0,
            GridOp::DeleteLines(n) => n >= 0,
            GridOp::SetScrollRegion(top, bot) => top >= 0 && bot >= 0,
            _ => true,
        }
    }

    /// Whether the operation moves to the next row from the bottom of the
    /// scroll region, or scrolls up outright. On a screen of a single column
    /// a wide character can take two rows at once.
    pub open spec fn scrolls_up(self, g: GridModel) -> bool {
        match self {
            GridOp::ScrollUp(_) => true,
            GridOp::LineFeed => g.cursor.row == g.scroll_bot,
            GridOp::PutChar(ch) => g.wraps_for(ch) && (g.cursor.row == g.scroll_bot || (g.cols == 1
                && g.cursor.wrap_next && grid::width_of(ch) == 2 && g.cursor.row + 1
                == g.scroll_bot)),
            _ => false,
        }
    }
}

/// No operation moves the cursor off the screen.
pub proof fn law_cursor_stays_on_screen(g: GridModel, op: GridOp)
    requires
        g.wf(),
        g.on_grid(),
        op.valid(),
    ensures
        op.apply(g).on_grid(),
{
}

/// No operation changes the size of the screen or the limit of the history,
/// and every operation leaves a well-formed grid.
pub proof fn law_shape_is_kept(g: GridModel, op: GridOp)
    requires
        g.wf(),
        g.on_grid(),
        op.valid(),
    ensures
        keeps_shape(g, op.apply(g)),
{
    if op is PutChar {
        lemma_put_char_wf(g, op->PutChar_0);
    } else if op is ScrollUp || op is LineFeed {
        lemma_up_keeps_shape(g, op);
    } else if op is ScrollDown || op is ReverseIndex {
        lemma_down_keeps_shape(g, op);
    } else if op is InsertLines || op is DeleteLines {
        lemma_lines_keep_shape(g, op);
    } else if op is EraseLine || op is EraseDisplay || op is EraseChars {
        lemma_erase_keeps_shape(g, op);
    } else if op is DeleteChars || op is InsertChars {
        lemma_chars_keep_shape(g, op);
    } else {
        lemma_cursor_keeps_shape(g, op);
    }
}

/// What [`law_shape_is_kept`] says of one step.
pub open spec fn keeps_shape(g: GridModel, after: GridModel) -> bool {
    after.wf() && after.rows == g.rows && after.cols == g.cols && after.scrollback_limit
        == g.scrollback_limit
}

proof fn lemma_up_keeps_shape(g: GridModel, op: GridOp)
    requires
        g.wf(),
        g.on_grid(),
        op.valid(),
        op is ScrollUp || op is LineFeed,
    ensures
        keeps_shape(g, op.apply(g)),
{
}

proof fn lemma_down_keeps_shape(g: GridModel, op: GridOp)
    requires
        g.wf(),
        g.on_grid(),
        op.valid(),
        op is ScrollDown || op is ReverseIndex,
    ensures
        keeps_shape(g, op.apply(g)),
{
}

proof fn lemma_lines_keep_shape(g: GridModel, op: GridOp)
    requires
        g.wf(),
        g.on_grid(),
        op.valid(),
        op is InsertLines || op is DeleteLines,
    ensures
        keeps_shape(g, op.apply(g)),
{
}

proof fn lemma_erase_keeps_shape(g: GridModel, op: GridOp)
    requires
        g.wf(),
        g.on_grid(),
        op.valid(),
        op is EraseLine || op is EraseDisplay || op is EraseChars,
    ensures
        keeps_shape(g, op.apply(g)),
{
}

proof fn lemma_chars_keep_shape(g: GridModel, op: GridOp)
    requires
        g.wf(),
        g.on_grid(),
        op.valid(),
        op is DeleteChars || op is InsertChars,
    ensures
        keeps_shape(g, op.apply(g)),
{
    assert(g.lines[g.cursor.row].len() == g.cols);
}

proof fn lemma_cursor_keeps_shape(g: GridModel, op: GridOp)
    requires
        g.wf(),
        g.on_grid(),
        op.valid(),
        op is CarriageReturn || op is Backspace || op is Tab || op is Goto || op is MoveCursor || op is SetScrollRegion || op is SaveCursor,
    ensures
        keeps_shape(g, op.apply(g)),
{
}

proof fn lemma_put_char_wf(g: GridModel, ch: char)
    requires
        g.wf(),
        g.on_grid(),
    ensures
        keeps_shape(g, g.put_char(ch)),
{
    lemma_line_feed_wf(g.at(g.cursor.row, 0));
    let wrapped = if g.cursor.wrap_next {
        g.at(g.cursor.row, 0).line_feed()
    } else {
        g
    };
    lemma_line_feed_wf(wrapped.at(wrapped.cursor.row, 0));
    let ready = g.ready_for(ch);
    assert(ready.wf());
    assert(ready.draw(ch).wf());
}

proof fn lemma_line_feed_wf(g: GridModel)
    requires
        g.wf(),
        g.rows > 0,
    ensures
        g.line_feed().wf(),
        g.line_feed().rows == g.rows,
        g.line_feed().cols == g.cols,
        g.line_feed().scrollback_limit == g.scrollback_limit,
{
}

/// Rows enter the history in one way only: the bottom of the scroll region is
/// passed, or the region is scrolled up, while it spans the whole screen.
pub proof fn law_history_grows_by_full_scroll_only(g: GridModel, op: GridOp)
    requires
        g.wf(),
        g.on_grid(),
        op.valid(),
        !op.scrolls_up(g) || !g.full_region(),
    ensures
        op.apply(g).scrollback == g.scrollback,
{
}

/// Line feed at the bottom of a full-screen region appends the top row to the
/// history, which keeps its newest rows.
pub proof fn law_line_feed_saves_the_top_row(g: GridModel)
    requires
        g.wf(),
        g.full_region(),
        g.cursor.row == g.scroll_bot,
        g.scrollback_limit > 0,
    ensures
        g.line_feed().scrollback.len() > 0,
        g.line_feed().scrollback.last() == g.lines[0],
        g.scrollback.len() < g.history_room() ==> g.line_feed().scrollback
            == g.scrollback.push(g.lines[0]),
        g.scrollback.len() == g.history_room() ==> g.line_feed().scrollback
            == g.scrollback.push(g.lines[0]).skip(1),
{
    assert(g.lines.subrange(0, 1) =~= seq![g.lines[0]]);
    assert(g.scrollback + seq![g.lines[0]] =~= g.scrollback.push(g.lines[0]));
    if g.scrollback.len() == g.history_room() {
        assert(g.line_feed().scrollback =~= g.scrollback.push(g.lines[0]).skip(1));
    }
}

/// Restoring brings back cursor and pen as they were saved, whatever happened
/// to either in between.
pub proof fn law_restore_undoes(g: GridModel, later: GridModel)
    requires
        later.saved == g.save_cursor().saved,
    ensures
        later.restore_cursor().cursor == g.cursor,
        later.restore_cursor().pen == g.pen,
        later.restore_cursor().lines == later.lines,
        later.restore_cursor().scrollback == later.scrollback,
{
}

/// Operations other than saving keep what was saved.
pub proof fn law_saved_cursor_is_kept(g: GridModel, op: GridOp)
    requires
        op !is SaveCursor,
    ensures
        op.apply(g).saved == g.saved,
{
}

/// Printing in the last column does not move to the next row: the wrap waits
/// for the next character, which then begins the next row.
pub proof fn law_wrap_is_sticky(g: GridModel, ch: char, next: char)
    requires
        g.wf(),
        g.on_grid(),
        !g.cursor.wrap_next,
        g.cursor.col == g.cols - 1,
        grid::width_of(ch) == 1,
        grid::width_of(next) == 1,
    ensures
        ({
            let waits = g.put_char(ch);
            let wrapped = waits.put_char(next);
            &&& waits.cursor.row == g.cursor.row
            &&& waits.cursor.col == g.cursor.col
            &&& waits.cursor.wrap_next
            &&& waits.lines[g.cursor.row][g.cols - 1] == g.pen.ink(ch, 1)
            &&& wrapped.lines[wrapped.cursor.row][0] == g.pen.ink(next, 1)
            &&& wrapped.cursor.row == waits.line_feed().cursor.row
            &&& g.cursor.row < g.scroll_bot ==> wrapped.cursor.row == g.cursor.row + 1
            &&& g.cols > 1 ==> wrapped.cursor.col == 1 && !wrapped.cursor.wrap_next
        }),
{
}

/// A printed character can be read back where it was drawn, in the pen's
/// colours, and nothing else on the screen it was drawn on changes.
pub proof fn law_print_then_read(g: GridModel, ch: char, r: int, c: int)
    requires
        g.wf(),
        g.on_grid(),
        grid::width_of(ch) != 0,
        0 <= r < g.rows,
        0 <= c < g.cols,
    ensures
        ({
            let ready = g.ready_for(ch);
            let after = g.put_char(ch);
            let at = ready.cursor;
            &&& ready.on_grid()
            &&& after.lines[at.row][at.col] == g.pen.ink(ch, grid::width_of(ch))
            &&& (r != at.row || (c != at.col && c != at.col + 1)) ==> after.lines[r][c]
                == ready.lines[r][c]
            &&& grid::width_of(ch) == 1 && c == at.col + 1 ==> after.lines[r][c]
                == ready.lines[r][c]
        }),
{
    law_shape_is_kept(g.at(g.cursor.row, 0), GridOp::LineFeed);
    let wrapped = if g.cursor.wrap_next {
        g.at(g.cursor.row, 0).line_feed()
    } else {
        g
    };
    lemma_line_feed_wf(wrapped.at(wrapped.cursor.row, 0));
}

/// A combining mark takes no cell: cursor, pending wrap, cells and history stay
/// as they are.
pub proof fn law_combining_mark_takes_no_cell(g: GridModel, ch: char)
    requires
        grid::width_of(ch) == 0,
    ensures
        g.put_char(ch) == g,
{
}

/// A wide character is never cut in half on a screen of two columns or more:
/// its leading half is followed by a spacer of the same colours on the same
/// row.
pub proof fn law_wide_character_is_whole(g: GridModel, ch: char)
    requires
        g.wf(),
        g.on_grid(),
        g.cols >= 2,
        grid::width_of(ch) == 2,
    ensures
        ({
            let at = g.ready_for(ch).cursor;
            let after = g.put_char(ch);
            &&& at.col + 1 < g.cols
            &&& after.lines[at.row][at.col] == g.pen.ink(ch, 2)
            &&& after.lines[at.row][at.col + 1] == g.pen.ink(' ', 0)
        }),
{
    law_print_then_read(g, ch, 0, 0);
}

/// Scrolling down undoes scrolling up for the rows that stayed on the screen;
/// the rows that left come back erased.
pub proof fn law_scroll_down_undoes_scroll_up(g: GridModel, n: int, r: int)
    requires
        g.wf(),
        g.rows > 0,
        0 <= n <= g.scroll_bot - g.scroll_top + 1,
        0 <= r < g.rows,
    ensures
        ({
            let back = g.scroll_up_in_region(n).scroll_down_in_region(n);
            back.lines[r] == (if g.scroll_top <= r < g.scroll_top + n {
                g.pen.blank_row(g.cols)
            } else {
                g.lines[r]
            })
        }),
{
}

/// Taking out as many lines as were put in brings back all lines but those
/// that were pushed out at the bottom of the region.
pub proof fn law_delete_lines_undoes_insert_lines(g: GridModel, n: int, r: int)
    requires
        g.wf(),
        g.on_grid(),
        g.in_region(),
        0 <= n <= g.scroll_bot - g.cursor.row + 1,
        0 <= r < g.rows,
    ensures
        g.insert_lines(n).delete_lines(n).lines[r] == (if g.scroll_bot - n < r <= g.scroll_bot {
            g.pen.blank_row(g.cols)
        } else {
            g.lines[r]
        }),
{
}

/// Taking out as many cells as were put in brings back all cells of the line
/// but those that were pushed out at the right edge.
pub proof fn law_delete_chars_undoes_insert_chars(g: GridModel, n: int, c: int)
    requires
        g.wf(),
        g.on_grid(),
        0 <= n <= g.cols - g.cursor.col,
        0 <= c < g.cols,
    ensures
        g.insert_chars(n).delete_chars(n).lines[g.cursor.row][c] == (if c >= g.cols - n {
            g.pen.blank()
        } else {
            g.lines[g.cursor.row][c]
        }),
{
    assert(g.lines[g.cursor.row].len() == g.cols);
}

/// A screen that was made larger and then brought back to its size shows the
/// same cells.
pub proof fn law_grow_and_shrink_back(g: GridModel, rows: int, cols: int)
    requires
        g.wf(),
        rows >= g.rows,
        cols >= g.cols,
    ensures
        g.resize(rows, cols).resize(g.rows, g.cols).lines == g.lines,
        g.resize(rows, cols).resize(g.rows, g.cols).scrollback == g.scrollback,
{
    let back = g.resize(rows, cols).resize(g.rows, g.cols);
    assert forall|r: int| 0 <= r < g.rows implies #[trigger] back.lines[r] =~= g.lines[r] by {
        assert(g.lines[r].len() == g.cols);
    }
    assert(back.lines =~= g.lines);
}

/// Resizing does not touch the history, whose rows keep their width, and
/// leaves the cursor on the screen.
pub proof fn law_resize_keeps_history(g: GridModel, rows: int, cols: int)
    requires
        rows > 0,
        cols > 0,
    ensures
        g.resize(rows, cols).scrollback == g.scrollback,
        g.resize(rows, cols).on_grid(),
{
}

/// Erasing the display leaves every cell blank in the pen's colours and the
/// cursor where it was.
pub proof fn law_erased_screen_is_blank(g: GridModel, r: int, c: int)
    requires
        g.wf(),
        0 <= r < g.rows,
        0 <= c < g.cols,
    ensures
        g.erase_display(2).lines[r][c] == g.pen.blank(),
        g.erase_display(2).cursor == g.cursor,
        g.erase_display(2).erase_display(2) == g.erase_display(2),
{
    let once = g.erase_display(2);
    assert forall|i: int| 0 <= i < g.rows implies #[trigger] once.erase_display(2).lines[i]
        =~= once.lines[i] by {}
    assert(once.erase_display(2).lines =~= once.lines);
}

} // verus!
