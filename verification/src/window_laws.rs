//! A new terminal, a window of another size, and the start of vi mode.

use vstd::prelude::*;

use crate::atlas;
use crate::font::{Bitmap, FontStyle};
use crate::grid::{Cell, CellAttrs, Color, CursorShape, GridModel};
use crate::mouse::{MouseEncoding, MouseMode};
use crate::screen_laws;
use crate::session::SessionModel;
use crate::term::TermModel;
use crate::theme_lib;
use crate::vi::VisualMode;

verus! {

/// A new terminal is blank: the cursor is a block in the top left corner, the whole
/// screen scrolls, nothing is in the history, which can have ten thousand rows, and
/// every mode is off.
pub proof fn law_new_terminal(rows: int, cols: int, r: int, c: int)
    requires
        0 < rows,
        0 < cols,
    ensures
        ({
            let t = TermModel::fresh(rows, cols);
            let g = t.primary;
            let blank = Cell {
                ch: ' ',
                fg: Color::Default,
                bg: Color::Default,
                attrs: CellAttrs(0),
                width: 1,
            };
            &&& g.rows == rows && g.cols == cols && g.lines.len() == rows
            &&& 0 <= r < rows ==> g.lines[r].len() == cols
            &&& 0 <= r < rows && 0 <= c < cols ==> g.lines[r][c] == blank
            &&& g.cursor.row == 0 && g.cursor.col == 0 && g.cursor.visible
            &&& !g.cursor.wrap_next && g.cursor.shape == CursorShape::Block
            &&& g.pen.fg == Color::Default && g.pen.bg == Color::Default
            &&& g.pen.attrs == CellAttrs(0) && g.saved is None
            &&& g.scroll_top == 0 && g.scroll_bot == rows - 1
            &&& g.scrollback.len() == 0 && g.scrollback_limit == 10_000
            &&& t.alt is None && t.title.len() == 0 && t.viewport_offset == 0
            &&& !t.bracketed_paste && !t.application_cursor_keys
            &&& t.mouse_mode == MouseMode::Off && t.mouse_encoding == MouseEncoding::Default
            &&& t.reply.len() == 0
        }),
{
}

/// No terminal keeps more than ten thousand rows of history.
pub proof fn law_history_of_a_terminal(t: TermModel)
    requires
        t.wf(),
    ensures
        t.primary.scrollback_limit == 10_000,
        t.primary.scrollback.len() <= 10_000,
        t.alt matches Some(g) ==> g.scrollback.len() == 0,
{
}

/// A grid keeps what is in its top left corner when its size changes. New cells are
/// erased ones. The cursor goes to the last row or column where its own is gone, and
/// loses a wrap that was pending. With another number of rows the whole screen scrolls
/// again. History, pen and what was saved stay.
pub proof fn law_grid_is_resized(g: GridModel, rows: int, cols: int, r: int, c: int)
    requires
        g.wf(),
        0 < rows,
        0 < cols,
        0 <= r < rows,
        0 <= c < cols,
    ensures
        ({
            let h = g.resize(rows, cols);
            &&& h.rows == rows && h.cols == cols && h.lines.len() == rows
            &&& h.lines[r].len() == cols
            &&& r < g.rows && c < g.cols ==> h.lines[r][c] == g.lines[r][c]
            &&& r >= g.rows || c >= g.cols ==> h.lines[r][c] == screen_laws::erased(g)
            &&& g.cursor.row < rows ==> h.cursor.row == g.cursor.row
            &&& g.cursor.row >= rows ==> h.cursor.row == rows - 1
            &&& g.cursor.col < cols ==> h.cursor.col == g.cursor.col
            &&& g.cursor.col >= cols ==> h.cursor.col == cols - 1
            &&& !h.cursor.wrap_next && h.cursor.visible == g.cursor.visible
            &&& h.cursor.shape == g.cursor.shape
            &&& rows == g.rows ==> h.scroll_top == g.scroll_top && h.scroll_bot == g.scroll_bot
            &&& rows != g.rows ==> h.scroll_top == 0 && h.scroll_bot == rows - 1
            &&& h.scrollback == g.scrollback && h.scrollback_limit == g.scrollback_limit
            &&& h.pen == g.pen && h.saved == g.saved && h.new_rows == g.new_rows
        }),
{
}

/// A terminal resizes both of its screens, and the view goes no further back than the
/// history of the one in use. Nothing else of it changes.
pub proof fn law_terminal_is_resized(t: TermModel, rows: int, cols: int)
    requires
        t.wf(),
    ensures
        ({
            let after = t.resize(rows, cols);
            let rows_back = screen_laws::in_use(t).scrollback.len() as int;
            &&& after.primary == t.primary.resize(rows, cols)
            &&& t.alt is None <==> after.alt is None
            &&& t.alt matches Some(g) ==> after.alt == Some(g.resize(rows, cols))
            &&& after == (TermModel {
                primary: after.primary,
                alt: after.alt,
                viewport_offset: if t.viewport_offset <= rows_back {
                    t.viewport_offset
                } else {
                    rows_back
                },
                ..t
            })
        }),
{
}

/// Vi mode begins at the cursor of the terminal as it is in view, or in the top left
/// corner if the cursor cannot be seen. Nothing is selected, counted or searched.
pub proof fn law_vi_mode_begins_at_the_cursor(s: SessionModel)
    requires
        s.wf(),
    ensures
        ({
            let after = s.entered_vi();
            let g = screen_laws::in_use(s.term);
            let row = g.cursor.row + s.term.viewport_offset;
            let seen = g.cursor.visible && row < g.rows;
            &&& after.vi.active && after.vi.visual == VisualMode::Off
            &&& after.vi.visual_anchor is None && after.vi.pending_count is None
            &&& after.vi.pending_op is None && after.vi.search is None
            &&& seen ==> after.vi.cursor.0 == row && after.vi.cursor.1 == g.cursor.col
            &&& !seen ==> after.vi.cursor.0 == 0 && after.vi.cursor.1 == 0
            &&& after.selection is None
            &&& after == (SessionModel { vi: after.vi, selection: None, ..s })
        }),
{
}

/// The theme to begin with where nothing else is asked for.
pub proof fn law_default_theme()
    ensures
        theme_lib::DEFAULT_THEME_NAME@ == "Dracula"@,
{
}

/// The picture of a glyph is drawn as far from the left edge of its cell as the font
/// says, and its top as far above the baseline. It is found at the corner where it was
/// put.
pub proof fn law_picture_in_its_cell(p: Bitmap, x: int, y: int, baseline: u32)
    requires
        0 <= x < 1024,
        0 <= y < 1024,
        p.w < 0xffff,
        p.h < 0xffff,
        -0x8000 <= p.left < 0x8000,
        -0x8000 <= baseline - p.top < 0x8000,
    ensures
        ({
            let e = atlas::entry_at(p, x, y, baseline);
            &&& e.atlas_x == x && e.atlas_y == y && e.w == p.w && e.h == p.h
            &&& e.offset_x == p.left
            &&& e.offset_y + p.top == baseline
        }),
{
}

/// Glyphs of different characters or faces are kept apart.
pub proof fn law_glyphs_are_kept_apart(a: char, s: FontStyle, b: char, t: FontStyle)
    ensures
        atlas::slot(a, s) == atlas::slot(b, t) <==> a == b && s == t,
{
}

/// A picture in the atlas changes exactly the pixels of its rectangle.
pub proof fn law_picture_is_put_into_the_atlas(
    data: Seq<u8>,
    p: Bitmap,
    x: int,
    y: int,
    row: int,
    col: int,
)
    requires
        data.len() == 1024 * 1024,
        0 <= x,
        0 <= y,
        x + p.w <= 1024,
        y + p.h <= 1024,
        0 <= row < 1024,
        0 <= col < 1024,
    ensures
        ({
            let after = atlas::drawn(data, 1024, p, x, y);
            let inside = y <= row < y + p.h && x <= col < x + p.w;
            &&& after.len() == data.len()
            &&& inside ==> after[row * 1024 + col] == crate::font::pixel(p, row - y, col - x)
            &&& !inside ==> after[row * 1024 + col] == data[row * 1024 + col]
        }),
{
}

} // verus!
