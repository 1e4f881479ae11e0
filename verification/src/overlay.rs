//! What is drawn over the grid: the search bar and the theme picker.

use vstd::prelude::*;

use crate::picker;
use crate::picker::{Layout, Picker, PickerModel};
use crate::text;

verus! {

/// The colour of a part of a cell.
#[derive(Copy, Clone, Debug, PartialEq, Eq, Structural)]
pub enum Paint {
    /// Red, green and blue.
    Srgb(u8, u8, u8),
    /// The background of a search hit.
    MatchOther,
    /// The background of the current search hit.
    MatchCurrent,
}

/// A cell drawn over the grid.
#[derive(Copy, Clone, Debug, PartialEq, Eq, Structural)]
pub struct OverlayCell {
    pub ch: char,
    pub row: usize,
    pub col: usize,
    pub fg: Paint,
    pub bg: Paint,
}

/// A text in cells from a place on, as far as it fits into a width.
pub open spec fn text_cells(
    s: Seq<char>,
    row: int,
    col: int,
    width: int,
    fg: Paint,
    bg: Paint,
) -> Seq<OverlayCell> {
    Seq::new(
        crate::grid::min_int(s.len() as int, width) as nat,
        |i: int| cell_at(s[i], row, col + i, fg, bg),
    )
}

/// A cell at a place.
pub open spec fn cell_at(ch: char, row: int, col: int, fg: Paint, bg: Paint) -> OverlayCell {
    OverlayCell { ch, row: row as usize, col: col as usize, fg, bg }
}

/// Blank cells from a place on.
pub open spec fn blank_cells(row: int, col: int, width: int, fg: Paint, bg: Paint) -> Seq<
    OverlayCell,
> {
    Seq::new(width as nat, |i: int| cell_at(' ', row, col + i, fg, bg))
}

/// The text of the search bar: the prompt, the query, and a mark where the
/// next character goes.
pub open spec fn bar_text(prompt: char, query: Seq<char>, typing: bool) -> Seq<char> {
    if typing {
        seq![prompt] + query.push('_')
    } else {
        seq![prompt] + query
    }
}

/// The search bar, in the last row.
pub open spec fn bar_cells(
    bar: Seq<char>,
    rows: int,
    cols: int,
    fg: Paint,
    bg: Paint,
) -> Seq<OverlayCell> {
    if rows == 0 {
        Seq::empty()
    } else {
        blank_cells(rows - 1, 0, cols, fg, bg) + text_cells(bar, rows - 1, 0, cols, fg, bg)
    }
}

/// Writes a text in cells; see [`text_cells`].
pub fn write_string_clipped(
    cells: &mut Vec<OverlayCell>,
    s: &[char],
    row: usize,
    col_start: usize,
    width: usize,
    fg: Paint,
    bg: Paint,
)
    requires
        col_start + width <= usize::MAX,
    ensures
        final(cells)@ == old(cells)@ + text_cells(
            s@,
            row as int,
            col_start as int,
            width as int,
            fg,
            bg,
        ),
{
    let ghost all = text_cells(s@, row as int, col_start as int, width as int, fg, bg);
    let n: usize = if s.len() < width {
        s.len()
    } else {
        width
    };
    let mut i: usize = 0;
    assert(all.len() == n);
    assert(cells@ =~= old(cells)@ + all.take(0));
    while i < n
        invariant
            i <= n,
            n <= s@.len(),
            n <= width,
            all.len() == n,
            col_start + width <= usize::MAX,
            all == text_cells(s@, row as int, col_start as int, width as int, fg, bg),
            cells@ == old(cells)@ + all.take(i as int),
        decreases n - i,
    {
        let ghost before = cells@;
        let cell = OverlayCell { ch: s[i], row, col: col_start + i, fg, bg };
        cells.push(cell);
        assert(all[i as int] == cell);
        assert(all.take(i + 1) =~= all.take(i as int).push(cell));
        i += 1;
    }
    assert(all.take(n as int) =~= all);
}

/// Writes blank cells; see [`blank_cells`].
fn write_blanks(
    cells: &mut Vec<OverlayCell>,
    row: usize,
    col_start: usize,
    width: usize,
    fg: Paint,
    bg: Paint,
)
    requires
        col_start + width <= usize::MAX,
    ensures
        final(cells)@ == old(cells)@ + blank_cells(
            row as int,
            col_start as int,
            width as int,
            fg,
            bg,
        ),
{
    let ghost all = blank_cells(row as int, col_start as int, width as int, fg, bg);
    let mut i: usize = 0;
    assert(cells@ =~= old(cells)@ + all.take(0));
    while i < width
        invariant
            i <= width,
            col_start + width <= usize::MAX,
            all == blank_cells(row as int, col_start as int, width as int, fg, bg),
            cells@ == old(cells)@ + all.take(i as int),
        decreases width - i,
    {
        cells.push(OverlayCell { ch: ' ', row, col: col_start + i, fg, bg });
        i += 1;
        assert(cells@ =~= old(cells)@ + all.take(i as int));
    }
    assert(all.take(i as int) =~= all);
}

/// The cells of the search bar over a grid of a given size.
pub fn search_bar(
    prompt: char,
    query: &str,
    typing: bool,
    rows: usize,
    cols: usize,
    fg: Paint,
    bg: Paint,
) -> (cells: Vec<OverlayCell>)
    ensures
        cells@ == bar_cells(
            bar_text(prompt, query@, typing),
            rows as int,
            cols as int,
            fg,
            bg,
        ),
{
    let mut cells: Vec<OverlayCell> = Vec::new();
    if rows == 0 {
        return cells;
    }
    write_blanks(&mut cells, rows - 1, 0, cols, fg, bg);
    let mut bar: Vec<char> = Vec::new();
    bar.push(prompt);
    let mut chars = text::chars_of(query);
    bar.append(&mut chars);
    if typing {
        bar.push('_');
    }
    assert(bar@ =~= bar_text(prompt, query@, typing));
    write_string_clipped(&mut cells, bar.as_slice(), rows - 1, 0, cols, fg, bg);
    assert(cells@ =~= bar_cells(bar@, rows as int, cols as int, fg, bg));
    cells
}

/// The colours of the picker.
#[derive(Copy, Clone, Debug, PartialEq, Eq, Structural)]
pub struct PanelColors {
    pub fg: Paint,
    pub bg: Paint,
    /// The header and the highlighted entry.
    pub bright_fg: Paint,
    pub bright_bg: Paint,
}

/// The first `n` blank rows of the picker.
pub open spec fn panel_rows(layout: Layout, colors: PanelColors, n: int) -> Seq<OverlayCell>
    decreases n,
{
    if n <= 0 {
        Seq::empty()
    } else {
        panel_rows(layout, colors, n - 1) + blank_cells(
            layout.origin.0 + n - 1,
            layout.origin.1 as int,
            layout.size.1 as int,
            colors.fg,
            colors.bg,
        )
    }
}

/// One entry of the picker: a full row with a mark before the name of the
/// highlighted one.
pub open spec fn entry_cells(
    name: Seq<char>,
    highlighted: bool,
    row: int,
    layout: Layout,
    colors: PanelColors,
) -> Seq<OverlayCell> {
    let (fg, bg) = if highlighted {
        (colors.bright_fg, colors.bright_bg)
    } else {
        (colors.fg, colors.bg)
    };
    let mark = if highlighted {
        " ▶ "@
    } else {
        "   "@
    };
    let col = layout.origin.1 as int;
    let width = layout.size.1 as int;
    blank_cells(row, col, width, fg, bg) + text_cells(mark, row, col, width, fg, bg) + text_cells(
        name,
        row,
        col + 3,
        width - 3,
        fg,
        bg,
    )
}

/// The first `n` entries in view.
pub open spec fn list_cells(p: PickerModel, layout: Layout, colors: PanelColors, n: int) -> Seq<
    OverlayCell,
>
    decreases n,
{
    if n <= 0 {
        Seq::empty()
    } else {
        let i = layout.scroll + n - 1;
        list_cells(p, layout, colors, n - 1) + (if i < p.themes.len() {
            entry_cells(
                p.themes[i],
                i == p.cursor,
                layout.origin.0 + 2 + n - 1,
                layout,
                colors,
            )
        } else {
            Seq::empty()
        })
    }
}

/// The header of the picker.
pub open spec fn header_text() -> Seq<char> {
    "Theme picker  ↑↓ navigate  Enter keep  Esc revert"@
}

/// The picker. A screen that is too narrow shows none.
pub open spec fn panel_cells(p: PickerModel, layout: Layout, colors: PanelColors) -> Seq<
    OverlayCell,
> {
    if layout.size.1 < 8 || layout.size.0 < 5 {
        Seq::empty()
    } else {
        panel_rows(layout, colors, layout.size.0 as int) + text_cells(
            header_text(),
            layout.origin.0 as int,
            layout.origin.1 as int,
            layout.size.1 as int,
            colors.bright_fg,
            colors.bright_bg,
        ) + list_cells(p, layout, colors, layout.list_visible as int)
    }
}

/// The layout of a picker on a screen; see [`Picker::layout`].
pub open spec fn layout_of(p: PickerModel, rows: int, cols: int) -> Layout {
    let height = picker::box_height(rows, p.themes.len() as int);
    let width = picker::box_width(cols);
    Layout {
        origin: (
            (picker::minus(rows, height) / 2) as usize,
            ((cols - width) / 2) as usize,
        ),
        size: (height as usize, width as usize),
        list_visible: (height - 3) as usize,
        scroll: picker::scrolled(p.cursor, p.scroll, height - 3) as usize,
    }
}

/// The picker after it was laid out.
pub open spec fn laid_out(p: PickerModel, rows: int) -> PickerModel {
    let height = picker::box_height(rows, p.themes.len() as int);
    PickerModel { scroll: picker::scrolled(p.cursor, p.scroll, height - 3), ..p }
}

/// Writes one entry of the picker; see [`entry_cells`].
fn write_entry(
    cells: &mut Vec<OverlayCell>,
    name: &str,
    highlighted: bool,
    row: usize,
    layout: Layout,
    colors: PanelColors,
)
    requires
        layout.size.1 >= 8,
        layout.origin.1 + layout.size.1 <= usize::MAX,
    ensures
        final(cells)@ == old(cells)@ + entry_cells(
            name@,
            highlighted,
            row as int,
            layout,
            colors,
        ),
{
    let (fg, bg) = if highlighted {
        (colors.bright_fg, colors.bright_bg)
    } else {
        (colors.fg, colors.bg)
    };
    let mark = if highlighted {
        " ▶ "
    } else {
        "   "
    };
    let col: usize = layout.origin.1;
    let width: usize = layout.size.1;
    write_blanks(cells, row, col, width, fg, bg);
    let mark_chars = text::chars_of(mark);
    write_string_clipped(cells, mark_chars.as_slice(), row, col, width, fg, bg);
    let name_chars = text::chars_of(name);
    write_string_clipped(cells, name_chars.as_slice(), row, col + 3, width - 3, fg, bg);
    assert(cells@ =~= old(cells)@ + entry_cells(name@, highlighted, row as int, layout, colors));
}

/// The cells of the picker over a grid of a given size.
pub fn picker_panel(p: &mut Picker, rows: usize, cols: usize, colors: PanelColors) -> (cells: Vec<
    OverlayCell,
>)
    requires
        old(p)@.wf(),
        rows <= crate::grid::dim_limit(),
        cols <= crate::grid::dim_limit(),
    ensures
        final(p)@.wf(),
        final(p)@ == laid_out(old(p)@, rows as int),
        cells@ == panel_cells(
            old(p)@,
            layout_of(old(p)@, rows as int, cols as int),
            colors,
        ),
{
    let layout = p.layout(rows, cols);
    let ghost m = old(p)@;
    assert(layout == layout_of(m, rows as int, cols as int));
    assert(m.themes == p@.themes && m.cursor == p@.cursor);
    let mut cells: Vec<OverlayCell> = Vec::new();
    let height: usize = layout.size.0;
    let width: usize = layout.size.1;
    if width < 8 || height < 5 {
        assert(cells@ =~= panel_cells(m, layout, colors));
        return cells;
    }
    let mut r: usize = 0;
    assert(cells@ =~= panel_rows(layout, colors, 0));
    while r < height
        invariant
            r <= height,
            height == layout.size.0,
            width == layout.size.1,
            layout.origin.0 + height <= usize::MAX,
            layout.origin.1 + width <= usize::MAX,
            cells@ == panel_rows(layout, colors, r as int),
        decreases height - r,
    {
        write_blanks(&mut cells, layout.origin.0 + r, layout.origin.1, width, colors.fg, colors.bg);
        r += 1;
    }
    let header = text::chars_of("Theme picker  ↑↓ navigate  Enter keep  Esc revert");
    write_string_clipped(
        &mut cells,
        header.as_slice(),
        layout.origin.0,
        layout.origin.1,
        width,
        colors.bright_fg,
        colors.bright_bg,
    );
    let ghost top = cells@;
    let cursor: usize = p.cursor();
    let names = p.themes();
    let total: usize = names.len();
    let mut i: usize = 0;
    assert(cells@ =~= top + list_cells(m, layout, colors, 0));
    while i < layout.list_visible
        invariant
            i <= layout.list_visible,
            width == layout.size.1,
            width >= 8,
            layout.origin.0 + 2 + layout.list_visible <= usize::MAX,
            layout.origin.1 + width <= usize::MAX,
            total == names@.len(),
            cursor == m.cursor,
            text::texts(names@) == m.themes,
            cells@ == top + list_cells(m, layout, colors, i as int),
        decreases layout.list_visible - i,
    {
        let ghost before = cells@;
        if layout.scroll < total && i < total - layout.scroll {
            let item: usize = layout.scroll + i;
            assert(text::texts(names@)[item as int] == names@[item as int]@);
            write_entry(
                &mut cells,
                names[item].as_str(),
                item == cursor,
                layout.origin.0 + 2 + i,
                layout,
                colors,
            );
        }
        i += 1;
        assert(cells@ =~= top + list_cells(m, layout, colors, i as int));
    }
    assert(cells@ =~= panel_cells(m, layout, colors));
    cells
}

} // verus!
