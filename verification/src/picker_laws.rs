//! What the theme picker looks like.

use vstd::prelude::*;

use crate::frame::ColorsModel;
use crate::grid;
use crate::overlay;
use crate::overlay::{OverlayCell, Paint, PanelColors};
use crate::picker::{Layout, PickerModel};
use crate::prepare;

verus! {

/// What is on top at a place: the last of the cells drawn there.
pub open spec fn on_top(cells: Seq<OverlayCell>, row: int, col: int) -> Option<OverlayCell>
    decreases cells.len(),
{
    if cells.len() == 0 {
        None
    } else if cells.last().row == row && cells.last().col == col {
        Some(cells.last())
    } else {
        on_top(cells.drop_last(), row, col)
    }
}

/// What is on top at a place is a character in given colours.
pub open spec fn looks(
    cells: Seq<OverlayCell>,
    row: int,
    col: int,
    ch: char,
    fg: Paint,
    bg: Paint,
) -> bool {
    on_top(cells, row, col) matches Some(c) && c.ch == ch && c.fg == fg && c.bg == bg
}

/// The picker on a screen.
pub open spec fn drawn(p: PickerModel, rows: int, cols: int, colors: PanelColors) -> Seq<
    OverlayCell,
> {
    overlay::panel_cells(p, overlay::layout_of(p, rows, cols), colors)
}

proof fn lemma_on_top_of_both(
    below: Seq<OverlayCell>,
    above: Seq<OverlayCell>,
    row: int,
    col: int,
)
    ensures
        on_top(below + above, row, col) == (if on_top(above, row, col) is Some {
            on_top(above, row, col)
        } else {
            on_top(below, row, col)
        }),
    decreases above.len(),
{
    let both = below + above;
    if above.len() == 0 {
        assert(both =~= below);
    } else {
        assert(both.drop_last() =~= below + above.drop_last());
        assert(both.last() == above.last());
        lemma_on_top_of_both(below, above.drop_last(), row, col);
    }
}

/// Cells side by side in a row: each is on top at its place, and there are no others.
proof fn lemma_side_by_side(cells: Seq<OverlayCell>, row: int, col: int, r: int, c: int)
    requires
        forall|i: int|
            0 <= i < cells.len() ==> (#[trigger] cells[i]).row == row && cells[i].col == col + i,
    ensures
        on_top(cells, r, c) == (if r == row && col <= c < col + cells.len() {
            Some(cells[c - col])
        } else {
            None
        }),
    decreases cells.len(),
{
    if cells.len() > 0 {
        assert(cells.last() == cells[cells.len() - 1]);
        lemma_side_by_side(cells.drop_last(), row, col, r, c);
    }
}

proof fn lemma_text_on_top(
    s: Seq<char>,
    row: int,
    col: int,
    width: int,
    fg: Paint,
    bg: Paint,
    r: int,
    c: int,
)
    requires
        0 <= row <= usize::MAX,
        0 <= col,
        0 <= width,
        col + width <= usize::MAX,
    ensures
        ({
            let top = on_top(overlay::text_cells(s, row, col, width, fg, bg), r, c);
            if r == row && col <= c < col + width && c - col < s.len() {
                top matches Some(t) && t.ch == s[c - col] && t.fg == fg && t.bg == bg
            } else {
                top is None
            }
        }),
{
    lemma_side_by_side(overlay::text_cells(s, row, col, width, fg, bg), row, col, r, c);
}

proof fn lemma_blanks_on_top(
    row: int,
    col: int,
    width: int,
    fg: Paint,
    bg: Paint,
    r: int,
    c: int,
)
    requires
        0 <= row <= usize::MAX,
        0 <= col,
        0 <= width,
        col + width <= usize::MAX,
    ensures
        ({
            let top = on_top(overlay::blank_cells(row, col, width, fg, bg), r, c);
            if r == row && col <= c < col + width {
                top matches Some(t) && t.ch == ' ' && t.fg == fg && t.bg == bg
            } else {
                top is None
            }
        }),
{
    lemma_side_by_side(overlay::blank_cells(row, col, width, fg, bg), row, col, r, c);
}

/// A layout that fits into the numbers of a screen.
spec fn sound(l: Layout) -> bool {
    &&& l.origin.0 + l.size.0 + 2 <= usize::MAX
    &&& l.origin.1 + l.size.1 <= usize::MAX
    &&& l.size.1 >= 8
    &&& l.size.0 >= 5
    &&& l.list_visible == l.size.0 - 3
}

proof fn lemma_rows_on_top(l: Layout, colors: PanelColors, n: int, r: int, c: int)
    requires
        sound(l),
        0 <= n <= l.size.0,
    ensures
        ({
            let top = on_top(overlay::panel_rows(l, colors, n), r, c);
            if l.origin.0 <= r < l.origin.0 + n && l.origin.1 <= c < l.origin.1 + l.size.1 {
                top matches Some(t) && t.ch == ' ' && t.fg == colors.fg && t.bg == colors.bg
            } else {
                top is None
            }
        }),
    decreases n,
{
    if n > 0 {
        lemma_rows_on_top(l, colors, n - 1, r, c);
        let below = overlay::panel_rows(l, colors, n - 1);
        let row = l.origin.0 + n - 1;
        let above = overlay::blank_cells(
            row,
            l.origin.1 as int,
            l.size.1 as int,
            colors.fg,
            colors.bg,
        );
        lemma_blanks_on_top(
            row,
            l.origin.1 as int,
            l.size.1 as int,
            colors.fg,
            colors.bg,
            r,
            c,
        );
        lemma_on_top_of_both(below, above, r, c);
    }
}

/// The character of an entry at a column.
pub open spec fn entry_char(name: Seq<char>, highlighted: bool, j: int) -> char {
    if j == 1 && highlighted {
        '▶'
    } else if j >= 3 && j - 3 < name.len() {
        name[j - 3]
    } else {
        ' '
    }
}

proof fn lemma_entry_on_top(
    name: Seq<char>,
    highlighted: bool,
    row: int,
    l: Layout,
    colors: PanelColors,
    r: int,
    c: int,
)
    requires
        sound(l),
        0 <= row <= usize::MAX,
    ensures
        ({
            let top = on_top(overlay::entry_cells(name, highlighted, row, l, colors), r, c);
            if r == row && l.origin.1 <= c < l.origin.1 + l.size.1 {
                &&& top matches Some(t)
                &&& t.ch == entry_char(name, highlighted, c - l.origin.1)
                &&& t.fg == (if highlighted {
                    colors.bright_fg
                } else {
                    colors.fg
                })
                &&& t.bg == (if highlighted {
                    colors.bright_bg
                } else {
                    colors.bg
                })
            } else {
                top is None
            }
        }),
{
    let (fg, bg) = if highlighted {
        (colors.bright_fg, colors.bright_bg)
    } else {
        (colors.fg, colors.bg)
    };
    let mark = if highlighted {
        " ▶ "@
    } else {
        "   "@
    };
    reveal_strlit(" ▶ ");
    reveal_strlit("   ");
    assert(mark.len() == 3 && mark[0] == ' ' && mark[2] == ' ');
    assert(mark[1] == (if highlighted {
        '▶'
    } else {
        ' '
    }));
    let col = l.origin.1 as int;
    let width = l.size.1 as int;
    lemma_blanks_on_top(row, col, width, fg, bg, r, c);
    lemma_text_on_top(mark, row, col, width, fg, bg, r, c);
    lemma_text_on_top(name, row, col + 3, width - 3, fg, bg, r, c);
    let blank = overlay::blank_cells(row, col, width, fg, bg);
    let marked = overlay::text_cells(mark, row, col, width, fg, bg);
    let named = overlay::text_cells(name, row, col + 3, width - 3, fg, bg);
    lemma_on_top_of_both(blank, marked, r, c);
    lemma_on_top_of_both(blank + marked, named, r, c);
}

proof fn lemma_list_on_top(p: PickerModel, l: Layout, colors: PanelColors, n: int, r: int, c: int)
    requires
        sound(l),
        0 <= n <= l.list_visible,
        l.scroll + l.list_visible <= usize::MAX || p.themes.len() <= usize::MAX,
    ensures
        ({
            let top = on_top(overlay::list_cells(p, l, colors, n), r, c);
            let i = l.scroll + r - l.origin.0 - 2;
            let highlighted = i == p.cursor;
            if l.origin.0 + 2 <= r < l.origin.0 + 2 + n && i < p.themes.len() && l.origin.1 <= c
                < l.origin.1 + l.size.1 {
                &&& top matches Some(t)
                &&& t.ch == entry_char(p.themes[i], highlighted, c - l.origin.1)
                &&& t.fg == (if highlighted {
                    colors.bright_fg
                } else {
                    colors.fg
                })
                &&& t.bg == (if highlighted {
                    colors.bright_bg
                } else {
                    colors.bg
                })
            } else {
                top is None
            }
        }),
    decreases n,
{
    if n > 0 {
        lemma_list_on_top(p, l, colors, n - 1, r, c);
        let below = overlay::list_cells(p, l, colors, n - 1);
        let i = l.scroll + n - 1;
        let row = l.origin.0 + 2 + n - 1;
        if i < p.themes.len() {
            let above = overlay::entry_cells(p.themes[i], i == p.cursor, row, l, colors);
            lemma_entry_on_top(p.themes[i], i == p.cursor, row, l, colors, r, c);
            lemma_on_top_of_both(below, above, r, c);
        } else {
            assert(below + Seq::<OverlayCell>::empty() =~= below);
        }
    }
}

proof fn lemma_panel_on_top(p: PickerModel, l: Layout, colors: PanelColors, r: int, c: int)
    requires
        sound(l),
        p.themes.len() <= usize::MAX,
    ensures
        ({
            let rows = on_top(overlay::panel_rows(l, colors, l.size.0 as int), r, c);
            let header = on_top(
                overlay::text_cells(
                    overlay::header_text(),
                    l.origin.0 as int,
                    l.origin.1 as int,
                    l.size.1 as int,
                    colors.bright_fg,
                    colors.bright_bg,
                ),
                r,
                c,
            );
            let list = on_top(
                overlay::list_cells(p, l, colors, l.list_visible as int),
                r,
                c,
            );
            on_top(overlay::panel_cells(p, l, colors), r, c) == (if list is Some {
                list
            } else if header is Some {
                header
            } else {
                rows
            })
        }),
{
    let rows = overlay::panel_rows(l, colors, l.size.0 as int);
    let header = overlay::text_cells(
        overlay::header_text(),
        l.origin.0 as int,
        l.origin.1 as int,
        l.size.1 as int,
        colors.bright_fg,
        colors.bright_bg,
    );
    let list = overlay::list_cells(p, l, colors, l.list_visible as int);
    lemma_on_top_of_both(rows, header, r, c);
    lemma_on_top_of_both(rows + header, list, r, c);
}

/// A screen that shows the picker.
pub open spec fn shows_picker(p: PickerModel, rows: int, cols: int) -> bool {
    &&& p.wf()
    &&& p.themes.len() <= usize::MAX
    &&& 0 <= rows <= grid::dim_limit()
    &&& 10 <= cols <= grid::dim_limit()
}

/// The box is forty columns wide, or leaves a column on each side of a narrower
/// screen. It has a row for each theme, one for the header, and two more, but leaves
/// two rows above and below it; five rows are the least. It stands in the middle, and
/// where that cannot be, closer to the top left by one. The list has all its rows but
/// three.
pub proof fn law_box_of_the_picker(p: PickerModel, rows: int, cols: int)
    requires
        p.wf(),
        p.themes.len() <= usize::MAX,
        0 <= rows <= grid::dim_limit(),
        0 <= cols <= grid::dim_limit(),
    ensures
        ({
            let l = overlay::layout_of(p, rows, cols);
            let right = cols - l.origin.1 - l.size.1;
            let below = rows - l.origin.0 - l.size.0;
            &&& cols >= 42 ==> l.size.1 == 40
            &&& 2 <= cols < 42 ==> l.size.1 == cols - 2
            &&& cols < 2 ==> l.size.1 == 0
            &&& p.themes.len() + 3 >= 5 && p.themes.len() + 7 <= rows ==> l.size.0
                == p.themes.len() + 3
            &&& rows >= 9 && p.themes.len() + 7 > rows ==> l.size.0 == rows - 4
            &&& rows < 9 || p.themes.len() < 2 ==> l.size.0 == 5
            &&& l.origin.1 == right || l.origin.1 + 1 == right
            &&& rows >= l.size.0 ==> l.origin.0 == below || l.origin.0 + 1 == below
            &&& rows < l.size.0 ==> l.origin.0 == 0
            &&& l.list_visible == l.size.0 - 3
        }),
{
}

/// The list scrolls as little as brings the highlighted theme into view.
pub proof fn law_list_scrolls_no_more_than_needed(p: PickerModel, rows: int, cols: int)
    requires
        shows_picker(p, rows, cols),
        p.scroll <= usize::MAX,
    ensures
        ({
            let l = overlay::layout_of(p, rows, cols);
            &&& l.scroll <= p.cursor < l.scroll + l.list_visible
            &&& p.scroll <= p.cursor < p.scroll + l.list_visible ==> l.scroll == p.scroll
            &&& p.cursor < p.scroll ==> l.scroll == p.cursor
            &&& p.cursor >= p.scroll + l.list_visible ==> l.scroll + l.list_visible == p.cursor + 1
            &&& overlay::laid_out(p, rows) == (PickerModel { scroll: l.scroll as int, ..p })
        }),
{
}

/// The list shows the names of the themes one below the other from the first in view
/// on, each after three columns; the highlighted one has a mark in the second of them
/// and the bright colours over the whole row.
pub proof fn law_themes_are_listed(
    p: PickerModel,
    rows: int,
    cols: int,
    colors: PanelColors,
    k: int,
    j: int,
)
    requires
        shows_picker(p, rows, cols),
        p.scroll <= usize::MAX,
    ensures
        ({
            let l = overlay::layout_of(p, rows, cols);
            let i = l.scroll + k;
            let ch = if j == 1 && i == p.cursor {
                '▶'
            } else if j >= 3 && j - 3 < p.themes[i].len() {
                p.themes[i][j - 3]
            } else {
                ' '
            };
            0 <= k < l.list_visible && i < p.themes.len() && 0 <= j < l.size.1 ==> looks(
                drawn(p, rows, cols, colors),
                l.origin.0 + 2 + k,
                l.origin.1 + j,
                ch,
                if i == p.cursor {
                    colors.bright_fg
                } else {
                    colors.fg
                },
                if i == p.cursor {
                    colors.bright_bg
                } else {
                    colors.bg
                },
            )
        }),
{
    let l = overlay::layout_of(p, rows, cols);
    let (r, c) = (l.origin.0 + 2 + k, l.origin.1 + j);
    if 0 <= k < l.list_visible && l.scroll + k < p.themes.len() && 0 <= j < l.size.1 {
        lemma_panel_on_top(p, l, colors, r, c);
        lemma_list_on_top(p, l, colors, l.list_visible as int, r, c);
    }
}

/// The first row of the box says what it is and which keys it takes, in the bright
/// colours. Every other place of the box without a theme is blank, and outside of it
/// nothing is drawn.
pub proof fn law_rest_of_the_picker(
    p: PickerModel,
    rows: int,
    cols: int,
    colors: PanelColors,
    r: int,
    c: int,
)
    requires
        shows_picker(p, rows, cols),
        p.scroll <= usize::MAX,
    ensures
        ({
            let l = overlay::layout_of(p, rows, cols);
            let cells = drawn(p, rows, cols, colors);
            let header = "Theme picker  ↑↓ navigate  Enter keep  Esc revert"@;
            let j = c - l.origin.1;
            let inside = l.origin.0 <= r < l.origin.0 + l.size.0 && 0 <= j < l.size.1;
            let k = r - l.origin.0 - 2;
            let listed = 0 <= k < l.list_visible && l.scroll + k < p.themes.len();
            &&& !inside ==> on_top(cells, r, c) is None
            &&& inside && r == l.origin.0 && j < header.len() ==> looks(
                cells,
                r,
                c,
                header[j],
                colors.bright_fg,
                colors.bright_bg,
            )
            &&& inside && r == l.origin.0 && j >= header.len() ==> looks(
                cells,
                r,
                c,
                ' ',
                colors.fg,
                colors.bg,
            )
            &&& inside && r > l.origin.0 && !listed ==> looks(
                cells,
                r,
                c,
                ' ',
                colors.fg,
                colors.bg,
            )
        }),
{
    let l = overlay::layout_of(p, rows, cols);
    lemma_panel_on_top(p, l, colors, r, c);
    lemma_list_on_top(p, l, colors, l.list_visible as int, r, c);
    lemma_rows_on_top(l, colors, l.size.0 as int, r, c);
    lemma_text_on_top(
        overlay::header_text(),
        l.origin.0 as int,
        l.origin.1 as int,
        l.size.1 as int,
        colors.bright_fg,
        colors.bright_bg,
        r,
        c,
    );
}

/// On a screen of fewer than ten columns there is no picker.
pub proof fn law_narrow_screen_shows_no_picker(
    p: PickerModel,
    rows: int,
    cols: int,
    colors: PanelColors,
)
    requires
        0 <= cols < 10,
    ensures
        drawn(p, rows, cols, colors).len() == 0,
{
}

/// The picker has the colours of the cursor, and for what is bright those of the
/// page, exchanged; there is none unless it is open.
pub proof fn law_colors_of_the_picker(p: PickerModel, rows: int, cols: int, c: ColorsModel)
    ensures
        prepare::panel_of(Some(p), rows, cols, c) == drawn(
            p,
            rows,
            cols,
            (PanelColors {
                fg: c.cursor_fg,
                bg: c.cursor_bg,
                bright_fg: c.default_bg,
                bright_bg: c.default_fg,
            }),
        ),
        prepare::panel_of(None, rows, cols, c).len() == 0,
{
}

/// The keys of the picker go around the ends one by one, and stop at them by pages.
pub proof fn law_moves_in_the_picker(p: PickerModel, by: int)
    requires
        p.wf(),
        0 <= by,
    ensures
        ({
            let n = p.themes.len() as int;
            &&& p.down() == (PickerModel { cursor: (p.cursor + 1) % n, ..p })
            &&& p.up() == (PickerModel { cursor: (p.cursor + n - 1) % n, ..p })
            &&& p.to(p.cursor + by).cursor == (if p.cursor + by < n {
                p.cursor + by
            } else {
                n - 1
            })
            &&& p.to(p.cursor - by).cursor == (if by <= p.cursor {
                p.cursor - by
            } else {
                0
            })
            &&& p.to(by) == (PickerModel { cursor: p.to(by).cursor, ..p })
            &&& p.to(0).cursor == 0 && p.to(n - 1).cursor == n - 1
        }),
{
    let n = p.themes.len() as int;
    if p.cursor + 1 < n {
        vstd::arithmetic::div_mod::lemma_small_mod((p.cursor + 1) as nat, n as nat);
    } else {
        vstd::arithmetic::div_mod::lemma_mod_self_0(n);
    }
    if p.cursor == 0 {
        vstd::arithmetic::div_mod::lemma_small_mod((n - 1) as nat, n as nat);
    } else {
        vstd::arithmetic::div_mod::lemma_mod_add_multiples_vanish(p.cursor - 1, n);
        vstd::arithmetic::div_mod::lemma_small_mod((p.cursor - 1) as nat, n as nat);
    }
}

} // verus!
