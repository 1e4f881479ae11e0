//! What a frame shows of each cell: its colours by the theme, its glyph, the
//! lines through its text, and the cursor.

use vstd::prelude::*;

use crate::atlas::FontAtlas;
use crate::damage;
use crate::damage::{DamageRect, Geometry, LastFrame};
use crate::font::{FontStyle, GlyphEntry};
use crate::frame;
use crate::frame::{CellInstance, MatchView, Scene};
use crate::grid::{Cell, Color, CursorShape};
use crate::motion_laws;
use crate::overlay;
use crate::overlay::{OverlayCell, Paint};
use crate::screen_laws;
use crate::search::{Match, SearchDirection, SearchModel};
use crate::selection;
use crate::term::TermModel;
use crate::theme::ThemeModel;

verus! {

/// A colour of a theme as it is painted.
pub open spec fn painted(rgb: [u8; 3]) -> Paint {
    Paint::Srgb(rgb[0], rgb[1], rgb[2])
}

/// The palette begins with the sixteen colours of the theme.
pub proof fn law_palette_begins_with_the_theme(theme: ThemeModel, i: int)
    requires
        0 <= i < 16,
    ensures
        frame::colors_of(theme).palette.len() == 256,
        frame::colors_of(theme).palette[i] == painted(theme.palette[i]),
        frame::colors_of(theme).default_fg == painted(theme.fg),
        frame::colors_of(theme).default_bg == painted(theme.bg),
        frame::colors_of(theme).cursor_fg == painted(theme.cursor_fg),
        frame::colors_of(theme).cursor_bg == painted(theme.cursor_bg),
{
}

/// After the colours of the theme comes a cube of six levels each of red, green and
/// blue, blue changing fastest: 0, 95, 135, 175, 215 and 255.
pub proof fn law_palette_has_a_cube(theme: ThemeModel, r: int, g: int, b: int)
    requires
        0 <= r < 6,
        0 <= g < 6,
        0 <= b < 6,
    ensures
        ({
            let level = |k: int|
                if k == 0 {
                    0
                } else if k == 1 {
                    95
                } else if k == 2 {
                    135
                } else if k == 3 {
                    175
                } else if k == 4 {
                    215
                } else {
                    255int
                };
            frame::colors_of(theme).palette[16 + 36 * r + 6 * g + b] == Paint::Srgb(
                level(r) as u8,
                level(g) as u8,
                level(b) as u8,
            )
        }),
{
    let k = 36 * r + 6 * g + b;
    assert(k / 36 == r && k / 6 == 6 * r + g && (6 * r + g) % 6 == g && k % 6 == b);
}

/// The palette ends with 24 greys, from 8 on in steps of ten.
pub proof fn law_palette_ends_with_greys(theme: ThemeModel, k: int)
    requires
        0 <= k < 24,
    ensures
        ({
            let v = (8 + 10 * k) as u8;
            frame::colors_of(theme).palette[232 + k] == Paint::Srgb(v, v, v)
        }),
{
}

/// What a colour of a cell is painted as: the default, an entry of the palette, or
/// the colour itself.
pub open spec fn paint_for(c: Color, palette: Seq<Paint>, default: Paint) -> Paint {
    if c is Indexed {
        palette[c->Indexed_0 as int]
    } else if c is Rgb {
        Paint::Srgb(c->Rgb_0, c->Rgb_1, c->Rgb_2)
    } else {
        default
    }
}

/// A search hit lies on a place of the view.
pub open spec fn lies_on(m: MatchView, row: int, col: int) -> bool {
    m.vrow == row && m.col_start <= col && col <= m.col_end
}

/// No search hit lies on a place of the view.
pub open spec fn no_hit(scene: Scene, row: int, col: int) -> bool {
    forall|k: int|
        0 <= k < scene.matches.len() ==> !lies_on(#[trigger] scene.matches[k], row, col)
}

/// A place of the view is selected.
pub open spec fn is_selected(scene: Scene, row: int, col: int) -> bool {
    scene.selection is Some && scene.selection->0.covers(row as usize, col as usize)
}

/// Whether text and background of a cell change places: it is inverse or selected,
/// but not both.
pub open spec fn is_swapped(scene: Scene, cell: Cell, row: int, col: int) -> bool {
    let inverse = cell.attrs.0 & 0x10 != 0;
    (inverse && !is_selected(scene, row, col)) || (!inverse && is_selected(scene, row, col))
}

/// Text and background of a cell are painted in its own colours.
pub open spec fn in_own_colors(scene: Scene, cell: Cell, row: int, col: int, fg: Paint) -> bool {
    if is_swapped(scene, cell, row, col) {
        fg == paint_for(cell.bg, scene.colors.palette, scene.colors.default_bg)
    } else {
        fg == paint_for(cell.fg, scene.colors.palette, scene.colors.default_fg)
    }
}

/// The background of a cell is painted in its own colour.
pub open spec fn on_own_color(scene: Scene, cell: Cell, row: int, col: int, bg: Paint) -> bool {
    if is_swapped(scene, cell, row, col) {
        bg == paint_for(cell.fg, scene.colors.palette, scene.colors.default_fg)
    } else {
        bg == paint_for(cell.bg, scene.colors.palette, scene.colors.default_bg)
    }
}

/// The glyph of a character in the face for its attributes, as the atlas has it; a
/// space has none.
pub open spec fn shown_glyph(scene: Scene, cell: Cell) -> Option<GlyphEntry> {
    let (bold, italic) = (cell.attrs.0 & 0x01 != 0, cell.attrs.0 & 0x04 != 0);
    let style = if bold {
        if italic {
            FontStyle::BoldItalic
        } else {
            FontStyle::Bold
        }
    } else if italic {
        FontStyle::Italic
    } else {
        FontStyle::Regular
    };
    if cell.ch == ' ' || cell.ch == '\0' {
        None
    } else {
        scene.atlas.entry(cell.ch, style)
    }
}

/// An instance shows a glyph, `shift` pixels further left than it would be alone.
pub open spec fn shows_glyph(inst: CellInstance, glyph: Option<GlyphEntry>, shift: int) -> bool {
    match glyph {
        Some(g) => {
            &&& inst.glyph_x == g.atlas_x && inst.glyph_y == g.atlas_y
            &&& inst.glyph_w == g.w && inst.glyph_h == g.h
            &&& inst.offset_x == g.offset_x - shift && inst.offset_y == g.offset_y
        },
        None => inst.glyph_w == 0 && inst.glyph_h == 0,
    }
}

/// An instance draws a cell of the view, whose place it is at or right of.
pub open spec fn draws(scene: Scene, inst: CellInstance, row: int, col: int, shift: int) -> bool {
    let cell = motion_laws::seen_row(scene.term, row)[col];
    &&& shows_glyph(inst, shown_glyph(scene, cell), shift)
    &&& inst.lines.underline == (cell.attrs.0 & 0x08 != 0)
    &&& inst.lines.strike == (cell.attrs.0 & 0x20 != 0)
    &&& no_hit(scene, row, col) ==> in_own_colors(scene, cell, row, col, inst.fg) && on_own_color(
        scene,
        cell,
        row,
        col,
        inst.bg,
    )
    &&& !no_hit(scene, row, col) ==> {
        ||| inst.bg == Paint::MatchOther && in_own_colors(scene, cell, row, col, inst.fg)
        ||| {
            &&& inst.bg == Paint::MatchCurrent && inst.fg == Paint::Srgb(0, 0, 0)
            &&& scene.current is Some && scene.current->0 < scene.matches.len()
            &&& lies_on(scene.matches[scene.current->0 as int], row, col)
        }
    }
    &&& {
        &&& scene.current is Some && scene.current->0 < scene.matches.len()
        &&& lies_on(scene.matches[scene.current->0 as int], row, col)
        &&& forall|k: int|
            0 <= k < scene.current->0 ==> !lies_on(#[trigger] scene.matches[k], row, col)
    } ==> inst.bg == Paint::MatchCurrent && inst.fg == Paint::Srgb(0, 0, 0)
}

/// The scene can be drawn: rows and columns can be counted.
pub open spec fn drawable(scene: Scene) -> bool {
    &&& scene.wf()
    &&& screen_laws::in_use(scene.term).rows <= u32::MAX
    &&& screen_laws::in_use(scene.term).cols <= u32::MAX
    &&& scene.matches.len() <= usize::MAX
}

proof fn lemma_hit_at(matches: Seq<MatchView>, row: int, col: int, i: int)
    requires
        0 <= i <= matches.len(),
    ensures
        ({
            let hit = frame::hit_at(matches, row, col, i);
            &&& i <= hit <= matches.len()
            &&& hit < matches.len() ==> lies_on(matches[hit], row, col)
            &&& forall|k: int| i <= k < hit ==> !lies_on(#[trigger] matches[k], row, col)
        }),
    decreases matches.len() - i,
{
    if i < matches.len() && !frame::hit_on(matches[i], row, col) {
        lemma_hit_at(matches, row, col, i + 1);
    }
}

proof fn lemma_instance(scene: Scene, cell: Cell, row: int, col: int, at: int, shift: int)
    requires
        drawable(scene),
        cell == motion_laws::seen_row(scene.term, row)[col],
        0 <= row < screen_laws::in_use(scene.term).rows,
        0 <= col < screen_laws::in_use(scene.term).cols,
        0 <= at <= u32::MAX,
        0 <= shift <= 0x4000_0000,
    ensures
        ({
            let (fg, bg) = scene.paints(cell, row, col);
            let inst = frame::instance_at(
                at,
                row,
                scene.glyph(cell),
                shift,
                fg,
                bg,
                frame::cell_lines(cell),
            );
            &&& draws(scene, inst, row, col, shift)
            &&& inst.col == at && inst.row == row
        }),
{
    lemma_hit_at(scene.matches, row, col, 0);
    let hit = frame::hit_at(scene.matches, row, col, 0);
    if hit < scene.matches.len() {
        assert(lies_on(scene.matches[hit], row, col));
        assert(!no_hit(scene, row, col));
        if scene.current is Some && (scene.current->0 as int) < hit {
            assert(!lies_on(scene.matches[scene.current->0 as int], row, col));
        }
    }
}

/// Every cell of the view that takes room is drawn at its place: in its colours or
/// those of a search hit, with its glyph, and with the lines through its text.
pub proof fn law_cells_are_drawn(scene: Scene, n: int, row: int, col: int)
    requires
        drawable(scene),
        0 <= row < n <= screen_laws::in_use(scene.term).rows,
        0 <= col < screen_laws::in_use(scene.term).cols,
        col < motion_laws::seen_row(scene.term, row).len(),
        motion_laws::seen_row(scene.term, row)[col].width != 0,
    ensures
        exists|k: int|
            0 <= k < scene.instances(n).len() && {
                let inst = #[trigger] scene.instances(n)[k];
                inst.row == row && inst.col == col && draws(scene, inst, row, col, 0)
            },
{
    motion_laws::law_view_is_history_and_screen(scene.term, row);
    let cell = motion_laws::seen_row(scene.term, row)[col];
    frame::law_every_cell_is_drawn(scene, n, row, col);
    lemma_instance(scene, cell, row, col, col, 0);
    let (fg, bg) = scene.paints(cell, row, col);
    let inst = frame::instance_at(
        col,
        row,
        scene.glyph(cell),
        0,
        fg,
        bg,
        frame::cell_lines(cell),
    );
    let k = scene.instances(n).index_of(inst);
    assert(scene.instances(n)[k] == inst);
}

/// A cell whose text has a colour of the palette is drawn in that colour of the
/// theme, and one whose background has one on that, unless it is inverse, selected
/// or found.
pub proof fn law_indexed_colors_are_those_of_the_theme(
    scene: Scene,
    theme: ThemeModel,
    row: int,
    col: int,
    i: u8,
)
    requires
        drawable(scene),
        scene.colors == frame::colors_of(theme),
        0 <= row < screen_laws::in_use(scene.term).rows,
        0 <= col < screen_laws::in_use(scene.term).cols,
        col < motion_laws::seen_row(scene.term, row).len(),
        motion_laws::seen_row(scene.term, row)[col].width != 0,
        motion_laws::seen_row(scene.term, row)[col].attrs.0 & 0x10 == 0,
        !is_selected(scene, row, col),
        no_hit(scene, row, col),
        i < 16,
    ensures
        ({
            let cell = motion_laws::seen_row(scene.term, row)[col];
            let all = scene.instances(screen_laws::in_use(scene.term).rows);
            exists|k: int|
                0 <= k < all.len() && (#[trigger] all[k]).row == row && all[k].col == col && {
                    &&& cell.fg == Color::Indexed(i) ==> all[k].fg == painted(
                        theme.palette[i as int],
                    )
                    &&& cell.bg == Color::Indexed(i) ==> all[k].bg == painted(
                        theme.palette[i as int],
                    )
                    &&& cell.fg == Color::Default ==> all[k].fg == painted(theme.fg)
                    &&& cell.bg == Color::Default ==> all[k].bg == painted(theme.bg)
                }
        }),
{
    let rows = screen_laws::in_use(scene.term).rows;
    let all = scene.instances(rows);
    law_cells_are_drawn(scene, rows, row, col);
    law_palette_begins_with_the_theme(theme, i as int);
    let k = choose|k: int|
        0 <= k < all.len() && {
            let inst = #[trigger] all[k];
            inst.row == row && inst.col == col && draws(scene, inst, row, col, 0)
        };
    assert(draws(scene, all[k], row, col, 0));
}

/// An instance draws the cell at its place, or the right half of the wide
/// character at the place left of it.
pub open spec fn is_drawn_right(scene: Scene, inst: CellInstance) -> bool {
    let (row, col) = (inst.row as int, inst.col as int);
    let cells = motion_laws::seen_row(scene.term, row);
    ||| {
        &&& col < cells.len() && cells[col].width != 0
        &&& draws(scene, inst, row, col, 0)
    }
    ||| {
        &&& 0 < col <= cells.len() && cells[col - 1].width == 2
        &&& draws(scene, inst, row, col - 1, scene.cell_w)
    }
}

/// Nothing is drawn of the grid but its cells, and the right halves of wide
/// characters beside them.
pub proof fn law_nothing_else_is_drawn(scene: Scene, n: int, k: int)
    requires
        drawable(scene),
        0 <= n <= screen_laws::in_use(scene.term).rows,
        0 <= k < scene.instances(n).len(),
    ensures
        is_drawn_right(scene, scene.instances(n)[k]),
        scene.instances(n)[k].row < n,
    decreases n,
{
    let above = scene.instances(n - 1);
    if k < above.len() {
        law_nothing_else_is_drawn(scene, n - 1, k);
        assert(scene.instances(n)[k] == above[k]);
    } else {
        motion_laws::law_view_is_history_and_screen(scene.term, n - 1);
        let cells = selection::view_row(scene.term, n - 1);
        let m = scene.drawn_cells(n - 1);
        lemma_row_is_drawn_right(scene, cells, n - 1, m, k - above.len());
        assert(scene.instances(n)[k] == scene.row_instances(cells, n - 1, m)[k - above.len()]);
    }
}

proof fn lemma_row_is_drawn_right(scene: Scene, cells: Seq<Cell>, row: int, n: int, k: int)
    requires
        drawable(scene),
        0 <= row < screen_laws::in_use(scene.term).rows,
        cells == motion_laws::seen_row(scene.term, row),
        n <= cells.len(),
        n <= screen_laws::in_use(scene.term).cols,
        0 <= k < scene.row_instances(cells, row, n).len(),
    ensures
        is_drawn_right(scene, scene.row_instances(cells, row, n)[k]),
        scene.row_instances(cells, row, n)[k].row == row,
    decreases n,
{
    let left = scene.row_instances(cells, row, n - 1);
    if k < left.len() {
        lemma_row_is_drawn_right(scene, cells, row, n - 1, k);
        assert(scene.row_instances(cells, row, n)[k] == left[k]);
    } else {
        let cell = cells[n - 1];
        let here = scene.cell_instances(cell, row, n - 1);
        assert(scene.row_instances(cells, row, n)[k] == here[k - left.len()]);
        lemma_instance(scene, cell, row, n - 1, n - 1, 0);
        if k - left.len() == 1 {
            lemma_instance(scene, cell, row, n - 1, n, scene.cell_w);
        }
    }
}

/// Of what lies over the grid, each cell is drawn at its place, in its colours,
/// with the glyph of its character in the regular face and without lines.
pub proof fn law_overlay_is_drawn(atlas: FontAtlas, cells: Seq<OverlayCell>, n: int, k: int)
    requires
        0 <= k < n <= cells.len(),
        cells[k].col <= u32::MAX,
        cells[k].row <= u32::MAX,
    ensures
        ({
            let all = frame::overlay_instances(atlas, cells, n);
            let inst = all[k];
            &&& all.len() == n
            &&& inst.row == cells[k].row && inst.col == cells[k].col
            &&& inst.fg == cells[k].fg && inst.bg == cells[k].bg
            &&& shows_glyph(inst, atlas.entry(cells[k].ch, FontStyle::Regular), 0)
            &&& !inst.lines.underline && !inst.lines.strike
        }),
    decreases n,
{
    lemma_overlay_len(atlas, cells, n);
    lemma_overlay_len(atlas, cells, n - 1);
    if k < n - 1 {
        law_overlay_is_drawn(atlas, cells, n - 1, k);
    }
}

proof fn lemma_overlay_len(atlas: FontAtlas, cells: Seq<OverlayCell>, n: int)
    requires
        0 <= n,
    ensures
        frame::overlay_instances(atlas, cells, n).len() == n,
    decreases n,
{
    if n > 0 {
        lemma_overlay_len(atlas, cells, n - 1);
    }
}

/// The cursor of vi mode is a hollow block and always shown. Otherwise that of the
/// terminal is shown in its own shape, moved down by as many rows as the view is
/// scrolled back, if it is visible and still in view, unless the picker is open or
/// it is in the off half of its blinking.
pub proof fn law_cursor_of_a_frame(
    t: TermModel,
    vi_cursor: Option<(usize, usize)>,
    picker_open: bool,
    on: bool,
)
    requires
        t.wf(),
    ensures
        ({
            let g = screen_laws::in_use(t);
            let shown = frame::shown_cursor(t, vi_cursor, picker_open, on);
            let row = g.cursor.row + t.viewport_offset;
            let seen = g.cursor.visible && row < g.rows && !picker_open && on;
            &&& vi_cursor matches Some((r, c)) ==> shown == Some((r, c, CursorShape::HollowBlock))
            &&& vi_cursor is None && seen ==> shown == Some(
                (row as usize, g.cursor.col as usize, g.cursor.shape),
            )
            &&& vi_cursor is None && !seen ==> shown is None
        }),
{
}

/// The numbers of the shapes are all different, and none is zero.
pub proof fn law_shapes_have_numbers()
    ensures
        frame::shape_number(CursorShape::Block) == 1,
        frame::shape_number(CursorShape::Underline) == 2,
        frame::shape_number(CursorShape::Bar) == 3,
        frame::shape_number(CursorShape::HollowBlock) == 4,
{
}

/// The hits that are shown are those in view, in their order: each is the hit of
/// some row of the view, in the same columns, and no hit in view is left out.
pub proof fn law_hits_in_view(matches: Seq<Match>, top: int, rows: int, n: int, k: int)
    requires
        0 <= top,
        0 <= n <= matches.len(),
        rows <= usize::MAX,
    ensures
        ({
            let shown = frame::hits_in_view(matches, top, rows, n);
            &&& shown.len() <= n
            &&& 0 <= k < shown.len() ==> exists|i: int|
                0 <= i < n && top <= (#[trigger] matches[i]).row < top + rows && shown[k].vrow
                    == matches[i].row - top && shown[k].col_start == matches[i].col_start
                    && shown[k].col_end == matches[i].col_end
            &&& 0 <= k < n && top <= matches[k].row < top + rows ==> {
                let at = frame::hits_in_view(matches, top, rows, k).len() as int;
                &&& at < shown.len()
                &&& shown[at].vrow == matches[k].row - top
                &&& shown[at].col_start == matches[k].col_start
                &&& shown[at].col_end == matches[k].col_end
            }
        }),
    decreases n,
{
    if n > 0 {
        law_hits_in_view(matches, top, rows, n - 1, k);
        let shown = frame::hits_in_view(matches, top, rows, n);
        let before = frame::hits_in_view(matches, top, rows, n - 1);
        let last = matches[n - 1];
        if 0 <= k < shown.len() && k < before.len() {
            let i = choose|i: int|
                0 <= i < n - 1 && top <= (#[trigger] matches[i]).row < top + rows && before[k].vrow
                    == matches[i].row - top && before[k].col_start == matches[i].col_start
                    && before[k].col_end == matches[i].col_end;
            assert(shown[k] == before[k]);
            assert(top <= matches[i].row < top + rows);
        }
    }
}

/// The current hit is shown as such if it is in view, at its place among those in
/// view.
pub proof fn law_current_hit_in_view(s: SearchModel, top: int, rows: int)
    requires
        0 <= top,
        rows <= usize::MAX,
        s.matches.len() <= usize::MAX,
        s.current matches Some(i) ==> i < s.matches.len(),
    ensures
        ({
            let shown = frame::hits_in_view(s.matches, top, rows, s.matches.len() as int);
            let current = frame::current_in_view(s, top, rows);
            let hit = s.matches[s.current->0 as int];
            let in_view = s.current is Some && top <= hit.row < top + rows;
            &&& current is Some <==> in_view
            &&& in_view ==> {
                let m = shown[current->0 as int];
                &&& current->0 < shown.len()
                &&& m.vrow == hit.row - top && m.col_start == hit.col_start && m.col_end
                    == hit.col_end
            }
        }),
{
    if s.current is Some {
        law_hits_in_view(s.matches, top, rows, s.matches.len() as int, s.current->0 as int);
        law_hits_in_view(s.matches, top, rows, s.current->0 as int, 0);
    }
}

/// A cell lacks its glyph.
pub open spec fn wanting(atlas: FontAtlas, cell: Cell, want: (char, FontStyle)) -> bool {
    let (bold, italic) = (cell.attrs.0 & 0x01 != 0, cell.attrs.0 & 0x04 != 0);
    &&& cell.width != 0 && cell.ch != ' ' && cell.ch != '\0'
    &&& want.0 == cell.ch
    &&& bold && italic ==> want.1 == FontStyle::BoldItalic
    &&& bold && !italic ==> want.1 == FontStyle::Bold
    &&& !bold && italic ==> want.1 == FontStyle::Italic
    &&& !bold && !italic ==> want.1 == FontStyle::Regular
    &&& atlas.entry(want.0, want.1) is None
}

/// Of a row, exactly the glyphs that its cells lack are asked for.
pub proof fn law_missing_glyphs_are_asked_for(
    atlas: FontAtlas,
    cells: Seq<Cell>,
    n: int,
    want: (char, FontStyle),
)
    requires
        0 <= n <= cells.len(),
    ensures
        frame::row_lacks(atlas, cells, n).contains(want) <==> exists|c: int|
            0 <= c < n && wanting(atlas, #[trigger] cells[c], want),
    decreases n,
{
    if n > 0 {
        law_missing_glyphs_are_asked_for(atlas, cells, n - 1, want);
        let before = frame::row_lacks(atlas, cells, n - 1);
        let all = frame::row_lacks(atlas, cells, n);
        let cell = cells[n - 1];
        if all.contains(want) {
            let k = all.index_of(want);
            if k < before.len() {
                assert(before[k] == want);
                assert(before.contains(want));
                let c = choose|c: int| 0 <= c < n - 1 && wanting(atlas, #[trigger] cells[c], want);
                assert(wanting(atlas, cells[c], want));
            } else {
                assert(wanting(atlas, cells[n - 1], want));
            }
        }
        if exists|c: int| 0 <= c < n && wanting(atlas, #[trigger] cells[c], want) {
            let c = choose|c: int| 0 <= c < n && wanting(atlas, #[trigger] cells[c], want);
            if c < n - 1 {
                assert(before.contains(want));
                let k = before.index_of(want);
                assert(all[k] == want);
            } else {
                assert(all.last() == want);
            }
        }
    }
}

/// The part of the window that a cell takes, whose rows of pixels count from the
/// bottom, lies in a rectangle.
pub open spec fn pixels_in(g: Geometry, r: DamageRect, row: int, col: int) -> bool {
    &&& r.x <= col * g.cell_w
    &&& (col + 1) * g.cell_w <= r.x + r.width
    &&& r.y <= g.screen_h - (row + 1) * g.cell_h
    &&& g.screen_h - row * g.cell_h <= r.y + r.height
}

/// Every pixel of a cell that changed is drawn again.
pub proof fn law_changed_pixels_are_drawn(
    g: Geometry,
    last: LastFrame,
    grid: Seq<CellInstance>,
    cursor: (i32, i32),
    covered: bool,
    k: int,
)
    requires
        g.wf(),
        damage::on_grid(g, grid),
        0 <= k < grid.len(),
    ensures
        ({
            let rects = damage::damage(g, last, grid, cursor, covered);
            let anew = covered || last.grid@.len() != grid.len() || last.dims.0 != g.rows
                || last.dims.1 != g.cols;
            let whole = DamageRect { x: 0, y: 0, width: g.screen_w, height: g.screen_h };
            &&& anew ==> rects == seq![whole]
            &&& !anew && grid[k] != last.grid@[k] ==> exists|r: int|
                0 <= r < rects.len() && pixels_in(
                    g,
                    #[trigger] rects[r],
                    grid[k].row as int,
                    grid[k].col as int,
                )
        }),
{
    let rects = damage::damage(g, last, grid, cursor, covered);
    if !damage::starts_over(g, last, grid, covered) && grid[k] != last.grid@[k] {
        damage::law_changes_are_drawn(g, last, grid, cursor, k);
        let (row, col) = (grid[k].row as int, grid[k].col as int);
        let r = choose|r: int| 0 <= r < rects.len() && damage::covers(g, #[trigger] rects[r], row, col);
        assert((row + 1) * g.cell_h == row * g.cell_h + g.cell_h) by (nonlinear_arith);
        assert(pixels_in(g, rects[r], row, col));
    }
}

/// A search forward is shown after a slash, one backward after a question mark.
pub proof fn law_prompts()
    ensures
        frame::prompt_of(SearchDirection::Forward) == '/',
        frame::prompt_of(SearchDirection::Backward) == '?',
{
}

/// The search bar takes the last row: the prompt, the query, and an underscore
/// after it while it is typed, as far as they fit, on a bar over all columns.
pub proof fn law_search_bar(
    prompt: char,
    query: Seq<char>,
    typing: bool,
    rows: int,
    cols: int,
    fg: Paint,
    bg: Paint,
    k: int,
)
    requires
        0 < rows <= usize::MAX,
        0 <= cols <= usize::MAX,
    ensures
        ({
            let cells = overlay::bar_cells(
                overlay::bar_text(prompt, query, typing),
                rows,
                cols,
                fg,
                bg,
            );
            let shown = if typing {
                query.len() + 2
            } else {
                query.len() + 1
            };
            let cell = cells[cols + k];
            &&& 0 <= k < cells.len() ==> {
                &&& cells[k].row == rows - 1 && cells[k].fg == fg && cells[k].bg == bg
                &&& cells[k].col < cols
            }
            &&& 0 <= k < cols ==> cells[k].col == k && cells[k].ch == ' '
            &&& cells.len() == cols + (if shown <= cols {
                shown as int
            } else {
                cols
            })
            &&& 0 <= k < shown && k < cols ==> {
                &&& cell.col == k
                &&& k == 0 ==> cell.ch == prompt
                &&& 0 < k <= query.len() ==> cell.ch == query[k - 1]
                &&& k == query.len() + 1 ==> cell.ch == '_'
            }
        }),
{
}

} // verus!
