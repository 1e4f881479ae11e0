//! A frame: what is drawn in each cell of the grid, and with which colours.

use vstd::prelude::*;

use crate::atlas::FontAtlas;
use crate::font;
use crate::font::{FontStyle, GlyphEntry};
use crate::grid::{Cell, CellAttrs, Color, CursorShape};
use crate::overlay::{OverlayCell, Paint};
use crate::search::{Match, Search, SearchDirection, SearchModel};
use crate::selection;
use crate::selection::Selection;
use crate::session;
use crate::term::{Term, TermModel};
use crate::theme::{Theme, ThemeModel};

verus! {

/// One search hit in the view, from its first to its last column.
#[derive(Copy, Clone, Debug, PartialEq, Eq, Structural)]
pub struct MatchView {
    pub vrow: usize,
    pub col_start: usize,
    pub col_end: usize,
}

/// What is shown of a search.
pub struct SearchOverlay<'a> {
    /// `/` or `?`.
    pub prompt: char,
    pub query: &'a str,
    pub typing: bool,
    /// The hits in view.
    pub matches: Vec<MatchView>,
    /// Which of the hits in view is the current one.
    pub current: Option<usize>,
}

/// The lines that are drawn through the text of a cell, in its colour.
#[derive(Copy, Clone, Debug, PartialEq, Eq, Structural)]
pub struct TextLines {
    pub underline: bool,
    pub strike: bool,
}

/// What is drawn in one cell.
#[derive(Copy, Clone, Debug, PartialEq, Eq, Structural)]
pub struct CellInstance {
    pub col: u32,
    pub row: u32,
    /// The corner of the glyph in the atlas.
    pub glyph_x: u32,
    pub glyph_y: u32,
    pub glyph_w: u32,
    pub glyph_h: u32,
    /// Where the glyph is in the cell.
    pub offset_x: i32,
    pub offset_y: i32,
    pub fg: Paint,
    pub bg: Paint,
    pub lines: TextLines,
}

/// The colours of a theme, for all indices.
pub struct Colors {
    pub palette: Vec<Paint>,
    pub default_fg: Paint,
    pub default_bg: Paint,
    pub cursor_bg: Paint,
    pub cursor_fg: Paint,
}

/// The colours of a theme as a mathematical value.
#[verifier::ext_equal]
pub struct ColorsModel {
    pub palette: Seq<Paint>,
    pub default_fg: Paint,
    pub default_bg: Paint,
    pub cursor_bg: Paint,
    pub cursor_fg: Paint,
}

impl View for Colors {
    type V = ColorsModel;

    open spec fn view(&self) -> ColorsModel {
        ColorsModel {
            palette: self.palette@,
            default_fg: self.default_fg,
            default_bg: self.default_bg,
            cursor_bg: self.cursor_bg,
            cursor_fg: self.cursor_fg,
        }
    }
}

pub open spec fn paint_of(rgb: [u8; 3]) -> Paint {
    Paint::Srgb(rgb@[0], rgb@[1], rgb@[2])
}

/// The six levels of the colour cube.
pub open spec fn cube_level(k: int) -> u8 {
    if k == 0 {
        0
    } else {
        (55 + 40 * k) as u8
    }
}

/// A colour of the palette: the sixteen of the theme, then a cube of six
/// levels of red, green and blue, then a ramp of greys.
pub open spec fn palette_entry(base: Seq<[u8; 3]>, i: int) -> Paint {
    if i < 16 {
        paint_of(base[i])
    } else if i < 232 {
        let k = i - 16;
        Paint::Srgb(cube_level(k / 36), cube_level(k / 6 % 6), cube_level(k % 6))
    } else {
        let v = (8 + 10 * (i - 232)) as u8;
        Paint::Srgb(v, v, v)
    }
}

/// All colours of a theme.
pub open spec fn colors_of(theme: ThemeModel) -> ColorsModel {
    ColorsModel {
        palette: Seq::new(256, |i: int| palette_entry(theme.palette, i)),
        default_fg: paint_of(theme.fg),
        default_bg: paint_of(theme.bg),
        cursor_bg: paint_of(theme.cursor_bg),
        cursor_fg: paint_of(theme.cursor_fg),
    }
}

fn to_paint(rgb: [u8; 3]) -> (p: Paint)
    ensures
        p == paint_of(rgb),
{
    Paint::Srgb(rgb[0], rgb[1], rgb[2])
}

fn level(k: usize) -> (v: u8)
    requires
        k < 6,
    ensures
        v == cube_level(k as int),
{
    if k == 0 {
        0
    } else {
        55 + 40 * k as u8
    }
}

/// All 256 colours that a cell can name by index; see [`palette_entry`].
pub fn build_palette(theme: &Theme) -> (palette: Vec<Paint>)
    ensures
        palette@ == colors_of(theme@).palette,
{
    let mut palette: Vec<Paint> = Vec::new();
    let ghost all = colors_of(theme@).palette;
    let mut i: usize = 0;
    while i < 256
        invariant
            i <= 256,
            palette@.len() == i,
            forall|k: int| 0 <= k < i ==> palette@[k] == palette_entry(theme@.palette, k),
        decreases 256 - i,
    {
        let paint = if i < 16 {
            to_paint(theme.palette[i])
        } else if i < 232 {
            let k: usize = i - 16;
            Paint::Srgb(level(k / 36), level(k / 6 % 6), level(k % 6))
        } else {
            let v: u8 = 8 + 10 * (i - 232) as u8;
            Paint::Srgb(v, v, v)
        };
        palette.push(paint);
        i += 1;
    }
    assert(palette@ =~= all);
    palette
}

impl Colors {
    /// All colours of a theme.
    pub fn of_theme(theme: &Theme) -> (colors: Colors)
        ensures
            colors@ == colors_of(theme@),
    {
        Colors {
            palette: build_palette(theme),
            default_fg: to_paint(theme.fg),
            default_bg: to_paint(theme.bg),
            cursor_bg: to_paint(theme.cursor_bg),
            cursor_fg: to_paint(theme.cursor_fg),
        }
    }
}

/// The paint for a colour.
pub open spec fn resolved(c: Color, palette: Seq<Paint>, default: Paint) -> Paint {
    match c {
        Color::Default => default,
        Color::Indexed(i) => palette[i as int],
        Color::Rgb(r, g, b) => Paint::Srgb(r, g, b),
    }
}

/// The paint for a colour.
pub fn resolve_color(c: Color, palette: &[Paint], default: Paint) -> (p: Paint)
    requires
        palette@.len() == 256,
    ensures
        p == resolved(c, palette@, default),
{
    match c {
        Color::Default => default,
        Color::Indexed(i) => palette[i as usize],
        Color::Rgb(r, g, b) => Paint::Srgb(r, g, b),
    }
}

/// A character without a picture.
pub open spec fn blank_glyph(c: char) -> bool {
    c == ' ' || c == '\0'
}

/// Whether a character has no picture.
pub fn is_blank_glyph(c: char) -> (b: bool)
    ensures
        b == blank_glyph(c),
{
    c == ' ' || c == '\0'
}

/// The glyph of a character; the empty one where there is none.
pub open spec fn glyph_of(atlas: FontAtlas, ch: char, style: FontStyle) -> GlyphEntry {
    match atlas.entry(ch, style) {
        Some(e) => e,
        None => font::no_glyph(),
    }
}

/// All that a frame of the grid depends on.
pub struct Scene {
    pub term: TermModel,
    pub atlas: FontAtlas,
    pub colors: ColorsModel,
    pub selection: Option<Selection>,
    pub matches: Seq<MatchView>,
    pub current: Option<usize>,
    pub cell_w: int,
}

/// A hit lies on a cell.
pub open spec fn hit_on(m: MatchView, row: int, col: int) -> bool {
    m.vrow == row && m.col_start <= col <= m.col_end
}

/// The first hit from `i` on that lies on a cell, or the number of hits.
pub open spec fn hit_at(matches: Seq<MatchView>, row: int, col: int, i: int) -> int
    decreases matches.len() - i,
{
    if i >= matches.len() {
        matches.len() as int
    } else if hit_on(matches[i], row, col) {
        i
    } else {
        hit_at(matches, row, col, i + 1)
    }
}

/// The style of the text of a cell.
pub open spec fn cell_style(cell: Cell) -> FontStyle {
    font::style_of(cell.attrs.holds(CellAttrs::BOLD), cell.attrs.holds(CellAttrs::ITALIC))
}

/// The lines through the text of a cell.
pub open spec fn cell_lines(cell: Cell) -> TextLines {
    TextLines {
        underline: cell.attrs.holds(CellAttrs::UNDERLINE),
        strike: cell.attrs.holds(CellAttrs::STRIKE),
    }
}

/// Text without lines.
pub open spec fn no_lines() -> TextLines {
    TextLines { underline: false, strike: false }
}

impl Scene {
    /// The palette is complete, and the arithmetic on cell widths stays small.
    pub open spec fn wf(self) -> bool {
        &&& self.term.wf()
        &&& self.atlas.wf()
        &&& self.colors.palette.len() == 256
        &&& 0 <= self.cell_w <= 0x4000_0000
    }

    /// The colours of a cell. Inverse text and the selection swap them; a
    /// search hit overrides both.
    pub open spec fn paints(self, cell: Cell, row: int, col: int) -> (Paint, Paint) {
        let fg = resolved(cell.fg, self.colors.palette, self.colors.default_fg);
        let bg = resolved(cell.bg, self.colors.palette, self.colors.default_bg);
        let selected = self.selection matches Some(sel) && sel.covers(row as usize, col as usize);
        let swapped = cell.attrs.holds(CellAttrs::INVERSE) != selected;
        let shown = if swapped {
            (bg, fg)
        } else {
            (fg, bg)
        };
        let hit = hit_at(self.matches, row, col, 0);
        if hit >= self.matches.len() {
            shown
        } else if self.current == Some(hit as usize) {
            (Paint::Srgb(0, 0, 0), Paint::MatchCurrent)
        } else {
            (shown.0, Paint::MatchOther)
        }
    }

    /// The glyph of a cell.
    pub open spec fn glyph(self, cell: Cell) -> GlyphEntry {
        if blank_glyph(cell.ch) {
            font::no_glyph()
        } else {
            glyph_of(self.atlas, cell.ch, cell_style(cell))
        }
    }

    /// What a cell draws: nothing for the spacer of a wide character, and two
    /// halves for the character itself.
    pub open spec fn cell_instances(self, cell: Cell, row: int, col: int) -> Seq<CellInstance> {
        let (fg, bg) = self.paints(cell, row, col);
        let g = self.glyph(cell);
        let lines = cell_lines(cell);
        if cell.width == 0 {
            Seq::empty()
        } else if cell.width == 2 && col + 1 < self.term.screen().cols {
            seq![
                instance_at(col, row, g, 0, fg, bg, lines),
                instance_at(col + 1, row, g, self.cell_w, fg, bg, lines),
            ]
        } else {
            seq![instance_at(col, row, g, 0, fg, bg, lines)]
        }
    }

    /// What the first `n` cells of a row draw.
    pub open spec fn row_instances(self, cells: Seq<Cell>, row: int, n: int) -> Seq<CellInstance>
        decreases n,
    {
        if n <= 0 {
            Seq::empty()
        } else {
            self.row_instances(cells, row, n - 1) + self.cell_instances(cells[n - 1], row, n - 1)
        }
    }

    /// How many cells of a row of the view are drawn.
    pub open spec fn drawn_cells(self, row: int) -> int {
        crate::grid::min_int(
            self.term.screen().cols,
            selection::view_row(self.term, row).len() as int,
        )
    }

    /// What the first `n` rows of the view draw.
    pub open spec fn instances(self, n: int) -> Seq<CellInstance>
        decreases n,
    {
        if n <= 0 {
            Seq::empty()
        } else {
            self.instances(n - 1) + self.row_instances(
                selection::view_row(self.term, n - 1),
                n - 1,
                self.drawn_cells(n - 1),
            )
        }
    }
}

/// What is drawn in a cell for a glyph; `shift` pixels to the left for the
/// right half of a wide one.
pub open spec fn instance_at(
    col: int,
    row: int,
    g: GlyphEntry,
    shift: int,
    fg: Paint,
    bg: Paint,
    lines: TextLines,
) -> CellInstance {
    CellInstance {
        col: col as u32,
        row: row as u32,
        glyph_x: g.atlas_x as u32,
        glyph_y: g.atlas_y as u32,
        glyph_w: g.w as u32,
        glyph_h: g.h as u32,
        offset_x: (g.offset_x - shift) as i32,
        offset_y: g.offset_y as i32,
        fg,
        bg,
        lines,
    }
}

fn make_instance(
    col: usize,
    row: usize,
    g: GlyphEntry,
    shift: i32,
    fg: Paint,
    bg: Paint,
    lines: TextLines,
) -> (inst: CellInstance)
    requires
        0 <= shift <= 0x4000_0000,
    ensures
        inst == instance_at(col as int, row as int, g, shift as int, fg, bg, lines),
{
    CellInstance {
        col: #[verifier::truncate]
        (col as u32),
        row: #[verifier::truncate]
        (row as u32),
        glyph_x: g.atlas_x as u32,
        glyph_y: g.atlas_y as u32,
        glyph_w: g.w as u32,
        glyph_h: g.h as u32,
        offset_x: g.offset_x as i32 - shift,
        offset_y: g.offset_y as i32,
        fg,
        bg,
        lines,
    }
}

/// The contents of a search overlay that may be missing.
pub open spec fn overlay_matches(search: Option<&SearchOverlay<'_>>) -> Seq<MatchView> {
    match search {
        Some(o) => o.matches@,
        None => Seq::empty(),
    }
}

/// The current hit in view, if there is one.
pub open spec fn overlay_current(search: Option<&SearchOverlay<'_>>) -> Option<usize> {
    match search {
        Some(o) => o.current,
        None => None,
    }
}

/// The scene of a frame.
pub open spec fn scene_of(
    t: TermModel,
    atlas: FontAtlas,
    colors: ColorsModel,
    selection: Option<Selection>,
    search: Option<&SearchOverlay<'_>>,
    cell_w: u32,
) -> Scene {
    Scene {
        term: t,
        atlas,
        colors,
        selection,
        matches: overlay_matches(search),
        current: overlay_current(search),
        cell_w: cell_w as int,
    }
}

/// The first hit that lies on a cell, if there is one.
fn find_hit(matches: &[MatchView], row: usize, col: usize) -> (hit: Option<usize>)
    ensures
        hit is None <==> hit_at(matches@, row as int, col as int, 0) >= matches@.len(),
        hit matches Some(i) ==> i == hit_at(matches@, row as int, col as int, 0) && i < matches@.len(),
{
    let mut i: usize = 0;
    while i < matches.len()
        invariant
            i <= matches@.len(),
            hit_at(matches@, row as int, col as int, 0) == hit_at(
                matches@,
                row as int,
                col as int,
                i as int,
            ),
        decreases matches@.len() - i,
    {
        let m = matches[i];
        if m.vrow == row && col >= m.col_start && col <= m.col_end {
            return Some(i);
        }
        i += 1;
    }
    None
}

/// The colours of a cell; see [`Scene::paints`].
fn paint_cell(
    cell: Cell,
    row: usize,
    col: usize,
    colors: &Colors,
    selection: Option<Selection>,
    matches: &[MatchView],
    current: Option<usize>,
    Ghost(scene): Ghost<Scene>,
) -> (paints: (Paint, Paint))
    requires
        scene.wf(),
        colors@ == scene.colors,
        selection == scene.selection,
        matches@ == scene.matches,
        current == scene.current,
    ensures
        paints == scene.paints(cell, row as int, col as int),
{
    let mut fg = resolve_color(cell.fg, colors.palette.as_slice(), colors.default_fg);
    let mut bg = resolve_color(cell.bg, colors.palette.as_slice(), colors.default_bg);
    if cell.attrs.has(CellAttrs::INVERSE) {
        let swap = fg;
        fg = bg;
        bg = swap;
    }
    if let Some(sel) = selection {
        if sel.contains(row, col) {
            let swap = fg;
            fg = bg;
            bg = swap;
        }
    }
    if let Some(hit) = find_hit(matches, row, col) {
        let is_current: bool = match current {
            Some(i) => i == hit,
            None => false,
        };
        if is_current {
            fg = Paint::Srgb(0, 0, 0);
            bg = Paint::MatchCurrent;
        } else {
            bg = Paint::MatchOther;
        }
    }
    (fg, bg)
}

/// What the grid draws, row by row. Each glyph that a cell needs is taken from
/// the atlas as it is.
pub fn grid_frame(
    term: &Term,
    atlas: &FontAtlas,
    colors: &Colors,
    selection: Option<Selection>,
    search: Option<&SearchOverlay<'_>>,
    cell_w: u32,
) -> (instances: Vec<CellInstance>)
    requires
        term.wf(),
        atlas.wf(),
        colors.palette@.len() == 256,
        cell_w <= 0x4000_0000,
    ensures
        instances@ == scene_of(term@, *atlas, colors@, selection, search, cell_w).instances(
            term@.screen().rows,
        ),
{
    let ghost scene = scene_of(term@, *atlas, colors@, selection, search, cell_w);
    let no_matches: Vec<MatchView> = Vec::new();
    let matches: &[MatchView] = match search {
        Some(o) => o.matches.as_slice(),
        None => no_matches.as_slice(),
    };
    assert(matches@ =~= scene.matches);
    let current: Option<usize> = match search {
        Some(o) => o.current,
        None => None,
    };
    let rows: usize = term.grid().rows;
    let cols: usize = term.grid().cols;
    let mut instances: Vec<CellInstance> = Vec::new();
    let mut row: usize = 0;
    while row < rows
        invariant
            row <= rows,
            term.wf(),
            atlas.wf(),
            scene.wf(),
            scene.term == term@,
            scene.atlas == *atlas,
            scene.colors == colors@,
            scene.selection == selection,
            scene.matches == matches@,
            scene.current == current,
            scene.cell_w == cell_w,
            rows == term@.screen().rows,
            cols == term@.screen().cols,
            instances@ == scene.instances(row as int),
        decreases rows - row,
    {
        let cells = &term.viewport_row(row).cells;
        let n: usize = if cols < cells.len() {
            cols
        } else {
            cells.len()
        };
        let ghost above = instances@;
        let mut col: usize = 0;
        assert(instances@ =~= above + scene.row_instances(cells@, row as int, 0));
        while col < n
            invariant
                col <= n,
                n <= cells@.len(),
                n <= cols,
                atlas.wf(),
                scene.wf(),
                scene.term == term@,
                scene.atlas == *atlas,
                scene.colors == colors@,
                scene.selection == selection,
                scene.matches == matches@,
                scene.current == current,
                scene.cell_w == cell_w,
                cols == term@.screen().cols,
                instances@ == above + scene.row_instances(cells@, row as int, col as int),
            decreases n - col,
        {
            let cell = cells[col];
            let ghost before = instances@;
            if cell.width != 0 {
                let glyph = if is_blank_glyph(cell.ch) {
                    GlyphEntry::default()
                } else {
                    let style = FontStyle::from_attrs(
                        cell.attrs.has(CellAttrs::BOLD),
                        cell.attrs.has(CellAttrs::ITALIC),
                    );
                    match atlas.get(cell.ch, style) {
                        Some(e) => e,
                        None => GlyphEntry::default(),
                    }
                };
                let (fg, bg) = paint_cell(
                    cell,
                    row,
                    col,
                    colors,
                    selection,
                    matches,
                    current,
                    Ghost(scene),
                );
                let lines = TextLines {
                    underline: cell.attrs.has(CellAttrs::UNDERLINE),
                    strike: cell.attrs.has(CellAttrs::STRIKE),
                };
                instances.push(make_instance(col, row, glyph, 0, fg, bg, lines));
                if cell.width == 2 && col + 1 < cols {
                    instances.push(
                        make_instance(col + 1, row, glyph, cell_w as i32, fg, bg, lines),
                    );
                }
            }
            assert(instances@ =~= before + scene.cell_instances(cell, row as int, col as int));
            col += 1;
            assert(instances@ =~= above + scene.row_instances(cells@, row as int, col as int));
        }
        row += 1;
    }
    instances
}

/// A cell has a glyph that the atlas does not know yet.
pub open spec fn lacks_glyph(atlas: FontAtlas, cell: Cell) -> bool {
    cell.width != 0 && !blank_glyph(cell.ch) && atlas.entry(cell.ch, cell_style(cell)) is None
}

/// The glyphs that the first `n` cells of a row lack.
pub open spec fn row_lacks(atlas: FontAtlas, cells: Seq<Cell>, n: int) -> Seq<(char, FontStyle)>
    decreases n,
{
    if n <= 0 {
        Seq::empty()
    } else if lacks_glyph(atlas, cells[n - 1]) {
        row_lacks(atlas, cells, n - 1).push((cells[n - 1].ch, cell_style(cells[n - 1])))
    } else {
        row_lacks(atlas, cells, n - 1)
    }
}

/// The glyphs that the first `n` rows of the view lack.
pub open spec fn view_lacks(t: TermModel, atlas: FontAtlas, n: int) -> Seq<(char, FontStyle)>
    decreases n,
{
    if n <= 0 {
        Seq::empty()
    } else {
        let cells = selection::view_row(t, n - 1);
        view_lacks(t, atlas, n - 1) + row_lacks(
            atlas,
            cells,
            crate::grid::min_int(t.screen().cols, cells.len() as int),
        )
    }
}

/// The glyphs that have to be drawn before a frame, in the order in which the
/// cells come.
pub fn missing_glyphs(term: &Term, atlas: &FontAtlas) -> (missing: Vec<(char, FontStyle)>)
    requires
        term.wf(),
        atlas.wf(),
    ensures
        missing@ == view_lacks(term@, *atlas, term@.screen().rows),
{
    let rows: usize = term.grid().rows;
    let cols: usize = term.grid().cols;
    let mut missing: Vec<(char, FontStyle)> = Vec::new();
    let mut row: usize = 0;
    while row < rows
        invariant
            row <= rows,
            term.wf(),
            atlas.wf(),
            rows == term@.screen().rows,
            cols == term@.screen().cols,
            missing@ == view_lacks(term@, *atlas, row as int),
        decreases rows - row,
    {
        let cells = &term.viewport_row(row).cells;
        let n: usize = if cols < cells.len() {
            cols
        } else {
            cells.len()
        };
        let ghost above = missing@;
        let mut col: usize = 0;
        assert(missing@ =~= above + row_lacks(*atlas, cells@, 0));
        while col < n
            invariant
                col <= n,
                n <= cells@.len(),
                atlas.wf(),
                missing@ == above + row_lacks(*atlas, cells@, col as int),
            decreases n - col,
        {
            let cell = cells[col];
            if cell.width != 0 && !is_blank_glyph(cell.ch) {
                let style = FontStyle::from_attrs(
                    cell.attrs.has(CellAttrs::BOLD),
                    cell.attrs.has(CellAttrs::ITALIC),
                );
                if atlas.wants(cell.ch, style) {
                    missing.push((cell.ch, style));
                }
            }
            col += 1;
            assert(missing@ =~= above + row_lacks(*atlas, cells@, col as int));
        }
        row += 1;
    }
    missing
}

/// What is drawn for the first `n` cells over the grid, always in the regular
/// face.
pub open spec fn overlay_instances(
    atlas: FontAtlas,
    cells: Seq<OverlayCell>,
    n: int,
) -> Seq<CellInstance>
    decreases n,
{
    if n <= 0 {
        Seq::empty()
    } else {
        let c = cells[n - 1];
        overlay_instances(atlas, cells, n - 1).push(
            instance_at(
                c.col as int,
                c.row as int,
                glyph_of(atlas, c.ch, FontStyle::Regular),
                0,
                c.fg,
                c.bg,
                no_lines(),
            ),
        )
    }
}

/// Adds what is drawn over the grid.
pub fn push_overlay(instances: &mut Vec<CellInstance>, cells: &[OverlayCell], atlas: &FontAtlas)
    requires
        atlas.wf(),
    ensures
        final(instances)@ == old(instances)@ + overlay_instances(
            *atlas,
            cells@,
            cells@.len() as int,
        ),
{
    let mut i: usize = 0;
    assert(instances@ =~= old(instances)@ + overlay_instances(*atlas, cells@, 0));
    while i < cells.len()
        invariant
            i <= cells@.len(),
            atlas.wf(),
            instances@ == old(instances)@ + overlay_instances(*atlas, cells@, i as int),
        decreases cells@.len() - i,
    {
        let c = cells[i];
        let glyph = match atlas.get(c.ch, FontStyle::Regular) {
            Some(e) => e,
            None => GlyphEntry::default(),
        };
        let lines = TextLines { underline: false, strike: false };
        instances.push(make_instance(c.col, c.row, glyph, 0, c.fg, c.bg, lines));
        i += 1;
        assert(instances@ =~= old(instances)@ + overlay_instances(*atlas, cells@, i as int));
    }
}

/// The glyphs that the first `n` cells over the grid lack.
pub open spec fn overlay_lacks(
    atlas: FontAtlas,
    cells: Seq<OverlayCell>,
    n: int,
) -> Seq<(char, FontStyle)>
    decreases n,
{
    if n <= 0 {
        Seq::empty()
    } else {
        let c = cells[n - 1].ch;
        if !blank_glyph(c) && atlas.entry(c, FontStyle::Regular) is None {
            overlay_lacks(atlas, cells, n - 1).push((c, FontStyle::Regular))
        } else {
            overlay_lacks(atlas, cells, n - 1)
        }
    }
}

/// The glyphs that have to be drawn before what is over the grid.
pub fn missing_overlay_glyphs(cells: &[OverlayCell], atlas: &FontAtlas) -> (missing: Vec<
    (char, FontStyle),
>)
    requires
        atlas.wf(),
    ensures
        missing@ == overlay_lacks(*atlas, cells@, cells@.len() as int),
{
    let mut missing: Vec<(char, FontStyle)> = Vec::new();
    let mut i: usize = 0;
    while i < cells.len()
        invariant
            i <= cells@.len(),
            atlas.wf(),
            missing@ == overlay_lacks(*atlas, cells@, i as int),
        decreases cells@.len() - i,
    {
        let c: char = cells[i].ch;
        if !is_blank_glyph(c) && atlas.wants(c, FontStyle::Regular) {
            missing.push((c, FontStyle::Regular));
        }
        i += 1;
    }
    missing
}

/// Where the cursor is drawn, as column and row, and the number of its shape.
#[derive(Debug)]
pub struct FrameCursor {
    pub cell: (i32, i32),
    pub shape: i32,
}

/// The number of a cursor shape.
pub open spec fn shape_number(shape: CursorShape) -> i32 {
    match shape {
        CursorShape::Block => 1,
        CursorShape::Underline => 2,
        CursorShape::Bar => 3,
        CursorShape::HollowBlock => 4,
    }
}

/// The cursor of a frame as row, column and shape: that of vi mode as a hollow
/// block, else that of the terminal, unless the picker is open or the cursor
/// is in the off half of its blinking.
pub open spec fn shown_cursor(
    t: TermModel,
    vi_cursor: Option<(usize, usize)>,
    picker_open: bool,
    visible_now: bool,
) -> Option<(usize, usize, CursorShape)> {
    match vi_cursor {
        Some((row, col)) => Some((row, col, CursorShape::HollowBlock)),
        None => match session::view_cursor(t) {
            Some((row, col)) => if picker_open || !visible_now {
                None
            } else {
                Some((row, col, t.screen().cursor.shape))
            },
            None => None,
        },
    }
}

/// The cursor of a frame; see [`shown_cursor`]. Without one, the cell is
/// outside the grid and the shape is zero.
pub fn frame_cursor(
    term: &Term,
    vi_cursor: Option<(usize, usize)>,
    picker_open: bool,
    visible_now: bool,
) -> (cursor: FrameCursor)
    requires
        term.wf(),
    ensures
        match shown_cursor(term@, vi_cursor, picker_open, visible_now) {
            Some((row, col, shape)) => {
                &&& cursor.cell == (col as i32, row as i32)
                &&& cursor.shape == shape_number(shape)
            },
            None => cursor.cell == ((-1) as i32, (-1) as i32) && cursor.shape == 0,
        },
{
    let shown: Option<(usize, usize, CursorShape)> = match vi_cursor {
        Some((row, col)) => Some((row, col, CursorShape::HollowBlock)),
        None => match term.viewport_cursor() {
            Some((row, col)) => if picker_open || !visible_now {
                None
            } else {
                Some((row, col, term.cursor_shape()))
            },
            None => None,
        },
    };
    match shown {
        Some((row, col, shape)) => FrameCursor {
            cell: (
                #[verifier::truncate]
                (col as i32),
                #[verifier::truncate]
                (row as i32),
            ),
            shape: match shape {
                CursorShape::Block => 1,
                CursorShape::Underline => 2,
                CursorShape::Bar => 3,
                CursorShape::HollowBlock => 4,
            },
        },
        None => FrameCursor { cell: (-1, -1), shape: 0 },
    }
}

/// A hit is in view.
pub open spec fn hit_in_view(m: Match, top: int, rows: int) -> bool {
    top <= m.row < top + rows
}

/// Those of the first `n` hits that are in view, as places in the view.
pub open spec fn hits_in_view(matches: Seq<Match>, top: int, rows: int, n: int) -> Seq<MatchView>
    decreases n,
{
    if n <= 0 {
        Seq::empty()
    } else if hit_in_view(matches[n - 1], top, rows) {
        hits_in_view(matches, top, rows, n - 1).push(view_of_hit(matches[n - 1], top))
    } else {
        hits_in_view(matches, top, rows, n - 1)
    }
}

/// A hit as a place in the view.
pub open spec fn view_of_hit(m: Match, top: int) -> MatchView {
    MatchView { vrow: (m.row - top) as usize, col_start: m.col_start, col_end: m.col_end }
}

/// Where among the hits in view the current one is.
pub open spec fn current_in_view(s: SearchModel, top: int, rows: int) -> Option<usize> {
    match s.current {
        Some(i) => if i < s.matches.len() && hit_in_view(s.matches[i as int], top, rows) {
            Some(hits_in_view(s.matches, top, rows, i as int).len() as usize)
        } else {
            None
        },
        None => None,
    }
}

/// What stands before the query of a search.
pub open spec fn prompt_of(direction: SearchDirection) -> char {
    match direction {
        SearchDirection::Forward => '/',
        SearchDirection::Backward => '?',
    }
}

/// What is shown of a search on a terminal.
pub fn search_overlay<'a>(search: &'a Search, term: &Term) -> (overlay: SearchOverlay<'a>)
    requires
        term.wf(),
    ensures
        overlay.prompt == (match search.direction {
            SearchDirection::Forward => '/',
            SearchDirection::Backward => '?',
        }),
        overlay.prompt == prompt_of(search.direction),
        overlay.query@ == search.query@,
        overlay.typing == search.typing,
        overlay.matches@ == hits_in_view(
            search.matches@,
            term@.viewport_top(),
            term@.screen().rows,
            search.matches@.len() as int,
        ),
        overlay.current == current_in_view(search@, term@.viewport_top(), term@.screen().rows),
{
    let history: usize = term.grid().scrollback.len();
    let rows: usize = term.grid().rows;
    let offset: usize = term.viewport_offset();
    let top: usize = if offset < history {
        history - offset
    } else {
        0
    };
    let mut matches: Vec<MatchView> = Vec::new();
    let mut current: Option<usize> = None;
    let n: usize = search.matches.len();
    let mut i: usize = 0;
    while i < n
        invariant
            i <= n,
            n == search.matches@.len(),
            top == term@.viewport_top(),
            rows == term@.screen().rows,
            top + rows <= usize::MAX,
            matches@ == hits_in_view(search.matches@, top as int, rows as int, i as int),
            matches@.len() <= i,
            current == (match search.current {
                Some(k) => if k < i && hit_in_view(
                    search.matches@[k as int],
                    top as int,
                    rows as int,
                ) {
                    Some(
                        hits_in_view(
                            search.matches@,
                            top as int,
                            rows as int,
                            k as int,
                        ).len() as usize,
                    )
                } else {
                    None
                },
                None => None,
            }),
        decreases n - i,
    {
        let m = search.matches[i];
        if m.row >= top && m.row < top + rows {
            if let Some(k) = search.current {
                if k == i {
                    current = Some(matches.len());
                }
            }
            matches.push(
                MatchView { vrow: m.row - top, col_start: m.col_start, col_end: m.col_end },
            );
        }
        i += 1;
    }
    SearchOverlay {
        prompt: match search.direction {
            SearchDirection::Forward => '/',
            SearchDirection::Backward => '?',
        },
        query: search.query.as_str(),
        typing: search.typing,
        matches,
        current,
    }
}

/// Every instance of the grid lies on a cell of the grid.
pub proof fn law_frame_stays_on_the_grid(scene: Scene, n: int, k: int)
    requires
        scene.wf(),
        scene.term.screen().cols <= u32::MAX,
        scene.term.screen().rows <= u32::MAX,
        0 <= n <= scene.term.screen().rows,
        0 <= k < scene.instances(n).len(),
    ensures
        scene.instances(n)[k].col < scene.term.screen().cols,
        scene.instances(n)[k].row < n,
    decreases n,
{
    let above = scene.instances(n - 1);
    let cells = selection::view_row(scene.term, n - 1);
    if k < above.len() {
        law_frame_stays_on_the_grid(scene, n - 1, k);
        assert(scene.instances(n)[k] == above[k]);
    } else {
        lemma_row_stays(scene, cells, n - 1, scene.drawn_cells(n - 1), k - above.len());
        assert(scene.instances(n)[k] == scene.row_instances(
            cells,
            n - 1,
            scene.drawn_cells(n - 1),
        )[k - above.len()]);
    }
}

proof fn lemma_row_stays(scene: Scene, cells: Seq<Cell>, row: int, n: int, k: int)
    requires
        0 <= row < scene.term.screen().rows <= u32::MAX,
        n <= scene.term.screen().cols <= u32::MAX,
        0 <= k < scene.row_instances(cells, row, n).len(),
    ensures
        scene.row_instances(cells, row, n)[k].col < scene.term.screen().cols,
        scene.row_instances(cells, row, n)[k].row == row,
    decreases n,
{
    let left = scene.row_instances(cells, row, n - 1);
    if k < left.len() {
        lemma_row_stays(scene, cells, row, n - 1, k);
    } else {
        assert(scene.row_instances(cells, row, n)[k] == scene.cell_instances(
            cells[n - 1],
            row,
            n - 1,
        )[k - left.len()]);
    }
}

/// Every cell of the view is drawn in its place, in its colours, with its glyph
/// and with the lines through its text, except the spacers of wide characters.
pub proof fn law_every_cell_is_drawn(scene: Scene, n: int, row: int, col: int)
    requires
        0 <= row < n,
        0 <= col < scene.drawn_cells(row),
        selection::view_row(scene.term, row)[col].width != 0,
    ensures
        ({
            let cell = selection::view_row(scene.term, row)[col];
            let (fg, bg) = scene.paints(cell, row, col);
            scene.instances(n).contains(
                instance_at(col, row, scene.glyph(cell), 0, fg, bg, cell_lines(cell)),
            )
        }),
    decreases n,
{
    let cell = selection::view_row(scene.term, row)[col];
    let (fg, bg) = scene.paints(cell, row, col);
    let wanted = instance_at(col, row, scene.glyph(cell), 0, fg, bg, cell_lines(cell));
    let above = scene.instances(n - 1);
    let last = scene.row_instances(
        selection::view_row(scene.term, n - 1),
        n - 1,
        scene.drawn_cells(n - 1),
    );
    if row < n - 1 {
        law_every_cell_is_drawn(scene, n - 1, row, col);
        let k = above.index_of(wanted);
        assert(scene.instances(n)[k] == wanted);
    } else {
        lemma_row_draws(
            scene,
            selection::view_row(scene.term, row),
            row,
            scene.drawn_cells(row),
            col,
        );
        let k = last.index_of(wanted);
        assert(scene.instances(n)[above.len() + k] == wanted);
    }
}

proof fn lemma_row_draws(scene: Scene, cells: Seq<Cell>, row: int, n: int, col: int)
    requires
        0 <= col < n,
        cells[col].width != 0,
    ensures
        ({
            let (fg, bg) = scene.paints(cells[col], row, col);
            scene.row_instances(cells, row, n).contains(
                instance_at(
                    col,
                    row,
                    scene.glyph(cells[col]),
                    0,
                    fg,
                    bg,
                    cell_lines(cells[col]),
                ),
            )
        }),
    decreases n,
{
    let (fg, bg) = scene.paints(cells[col], row, col);
    let wanted = instance_at(
        col,
        row,
        scene.glyph(cells[col]),
        0,
        fg,
        bg,
        cell_lines(cells[col]),
    );
    let left = scene.row_instances(cells, row, n - 1);
    if col < n - 1 {
        lemma_row_draws(scene, cells, row, n - 1, col);
        let k = left.index_of(wanted);
        assert(scene.row_instances(cells, row, n)[k] == wanted);
    } else {
        assert(scene.cell_instances(cells[col], row, col)[0] == wanted);
        assert(scene.row_instances(cells, row, n)[left.len() as int] == wanted);
    }
}

} // verus!
