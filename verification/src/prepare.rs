//! Everything that one frame draws, put together.

use vstd::prelude::*;

use crate::atlas::FontAtlas;
use crate::damage;
use crate::damage::{DamageRect, Geometry, LastFrame};
use crate::frame;
use crate::frame::{CellInstance, Colors, ColorsModel, FrameCursor, SearchOverlay};
use crate::overlay;
use crate::overlay::{OverlayCell, PanelColors};
use crate::picker::{Picker, PickerModel};
use crate::selection::Selection;
use crate::term::Term;

verus! {

/// The colours of the theme picker: those of the cursor, with the header and
/// the highlighted entry in those of the page, inverted.
pub open spec fn panel_colors(c: ColorsModel) -> PanelColors {
    PanelColors {
        fg: c.cursor_fg,
        bg: c.cursor_bg,
        bright_fg: c.default_bg,
        bright_bg: c.default_fg,
    }
}

/// The search bar, if a search is shown.
pub open spec fn bar_of(
    search: Option<&SearchOverlay<'_>>,
    rows: int,
    cols: int,
    c: ColorsModel,
) -> Seq<OverlayCell> {
    match search {
        Some(s) => overlay::bar_cells(
            overlay::bar_text(s.prompt, s.query@, s.typing),
            rows,
            cols,
            c.cursor_fg,
            c.cursor_bg,
        ),
        None => Seq::empty(),
    }
}

/// The theme picker, if it is open.
pub open spec fn panel_of(p: Option<PickerModel>, rows: int, cols: int, c: ColorsModel) -> Seq<
    OverlayCell,
> {
    match p {
        Some(m) => overlay::panel_cells(
            m,
            overlay::layout_of(m, rows, cols),
            panel_colors(c),
        ),
        None => Seq::empty(),
    }
}

/// The search bar over a grid of a given size, if a search is shown.
pub fn search_bar_cells(
    search: Option<&SearchOverlay<'_>>,
    rows: usize,
    cols: usize,
    colors: &Colors,
) -> (cells: Vec<OverlayCell>)
    ensures
        cells@ == bar_of(search, rows as int, cols as int, colors@),
{
    match search {
        Some(s) => overlay::search_bar(
            s.prompt,
            s.query,
            s.typing,
            rows,
            cols,
            colors.cursor_fg,
            colors.cursor_bg,
        ),
        None => Vec::new(),
    }
}

/// The theme picker over a grid of a given size.
pub fn picker_cells(p: &mut Picker, rows: usize, cols: usize, colors: &Colors) -> (cells: Vec<
    OverlayCell,
>)
    requires
        old(p)@.wf(),
        rows <= crate::grid::dim_limit(),
        cols <= crate::grid::dim_limit(),
    ensures
        final(p)@.wf(),
        final(p)@ == overlay::laid_out(old(p)@, rows as int),
        cells@ == panel_of(Some(old(p)@), rows as int, cols as int, colors@),
{
    overlay::picker_panel(
        p,
        rows,
        cols,
        PanelColors {
            fg: colors.cursor_fg,
            bg: colors.cursor_bg,
            bright_fg: colors.default_bg,
            bright_bg: colors.default_fg,
        },
    )
}

/// A frame, ready to be drawn.
#[derive(Debug)]
pub struct Prepared {
    /// What to draw, in order: later instances cover earlier ones.
    pub instances: Vec<CellInstance>,
    /// Which parts of the window changed.
    pub damage: Vec<DamageRect>,
    pub cursor: FrameCursor,
}

/// What a frame shows besides the terminal itself.
pub struct Extras<'a> {
    pub selection: Option<Selection>,
    pub search: Option<&'a SearchOverlay<'a>>,
    /// The cells of the search bar and of the theme picker.
    pub over: &'a [OverlayCell],
    pub picker_open: bool,
    pub vi_cursor: Option<(usize, usize)>,
    /// The window has the keyboard, and a blinking cursor is in its on half.
    pub cursor_on: bool,
}

/// Puts a frame together: the grid, what lies over it, the cursor, and what
/// changed since the last frame.
pub fn prepare(
    last: &mut LastFrame,
    g: Geometry,
    term: &Term,
    atlas: &FontAtlas,
    colors: &Colors,
    extras: &Extras<'_>,
) -> (p: Prepared)
    requires
        term.wf(),
        atlas.wf(),
        colors.palette@.len() == 256,
        g.wf(),
        g.cell_w <= 0x4000_0000,
        g.rows == term@.screen().rows,
        g.cols == term@.screen().cols,
    ensures
        ({
            let scene = frame::scene_of(
                term@,
                *atlas,
                colors@,
                extras.selection,
                extras.search,
                g.cell_w as u32,
            );
            let grid = scene.instances(term@.screen().rows);
            &&& p.instances@ == grid + frame::overlay_instances(
                *atlas,
                extras.over@,
                extras.over@.len() as int,
            )
            &&& p.damage@ == damage::damage(
                g,
                *old(last),
                grid,
                p.cursor.cell,
                extras.search is Some || extras.picker_open,
            )
            &&& final(last).grid@ == grid
            &&& final(last).dims == (g.rows, g.cols)
            &&& final(last).cursor == p.cursor.cell
        }),
        match frame::shown_cursor(
            term@,
            extras.vi_cursor,
            extras.picker_open,
            extras.cursor_on,
        ) {
            Some((row, col, shape)) => {
                &&& p.cursor.cell == (col as i32, row as i32)
                &&& p.cursor.shape == frame::shape_number(shape)
            },
            None => p.cursor.cell == ((-1) as i32, (-1) as i32) && p.cursor.shape == 0,
        },
{
    let cursor = frame::frame_cursor(term, extras.vi_cursor, extras.picker_open, extras.cursor_on);
    let cell_w: u32 = g.cell_w as u32;
    let mut instances = frame::grid_frame(
        term,
        atlas,
        colors,
        extras.selection,
        extras.search,
        cell_w,
    );
    proof {
        let scene = frame::scene_of(
            term@,
            *atlas,
            colors@,
            extras.selection,
            extras.search,
            cell_w,
        );
        assert(g.cols <= g.cols * g.cell_w && g.rows <= g.rows * g.cell_h) by (nonlinear_arith)
            requires
                g.cell_w > 0,
                g.cell_h > 0,
        ;
        assert forall|k: int| 0 <= k < instances@.len() implies (#[trigger] instances@[k]).col
            < g.cols && instances@[k].row < g.rows by {
            frame::law_frame_stays_on_the_grid(scene, term@.screen().rows, k);
        }
    }
    let covered: bool = extras.search.is_some() || extras.picker_open;
    let damage = last.compute_damage_rects(g, instances.as_slice(), cursor.cell, covered);
    frame::push_overlay(&mut instances, extras.over, atlas);
    Prepared { instances, damage, cursor }
}

} // verus!
