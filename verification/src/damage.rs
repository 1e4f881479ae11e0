//! What changed between two frames, as rectangles of the window, so that the
//! rest need not be drawn again.

use vstd::prelude::*;

use crate::frame::CellInstance;

verus! {

/// A rectangle of the window in pixels, from the bottom left corner.
#[derive(Copy, Clone, Debug, PartialEq, Eq, Structural)]
pub struct DamageRect {
    pub x: i32,
    pub y: i32,
    pub width: i32,
    pub height: i32,
}

/// The sizes of cells, window and grid.
#[derive(Copy, Clone, Debug, PartialEq, Eq, Structural)]
pub struct Geometry {
    pub cell_w: i32,
    pub cell_h: i32,
    pub screen_w: i32,
    pub screen_h: i32,
    pub rows: usize,
    pub cols: usize,
}

impl Geometry {
    /// Cells have a size, and the grid fits into what can be counted.
    pub open spec fn wf(self) -> bool {
        &&& 0 < self.cell_w
        &&& 0 < self.cell_h
        &&& 0 <= self.screen_w
        &&& 0 <= self.screen_h
        &&& self.rows * self.cell_h <= i32::MAX
        &&& self.cols * self.cell_w <= i32::MAX
    }

    /// Whether cells have a size, and the grid fits into what can be counted.
    pub fn is_wf(&self) -> (ok: bool)
        ensures
            ok == self.wf(),
    {
        self.cell_w > 0 && self.cell_h > 0 && self.screen_w >= 0 && self.screen_h >= 0
            && fits_in_i32(self.rows, self.cell_h) && fits_in_i32(self.cols, self.cell_w)
    }
}

fn fits_in_i32(n: usize, size: i32) -> (fits: bool)
    requires
        size > 0,
    ensures
        fits == (n * size <= i32::MAX),
{
    assert(0 <= n * size <= usize::MAX * i32::MAX) by (nonlinear_arith)
        requires
            0 < size <= i32::MAX,
            n <= usize::MAX,
    ;
    assert(usize::MAX * i32::MAX <= u128::MAX) by (nonlinear_arith)
        requires
            usize::MAX <= u64::MAX,
    ;
    n as u128 * size as u128 <= i32::MAX as u128
}

/// The cells from one column to another of a row, as a rectangle of the window,
/// whose rows count from the bottom.
pub open spec fn row_rect(g: Geometry, row: int, first: int, last: int) -> DamageRect {
    DamageRect {
        x: (first * g.cell_w) as i32,
        y: (g.screen_h - (row + 1) * g.cell_h) as i32,
        width: ((last - first + 1) * g.cell_w) as i32,
        height: g.cell_h,
    }
}

/// The least column among the changed instances from `from` to `to`, or -1.
pub open spec fn first_changed(
    grid: Seq<CellInstance>,
    prev: Seq<CellInstance>,
    from: int,
    to: int,
) -> int
    decreases to - from,
{
    if to <= from {
        -1
    } else {
        let before = first_changed(grid, prev, from, to - 1);
        let col = grid[to - 1].col as int;
        if grid[to - 1] != prev[to - 1] && (before < 0 || col < before) {
            col
        } else {
            before
        }
    }
}

/// The greatest column among the changed instances from `from` to `to`, or -1.
pub open spec fn last_changed(
    grid: Seq<CellInstance>,
    prev: Seq<CellInstance>,
    from: int,
    to: int,
) -> int
    decreases to - from,
{
    if to <= from {
        -1
    } else {
        let before = last_changed(grid, prev, from, to - 1);
        let col = grid[to - 1].col as int;
        if grid[to - 1] != prev[to - 1] && col > before {
            col
        } else {
            before
        }
    }
}

/// The end of the instances from `i` on that are in the row of the instance at
/// `start`.
pub open spec fn row_end(grid: Seq<CellInstance>, start: int, i: int) -> int
    decreases grid.len() - i,
{
    if i < grid.len() && grid[i].row == grid[start].row {
        row_end(grid, start, i + 1)
    } else {
        i
    }
}

/// The end of a row is after its beginning.
proof fn lemma_row_end(grid: Seq<CellInstance>, start: int, i: int)
    requires
        0 <= start <= i <= grid.len(),
    ensures
        i <= row_end(grid, start, i) <= grid.len(),
        i == start && start < grid.len() ==> start < row_end(grid, start, i),
        forall|k: int|
            i <= k < row_end(grid, start, i) ==> (#[trigger] grid[k]).row == grid[start].row,
    decreases grid.len() - i,
{
    if i < grid.len() && grid[i].row == grid[start].row {
        lemma_row_end(grid, start, i + 1);
    }
}

/// The changed part of each row of instances from `i` on.
pub open spec fn changed_rows(
    g: Geometry,
    grid: Seq<CellInstance>,
    prev: Seq<CellInstance>,
    i: int,
) -> Seq<DamageRect>
    decreases
            (if i < grid.len() {
                grid.len() - i
            } else {
                0
            }),
{
    if i >= grid.len() || i < 0 {
        Seq::empty()
    } else {
        let end = row_end(grid, i, i);
        let first = first_changed(grid, prev, i, end);
        let rest = if end > i {
            changed_rows(g, grid, prev, end)
        } else {
            Seq::empty()
        };
        if first >= 0 {
            seq![
                row_rect(g, grid[i].row as int, first, last_changed(grid, prev, i, end)),
            ] + rest
        } else {
            rest
        }
    }
}

/// The rectangle of a cursor, if it is on the grid.
pub open spec fn cursor_rect(g: Geometry, cursor: (i32, i32)) -> Seq<DamageRect> {
    if 0 <= cursor.0 < g.cols && 0 <= cursor.1 < g.rows {
        seq![row_rect(g, cursor.1 as int, cursor.0 as int, cursor.0 as int)]
    } else {
        Seq::empty()
    }
}

/// What is known of the last frame.
pub struct LastFrame {
    pub grid: Vec<CellInstance>,
    /// The rows and columns of the grid.
    pub dims: (usize, usize),
    /// Column and row of the cursor, or outside the grid.
    pub cursor: (i32, i32),
}

/// The frame before cannot be compared with: there was none, the grid has
/// another size or layout, or something is drawn over it.
pub open spec fn starts_over(
    g: Geometry,
    last: LastFrame,
    grid: Seq<CellInstance>,
    covered: bool,
) -> bool {
    ||| last.grid@.len() == 0
    ||| last.dims != (g.rows, g.cols)
    ||| grid.len() != last.grid@.len()
    ||| covered
}

/// The rectangles to draw again: all of the window where the frames cannot be
/// compared; else the changed part of each row and the old and new place of
/// the cursor, and one pixel where nothing changed.
pub open spec fn damage(
    g: Geometry,
    last: LastFrame,
    grid: Seq<CellInstance>,
    cursor: (i32, i32),
    covered: bool,
) -> Seq<DamageRect> {
    if starts_over(g, last, grid, covered) {
        seq![DamageRect { x: 0, y: 0, width: g.screen_w, height: g.screen_h }]
    } else {
        let rects = changed_rows(g, grid, last.grid@, 0) + (if cursor != last.cursor {
            cursor_rect(g, last.cursor) + cursor_rect(g, cursor)
        } else {
            Seq::empty()
        });
        if rects.len() == 0 {
            seq![DamageRect { x: 0, y: 0, width: 1, height: 1 }]
        } else {
            rects
        }
    }
}

/// All instances lie on the grid.
pub open spec fn on_grid(g: Geometry, grid: Seq<CellInstance>) -> bool {
    forall|k: int|
        0 <= k < grid.len() ==> (#[trigger] grid[k]).col < g.cols && grid[k].row < g.rows
}

/// Adds the cells from one column to another of a row; see [`row_rect`].
fn push_row_damage(out: &mut Vec<DamageRect>, g: Geometry, row: i32, first: i32, last: i32)
    requires
        g.wf(),
        0 <= row < g.rows,
        0 <= first <= last < g.cols,
    ensures
        final(out)@ == old(out)@.push(row_rect(g, row as int, first as int, last as int)),
{
    assert(0 <= first * g.cell_w <= g.cols * g.cell_w) by (nonlinear_arith)
        requires
            0 <= first < g.cols,
            g.cell_w > 0,
    ;
    assert(0 <= (last - first + 1) * g.cell_w <= g.cols * g.cell_w) by (nonlinear_arith)
        requires
            0 <= first <= last < g.cols,
            g.cell_w > 0,
    ;
    assert(0 <= (row + 1) * g.cell_h <= g.rows * g.cell_h) by (nonlinear_arith)
        requires
            0 <= row < g.rows,
            g.cell_h > 0,
    ;
    assert(row + 1 <= (row + 1) * g.cell_h) by (nonlinear_arith)
        requires
            0 <= row,
            g.cell_h > 0,
    ;
    assert(last - first + 1 <= (last - first + 1) * g.cell_w) by (nonlinear_arith)
        requires
            first <= last,
            g.cell_w > 0,
    ;
    out.push(
        DamageRect {
            x: first * g.cell_w,
            y: g.screen_h - (row + 1) * g.cell_h,
            width: (last - first + 1) * g.cell_w,
            height: g.cell_h,
        },
    );
}

proof fn lemma_changed_columns(
    g: Geometry,
    grid: Seq<CellInstance>,
    prev: Seq<CellInstance>,
    from: int,
    to: int,
)
    requires
        0 <= from <= to <= grid.len(),
        on_grid(g, grid),
    ensures
        ({
            let first = first_changed(grid, prev, from, to);
            let last = last_changed(grid, prev, from, to);
            &&& -1 <= first <= last < g.cols
            &&& first < 0 <==> last < 0
            &&& forall|k: int|
                from <= k < to && grid[k] != prev[k] ==> first >= 0 && first
                    <= (#[trigger] grid[k]).col <= last
        }),
    decreases to - from,
{
    if to > from {
        lemma_changed_columns(g, grid, prev, from, to - 1);
    }
}

/// Adds the old and the new place of the cursor, if it is on the grid.
fn push_cursor_damage(out: &mut Vec<DamageRect>, g: Geometry, cursor: (i32, i32))
    requires
        g.wf(),
    ensures
        final(out)@ == old(out)@ + cursor_rect(g, cursor),
{
    if cursor.0 >= 0 && cursor.1 >= 0 && (cursor.0 as usize) < g.cols && (cursor.1 as usize)
        < g.rows {
        push_row_damage(out, g, cursor.1, cursor.0, cursor.0);
    }
    assert(out@ =~= old(out)@ + cursor_rect(g, cursor));
}

/// Adds the changed part of each row; see [`changed_rows`].
fn push_changed_rows(
    out: &mut Vec<DamageRect>,
    g: Geometry,
    grid: &[CellInstance],
    prev: &[CellInstance],
)
    requires
        g.wf(),
        on_grid(g, grid@),
        grid@.len() == prev@.len(),
    ensures
        final(out)@ == old(out)@ + changed_rows(g, grid@, prev@, 0),
{
    let mut i: usize = 0;
    while i < grid.len()
        invariant
            i <= grid@.len(),
            g.wf(),
            on_grid(g, grid@),
            grid@.len() == prev@.len(),
            out@ + changed_rows(g, grid@, prev@, i as int) == old(out)@ + changed_rows(
                g,
                grid@,
                prev@,
                0,
            ),
        decreases grid@.len() - i,
    {
        let start: usize = i;
        let row: u32 = grid[start].row;
        let mut first: i64 = -1;
        let mut last: i64 = -1;
        let mut k: usize = start;
        while k < grid.len() && grid[k].row == row
            invariant
                start <= k <= grid@.len(),
                grid@.len() == prev@.len(),
                row == grid@[start as int].row,
                first == first_changed(grid@, prev@, start as int, k as int),
                last == last_changed(grid@, prev@, start as int, k as int),
                row_end(grid@, start as int, start as int) == row_end(
                    grid@,
                    start as int,
                    k as int,
                ),
            decreases grid@.len() - k,
        {
            if grid[k] != prev[k] {
                let col: i64 = grid[k].col as i64;
                if first < 0 || col < first {
                    first = col;
                }
                if col > last {
                    last = col;
                }
            }
            k += 1;
        }
        proof {
            lemma_row_end(grid@, start as int, start as int);
            lemma_changed_columns(g, grid@, prev@, start as int, k as int);
        }
        let ghost before = out@;
        if first >= 0 {
            assert(g.cols <= g.cols * g.cell_w && g.rows <= g.rows * g.cell_h)
                by (nonlinear_arith)
                requires
                    g.cell_w > 0,
                    g.cell_h > 0,
            ;
            push_row_damage(out, g, row as i32, first as i32, last as i32);
        }
        proof {
            let rest = changed_rows(g, grid@, prev@, k as int);
            assert(out@ + rest =~= before + changed_rows(g, grid@, prev@, start as int));
        }
        i = k;
    }
    assert(out@ + changed_rows(g, grid@, prev@, i as int) =~= out@);
}

impl LastFrame {
    /// Before the first frame.
    pub fn new() -> (last: LastFrame)
        ensures
            last.grid@.len() == 0,
            last.dims == (0usize, 0usize),
            last.cursor == ((-1) as i32, (-1) as i32),
    {
        LastFrame { grid: Vec::new(), dims: (0, 0), cursor: (-1, -1) }
    }

    /// Compares a frame with the last one, and remembers it. `covered` says
    /// that something is drawn over the grid.
    pub fn compute_damage_rects(
        &mut self,
        g: Geometry,
        grid: &[CellInstance],
        cursor: (i32, i32),
        covered: bool,
    ) -> (rects: Vec<DamageRect>)
        requires
            g.wf(),
            on_grid(g, grid@),
        ensures
            rects@ == damage(g, *old(self), grid@, cursor, covered),
            final(self).grid@ == grid@,
            final(self).dims == (g.rows, g.cols),
            final(self).cursor == cursor,
    {
        let mut rects: Vec<DamageRect> = Vec::new();
        if self.grid.len() == 0 || self.dims.0 != g.rows || self.dims.1 != g.cols || grid.len()
            != self.grid.len() || covered {
            rects.push(DamageRect { x: 0, y: 0, width: g.screen_w, height: g.screen_h });
        } else {
            push_changed_rows(&mut rects, g, grid, self.grid.as_slice());
            assert(rects@ =~= changed_rows(g, grid@, self.grid@, 0));
            if self.cursor.0 != cursor.0 || self.cursor.1 != cursor.1 {
                push_cursor_damage(&mut rects, g, self.cursor);
                push_cursor_damage(&mut rects, g, cursor);
            }
            assert(rects@ =~= changed_rows(g, grid@, self.grid@, 0) + (if cursor != self.cursor {
                cursor_rect(g, self.cursor) + cursor_rect(g, cursor)
            } else {
                Seq::empty()
            }));
            if rects.len() == 0 {
                rects.push(DamageRect { x: 0, y: 0, width: 1, height: 1 });
            }
        }
        assert(rects@ =~= damage(g, *old(self), grid@, cursor, covered));
        self.grid = vstd::slice::slice_to_vec(grid);
        self.dims = (g.rows, g.cols);
        self.cursor = cursor;
        rects
    }
}

/// A cell of a row lies in a rectangle.
pub open spec fn covers(g: Geometry, r: DamageRect, row: int, col: int) -> bool {
    &&& r.x <= col * g.cell_w
    &&& (col + 1) * g.cell_w <= r.x + r.width
    &&& r.y == g.screen_h - (row + 1) * g.cell_h
    &&& r.height == g.cell_h
}

proof fn lemma_rect_covers(g: Geometry, row: int, first: int, last: int, col: int)
    requires
        g.wf(),
        0 <= row < g.rows,
        0 <= first <= col <= last < g.cols,
    ensures
        covers(g, row_rect(g, row, first, last), row, col),
{
    assert(0 <= first * g.cell_w <= col * g.cell_w && (col + 1) * g.cell_w <= (last + 1) * g.cell_w
        && (last + 1) * g.cell_w <= g.cols * g.cell_w) by (nonlinear_arith)
        requires
            0 <= first <= col <= last < g.cols,
            g.cell_w > 0,
    ;
    assert((last - first + 1) * g.cell_w == (last + 1) * g.cell_w - first * g.cell_w)
        by (nonlinear_arith);
    assert(0 <= (row + 1) * g.cell_h <= g.rows * g.cell_h) by (nonlinear_arith)
        requires
            0 <= row < g.rows,
            g.cell_h > 0,
    ;
}

proof fn lemma_changes_are_covered(
    g: Geometry,
    grid: Seq<CellInstance>,
    prev: Seq<CellInstance>,
    i: int,
    k: int,
)
    requires
        g.wf(),
        on_grid(g, grid),
        0 <= i <= k < grid.len(),
        grid[k] != prev[k],
    ensures
        exists|r: int|
            0 <= r < changed_rows(g, grid, prev, i).len() && covers(
                g,
                #[trigger] changed_rows(g, grid, prev, i)[r],
                grid[k].row as int,
                grid[k].col as int,
            ),
    decreases grid.len() - i,
{
    let all = changed_rows(g, grid, prev, i);
    let end = row_end(grid, i, i);
    lemma_row_end(grid, i, i);
    lemma_changed_columns(g, grid, prev, i, end);
    let first = first_changed(grid, prev, i, end);
    let rest = changed_rows(g, grid, prev, end);
    if k < end {
        lemma_rect_covers(
            g,
            grid[i].row as int,
            first,
            last_changed(grid, prev, i, end),
            grid[k].col as int,
        );
        assert(covers(g, all[0], grid[k].row as int, grid[k].col as int));
    } else {
        lemma_changes_are_covered(g, grid, prev, end, k);
        let r = choose|r: int|
            0 <= r < rest.len() && covers(
                g,
                #[trigger] rest[r],
                grid[k].row as int,
                grid[k].col as int,
            );
        if first >= 0 {
            assert(all[r + 1] == rest[r]);
        } else {
            assert(all[r] == rest[r]);
        }
    }
}

/// Every cell that changed is drawn again: it lies in one of the rectangles,
/// unless all of the window is drawn.
pub proof fn law_changes_are_drawn(
    g: Geometry,
    last: LastFrame,
    grid: Seq<CellInstance>,
    cursor: (i32, i32),
    k: int,
)
    requires
        g.wf(),
        on_grid(g, grid),
        !starts_over(g, last, grid, false),
        0 <= k < grid.len(),
        grid[k] != last.grid@[k],
    ensures
        exists|r: int|
            0 <= r < damage(g, last, grid, cursor, false).len() && covers(
                g,
                #[trigger] damage(g, last, grid, cursor, false)[r],
                grid[k].row as int,
                grid[k].col as int,
            ),
{
    lemma_changes_are_covered(g, grid, last.grid@, 0, k);
    let rows = changed_rows(g, grid, last.grid@, 0);
    let r = choose|r: int|
        0 <= r < rows.len() && covers(
            g,
            #[trigger] rows[r],
            grid[k].row as int,
            grid[k].col as int,
        );
    assert(damage(g, last, grid, cursor, false)[r] == rows[r]);
}

/// There is always something to draw again, also where nothing changed.
pub proof fn law_damage_is_never_empty(
    g: Geometry,
    last: LastFrame,
    grid: Seq<CellInstance>,
    cursor: (i32, i32),
    covered: bool,
)
    ensures
        damage(g, last, grid, cursor, covered).len() > 0,
{
}

/// A cursor that moved is drawn again in both places.
pub proof fn law_cursor_is_drawn(
    g: Geometry,
    last: LastFrame,
    grid: Seq<CellInstance>,
    cursor: (i32, i32),
    place: (i32, i32),
)
    requires
        g.wf(),
        !starts_over(g, last, grid, false),
        cursor != last.cursor,
        place == cursor || place == last.cursor,
        0 <= place.0 < g.cols,
        0 <= place.1 < g.rows,
    ensures
        exists|r: int|
            0 <= r < damage(g, last, grid, cursor, false).len() && covers(
                g,
                #[trigger] damage(g, last, grid, cursor, false)[r],
                place.1 as int,
                place.0 as int,
            ),
{
    lemma_rect_covers(g, place.1 as int, place.0 as int, place.0 as int, place.0 as int);
    let rows = changed_rows(g, grid, last.grid@, 0);
    let all = damage(g, last, grid, cursor, false);
    let r: int = if place == last.cursor {
        rows.len() as int
    } else {
        rows.len() as int + cursor_rect(g, last.cursor).len()
    };
    assert(all[r] == row_rect(g, place.1 as int, place.0 as int, place.0 as int));
}

proof fn lemma_ends_are_changed(
    grid: Seq<CellInstance>,
    prev: Seq<CellInstance>,
    from: int,
    to: int,
)
    requires
        0 <= from <= to <= grid.len(),
    ensures
        ({
            let first = first_changed(grid, prev, from, to);
            let last = last_changed(grid, prev, from, to);
            &&& first >= 0 ==> exists|k: int|
                from <= k < to && (#[trigger] grid[k]) != prev[k] && grid[k].col == first
            &&& last >= 0 ==> exists|k: int|
                from <= k < to && (#[trigger] grid[k]) != prev[k] && grid[k].col == last
            &&& first >= 0 <==> last >= 0
        }),
    decreases to - from,
{
    if from < to {
        lemma_ends_are_changed(grid, prev, from, to - 1);
        let first = first_changed(grid, prev, from, to - 1);
        let last = last_changed(grid, prev, from, to - 1);
        if first >= 0 {
            let k = choose|k: int|
                from <= k < to - 1 && (#[trigger] grid[k]) != prev[k] && grid[k].col == first;
            assert(from <= k < to && grid[k] != prev[k]);
        }
        if last >= 0 {
            let k = choose|k: int|
                from <= k < to - 1 && (#[trigger] grid[k]) != prev[k] && grid[k].col == last;
            assert(from <= k < to && grid[k] != prev[k]);
        }
        assert(grid[to - 1] == grid[to - 1]);
    }
}

/// A rectangle reaches from one changed cell to another one in the same row.
pub open spec fn spans_changes(
    g: Geometry,
    grid: Seq<CellInstance>,
    prev: Seq<CellInstance>,
    r: DamageRect,
    a: int,
    b: int,
) -> bool {
    &&& 0 <= a < grid.len() && 0 <= b < grid.len()
    &&& grid[a] != prev[a] && grid[b] != prev[b]
    &&& grid[a].row == grid[b].row
    &&& r.x == grid[a].col * g.cell_w
    &&& r.x + r.width == (grid[b].col + 1) * g.cell_w
    &&& r.y + r.height == g.screen_h - grid[a].row * g.cell_h
    &&& r.height == g.cell_h
}

proof fn lemma_rows_span_changes(
    g: Geometry,
    grid: Seq<CellInstance>,
    prev: Seq<CellInstance>,
    i: int,
    r: int,
)
    requires
        g.wf(),
        on_grid(g, grid),
        0 <= i <= grid.len(),
        0 <= r < changed_rows(g, grid, prev, i).len(),
    ensures
        exists|a: int, b: int| #[trigger]
            spans_changes(g, grid, prev, changed_rows(g, grid, prev, i)[r], a, b),
    decreases grid.len() - i,
{
    let all = changed_rows(g, grid, prev, i);
    let end = row_end(grid, i, i);
    lemma_row_end(grid, i, i);
    lemma_ends_are_changed(grid, prev, i, end);
    let first = first_changed(grid, prev, i, end);
    let last = last_changed(grid, prev, i, end);
    if first >= 0 && r == 0 {
        let a = choose|k: int|
            i <= k < end && (#[trigger] grid[k]) != prev[k] && grid[k].col == first;
        let b = choose|k: int|
            i <= k < end && (#[trigger] grid[k]) != prev[k] && grid[k].col == last;
        let row = grid[i].row as int;
        lemma_changed_columns(g, grid, prev, i, end);
        assert(first <= last < g.cols);
        lemma_rect_covers(g, row, first, last, first);
        assert(0 <= first * g.cell_w <= g.cols * g.cell_w) by (nonlinear_arith)
            requires
                0 <= first <= last < g.cols,
                g.cell_w > 0,
        ;
        assert((last - first + 1) * g.cell_w == (last + 1) * g.cell_w - first * g.cell_w)
            by (nonlinear_arith);
        assert(0 <= (last + 1) * g.cell_w - first * g.cell_w <= g.cols * g.cell_w)
            by (nonlinear_arith)
            requires
                0 <= first <= last < g.cols,
                g.cell_w > 0,
        ;
        assert((row + 1) * g.cell_h == row * g.cell_h + g.cell_h) by (nonlinear_arith);
        assert(spans_changes(g, grid, prev, all[r], a, b));
    } else {
        let rest = changed_rows(g, grid, prev, end);
        let k = if first >= 0 {
            r - 1
        } else {
            r
        };
        assert(all[r] == rest[k]);
        lemma_rows_span_changes(g, grid, prev, end, k);
    }
}

/// A rectangle is that of one cell of the grid, given by column and row.
pub open spec fn only_cell(g: Geometry, r: DamageRect, place: (i32, i32)) -> bool {
    &&& 0 <= place.0 < g.cols && 0 <= place.1 < g.rows
    &&& r.x == place.0 * g.cell_w && r.width == g.cell_w
    &&& r.y + r.height == g.screen_h - place.1 * g.cell_h && r.height == g.cell_h
}

/// No more is drawn again than from the first to the last cell of a row that changed,
/// and a cursor that moved; one pixel in the corner where nothing did.
pub proof fn law_nothing_else_is_drawn_again(
    g: Geometry,
    last: LastFrame,
    grid: Seq<CellInstance>,
    cursor: (i32, i32),
    r: int,
)
    requires
        g.wf(),
        on_grid(g, grid),
        !starts_over(g, last, grid, false),
        0 <= r < damage(g, last, grid, cursor, false).len(),
    ensures
        ({
            let rect = damage(g, last, grid, cursor, false)[r];
            ||| exists|a: int, b: int| #[trigger]
                spans_changes(g, grid, last.grid@, rect, a, b)
            ||| cursor != last.cursor && (only_cell(g, rect, cursor) || only_cell(
                g,
                rect,
                last.cursor,
            ))
            ||| {
                &&& rect == (DamageRect { x: 0, y: 0, width: 1, height: 1 })
                &&& forall|k: int| 0 <= k < grid.len() ==> (#[trigger] grid[k]) == last.grid@[k]
            }
        }),
{
    let rows = changed_rows(g, grid, last.grid@, 0);
    let all = damage(g, last, grid, cursor, false);
    let olds = cursor_rect(g, last.cursor);
    if r < rows.len() {
        assert(all[r] == rows[r]);
        lemma_rows_span_changes(g, grid, last.grid@, 0, r);
    } else if cursor != last.cursor && (olds.len() > 0 || cursor_rect(g, cursor).len() > 0) {
        let place = if r < rows.len() + olds.len() {
            last.cursor
        } else {
            cursor
        };
        assert(all[r] == row_rect(g, place.1 as int, place.0 as int, place.0 as int));
        lemma_rect_covers(g, place.1 as int, place.0 as int, place.0 as int, place.0 as int);
        let (row, col) = (place.1 as int, place.0 as int);
        assert((row + 1) * g.cell_h == row * g.cell_h + g.cell_h) by (nonlinear_arith);
        assert(0 <= col * g.cell_w <= g.cols * g.cell_w) by (nonlinear_arith)
            requires
                0 <= col < g.cols,
                g.cell_w > 0,
        ;
        assert((col - col + 1) * g.cell_w == g.cell_w) by (nonlinear_arith);
        assert(only_cell(g, all[r], place));
    } else {
        assert forall|k: int| 0 <= k < grid.len() implies (#[trigger] grid[k]) == last.grid@[k] by {
            if grid[k] != last.grid@[k] {
                lemma_changes_are_covered(g, grid, last.grid@, 0, k);
            }
        }
    }
}

} // verus!
