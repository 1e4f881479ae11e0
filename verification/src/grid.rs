//! The cell grid: a screen of rows and columns, its cursor and pen, the
//! scroll region, and the history that full-screen scrolling leaves behind.
//!
//! A [`Grid`] is modelled by a [`GridModel`], where rows are sequences of
//! cells and positions are mathematical integers. Every operation on the grid
//! has a counterpart of the same name on the model, and the executable
//! operation is proved to do what the model says.

use std::collections::VecDeque;
use vstd::prelude::*;

verus! {

/// The largest dimension a grid can have. A `Vec` of rows or cells can never
/// grow beyond `isize::MAX` elements; the slack leaves room for moving a
/// position by any 16-bit distance without leaving `isize`.
pub open spec fn dim_limit() -> int {
    isize::MAX - 0xffff
}

/// Whether a code point lies in one of the blocks that occupy two cells: CJK
/// symbols and ideographs, kana, Hangul, fullwidth forms and common emoji.
pub open spec fn wide_code_point(c: u32) -> bool {
    ||| 0x3000 <= c <= 0x303E
    ||| 0x3040 <= c <= 0x318F
    ||| 0x31C0 <= c <= 0x4DBF
    ||| 0x4E00 <= c <= 0xA4CF
    ||| 0xAC00 <= c <= 0xD7A3
    ||| 0xF900 <= c <= 0xFAFF
    ||| 0xFE30 <= c <= 0xFE4F
    ||| 0xFF00 <= c <= 0xFF60
    ||| 0xFFE0 <= c <= 0xFFE6
    ||| 0x1F300 <= c <= 0x1F64F
    ||| 0x1F680 <= c <= 0x1F6FF
    ||| 0x1F900 <= c <= 0x1F9FF
    ||| 0x20000 <= c <= 0x2FFFD
}

/// Whether a code point lies in one of the blocks of combining marks, which
/// belong to the character before them.
pub open spec fn combining(c: u32) -> bool {
    ||| 0x0300 <= c <= 0x036F
    ||| 0x1AB0 <= c <= 0x1AFF
    ||| 0x1DC0 <= c <= 0x1DFF
    ||| 0x20D0 <= c <= 0x20FF
    ||| 0xFE20 <= c <= 0xFE2F
}

/// The number of cells a character occupies.
pub open spec fn width_of(ch: char) -> u8 {
    if wide_code_point(ch as u32) {
        2
    } else if combining(ch as u32) {
        0
    } else {
        1
    }
}

/// Approximate East Asian Wide / Fullwidth detection. Returns 2 for code
/// points that occupy two terminal cells, 0 for combining marks and 1 for
/// everything else.
///
/// The ranges are the obvious blocks rather than a full Unicode table; a rare
/// code point that is missed renders as width 1.
pub fn char_width(ch: char) -> (width: u8)
    ensures
        width == width_of(ch),
{
    let c: u32 = ch as u32;
    // ASCII, Latin and IPA take one cell: skip the scan.
    if c < 0x300 {
        return 1;
    }
    let wide: bool = (0x3000 <= c && c <= 0x303E) || (0x3040 <= c && c <= 0x318F) || (0x31C0 <= c
        && c <= 0x4DBF) || (0x4E00 <= c && c <= 0xA4CF) || (0xAC00 <= c && c <= 0xD7A3) || (0xF900
        <= c && c <= 0xFAFF) || (0xFE30 <= c && c <= 0xFE4F) || (0xFF00 <= c && c <= 0xFF60) || (
    0xFFE0 <= c && c <= 0xFFE6) || (0x1F300 <= c && c <= 0x1F64F) || (0x1F680 <= c && c <= 0x1F6FF)
        || (0x1F900 <= c && c <= 0x1F9FF) || (0x20000 <= c && c <= 0x2FFFD);
    let mark: bool = c <= 0x36F || (0x1AB0 <= c && c <= 0x1AFF) || (0x1DC0 <= c && c <= 0x1DFF)
        || (0x20D0 <= c && c <= 0x20FF) || (0xFE20 <= c && c <= 0xFE2F);
    if wide {
        2
    } else if mark {
        0
    } else {
        1
    }
}

/// A cell colour as the application asked for it.
#[derive(Copy, Clone, Debug, PartialEq, Eq, Structural)]
pub enum Color {
    Default,
    Indexed(u8),
    Rgb(u8, u8, u8),
}

impl Default for Color {
    fn default() -> (c: Self)
        ensures
            c == Color::Default,
    {
        Color::Default
    }
}

/// A set of text attributes, one bit each.
#[derive(Copy, Clone, Debug, PartialEq, Eq, Structural)]
pub struct CellAttrs(pub u16);

impl CellAttrs {
    pub const BOLD: u16 = 0x01;

    pub const DIM: u16 = 0x02;

    pub const ITALIC: u16 = 0x04;

    pub const UNDERLINE: u16 = 0x08;

    pub const INVERSE: u16 = 0x10;

    pub const STRIKE: u16 = 0x20;

    pub const BLINK: u16 = 0x40;

    /// The attributes after switching the bits of `mask` on or off.
    pub open spec fn with(self, mask: u16, on: bool) -> CellAttrs {
        if on {
            CellAttrs(self.0 | mask)
        } else {
            CellAttrs(self.0 & !mask)
        }
    }

    /// Whether any bit of `mask` is set.
    pub open spec fn holds(self, mask: u16) -> bool {
        self.0 & mask != 0
    }

    /// Switches the bits of `mask` on or off.
    pub fn set(&mut self, mask: u16, on: bool)
        ensures
            *final(self) == old(self).with(mask, on),
    {
        if on {
            self.0 = self.0 | mask;
        } else {
            self.0 = self.0 & !mask;
        }
    }

    /// Whether any bit of `mask` is set.
    pub fn has(self, mask: u16) -> (set: bool)
        ensures
            set == self.holds(mask),
    {
        self.0 & mask != 0
    }
}

impl Default for CellAttrs {
    fn default() -> (a: Self)
        ensures
            a == CellAttrs(0),
    {
        CellAttrs(0)
    }
}

/// One cell of the screen.
#[derive(Copy, Clone, Debug, PartialEq, Eq, Structural)]
pub struct Cell {
    pub ch: char,
    pub fg: Color,
    pub bg: Color,
    pub attrs: CellAttrs,
    /// 1 for an ordinary cell, 2 for the leading half of a wide character,
    /// 0 for the spacer right of one.
    pub width: u8,
}

impl Default for Cell {
    fn default() -> (c: Self)
        ensures
            c == Pen::plain().blank(),
    {
        Cell {
            ch: ' ',
            fg: Color::Default,
            bg: Color::Default,
            attrs: CellAttrs(0),
            width: 1,
        }
    }
}

/// The colours and attributes that the next printed character gets.
#[derive(Copy, Clone, Debug, PartialEq, Eq, Structural)]
pub struct Pen {
    pub fg: Color,
    pub bg: Color,
    pub attrs: CellAttrs,
}

impl Default for Pen {
    fn default() -> (p: Self)
        ensures
            p == Pen::plain(),
    {
        Pen { fg: Color::Default, bg: Color::Default, attrs: CellAttrs(0) }
    }
}

impl Pen {
    /// Default colours and no attributes.
    pub open spec fn plain() -> Pen {
        Pen { fg: Color::Default, bg: Color::Default, attrs: CellAttrs(0) }
    }

    /// The cell that erasing with this pen leaves: a space in the pen's
    /// colours, without its attributes.
    pub open spec fn blank(self) -> Cell {
        Cell { ch: ' ', fg: self.fg, bg: self.bg, attrs: CellAttrs(0), width: 1 }
    }

    /// The cell that this pen draws.
    pub open spec fn ink(self, ch: char, width: u8) -> Cell {
        Cell { ch, fg: self.fg, bg: self.bg, attrs: self.attrs, width }
    }

    /// A row of `cols` erased cells.
    pub open spec fn blank_row(self, cols: int) -> Seq<Cell> {
        Seq::new(cols as nat, |c: int| self.blank())
    }

    /// `n` erased rows of `cols` cells.
    pub open spec fn blank_rows(self, n: int, cols: int) -> Seq<Seq<Cell>> {
        Seq::new(n as nat, |r: int| self.blank_row(cols))
    }

    fn blank_cell(self) -> (c: Cell)
        ensures
            c == self.blank(),
    {
        Cell { ch: ' ', fg: self.fg, bg: self.bg, attrs: CellAttrs(0), width: 1 }
    }
}

/// One line of cells.
#[derive(Debug)]
pub struct Row {
    pub cells: Vec<Cell>,
}

impl Clone for Row {
    fn clone(&self) -> (row: Self)
        ensures
            row.cells@ == self.cells@,
    {
        let row = Row { cells: self.cells.clone() };
        assert(row.cells@ =~= self.cells@);
        row
    }
}

impl Row {
    fn blank(cols: usize, pen: Pen) -> (row: Row)
        ensures
            row.cells@ == pen.blank_row(cols as int),
    {
        let cell = pen.blank_cell();
        let row = Row { cells: vec![cell; cols] };
        assert(row.cells@ =~= pen.blank_row(cols as int));
        row
    }

    /// Writes `cell` into the columns `from..to`.
    fn fill(&mut self, from: usize, to: usize, cell: Cell)
        requires
            to <= old(self).cells@.len() || to <= from,
        ensures
            final(self).cells@ == Seq::new(
                old(self).cells@.len(),
                |c: int|
                    if from <= c < to {
                        cell
                    } else {
                        old(self).cells@[c]
                    },
            ),
    {
        let mut c: usize = from;
        while c < to
            invariant
                from <= c,
                c == from || c <= to,
                to <= old(self).cells@.len() || to <= from,
                self.cells@.len() == old(self).cells@.len(),
                forall|i: int|
                    0 <= i < self.cells@.len() ==> self.cells@[i] == (if from <= i < c {
                        cell
                    } else {
                        old(self).cells@[i]
                    }),
            decreases to - c,
        {
            self.cells[c] = cell;
            c += 1;
        }
        assert(self.cells@ =~= Seq::new(
            old(self).cells@.len(),
            |c: int|
                if from <= c < to {
                    cell
                } else {
                    old(self).cells@[c]
                },
        ));
    }

    fn clear_with(&mut self, pen: Pen)
        ensures
            final(self).cells@ == pen.blank_row(old(self).cells@.len() as int),
    {
        let n: usize = self.cells.len();
        self.fill(0, n, pen.blank_cell());
        assert(self.cells@ =~= pen.blank_row(old(self).cells@.len() as int));
    }
}

/// Cursor shape for the renderer. The first three can be requested by
/// applications; blinking and steady variants are the same shape.
/// `HollowBlock` marks the vi-mode cursor and cannot be requested.
#[derive(Copy, Clone, Debug, PartialEq, Eq, Structural)]
pub enum CursorShape {
    Block,
    Underline,
    Bar,
    HollowBlock,
}

impl Default for CursorShape {
    fn default() -> (s: Self)
        ensures
            s == CursorShape::Block,
    {
        CursorShape::Block
    }
}

/// The text cursor.
#[derive(Copy, Clone, Debug, PartialEq, Eq, Structural)]
pub struct Cursor {
    pub row: usize,
    pub col: usize,
    pub visible: bool,
    /// Printing in the last column leaves the cursor there; the wrap happens
    /// only when the next character arrives.
    pub wrap_next: bool,
    pub shape: CursorShape,
}

impl Default for Cursor {
    fn default() -> (c: Self)
        ensures
            c == (Cursor {
                row: 0,
                col: 0,
                visible: false,
                wrap_next: false,
                shape: CursorShape::Block,
            }),
    {
        Cursor { row: 0, col: 0, visible: false, wrap_next: false, shape: CursorShape::Block }
    }
}

/// The cursor with unbounded coordinates.
pub struct CursorModel {
    pub row: int,
    pub col: int,
    pub visible: bool,
    pub wrap_next: bool,
    pub shape: CursorShape,
}

impl View for Cursor {
    type V = CursorModel;

    open spec fn view(&self) -> CursorModel {
        CursorModel {
            row: self.row as int,
            col: self.col as int,
            visible: self.visible,
            wrap_next: self.wrap_next,
            shape: self.shape,
        }
    }
}

impl CursorModel {
    /// The position fits what a grid can address.
    pub open spec fn addressable(self) -> bool {
        0 <= self.row <= dim_limit() && 0 <= self.col <= dim_limit()
    }
}

/// A screen of `rows` by `cols` cells with its history and drawing state.
pub struct Grid {
    pub rows: usize,
    pub cols: usize,
    /// The live rows, top to bottom.
    pub lines: Vec<Row>,
    /// Rows that left the top of the screen, oldest first.
    pub scrollback: VecDeque<Row>,
    pub scrollback_limit: usize,
    /// How many of the newest rows of the history came in since they were last
    /// counted.
    pub new_rows: usize,
    pub cursor: Cursor,
    pub pen: Pen,
    pub saved: Option<(Cursor, Pen)>,
    /// Inclusive top of the scrolling region.
    pub scroll_top: usize,
    /// Inclusive bottom of the scrolling region.
    pub scroll_bot: usize,
}

/// What a grid holds.
#[verifier::ext_equal]
pub struct GridModel {
    pub rows: int,
    pub cols: int,
    pub lines: Seq<Seq<Cell>>,
    pub scrollback: Seq<Seq<Cell>>,
    pub scrollback_limit: int,
    pub new_rows: int,
    pub cursor: CursorModel,
    pub pen: Pen,
    pub saved: Option<(CursorModel, Pen)>,
    pub scroll_top: int,
    pub scroll_bot: int,
}

/// The cells of each row.
pub open spec fn rows_view(rows: Seq<Row>) -> Seq<Seq<Cell>> {
    Seq::new(rows.len(), |i: int| rows[i].cells@)
}

impl View for Grid {
    type V = GridModel;

    open spec fn view(&self) -> GridModel {
        GridModel {
            rows: self.rows as int,
            cols: self.cols as int,
            lines: rows_view(self.lines@),
            scrollback: rows_view(self.scrollback@),
            scrollback_limit: self.scrollback_limit as int,
            new_rows: self.new_rows as int,
            cursor: self.cursor@,
            pen: self.pen,
            saved: match self.saved {
                Some((cursor, pen)) => Some((cursor@, pen)),
                None => None,
            },
            scroll_top: self.scroll_top as int,
            scroll_bot: self.scroll_bot as int,
        }
    }
}

/// `x` limited to `0..n`, or 0 where `n` is 0.
pub open spec fn clamp_below(x: int, n: int) -> int {
    if x < 0 || n <= 0 {
        0
    } else if x >= n {
        n - 1
    } else {
        x
    }
}

/// The smaller of two integers.
pub open spec fn min_int(a: int, b: int) -> int {
    if a <= b {
        a
    } else {
        b
    }
}

/// The last `n` elements of a sequence, or all of it where it is shorter.
pub open spec fn last_of<A>(s: Seq<A>, n: int) -> Seq<A> {
    if s.len() <= n {
        s
    } else {
        s.subrange(s.len() - n, s.len() as int)
    }
}

/// `count` rows leave the top of the block `top..=bot`, the rest of the block
/// moves up, and erased rows fill in from below.
pub open spec fn block_up(
    lines: Seq<Seq<Cell>>,
    top: int,
    bot: int,
    count: int,
    blank: Seq<Cell>,
) -> Seq<Seq<Cell>> {
    Seq::new(
        lines.len(),
        |r: int|
            if top <= r <= bot {
                if r + count <= bot {
                    lines[r + count]
                } else {
                    blank
                }
            } else {
                lines[r]
            },
    )
}

/// `count` rows leave the bottom of the block `top..=bot`, the rest of the
/// block moves down, and erased rows fill in from above.
pub open spec fn block_down(
    lines: Seq<Seq<Cell>>,
    top: int,
    bot: int,
    count: int,
    blank: Seq<Cell>,
) -> Seq<Seq<Cell>> {
    Seq::new(
        lines.len(),
        |r: int|
            if top <= r <= bot {
                if top + count <= r {
                    lines[r - count]
                } else {
                    blank
                }
            } else {
                lines[r]
            },
    )
}

impl GridModel {
    /// The shape that every operation keeps: the rows and columns are all
    /// there, the scroll region lies on the screen, the history is within its
    /// limit, and no more of its rows are new than there are.
    pub open spec fn wf(self) -> bool {
        &&& 0 <= self.rows <= dim_limit()
        &&& 0 <= self.cols <= dim_limit()
        &&& self.lines.len() == self.rows
        &&& forall|r: int| 0 <= r < self.rows ==> (#[trigger] self.lines[r]).len() == self.cols
        &&& 0 <= self.scroll_top <= self.scroll_bot
        &&& self.scroll_bot < self.rows || (self.rows == 0 && self.scroll_bot == 0)
        &&& self.scrollback.len() <= self.history_room()
        &&& 0 <= self.new_rows <= self.scrollback.len()
        &&& self.cursor.addressable()
        &&& self.saved matches Some(s) ==> s.0.addressable()
    }

    /// The cursor stands on a cell of the screen.
    pub open spec fn on_grid(self) -> bool {
        0 <= self.cursor.row < self.rows && 0 <= self.cursor.col < self.cols
    }

    /// An erased screen with the cursor in the top left corner.
    pub open spec fn fresh(rows: int, cols: int, scrollback_limit: int) -> GridModel {
        GridModel {
            rows,
            cols,
            lines: Pen::plain().blank_rows(rows, cols),
            scrollback: Seq::empty(),
            scrollback_limit,
            new_rows: 0,
            cursor: CursorModel {
                row: 0,
                col: 0,
                visible: true,
                wrap_next: false,
                shape: CursorShape::Block,
            },
            pen: Pen::plain(),
            saved: None,
            scroll_top: 0,
            scroll_bot: if rows > 0 {
                rows - 1
            } else {
                0
            },
        }
    }

    /// The cursor at a given place, with no wrap pending.
    pub open spec fn at(self, row: int, col: int) -> GridModel {
        GridModel { cursor: CursorModel { row, col, wrap_next: false, ..self.cursor }, ..self }
    }

    /// Keeps the top left part of the screen that fits the new size and fills
    /// the rest with erased cells. A change in the number of rows resets the
    /// scroll region. The history keeps its rows as they are.
    pub open spec fn resize(self, rows: int, cols: int) -> GridModel {
        let sized = GridModel {
            rows,
            cols,
            lines: Seq::new(
                rows as nat,
                |r: int|
                    Seq::new(
                        cols as nat,
                        |c: int|
                            if r < self.rows && c < self.cols {
                                self.lines[r][c]
                            } else {
                                self.pen.blank()
                            },
                    ),
            ),
            scroll_top: if rows == self.rows {
                self.scroll_top
            } else {
                0
            },
            scroll_bot: if rows == self.rows {
                self.scroll_bot
            } else {
                clamp_below(rows - 1, rows)
            },
            ..self
        };
        sized.at(clamp_below(self.cursor.row, rows), clamp_below(self.cursor.col, cols))
    }

    /// Whether the scroll region is the whole screen.
    pub open spec fn full_region(self) -> bool {
        self.scroll_top == 0 && self.scroll_bot == self.rows - 1
    }

    /// How many rows the history keeps: as many as its limit says, within what
    /// can be counted.
    pub open spec fn history_room(self) -> int {
        min_int(self.scrollback_limit, dim_limit())
    }

    /// Rows entered the history, which keeps only its newest ones.
    pub open spec fn with_history(self, entering: Seq<Seq<Cell>>) -> GridModel {
        let history = last_of(self.scrollback + entering, self.history_room());
        GridModel {
            scrollback: history,
            new_rows: min_int(self.new_rows + entering.len(), history.len() as int),
            ..self
        }
    }

    /// The region moves up by `n` rows, or by its height where that is less.
    /// Rows that leave a full-screen region enter the history.
    pub open spec fn scroll_up_in_region(self, n: int) -> GridModel {
        let count = min_int(n, self.scroll_bot - self.scroll_top + 1);
        let after = if self.full_region() {
            self.with_history(self.lines.subrange(0, count))
        } else {
            self
        };
        GridModel {
            lines: block_up(
                self.lines,
                self.scroll_top,
                self.scroll_bot,
                count,
                self.pen.blank_row(self.cols),
            ),
            ..after
        }
    }

    /// The region moves down by `n` rows, or by its height where that is less.
    pub open spec fn scroll_down_in_region(self, n: int) -> GridModel {
        GridModel {
            lines: block_down(
                self.lines,
                self.scroll_top,
                self.scroll_bot,
                min_int(n, self.scroll_bot - self.scroll_top + 1),
                self.pen.blank_row(self.cols),
            ),
            ..self
        }
    }

    /// One row down, scrolling at the bottom of the region.
    pub open spec fn line_feed(self) -> GridModel {
        let still = self.at(self.cursor.row, self.cursor.col);
        if self.cursor.row == self.scroll_bot {
            still.scroll_up_in_region(1)
        } else if self.cursor.row + 1 < self.rows {
            self.at(self.cursor.row + 1, self.cursor.col)
        } else {
            still
        }
    }

    /// One row up, scrolling at the top of the region.
    pub open spec fn reverse_index(self) -> GridModel {
        let still = self.at(self.cursor.row, self.cursor.col);
        if self.cursor.row == self.scroll_top {
            still.scroll_down_in_region(1)
        } else if self.cursor.row > 0 {
            self.at(self.cursor.row - 1, self.cursor.col)
        } else {
            still
        }
    }

    /// Whether printing `ch` starts with a move to the next row.
    pub open spec fn wraps_for(self, ch: char) -> bool {
        width_of(ch) != 0 && (self.cursor.wrap_next || (width_of(ch) == 2 && self.cursor.col + 1
            >= self.cols))
    }

    /// The state in which `ch` is drawn: a pending wrap is carried out, and a
    /// wide character that would straddle the right edge moves to the next row.
    pub open spec fn ready_for(self, ch: char) -> GridModel {
        let wrapped = if self.cursor.wrap_next {
            self.at(self.cursor.row, 0).line_feed()
        } else {
            self
        };
        if width_of(ch) == 2 && wrapped.cursor.col + 1 >= wrapped.cols {
            wrapped.at(wrapped.cursor.row, 0).line_feed()
        } else {
            wrapped
        }
    }

    /// Draws `ch` under the cursor, with a spacer to its right where it is
    /// wide. A cursor off the screen draws nothing.
    pub open spec fn draw(self, ch: char) -> GridModel {
        let row = self.cursor.row;
        let col = self.cursor.col;
        let width = width_of(ch);
        GridModel {
            lines: Seq::new(
                self.lines.len(),
                |r: int|
                    Seq::new(
                        self.lines[r].len(),
                        |c: int|
                            if r == row && c == col {
                                self.pen.ink(ch, width)
                            } else if r == row && c == col + 1 && width == 2 {
                                self.pen.ink(' ', 0)
                            } else {
                                self.lines[r][c]
                            },
                    ),
            ),
            ..self
        }
    }

    /// Moves the cursor right by `width` columns; at the right edge it stays
    /// and the wrap becomes pending.
    pub open spec fn advance(self, width: int) -> GridModel {
        if self.cursor.col + width >= self.cols {
            GridModel { cursor: CursorModel { wrap_next: true, ..self.cursor }, ..self }
        } else {
            GridModel {
                cursor: CursorModel { col: self.cursor.col + width, ..self.cursor },
                ..self
            }
        }
    }

    /// Prints one character. A combining mark takes no cell, and nothing
    /// happens.
    pub open spec fn put_char(self, ch: char) -> GridModel {
        if width_of(ch) == 0 {
            self
        } else {
            self.ready_for(ch).draw(ch).advance(width_of(ch) as int)
        }
    }

    pub open spec fn carriage_return(self) -> GridModel {
        self.at(self.cursor.row, 0)
    }

    pub open spec fn backspace(self) -> GridModel {
        self.at(
            self.cursor.row,
            if self.cursor.col > 0 {
                self.cursor.col - 1
            } else {
                self.cursor.col
            },
        )
    }

    /// To the next multiple of eight columns, at most the last column.
    pub open spec fn tab(self) -> GridModel {
        self.at(self.cursor.row, clamp_below((self.cursor.col / 8 + 1) * 8, self.cols))
    }

    /// To a given place, limited to the screen.
    pub open spec fn goto(self, row: int, col: int) -> GridModel {
        self.at(clamp_below(row, self.rows), clamp_below(col, self.cols))
    }

    /// By a given distance, limited to the screen.
    pub open spec fn move_cursor(self, drow: int, dcol: int) -> GridModel {
        self.goto(self.cursor.row + drow, self.cursor.col + dcol)
    }

    /// Erases the cells that `p` picks by row and column.
    pub open spec fn blank_where(self, p: spec_fn(int, int) -> bool) -> GridModel {
        GridModel {
            lines: Seq::new(
                self.lines.len(),
                |r: int|
                    Seq::new(
                        self.lines[r].len(),
                        |c: int|
                            if p(r, c) {
                                self.pen.blank()
                            } else {
                                self.lines[r][c]
                            },
                    ),
            ),
            ..self
        }
    }

    /// Whether erasing in the line touches only cells that exist.
    pub open spec fn can_erase_line(self, mode: int) -> bool {
        &&& mode == 0 ==> self.cursor.row < self.rows || self.cursor.col >= self.cols
        &&& mode == 1 ==> self.cursor.row < self.rows && self.cols > 0
        &&& mode == 2 ==> self.cursor.row < self.rows
    }

    /// Erases from the cursor to the end of its line (0), from the start of
    /// the line up to the cursor (1), or the whole line (2).
    pub open spec fn erase_line(self, mode: int) -> GridModel {
        let row = self.cursor.row;
        let col = self.cursor.col;
        if mode == 0 {
            self.blank_where(|r: int, c: int| r == row && c >= col)
        } else if mode == 1 {
            self.blank_where(|r: int, c: int| r == row && c <= col)
        } else if mode == 2 {
            self.blank_where(|r: int, c: int| r == row)
        } else {
            self
        }
    }

    /// Whether erasing in the display touches only cells that exist.
    pub open spec fn can_erase_display(self, mode: int) -> bool {
        &&& mode == 0 ==> self.can_erase_line(0)
        &&& mode == 1 ==> self.can_erase_line(1)
    }

    /// Erases from the cursor to the end of the screen (0), from its start up
    /// to the cursor (1), or all of it (2 and 3).
    pub open spec fn erase_display(self, mode: int) -> GridModel {
        let row = self.cursor.row;
        let col = self.cursor.col;
        if mode == 0 {
            self.blank_where(|r: int, c: int| r > row || (r == row && c >= col))
        } else if mode == 1 {
            self.blank_where(|r: int, c: int| r < row || (r == row && c <= col))
        } else if mode == 2 || mode == 3 {
            self.blank_where(|r: int, c: int| true)
        } else {
            self
        }
    }

    /// Erases `n` cells from the cursor on, within its line.
    pub open spec fn erase_chars(self, n: int) -> GridModel {
        let row = self.cursor.row;
        let col = self.cursor.col;
        self.blank_where(|r: int, c: int| r == row && col <= c < col + n)
    }

    /// The line under the cursor replaced.
    pub open spec fn with_cursor_line(self, cells: Seq<Cell>) -> GridModel {
        GridModel { lines: self.lines.update(self.cursor.row, cells), ..self }
    }

    /// Takes `n` cells out of the line at the cursor; the rest moves left.
    pub open spec fn delete_chars(self, n: int) -> GridModel {
        let line = self.lines[self.cursor.row];
        let col = self.cursor.col;
        let count = min_int(n, self.cols - col);
        self.with_cursor_line(
            line.subrange(0, col) + line.subrange(col + count, self.cols) + self.pen.blank_row(
                count,
            ),
        )
    }

    /// Puts `n` erased cells into the line at the cursor; the rest moves
    /// right, and what passes the right edge is lost.
    pub open spec fn insert_chars(self, n: int) -> GridModel {
        let line = self.lines[self.cursor.row];
        let col = self.cursor.col;
        let count = min_int(n, self.cols - col);
        self.with_cursor_line(
            line.subrange(0, col) + self.pen.blank_row(count) + line.subrange(
                col,
                self.cols - count,
            ),
        )
    }

    /// Whether the cursor stands inside the scroll region.
    pub open spec fn in_region(self) -> bool {
        self.scroll_top <= self.cursor.row <= self.scroll_bot
    }

    /// Puts `n` erased lines in at the cursor; lines below it move down
    /// within the region. Outside the region nothing happens.
    pub open spec fn insert_lines(self, n: int) -> GridModel {
        if self.in_region() {
            GridModel {
                lines: block_down(
                    self.lines,
                    self.cursor.row,
                    self.scroll_bot,
                    min_int(n, self.scroll_bot - self.cursor.row + 1),
                    self.pen.blank_row(self.cols),
                ),
                ..self
            }
        } else {
            self
        }
    }

    /// Takes `n` lines out at the cursor; lines below it move up within the
    /// region. Outside the region nothing happens.
    pub open spec fn delete_lines(self, n: int) -> GridModel {
        if self.in_region() {
            GridModel {
                lines: block_up(
                    self.lines,
                    self.cursor.row,
                    self.scroll_bot,
                    min_int(n, self.scroll_bot - self.cursor.row + 1),
                    self.pen.blank_row(self.cols),
                ),
                ..self
            }
        } else {
            self
        }
    }

    /// Limits scrolling to the rows `top..=bot` and moves the cursor home. A
    /// region of fewer than two rows or beyond the screen is refused.
    pub open spec fn set_scroll_region(self, top: int, bot: int) -> GridModel {
        if top < bot && bot < self.rows {
            GridModel { scroll_top: top, scroll_bot: bot, ..self.at(0, 0) }
        } else {
            self
        }
    }

    pub open spec fn save_cursor(self) -> GridModel {
        GridModel { saved: Some((self.cursor, self.pen)), ..self }
    }

    pub open spec fn restore_cursor(self) -> GridModel {
        match self.saved {
            Some((cursor, pen)) => GridModel { cursor, pen, ..self },
            None => self,
        }
    }
}

impl Grid {
    /// See [`GridModel::wf`].
    pub open spec fn wf(&self) -> bool {
        self@.wf()
    }

    /// An erased screen that keeps at most `scrollback_limit` rows of history.
    pub fn new(rows: usize, cols: usize, scrollback_limit: usize) -> (grid: Grid)
        requires
            rows <= dim_limit(),
            cols <= dim_limit(),
        ensures
            grid.wf(),
            grid@ == GridModel::fresh(rows as int, cols as int, scrollback_limit as int),
    {
        let pen = Pen::default();
        let mut lines: Vec<Row> = Vec::with_capacity(rows);
        let mut r: usize = 0;
        while r < rows
            invariant
                r <= rows,
                lines@.len() == r,
                forall|i: int| 0 <= i < r ==> (#[trigger] lines@[i]).cells@ == pen.blank_row(cols as int),
            decreases rows - r,
        {
            lines.push(Row::blank(cols, pen));
            r += 1;
        }
        let grid = Grid {
            rows,
            cols,
            lines,
            scrollback: VecDeque::new(),
            scrollback_limit,
            new_rows: 0,
            cursor: Cursor {
                row: 0,
                col: 0,
                visible: true,
                wrap_next: false,
                shape: CursorShape::Block,
            },
            pen,
            saved: None,
            scroll_top: 0,
            scroll_bot: if rows > 0 {
                rows - 1
            } else {
                0
            },
        };
        assert(grid@ =~= GridModel::fresh(rows as int, cols as int, scrollback_limit as int));
        grid
    }

    /// Cuts or extends every live row to `cols` cells.
    fn set_width(&mut self, cols: usize)
        requires
            old(self).wf(),
        ensures
            *final(self) == (Grid { lines: final(self).lines, cols, ..*old(self) }),
            final(self)@.lines == Seq::new(
                old(self)@.lines.len(),
                |r: int|
                    Seq::new(
                        cols as nat,
                        |c: int|
                            if c < old(self)@.cols {
                                old(self)@.lines[r][c]
                            } else {
                                old(self)@.pen.blank()
                            },
                    ),
            ),
    {
        let ghost before = self@;
        let ghost shaped = |r: int|
            Seq::new(
                cols as nat,
                |c: int|
                    if c < before.cols {
                        before.lines[r][c]
                    } else {
                        before.pen.blank()
                    },
            );
        let blank = self.pen.blank_cell();
        let n: usize = self.lines.len();
        let mut r: usize = 0;
        while r < n
            invariant
                r <= n,
                n == self.lines@.len(),
                n == before.rows,
                before.wf(),
                blank == before.pen.blank(),
                *self == (Grid { lines: self.lines, ..*old(self) }),
                before == old(self)@,
                forall|i: int| 0 <= i < r ==> (#[trigger] self.lines@[i]).cells@ == shaped(i),
                forall|i: int|
                    r <= i < n ==> (#[trigger] self.lines@[i]).cells@ == before.lines[i],
                forall|i: int|
                    #[trigger]
                    shaped(i) == Seq::new(
                        cols as nat,
                        |c: int|
                            if c < before.cols {
                                before.lines[i][c]
                            } else {
                                before.pen.blank()
                            },
                    ),
            decreases n - r,
        {
            let row = &mut self.lines[r];
            let ghost cells = row.cells@;
            row.cells.resize(cols, blank);
            proof {
                assert(before.lines[r as int].len() == before.cols);
                assert forall|c: int| 0 <= c < cols implies row.cells@[c] == shaped(r as int)[c] by {
                    if c < before.cols && cols > cells.len() {
                        assert(row.cells@.subrange(0, cells.len() as int)[c] == cells[c]);
                    }
                }
                assert(row.cells@ =~= shaped(r as int));
            }
            r += 1;
        }
        self.cols = cols;
        assert(self@.lines =~= Seq::new(before.lines.len(), |r: int| shaped(r)));
        assert(self@.lines =~= Seq::new(
            old(self)@.lines.len(),
            |r: int|
                Seq::new(
                    cols as nat,
                    |c: int|
                        if c < old(self)@.cols {
                            old(self)@.lines[r][c]
                        } else {
                            old(self)@.pen.blank()
                        },
                ),
        ));
    }

    /// Cuts rows off the bottom or adds erased ones there.
    fn set_height(&mut self, rows: usize)
        requires
            old(self)@.lines.len() == old(self)@.rows,
        ensures
            *final(self) == (Grid { lines: final(self).lines, rows, ..*old(self) }),
            final(self)@.lines == Seq::new(
                rows as nat,
                |r: int|
                    if r < old(self)@.rows {
                        old(self)@.lines[r]
                    } else {
                        old(self)@.pen.blank_row(old(self)@.cols)
                    },
            ),
    {
        let ghost before = self@;
        if rows > self.rows {
            let mut r: usize = self.rows;
            while r < rows
                invariant
                    before.rows <= r <= rows,
                    self.lines@.len() == r,
                    before == old(self)@,
                    before.lines.len() == before.rows,
                    *self == (Grid { lines: self.lines, ..*old(self) }),
                    forall|i: int|
                        0 <= i < r ==> (#[trigger] self.lines@[i]).cells@ == (if i < before.rows {
                            before.lines[i]
                        } else {
                            before.pen.blank_row(before.cols)
                        }),
                decreases rows - r,
            {
                self.lines.push(Row::blank(self.cols, self.pen));
                r += 1;
            }
        } else {
            self.lines.truncate(rows);
        }
        self.rows = rows;
        assert(self@.lines =~= Seq::new(
            rows as nat,
            |r: int|
                if r < old(self)@.rows {
                    old(self)@.lines[r]
                } else {
                    old(self)@.pen.blank_row(old(self)@.cols)
                },
        ));
    }

    /// Changes the size of the screen; see [`GridModel::resize`].
    pub fn resize(&mut self, rows: usize, cols: usize)
        requires
            old(self).wf(),
            rows <= dim_limit(),
            cols <= dim_limit(),
        ensures
            final(self).wf(),
            final(self)@ == old(self)@.resize(rows as int, cols as int),
    {
        let ghost before = self@;
        if cols != self.cols {
            self.set_width(cols);
        }
        let ghost widened = self@;
        if rows != self.rows {
            self.set_height(rows);
            self.scroll_top = 0;
            self.scroll_bot = if rows > 0 {
                rows - 1
            } else {
                0
            };
        }
        proof {
            let target = before.resize(rows as int, cols as int);
            assert forall|r: int| 0 <= r < rows implies #[trigger] self@.lines[r] =~= target.lines[r] by {
                if r < before.rows {
                    assert(widened.lines[r] =~= target.lines[r]);
                    assert(before.lines[r].len() == before.cols);
                } else {
                    assert(target.lines[r] =~= before.pen.blank_row(cols as int));
                }
            }
            assert(self@.lines =~= target.lines);
        }
        let row: usize = self.cursor.row;
        let col: usize = self.cursor.col;
        self.goto(row, col);
    }

    /// Moves the cursor to a given place, limited to the screen.
    pub fn goto(&mut self, row: usize, col: usize)
        requires
            old(self).wf(),
        ensures
            final(self).wf(),
            final(self)@ == old(self)@.goto(row as int, col as int),
    {
        self.cursor.row = if row < self.rows {
            row
        } else if self.rows > 0 {
            self.rows - 1
        } else {
            0
        };
        self.cursor.col = if col < self.cols {
            col
        } else if self.cols > 0 {
            self.cols - 1
        } else {
            0
        };
        self.cursor.wrap_next = false;
    }

    /// Moves the rows `top..=bot` up by one and puts `blank` in at the bottom.
    /// Returns the row that left.
    fn shift_up(&mut self, top: usize, bot: usize, blank: Row) -> (gone: Row)
        requires
            top <= bot < old(self).lines@.len(),
        ensures
            *final(self) == (Grid { lines: final(self).lines, ..*old(self) }),
            final(self)@.lines == block_up(
                old(self)@.lines,
                top as int,
                bot as int,
                1,
                blank.cells@,
            ),
            gone.cells@ == old(self)@.lines[top as int],
    {
        let gone = self.lines.remove(top);
        self.lines.insert(bot, blank);
        assert(self@.lines =~= block_up(
            old(self)@.lines,
            top as int,
            bot as int,
            1,
            blank.cells@,
        ));
        gone
    }

    /// Moves the rows `top..=bot` down by one and puts `blank` in at the top.
    fn shift_down(&mut self, top: usize, bot: usize, blank: Row)
        requires
            top <= bot < old(self).lines@.len(),
        ensures
            *final(self) == (Grid { lines: final(self).lines, ..*old(self) }),
            final(self)@.lines == block_down(
                old(self)@.lines,
                top as int,
                bot as int,
                1,
                blank.cells@,
            ),
    {
        let _ = self.lines.remove(bot);
        self.lines.insert(top, blank);
        assert(self@.lines =~= block_down(
            old(self)@.lines,
            top as int,
            bot as int,
            1,
            blank.cells@,
        ));
    }

    /// Moves the rows `top..=bot` up by `n` and erases what comes in below.
    fn shift_up_by(&mut self, top: usize, bot: usize, n: usize)
        requires
            top <= bot < old(self).lines@.len() || n == 0,
            n <= bot - top + 1,
        ensures
            *final(self) == (Grid { lines: final(self).lines, ..*old(self) }),
            final(self)@.lines == block_up(
                old(self)@.lines,
                top as int,
                bot as int,
                n as int,
                old(self)@.pen.blank_row(old(self)@.cols),
            ),
    {
        let ghost blank = self@.pen.blank_row(self@.cols);
        let ghost before = self@.lines;
        let mut i: usize = 0;
        assert(before =~= block_up(before, top as int, bot as int, 0, blank));
        while i < n
            invariant
                i <= n <= bot - top + 1,
                top <= bot < old(self).lines@.len() || n == 0,
                *self == (Grid { lines: self.lines, ..*old(self) }),
                self.lines@.len() == old(self).lines@.len(),
                before == old(self)@.lines,
                blank == old(self)@.pen.blank_row(old(self)@.cols),
                self@.lines == block_up(before, top as int, bot as int, i as int, blank),
            decreases n - i,
        {
            let ghost mid = self@.lines;
            let _ = self.shift_up(top, bot, Row::blank(self.cols, self.pen));
            assert(self@.lines.len() == mid.len());
            i += 1;
            assert(self@.lines =~= block_up(before, top as int, bot as int, i as int, blank));
        }
    }

    /// Moves the rows `top..=bot` down by `n` and erases what comes in above.
    fn shift_down_by(&mut self, top: usize, bot: usize, n: usize)
        requires
            top <= bot < old(self).lines@.len() || n == 0,
            n <= bot - top + 1,
        ensures
            *final(self) == (Grid { lines: final(self).lines, ..*old(self) }),
            final(self)@.lines == block_down(
                old(self)@.lines,
                top as int,
                bot as int,
                n as int,
                old(self)@.pen.blank_row(old(self)@.cols),
            ),
    {
        let ghost blank = self@.pen.blank_row(self@.cols);
        let ghost before = self@.lines;
        let mut i: usize = 0;
        assert(before =~= block_down(before, top as int, bot as int, 0, blank));
        while i < n
            invariant
                i <= n <= bot - top + 1,
                top <= bot < old(self).lines@.len() || n == 0,
                *self == (Grid { lines: self.lines, ..*old(self) }),
                self.lines@.len() == old(self).lines@.len(),
                before == old(self)@.lines,
                blank == old(self)@.pen.blank_row(old(self)@.cols),
                self@.lines == block_down(before, top as int, bot as int, i as int, blank),
            decreases n - i,
        {
            let ghost mid = self@.lines;
            self.shift_down(top, bot, Row::blank(self.cols, self.pen));
            assert(self@.lines.len() == mid.len());
            i += 1;
            assert(self@.lines =~= block_down(before, top as int, bot as int, i as int, blank));
        }
    }

    /// How many rows the history keeps; see [`GridModel::history_room`].
    fn most_history(&self) -> (room: usize)
        ensures
            room == self@.history_room(),
    {
        let countable: usize = isize::MAX as usize - 0xffff;
        if self.scrollback_limit < countable {
            self.scrollback_limit
        } else {
            countable
        }
    }

    /// One step of a full-screen scroll: the top row goes into the history,
    /// whose oldest row leaves it when the history is full.
    fn scroll_one_into_history(&mut self)
        requires
            old(self).wf(),
            old(self)@.rows > 0,
        ensures
            *final(self) == (Grid {
                lines: final(self).lines,
                scrollback: final(self).scrollback,
                new_rows: final(self).new_rows,
                ..*old(self)
            }),
            final(self)@.lines == block_up(
                old(self)@.lines,
                0,
                old(self)@.rows - 1,
                1,
                old(self)@.pen.blank_row(old(self)@.cols),
            ),
            final(self)@.scrollback == last_of(
                old(self)@.scrollback.push(old(self)@.lines[0]),
                old(self)@.history_room(),
            ),
            final(self)@.new_rows == min_int(
                old(self)@.new_rows + 1,
                final(self)@.scrollback.len() as int,
            ),
    {
        let ghost before = self@;
        let bot: usize = self.rows - 1;
        let room: usize = self.most_history();
        if room == 0 {
            // No history to keep: the top row comes back erased.
            let blank = Row::blank(self.cols, self.pen);
            let _ = self.shift_up(0, bot, blank);
            assert(self@.scrollback =~= last_of(before.scrollback.push(before.lines[0]), 0));
            return ;
        }
        // A full history gives up its oldest row, which is reused as the new
        // blank one; it may still have the width of an earlier screen.
        let blank = if self.scrollback.len() >= room {
            match self.scrollback.pop_front() {
                Some(row) => {
                    let mut row = row;
                    if row.cells.len() != self.cols {
                        row.cells.resize(self.cols, Cell::default());
                    }
                    row.clear_with(self.pen);
                    row
                },
                None => Row::blank(self.cols, self.pen),
            }
        } else {
            Row::blank(self.cols, self.pen)
        };
        assert(self@.lines =~= before.lines);
        let top = self.shift_up(0, bot, blank);
        self.scrollback.push_back(top);
        if self.new_rows < self.scrollback.len() {
            self.new_rows = self.new_rows + 1;
        }
        assert(self@.scrollback =~= last_of(
            before.scrollback.push(before.lines[0]),
            before.history_room(),
        ));
    }

    /// Scrolls the active region up by `n`, pushing displaced top lines into
    /// the history when the region covers the whole screen.
    pub fn scroll_up_in_region(&mut self, n: usize)
        requires
            old(self).wf(),
            old(self)@.rows > 0,
        ensures
            final(self).wf(),
            final(self)@ == old(self)@.scroll_up_in_region(n as int),
    {
        let height: usize = self.scroll_bot - self.scroll_top + 1;
        let count: usize = if n < height {
            n
        } else {
            height
        };
        let top: usize = self.scroll_top;
        let bot: usize = self.scroll_bot;
        if top != 0 || bot != self.rows - 1 {
            self.shift_up_by(top, bot, count);
            assert(self@ =~= old(self)@.scroll_up_in_region(n as int));
            return ;
        }
        let ghost before = self@;
        let ghost blank = before.pen.blank_row(before.cols);
        let mut i: usize = 0;
        proof {
            assert(before.lines =~= block_up(before.lines, 0, bot as int, 0, blank));
            assert(before.scrollback =~= last_of(
                before.scrollback + before.lines.subrange(0, 0),
                before.history_room(),
            ));
        }
        while i < count
            invariant
                i <= count <= before.rows,
                before == old(self)@,
                before.wf(),
                bot == before.rows - 1,
                before.rows > 0,
                blank == before.pen.blank_row(before.cols),
                *self == (Grid {
                    lines: self.lines,
                    scrollback: self.scrollback,
                    new_rows: self.new_rows,
                    ..*old(self)
                }),
                self.wf(),
                self@.lines == block_up(before.lines, 0, bot as int, i as int, blank),
                self@.scrollback == last_of(
                    before.scrollback + before.lines.subrange(0, i as int),
                    before.history_room(),
                ),
                self@.new_rows == min_int(
                    before.new_rows + i,
                    self@.scrollback.len() as int,
                ),
            decreases count - i,
        {
            let ghost mid = self@;
            self.scroll_one_into_history();
            proof {
                assert(mid.lines[0] == before.lines[i as int]);
                assert(before.lines.subrange(0, i + 1) =~= before.lines.subrange(0, i as int).push(
                    before.lines[i as int],
                ));
                assert(self@.lines =~= block_up(before.lines, 0, bot as int, i + 1, blank));
                assert(self@.scrollback =~= last_of(
                    before.scrollback + before.lines.subrange(0, i + 1),
                    before.history_room(),
                ));
            }
            i += 1;
        }
        assert(self@ =~= old(self)@.scroll_up_in_region(n as int));
    }

    /// Scrolls the active region down by `n`.
    pub fn scroll_down_in_region(&mut self, n: usize)
        requires
            old(self).wf(),
            old(self)@.rows > 0 || n == 0,
        ensures
            final(self).wf(),
            final(self)@ == old(self)@.scroll_down_in_region(n as int),
    {
        let height: usize = self.scroll_bot - self.scroll_top + 1;
        let count: usize = if n < height {
            n
        } else {
            height
        };
        let top: usize = self.scroll_top;
        let bot: usize = self.scroll_bot;
        self.shift_down_by(top, bot, count);
    }

    /// Moves the cursor one row down, scrolling at the bottom of the region.
    pub fn line_feed(&mut self)
        requires
            old(self).wf(),
            old(self)@.rows > 0 || old(self)@.cursor.row != old(self)@.scroll_bot,
        ensures
            final(self).wf(),
            final(self)@ == old(self)@.line_feed(),
    {
        self.cursor.wrap_next = false;
        if self.cursor.row == self.scroll_bot {
            self.scroll_up_in_region(1);
        } else if self.cursor.row + 1 < self.rows {
            self.cursor.row = self.cursor.row + 1;
        }
        assert(self@ =~= old(self)@.line_feed());
    }

    /// Moves the cursor one row up, scrolling at the top of the region.
    pub fn reverse_index(&mut self)
        requires
            old(self).wf(),
            old(self)@.rows > 0 || old(self)@.cursor.row != old(self)@.scroll_top,
        ensures
            final(self).wf(),
            final(self)@ == old(self)@.reverse_index(),
    {
        self.cursor.wrap_next = false;
        if self.cursor.row == self.scroll_top {
            self.scroll_down_in_region(1);
        } else if self.cursor.row > 0 {
            self.cursor.row = self.cursor.row - 1;
        }
        assert(self@ =~= old(self)@.reverse_index());
    }

    /// Writes one cell of a live row.
    fn set_cell(&mut self, row: usize, col: usize, cell: Cell)
        requires
            old(self).wf(),
            row < old(self)@.rows,
            col < old(self)@.cols,
        ensures
            final(self).wf(),
            final(self)@ == (GridModel {
                lines: old(self)@.lines.update(
                    row as int,
                    old(self)@.lines[row as int].update(col as int, cell),
                ),
                ..old(self)@
            }),
    {
        assert(self@.lines[row as int].len() == self@.cols);
        let line = &mut self.lines[row];
        line.cells[col] = cell;
        assert(self@.lines =~= old(self)@.lines.update(
            row as int,
            old(self)@.lines[row as int].update(col as int, cell),
        ));
    }

    /// Prints a single byte, meant for `0x20..=0x7e`. Does what
    /// [`Grid::put_char`] does for the same character, without the width
    /// checks.
    pub fn put_ascii_fast(&mut self, byte: u8)
        requires
            old(self).wf(),
            old(self)@.rows > 0 || !old(self)@.wraps_for(byte as char),
        ensures
            final(self).wf(),
            final(self)@ == old(self)@.put_char(byte as char),
    {
        let ch: char = byte as char;
        assert(width_of(ch) == 1);
        if self.cursor.wrap_next {
            self.cursor.col = 0;
            self.line_feed();
            self.cursor.wrap_next = false;
        }
        assert(self@ =~= old(self)@.ready_for(ch));
        let ghost ready = self@;
        let r: usize = self.cursor.row;
        let c: usize = self.cursor.col;
        if r < self.rows && c < self.cols {
            let cell = Cell {
                ch,
                fg: self.pen.fg,
                bg: self.pen.bg,
                attrs: self.pen.attrs,
                width: 1,
            };
            self.set_cell(r, c, cell);
        }
        assert(self@.lines =~~= ready.draw(ch).lines);
        if c + 1 >= self.cols {
            self.cursor.wrap_next = true;
        } else {
            self.cursor.col = c + 1;
        }
        assert(self@ =~= old(self)@.put_char(ch));
    }

    /// Carries out a pending wrap, and wraps a wide character that would
    /// straddle the right edge, so that it lands intact on the next row.
    fn make_ready(&mut self, ch: char, width: u8)
        requires
            old(self).wf(),
            width == width_of(ch),
            width != 0,
            old(self)@.rows > 0 || !old(self)@.wraps_for(ch),
        ensures
            final(self).wf(),
            final(self)@ == old(self)@.ready_for(ch),
    {
        if self.cursor.wrap_next {
            self.cursor.col = 0;
            self.line_feed();
            self.cursor.wrap_next = false;
        }
        if width == 2 && self.cursor.col + 1 >= self.cols {
            self.cursor.col = 0;
            self.line_feed();
        }
        assert(self@ =~= old(self)@.ready_for(ch));
    }

    /// Draws a character under the cursor. The spacer right of a wide one
    /// carries the same colours, so that the background paints across both.
    fn draw(&mut self, ch: char, width: u8)
        requires
            old(self).wf(),
            width == width_of(ch),
        ensures
            final(self).wf(),
            final(self)@ == old(self)@.draw(ch),
    {
        let r: usize = self.cursor.row;
        let c: usize = self.cursor.col;
        if r < self.rows && c < self.cols {
            let cell = Cell {
                ch,
                fg: self.pen.fg,
                bg: self.pen.bg,
                attrs: self.pen.attrs,
                width,
            };
            self.set_cell(r, c, cell);
            if width == 2 && c + 1 < self.cols {
                let spacer = Cell {
                    ch: ' ',
                    fg: self.pen.fg,
                    bg: self.pen.bg,
                    attrs: self.pen.attrs,
                    width: 0,
                };
                self.set_cell(r, c + 1, spacer);
            }
        }
        assert(self@.lines =~~= old(self)@.draw(ch).lines);
    }

    /// Prints one character at the cursor and moves the cursor past it. A
    /// combining mark takes no cell.
    pub fn put_char(&mut self, ch: char)
        requires
            old(self).wf(),
            old(self)@.rows > 0 || !old(self)@.wraps_for(ch),
        ensures
            final(self).wf(),
            final(self)@ == old(self)@.put_char(ch),
    {
        let width: u8 = char_width(ch);
        if width == 0 {
            return ;
        }
        self.make_ready(ch, width);
        self.draw(ch, width);
        let c: usize = self.cursor.col;
        let advance: usize = width as usize;
        if c + advance >= self.cols {
            self.cursor.wrap_next = true;
        } else {
            self.cursor.col = c + advance;
        }
    }

    pub fn carriage_return(&mut self)
        requires
            old(self).wf(),
        ensures
            final(self).wf(),
            final(self)@ == old(self)@.carriage_return(),
    {
        self.cursor.col = 0;
        self.cursor.wrap_next = false;
    }

    pub fn backspace(&mut self)
        requires
            old(self).wf(),
        ensures
            final(self).wf(),
            final(self)@ == old(self)@.backspace(),
    {
        self.cursor.wrap_next = false;
        if self.cursor.col > 0 {
            self.cursor.col = self.cursor.col - 1;
        }
    }

    /// To the next eight-column tab stop, at most the last column.
    pub fn tab(&mut self)
        requires
            old(self).wf(),
        ensures
            final(self).wf(),
            final(self)@ == old(self)@.tab(),
    {
        let next: usize = (self.cursor.col / 8 + 1) * 8;
        self.cursor.col = if next < self.cols {
            next
        } else if self.cols > 0 {
            self.cols - 1
        } else {
            0
        };
        self.cursor.wrap_next = false;
    }

    /// A position moved by a signed distance, limited to what `usize` holds.
    fn shifted(at: usize, by: isize) -> (moved: usize)
        ensures
            0 <= at + by <= usize::MAX ==> moved == at + by,
            at + by < 0 ==> moved == 0,
            at + by > usize::MAX ==> moved == usize::MAX,
    {
        let sum: i128 = at as i128 + by as i128;
        if sum < 0 {
            0
        } else if sum > usize::MAX as i128 {
            usize::MAX
        } else {
            sum as usize
        }
    }

    /// Moves the cursor by a signed distance, limited to the screen.
    pub fn move_cursor(&mut self, drow: isize, dcol: isize)
        requires
            old(self).wf(),
        ensures
            final(self).wf(),
            final(self)@ == old(self)@.move_cursor(drow as int, dcol as int),
    {
        let row: usize = Self::shifted(self.cursor.row, drow);
        let col: usize = Self::shifted(self.cursor.col, dcol);
        self.goto(row, col);
    }

    /// Erases the columns `from..to` of a live row.
    fn blank_span(&mut self, row: usize, from: usize, to: usize)
        requires
            old(self).wf(),
            row < old(self)@.rows || to <= from,
            to <= old(self)@.cols,
        ensures
            final(self).wf(),
            final(self)@ == old(self)@.blank_where(
                |r: int, c: int| r == row && from <= c < to,
            ),
    {
        let ghost before = self@;
        let blank = self.pen.blank_cell();
        if row < self.lines.len() {
            assert(self@.lines[row as int].len() == self@.cols);
            let line = &mut self.lines[row];
            line.fill(from, to, blank);
        }
        assert(self@.lines =~~= before.blank_where(
            |r: int, c: int| r == row && from <= c < to,
        ).lines);
    }

    /// Erases the rows `from..to`.
    fn blank_lines(&mut self, from: usize, to: usize)
        requires
            old(self).wf(),
            to <= old(self)@.rows || to <= from,
        ensures
            final(self).wf(),
            final(self)@ == old(self)@.blank_where(|r: int, c: int| from <= r < to),
    {
        let ghost before = self@;
        let mut row: usize = from;
        while row < to
            invariant
                from <= row,
                row == from || row <= to,
                to <= before.rows || to <= from,
                before.wf(),
                before == old(self)@,
                *self == (Grid { lines: self.lines, ..*old(self) }),
                self.lines@.len() == before.rows,
                forall|i: int|
                    0 <= i < before.rows ==> (#[trigger] self.lines@[i]).cells@ == (if from <= i
                        < row {
                        before.pen.blank_row(before.cols)
                    } else {
                        before.lines[i]
                    }),
            decreases to - row,
        {
            let pen = self.pen;
            let line = &mut self.lines[row];
            line.clear_with(pen);
            row += 1;
        }
        let ghost target = before.blank_where(|r: int, c: int| from <= r < to);
        proof {
            assert forall|r: int| 0 <= r < before.rows implies #[trigger] self@.lines[r]
                =~= target.lines[r] by {}
            assert(self@.lines =~= target.lines);
        }
    }

    /// Erases within the line of the cursor; see [`GridModel::erase_line`].
    pub fn erase_line(&mut self, mode: u16)
        requires
            old(self).wf(),
            old(self)@.can_erase_line(mode as int),
        ensures
            final(self).wf(),
            final(self)@ == old(self)@.erase_line(mode as int),
    {
        let r: usize = self.cursor.row;
        let c: usize = self.cursor.col;
        let cols: usize = self.cols;
        if mode == 0 {
            self.blank_span(r, c, cols);
        } else if mode == 1 {
            let end: usize = if c < cols {
                c + 1
            } else {
                cols
            };
            self.blank_span(r, 0, end);
        } else if mode == 2 {
            self.blank_span(r, 0, cols);
        }
        assert(self@.lines =~~= old(self)@.erase_line(mode as int).lines);
    }

    /// Erases within the screen; see [`GridModel::erase_display`].
    pub fn erase_display(&mut self, mode: u16)
        requires
            old(self).wf(),
            old(self)@.can_erase_display(mode as int),
        ensures
            final(self).wf(),
            final(self)@ == old(self)@.erase_display(mode as int),
    {
        let r: usize = self.cursor.row;
        let rows: usize = self.rows;
        if mode == 0 {
            self.erase_line(0);
            self.blank_lines(r + 1, rows);
        } else if mode == 1 {
            self.blank_lines(0, r);
            self.erase_line(1);
        } else if mode == 2 || mode == 3 {
            self.blank_lines(0, rows);
        }
        assert(self@.lines =~~= old(self)@.erase_display(mode as int).lines);
    }

    /// Erases `n` cells from the cursor on, within its line.
    pub fn erase_chars(&mut self, n: usize)
        requires
            old(self).wf(),
            old(self)@.cursor.col + n <= usize::MAX,
            old(self)@.cursor.row < old(self)@.rows || old(self)@.cursor.col >= old(self)@.cols
                || n == 0,
        ensures
            final(self).wf(),
            final(self)@ == old(self)@.erase_chars(n as int),
    {
        let r: usize = self.cursor.row;
        let c: usize = self.cursor.col;
        let end: usize = if c + n < self.cols {
            c + n
        } else {
            self.cols
        };
        self.blank_span(r, c, end);
        assert(self@.lines =~~= old(self)@.erase_chars(n as int).lines);
    }

    /// Takes `n` cells out of the line at the cursor.
    pub fn delete_chars(&mut self, n: usize)
        requires
            old(self).wf(),
            old(self)@.cursor.row < old(self)@.rows,
            old(self)@.cursor.col <= old(self)@.cols,
        ensures
            final(self).wf(),
            final(self)@ == old(self)@.delete_chars(n as int),
    {
        let ghost before = self@;
        let r: usize = self.cursor.row;
        let c: usize = self.cursor.col;
        let cols: usize = self.cols;
        let count: usize = if n < cols - c {
            n
        } else {
            cols - c
        };
        let blank = self.pen.blank_cell();
        assert(before.lines[r as int].len() == before.cols);
        let line = &mut self.lines[r];
        let ghost cells = line.cells@;
        let mut i: usize = c;
        while i < cols - count
            invariant
                c <= i <= cols - count,
                count <= cols - c,
                cells.len() == cols,
                line.cells@.len() == cols,
                forall|k: int|
                    0 <= k < cols ==> line.cells@[k] == (if c <= k < i {
                        cells[k + count]
                    } else {
                        cells[k]
                    }),
            decreases cols - count - i,
        {
            line.cells[i] = line.cells[i + count];
            i += 1;
        }
        line.fill(cols - count, cols, blank);
        assert(self@.lines =~~= before.delete_chars(n as int).lines);
    }

    /// Puts `n` erased cells into the line at the cursor.
    pub fn insert_chars(&mut self, n: usize)
        requires
            old(self).wf(),
            old(self)@.cursor.row < old(self)@.rows,
            old(self)@.cursor.col <= old(self)@.cols,
        ensures
            final(self).wf(),
            final(self)@ == old(self)@.insert_chars(n as int),
    {
        let ghost before = self@;
        let r: usize = self.cursor.row;
        let c: usize = self.cursor.col;
        let cols: usize = self.cols;
        let count: usize = if n < cols - c {
            n
        } else {
            cols - c
        };
        let blank = self.pen.blank_cell();
        assert(before.lines[r as int].len() == before.cols);
        let line = &mut self.lines[r];
        let ghost cells = line.cells@;
        let mut i: usize = cols;
        while i > c + count
            invariant
                c + count <= i <= cols,
                cells.len() == cols,
                line.cells@.len() == cols,
                forall|k: int|
                    0 <= k < cols ==> line.cells@[k] == (if i <= k {
                        cells[k - count]
                    } else {
                        cells[k]
                    }),
            decreases i,
        {
            i -= 1;
            line.cells[i] = line.cells[i - count];
        }
        line.fill(c, c + count, blank);
        assert(self@.lines =~~= before.insert_chars(n as int).lines);
    }

    /// Puts `n` erased lines in at the cursor, within the scroll region.
    pub fn insert_lines(&mut self, n: usize)
        requires
            old(self).wf(),
            old(self)@.rows > 0 || !old(self)@.in_region() || n == 0,
        ensures
            final(self).wf(),
            final(self)@ == old(self)@.insert_lines(n as int),
    {
        let row: usize = self.cursor.row;
        let bot: usize = self.scroll_bot;
        if row < self.scroll_top || row > bot {
            return ;
        }
        let height: usize = bot - row + 1;
        let count: usize = if n < height {
            n
        } else {
            height
        };
        self.shift_down_by(row, bot, count);
    }

    /// Takes `n` lines out at the cursor, within the scroll region.
    pub fn delete_lines(&mut self, n: usize)
        requires
            old(self).wf(),
            old(self)@.rows > 0 || !old(self)@.in_region() || n == 0,
        ensures
            final(self).wf(),
            final(self)@ == old(self)@.delete_lines(n as int),
    {
        let row: usize = self.cursor.row;
        let bot: usize = self.scroll_bot;
        if row < self.scroll_top || row > bot {
            return ;
        }
        let height: usize = bot - row + 1;
        let count: usize = if n < height {
            n
        } else {
            height
        };
        self.shift_up_by(row, bot, count);
    }

    /// Limits scrolling to the rows `top..=bot`.
    pub fn set_scroll_region(&mut self, top: usize, bot: usize)
        requires
            old(self).wf(),
        ensures
            final(self).wf(),
            final(self)@ == old(self)@.set_scroll_region(top as int, bot as int),
    {
        if top < bot && bot < self.rows {
            self.scroll_top = top;
            self.scroll_bot = bot;
            self.cursor.row = 0;
            self.cursor.col = 0;
            self.cursor.wrap_next = false;
        }
    }

    pub fn save_cursor(&mut self)
        requires
            old(self).wf(),
        ensures
            final(self).wf(),
            final(self)@ == old(self)@.save_cursor(),
    {
        self.saved = Some((self.cursor, self.pen));
    }

    pub fn restore_cursor(&mut self)
        requires
            old(self).wf(),
        ensures
            final(self).wf(),
            final(self)@ == old(self)@.restore_cursor(),
    {
        if let Some((cursor, pen)) = self.saved {
            self.cursor = cursor;
            self.pen = pen;
        }
    }
}

} // verus!
