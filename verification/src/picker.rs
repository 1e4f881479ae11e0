//! The theme picker: a list to move through, with a live preview and a way
//! back.

use vstd::prelude::*;

use crate::text;
use crate::theme::{Theme, ThemeModel};
use crate::theme_lib;
use crate::theme_lib::ThemeLib;

verus! {

/// The picker while it is open.
pub struct Picker {
    themes: Vec<String>,
    cursor: usize,
    scroll: usize,
    original_index: usize,
}

/// The picker as a mathematical value.
#[verifier::ext_equal]
pub struct PickerModel {
    pub themes: Seq<Seq<char>>,
    /// The highlighted entry.
    pub cursor: int,
    /// The first entry in view.
    pub scroll: int,
    /// The entry that was active when the picker opened.
    pub original: int,
}

impl View for Picker {
    type V = PickerModel;

    closed spec fn view(&self) -> PickerModel {
        PickerModel {
            themes: text::texts(self.themes@),
            cursor: self.cursor as int,
            scroll: self.scroll as int,
            original: self.original_index as int,
        }
    }
}

impl PickerModel {
    /// The picker lists something, and what it points at is in the list.
    pub open spec fn wf(self) -> bool {
        &&& self.themes.len() > 0
        &&& 0 <= self.cursor < self.themes.len()
        &&& 0 <= self.original < self.themes.len()
        &&& 0 <= self.scroll
    }

    /// One entry up, around the top.
    pub open spec fn up(self) -> PickerModel {
        PickerModel {
            cursor: if self.cursor == 0 {
                self.themes.len() - 1
            } else {
                self.cursor - 1
            },
            ..self
        }
    }

    /// One entry down, around the bottom.
    pub open spec fn down(self) -> PickerModel {
        PickerModel {
            cursor: if self.cursor + 1 == self.themes.len() {
                0
            } else {
                self.cursor + 1
            },
            ..self
        }
    }

    /// To an entry, at most the last and at least the first.
    pub open spec fn to(self, i: int) -> PickerModel {
        PickerModel { cursor: crate::grid::clamp_below(i, self.themes.len() as int), ..self }
    }
}

/// Geometry of the picker, in cells.
#[derive(Copy, Clone, Debug, PartialEq, Eq)]
pub struct Layout {
    /// Row and column of the top left corner.
    pub origin: (usize, usize),
    /// Height and width.
    pub size: (usize, usize),
    /// The number of entries in view.
    pub list_visible: usize,
    /// The first entry in view.
    pub scroll: usize,
}

/// The larger of two integers.
pub open spec fn max_int(a: int, b: int) -> int {
    if a >= b {
        a
    } else {
        b
    }
}

/// `a - b`, or zero.
pub open spec fn minus(a: int, b: int) -> int {
    max_int(a - b, 0)
}

/// The width of the box: forty columns, or what a margin of one column on
/// each side leaves.
pub open spec fn box_width(grid_cols: int) -> int {
    crate::grid::min_int(40, minus(grid_cols, 2))
}

/// The height of the box: a row for each entry and three for borders and
/// header, within a margin of two rows on each side, but never less than
/// five.
pub open spec fn box_height(grid_rows: int, entries: int) -> int {
    max_int(crate::grid::min_int(entries + 3, minus(grid_rows, 4)), 5)
}

/// The first entry in view, moved as little as keeps the cursor in view.
pub open spec fn scrolled(cursor: int, scroll: int, visible: int) -> int {
    if cursor < scroll {
        cursor
    } else if cursor >= scroll + visible {
        cursor + 1 - visible
    } else {
        scroll
    }
}

impl Picker {
    /// Opens the picker on the active theme, or on the first where the active
    /// one is not in the list.
    pub fn new(lib: &ThemeLib, current_name: &str) -> (picker: Picker)
        ensures
            picker@.themes == Seq::new(lib@.len(), |i: int| lib@[i].name),
            picker@.original == (if theme_lib::named(lib@, current_name@, 0) < lib@.len() {
                theme_lib::named(lib@, current_name@, 0)
            } else {
                0
            }),
            picker@.cursor == picker@.original,
            picker@.scroll == 0,
            lib@.len() > 0 ==> picker@.wf(),
    {
        let names = lib.names();
        let original: usize = match lib.position(current_name) {
            Some(i) => i,
            None => 0,
        };
        let picker = Picker {
            themes: names,
            cursor: original,
            scroll: 0,
            original_index: original,
        };
        proof {
            assert(picker@.themes =~= Seq::new(lib@.len(), |i: int| lib@[i].name));
            lemma_named_bounds(lib@, current_name@, 0);
        }
        picker
    }

    /// The highlighted entry.
    pub fn cursor(&self) -> (i: usize)
        ensures
            i == self@.cursor,
    {
        self.cursor
    }

    /// The entry that was active when the picker opened.
    pub fn original(&self) -> (i: usize)
        ensures
            i == self@.original,
    {
        self.original_index
    }

    /// The theme to go back to.
    pub fn cancel<'a>(&self, lib: &'a ThemeLib) -> (theme: &'a Theme)
        requires
            self@.original < lib@.len(),
        ensures
            theme@ == lib@[self@.original],
    {
        lib.at(self.original_index)
    }

    /// The highlighted theme.
    pub fn current<'a>(&self, lib: &'a ThemeLib) -> (theme: &'a Theme)
        requires
            self@.cursor < lib@.len(),
        ensures
            theme@ == lib@[self@.cursor],
    {
        lib.at(self.cursor)
    }

    pub fn move_up(&mut self)
        requires
            old(self)@.wf(),
        ensures
            final(self)@.wf(),
            final(self)@ == old(self)@.up(),
    {
        if self.cursor == 0 {
            self.cursor = self.themes.len() - 1;
        } else {
            self.cursor = self.cursor - 1;
        }
    }

    pub fn move_down(&mut self)
        requires
            old(self)@.wf(),
        ensures
            final(self)@.wf(),
            final(self)@ == old(self)@.down(),
    {
        if self.cursor == self.themes.len() - 1 {
            self.cursor = 0;
        } else {
            self.cursor = self.cursor + 1;
        }
    }

    pub fn page_up(&mut self, n: usize)
        requires
            old(self)@.wf(),
        ensures
            final(self)@.wf(),
            final(self)@ == old(self)@.to(old(self)@.cursor - n),
    {
        if n < self.cursor {
            self.cursor = self.cursor - n;
        } else {
            self.cursor = 0;
        }
    }

    pub fn page_down(&mut self, n: usize)
        requires
            old(self)@.wf(),
        ensures
            final(self)@.wf(),
            final(self)@ == old(self)@.to(old(self)@.cursor + n),
    {
        if n < self.themes.len() - self.cursor {
            self.cursor = self.cursor + n;
        } else {
            self.cursor = self.themes.len() - 1;
        }
    }

    pub fn home(&mut self)
        requires
            old(self)@.wf(),
        ensures
            final(self)@.wf(),
            final(self)@ == old(self)@.to(0),
    {
        self.cursor = 0;
    }

    pub fn end(&mut self)
        requires
            old(self)@.wf(),
        ensures
            final(self)@.wf(),
            final(self)@ == old(self)@.to(old(self)@.themes.len() - 1),
    {
        self.cursor = self.themes.len() - 1;
    }

    /// Lays the picker out on a screen, scrolling so that the cursor is in
    /// view.
    pub fn layout(&mut self, grid_rows: usize, grid_cols: usize) -> (layout: Layout)
        requires
            old(self)@.wf(),
        ensures
            final(self)@.wf(),
            ({
                let height = box_height(grid_rows as int, old(self)@.themes.len() as int);
                let width = box_width(grid_cols as int);
                let visible = height - 3;
                let scroll = scrolled(old(self)@.cursor, old(self)@.scroll, visible);
                &&& layout.size.0 == height
                &&& layout.size.1 == width
                &&& layout.origin.0 == minus(grid_rows as int, height) / 2
                &&& layout.origin.1 == (grid_cols - width) / 2
                &&& layout.list_visible == visible
                &&& layout.scroll == scroll
                &&& final(self)@ == (PickerModel { scroll, ..old(self)@ })
            }),
    {
        let margin: usize = if grid_cols > 2 {
            grid_cols - 2
        } else {
            0
        };
        let width: usize = if margin < 40 {
            margin
        } else {
            40
        };
        let max_height: usize = if grid_rows > 4 {
            grid_rows - 4
        } else {
            0
        };
        let entries: usize = self.themes.len();
        let wanted: usize = if max_height < 3 || entries > max_height - 3 {
            max_height
        } else {
            entries + 3
        };
        let height: usize = if wanted > 5 {
            wanted
        } else {
            5
        };
        let visible: usize = height - 3;
        if self.cursor < self.scroll {
            self.scroll = self.cursor;
        } else if self.cursor - self.scroll >= visible {
            self.scroll = self.cursor + 1 - visible;
        }
        let spare_rows: usize = if grid_rows > height {
            grid_rows - height
        } else {
            0
        };
        Layout {
            origin: (spare_rows / 2, (grid_cols - width) / 2),
            size: (height, width),
            list_visible: visible,
            scroll: self.scroll,
        }
    }

    /// The names that the picker lists.
    pub fn themes(&self) -> (names: &[String])
        ensures
            text::texts(names@) == self@.themes,
    {
        self.themes.as_slice()
    }
}

proof fn lemma_named_bounds(themes: Seq<ThemeModel>, name: Seq<char>, i: int)
    requires
        0 <= i <= themes.len(),
    ensures
        i <= theme_lib::named(themes, name, i) <= themes.len(),
    decreases themes.len() - i,
{
    if i < themes.len() {
        lemma_named_bounds(themes, name, i + 1);
    }
}

/// Up and down undo each other, also around the ends of the list.
pub proof fn law_up_and_down_cancel(p: PickerModel)
    requires
        p.wf(),
    ensures
        p.up().down() == p,
        p.down().up() == p,
        p.up().wf(),
        p.down().wf(),
{
}

/// However the list was scrolled, laying it out brings the cursor into view.
pub proof fn law_cursor_is_in_view(p: PickerModel, grid_rows: int)
    requires
        p.wf(),
    ensures
        ({
            let visible = box_height(grid_rows, p.themes.len() as int) - 3;
            let scroll = scrolled(p.cursor, p.scroll, visible);
            scroll <= p.cursor < scroll + visible
        }),
{
}

} // verus!
