//! Vi mode: a cursor of its own that the user moves with vim-style keys, the
//! visual selection it spans, and half-typed counts and operators.

use vstd::prelude::*;

use crate::search::{Search, SearchModel};
use crate::selection::{Selection, SelectionMode};

verus! {

/// The kind of visual selection; `Off` is plain movement.
#[derive(Copy, Clone, Debug, PartialEq, Eq, Structural)]
pub enum VisualMode {
    Off,
    Char,
    Line,
    Block,
}

/// A sequence of keys that waits for its next key.
#[derive(Copy, Clone, Debug, PartialEq, Eq)]
pub enum PendingOp {
    /// After `g`.
    Goto,
    /// After `y`. The start is kept as a row of history and screen together,
    /// so that a motion that scrolls the view still yields the right range.
    Yank { start_abs: (usize, usize) },
    /// After `yi`.
    YankInner,
    /// After `ya`.
    YankAround,
}

/// The largest count that can be typed.
pub const MAX_COUNT: u32 = 10_000;

/// The state of vi mode.
pub struct ViMode {
    pub active: bool,
    /// Row and column in the view.
    pub cursor: (usize, usize),
    pub visual: VisualMode,
    /// Where the visual selection began.
    pub visual_anchor: Option<(usize, usize)>,
    /// The count typed so far.
    pub pending_count: Option<u32>,
    pub pending_op: Option<PendingOp>,
    pub search: Option<Search>,
}

/// The state of vi mode as a mathematical value.
#[verifier::ext_equal]
pub struct ViModel {
    pub active: bool,
    pub cursor: (usize, usize),
    pub visual: VisualMode,
    pub visual_anchor: Option<(usize, usize)>,
    pub pending_count: Option<u32>,
    pub pending_op: Option<PendingOp>,
    pub search: Option<SearchModel>,
}

impl View for ViMode {
    type V = ViModel;

    open spec fn view(&self) -> ViModel {
        ViModel {
            active: self.active,
            cursor: self.cursor,
            visual: self.visual,
            visual_anchor: self.visual_anchor,
            pending_count: self.pending_count,
            pending_op: self.pending_op,
            search: match self.search {
                Some(s) => Some(s@),
                None => None,
            },
        }
    }
}

impl ViModel {
    /// Places can be counted, and a search points at one of its hits.
    pub open spec fn wf(self) -> bool {
        &&& self.cursor.0 <= isize::MAX
        &&& self.search matches Some(s) ==> s.wf()
    }

    /// Vi mode left.
    pub open spec fn exit(self) -> ViModel {
        ViModel {
            active: false,
            visual: VisualMode::Off,
            visual_anchor: None,
            pending_count: None,
            pending_op: None,
            search: None,
            ..self
        }
    }
}

/// A count with one more digit, at most [`MAX_COUNT`].
pub open spec fn count_with_digit(count: Option<u32>, digit: u32) -> u32 {
    let typed = match count {
        Some(n) => n as int,
        None => 0,
    };
    if typed * 10 + digit <= MAX_COUNT {
        (typed * 10 + digit) as u32
    } else {
        MAX_COUNT
    }
}

/// How often a motion is repeated: once unless a positive count was typed.
pub open spec fn repeats(count: Option<u32>) -> u32 {
    match count {
        Some(n) => if n > 0 {
            n
        } else {
            1
        },
        None => 1,
    }
}

/// The selection that a visual mode spans.
pub open spec fn visual_selection(
    visual: VisualMode,
    anchor: Option<(usize, usize)>,
    cursor: (usize, usize),
    cols: usize,
) -> Option<Selection> {
    match anchor {
        None => None,
        Some(a) => match visual {
            VisualMode::Off => None,
            VisualMode::Char => Some(
                Selection { anchor: a, end: cursor, dragging: false, mode: SelectionMode::Char },
            ),
            VisualMode::Line => Some(
                Selection {
                    anchor: (
                        if a.0 <= cursor.0 {
                            a.0
                        } else {
                            cursor.0
                        },
                        0,
                    ),
                    end: (
                        if a.0 <= cursor.0 {
                            cursor.0
                        } else {
                            a.0
                        },
                        if cols > 0 {
                            (cols - 1) as usize
                        } else {
                            0
                        },
                    ),
                    dragging: false,
                    mode: SelectionMode::Char,
                },
            ),
            VisualMode::Block => Some(
                Selection { anchor: a, end: cursor, dragging: false, mode: SelectionMode::Block },
            ),
        },
    }
}

impl ViMode {
    pub fn new() -> (vi: ViMode)
        ensures
            vi == (ViMode {
                active: false,
                cursor: (0, 0),
                visual: VisualMode::Off,
                visual_anchor: None,
                pending_count: None,
                pending_op: None,
                search: None,
            }),
    {
        ViMode {
            active: false,
            cursor: (0, 0),
            visual: VisualMode::Off,
            visual_anchor: None,
            pending_count: None,
            pending_op: None,
            search: None,
        }
    }

    /// Enters vi mode with the cursor at a given place in the view.
    pub fn enter(&mut self, start: (usize, usize))
        ensures
            *final(self) == (ViMode {
                active: true,
                cursor: start,
                visual: VisualMode::Off,
                visual_anchor: None,
                pending_count: None,
                pending_op: None,
                search: None,
            }),
    {
        self.active = true;
        self.cursor = start;
        self.visual = VisualMode::Off;
        self.visual_anchor = None;
        self.pending_count = None;
        self.pending_op = None;
        self.search = None;
    }

    /// Leaves vi mode. The cursor stays where it was.
    pub fn exit(&mut self)
        ensures
            *final(self) == (ViMode {
                active: false,
                cursor: old(self).cursor,
                visual: VisualMode::Off,
                visual_anchor: None,
                pending_count: None,
                pending_op: None,
                search: None,
            }),
    {
        self.active = false;
        self.visual = VisualMode::Off;
        self.visual_anchor = None;
        self.pending_count = None;
        self.pending_op = None;
        self.search = None;
    }

    pub fn exit_visual(&mut self)
        ensures
            *final(self) == (ViMode {
                visual: VisualMode::Off,
                visual_anchor: None,
                ..*old(self)
            }),
    {
        self.visual = VisualMode::Off;
        self.visual_anchor = None;
    }

    /// Drops a half-typed count and operator.
    pub fn cancel_pending(&mut self)
        ensures
            *final(self) == (ViMode { pending_count: None, pending_op: None, ..*old(self) }),
    {
        self.pending_count = None;
        self.pending_op = None;
    }

    /// Uses up the typed count.
    pub fn take_count(&mut self) -> (count: u32)
        ensures
            count == repeats(old(self).pending_count),
            *final(self) == (ViMode { pending_count: None, ..*old(self) }),
    {
        let typed = self.pending_count;
        self.pending_count = None;
        match typed {
            Some(n) => if n > 0 {
                n
            } else {
                1
            },
            None => 1,
        }
    }

    /// Adds a digit to the count.
    pub fn push_digit(&mut self, d: u32)
        ensures
            *final(self) == (ViMode {
                pending_count: Some(count_with_digit(old(self).pending_count, d)),
                ..*old(self)
            }),
    {
        let typed: u64 = match self.pending_count {
            Some(n) => n as u64,
            None => 0,
        };
        let next: u64 = typed * 10 + d as u64;
        self.pending_count = Some(
            if next <= MAX_COUNT as u64 {
                next as u32
            } else {
                MAX_COUNT
            },
        );
    }

    pub fn start_visual_char(&mut self)
        ensures
            *final(self) == (ViMode {
                visual: VisualMode::Char,
                visual_anchor: Some(old(self).cursor),
                ..*old(self)
            }),
    {
        self.visual = VisualMode::Char;
        self.visual_anchor = Some(self.cursor);
    }

    pub fn start_visual_line(&mut self)
        ensures
            *final(self) == (ViMode {
                visual: VisualMode::Line,
                visual_anchor: Some(old(self).cursor),
                ..*old(self)
            }),
    {
        self.visual = VisualMode::Line;
        self.visual_anchor = Some(self.cursor);
    }

    pub fn start_visual_block(&mut self)
        ensures
            *final(self) == (ViMode {
                visual: VisualMode::Block,
                visual_anchor: Some(old(self).cursor),
                ..*old(self)
            }),
    {
        self.visual = VisualMode::Block;
        self.visual_anchor = Some(self.cursor);
    }

    /// The selection to show, if there is one. `cols` is the width of the
    /// screen, to which line-wise selections extend.
    pub fn selection(&self, cols: usize) -> (sel: Option<Selection>)
        ensures
            sel == visual_selection(self.visual, self.visual_anchor, self.cursor, cols),
    {
        match self.visual_anchor {
            None => None,
            Some(a) => match self.visual {
                VisualMode::Off => None,
                VisualMode::Char => Some(
                    Selection {
                        anchor: a,
                        end: self.cursor,
                        dragging: false,
                        mode: SelectionMode::Char,
                    },
                ),
                VisualMode::Line => {
                    let (top, bottom) = if a.0 <= self.cursor.0 {
                        (a.0, self.cursor.0)
                    } else {
                        (self.cursor.0, a.0)
                    };
                    let right: usize = if cols > 0 {
                        cols - 1
                    } else {
                        0
                    };
                    Some(
                        Selection {
                            anchor: (top, 0),
                            end: (bottom, right),
                            dragging: false,
                            mode: SelectionMode::Char,
                        },
                    )
                },
                VisualMode::Block => Some(
                    Selection {
                        anchor: a,
                        end: self.cursor,
                        dragging: false,
                        mode: SelectionMode::Block,
                    },
                ),
            },
        }
    }
}

/// However many digits are typed, the count stays within its limit.
pub proof fn law_count_is_capped(count: Option<u32>, digit: u32)
    ensures
        count_with_digit(count, digit) <= MAX_COUNT,
        1 <= repeats(Some(count_with_digit(count, digit))) <= MAX_COUNT,
{
}

} // verus!
