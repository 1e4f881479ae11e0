//! The mouse: what is reported to the application, and what selects, scrolls
//! and pastes.

use vstd::prelude::*;

use crate::keys::Modifiers;
use crate::mouse;
use crate::mouse::{MouseAction, MouseButton, MouseEvent, MouseMode};
use crate::selection;
use crate::selection::Selection;
use crate::term::{Term, TermModel};
use crate::vi_keys;

verus! {

/// The last press of the left button.
#[derive(Copy, Clone, Debug, PartialEq, Eq)]
pub struct Click {
    /// When it was, in nanoseconds.
    pub time: u64,
    pub cell: (usize, usize),
    /// How many fast clicks in a row: one, two or three.
    pub count: u32,
}

/// Two presses further apart than this, in nanoseconds, are not one click.
pub const MULTI_CLICK_NANOS: u64 = 400_000_000;

/// What is known of the mouse between events.
#[derive(Copy, Clone, Debug, PartialEq, Eq)]
pub struct Pointer {
    pub left_held: bool,
    pub middle_held: bool,
    /// The cell that the last motion was reported for.
    pub last_reported: Option<(usize, usize)>,
    pub last_click: Option<Click>,
}

/// What to do about a mouse event.
#[derive(Debug)]
pub struct MouseReaction {
    /// Bytes for the application.
    pub send: Vec<u8>,
    /// Text for the clipboard and the primary selection.
    pub copy: Option<String>,
    /// The primary selection is to be pasted, or the clipboard where that is
    /// empty.
    pub paste: bool,
    pub redraw: bool,
}

/// Everything that a mouse event can change.
#[verifier::ext_equal]
pub struct PointerState {
    pub pointer: Pointer,
    pub term: TermModel,
    pub selection: Option<Selection>,
    pub sent: Seq<u8>,
    pub copied: Seq<char>,
    pub paste: bool,
    pub redraw: bool,
}

/// Two presses at the same cell within the time for one click.
pub open spec fn same_click(last: Option<Click>, cell: (usize, usize), now: u64) -> bool {
    last matches Some(c) && c.cell == cell && now - c.time <= MULTI_CLICK_NANOS
}

/// How many fast clicks in a row a press makes.
pub open spec fn click_count(last: Option<Click>, cell: (usize, usize), now: u64) -> u32 {
    if same_click(last, cell, now) {
        (last->0.count % 3 + 1) as u32
    } else {
        1
    }
}

/// A number counted from zero as the wire counts it, from one.
pub open spec fn wire_number(n: usize) -> u16 {
    ((n + 1) % 0x1_0000) as u16
}

/// The event for a mouse action at a cell.
pub open spec fn event_at(
    button: MouseButton,
    action: MouseAction,
    cell: (usize, usize),
    mods: Modifiers,
) -> MouseEvent {
    MouseEvent {
        button,
        action,
        col: wire_number(cell.1),
        row: wire_number(cell.0),
        shift: mods.shift,
        alt: mods.alt,
        ctrl: mods.ctrl,
    }
}

/// The same bytes `n` times over.
pub open spec fn repeated(bytes: Seq<u8>, n: int) -> Seq<u8>
    decreases n,
{
    if n <= 0 {
        Seq::empty()
    } else {
        repeated(bytes, n - 1) + bytes
    }
}

/// The application gets mouse events. Shift keeps them from it.
pub open spec fn reports(t: TermModel, shift: bool) -> bool {
    t.mouse_mode != MouseMode::Off && !shift
}

/// The selection that a press begins: a cell, a word, or a line.
pub open spec fn pressed_selection(t: TermModel, cell: (usize, usize), count: u32) -> Selection {
    if count == 2 {
        let ends = selection::word_at(t, cell.0, cell.1);
        Selection {
            anchor: ends.0,
            end: ends.1,
            dragging: false,
            mode: selection::SelectionMode::Char,
        }
    } else if count == 3 {
        Selection {
            anchor: (cell.0, 0),
            end: (cell.0, (t.screen().cols - 1) as usize),
            dragging: false,
            mode: selection::SelectionMode::Char,
        }
    } else {
        Selection {
            anchor: cell,
            end: cell,
            dragging: count <= 1,
            mode: selection::SelectionMode::Char,
        }
    }
}

impl PointerState {
    /// An event reported to the application.
    pub open spec fn sending(self, event: MouseEvent) -> PointerState {
        PointerState {
            sent: self.sent + mouse::mouse_bytes(event, self.term.mouse_encoding),
            ..self
        }
    }

    /// The button that a motion is reported with.
    pub open spec fn held_button(self) -> MouseButton {
        if self.pointer.left_held {
            MouseButton::Left
        } else if self.pointer.middle_held {
            MouseButton::Middle
        } else {
            MouseButton::NoButton
        }
    }

    /// Whether the application wants motion as things are.
    pub open spec fn wants_motion(self) -> bool {
        match self.term.mouse_mode {
            MouseMode::Off => false,
            MouseMode::ButtonEvent => false,
            MouseMode::ButtonAndMotion => self.pointer.left_held || self.pointer.middle_held,
            MouseMode::AllMotion => true,
        }
    }

    /// The mouse moved to a cell. A motion within one cell is reported only
    /// once. A drag beyond the top or the bottom of the window scrolls.
    pub open spec fn moved(
        self,
        cell: (usize, usize),
        above: bool,
        below: bool,
        mods: Modifiers,
    ) -> PointerState {
        if reports(self.term, mods.shift) {
            if self.wants_motion() && self.pointer.last_reported != Some(cell) {
                PointerState {
                    pointer: Pointer { last_reported: Some(cell), ..self.pointer },
                    ..self.sending(
                        event_at(self.held_button(), MouseAction::Motion, cell, mods),
                    )
                }
            } else {
                self
            }
        } else if self.selection matches Some(sel) && sel.dragging {
            let sel = self.selection->0;
            PointerState {
                term: if above {
                    self.term.scroll_view(1)
                } else if below {
                    self.term.scroll_view(-1)
                } else {
                    self.term
                },
                selection: Some(Selection { end: cell, ..sel }),
                redraw: self.redraw || cell != sel.end,
                ..self
            }
        } else {
            self
        }
    }

    /// The left button went down or up.
    pub open spec fn left(
        self,
        pressed: bool,
        cell: (usize, usize),
        now: u64,
        mods: Modifiers,
    ) -> PointerState {
        if reports(self.term, mods.shift) {
            PointerState {
                pointer: Pointer { left_held: pressed, ..self.pointer },
                ..self.sending(
                    event_at(
                        MouseButton::Left,
                        if pressed {
                            MouseAction::Press
                        } else {
                            MouseAction::Release
                        },
                        cell,
                        mods,
                    ),
                )
            }
        } else if pressed {
            self.left_pressed(cell, now, mods.shift)
        } else {
            self.left_released()
        }
    }

    /// A press that selects. With Shift it extends the selection there is. A
    /// double click takes the word and a triple click the line, and copies it.
    pub open spec fn left_pressed(self, cell: (usize, usize), now: u64, shift: bool) -> PointerState {
        if shift && self.selection is Some {
            PointerState {
                selection: Some(
                    Selection { end: cell, dragging: true, ..self.selection->0 },
                ),
                redraw: true,
                ..self
            }
        } else {
            let count = click_count(self.pointer.last_click, cell, now);
            let sel = pressed_selection(self.term, cell, count);
            PointerState {
                pointer: Pointer {
                    last_click: Some(Click { time: now, cell, count }),
                    ..self.pointer
                },
                selection: Some(sel),
                copied: if count > 1 {
                    selection::selection_copy(self.term, sel)
                } else {
                    self.copied
                },
                redraw: true,
                ..self
            }
        }
    }

    /// The end of a drag, which copies what it selected.
    pub open spec fn left_released(self) -> PointerState {
        match self.selection {
            None => self,
            Some(sel) => {
                let still = Selection { dragging: false, ..sel };
                PointerState {
                    selection: Some(still),
                    copied: if sel.anchor == sel.end {
                        self.copied
                    } else {
                        selection::selection_copy(self.term, still)
                    },
                    ..self
                }
            },
        }
    }

    /// The middle button went down, which pastes, or up.
    pub open spec fn middle(self, pressed: bool, cell: (usize, usize), mods: Modifiers) -> PointerState {
        if reports(self.term, mods.shift) {
            PointerState {
                pointer: Pointer { middle_held: pressed, ..self.pointer },
                ..self.sending(
                    event_at(
                        MouseButton::Middle,
                        if pressed {
                            MouseAction::Press
                        } else {
                            MouseAction::Release
                        },
                        cell,
                        mods,
                    ),
                )
            }
        } else {
            PointerState { paste: pressed, ..self }
        }
    }

    /// The wheel turned by a number of lines, up for a positive one. The
    /// application gets one event for each line.
    pub open spec fn wheel(self, lines: int, cell: (usize, usize), mods: Modifiers) -> PointerState {
        if lines == 0 {
            self
        } else if reports(self.term, mods.shift) {
            let event = event_at(
                if lines > 0 {
                    MouseButton::WheelUp
                } else {
                    MouseButton::WheelDown
                },
                MouseAction::Press,
                cell,
                mods,
            );
            PointerState {
                sent: self.sent + repeated(
                    mouse::mouse_bytes(event, self.term.mouse_encoding),
                    if lines > 0 {
                        lines
                    } else {
                        -lines
                    },
                ),
                ..self
            }
        } else {
            PointerState { term: self.term.scroll_view(lines), redraw: true, ..self }
        }
    }
}

/// The state before an event.
pub open spec fn before(pointer: Pointer, t: TermModel, selection: Option<Selection>) -> PointerState {
    PointerState {
        pointer,
        term: t,
        selection,
        sent: Seq::empty(),
        copied: Seq::empty(),
        paste: false,
        redraw: false,
    }
}

/// The state after an event.
pub open spec fn after(
    pointer: Pointer,
    t: TermModel,
    selection: Option<Selection>,
    reaction: MouseReaction,
) -> PointerState {
    PointerState {
        pointer,
        term: t,
        selection,
        sent: reaction.send@,
        copied: vi_keys::text_of(reaction.copy),
        paste: reaction.paste,
        redraw: reaction.redraw,
    }
}

/// The reaction to an event that changes nothing.
fn no_reaction() -> (r: MouseReaction)
    ensures
        r.send@ == Seq::<u8>::empty(),
        r.copy is None,
        !r.paste,
        !r.redraw,
{
    MouseReaction { send: Vec::new(), copy: None, paste: false, redraw: false }
}

/// A number as the wire counts it; see [`wire_number`].
fn to_wire(n: usize) -> (w: u16)
    requires
        n < usize::MAX,
    ensures
        w == wire_number(n),
{
    ((n + 1) % 0x1_0000) as u16
}

/// Reports a mouse action at a cell.
fn report(
    term: &Term,
    button: MouseButton,
    action: MouseAction,
    cell: (usize, usize),
    mods: Modifiers,
) -> (r: MouseReaction)
    requires
        cell.0 < usize::MAX,
        cell.1 < usize::MAX,
    ensures
        r.send@ == mouse::mouse_bytes(
            event_at(button, action, cell, mods),
            term@.mouse_encoding,
        ),
        r.copy is None,
        !r.paste,
        !r.redraw,
{
    let event = MouseEvent {
        button,
        action,
        col: to_wire(cell.1),
        row: to_wire(cell.0),
        shift: mods.shift,
        alt: mods.alt,
        ctrl: mods.ctrl,
    };
    MouseReaction {
        send: mouse::encode_mouse(event, term.mouse_encoding()),
        copy: None,
        paste: false,
        redraw: false,
    }
}

fn app_wants_mouse(term: &Term, shift: bool) -> (wants: bool)
    ensures
        wants == reports(term@, shift),
{
    term.mouse_mode() != MouseMode::Off && !shift
}

/// A cell of the grid.
pub open spec fn on_grid(t: TermModel, cell: (usize, usize)) -> bool {
    cell.0 < t.screen().rows && cell.1 < t.screen().cols
}

impl Pointer {
    /// No button held, and no click yet.
    pub fn new() -> (p: Pointer)
        ensures
            p == (Pointer {
                left_held: false,
                middle_held: false,
                last_reported: None,
                last_click: None,
            }),
    {
        Pointer { left_held: false, middle_held: false, last_reported: None, last_click: None }
    }

    /// The mouse moved to a cell; `above` and `below` say that it is beyond
    /// the top or the bottom of the window.
    pub fn moved(
        &mut self,
        term: &mut Term,
        selection: &mut Option<Selection>,
        cell: (usize, usize),
        above: bool,
        below: bool,
        mods: Modifiers,
    ) -> (r: MouseReaction)
        requires
            old(term).wf(),
            on_grid(old(term)@, cell),
        ensures
            final(term).wf(),
            final(term).history() == old(term).history(),
            after(*final(self), final(term)@, *final(selection), r) == before(
                *old(self),
                old(term)@,
                *old(selection),
            ).moved(cell, above, below, mods),
    {
        let ghost s = before(*self, term@, *selection);
        if app_wants_mouse(term, mods.shift) {
            let wanted: bool = match term.mouse_mode() {
                MouseMode::Off => false,
                MouseMode::ButtonEvent => false,
                MouseMode::ButtonAndMotion => self.left_held || self.middle_held,
                MouseMode::AllMotion => true,
            };
            let reported: bool = match self.last_reported {
                Some(c) => c.0 == cell.0 && c.1 == cell.1,
                None => false,
            };
            if !wanted || reported {
                return no_reaction();
            }
            let button = if self.left_held {
                MouseButton::Left
            } else if self.middle_held {
                MouseButton::Middle
            } else {
                MouseButton::NoButton
            };
            self.last_reported = Some(cell);
            let r = report(term, button, MouseAction::Motion, cell, mods);
            assert(after(*self, term@, *selection, r) =~= s.moved(cell, above, below, mods));
            return r;
        }
        let mut redraw: bool = false;
        if let Some(sel) = *selection {
            if sel.dragging {
                if above {
                    term.scroll_view(1);
                } else if below {
                    term.scroll_view(-1);
                }
                redraw = sel.end.0 != cell.0 || sel.end.1 != cell.1;
                *selection = Some(Selection { end: cell, ..sel });
            }
        }
        MouseReaction { send: Vec::new(), copy: None, paste: false, redraw }
    }

    /// The left button went down or up at a cell, at a time in nanoseconds.
    pub fn left(
        &mut self,
        term: &Term,
        selection: &mut Option<Selection>,
        pressed: bool,
        cell: (usize, usize),
        now: u64,
        mods: Modifiers,
    ) -> (r: MouseReaction)
        requires
            term.wf(),
            on_grid(term@, cell),
        ensures
            after(*final(self), term@, *final(selection), r) == before(
                *old(self),
                term@,
                *old(selection),
            ).left(pressed, cell, now, mods),
    {
        let ghost s = before(*self, term@, *selection);
        if app_wants_mouse(term, mods.shift) {
            self.left_held = pressed;
            let action = if pressed {
                MouseAction::Press
            } else {
                MouseAction::Release
            };
            let r = report(term, MouseButton::Left, action, cell, mods);
            assert(after(*self, term@, *selection, r) =~= s.left(pressed, cell, now, mods));
            return r;
        }
        if !pressed {
            return Self::left_released(term, selection, *self);
        }
        if mods.shift {
            if let Some(sel) = *selection {
                *selection = Some(Selection { end: cell, dragging: true, ..sel });
                return MouseReaction { send: Vec::new(), copy: None, paste: false, redraw: true };
            }
        }
        let count: u32 = match self.last_click {
            Some(c) => if c.cell.0 == cell.0 && c.cell.1 == cell.1 && (now < c.time || now - c.time
                <= MULTI_CLICK_NANOS) {
                c.count % 3 + 1
            } else {
                1
            },
            None => 1,
        };
        self.last_click = Some(Click { time: now, cell, count });
        let sel = Self::press_selection(term, cell, count);
        let copy = if count > 1 {
            vi_keys::unless_empty(selection::copy_selection(term, &sel))
        } else {
            None
        };
        *selection = Some(sel);
        MouseReaction { send: Vec::new(), copy, paste: false, redraw: true }
    }

    /// The selection that a press begins; see [`pressed_selection`].
    fn press_selection(term: &Term, cell: (usize, usize), count: u32) -> (sel: Selection)
        requires
            term.wf(),
            on_grid(term@, cell),
            1 <= count <= 3,
        ensures
            sel == pressed_selection(term@, cell, count),
    {
        if count == 2 {
            let (start, end) = selection::word_bounds(term, cell.0, cell.1);
            return Selection {
                anchor: start,
                end,
                dragging: false,
                mode: selection::SelectionMode::Char,
            };
        }
        if count == 3 {
            let (start, end) = selection::line_bounds(term, cell.0);
            return Selection {
                anchor: start,
                end,
                dragging: false,
                mode: selection::SelectionMode::Char,
            };
        }
        Selection::new(cell)
    }

    fn left_released(term: &Term, selection: &mut Option<Selection>, p: Pointer) -> (r:
        MouseReaction)
        requires
            term.wf(),
        ensures
            after(p, term@, *final(selection), r) == before(
                p,
                term@,
                *old(selection),
            ).left_released(),
    {
        let mut copy: Option<String> = None;
        if let Some(sel) = *selection {
            let still = Selection { dragging: false, ..sel };
            if !still.is_empty() {
                copy = vi_keys::unless_empty(selection::copy_selection(term, &still));
            }
            *selection = Some(still);
        }
        MouseReaction { send: Vec::new(), copy, paste: false, redraw: false }
    }

    /// The middle button went down or up at a cell.
    pub fn middle(&mut self, term: &Term, pressed: bool, cell: (usize, usize), mods: Modifiers) -> (r:
        MouseReaction)
        requires
            term.wf(),
            on_grid(term@, cell),
        ensures
            forall|selection: Option<Selection>| #[trigger]
                after(*final(self), term@, selection, r) == before(
                    *old(self),
                    term@,
                    selection,
                ).middle(pressed, cell, mods),
    {
        let ghost p = *self;
        if app_wants_mouse(term, mods.shift) {
            self.middle_held = pressed;
            let action = if pressed {
                MouseAction::Press
            } else {
                MouseAction::Release
            };
            let r = report(term, MouseButton::Middle, action, cell, mods);
            assert forall|selection: Option<Selection>| #[trigger]
                after(*self, term@, selection, r) == before(p, term@, selection).middle(
                    pressed,
                    cell,
                    mods,
                ) by {
                assert(after(*self, term@, selection, r) =~= before(
                    p,
                    term@,
                    selection,
                ).middle(pressed, cell, mods));
            }
            return r;
        }
        MouseReaction { send: Vec::new(), copy: None, paste: pressed, redraw: false }
    }

    /// The wheel turned by a number of lines, up for a positive one.
    pub fn wheel(&self, term: &mut Term, lines: isize, cell: (usize, usize), mods: Modifiers) -> (r:
        MouseReaction)
        requires
            old(term).wf(),
            on_grid(old(term)@, cell),
        ensures
            final(term).wf(),
            final(term).history() == old(term).history(),
            forall|selection: Option<Selection>| #[trigger]
                after(*self, final(term)@, selection, r) == before(
                    *self,
                    old(term)@,
                    selection,
                ).wheel(lines as int, cell, mods),
    {
        if lines == 0 {
            return no_reaction();
        }
        if !app_wants_mouse(term, mods.shift) {
            term.scroll_view(lines);
            return MouseReaction { send: Vec::new(), copy: None, paste: false, redraw: true };
        }
        let button = if lines > 0 {
            MouseButton::WheelUp
        } else {
            MouseButton::WheelDown
        };
        let once = report(term, button, MouseAction::Press, cell, mods).send;
        let mut send: Vec<u8> = Vec::new();
        let mut left: isize = lines;
        let ghost total = if lines > 0 {
            lines as int
        } else {
            -lines
        };
        let ghost mut done: int = 0;
        while left != 0
            invariant
                lines > 0 ==> left >= 0 && done == lines - left,
                lines < 0 ==> left <= 0 && done == left - lines,
                lines != 0,
                total == (if lines > 0 {
                    lines as int
                } else {
                    -lines
                }),
                send@ == repeated(once@, done),
                0 <= done <= total,
            decreases total - done,
        {
            crate::text::push_bytes(&mut send, once.as_slice());
            proof {
                done = done + 1;
            }
            if left > 0 {
                left = left - 1;
            } else {
                left = left + 1;
            }
        }
        let r = MouseReaction { send, copy: None, paste: false, redraw: false };
        assert forall|selection: Option<Selection>| #[trigger]
            after(*self, term@, selection, r) == before(*self, term@, selection).wheel(
                lines as int,
                cell,
                mods,
            ) by {
            assert(after(*self, term@, selection, r) =~= before(*self, term@, selection).wheel(
                lines as int,
                cell,
                mods,
            ));
        }
        r
    }
}

/// With Shift held the application hears nothing of the mouse.
pub proof fn law_shift_keeps_the_mouse(
    s: PointerState,
    cell: (usize, usize),
    flag: bool,
    other: bool,
    now: u64,
    lines: int,
    mods: Modifiers,
)
    requires
        mods.shift,
    ensures
        s.moved(cell, flag, other, mods).sent == s.sent,
        s.left(flag, cell, now, mods).sent == s.sent,
        s.middle(flag, cell, mods).sent == s.sent,
        s.wheel(lines, cell, mods).sent == s.sent,
{
}

/// An application that did not ask for the mouse hears nothing of it, and one
/// that did gets events in place of the selection, the clipboard and the view.
pub proof fn law_mouse_has_one_reader(
    s: PointerState,
    cell: (usize, usize),
    flag: bool,
    other: bool,
    now: u64,
    lines: int,
    mods: Modifiers,
)
    requires
        !mods.shift,
    ensures
        s.term.mouse_mode == MouseMode::Off ==> {
            &&& s.moved(cell, flag, other, mods).sent == s.sent
            &&& s.left(flag, cell, now, mods).sent == s.sent
            &&& s.middle(flag, cell, mods).sent == s.sent
            &&& s.wheel(lines, cell, mods).sent == s.sent
        },
        s.term.mouse_mode != MouseMode::Off ==> {
            &&& s.moved(cell, flag, other, mods).selection == s.selection
            &&& s.moved(cell, flag, other, mods).term == s.term
            &&& s.left(flag, cell, now, mods).selection == s.selection
            &&& s.left(flag, cell, now, mods).copied == s.copied
            &&& s.middle(flag, cell, mods).paste == s.paste
            &&& s.wheel(lines, cell, mods).term == s.term
        },
{
}

/// Motion within one cell is reported at most once.
pub proof fn law_motion_is_reported_once(
    s: PointerState,
    cell: (usize, usize),
    above: bool,
    below: bool,
    mods: Modifiers,
)
    requires
        reports(s.term, mods.shift),
    ensures
        ({
            let there = s.moved(cell, above, below, mods);
            there.moved(cell, above, below, mods) == there
        }),
{
}

/// The cell at a place given in pixels, where the cells have a given width
/// and height. Places outside the grid count as its nearest cell.
pub open spec fn cell_at(pos: (i64, i64), cell: (u32, u32), rows: int, cols: int) -> (int, int) {
    (
        crate::grid::clamp_below(pixels_to_cells(pos.1, cell.1), rows),
        crate::grid::clamp_below(pixels_to_cells(pos.0, cell.0), cols),
    )
}

/// How many whole cells fit into a number of pixels.
pub open spec fn pixels_to_cells(pixels: i64, size: u32) -> int {
    if pixels <= 0 {
        0
    } else {
        pixels as int / (if size > 0 {
            size as int
        } else {
            1
        })
    }
}

/// The cell under the mouse; see [`cell_at`].
pub fn pixel_to_cell(pos: (i64, i64), cell: (u32, u32), term: &Term) -> (at: (usize, usize))
    requires
        term.wf(),
    ensures
        at.0 == cell_at(pos, cell, term@.screen().rows, term@.screen().cols).0,
        at.1 == cell_at(pos, cell, term@.screen().rows, term@.screen().cols).1,
        term@.has_cells() ==> at.0 < term@.screen().rows && at.1 < term@.screen().cols,
{
    let rows: usize = term.grid().rows;
    let cols: usize = term.grid().cols;
    (limited(pos.1, cell.1, rows), limited(pos.0, cell.0, cols))
}

fn limited(pixels: i64, size: u32, n: usize) -> (cells: usize)
    ensures
        cells == crate::grid::clamp_below(pixels_to_cells(pixels, size), n as int),
{
    let last: usize = if n > 0 {
        n - 1
    } else {
        0
    };
    if pixels <= 0 {
        return 0;
    }
    let unit: u64 = if size > 0 {
        size as u64
    } else {
        1
    };
    let whole: u64 = pixels as u64 / unit;
    if whole >= last as u64 {
        last
    } else {
        whole as usize
    }
}

/// The number of rows and columns that fit a window, at least one each.
pub open spec fn grid_dims(cell_size: (u32, u32), w: u32, h: u32) -> (int, int) {
    (
        fitting(h, cell_size.1) % 0x1_0000,
        fitting(w, cell_size.0) % 0x1_0000,
    )
}

/// How many cells fit, at least one.
pub open spec fn fitting(pixels: u32, size: u32) -> int {
    let n = pixels as int / (if size > 0 {
        size as int
    } else {
        1
    });
    if n > 0 {
        n
    } else {
        1
    }
}

/// Sixteen bits are enough to count the cells of a window.
pub open spec fn countable(cell_size: (u32, u32), w: u32, h: u32) -> bool {
    fitting(h, cell_size.1) <= u16::MAX && fitting(w, cell_size.0) <= u16::MAX
}

/// The number of rows and columns that fit a window of `w` by `h` pixels, in
/// sixteen bits.
pub fn grid_dims_for_window(cell_size: (u32, u32), w: u32, h: u32) -> (dims: (u16, u16))
    ensures
        dims.0 == grid_dims(cell_size, w, h).0,
        dims.1 == grid_dims(cell_size, w, h).1,
        countable(cell_size, w, h) ==> dims.0 >= 1 && dims.1 >= 1,
{
    proof {
        if countable(cell_size, w, h) {
            vstd::arithmetic::div_mod::lemma_small_mod(fitting(w, cell_size.0) as nat, 0x1_0000);
            vstd::arithmetic::div_mod::lemma_small_mod(fitting(h, cell_size.1) as nat, 0x1_0000);
        }
    }
    (fit(h, cell_size.1), fit(w, cell_size.0))
}

fn fit(pixels: u32, size: u32) -> (n: u16)
    ensures
        n == fitting(pixels, size) % 0x1_0000,
{
    let unit: u32 = if size > 0 {
        size
    } else {
        1
    };
    let whole: u32 = pixels / unit;
    if whole > 0 {
        (whole % 0x1_0000) as u16
    } else {
        1
    }
}

/// A window that is not excessively large has a grid with cells, and no more
/// cells than fit into it unless it is smaller than one cell.
pub proof fn law_grid_fits_the_window(cell_size: (u32, u32), w: u32, h: u32)
    requires
        cell_size.0 > 0,
        cell_size.1 > 0,
        countable(cell_size, w, h),
    ensures
        grid_dims(cell_size, w, h).0 >= 1,
        grid_dims(cell_size, w, h).1 >= 1,
        h >= cell_size.1 ==> grid_dims(cell_size, w, h).0 * cell_size.1 <= h,
        w >= cell_size.0 ==> grid_dims(cell_size, w, h).1 * cell_size.0 <= w,
{
    vstd::arithmetic::div_mod::lemma_fundamental_div_mod(h as int, cell_size.1 as int);
    vstd::arithmetic::div_mod::lemma_fundamental_div_mod(w as int, cell_size.0 as int);
    vstd::arithmetic::div_mod::lemma_small_mod(fitting(w, cell_size.0) as nat, 0x1_0000);
    vstd::arithmetic::div_mod::lemma_small_mod(fitting(h, cell_size.1) as nat, 0x1_0000);
    assert(fitting(h, cell_size.1) * cell_size.1 == cell_size.1 * fitting(h, cell_size.1))
        by (nonlinear_arith);
    assert(fitting(w, cell_size.0) * cell_size.0 == cell_size.0 * fitting(w, cell_size.0))
        by (nonlinear_arith);
    assert(h >= cell_size.1 ==> h as int / cell_size.1 as int >= 1) by (nonlinear_arith)
        requires
            cell_size.1 > 0,
    ;
    assert(w >= cell_size.0 ==> w as int / cell_size.0 as int >= 1) by (nonlinear_arith)
        requires
            cell_size.0 > 0,
    ;
}

} // verus!
