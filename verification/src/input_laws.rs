//! Where a key press and a mouse event go, and what comes of them.

use vstd::prelude::*;

use crate::keys;
use crate::keys::{Key, Modifiers, NamedKey};
use crate::motion_laws;
use crate::mouse;
use crate::mouse::{MouseAction, MouseButton, MouseEvent, MouseMode};
use crate::picker::PickerModel;
use crate::pointer;
use crate::pointer::{Click, Pointer, PointerState};
use crate::screen_laws;
use crate::selection;
use crate::selection::{Selection, SelectionMode};
use crate::session;
use crate::session::{ActionModel, KeyPress, SessionModel};
use crate::term::TermModel;
use crate::text;
use crate::theme_lib;
use crate::vi::VisualMode;
use crate::vi_bind;
use crate::vi_bind::{BindToken, KeyMatch, ViKeyBind};

verus! {

/// Neither the picker nor vi mode has the keyboard.
pub open spec fn plain(s: SessionModel) -> bool {
    s.wf() && s.picker is None && !s.vi.active
}

/// A key press that is no command of the terminal itself.
pub open spec fn for_the_application(s: SessionModel, press: KeyPress) -> bool {
    &&& !press.opens_picker()
    &&& !s.vi_keybind.fires_on(press.logical, press.mods)
    &&& !press.pastes()
    &&& keys::zoom_of(press.logical, press.mods) is None
}

/// What a key types.
pub open spec fn typed_by(press: KeyPress) -> Option<Seq<char>> {
    if press.typed is Some {
        Some(press.typed->0@)
    } else {
        None
    }
}

/// A key press that is no command goes to the application as its bytes, in the form
/// that its cursor key mode asks for. The view goes back to the live screen, and
/// nothing stays selected. A key without bytes does nothing.
pub proof fn law_typing_reaches_the_application(s: SessionModel, press: KeyPress)
    requires
        plain(s),
        for_the_application(s, press),
    ensures
        ({
            let bytes = keys::key_bytes(
                press.logical,
                typed_by(press),
                press.mods,
                s.term.application_cursor_keys,
            );
            let (after, action) = s.key(press);
            &&& bytes is Some ==> {
                &&& action == ActionModel::Send(bytes->0)
                &&& after == (SessionModel {
                    term: TermModel { viewport_offset: 0, ..s.term },
                    selection: None,
                    ..s
                })
            }
            &&& bytes is None ==> action == ActionModel::Nothing && after == s
        }),
{
}

/// Ctrl and Shift with T open the picker, with V they paste; Ctrl with the zoom keys
/// zooms; the binding begins vi mode at the cursor, or in the corner if that is out
/// of sight.
pub proof fn law_commands_of_the_terminal(s: SessionModel, press: KeyPress, t: String)
    requires
        plain(s),
        s.term.wf(),
        press.logical == Key::Character(t),
        t@.len() == 1,
    ensures
        ({
            let (after, action) = s.key(press);
            let both = press.mods.ctrl && press.mods.shift;
            let fires = s.vi_keybind.fires_on(press.logical, press.mods);
            let g = screen_laws::in_use(s.term);
            let row = g.cursor.row + s.term.viewport_offset;
            let opens = both && (t@[0] == 't' || t@[0] == 'T');
            let pastes = both && (t@[0] == 'v' || t@[0] == 'V');
            &&& opens ==> after.picker is Some && after == (SessionModel {
                picker: after.picker,
                ..s
            })
            &&& pastes && !press.opens_picker() && !fires ==> after == s && action
                == ActionModel::Paste
            &&& for_the_application(s, press) ==> after.picker is None && !after.vi.active
            &&& !press.opens_picker() && !fires && !press.pastes() ==> {
                let zoom = keys::zoom_of(press.logical, press.mods);
                zoom is Some ==> after == s && action == ActionModel::Zoom(zoom->0)
            }
            &&& !press.opens_picker() && fires ==> {
                &&& after.vi.active && after.selection is None
                &&& after == (SessionModel { vi: after.vi, selection: None, ..s })
                &&& after.vi.visual == VisualMode::Off && after.vi.visual_anchor is None
                &&& after.vi.pending_count is None && after.vi.pending_op is None
                &&& after.vi.search is None
                &&& g.cursor.visible && row < g.rows ==> after.vi.cursor == (
                    row as usize,
                    g.cursor.col as usize,
                )
                &&& !(g.cursor.visible && row < g.rows) ==> after.vi.cursor == (0usize, 0usize)
            }
        }),
{
}

/// The picker lists the names of all themes in their order, and opens on the active
/// one, or on the first where there is none of that name.
pub proof fn law_picker_opens_on_the_active_theme(s: SessionModel, press: KeyPress, i: int)
    requires
        s.wf(),
        s.picker is None,
        press.opens_picker(),
        0 <= i < s.themes.len(),
    ensures
        ({
            let p = s.key(press).0.picker->0;
            &&& s.key(press).0.picker is Some
            &&& p.themes.len() == s.themes.len()
            &&& p.themes[i] == s.themes[i].name
            &&& 0 <= p.cursor < s.themes.len() && p.original == p.cursor && p.scroll == 0
            &&& i < p.cursor ==> !theme_lib::same_name(s.themes[i].name, s.active_theme)
            &&& theme_lib::same_name(s.themes[i].name, s.active_theme) ==> theme_lib::same_name(
                s.themes[p.cursor].name,
                s.active_theme,
            )
        }),
{
    lemma_named(s.themes, s.active_theme, 0, i);
}

proof fn lemma_named(
    themes: Seq<crate::theme::ThemeModel>,
    name: Seq<char>,
    from: int,
    i: int,
)
    requires
        0 <= from <= themes.len(),
        0 <= i < themes.len(),
    ensures
        ({
            let at = theme_lib::named(themes, name, from);
            &&& from <= at <= themes.len()
            &&& from <= i < at ==> !theme_lib::same_name(themes[i].name, name)
            &&& at < themes.len() ==> theme_lib::same_name(themes[at].name, name)
        }),
    decreases themes.len() - from,
{
    if from < themes.len() && !theme_lib::same_name(themes[from].name, name) {
        lemma_named(themes, name, from + 1, i);
    }
}

/// The picker is on an entry and shows its theme: the application sees its colours,
/// and nothing else has changed.
pub open spec fn shows_entry(s: SessionModel, after: (SessionModel, ActionModel), i: int) -> bool {
    let theme = s.themes[i];
    &&& after.1 == ActionModel::ShowTheme(i)
    &&& after.0 == (SessionModel {
        picker: Some(PickerModel { cursor: i, ..s.picker->0 }),
        term: TermModel {
            default_fg: theme.fg,
            default_bg: theme.bg,
            cursor_color: theme.cursor_bg,
            ..s.term
        },
        ..s
    })
}

/// In the picker the arrows go one entry up and down, around the ends, the page
/// keys eight, Home to the first and End to the last; each shows the theme it comes
/// to.
pub proof fn law_picker_keys(s: SessionModel, press: KeyPress, k: NamedKey)
    requires
        s.wf(),
        s.picker is Some,
        !press.opens_picker(),
        press.logical == Key::Named(k),
    ensures
        ({
            let p = s.picker->0;
            let n = s.themes.len() as int;
            let after = s.key(press);
            let up = if p.cursor == 0 {
                n - 1
            } else {
                p.cursor - 1
            };
            let down = if p.cursor == n - 1 {
                0
            } else {
                p.cursor + 1
            };
            &&& k == NamedKey::ArrowUp ==> shows_entry(s, after, up)
            &&& k == NamedKey::ArrowDown ==> shows_entry(s, after, down)
            &&& k == NamedKey::PageUp ==> shows_entry(
                s,
                after,
                screen_laws::limited(p.cursor - 8, n - 1),
            )
            &&& k == NamedKey::PageDown ==> shows_entry(
                s,
                after,
                screen_laws::limited(p.cursor + 8, n - 1),
            )
            &&& k == NamedKey::Home ==> shows_entry(s, after, 0)
            &&& k == NamedKey::End ==> shows_entry(s, after, n - 1)
        }),
{
}

/// Enter keeps the theme that is shown and closes the picker. Escape closes it and
/// goes back to the theme that was active when it opened. Other keys do nothing.
pub proof fn law_picker_is_closed(s: SessionModel, press: KeyPress)
    requires
        s.wf(),
        s.picker is Some,
        !press.opens_picker(),
    ensures
        ({
            let p = s.picker->0;
            let (after, action) = s.key(press);
            let first = s.themes[p.original];
            &&& press.logical == Key::Named(NamedKey::Enter) ==> after == (SessionModel {
                picker: None,
                active_theme: s.themes[p.cursor].name,
                ..s
            })
            &&& press.logical == Key::Named(NamedKey::Escape) ==> {
                &&& action == ActionModel::ShowTheme(p.original)
                &&& after == (SessionModel {
                    picker: None,
                    active_theme: first.name,
                    term: TermModel {
                        default_fg: first.fg,
                        default_bg: first.bg,
                        cursor_color: first.cursor_bg,
                        ..s.term
                    },
                    ..s
                })
            }
            &&& press.logical is Character || press.logical is Unidentified ==> after == s
        }),
{
}

/// A paste goes out as UTF-8, between `ESC [ 200 ~` and `ESC [ 201 ~` if the application
/// asked for brackets.
pub proof fn law_paste_is_bracketed(pasted: Seq<char>)
    ensures
        session::paste_bytes(pasted, false) == vstd::utf8::encode_utf8(pasted),
        session::paste_bytes(pasted, true) == seq![0x1bu8, 0x5b, 0x32, 0x30, 0x30, 0x7e]
            + vstd::utf8::encode_utf8(pasted) + seq![0x1bu8, 0x5b, 0x32, 0x30, 0x31, 0x7e],
{
    reveal_strlit("\x1b[200~");
    reveal_strlit("\x1b[201~");
    assert(text::ascii("\x1b[200~"@) =~= seq![0x1bu8, 0x5b, 0x32, 0x30, 0x30, 0x7e]);
    assert(text::ascii("\x1b[201~"@) =~= seq![0x1bu8, 0x5b, 0x32, 0x30, 0x31, 0x7e]);
}

/// The words that a binding is written with.
pub proof fn law_words_of_a_binding(c: char)
    requires
        '0' <= c <= '9' || 'a' <= c <= 'z',
    ensures
        vi_bind::token_of(seq!['c', 't', 'r', 'l']) == BindToken::Ctrl,
        vi_bind::token_of(seq!['s', 'h', 'i', 'f', 't']) == BindToken::Shift,
        vi_bind::token_of(seq!['a', 'l', 't']) == BindToken::Alt,
        vi_bind::token_of(seq!['s', 'p', 'a', 'c', 'e']) == BindToken::Key(
            KeyMatch::Named(NamedKey::Space),
        ),
        vi_bind::token_of(seq!['t', 'a', 'b']) == BindToken::Key(KeyMatch::Named(NamedKey::Tab)),
        vi_bind::token_of(seq!['e', 'n', 't', 'e', 'r']) == BindToken::Key(
            KeyMatch::Named(NamedKey::Enter),
        ),
        vi_bind::token_of(seq![c]) == BindToken::Key(KeyMatch::Char(c)),
{
    reveal_strlit("ctrl");
    reveal_strlit("control");
    reveal_strlit("shift");
    reveal_strlit("alt");
    reveal_strlit("meta");
    reveal_strlit("option");
    reveal_strlit("space");
    reveal_strlit("tab");
    reveal_strlit("enter");
    reveal_strlit("return");
    reveal_strlit("backspace");
    let ctrl = seq!['c', 't', 'r', 'l'];
    let shift = seq!['s', 'h', 'i', 'f', 't'];
    let alt = seq!['a', 'l', 't'];
    let space = seq!['s', 'p', 'a', 'c', 'e'];
    let tab = seq!['t', 'a', 'b'];
    let enter = seq!['e', 'n', 't', 'e', 'r'];
    assert("ctrl"@ =~= ctrl);
    assert("shift"@ =~= shift);
    assert("alt"@ =~= alt);
    assert("space"@ =~= space);
    assert("tab"@ =~= tab);
    assert("enter"@ =~= enter);
    assert(shift[0] == 's' && shift.len() == 5 && ctrl.len() == 4 && alt.len() == 3);
    assert(alt[0] == 'a' && tab[0] == 't' && tab.len() == 3 && space.len() == 5 && space[1] == 'p');
    assert(shift[1] == 'h' && enter.len() == 5 && enter[0] == 'e' && ctrl[0] == 'c');
    assert("control"@.len() == 7 && "meta"@.len() == 4 && "option"@.len() == 6);
    assert("return"@.len() == 6 && "backspace"@.len() == 9);
    assert("meta"@[0] == 'm');
    assert(seq![c].len() == 1 && seq![c][0] == c);
}

/// A binding has the modifiers that its parts name, in any order, and the last key
/// among them. It is none if a part means nothing or no part is a key.
pub proof fn law_binding_is_what_is_written(parts: Seq<Seq<char>>, i: int)
    requires
        0 <= i < parts.len(),
    ensures
        ({
            let bind = vi_bind::bind_of(parts);
            let token = vi_bind::token_of(parts[i]);
            &&& token == BindToken::Bad ==> bind is None
            &&& bind is Some && token == BindToken::Ctrl ==> bind->0.ctrl
            &&& bind is Some && token == BindToken::Shift ==> bind->0.shift
            &&& bind is Some && token == BindToken::Alt ==> bind->0.alt
            &&& token is Key && i == parts.len() - 1 && bind is Some ==> bind->0.key == token->Key_0
            &&& (forall|k: int|
                0 <= k < parts.len() ==> !(vi_bind::token_of(#[trigger] parts[k]) is Key))
                ==> bind is None
            &&& (forall|k: int|
                0 <= k < parts.len() ==> vi_bind::token_of(#[trigger] parts[k])
                    != BindToken::Ctrl) && bind is Some ==> !bind->0.ctrl
            &&& (forall|k: int|
                0 <= k < parts.len() ==> vi_bind::token_of(#[trigger] parts[k])
                    != BindToken::Shift) && bind is Some ==> !bind->0.shift
            &&& (forall|k: int|
                0 <= k < parts.len() ==> vi_bind::token_of(#[trigger] parts[k])
                    != BindToken::Alt) && bind is Some ==> !bind->0.alt
        }),
{
    let token = vi_bind::token_of(parts[i]);
    assert(vi_bind::has_token(parts, token));
    lemma_last_key(parts);
}

proof fn lemma_last_key(parts: Seq<Seq<char>>)
    ensures
        (forall|k: int| 0 <= k < parts.len() ==> !(vi_bind::token_of(#[trigger] parts[k]) is Key))
            ==> vi_bind::last_key(parts) is None,
    decreases parts.len(),
{
    if parts.len() > 0 {
        lemma_last_key(parts.drop_last());
        if forall|k: int| 0 <= k < parts.len() ==> !(vi_bind::token_of(#[trigger] parts[k]) is Key) {
            assert(!(vi_bind::token_of(parts[parts.len() - 1]) is Key));
            assert forall|k: int| 0 <= k < parts.drop_last().len() implies !(vi_bind::token_of(
                #[trigger] parts.drop_last()[k],
            ) is Key) by {
                assert(parts.drop_last()[k] == parts[k]);
            }
        }
    }
}

/// A binding fires on its key in either case, with exactly its modifiers.
pub proof fn law_binding_fires(bind: ViKeyBind, c: char, s: String, mods: Modifiers)
    requires
        bind.key == KeyMatch::Char(c),
        'a' <= c <= 'z',
        s@.len() > 0,
    ensures
        bind.fires_on(Key::Character(s), mods) <==> mods.ctrl == bind.ctrl && mods.shift
            == bind.shift && mods.alt == bind.alt && (s@[0] == c || s@[0] as u32 == c as u32 - 32),
        !bind.fires_on(Key::Named(NamedKey::Enter), mods),
{
    let f = s@[0];
    assert('A' <= f <= 'Z' ==> text::ascii_lower(f) as u32 == f as u32 + 32);
}

/// The bytes of a mouse event at a cell, whose row and column count from one.
pub open spec fn reported(
    s: PointerState,
    button: MouseButton,
    action: MouseAction,
    cell: (usize, usize),
    mods: Modifiers,
) -> Seq<u8> {
    mouse::mouse_bytes(
        MouseEvent {
            button,
            action,
            col: (cell.1 + 1) as u16,
            row: (cell.0 + 1) as u16,
            shift: mods.shift,
            alt: mods.alt,
            ctrl: mods.ctrl,
        },
        s.term.mouse_encoding,
    )
}

/// Where an application asked for the mouse and Shift is not held, presses and
/// releases of the left and the middle button are sent to it, and nothing else
/// happens but that the button is known to be held.
pub proof fn law_buttons_are_reported(
    s: PointerState,
    pressed: bool,
    cell: (usize, usize),
    now: u64,
    mods: Modifiers,
)
    requires
        s.term.mouse_mode != MouseMode::Off,
        !mods.shift,
        cell.0 < 0xffff,
        cell.1 < 0xffff,
    ensures
        ({
            let action = if pressed {
                MouseAction::Press
            } else {
                MouseAction::Release
            };
            &&& s.left(pressed, cell, now, mods) == (PointerState {
                pointer: Pointer { left_held: pressed, ..s.pointer },
                sent: s.sent + reported(s, MouseButton::Left, action, cell, mods),
                ..s
            })
            &&& s.middle(pressed, cell, mods) == (PointerState {
                pointer: Pointer { middle_held: pressed, ..s.pointer },
                sent: s.sent + reported(s, MouseButton::Middle, action, cell, mods),
                ..s
            })
        }),
{
}

/// Motion is sent to an application that asked for all of it, or that asked for it
/// with a button held while one is, once for each cell, with the button that is
/// held.
pub proof fn law_motion_is_reported(
    s: PointerState,
    cell: (usize, usize),
    above: bool,
    below: bool,
    mods: Modifiers,
)
    requires
        s.term.mouse_mode != MouseMode::Off,
        !mods.shift,
        cell.0 < 0xffff,
        cell.1 < 0xffff,
    ensures
        ({
            let held = s.pointer.left_held || s.pointer.middle_held;
            let wanted = s.term.mouse_mode == MouseMode::AllMotion || (s.term.mouse_mode
                == MouseMode::ButtonAndMotion && held);
            let button = if s.pointer.left_held {
                MouseButton::Left
            } else if s.pointer.middle_held {
                MouseButton::Middle
            } else {
                MouseButton::NoButton
            };
            let news = s.pointer.last_reported != Some(cell);
            let after = s.moved(cell, above, below, mods);
            &&& wanted && news ==> after == (PointerState {
                pointer: Pointer { last_reported: Some(cell), ..s.pointer },
                sent: s.sent + reported(s, button, MouseAction::Motion, cell, mods),
                ..s
            })
            &&& !(wanted && news) ==> after == s
        }),
{
}

/// The mouse belongs to the terminal: no application asked for it, or Shift is held.
pub open spec fn own_mouse(s: PointerState, mods: Modifiers) -> bool {
    s.term.mouse_mode == MouseMode::Off || mods.shift
}

/// Fast presses on one cell, no more than 400 milliseconds apart, are a click, a
/// double click and a triple click in turn. Any other press is a click.
pub proof fn law_clicks_are_counted(last: Option<Click>, cell: (usize, usize), now: u64)
    requires
        last matches Some(c) ==> 1 <= c.count <= 3,
    ensures
        ({
            let n = pointer::click_count(last, cell, now);
            let again = last is Some && last->0.cell == cell && now - last->0.time <= 400_000_000;
            &&& again && last->0.count == 1 ==> n == 2
            &&& again && last->0.count == 2 ==> n == 3
            &&& again && last->0.count == 3 ==> n == 1
            &&& !again ==> n == 1
        }),
{
}

/// A click begins to select at its cell. A double click selects the word there and a
/// triple click the whole line, and copies it. With Shift a press moves the end of
/// the selection there is.
pub proof fn law_press_selects(s: PointerState, cell: (usize, usize), now: u64, mods: Modifiers)
    requires
        own_mouse(s, mods),
        s.term.wf(),
        screen_laws::in_use(s.term).cols > 0,
        s.pointer.last_click matches Some(c) ==> 1 <= c.count <= 3,
    ensures
        ({
            let n = pointer::click_count(s.pointer.last_click, cell, now);
            let after = s.left(true, cell, now, mods);
            let sel = after.selection->0;
            let extends = mods.shift && s.selection is Some;
            let word = selection::word_at(s.term, cell.0, cell.1);
            &&& after.term == s.term && after.sent == s.sent && after.paste == s.paste
            &&& after.redraw && after.selection is Some
            &&& extends ==> {
                &&& sel == (Selection { end: cell, dragging: true, ..s.selection->0 })
                &&& after.copied == s.copied && after.pointer == s.pointer
            }
            &&& !extends ==> {
                &&& sel.mode == SelectionMode::Char
                &&& after.pointer == (Pointer {
                    last_click: Some(Click { time: now, cell, count: n }),
                    ..s.pointer
                })
                &&& n == 1 ==> sel.anchor == cell && sel.end == cell && sel.dragging
                &&& n == 1 ==> after.copied == s.copied
                &&& n == 2 ==> sel.anchor == word.0 && sel.end == word.1 && !sel.dragging
                &&& n == 3 ==> sel.anchor == (cell.0, 0usize) && sel.end.0 == cell.0 && sel.end.1
                    == screen_laws::in_use(s.term).cols - 1 && !sel.dragging
                &&& n > 1 ==> after.copied == selection::selection_copy(s.term, sel)
            }
        }),
{
}

/// While the button is held, the end of the selection follows the mouse, and the
/// view scrolls by a row where the mouse is above or below the window: up into the
/// history or down towards the live screen.
pub proof fn law_drag_selects(
    s: PointerState,
    cell: (usize, usize),
    above: bool,
    below: bool,
    mods: Modifiers,
)
    requires
        own_mouse(s, mods),
        !(above && below),
    ensures
        ({
            let after = s.moved(cell, above, below, mods);
            let dragging = s.selection is Some && s.selection->0.dragging;
            let by: int = if above {
                1
            } else if below {
                -1
            } else {
                0
            };
            &&& !dragging ==> after == s
            &&& dragging ==> {
                &&& after.selection == Some(Selection { end: cell, ..s.selection->0 })
                &&& after.sent == s.sent && after.copied == s.copied && after.pointer == s.pointer
                &&& after.paste == s.paste
                &&& after.redraw <==> s.redraw || cell != s.selection->0.end
                &&& by == 0 ==> after.term == s.term
                &&& by != 0 ==> after.term == motion_laws::scrolled_to(
                    s.term,
                    s.term.viewport_offset + by,
                )
            }
        }),
{
}

/// When the button is let go, the drag ends and what is selected is copied; a click
/// without a drag copies nothing.
pub proof fn law_release_copies(s: PointerState, cell: (usize, usize), now: u64, mods: Modifiers)
    requires
        own_mouse(s, mods),
    ensures
        ({
            let after = s.left(false, cell, now, mods);
            let sel = s.selection->0;
            let still = Selection { dragging: false, ..sel };
            &&& s.selection is None ==> after == s
            &&& s.selection is Some ==> {
                &&& after == (PointerState {
                    selection: Some(still),
                    copied: after.copied,
                    ..s
                })
                &&& sel.anchor == sel.end ==> after.copied == s.copied
                &&& sel.anchor != sel.end ==> after.copied == selection::selection_copy(
                    s.term,
                    still,
                )
            }
        }),
{
}

/// The middle button pastes when it goes down.
pub proof fn law_middle_button_pastes(
    s: PointerState,
    pressed: bool,
    cell: (usize, usize),
    mods: Modifiers,
)
    requires
        own_mouse(s, mods),
    ensures
        s.middle(pressed, cell, mods) == (PointerState { paste: pressed, ..s }),
{
}

/// Turning the wheel up by so many lines scrolls back into the history by as many,
/// turning it down towards the live screen.
pub proof fn law_wheel_scrolls(s: PointerState, lines: int, cell: (usize, usize), mods: Modifiers)
    requires
        own_mouse(s, mods),
    ensures
        lines == 0 ==> s.wheel(lines, cell, mods) == s,
        lines != 0 ==> s.wheel(lines, cell, mods) == (PointerState {
            term: motion_laws::scrolled_to(s.term, s.term.viewport_offset + lines),
            redraw: true,
            ..s
        }),
{
}

/// An application that asked for the mouse gets one press of the wheel for each
/// line, up or down.
pub proof fn law_wheel_is_reported(s: PointerState, lines: int, cell: (usize, usize), mods: Modifiers)
    requires
        s.term.mouse_mode != MouseMode::Off,
        !mods.shift,
        cell.0 < 0xffff,
        cell.1 < 0xffff,
        lines != 0,
    ensures
        ({
            let after = s.wheel(lines, cell, mods);
            let up = reported(s, MouseButton::WheelUp, MouseAction::Press, cell, mods);
            let down = reported(s, MouseButton::WheelDown, MouseAction::Press, cell, mods);
            &&& after == (PointerState { sent: after.sent, ..s })
            &&& lines == 1 ==> after.sent == s.sent + up
            &&& lines == -1 ==> after.sent == s.sent + down
            &&& lines > 1 ==> after.sent == s.wheel(lines - 1, cell, mods).sent + up
            &&& lines < -1 ==> after.sent == s.wheel(lines + 1, cell, mods).sent + down
        }),
{
    reveal_with_fuel(pointer::repeated, 2);
    let up = reported(s, MouseButton::WheelUp, MouseAction::Press, cell, mods);
    let down = reported(s, MouseButton::WheelDown, MouseAction::Press, cell, mods);
    let n = if lines > 0 {
        lines
    } else {
        -lines
    };
    let one = if lines > 0 {
        up
    } else {
        down
    };
    assert(Seq::<u8>::empty() + one =~= one);
    assert(s.sent + (pointer::repeated(one, n - 1) + one) =~= s.sent + pointer::repeated(
        one,
        n - 1,
    ) + one);
}

/// The cell under the mouse is the one whose pixels it is over; outside the grid it
/// is the nearest one.
pub proof fn law_cell_under_the_mouse(
    pos: (i64, i64),
    size: (u32, u32),
    rows: int,
    cols: int,
)
    requires
        rows > 0,
        cols > 0,
        size.0 > 0,
        size.1 > 0,
    ensures
        ({
            let (row, col) = pointer::cell_at(pos, size, rows, cols);
            &&& 0 <= row < rows && 0 <= col < cols
            &&& pos.0 >= 0 && pos.0 < cols * size.0 ==> col * size.0 <= pos.0 < (col + 1) * size.0
            &&& pos.1 >= 0 && pos.1 < rows * size.1 ==> row * size.1 <= pos.1 < (row + 1) * size.1
            &&& pos.0 < 0 ==> col == 0
            &&& pos.1 < 0 ==> row == 0
            &&& pos.0 >= cols * size.0 ==> col == cols - 1
            &&& pos.1 >= rows * size.1 ==> row == rows - 1
        }),
{
    lemma_pixels(pos.0 as int, size.0 as int, cols);
    lemma_pixels(pos.1 as int, size.1 as int, rows);
}

proof fn lemma_pixels(p: int, size: int, n: int)
    requires
        size > 0,
        n > 0,
    ensures
        p >= 0 ==> {
            let q = p / size;
            &&& q >= 0
            &&& q * size <= p < (q + 1) * size
            &&& p < n * size ==> q < n
            &&& p >= n * size ==> q >= n
        },
{
    assert(p >= 0 ==> {
        let q = p / size;
        &&& q >= 0
        &&& q * size <= p < (q + 1) * size
        &&& p < n * size ==> q < n
        &&& p >= n * size ==> q >= n
    }) by (nonlinear_arith)
        requires
            size > 0,
            n > 0,
    ;
}

/// A grid is as large as fits into the window: one more row or column does not.
pub proof fn law_grid_fills_the_window(size: (u32, u32), w: u32, h: u32)
    requires
        size.0 > 0,
        size.1 > 0,
        pointer::countable(size, w, h),
    ensures
        ({
            let (rows, cols) = pointer::grid_dims(size, w, h);
            &&& rows >= 1 && cols >= 1
            &&& h < (rows + 1) * size.1
            &&& w < (cols + 1) * size.0
            &&& h >= size.1 ==> rows * size.1 <= h
            &&& w >= size.0 ==> cols * size.0 <= w
            &&& h < size.1 ==> rows == 1
            &&& w < size.0 ==> cols == 1
        }),
{
    pointer::law_grid_fits_the_window(size, w, h);
    lemma_pixels(h as int, size.1 as int, 1);
    lemma_pixels(w as int, size.0 as int, 1);
    vstd::arithmetic::div_mod::lemma_small_mod(pointer::fitting(w, size.0) as nat, 0x1_0000);
    vstd::arithmetic::div_mod::lemma_small_mod(pointer::fitting(h, size.1) as nat, 0x1_0000);
    assert(2 * size.1 > size.1 && 2 * size.0 > size.0);
}

} // verus!
