//! A session: the terminal with its selection, vi mode and theme picker, and
//! the way of a key press through them.

use vstd::prelude::*;

use crate::keys;
use crate::keys::{Key, Modifiers, NamedKey, Zoom};
use crate::picker::{Picker, PickerModel};
use crate::pointer;
use crate::pointer::Pointer;
use crate::selection::Selection;
use crate::term::{Term, TermModel};
use crate::text;
use crate::theme::ThemeModel;
use crate::theme_lib;
use crate::theme_lib::ThemeLib;
use crate::vi::{ViMode, ViModel, VisualMode};
use crate::vi_bind::ViKeyBind;
use crate::vi_keys;

verus! {

/// How far the page keys move in the theme picker.
pub const PICKER_PAGE: usize = 8;

/// What the thread that reads from the application reports.
#[derive(Copy, Clone, Debug, PartialEq, Eq, Structural)]
pub enum UserEvent {
    /// There is output to take in.
    PtyData,
    /// The application is gone.
    PtyExited,
}

/// A key that went down.
#[derive(Debug)]
pub struct KeyPress {
    pub logical: Key,
    /// It is where the T key is on the keyboard.
    pub at_t: bool,
    /// It is where the V key is on the keyboard.
    pub at_v: bool,
    /// The text that the layout makes of it.
    pub typed: Option<String>,
    pub mods: Modifiers,
}

/// What to do about a key.
#[derive(Debug)]
pub enum KeyAction {
    Nothing,
    /// Draw anew, and put the text on the clipboard if there is one.
    Local(Option<String>),
    /// Draw in the colours of the theme at this place in the library.
    ShowTheme(usize),
    /// Read the clipboard and paste its text.
    Paste,
    Zoom(Zoom),
    /// Send bytes to the application and draw anew.
    Send(Vec<u8>),
}

/// What to do about a key, as a mathematical value.
#[verifier::ext_equal]
pub enum ActionModel {
    Nothing,
    Local(Seq<char>),
    ShowTheme(int),
    Paste,
    Zoom(Zoom),
    Send(Seq<u8>),
}

impl View for KeyAction {
    type V = ActionModel;

    open spec fn view(&self) -> ActionModel {
        match *self {
            KeyAction::Nothing => ActionModel::Nothing,
            KeyAction::Local(t) => ActionModel::Local(vi_keys::text_of(t)),
            KeyAction::ShowTheme(i) => ActionModel::ShowTheme(i as int),
            KeyAction::Paste => ActionModel::Paste,
            KeyAction::Zoom(z) => ActionModel::Zoom(z),
            KeyAction::Send(b) => ActionModel::Send(b@),
        }
    }
}

/// Everything about a terminal window that is not drawing or input and output.
pub struct Session {
    pub term: Term,
    pub vi: ViMode,
    pub vi_keybind: ViKeyBind,
    pub theme_lib: ThemeLib,
    pub active_theme_name: String,
    pub picker: Option<Picker>,
    pub selection: Option<Selection>,
    pub pointer: Pointer,
}

/// A session as a mathematical value.
#[verifier::ext_equal]
pub struct SessionModel {
    pub term: TermModel,
    pub vi: ViModel,
    pub vi_keybind: ViKeyBind,
    pub themes: Seq<ThemeModel>,
    pub active_theme: Seq<char>,
    pub picker: Option<PickerModel>,
    pub selection: Option<Selection>,
    pub pointer: Pointer,
}

impl View for Session {
    type V = SessionModel;

    open spec fn view(&self) -> SessionModel {
        SessionModel {
            term: self.term@,
            vi: self.vi@,
            vi_keybind: self.vi_keybind,
            themes: self.theme_lib@,
            active_theme: self.active_theme_name@,
            picker: match self.picker {
                Some(p) => Some(p@),
                None => None,
            },
            selection: self.selection,
            pointer: self.pointer,
        }
    }
}

/// Where the cursor of the terminal is in the view, if it can be seen.
pub open spec fn view_cursor(t: TermModel) -> Option<(usize, usize)> {
    let cursor = t.screen().cursor;
    if cursor.visible && cursor.row + t.viewport_offset < t.screen().rows {
        Some(((cursor.row + t.viewport_offset) as usize, cursor.col as usize))
    } else {
        None
    }
}

/// The bytes of a paste, between markers if the application asked for them.
pub open spec fn paste_bytes(pasted: Seq<char>, bracketed: bool) -> Seq<u8> {
    if bracketed {
        text::ascii("\x1b[200~"@) + vstd::utf8::encode_utf8(pasted) + text::ascii("\x1b[201~"@)
    } else {
        vstd::utf8::encode_utf8(pasted)
    }
}

/// A text that may be missing.
pub open spec fn typed_text(typed: Option<String>) -> Option<Seq<char>> {
    match typed {
        Some(t) => Some(t@),
        None => None,
    }
}

impl KeyPress {
    pub open spec fn ctrl_shift(self) -> bool {
        self.mods.ctrl && self.mods.shift
    }

    /// Ctrl+Shift+T.
    pub open spec fn opens_picker(self) -> bool {
        self.ctrl_shift() && keys::means_letter(
            self.at_t,
            self.logical,
            typed_text(self.typed),
            't',
            'T',
            '\u{14}',
        )
    }

    /// Ctrl+Shift+V.
    pub open spec fn pastes(self) -> bool {
        self.ctrl_shift() && keys::means_letter(
            self.at_v,
            self.logical,
            typed_text(self.typed),
            'v',
            'V',
            '\u{16}',
        )
    }
}

impl SessionModel {
    /// The parts are well formed, there are themes, and an open picker lists
    /// them.
    pub open spec fn wf(self) -> bool {
        &&& self.term.wf()
        &&& self.vi.wf()
        &&& self.themes.len() > 0
        &&& self.picker matches Some(p) ==> p.wf() && p.themes.len() == self.themes.len()
    }

    /// The picker when it opens: on the active theme.
    pub open spec fn opened(self) -> PickerModel {
        let place = theme_lib::named(self.themes, self.active_theme, 0);
        let at = if place < self.themes.len() {
            place
        } else {
            0
        };
        PickerModel {
            themes: Seq::new(self.themes.len(), |i: int| self.themes[i].name),
            cursor: at,
            scroll: 0,
            original: at,
        }
    }

    /// The colours of a theme, as the application can ask for them.
    pub open spec fn with_colors_of(self, theme: ThemeModel) -> SessionModel {
        SessionModel {
            term: TermModel {
                default_fg: theme.fg,
                default_bg: theme.bg,
                cursor_color: theme.cursor_bg,
                ..self.term
            },
            ..self
        }
    }

    /// The picker moved, with a preview of the theme it is on.
    pub open spec fn previewed(self, p: PickerModel) -> (SessionModel, ActionModel) {
        (
            SessionModel { picker: Some(p), ..self.with_colors_of(self.themes[p.cursor]) },
            ActionModel::ShowTheme(p.cursor),
        )
    }

    /// A key while the picker is open.
    pub open spec fn picker_key(self, key: Key) -> (SessionModel, ActionModel) {
        let p = self.picker->0;
        match key {
            Key::Named(NamedKey::ArrowUp) => self.previewed(p.up()),
            Key::Named(NamedKey::ArrowDown) => self.previewed(p.down()),
            Key::Named(NamedKey::PageUp) => self.previewed(p.to(p.cursor - PICKER_PAGE)),
            Key::Named(NamedKey::PageDown) => self.previewed(p.to(p.cursor + PICKER_PAGE)),
            Key::Named(NamedKey::Home) => self.previewed(p.to(0)),
            Key::Named(NamedKey::End) => self.previewed(p.to(p.themes.len() - 1)),
            Key::Named(NamedKey::Enter) => (
                SessionModel {
                    picker: None,
                    active_theme: self.themes[p.cursor].name,
                    ..self
                },
                ActionModel::Local(Seq::empty()),
            ),
            Key::Named(NamedKey::Escape) => (
                SessionModel {
                    picker: None,
                    active_theme: self.themes[p.original].name,
                    ..self.with_colors_of(self.themes[p.original])
                },
                ActionModel::ShowTheme(p.original),
            ),
            _ => (self, ActionModel::Local(Seq::empty())),
        }
    }

    /// Vi mode begun at the cursor of the terminal.
    pub open spec fn entered_vi(self) -> SessionModel {
        SessionModel {
            vi: ViModel {
                active: true,
                cursor: match view_cursor(self.term) {
                    Some(at) => at,
                    None => (0, 0),
                },
                visual: VisualMode::Off,
                visual_anchor: None,
                pending_count: None,
                pending_op: None,
                search: None,
            },
            selection: None,
            ..self
        }
    }

    /// A key in vi mode.
    pub open spec fn vi_key(self, key: Key, mods: Modifiers) -> (SessionModel, ActionModel) {
        let after = vi_keys::state_of(self.vi, self.term, self.selection, Seq::empty()).key(
            key,
            mods,
        );
        (
            SessionModel {
                vi: after.vi,
                term: after.term,
                selection: after.selection,
                ..self
            },
            ActionModel::Local(after.copied),
        )
    }

    /// The view back on the live screen, with nothing selected.
    pub open spec fn back_to_live(self) -> SessionModel {
        SessionModel {
            term: TermModel { viewport_offset: 0, ..self.term },
            selection: None,
            ..self
        }
    }

    /// A key press: the first of the theme picker, vi mode, paste, zoom and
    /// the application that it concerns gets it.
    pub open spec fn key(self, press: KeyPress) -> (SessionModel, ActionModel) {
        if press.opens_picker() {
            if self.picker is Some {
                (self, ActionModel::Nothing)
            } else {
                (
                    SessionModel { picker: Some(self.opened()), ..self },
                    ActionModel::Local(Seq::empty()),
                )
            }
        } else if self.picker is Some {
            self.picker_key(press.logical)
        } else if !self.vi.active && self.vi_keybind.fires_on(press.logical, press.mods) {
            (self.entered_vi(), ActionModel::Local(Seq::empty()))
        } else if self.vi.active {
            self.vi_key(press.logical, press.mods)
        } else if press.pastes() {
            (self, ActionModel::Paste)
        } else if keys::zoom_of(press.logical, press.mods) is Some {
            (self, ActionModel::Zoom(keys::zoom_of(press.logical, press.mods)->0))
        } else {
            match keys::key_bytes(
                press.logical,
                typed_text(press.typed),
                press.mods,
                self.term.application_cursor_keys,
            ) {
                Some(bytes) => (self.back_to_live(), ActionModel::Send(bytes)),
                None => (self, ActionModel::Nothing),
            }
        }
    }
}

impl Session {
    pub open spec fn wf(&self) -> bool {
        self@.wf() && self.term.wf()
    }

    /// A session of a given size in a given theme.
    pub fn new(
        rows: usize,
        cols: usize,
        theme_lib: ThemeLib,
        active_theme_name: String,
        vi_keybind: ViKeyBind,
    ) -> (s: Session)
        requires
            rows <= crate::grid::dim_limit(),
            cols <= crate::grid::dim_limit(),
            theme_lib@.len() > 0,
        ensures
            s.wf(),
            s.term.history() == Seq::<u8>::empty(),
            s@ == (SessionModel {
                term: TermModel::fresh(rows as int, cols as int),
                vi: ViModel {
                    active: false,
                    cursor: (0, 0),
                    visual: VisualMode::Off,
                    visual_anchor: None,
                    pending_count: None,
                    pending_op: None,
                    search: None,
                },
                vi_keybind,
                themes: theme_lib@,
                active_theme: active_theme_name@,
                picker: None,
                selection: None,
                pointer: Pointer {
                    left_held: false,
                    middle_held: false,
                    last_reported: None,
                    last_click: None,
                },
            }),
    {
        Session {
            term: Term::new(rows, cols),
            vi: ViMode::new(),
            vi_keybind,
            theme_lib,
            active_theme_name,
            picker: None,
            selection: None,
            pointer: Pointer::new(),
        }
    }

    /// Shows the application the colours of the theme at a place.
    pub fn use_theme(&mut self, idx: usize)
        requires
            old(self).wf(),
            idx < old(self)@.themes.len(),
        ensures
            final(self).wf(),
            final(self).term.history() == old(self).term.history(),
            final(self)@ == old(self)@.with_colors_of(old(self)@.themes[idx as int]),
    {
        let ghost s = self@;
        let theme = self.theme_lib.at(idx);
        let (fg, bg, cursor) = (theme.fg, theme.bg, theme.cursor_bg);
        self.term.set_theme_colors(fg, bg, cursor);
        assert(self@ =~= s.with_colors_of(s.themes[idx as int]));
    }

    /// A key while the picker is open.
    fn picker_key(&mut self, mut p: Picker, key: &Key) -> (action: KeyAction)
        requires
            old(self).wf(),
            old(self).picker is None,
            p@.wf(),
            p@.themes.len() == old(self)@.themes.len(),
        ensures
            final(self).wf(),
            final(self).term.history() == old(self).term.history(),
            (final(self)@, action@) == (SessionModel {
                picker: Some(p@),
                ..old(self)@
            }).picker_key(*key),
    {
        let ghost s = SessionModel { picker: Some(p@), ..self@ };
        match key {
            Key::Named(NamedKey::ArrowUp) => p.move_up(),
            Key::Named(NamedKey::ArrowDown) => p.move_down(),
            Key::Named(NamedKey::PageUp) => p.page_up(PICKER_PAGE),
            Key::Named(NamedKey::PageDown) => p.page_down(PICKER_PAGE),
            Key::Named(NamedKey::Home) => p.home(),
            Key::Named(NamedKey::End) => p.end(),
            Key::Named(NamedKey::Enter) => {
                self.active_theme_name = p.current(&self.theme_lib).name.as_str().to_owned();
                assert(self@ =~= s.picker_key(*key).0);
                return KeyAction::Local(None);
            },
            Key::Named(NamedKey::Escape) => {
                let idx: usize = p.original();
                self.active_theme_name = p.cancel(&self.theme_lib).name.as_str().to_owned();
                self.use_theme(idx);
                assert(self@ =~= s.picker_key(*key).0);
                return KeyAction::ShowTheme(idx);
            },
            _ => {
                self.picker = Some(p);
                assert(self@ =~= s.picker_key(*key).0);
                return KeyAction::Local(None);
            },
        }
        let idx: usize = p.cursor();
        self.use_theme(idx);
        self.picker = Some(p);
        assert(self@ =~= s.picker_key(*key).0);
        KeyAction::ShowTheme(idx)
    }

    /// Vi mode, begun at the cursor of the terminal.
    fn enter_vi(&mut self)
        requires
            old(self).wf(),
        ensures
            final(self).wf(),
            final(self).term.history() == old(self).term.history(),
            final(self)@ == old(self)@.entered_vi(),
    {
        let ghost s = self@;
        let start = match self.term.viewport_cursor() {
            Some(at) => at,
            None => (0, 0),
        };
        self.vi.enter(start);
        self.selection = None;
        assert(self@ =~= s.entered_vi());
    }

    /// Takes a key press and says what to do about it.
    pub fn key(&mut self, press: &KeyPress) -> (action: KeyAction)
        requires
            old(self).wf(),
            old(self)@.term.has_cells(),
        ensures
            final(self).wf(),
            final(self)@.term.has_cells(),
            final(self).term.history() == old(self).term.history(),
            (final(self)@, action@) == old(self)@.key(*press),
    {
        let ghost s = self@;
        let typed: Option<&str> = match &press.typed {
            Some(t) => Some(t.as_str()),
            None => None,
        };
        assert(keys::text_in(typed) == typed_text(press.typed));
        let ctrl_shift: bool = press.mods.ctrl && press.mods.shift;
        if ctrl_shift && keys::is_letter_key(
            press.at_t,
            &press.logical,
            typed,
            't',
            'T',
            '\u{14}',
        ) {
            if self.picker.is_some() {
                return KeyAction::Nothing;
            }
            let p = Picker::new(&self.theme_lib, self.active_theme_name.as_str());
            assert(p@ =~= s.opened());
            self.picker = Some(p);
            assert(self@ =~= (SessionModel { picker: Some(s.opened()), ..s }));
            return KeyAction::Local(None);
        }
        if let Some(p) = self.picker.take() {
            assert(self@ =~= (SessionModel { picker: None, ..s }));
            assert(s =~= (SessionModel { picker: Some(p@), ..self@ }));
            return self.picker_key(p, &press.logical);
        }
        assert(self@ =~= s);
        if !self.vi.active && self.vi_keybind.matches(&press.logical, press.mods) {
            self.enter_vi();
            return KeyAction::Local(None);
        }
        if self.vi.active {
            let copied = vi_keys::vi_key(
                &mut self.vi,
                &mut self.term,
                &mut self.selection,
                &press.logical,
                press.mods,
            );
            assert(self@ =~= s.vi_key(press.logical, press.mods).0);
            return KeyAction::Local(copied);
        }
        if ctrl_shift && keys::is_letter_key(
            press.at_v,
            &press.logical,
            typed,
            'v',
            'V',
            '\u{16}',
        ) {
            return KeyAction::Paste;
        }
        if let Some(zoom) = keys::font_zoom_target(&press.logical, press.mods) {
            return KeyAction::Zoom(zoom);
        }
        match keys::encode_key(
            &press.logical,
            typed,
            press.mods,
            self.term.application_cursor_keys(),
        ) {
            Some(bytes) => {
                self.back_to_live();
                KeyAction::Send(bytes)
            },
            None => KeyAction::Nothing,
        }
    }

    fn back_to_live(&mut self)
        requires
            old(self).wf(),
        ensures
            final(self).wf(),
            final(self).term.history() == old(self).term.history(),
            final(self)@ == old(self)@.back_to_live(),
    {
        let ghost s = self@;
        self.term.reset_view();
        self.selection = None;
        assert(self@ =~= s.back_to_live());
    }

    /// Takes the text of a clipboard and returns the bytes to send for it.
    /// An empty text changes nothing.
    pub fn paste(&mut self, pasted: &str) -> (bytes: Option<Vec<u8>>)
        requires
            old(self).wf(),
        ensures
            final(self).wf(),
            final(self).term.history() == old(self).term.history(),
            pasted@.len() == 0 ==> bytes is None && final(self)@ == old(self)@,
            pasted@.len() > 0 ==> {
                &&& final(self)@ == old(self)@.back_to_live()
                &&& bytes matches Some(b) && b@ == paste_bytes(
                    pasted@,
                    old(self)@.term.bracketed_paste,
                )
            },
    {
        if pasted.is_empty() {
            return None;
        }
        let bytes = write_paste(pasted, self.term.bracketed_paste());
        self.back_to_live();
        Some(bytes)
    }

    /// Takes output of the application and returns what it is owed in reply.
    pub fn output(&mut self, bytes: &[u8]) -> (reply: Vec<u8>)
        requires
            old(self).wf(),
            old(self)@.term.has_cells(),
        ensures
            final(self).wf(),
            final(self)@.term.has_cells(),
            ({
                let fed = old(self)@.term.feed(old(self).term.history(), bytes@);
                &&& reply@ == fed.reply
                &&& final(self)@ == (SessionModel {
                    term: TermModel { reply: Seq::empty(), ..fed },
                    ..old(self)@
                })
            }),
            final(self).term.history() == old(self).term.history() + bytes@,
    {
        let ghost s = self@;
        self.term.feed(bytes);
        let reply = self.term.take_reply();
        assert(self@ =~= (SessionModel { term: self.term@, ..s }));
        reply
    }

    /// Fits the terminal to a window and returns its rows and columns.
    pub fn resized(&mut self, cell_size: (u32, u32), w: u32, h: u32) -> (dims: (u16, u16))
        requires
            old(self).wf(),
        ensures
            final(self).wf(),
            final(self).term.history() == old(self).term.history(),
            dims.0 == pointer::grid_dims(cell_size, w, h).0,
            dims.1 == pointer::grid_dims(cell_size, w, h).1,
            pointer::countable(cell_size, w, h) ==> final(self)@.term.has_cells(),
            final(self)@ == (SessionModel {
                term: old(self)@.term.resize(dims.0 as int, dims.1 as int),
                ..old(self)@
            }),
    {
        let ghost s = self@;
        let (rows, cols) = pointer::grid_dims_for_window(cell_size, w, h);
        self.term.resize(rows as usize, cols as usize);
        assert(self@ =~= (SessionModel { term: self.term@, ..s }));
        (rows, cols)
    }
}

/// The bytes to send for a paste; see [`paste_bytes`].
pub fn write_paste(pasted: &str, bracketed: bool) -> (bytes: Vec<u8>)
    ensures
        bytes@ == paste_bytes(pasted@, bracketed),
{
    let mut out: Vec<u8> = Vec::new();
    if bracketed {
        text::push_ascii(&mut out, "\x1b[200~");
        text::push_bytes(&mut out, pasted.as_bytes());
        text::push_ascii(&mut out, "\x1b[201~");
    } else {
        text::push_bytes(&mut out, pasted.as_bytes());
    }
    assert(out@ =~= paste_bytes(pasted@, bracketed));
    out
}

/// While the picker or vi mode has the keyboard, no key reaches the
/// application.
pub proof fn law_modes_keep_the_keyboard(s: SessionModel, press: KeyPress)
    requires
        s.picker is Some || s.vi.active,
    ensures
        !(s.key(press).1 is Send),
        !(s.key(press).1 is Paste),
{
}

/// The session after several key presses.
pub open spec fn after_presses(s: SessionModel, presses: Seq<KeyPress>) -> SessionModel
    decreases presses.len(),
{
    if presses.len() == 0 {
        s
    } else {
        after_presses(s, presses.drop_last()).key(presses.last()).0
    }
}

/// A key press that leaves the picker open.
pub open spec fn looks_around(press: KeyPress) -> bool {
    press.opens_picker() || !(press.logical == Key::Named(NamedKey::Enter) || press.logical
        == Key::Named(NamedKey::Escape))
}

/// The picker is open since the session was `s`, on the theme at `at`, and
/// nothing but the colours has changed.
spec fn previewing(s: SessionModel, now: SessionModel, at: int) -> bool {
    &&& now.picker matches Some(p) && p.wf() && p.original == at && p.themes.len()
        == s.themes.len()
    &&& now == (SessionModel {
        picker: now.picker,
        term: TermModel {
            default_fg: now.term.default_fg,
            default_bg: now.term.default_bg,
            cursor_color: now.term.cursor_color,
            ..s.term
        },
        ..s
    })
}

proof fn lemma_presses_preview(
    s: SessionModel,
    opened: SessionModel,
    presses: Seq<KeyPress>,
    at: int,
)
    requires
        previewing(s, opened, at),
        s.themes.len() > 0,
        forall|i: int| 0 <= i < presses.len() ==> looks_around(#[trigger] presses[i]),
    ensures
        previewing(s, after_presses(opened, presses), at),
    decreases presses.len(),
{
    if presses.len() > 0 {
        let start = presses.drop_last();
        assert forall|i: int| 0 <= i < start.len() implies looks_around(#[trigger] start[i]) by {
            assert(start[i] == presses[i]);
        }
        lemma_presses_preview(s, opened, start, at);
        let press = presses.last();
        assert(looks_around(press));
        let before = after_presses(opened, start);
        let after = before.key(press).0;
        assert(after.picker is Some);
        assert(after =~= (SessionModel {
            picker: after.picker,
            term: TermModel {
                default_fg: after.term.default_fg,
                default_bg: after.term.default_bg,
                cursor_color: after.term.cursor_color,
                ..s.term
            },
            ..s
        }));
    }
}

/// Opening the picker, looking around for however long and giving up changes
/// nothing: the theme that was active before is active again, and its colours
/// are shown.
pub proof fn law_giving_up_the_picker_reverts(
    s: SessionModel,
    open: KeyPress,
    presses: Seq<KeyPress>,
    esc: KeyPress,
)
    requires
        s.wf(),
        s.picker is None,
        open.opens_picker(),
        0 <= theme_lib::named(s.themes, s.active_theme, 0) < s.themes.len(),
        forall|i: int| 0 <= i < presses.len() ==> looks_around(#[trigger] presses[i]),
        esc.logical == Key::Named(NamedKey::Escape),
        !esc.opens_picker(),
    ensures
        ({
            let at = theme_lib::named(s.themes, s.active_theme, 0);
            let back = after_presses(s.key(open).0, presses).key(esc);
            &&& back.0 == (SessionModel { active_theme: s.themes[at].name, ..s }).with_colors_of(
                s.themes[at],
            )
            &&& back.1 == ActionModel::ShowTheme(at)
        }),
{
    let at = theme_lib::named(s.themes, s.active_theme, 0);
    let opened = s.key(open).0;
    assert(opened =~= (SessionModel {
        picker: opened.picker,
        term: TermModel {
            default_fg: opened.term.default_fg,
            default_bg: opened.term.default_bg,
            cursor_color: opened.term.cursor_color,
            ..s.term
        },
        ..s
    }));
    lemma_presses_preview(s, opened, presses, at);
    let now = after_presses(opened, presses);
    let back = now.key(esc);
    assert(back.0 =~= (SessionModel { active_theme: s.themes[at].name, ..s }).with_colors_of(
        s.themes[at],
    ));
}

/// A key that reaches the application shows the live screen.
pub proof fn law_typing_shows_the_live_screen(s: SessionModel, press: KeyPress)
    requires
        s.key(press).1 is Send,
    ensures
        s.key(press).0.term.viewport_offset == 0,
        s.key(press).0.selection is None,
{
}

} // verus!
