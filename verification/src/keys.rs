//! Keys: what they send to the application.

use vstd::prelude::*;

use crate::text;

verus! {

/// Keys that do not stand for a character.
#[derive(Copy, Clone, Debug, PartialEq, Eq, Structural)]
pub enum NamedKey {
    Enter,
    Tab,
    Space,
    Backspace,
    Escape,
    ArrowUp,
    ArrowDown,
    ArrowLeft,
    ArrowRight,
    Home,
    End,
    PageUp,
    PageDown,
    Insert,
    Delete,
    F1,
    F2,
    F3,
    F4,
    F5,
    F6,
    F7,
    F8,
    F9,
    F10,
    F11,
    F12,
    /// Any other key.
    Other,
}

/// A key as the keyboard layout names it.
#[derive(Debug)]
pub enum Key {
    Character(String),
    Named(NamedKey),
    /// A key that the layout does not name.
    Unidentified,
}

/// The modifier keys that are held.
#[derive(Copy, Clone, Debug, PartialEq, Eq, Structural)]
pub struct Modifiers {
    pub ctrl: bool,
    pub alt: bool,
    pub shift: bool,
}

/// The first character of a text.
pub open spec fn first_char(s: Seq<char>) -> Option<char> {
    if s.len() > 0 {
        Some(s[0])
    } else {
        None
    }
}

/// The first character of a text.
pub fn first_char_of(s: &str) -> (c: Option<char>)
    ensures
        c == first_char(s@),
{
    if s.unicode_len() > 0 {
        Some(s.get_char(0))
    } else {
        None
    }
}

/// The control byte that Ctrl makes of a character.
pub open spec fn ctrl_code(c: char) -> Option<u8> {
    let lower = text::ascii_lower(c);
    if 'a' <= lower <= 'z' {
        Some(((lower as u32) - 0x60) as u8)
    } else if lower == ' ' || lower == '@' {
        Some(0x00)
    } else if lower == '[' {
        Some(0x1b)
    } else if lower == '\\' {
        Some(0x1c)
    } else if lower == ']' {
        Some(0x1d)
    } else if lower == '^' {
        Some(0x1e)
    } else if lower == '_' || lower == '/' {
        Some(0x1f)
    } else if lower == '?' {
        Some(0x7f)
    } else {
        None
    }
}

/// The control byte that Ctrl makes of a key.
pub open spec fn ctrl_byte_of(key: Key) -> Option<u8> {
    match key {
        Key::Character(s) => match first_char(s@) {
            Some(c) => ctrl_code(c),
            None => None,
        },
        Key::Named(NamedKey::Space) => Some(0x00),
        _ => None,
    }
}

/// The modifier parameter of xterm's key sequences.
pub open spec fn modifier_param(ctrl: bool, alt: bool, shift: bool) -> int {
    1 + (if shift {
        1int
    } else {
        0
    }) + (if alt {
        2int
    } else {
        0
    }) + (if ctrl {
        4int
    } else {
        0
    })
}

/// The sequence of a cursor key. Application mode changes its form, but only
/// without modifiers.
pub open spec fn cursor_key_bytes(letter: u8, m: int, app_cursor: bool) -> Seq<u8> {
    if m == 1 {
        seq![
            0x1bu8,
            if app_cursor {
                0x4f
            } else {
                0x5b
            },
            letter,
        ]
    } else {
        text::ascii("\x1b[1;"@) + text::decimal(m as nat) + seq![letter]
    }
}

/// The sequence of an editing or function key.
pub open spec fn tilde_key_bytes(n: int, m: int) -> Seq<u8> {
    if m == 1 {
        text::ascii("\x1b["@) + text::decimal(n as nat) + text::ascii("~"@)
    } else {
        text::ascii("\x1b["@) + text::decimal(n as nat) + text::ascii(";"@) + text::decimal(
            m as nat,
        ) + text::ascii("~"@)
    }
}

/// The letter of a key that application cursor mode affects.
pub open spec fn cursor_letter(key: NamedKey) -> Option<u8> {
    match key {
        NamedKey::ArrowUp => Some(0x41),
        NamedKey::ArrowDown => Some(0x42),
        NamedKey::ArrowRight => Some(0x43),
        NamedKey::ArrowLeft => Some(0x44),
        NamedKey::Home => Some(0x48),
        NamedKey::End => Some(0x46),
        _ => None,
    }
}

/// The number of a key that sends a numbered sequence.
pub open spec fn tilde_number(key: NamedKey) -> Option<u16> {
    match key {
        NamedKey::PageUp => Some(5),
        NamedKey::PageDown => Some(6),
        NamedKey::Insert => Some(2),
        NamedKey::Delete => Some(3),
        NamedKey::F1 => Some(11),
        NamedKey::F2 => Some(12),
        NamedKey::F3 => Some(13),
        NamedKey::F4 => Some(14),
        NamedKey::F5 => Some(15),
        NamedKey::F6 => Some(17),
        NamedKey::F7 => Some(18),
        NamedKey::F8 => Some(19),
        NamedKey::F9 => Some(20),
        NamedKey::F10 => Some(21),
        NamedKey::F11 => Some(23),
        NamedKey::F12 => Some(24),
        _ => None,
    }
}

/// The bytes of a named key, if it sends any.
pub open spec fn named_key_bytes(key: NamedKey, mods: Modifiers, app_cursor: bool) -> Option<
    Seq<u8>,
> {
    let m = modifier_param(mods.ctrl, mods.alt, mods.shift);
    match key {
        NamedKey::Enter => Some(
            if mods.alt {
                seq![0x1bu8, 0x0d]
            } else {
                seq![0x0du8]
            },
        ),
        NamedKey::Backspace => {
            let erase: u8 = if mods.ctrl {
                0x08
            } else {
                0x7f
            };
            Some(
                if mods.alt {
                    seq![0x1bu8, erase]
                } else {
                    seq![erase]
                },
            )
        },
        NamedKey::Tab => Some(
            if mods.shift {
                text::ascii("\x1b[Z"@)
            } else if mods.alt {
                seq![0x1bu8, 0x09]
            } else {
                seq![0x09u8]
            },
        ),
        NamedKey::Escape => Some(seq![0x1bu8]),
        _ => match cursor_letter(key) {
            Some(letter) => Some(cursor_key_bytes(letter, m, app_cursor)),
            None => match tilde_number(key) {
                Some(n) => Some(tilde_key_bytes(n as int, m)),
                None => None,
            },
        },
    }
}

/// The bytes that a key press sends, if any. Ctrl alone makes control bytes;
/// named keys have sequences of their own; Alt puts an escape before the
/// text; otherwise the text goes out as it is.
pub open spec fn key_bytes(
    key: Key,
    typed: Option<Seq<char>>,
    mods: Modifiers,
    app_cursor: bool,
) -> Option<Seq<u8>> {
    let control = if mods.ctrl && !mods.alt {
        ctrl_byte_of(key)
    } else {
        None
    };
    let named = match key {
        Key::Named(n) => named_key_bytes(n, mods, app_cursor),
        _ => None,
    };
    if control is Some {
        Some(seq![control->0])
    } else if named is Some {
        named
    } else {
        match typed {
            Some(t) => Some(
                if mods.alt {
                    seq![0x1bu8] + vstd::utf8::encode_utf8(t)
                } else {
                    vstd::utf8::encode_utf8(t)
                },
            ),
            None => None,
        }
    }
}

/// The contents of optional bytes.
pub open spec fn bytes_in(bytes: Option<Vec<u8>>) -> Option<Seq<u8>> {
    match bytes {
        Some(b) => Some(b@),
        None => None,
    }
}

/// The contents of an optional text.
pub open spec fn text_in(s: Option<&str>) -> Option<Seq<char>> {
    match s {
        Some(t) => Some(t@),
        None => None,
    }
}

/// The control byte that Ctrl makes of a key.
pub fn ctrl_byte(logical: &Key) -> (byte: Option<u8>)
    ensures
        byte == ctrl_byte_of(*logical),
{
    match logical {
        Key::Character(s) => match first_char_of(s.as_str()) {
            None => None,
            Some(c) => {
                let lower: char = text::to_ascii_lower(c);
                if 'a' <= lower && lower <= 'z' {
                    Some((lower as u8) - 0x60)
                } else if lower == ' ' || lower == '@' {
                    Some(0x00)
                } else if lower == '[' {
                    Some(0x1b)
                } else if lower == '\\' {
                    Some(0x1c)
                } else if lower == ']' {
                    Some(0x1d)
                } else if lower == '^' {
                    Some(0x1e)
                } else if lower == '_' || lower == '/' {
                    Some(0x1f)
                } else if lower == '?' {
                    Some(0x7f)
                } else {
                    None
                }
            },
        },
        Key::Named(named) => if *named == NamedKey::Space {
            Some(0x00)
        } else {
            None
        },
        Key::Unidentified => None,
    }
}

/// The modifier parameter of xterm's key sequences.
pub fn mod_param(ctrl: bool, alt: bool, shift: bool) -> (m: u8)
    ensures
        m == modifier_param(ctrl, alt, shift),
{
    let mut m: u8 = 1;
    if shift {
        m = m + 1;
    }
    if alt {
        m = m + 2;
    }
    if ctrl {
        m = m + 4;
    }
    m
}

/// The sequence of a cursor key.
pub fn csi_letter(letter: u8, m: u8, app_cursor: bool) -> (bytes: Vec<u8>)
    ensures
        bytes@ == cursor_key_bytes(letter, m as int, app_cursor),
{
    let mut bytes: Vec<u8> = Vec::new();
    if m == 1 {
        bytes.push(0x1b);
        bytes.push(
            if app_cursor {
                0x4f
            } else {
                0x5b
            },
        );
        bytes.push(letter);
    } else {
        text::push_ascii(&mut bytes, "\x1b[1;");
        text::push_decimal(&mut bytes, m as u64);
        bytes.push(letter);
    }
    assert(bytes@ =~= cursor_key_bytes(letter, m as int, app_cursor));
    bytes
}

/// The sequence of an editing or function key.
pub fn csi_tilde(n: u16, m: u8) -> (bytes: Vec<u8>)
    ensures
        bytes@ == tilde_key_bytes(n as int, m as int),
{
    let mut bytes: Vec<u8> = Vec::new();
    text::push_ascii(&mut bytes, "\x1b[");
    text::push_decimal(&mut bytes, n as u64);
    if m != 1 {
        text::push_ascii(&mut bytes, ";");
        text::push_decimal(&mut bytes, m as u64);
    }
    text::push_ascii(&mut bytes, "~");
    assert(bytes@ =~= tilde_key_bytes(n as int, m as int));
    bytes
}

/// `escape` and `byte`, the escape only where it is asked for.
fn with_escape(escape: bool, byte: u8) -> (bytes: Vec<u8>)
    ensures
        bytes@ == (if escape {
            seq![0x1bu8, byte]
        } else {
            seq![byte]
        }),
{
    let mut bytes: Vec<u8> = Vec::new();
    if escape {
        bytes.push(0x1b);
    }
    bytes.push(byte);
    assert(bytes@ =~= (if escape {
        seq![0x1bu8, byte]
    } else {
        seq![byte]
    }));
    bytes
}

/// The bytes of a named key, if it sends any.
pub fn named_key_seq(named: NamedKey, mods: Modifiers, app_cursor: bool) -> (bytes: Option<Vec<u8>>)
    ensures
        bytes_in(bytes) == named_key_bytes(named, mods, app_cursor),
{
    let m: u8 = mod_param(mods.ctrl, mods.alt, mods.shift);
    match named {
        NamedKey::Enter => Some(with_escape(mods.alt, 0x0d)),
        NamedKey::Backspace => {
            let erase: u8 = if mods.ctrl {
                0x08
            } else {
                0x7f
            };
            Some(with_escape(mods.alt, erase))
        },
        NamedKey::Tab => if mods.shift {
            Some(text::ascii_vec("\x1b[Z"))
        } else {
            Some(with_escape(mods.alt, 0x09))
        },
        NamedKey::Escape => Some(with_escape(false, 0x1b)),
        NamedKey::ArrowUp => Some(csi_letter(0x41, m, app_cursor)),
        NamedKey::ArrowDown => Some(csi_letter(0x42, m, app_cursor)),
        NamedKey::ArrowRight => Some(csi_letter(0x43, m, app_cursor)),
        NamedKey::ArrowLeft => Some(csi_letter(0x44, m, app_cursor)),
        NamedKey::Home => Some(csi_letter(0x48, m, app_cursor)),
        NamedKey::End => Some(csi_letter(0x46, m, app_cursor)),
        NamedKey::PageUp => Some(csi_tilde(5, m)),
        NamedKey::PageDown => Some(csi_tilde(6, m)),
        NamedKey::Insert => Some(csi_tilde(2, m)),
        NamedKey::Delete => Some(csi_tilde(3, m)),
        NamedKey::F1 => Some(csi_tilde(11, m)),
        NamedKey::F2 => Some(csi_tilde(12, m)),
        NamedKey::F3 => Some(csi_tilde(13, m)),
        NamedKey::F4 => Some(csi_tilde(14, m)),
        NamedKey::F5 => Some(csi_tilde(15, m)),
        NamedKey::F6 => Some(csi_tilde(17, m)),
        NamedKey::F7 => Some(csi_tilde(18, m)),
        NamedKey::F8 => Some(csi_tilde(19, m)),
        NamedKey::F9 => Some(csi_tilde(20, m)),
        NamedKey::F10 => Some(csi_tilde(21, m)),
        NamedKey::F11 => Some(csi_tilde(23, m)),
        NamedKey::F12 => Some(csi_tilde(24, m)),
        NamedKey::Space => None,
        NamedKey::Other => None,
    }
}

/// The bytes that a key press sends to the application, if any. `typed` is
/// the text that the layout makes of the key.
pub fn encode_key(logical: &Key, typed: Option<&str>, mods: Modifiers, app_cursor: bool) -> (bytes:
    Option<Vec<u8>>)
    ensures
        bytes_in(bytes) == key_bytes(*logical, text_in(typed), mods, app_cursor),
{
    if mods.ctrl && !mods.alt {
        if let Some(b) = ctrl_byte(logical) {
            return Some(with_escape(false, b));
        }
    }
    if let Key::Named(named) = logical {
        if let Some(seq) = named_key_seq(*named, mods, app_cursor) {
            return Some(seq);
        }
    }
    match typed {
        None => None,
        Some(t) => {
            let mut out: Vec<u8> = Vec::new();
            if mods.alt {
                out.push(0x1b);
            }
            text::push_bytes(&mut out, t.as_bytes());
            assert(out@ =~= (if mods.alt {
                seq![0x1bu8] + vstd::utf8::encode_utf8(t@)
            } else {
                vstd::utf8::encode_utf8(t@)
            }));
            Some(out)
        },
    }
}

/// Application cursor mode changes nothing but the unmodified arrows, Home
/// and End.
pub proof fn law_application_mode_is_narrow(key: Key, typed: Option<Seq<char>>, mods: Modifiers)
    requires
        mods.ctrl || mods.alt || mods.shift || !(key is Named) || cursor_letter(
            key->Named_0,
        ) is None,
    ensures
        key_bytes(key, typed, mods, true) == key_bytes(key, typed, mods, false),
{
}

/// How a font zoom key changes the font size.
#[derive(Copy, Clone, Debug, PartialEq, Eq, Structural)]
pub enum Zoom {
    In,
    Out,
    Reset,
}

/// The font zoom that a key asks for.
pub open spec fn zoom_of(key: Key, mods: Modifiers) -> Option<Zoom> {
    match key {
        Key::Character(s) => if !mods.ctrl || mods.alt {
            None
        } else if s@ == "="@ || s@ == "+"@ {
            Some(Zoom::In)
        } else if s@ == "-"@ {
            Some(Zoom::Out)
        } else if s@ == "0"@ {
            Some(Zoom::Reset)
        } else {
            None
        },
        _ => None,
    }
}

/// The font zoom that a key asks for: Ctrl with `=` or `+` is larger, with
/// `-` smaller, with `0` back to the default.
pub fn font_zoom_target(key: &Key, mods: Modifiers) -> (zoom: Option<Zoom>)
    ensures
        zoom == zoom_of(*key, mods),
{
    if !mods.ctrl || mods.alt {
        return None;
    }
    match key {
        Key::Character(s) => {
            if text::str_is(s.as_str(), "=") || text::str_is(s.as_str(), "+") {
                Some(Zoom::In)
            } else if text::str_is(s.as_str(), "-") {
                Some(Zoom::Out)
            } else if text::str_is(s.as_str(), "0") {
                Some(Zoom::Reset)
            } else {
                None
            }
        },
        _ => None,
    }
}

/// Whether a key press means a letter, whatever the layout: by its place on
/// the keyboard, by the character it stands for, or by the text it types,
/// which with Ctrl can be a control character.
pub open spec fn means_letter(
    at_place: bool,
    key: Key,
    typed: Option<Seq<char>>,
    lower: char,
    upper: char,
    control: char,
) -> bool {
    ||| at_place
    ||| (key matches Key::Character(s) && s@.len() == 1 && text::ascii_lower(s@[0]) == lower)
    ||| (typed matches Some(t) && t.len() == 1 && (t[0] == control || t[0] == lower || t[0]
        == upper))
}

/// Whether a key press means a letter; see [`means_letter`].
pub fn is_letter_key(
    at_place: bool,
    key: &Key,
    typed: Option<&str>,
    lower: char,
    upper: char,
    control: char,
) -> (means: bool)
    ensures
        means == means_letter(at_place, *key, text_in(typed), lower, upper, control),
{
    if at_place {
        return true;
    }
    if let Key::Character(s) = key {
        if s.as_str().unicode_len() == 1 && text::to_ascii_lower(s.as_str().get_char(0)) == lower {
            return true;
        }
    }
    match typed {
        Some(t) => {
            if t.unicode_len() == 1 {
                let c: char = t.get_char(0);
                c == control || c == lower || c == upper
            } else {
                false
            }
        },
        None => false,
    }
}

} // verus!
