//! What reaches the application of key presses and of the mouse, byte for byte.

use vstd::prelude::*;

use crate::keys;
use crate::keys::{Key, Modifiers, NamedKey, Zoom};
use crate::mouse;
use crate::mouse::{MouseAction, MouseButton, MouseEncoding, MouseEvent};
use crate::text;

verus! {

/// What a named key sends.
pub open spec fn sent(key: NamedKey, mods: Modifiers, application: bool) -> Option<Seq<u8>> {
    keys::key_bytes(Key::Named(key), None, mods, application)
}

/// No modifier is held.
pub open spec fn plain(mods: Modifiers) -> bool {
    !mods.shift && !mods.alt && !mods.ctrl
}

/// The digit for the modifiers that are held: one, and one more for Shift, two
/// more for Alt, four more for Ctrl.
pub open spec fn held(mods: Modifiers) -> u8 {
    let shift: u8 = if mods.shift {
        1
    } else {
        0
    };
    let alt: u8 = if mods.alt {
        2
    } else {
        0
    };
    let ctrl: u8 = if mods.ctrl {
        4
    } else {
        0
    };
    (0x31 + shift + alt + ctrl) as u8
}

/// `ESC [ number ~`, with the modifiers after the number if any is held.
pub open spec fn numbered(number: Seq<u8>, mods: Modifiers) -> Seq<u8> {
    if plain(mods) {
        seq![0x1bu8, 0x5b] + number + seq![0x7eu8]
    } else {
        seq![0x1bu8, 0x5b] + number + seq![0x3bu8, held(mods), 0x7e]
    }
}

/// `ESC [ letter`, or `ESC O letter` for an application that asked for it; with
/// modifiers `ESC [ 1 ; modifiers letter` in any case.
pub open spec fn lettered(letter: u8, mods: Modifiers, application: bool) -> Seq<u8> {
    if !plain(mods) {
        seq![0x1bu8, 0x5b, 0x31, 0x3b, held(mods), letter]
    } else if application {
        seq![0x1bu8, 0x4f, letter]
    } else {
        seq![0x1bu8, 0x5b, letter]
    }
}

proof fn lemma_held(mods: Modifiers)
    ensures
        text::decimal(keys::modifier_param(mods.ctrl, mods.alt, mods.shift) as nat) == seq![
            held(mods),
        ],
        keys::modifier_param(mods.ctrl, mods.alt, mods.shift) == 1 <==> plain(mods),
{
}

proof fn lemma_lettered(letter: u8, mods: Modifiers, application: bool)
    ensures
        keys::cursor_key_bytes(
            letter,
            keys::modifier_param(mods.ctrl, mods.alt, mods.shift),
            application,
        ) == lettered(letter, mods, application),
{
    lemma_held(mods);
    reveal_strlit("\x1b[1;");
    assert(text::ascii("\x1b[1;"@) =~= seq![0x1bu8, 0x5b, 0x31, 0x3b]);
    assert(keys::cursor_key_bytes(
        letter,
        keys::modifier_param(mods.ctrl, mods.alt, mods.shift),
        application,
    ) =~= lettered(letter, mods, application));
}

proof fn lemma_numbered(n: u16, digits: Seq<u8>, mods: Modifiers)
    requires
        text::decimal(n as nat) == digits,
    ensures
        keys::tilde_key_bytes(
            n as int,
            keys::modifier_param(mods.ctrl, mods.alt, mods.shift),
        ) == numbered(digits, mods),
{
    lemma_held(mods);
    reveal_strlit("\x1b[");
    reveal_strlit(";");
    reveal_strlit("~");
    assert(text::ascii("\x1b["@) =~= seq![0x1bu8, 0x5b]);
    assert(text::ascii(";"@) =~= seq![0x3bu8]);
    assert(text::ascii("~"@) =~= seq![0x7eu8]);
    assert(keys::tilde_key_bytes(
        n as int,
        keys::modifier_param(mods.ctrl, mods.alt, mods.shift),
    ) =~= numbered(digits, mods));
}

proof fn lemma_two_digits(n: u16)
    requires
        10 <= n < 100,
    ensures
        text::decimal(n as nat) == seq![(0x30 + n / 10) as u8, (0x30 + n % 10) as u8],
{
    reveal_with_fuel(text::decimal, 2);
    assert(text::decimal(n as nat) =~= seq![(0x30 + n / 10) as u8, (0x30 + n % 10) as u8]);
}

/// The arrows send the letters A to D in the order up, down, right, left; Home
/// sends H and End F.
pub proof fn law_cursor_keys(mods: Modifiers, application: bool)
    ensures
        sent(NamedKey::ArrowUp, mods, application) == Some(lettered(0x41, mods, application)),
        sent(NamedKey::ArrowDown, mods, application) == Some(lettered(0x42, mods, application)),
        sent(NamedKey::ArrowRight, mods, application) == Some(lettered(0x43, mods, application)),
        sent(NamedKey::ArrowLeft, mods, application) == Some(lettered(0x44, mods, application)),
        sent(NamedKey::Home, mods, application) == Some(lettered(0x48, mods, application)),
        sent(NamedKey::End, mods, application) == Some(lettered(0x46, mods, application)),
{
    lemma_lettered(0x41, mods, application);
    lemma_lettered(0x42, mods, application);
    lemma_lettered(0x43, mods, application);
    lemma_lettered(0x44, mods, application);
    lemma_lettered(0x48, mods, application);
    lemma_lettered(0x46, mods, application);
}

/// Insert sends the number 2, Delete 3, Page Up 5 and Page Down 6.
pub proof fn law_editing_keys(mods: Modifiers, application: bool)
    ensures
        sent(NamedKey::Insert, mods, application) == Some(numbered(seq![0x32u8], mods)),
        sent(NamedKey::Delete, mods, application) == Some(numbered(seq![0x33u8], mods)),
        sent(NamedKey::PageUp, mods, application) == Some(numbered(seq![0x35u8], mods)),
        sent(NamedKey::PageDown, mods, application) == Some(numbered(seq![0x36u8], mods)),
{
    lemma_numbered(2, seq![0x32u8], mods);
    lemma_numbered(3, seq![0x33u8], mods);
    lemma_numbered(5, seq![0x35u8], mods);
    lemma_numbered(6, seq![0x36u8], mods);
}

/// The function keys send the numbers 11 to 15, 17 to 21, 23 and 24.
pub proof fn law_function_keys(mods: Modifiers, application: bool)
    ensures
        sent(NamedKey::F1, mods, application) == Some(numbered(seq![0x31u8, 0x31], mods)),
        sent(NamedKey::F2, mods, application) == Some(numbered(seq![0x31u8, 0x32], mods)),
        sent(NamedKey::F3, mods, application) == Some(numbered(seq![0x31u8, 0x33], mods)),
        sent(NamedKey::F4, mods, application) == Some(numbered(seq![0x31u8, 0x34], mods)),
        sent(NamedKey::F5, mods, application) == Some(numbered(seq![0x31u8, 0x35], mods)),
        sent(NamedKey::F6, mods, application) == Some(numbered(seq![0x31u8, 0x37], mods)),
        sent(NamedKey::F7, mods, application) == Some(numbered(seq![0x31u8, 0x38], mods)),
        sent(NamedKey::F8, mods, application) == Some(numbered(seq![0x31u8, 0x39], mods)),
        sent(NamedKey::F9, mods, application) == Some(numbered(seq![0x32u8, 0x30], mods)),
        sent(NamedKey::F10, mods, application) == Some(numbered(seq![0x32u8, 0x31], mods)),
        sent(NamedKey::F11, mods, application) == Some(numbered(seq![0x32u8, 0x33], mods)),
        sent(NamedKey::F12, mods, application) == Some(numbered(seq![0x32u8, 0x34], mods)),
{
    lemma_function_key(11, 0x31, 0x31, mods);
    lemma_function_key(12, 0x31, 0x32, mods);
    lemma_function_key(13, 0x31, 0x33, mods);
    lemma_function_key(14, 0x31, 0x34, mods);
    lemma_function_key(15, 0x31, 0x35, mods);
    lemma_function_key(17, 0x31, 0x37, mods);
    lemma_function_key(18, 0x31, 0x38, mods);
    lemma_function_key(19, 0x31, 0x39, mods);
    lemma_function_key(20, 0x32, 0x30, mods);
    lemma_function_key(21, 0x32, 0x31, mods);
    lemma_function_key(23, 0x32, 0x33, mods);
    lemma_function_key(24, 0x32, 0x34, mods);
}

proof fn lemma_function_key(n: u16, tens: u8, ones: u8, mods: Modifiers)
    requires
        10 <= n < 100,
        n == (tens - 0x30) * 10 + (ones - 0x30),
        0x30 <= tens <= 0x39,
        0x30 <= ones <= 0x39,
    ensures
        keys::tilde_key_bytes(
            n as int,
            keys::modifier_param(mods.ctrl, mods.alt, mods.shift),
        ) == numbered(seq![tens, ones], mods),
{
    lemma_two_digits(n);
    lemma_numbered(n, seq![tens, ones], mods);
}

/// Enter sends a carriage return, Backspace the byte for delete or, with Ctrl,
/// that for backspace, and Tab a tab; Alt puts an escape before each. Tab with
/// Shift is `ESC [ Z`. Escape sends itself.
pub proof fn law_other_named_keys(mods: Modifiers, application: bool)
    ensures
        sent(NamedKey::Enter, mods, application) == Some(
            if mods.alt {
                seq![0x1bu8, 0x0d]
            } else {
                seq![0x0du8]
            },
        ),
        !mods.ctrl && !mods.alt ==> sent(NamedKey::Backspace, mods, application) == Some(
            seq![0x7fu8],
        ),
        !mods.ctrl && mods.alt ==> sent(NamedKey::Backspace, mods, application) == Some(
            seq![0x1bu8, 0x7f],
        ),
        mods.ctrl && !mods.alt ==> sent(NamedKey::Backspace, mods, application) == Some(
            seq![0x08u8],
        ),
        mods.ctrl && mods.alt ==> sent(NamedKey::Backspace, mods, application) == Some(
            seq![0x1bu8, 0x08],
        ),
        mods.shift ==> sent(NamedKey::Tab, mods, application) == Some(seq![0x1bu8, 0x5b, 0x5a]),
        !mods.shift && mods.alt ==> sent(NamedKey::Tab, mods, application) == Some(
            seq![0x1bu8, 0x09],
        ),
        !mods.shift && !mods.alt ==> sent(NamedKey::Tab, mods, application) == Some(seq![0x09u8]),
        sent(NamedKey::Escape, mods, application) == Some(seq![0x1bu8]),
        sent(NamedKey::Other, mods, application) is None,
{
    reveal_strlit("\x1b[Z");
    assert(text::ascii("\x1b[Z"@) =~= seq![0x1bu8, 0x5b, 0x5a]);
}

/// What a named key sends does not depend on the text it types, unless it is the
/// space bar or a key without a name of its own.
pub proof fn law_named_keys_ignore_the_layout(
    key: NamedKey,
    typed: Option<Seq<char>>,
    mods: Modifiers,
    application: bool,
)
    requires
        key != NamedKey::Space,
        key != NamedKey::Other,
    ensures
        keys::key_bytes(Key::Named(key), typed, mods, application) == sent(key, mods, application),
{
}

/// Ctrl alone with a letter sends its place in the alphabet, in either case; with
/// the space bar, a space or `@` the zero byte; with the marks from `[` to `_`, with `/`
/// and with `?` what ASCII has for them.
pub proof fn law_control_characters(
    s: String,
    typed: Option<Seq<char>>,
    mods: Modifiers,
    application: bool,
)
    requires
        s@.len() > 0,
        mods.ctrl,
        !mods.alt,
    ensures
        ({
            let c = s@[0];
            let bytes = keys::key_bytes(Key::Character(s), typed, mods, application);
            &&& 'a' <= c <= 'z' ==> bytes == Some(seq![(c as u32 - 'a' as u32 + 1) as u8])
            &&& 'A' <= c <= 'Z' ==> bytes == Some(seq![(c as u32 - 'A' as u32 + 1) as u8])
            &&& c == ' ' || c == '@' ==> bytes == Some(seq![0x00u8])
            &&& c == '[' ==> bytes == Some(seq![0x1bu8])
            &&& c == '\\' ==> bytes == Some(seq![0x1cu8])
            &&& c == ']' ==> bytes == Some(seq![0x1du8])
            &&& c == '^' ==> bytes == Some(seq![0x1eu8])
            &&& c == '_' || c == '/' ==> bytes == Some(seq![0x1fu8])
            &&& c == '?' ==> bytes == Some(seq![0x7fu8])
            &&& keys::key_bytes(Key::Named(NamedKey::Space), typed, mods, application) == Some(
                seq![0x00u8],
            )
        }),
{
}

/// Text goes out as UTF-8, with an escape before it where Alt is held. A key that
/// types nothing sends nothing.
pub proof fn law_text_is_sent_as_it_is(
    key: Key,
    typed: Option<Seq<char>>,
    mods: Modifiers,
    application: bool,
)
    requires
        !mods.ctrl || mods.alt,
        key is Character || key is Unidentified || key == Key::Named(NamedKey::Space) || key
            == Key::Named(NamedKey::Other),
    ensures
        ({
            let bytes = keys::key_bytes(key, typed, mods, application);
            &&& typed is None ==> bytes is None
            &&& typed matches Some(t) ==> !mods.alt ==> bytes == Some(vstd::utf8::encode_utf8(t))
            &&& typed matches Some(t) ==> mods.alt ==> bytes == Some(
                seq![0x1bu8] + vstd::utf8::encode_utf8(t),
            )
        }),
{
}

/// Ctrl with `=` or `+` makes the font larger, with `-` smaller, and with `0` as
/// large as it was. Without Ctrl, with Alt, or on other keys nothing is asked for.
pub proof fn law_zoom_keys(s: String, key: Key, mods: Modifiers)
    ensures
        ({
            let asked = keys::zoom_of(Key::Character(s), mods);
            let zooms = mods.ctrl && !mods.alt;
            &&& zooms && s@ == seq!['='] ==> asked == Some(Zoom::In)
            &&& zooms && s@ == seq!['+'] ==> asked == Some(Zoom::In)
            &&& zooms && s@ == seq!['-'] ==> asked == Some(Zoom::Out)
            &&& zooms && s@ == seq!['0'] ==> asked == Some(Zoom::Reset)
            &&& s@ != seq!['='] && s@ != seq!['+'] && s@ != seq!['-'] && s@ != seq!['0']
                ==> asked is None
            &&& !zooms ==> asked is None
            &&& !(key is Character) ==> keys::zoom_of(key, mods) is None
        }),
{
    reveal_strlit("=");
    reveal_strlit("+");
    reveal_strlit("-");
    reveal_strlit("0");
    assert("="@ =~= seq!['=']);
    assert("+"@ =~= seq!['+']);
    assert("-"@ =~= seq!['-']);
    assert("0"@ =~= seq!['0']);
    assert(seq!['='][0] != seq!['-'][0] && seq!['='][0] != seq!['0'][0]);
    assert(seq!['+'][0] != seq!['-'][0] && seq!['+'][0] != seq!['0'][0]);
    assert(seq!['-'][0] != seq!['0'][0]);
}

/// A key press means a letter if its place on the keyboard, the character it
/// stands for in either case, or the one character it types says so, and in no
/// other way.
pub proof fn law_letter_keys(
    at_place: bool,
    s: String,
    t: char,
    lower: char,
    control: char,
)
    requires
        'a' <= lower <= 'z',
        s@.len() == 1,
    ensures
        ({
            let upper = ((lower as u32) - 0x20) as char;
            let other = Key::Unidentified;
            let by_key = keys::means_letter(at_place, Key::Character(s), None, lower, upper, control);
            let by_text = keys::means_letter(
                at_place,
                other,
                Some(seq![t]),
                lower,
                upper,
                control,
            );
            &&& by_key == (at_place || s@[0] == lower || s@[0] == upper)
            &&& by_text == (at_place || t == lower || t == upper || t == control)
            &&& keys::means_letter(at_place, other, None, lower, upper, control) == at_place
        }),
{
    let c = s@[0];
    assert(seq![t].len() == 1 && seq![t][0] == t);
}

/// The number of the button in a report: left 0, middle 1, right 2, none 3, the
/// wheel 64 up and 65 down; plus 4 for Shift, 8 for Alt, 16 for Ctrl and 32 for
/// motion.
pub open spec fn report_number(event: MouseEvent, button: int) -> int {
    let shift: int = if event.shift {
        4
    } else {
        0
    };
    let alt: int = if event.alt {
        8
    } else {
        0
    };
    let ctrl: int = if event.ctrl {
        16
    } else {
        0
    };
    let motion: int = if event.action == MouseAction::Motion {
        32
    } else {
        0
    };
    button + shift + alt + ctrl + motion
}

/// The number of a button alone.
pub open spec fn button_number(button: MouseButton) -> int {
    if button == MouseButton::Left {
        0
    } else if button == MouseButton::Middle {
        1
    } else if button == MouseButton::Right {
        2
    } else if button == MouseButton::NoButton {
        3
    } else if button == MouseButton::WheelUp {
        64
    } else {
        65
    }
}

/// The long form of a report is `ESC [ < number ; column ; row`, and `M`, or `m` where
/// a button was released. Wheel steps are never released.
pub proof fn law_long_mouse_reports(event: MouseEvent)
    ensures
        ({
            let button = button_number(event.button);
            let released = event.action == MouseAction::Release && button < 3;
            mouse::mouse_bytes(event, MouseEncoding::Sgr) == seq![0x1bu8, 0x5b, 0x3c]
                + text::decimal(report_number(event, button) as nat) + seq![0x3bu8]
                + text::decimal(event.col as nat) + seq![0x3bu8] + text::decimal(event.row as nat)
                + seq![
                if released {
                    0x6du8
                } else {
                    0x4du8
                },
            ]
        }),
{
    reveal_strlit("\x1b[<");
    reveal_strlit(";");
    reveal_strlit("m");
    reveal_strlit("M");
    assert(text::ascii("\x1b[<"@) =~= seq![0x1bu8, 0x5b, 0x3c]);
    assert(text::ascii(";"@) =~= seq![0x3bu8]);
    assert(text::ascii("m"@) =~= seq![0x6du8]);
    assert(text::ascii("M"@) =~= seq![0x4du8]);
}

/// The short form is `ESC [ M` and one byte each for the number, the column and the
/// row, all plus 32. A release has the number of no button. Columns and rows that
/// do not fit into a byte are the largest one.
pub proof fn law_short_mouse_reports(event: MouseEvent)
    ensures
        ({
            let button = button_number(event.button);
            let released = event.action == MouseAction::Release && button < 3;
            let number = report_number(
                event,
                if released {
                    3
                } else {
                    button
                },
            );
            let bytes = mouse::mouse_bytes(event, MouseEncoding::Default);
            &&& bytes.len() == 6
            &&& bytes[0] == 0x1b && bytes[1] == 0x5b && bytes[2] == 0x4d
            &&& bytes[3] == number + 32
            &&& event.col <= 223 ==> bytes[4] == event.col + 32
            &&& event.col > 223 ==> bytes[4] == 255
            &&& event.row <= 223 ==> bytes[5] == event.row + 32
            &&& event.row > 223 ==> bytes[5] == 255
        }),
{
    reveal_strlit("\x1b[M");
    assert(text::ascii("\x1b[M"@) =~= seq![0x1bu8, 0x5b, 0x4d]);
}

} // verus!
