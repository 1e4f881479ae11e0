//! Mouse reporting: which events an application wants, and how they are
//! written to it.

use vstd::prelude::*;

use crate::text;

verus! {

/// What mouse events the application wants forwarded. `Off` means that the
/// terminal handles the mouse locally.
#[derive(Copy, Clone, Debug, PartialEq, Eq, Structural)]
pub enum MouseMode {
    Off,
    /// Mode 1000: press and release.
    ButtonEvent,
    /// Mode 1002: also motion while a button is held.
    ButtonAndMotion,
    /// Mode 1003: any motion.
    AllMotion,
}

impl Default for MouseMode {
    fn default() -> (m: Self)
        ensures
            m == MouseMode::Off,
    {
        MouseMode::Off
    }
}

/// Wire format for forwarded mouse events.
#[derive(Copy, Clone, Debug, PartialEq, Eq, Structural)]
pub enum MouseEncoding {
    /// `ESC [ M b+0x20 col+0x20 row+0x20`.
    Default,
    /// Mode 1006: `ESC [ < b ; col ; row M` for a press, `m` for a release.
    Sgr,
}

impl Default for MouseEncoding {
    fn default() -> (e: Self)
        ensures
            e == MouseEncoding::Default,
    {
        MouseEncoding::Default
    }
}

#[derive(Copy, Clone, Debug, PartialEq, Eq, Structural)]
pub enum MouseButton {
    Left,
    Middle,
    Right,
    WheelUp,
    WheelDown,
    /// Used for motion when no button is pressed.
    NoButton,
}

#[derive(Copy, Clone, Debug, PartialEq, Eq, Structural)]
pub enum MouseAction {
    Press,
    Release,
    /// A drag or any motion, depending on the mode.
    Motion,
}

/// One mouse action ready to encode.
#[derive(Copy, Clone, Debug, PartialEq, Eq, Structural)]
pub struct MouseEvent {
    pub button: MouseButton,
    pub action: MouseAction,
    /// Column, counted from one.
    pub col: u16,
    /// Row, counted from one.
    pub row: u16,
    pub shift: bool,
    pub alt: bool,
    pub ctrl: bool,
}

impl MouseEvent {
    /// The release of a real button; wheel steps have no release.
    pub open spec fn is_release(self) -> bool {
        self.action == MouseAction::Release && (self.button == MouseButton::Left || self.button
            == MouseButton::Middle || self.button == MouseButton::Right)
    }

    /// The code of the button alone.
    pub open spec fn button_code(self) -> int {
        match self.button {
            MouseButton::Left => 0,
            MouseButton::Middle => 1,
            MouseButton::Right => 2,
            MouseButton::NoButton => 3,
            MouseButton::WheelUp => 64,
            MouseButton::WheelDown => 65,
        }
    }

    /// The bits for modifiers and motion.
    pub open spec fn flag_bits(self) -> int {
        (if self.shift {
            4int
        } else {
            0
        }) + (if self.alt {
            8int
        } else {
            0
        }) + (if self.ctrl {
            16int
        } else {
            0
        }) + (if self.action == MouseAction::Motion {
            32int
        } else {
            0
        })
    }
}

/// A coordinate in the legacy wire format, which cannot go beyond one byte.
pub open spec fn wire_coord(n: u16) -> u8 {
    if n + 0x20 <= 0xff {
        (n + 0x20) as u8
    } else {
        0xff
    }
}

/// The bytes that report a mouse event. In the legacy format a release does
/// not say which button it was.
pub open spec fn mouse_bytes(event: MouseEvent, encoding: MouseEncoding) -> Seq<u8> {
    match encoding {
        MouseEncoding::Sgr => text::ascii("\x1b[<"@) + text::decimal(
            (event.button_code() + event.flag_bits()) as nat,
        ) + text::ascii(";"@) + text::decimal(event.col as nat) + text::ascii(";"@) + text::decimal(event.row as nat)
            + text::ascii(
            if event.is_release() {
                "m"@
            } else {
                "M"@
            },
        ),
        MouseEncoding::Default => {
            let code = if event.is_release() {
                3
            } else {
                event.button_code()
            };
            text::ascii("\x1b[M"@) + seq![
                (code + event.flag_bits() + 0x20) as u8,
                wire_coord(event.col),
                wire_coord(event.row),
            ]
        },
    }
}

/// Encodes a mouse event for the application.
pub fn encode_mouse(event: MouseEvent, encoding: MouseEncoding) -> (bytes: Vec<u8>)
    ensures
        bytes@ == mouse_bytes(event, encoding),
{
    let code: u8 = match event.button {
        MouseButton::Left => 0,
        MouseButton::Middle => 1,
        MouseButton::Right => 2,
        MouseButton::NoButton => 3,
        MouseButton::WheelUp => 64,
        MouseButton::WheelDown => 65,
    };
    let pressable: bool = code < 3;
    let released: bool = event.action == MouseAction::Release && pressable;
    let mut flags: u8 = 0;
    if event.action == MouseAction::Motion {
        flags = flags + 0x20;
    }
    if event.shift {
        flags = flags + 0x04;
    }
    if event.alt {
        flags = flags + 0x08;
    }
    if event.ctrl {
        flags = flags + 0x10;
    }
    let mut out: Vec<u8> = Vec::new();
    match encoding {
        MouseEncoding::Sgr => {
            text::push_ascii(&mut out, "\x1b[<");
            text::push_decimal(&mut out, (code + flags) as u64);
            text::push_ascii(&mut out, ";");
            text::push_decimal(&mut out, event.col as u64);
            text::push_ascii(&mut out, ";");
            text::push_decimal(&mut out, event.row as u64);
            text::push_ascii(
                &mut out,
                if released {
                    "m"
                } else {
                    "M"
                },
            );
            assert(out@ =~= mouse_bytes(event, encoding));
        },
        MouseEncoding::Default => {
            text::push_ascii(&mut out, "\x1b[M");
            out.push(
                (if released {
                    3
                } else {
                    code
                }) + flags + 0x20,
            );
            out.push(wire_byte(event.col));
            out.push(wire_byte(event.row));
            assert(out@ =~= mouse_bytes(event, encoding));
        },
    }
    out
}

fn wire_byte(n: u16) -> (b: u8)
    ensures
        b == wire_coord(n),
{
    if n <= 0xdf {
        (n + 0x20) as u8
    } else {
        0xff
    }
}

} // verus!
