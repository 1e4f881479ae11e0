//! What keys send.

use soltty::keys::{encode_key, Key, Modifiers, NamedKey};

fn mods(ctrl: bool, alt: bool, shift: bool) -> Modifiers {
    Modifiers { ctrl, alt, shift }
}

fn ch(c: &str) -> Key {
    Key::Character(c.to_string())
}

#[test]
fn ctrl_c_emits_etx() {
    let held = mods(true, false, false);
    assert_eq!(encode_key(&ch("c"), None, held, false), Some(vec![0x03]));
}

#[test]
fn ctrl_d_emits_eot() {
    let held = mods(true, false, false);
    assert_eq!(encode_key(&ch("d"), None, held, false), Some(vec![0x04]));
}

#[test]
fn ctrl_open_bracket_is_escape() {
    let held = mods(true, false, false);
    assert_eq!(encode_key(&ch("["), None, held, false), Some(vec![0x1b]));
}

#[test]
fn alt_b_prefixes_with_escape() {
    let held = mods(false, true, false);
    assert_eq!(
        encode_key(&ch("b"), Some("b"), held, false),
        Some(vec![0x1b, b'b'])
    );
}

#[test]
fn shift_tab_emits_back_tab() {
    let held = mods(false, false, true);
    assert_eq!(
        encode_key(&Key::Named(NamedKey::Tab), None, held, false),
        Some(b"\x1b[Z".to_vec())
    );
}

#[test]
fn shift_arrow_uses_modifier_param() {
    let held = mods(false, false, true);
    assert_eq!(
        encode_key(&Key::Named(NamedKey::ArrowUp), None, held, false),
        Some(b"\x1b[1;2A".to_vec())
    );
}

#[test]
fn ctrl_arrow_uses_modifier_param() {
    let held = mods(true, false, false);
    assert_eq!(
        encode_key(&Key::Named(NamedKey::ArrowRight), None, held, false),
        Some(b"\x1b[1;5C".to_vec())
    );
}

#[test]
fn plain_char_passthrough() {
    let held = mods(false, false, false);
    assert_eq!(
        encode_key(&ch("a"), Some("a"), held, false),
        Some(vec![b'a'])
    );
}

// ---------- DECCKM (application cursor keys) ----------

#[test]
fn decckm_off_emits_csi_arrows() {
    // Default mode: arrows are CSI A/B/C/D.
    let held = mods(false, false, false);
    assert_eq!(
        encode_key(&Key::Named(NamedKey::ArrowUp), None, held, false),
        Some(b"\x1b[A".to_vec())
    );
    assert_eq!(
        encode_key(&Key::Named(NamedKey::Home), None, held, false),
        Some(b"\x1b[H".to_vec())
    );
}

#[test]
fn decckm_on_swaps_unmodified_arrows_to_ss3() {
    // App-cursor mode: unmodified arrows + Home/End become SS3 form
    // (`ESC O <letter>`), which is what vim/tmux ask for.
    let held = mods(false, false, false);
    assert_eq!(
        encode_key(&Key::Named(NamedKey::ArrowUp), None, held, true),
        Some(b"\x1bOA".to_vec())
    );
    assert_eq!(
        encode_key(&Key::Named(NamedKey::ArrowDown), None, held, true),
        Some(b"\x1bOB".to_vec())
    );
    assert_eq!(
        encode_key(&Key::Named(NamedKey::ArrowRight), None, held, true),
        Some(b"\x1bOC".to_vec())
    );
    assert_eq!(
        encode_key(&Key::Named(NamedKey::ArrowLeft), None, held, true),
        Some(b"\x1bOD".to_vec())
    );
    assert_eq!(
        encode_key(&Key::Named(NamedKey::Home), None, held, true),
        Some(b"\x1bOH".to_vec())
    );
    assert_eq!(
        encode_key(&Key::Named(NamedKey::End), None, held, true),
        Some(b"\x1bOF".to_vec())
    );
}

#[test]
fn decckm_on_keeps_csi_form_with_modifiers() {
    // DECCKM only affects unmodified arrows. Shift/Ctrl/Alt+arrow
    // still uses the CSI 1;<m><letter> form so xterm modifier
    // encoding stays intact.
    let shift = mods(false, false, true);
    assert_eq!(
        encode_key(&Key::Named(NamedKey::ArrowUp), None, shift, true),
        Some(b"\x1b[1;2A".to_vec())
    );
    let ctrl = mods(true, false, false);
    assert_eq!(
        encode_key(&Key::Named(NamedKey::ArrowRight), None, ctrl, true),
        Some(b"\x1b[1;5C".to_vec())
    );
}

#[test]
fn decckm_does_not_affect_pageup_or_function_keys() {
    // PageUp/PageDown/Insert/Delete/Fn use the tilde form, which
    // DECCKM doesn't touch — only arrows + Home/End swap to SS3.
    let held = mods(false, false, false);
    assert_eq!(
        encode_key(&Key::Named(NamedKey::PageUp), None, held, true),
        Some(b"\x1b[5~".to_vec())
    );
    assert_eq!(
        encode_key(&Key::Named(NamedKey::F5), None, held, true),
        Some(b"\x1b[15~".to_vec())
    );
}
