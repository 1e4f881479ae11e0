//! The configuration file.

use soltty::config::parse;

#[test]
fn empty_input_yields_default_config() {
    let c = parse("").unwrap();
    assert!(c.theme.is_none() && c.font.is_none() && c.vi_keybind.is_none());
}

#[test]
fn flat_keys_work() {
    let src = "theme = \"Solarized Dark\"\nvi_mode = 'ctrl+n'\n";
    let c = parse(src).unwrap();
    assert_eq!(c.theme.as_deref(), Some("Solarized Dark"));
    assert_eq!(c.vi_keybind.as_deref(), Some("ctrl+n"));
}

#[test]
fn sectioned_keys_work() {
    let src = "[appearance]\ntheme = \"Dracula\"\nfont_size = 14.5\n\n[keybinds]\nvi_mode = \"alt+v\"\n";
    let c = parse(src).unwrap();
    assert_eq!(c.theme.as_deref(), Some("Dracula"));
    assert_eq!(c.font_size.as_deref().map(|s| s.parse::<f32>().unwrap()), Some(14.5));
    assert_eq!(c.vi_keybind.as_deref(), Some("alt+v"));
}

#[test]
fn comments_and_blank_lines_skipped() {
    let src = "# top-level comment\n\n[appearance]  # trailing\ntheme = \"X\"   # inline\n";
    let c = parse(src).unwrap();
    assert_eq!(c.theme.as_deref(), Some("X"));
}

#[test]
fn hash_inside_string_not_a_comment() {
    // Some font paths or keybinds could legitimately contain `#`.
    let src = "[appearance]\nfont = \"/x/foo#bar.ttf\"\n";
    let c = parse(src).unwrap();
    assert_eq!(
        c.font.as_deref(),
        Some("/x/foo#bar.ttf")
    );
}

#[test]
fn unknown_keys_are_silently_ignored() {
    // Forward-compat: user with a config from a future build can
    // downgrade without any change keeping the terminal from
    // starting.
    let src = "[xyz]\nsomething = 1\n[appearance]\ntheme = \"Dracula\"\n";
    let c = parse(src).unwrap();
    assert_eq!(c.theme.as_deref(), Some("Dracula"));
}

#[test]
fn missing_equals_returns_err() {
    // Structural problems abort the parse so the user can fix it.
    let src = "[x]\nbad line\n";
    let err = parse(src).unwrap_err();
    assert!(err.contains("line 2"));
}

#[test]
fn bad_number_returns_err() {
    let src = "font_size = oops\n";
    let err = parse(src).unwrap_err();
    assert!(err.contains("font_size"));
}

#[test]
fn frame_hz_parses() {
    let src = "[behavior]\nframe_hz = 240\n";
    let c = parse(src).unwrap();
    assert_eq!(c.frame_hz, Some(240));
}

#[test]
fn font_paths_parse_per_variant() {
    let src = "[appearance]\nfont = \"/a/Regular.ttf\"\nfont_bold = \"/a/Bold.ttf\"\nfont_italic = '/a/Italic.ttf'\nfont_bold_italic = '/a/BoldItalic.ttf'\n";
    let c = parse(src).unwrap();
    assert_eq!(c.font.as_deref(), Some("/a/Regular.ttf"));
    assert_eq!(c.font_bold.as_deref(), Some("/a/Bold.ttf"));
    assert_eq!(c.font_italic.as_deref(), Some("/a/Italic.ttf"));
    assert_eq!(c.font_bold_italic.as_deref(), Some("/a/BoldItalic.ttf"));
}
