//! Fonts: styles, files and pictures.

use std::path::Path;

use soltty::font::{expected_bitmap_len, Content, FontStyle};
use soltty::font_files::variant_candidates;

#[test]
fn font_style_from_attrs() {
    assert_eq!(FontStyle::from_attrs(false, false), FontStyle::Regular);
    assert_eq!(FontStyle::from_attrs(true, false), FontStyle::Bold);
    assert_eq!(FontStyle::from_attrs(false, true), FontStyle::Italic);
    assert_eq!(FontStyle::from_attrs(true, true), FontStyle::BoldItalic);
}

#[test]
fn expected_bitmap_len_matches_bytes_per_pixel() {
    // The guard in `rasterize` rejects any `image.data` shorter than
    // this; the values must match the per-pixel strides the copy
    // loops use (1 / 3 / 4 bytes).
    assert_eq!(expected_bitmap_len(Content::Mask, 4, 5), 20);
    assert_eq!(expected_bitmap_len(Content::SubpixelMask, 4, 5), 60);
    assert_eq!(expected_bitmap_len(Content::Color, 4, 5), 80);
    // A short buffer (e.g. a 10×10 color glyph reporting only 100 of
    // the 400 bytes it implies) is detected as insufficient.
    let (w, h) = (10u32, 10u32);
    assert!(100 < expected_bitmap_len(Content::Color, w, h));
}

#[test]
fn variant_replaces_regular_suffix() {
    // Most distros lay out fonts as `Foo-Regular.ttf` / `Foo-Bold.ttf`;
    // the candidate set should include the name swap.
    let primary = "/usr/share/fonts/TTF/JetBrainsMono-Regular.ttf";
    let cands = variant_candidates(primary, FontStyle::Bold);
    assert!(
        cands.iter().any(|p| Path::new(p).ends_with("JetBrainsMono-Bold.ttf")),
        "expected JetBrainsMono-Bold.ttf among {cands:?}"
    );
}

#[test]
fn variant_appends_for_unsuffixed_stem() {
    // DejaVuSansMono.ttf has no `-Regular` so we just append.
    let primary = "/usr/share/fonts/TTF/DejaVuSansMono.ttf";
    let cands = variant_candidates(primary, FontStyle::Bold);
    assert!(cands.iter().any(|p| Path::new(p).ends_with("DejaVuSansMono-Bold.ttf")));
}

#[test]
fn variant_italic_accepts_oblique_alias() {
    // DejaVu uses `Oblique` rather than `Italic`; both should be in
    // the candidate set so the discovery succeeds.
    let primary = "/usr/share/fonts/TTF/DejaVuSansMono.ttf";
    let cands = variant_candidates(primary, FontStyle::Italic);
    let has_italic = cands
        .iter()
        .any(|p| Path::new(p).ends_with("DejaVuSansMono-Italic.ttf"));
    let has_oblique = cands
        .iter()
        .any(|p| Path::new(p).ends_with("DejaVuSansMono-Oblique.ttf"));
    assert!(has_italic && has_oblique, "candidates: {cands:?}");
}

#[test]
fn variant_bold_italic_accepts_both_aliases() {
    // Both `BoldItalic` and `BoldOblique` should be candidates so
    // we work across font families.
    let primary = "/x/foo.ttf";
    let cands = variant_candidates(primary, FontStyle::BoldItalic);
    assert!(cands.iter().any(|p| Path::new(p).ends_with("foo-BoldItalic.ttf")));
    assert!(cands.iter().any(|p| Path::new(p).ends_with("foo-BoldOblique.ttf")));
}

#[test]
fn regular_returns_no_variant_candidates() {
    // Regular is the *primary*, not a variant — there's no path
    // search for it.
    let primary = "/x/foo.ttf";
    assert!(variant_candidates(primary, FontStyle::Regular).is_empty());
}

