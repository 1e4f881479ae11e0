//! Which font draws a character, and where fonts are looked for.

use vstd::prelude::*;

use crate::font;
use crate::font::{Bitmap, Content, FontSet, FontStyle};
use crate::font_files;
use crate::font_files::FoundFont;

verus! {

/// Text is drawn in the face that has both what is bold and what is italic about it,
/// and each face has a number of its own.
pub proof fn law_faces(a: FontStyle, b: FontStyle)
    ensures
        font::style_of(false, false) == FontStyle::Regular,
        font::style_of(true, false) == FontStyle::Bold,
        font::style_of(false, true) == FontStyle::Italic,
        font::style_of(true, true) == FontStyle::BoldItalic,
        a.number() < 4,
        a.number() == b.number() ==> a == b,
{
}

/// A character is drawn from the first font of the chain of its style that has it. If
/// none has, it is not drawn, except for the null character, whose placeholder is that
/// of the first font of all.
pub proof fn law_first_font_with_the_character(set: FontSet, style: FontStyle, ch: char)
    ensures
        ({
            let chain = set.chain(style);
            let has = |i: int| set.fonts@[chain[i] as int].glyph(ch) != 0;
            let none = forall|i: int| 0 <= i < chain.len() ==> !#[trigger] has(i);
            match set.source(ch, style) {
                Some(f) => {
                    ||| none && ch == '\0' && f == 0
                    ||| exists|i: int|
                        0 <= i < chain.len() && #[trigger] has(i) && f == chain[i] && forall|j: int|
                            0 <= j < i ==> !#[trigger] has(j)
                },
                None => none && ch != '\0',
            }
        }),
{
    let chain = set.chain(style);
    let has = |i: int| set.fonts@[chain[i] as int].glyph(ch) != 0;
    let glyphs = font::glyphs_along(set.fonts@, chain, ch);
    lemma_first_there(glyphs, 0);
    let i = font::first_there(glyphs, 0);
    assert forall|j: int| 0 <= j < i implies !#[trigger] has(j) by {
        assert(glyphs[j] == 0);
    }
    if i < glyphs.len() {
        assert(has(i));
    }
}

proof fn lemma_first_there(glyphs: Seq<u16>, i: int)
    requires
        0 <= i <= glyphs.len(),
    ensures
        ({
            let k = font::first_there(glyphs, i);
            &&& i <= k <= glyphs.len()
            &&& k < glyphs.len() ==> glyphs[k] != 0
            &&& forall|j: int| i <= j < k ==> #[trigger] glyphs[j] == 0
        }),
    decreases glyphs.len() - i,
{
    if i < glyphs.len() && glyphs[i] == 0 {
        lemma_first_there(glyphs, i + 1);
    }
}

/// A picture is stored row by row. A pixel is as bright as its byte, or as the mean of
/// its three bytes; of a colour, green counts most and blue least, and alpha takes away
/// in proportion.
pub proof fn law_brightness_of_pixels(p: Bitmap, row: int, col: int)
    requires
        0 <= row,
        0 <= col < p.w,
    ensures
        ({
            let at = row * p.w + col;
            let bright = font::pixel(p, row, col);
            &&& p.content == Content::Mask ==> bright == p.data@[at]
            &&& p.content == Content::SubpixelMask ==> {
                let sum = p.data@[3 * at] + p.data@[3 * at + 1] + p.data@[3 * at + 2];
                3 * bright <= sum < 3 * bright + 3
            }
            &&& p.content == Content::Color ==> {
                let (r, g, b) = (p.data@[4 * at], p.data@[4 * at + 1], p.data@[4 * at + 2]);
                let alpha = p.data@[4 * at + 3];
                exists|full: int|
                    {
                        &&& 1000 * full <= 299 * r + 587 * g + 114 * b < 1000 * full + 1000
                        &&& 255 * bright <= #[trigger] (full * alpha) < 255 * bright + 255
                    }
            }
        }),
{
    let at = row * p.w + col;
    assert(at * 1 == at && at * 3 == 3 * at && at * 4 == 4 * at);
    if p.content == Content::Color {
        let (r, g, b) = (p.data@[4 * at], p.data@[4 * at + 1], p.data@[4 * at + 2]);
        let alpha = p.data@[4 * at + 3];
        let full = (r * 299 + g * 587 + b * 114) / 1000;
        assert(0 <= full <= 255);
        assert(0 <= full * alpha <= 255 * 255) by (nonlinear_arith)
            requires
                0 <= full <= 255,
                0 <= alpha <= 255,
        ;
        assert(font::pixel(p, row, col) == full * alpha / 255);
    }
}

/// A text without slashes and dots at its end.
pub open spec fn plain(s: Seq<char>) -> bool {
    s.len() > 0 && forall|i: int| 0 <= i < s.len() ==> #[trigger] s[i] != '/' && s[i] != '.'
}

proof fn lemma_name_start(dir: Seq<char>, name: Seq<char>, n: int)
    requires
        0 <= n <= name.len(),
        forall|i: int| 0 <= i < name.len() ==> #[trigger] name[i] != '/',
    ensures
        font_files::name_start(dir.push('/') + name, dir.len() + 1 + n) == dir.len() + 1,
    decreases n,
{
    let path = dir.push('/') + name;
    if n > 0 {
        assert(path[dir.len() + n] == name[n - 1]);
        lemma_name_start(dir, name, n - 1);
    } else {
        assert(path[dir.len() as int] == '/');
    }
}

proof fn lemma_last_dot(stem: Seq<char>, extension: Seq<char>, n: int)
    requires
        0 <= n <= extension.len(),
        plain(extension),
    ensures
        font_files::last_dot(stem.push('.') + extension, stem.len() + 1 + n) == stem.len(),
    decreases n,
{
    let name = stem.push('.') + extension;
    if n > 0 {
        assert(name[stem.len() + n] == extension[n - 1]);
        lemma_last_dot(stem, extension, n - 1);
    } else {
        assert(name[stem.len() as int] == '.');
    }
}

/// A path of a file in a directory, as it is usually written.
pub open spec fn filed(dir: Seq<char>, stem: Seq<char>, extension: Seq<char>) -> Seq<char> {
    dir.push('/') + (stem.push('.') + extension)
}

proof fn lemma_parts(dir: Seq<char>, stem: Seq<char>, extension: Seq<char>)
    requires
        plain(dir.skip(dir.len() - 1)),
        dir.len() > 0,
        stem.len() > 0,
        forall|i: int| 0 <= i < stem.len() ==> #[trigger] stem[i] != '/',
        plain(extension),
    ensures
        ({
            let path = filed(dir, stem, extension);
            let name = stem.push('.') + extension;
            &&& font_files::file_name_of(path) == Some(name)
            &&& font_files::parent_of(path) == dir
            &&& font_files::stem_of(name) == stem
            &&& font_files::extension_of(name) == extension
        }),
{
    let path = filed(dir, stem, extension);
    let name = stem.push('.') + extension;
    assert(path[path.len() - 1] == extension[extension.len() - 1]);
    assert(font_files::trimmed_path(path) == path);
    assert forall|i: int| 0 <= i < name.len() implies #[trigger] name[i] != '/' by {
        if i < stem.len() {
            assert(name[i] == stem[i]);
        } else if i > stem.len() {
            assert(name[i] == extension[i - stem.len() - 1]);
        }
    }
    lemma_name_start(dir, name, name.len() as int);
    assert(path.len() == dir.len() + 1 + name.len());
    assert(path.skip((dir.len() + 1) as int) =~= name);
    assert(path.take((dir.len() + 1) as int) =~= dir.push('/'));
    assert(name.len() >= 3);
    let last = dir.skip(dir.len() - 1);
    assert(last[0] == dir[dir.len() - 1]);
    assert(dir.push('/').drop_last() =~= dir);
    assert(font_files::trimmed_path(dir) == dir);
    assert(font_files::trimmed_path(dir.push('/')) == dir);
    lemma_last_dot(stem, extension, extension.len() as int);
    assert(name.len() == stem.len() + 1 + extension.len());
    assert(name.take(stem.len() as int) =~= stem);
    assert(name.skip((stem.len() + 1) as int) =~= extension);
}

/// The bold face of a font is looked for next to it: under its name with `-Bold` in
/// place of `-Regular`, if it ends in that, and with `-Bold` after its name. For italic
/// faces `Italic` is tried before `Oblique`, and so with `Bold` before both.
pub proof fn law_faces_next_to_a_font(dir: Seq<char>, stem: Seq<char>, extension: Seq<char>)
    requires
        plain(dir.skip(dir.len() - 1)),
        dir.len() > 0,
        stem.len() > 0,
        forall|i: int| 0 <= i < stem.len() ==> #[trigger] stem[i] != '/',
        plain(extension),
    ensures
        ({
            let path = filed(dir, stem, extension);
            let with = |name: Seq<char>, word: Seq<char>| filed(dir, name.push('-') + word, extension);
            let regular = "-Regular"@;
            let family = stem.take(stem.len() - 8);
            let ends = stem.len() >= 8 && stem.skip(stem.len() - 8) == regular;
            let bold = font_files::variants(path, FontStyle::Bold);
            let italic = font_files::variants(path, FontStyle::Italic);
            let both = font_files::variants(path, FontStyle::BoldItalic);
            &&& font_files::variants(path, FontStyle::Regular).len() == 0
            &&& ends ==> {
                &&& bold == seq![with(family, "Bold"@), with(stem, "Bold"@)]
                &&& italic == seq![
                    with(family, "Italic"@),
                    with(stem, "Italic"@),
                    with(family, "Oblique"@),
                    with(stem, "Oblique"@),
                ]
                &&& both == seq![
                    with(family, "BoldItalic"@),
                    with(stem, "BoldItalic"@),
                    with(family, "BoldOblique"@),
                    with(stem, "BoldOblique"@),
                ]
            }
            &&& !ends ==> {
                &&& bold == seq![with(stem, "Bold"@)]
                &&& italic == seq![with(stem, "Italic"@), with(stem, "Oblique"@)]
                &&& both == seq![with(stem, "BoldItalic"@), with(stem, "BoldOblique"@)]
            }
        }),
{
    lemma_parts(dir, stem, extension);
    reveal_strlit("-Regular");
    assert("-Regular"@.len() == 8);
    let family = stem.take(stem.len() - 8);
    lemma_face(dir, family, "Bold"@, extension);
    lemma_face(dir, family, "Italic"@, extension);
    lemma_face(dir, family, "Oblique"@, extension);
    lemma_face(dir, family, "BoldItalic"@, extension);
    lemma_face(dir, family, "BoldOblique"@, extension);
    lemma_face(dir, stem, "Bold"@, extension);
    lemma_face(dir, stem, "Italic"@, extension);
    lemma_face(dir, stem, "Oblique"@, extension);
    lemma_face(dir, stem, "BoldItalic"@, extension);
    lemma_face(dir, stem, "BoldOblique"@, extension);
    reveal_with_fuel(font_files::files_for_words, 3);
}

proof fn lemma_face(dir: Seq<char>, family: Seq<char>, word: Seq<char>, extension: Seq<char>)
    requires
        dir.len() > 0,
        plain(dir.skip(dir.len() - 1)),
    ensures
        font_files::face_file(dir, family, word, extension) == filed(
            dir,
            family.push('-') + word,
            extension,
        ),
{
    assert(dir.skip(dir.len() - 1)[0] == dir.last());
    assert(family.push('-') + word.push('.') + extension =~= (family.push('-') + word).push('.')
        + extension);
}

/// Fonts to fall back to are taken in the order in which they were found, each file
/// once, under its first name; the first font is none of them, whatever it is called.
/// Files are the same if their paths without links are, or what there is instead.
pub proof fn law_each_font_once(found: Seq<FoundFont>, primary: Option<Seq<char>>, n: int)
    requires
        0 <= n < found.len(),
    ensures
        ({
            let same = |a: FoundFont, b: FoundFont|
                {
                    let x = if a.canonical is Some {
                        a.canonical->0@
                    } else {
                        a.path@
                    };
                    let y = if b.canonical is Some {
                        b.canonical->0@
                    } else {
                        b.path@
                    };
                    x == y
                };
            let again = exists|k: int| 0 <= k < n && same(#[trigger] found[k], found[n]);
            let first = match (found[n].canonical, primary) {
                (Some(c), Some(p)) => c@ == p,
                (None, None) => true,
                _ => false,
            };
            let before = font_files::distinct(found, primary, n);
            font_files::distinct(found, primary, n + 1) == (if again || first {
                before
            } else {
                before.push(found[n].path@)
            })
        }),
        font_files::distinct(found, primary, 0).len() == 0,
{
}

/// What the environment and the configuration name comes first.
pub proof fn law_named_files_come_first(given: Option<&str>)
    ensures
        given matches Some(s) ==> font_files::one_or_none(given) == seq![s@],
        given is None ==> font_files::one_or_none(given).len() == 0,
{
}

} // verus!
