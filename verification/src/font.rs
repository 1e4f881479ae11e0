//! Fonts: which face draws a character, and the pictures of glyphs.

use vstd::prelude::*;

use crate::charmap;

verus! {

/// Which face to use for a glyph.
#[derive(Copy, Clone, Debug, PartialEq, Eq, Structural)]
pub enum FontStyle {
    Regular,
    Bold,
    Italic,
    BoldItalic,
}

/// The style for bold and italic text.
pub open spec fn style_of(bold: bool, italic: bool) -> FontStyle {
    if bold && italic {
        FontStyle::BoldItalic
    } else if bold {
        FontStyle::Bold
    } else if italic {
        FontStyle::Italic
    } else {
        FontStyle::Regular
    }
}

impl FontStyle {
    /// The style for bold and italic text.
    pub fn from_attrs(bold: bool, italic: bool) -> (style: FontStyle)
        ensures
            style == style_of(bold, italic),
    {
        match (bold, italic) {
            (false, false) => FontStyle::Regular,
            (true, false) => FontStyle::Bold,
            (false, true) => FontStyle::Italic,
            (true, true) => FontStyle::BoldItalic,
        }
    }

    /// A number for each style.
    pub open spec fn number(self) -> u32 {
        match self {
            FontStyle::Regular => 0,
            FontStyle::Bold => 1,
            FontStyle::Italic => 2,
            FontStyle::BoldItalic => 3,
        }
    }

    /// A number for each style.
    pub fn to_number(self) -> (n: u32)
        ensures
            n == self.number(),
    {
        match self {
            FontStyle::Regular => 0,
            FontStyle::Bold => 1,
            FontStyle::Italic => 2,
            FontStyle::BoldItalic => 3,
        }
    }
}

/// Where the picture of a glyph lies in the atlas, and where in its cell it is
/// drawn.
#[derive(Copy, Clone, Debug, PartialEq, Eq, Structural)]
pub struct GlyphEntry {
    pub atlas_x: u16,
    pub atlas_y: u16,
    pub w: u16,
    pub h: u16,
    /// Pixels from the left edge of the cell.
    pub offset_x: i16,
    /// Pixels from the top edge of the cell.
    pub offset_y: i16,
}

/// The entry of a glyph without a picture.
pub open spec fn no_glyph() -> GlyphEntry {
    GlyphEntry { atlas_x: 0, atlas_y: 0, w: 0, h: 0, offset_x: 0, offset_y: 0 }
}

impl Default for GlyphEntry {
    fn default() -> (g: Self)
        ensures
            g == no_glyph(),
    {
        GlyphEntry { atlas_x: 0, atlas_y: 0, w: 0, h: 0, offset_x: 0, offset_y: 0 }
    }
}

/// A part of the atlas that changed and has to be uploaded.
#[derive(Copy, Clone, Debug, PartialEq, Eq, Structural)]
pub struct DirtyRect {
    pub x: u32,
    pub y: u32,
    pub w: u32,
    pub h: u32,
}

/// The size of a cell in pixels, and how far its baseline is from its top.
#[derive(Copy, Clone, Debug, PartialEq, Eq, Structural)]
pub struct CellMetrics {
    pub cell_w: u32,
    pub cell_h: u32,
    pub baseline: u32,
}

/// What the bytes of a picture are.
#[derive(Copy, Clone, Debug, PartialEq, Eq, Structural)]
pub enum Content {
    /// One byte of coverage for each pixel.
    Mask,
    /// Three bytes of coverage for each pixel.
    SubpixelMask,
    /// Red, green, blue and alpha for each pixel.
    Color,
}

/// The picture of a glyph.
#[derive(Debug)]
pub struct Bitmap {
    pub content: Content,
    pub w: u32,
    pub h: u32,
    /// Pixels from the origin to the left edge.
    pub left: i32,
    /// Pixels from the baseline up to the top edge.
    pub top: i32,
    pub data: Vec<u8>,
}

/// The number of bytes for each pixel.
pub open spec fn bytes_per_pixel(content: Content) -> int {
    match content {
        Content::Mask => 1,
        Content::SubpixelMask => 3,
        Content::Color => 4,
    }
}

/// The number of bytes of a picture of `w` by `h` pixels.
pub fn expected_bitmap_len(content: Content, w: u32, h: u32) -> (len: usize)
    requires
        w * h * bytes_per_pixel(content) <= usize::MAX,
    ensures
        len == w * h * bytes_per_pixel(content),
{
    let bpp: usize = match content {
        Content::Mask => 1,
        Content::SubpixelMask => 3,
        Content::Color => 4,
    };
    assert(0 <= w * h <= w * h * bpp) by (nonlinear_arith)
        requires
            bpp >= 1,
    ;
    if h == 0 || w == 0 {
        assert(w * h * bytes_per_pixel(content) == 0) by (nonlinear_arith)
            requires
                w == 0 || h == 0,
        ;
        return 0;
    }
    assert(w <= w * h && h <= w * h) by (nonlinear_arith)
        requires
            w >= 1,
            h >= 1,
    ;
    (w as usize) * (h as usize) * bpp
}

/// The brightness of a pixel of a picture.
pub open spec fn pixel(b: Bitmap, row: int, col: int) -> u8 {
    let i = (row * b.w + col) * bytes_per_pixel(b.content);
    match b.content {
        Content::Mask => b.data@[i],
        Content::SubpixelMask => ((b.data@[i] + b.data@[i + 1] + b.data@[i + 2]) / 3) as u8,
        Content::Color => luminance(b.data@[i], b.data@[i + 1], b.data@[i + 2], b.data@[i + 3]),
    }
}

/// A colour with alpha as one brightness.
pub open spec fn luminance(r: u8, g: u8, b: u8, a: u8) -> u8 {
    (((r * 299 + g * 587 + b * 114) / 1000) * a / 255) as u8
}

/// A font begins at an offset: there is one of the three tags of a font file.
pub open spec fn font_begins(data: Seq<u8>, offset: int) -> bool {
    charmap::word_at(data, offset) matches Some(tag) && (tag == 0x0001_0000 || tag == 0x4f54_544f || tag
        == 0x7472_7565)
}

/// The offset of the first font of a file, which can be a collection.
pub open spec fn first_font(data: Seq<u8>) -> Option<int> {
    if font_begins(data, 0) {
        Some(0)
    } else if charmap::word_at(data, 0) == Some(0x7474_6366int) && (charmap::word_at(data, 8) matches Some(n) && n > 0)
        && (charmap::word_at(data, 12) matches Some(offset) && font_begins(data, offset)) {
        charmap::word_at(data, 12)
    } else {
        None
    }
}

/// Calls `swash::FontRef::from_index` for the first font of a file, and
/// returns the offset at which it begins. The contract says that it goes by
/// the tag at the front of the file: a font file has its font at the front, a
/// collection gives the offset of its first font in a fixed place, and a font
/// is there if its tag is.
#[verifier::external_body]
pub(crate) fn font_offset(data: &[u8]) -> (offset: Option<u32>)
    ensures
        offset is Some <==> first_font(data@) is Some,
        offset matches Some(o) ==> o == first_font(data@)->0,
{
    swash::FontRef::from_index(data, 0).map(|font| font.offset)
}

/// The glyph of a character in the font at an offset; zero where the font has
/// none.
pub uninterp spec fn glyph_in(data: Seq<u8>, offset: u32, ch: char) -> u16;

/// Calls `swash::Charmap::map` for the font at an offset of a file. The
/// contract asks for a character map in which the character can be looked up
/// without overflow. It says that there is an answer if a font begins there, and
/// names the answer. What the character map of a font holds is not stated.
#[verifier::external_body]
pub(crate) fn map_char(data: &[u8], offset: u32, ch: char) -> (glyph: Option<u16>)
    requires
        charmap::charmap_ok(data@, offset as int, ch),
    ensures
        glyph is Some <==> font_begins(data@, offset as int),
        glyph matches Some(g) ==> g == glyph_in(data@, offset, ch),
{
    swash::FontRef::from_offset(data, offset).map(|font| font.charmap().map(ch))
}

/// A font file in memory.
pub struct LoadedFont {
    pub data: Vec<u8>,
    /// Where the font begins.
    pub offset: u32,
}

impl LoadedFont {
    /// A font begins at the offset.
    pub open spec fn wf(self) -> bool {
        font_begins(self.data@, self.offset as int)
    }

    /// The glyph of a character; zero where there is none, or where damage to
    /// the font is in the way.
    pub open spec fn glyph(self, ch: char) -> u16 {
        if charmap::charmap_ok(self.data@, self.offset as int, ch) {
            glyph_in(self.data@, self.offset, ch)
        } else {
            0
        }
    }

    /// The glyph of a character; see [`LoadedFont::glyph`].
    pub fn glyph_of(&self, ch: char) -> (glyph: u16)
        requires
            self.wf(),
        ensures
            glyph == self.glyph(ch),
    {
        if !charmap::charmap_sound(self.data.as_slice(), self.offset, ch) {
            return 0;
        }
        match map_char(self.data.as_slice(), self.offset, ch) {
            Some(glyph) => glyph,
            None => 0,
        }
    }
}

/// All loaded fonts, and for each style the order in which they are searched.
pub struct FontSet {
    pub fonts: Vec<LoadedFont>,
    pub regular: Vec<usize>,
    pub bold: Vec<usize>,
    pub italic: Vec<usize>,
    pub bold_italic: Vec<usize>,
}

/// All places in a list of fonts exist.
pub open spec fn chain_ok(chain: Seq<usize>, n: int) -> bool {
    forall|i: int| 0 <= i < chain.len() ==> (#[trigger] chain[i]) < n
}

/// The first glyph from `i` on that there is, or the number of glyphs.
pub open spec fn first_there(glyphs: Seq<u16>, i: int) -> int
    decreases glyphs.len() - i,
{
    if i >= glyphs.len() {
        glyphs.len() as int
    } else if glyphs[i] != 0 {
        i
    } else {
        first_there(glyphs, i + 1)
    }
}

/// The font of a chain that draws a character, whose glyph in each font of the
/// chain is given: the first that has one. The first font of all draws its
/// placeholder for the null character.
pub open spec fn chosen_font(chain: Seq<usize>, glyphs: Seq<u16>, ch: char) -> Option<usize> {
    let i = first_there(glyphs, 0);
    if i < glyphs.len() {
        Some(chain[i])
    } else if ch == '\0' {
        Some(0)
    } else {
        None
    }
}

/// The glyphs of a character in the fonts of a chain.
pub open spec fn glyphs_along(fonts: Seq<LoadedFont>, chain: Seq<usize>, ch: char) -> Seq<u16> {
    Seq::new(chain.len(), |i: int| fonts[chain[i] as int].glyph(ch))
}

/// The font of a chain that draws a character; see [`chosen_font`].
pub fn choose_font(chain: &[usize], glyphs: &[u16], ch: char) -> (font: Option<usize>)
    requires
        chain@.len() == glyphs@.len(),
    ensures
        font == chosen_font(chain@, glyphs@, ch),
{
    let mut i: usize = 0;
    while i < glyphs.len()
        invariant
            i <= glyphs@.len(),
            chain@.len() == glyphs@.len(),
            first_there(glyphs@, 0) == first_there(glyphs@, i as int),
        decreases glyphs@.len() - i,
    {
        if glyphs[i] != 0 {
            return Some(chain[i]);
        }
        i += 1;
    }
    if ch == '\0' {
        Some(0)
    } else {
        None
    }
}

impl FontSet {
    /// There is a first font, every font can be read, and the chains name
    /// loaded fonts.
    pub open spec fn wf(self) -> bool {
        &&& self.fonts@.len() > 0
        &&& forall|i: int| 0 <= i < self.fonts@.len() ==> (#[trigger] self.fonts@[i]).wf()
        &&& chain_ok(self.regular@, self.fonts@.len() as int)
        &&& chain_ok(self.bold@, self.fonts@.len() as int)
        &&& chain_ok(self.italic@, self.fonts@.len() as int)
        &&& chain_ok(self.bold_italic@, self.fonts@.len() as int)
    }

    /// The order in which fonts are searched for a style.
    pub open spec fn chain(self, style: FontStyle) -> Seq<usize> {
        match style {
            FontStyle::Regular => self.regular@,
            FontStyle::Bold => self.bold@,
            FontStyle::Italic => self.italic@,
            FontStyle::BoldItalic => self.bold_italic@,
        }
    }

    /// The font that draws a character in a style; see [`chosen_font`].
    pub open spec fn source(self, ch: char, style: FontStyle) -> Option<usize> {
        let chain = self.chain(style);
        chosen_font(chain, glyphs_along(self.fonts@, chain, ch), ch)
    }

    /// Only the first font, for regular text. There is no set for a file that
    /// holds no font.
    pub fn new(primary: Vec<u8>) -> (set: Option<FontSet>)
        ensures
            set is Some <==> first_font(primary@) is Some,
            set matches Some(s) ==> {
                &&& s.wf()
                &&& s.fonts@.len() == 1
                &&& s.fonts@[0].data@ == primary@
                &&& s.fonts@[0].offset == first_font(primary@)->0
                &&& s.regular@ == seq![0usize]
                &&& s.bold@.len() == 0
                &&& s.italic@.len() == 0
                &&& s.bold_italic@.len() == 0
            },
    {
        match font_offset(primary.as_slice()) {
            None => None,
            Some(offset) => {
                let mut fonts: Vec<LoadedFont> = Vec::new();
                fonts.push(LoadedFont { data: primary, offset });
                let mut regular: Vec<usize> = Vec::new();
                regular.push(0);
                Some(
                    FontSet {
                        fonts,
                        regular,
                        bold: Vec::new(),
                        italic: Vec::new(),
                        bold_italic: Vec::new(),
                    },
                )
            },
        }
    }

    /// Adds a font that every style falls back to. A file that holds no font
    /// changes nothing.
    pub fn add_fallback(&mut self, data: Vec<u8>) -> (added: bool)
        requires
            old(self).wf(),
        ensures
            final(self).wf(),
            added == (first_font(data@) is Some),
            !added ==> *final(self) == *old(self),
            added ==> {
                let n = old(self).fonts@.len() as usize;
                &&& final(self).fonts@.len() == n + 1
                &&& final(self).fonts@.take(n as int) == old(self).fonts@
                &&& final(self).fonts@[n as int].data@ == data@
                &&& final(self).fonts@[n as int].offset == first_font(data@)->0
                &&& forall|style: FontStyle| #[trigger]
                    final(self).chain(style) == old(self).chain(style).push(n)
            },
    {
        match font_offset(data.as_slice()) {
            None => false,
            Some(offset) => {
                let idx: usize = self.fonts.len();
                self.fonts.push(LoadedFont { data, offset });
                self.regular.push(idx);
                self.bold.push(idx);
                self.italic.push(idx);
                self.bold_italic.push(idx);
                assert(self.fonts@.take(idx as int) =~= old(self).fonts@);
                true
            },
        }
    }

    /// Adds a bold or italic face, which its style tries first. A file that
    /// holds no font changes nothing.
    pub fn add_variant(&mut self, style: FontStyle, data: Vec<u8>) -> (added: bool)
        requires
            old(self).wf(),
            style != FontStyle::Regular,
        ensures
            final(self).wf(),
            added == (first_font(data@) is Some),
            !added ==> *final(self) == *old(self),
            added ==> {
                let n = old(self).fonts@.len() as usize;
                &&& final(self).fonts@.len() == n + 1
                &&& final(self).fonts@.take(n as int) == old(self).fonts@
                &&& final(self).fonts@[n as int].data@ == data@
                &&& final(self).fonts@[n as int].offset == first_font(data@)->0
                &&& forall|other: FontStyle| #[trigger]
                    final(self).chain(other) == (if other == style {
                        seq![n] + old(self).chain(other)
                    } else {
                        old(self).chain(other)
                    })
            },
    {
        match font_offset(data.as_slice()) {
            None => false,
            Some(offset) => {
                let idx: usize = self.fonts.len();
                self.fonts.push(LoadedFont { data, offset });
                match style {
                    FontStyle::Bold => self.bold.insert(0, idx),
                    FontStyle::Italic => self.italic.insert(0, idx),
                    FontStyle::BoldItalic => self.bold_italic.insert(0, idx),
                    FontStyle::Regular => {},
                }
                proof {
                    assert(self.fonts@.take(idx as int) =~= old(self).fonts@);
                    assert forall|other: FontStyle| #[trigger]
                        self.chain(other) == (if other == style {
                            seq![idx] + old(self).chain(other)
                        } else {
                            old(self).chain(other)
                        }) by {
                        if other == style {
                            assert(self.chain(other) =~= seq![idx] + old(self).chain(other));
                        }
                    }
                    assert(chain_ok(self.chain(style), self.fonts@.len() as int)) by {
                        let c = self.chain(style);
                        assert(c == seq![idx] + old(self).chain(style));
                        assert forall|i: int| 0 <= i < c.len() implies (#[trigger] c[i])
                            < self.fonts@.len() by {
                            if i > 0 {
                                assert(c[i] == old(self).chain(style)[i - 1]);
                            }
                        }
                    }
                }
                true
            },
        }
    }

    /// The font that draws a character in a style, with the number of the
    /// glyph; see [`FontSet::source`].
    pub fn find_glyph(&self, ch: char, style: FontStyle) -> (found: Option<(usize, u16)>)
        requires
            self.wf(),
        ensures
            found is Some <==> self.source(ch, style) is Some,
            found matches Some((idx, glyph)) ==> {
                &&& idx == self.source(ch, style)->0
                &&& idx < self.fonts@.len()
                &&& glyph == self.fonts@[idx as int].glyph(ch)
            },
    {
        let chain = match style {
            FontStyle::Regular => &self.regular,
            FontStyle::Bold => &self.bold,
            FontStyle::Italic => &self.italic,
            FontStyle::BoldItalic => &self.bold_italic,
        };
        let mut glyphs: Vec<u16> = Vec::new();
        let mut i: usize = 0;
        while i < chain.len()
            invariant
                i <= chain@.len(),
                self.wf(),
                chain@ == self.chain(style),
                chain_ok(chain@, self.fonts@.len() as int),
                glyphs@ == glyphs_along(self.fonts@, chain@, ch).take(i as int),
            decreases chain@.len() - i,
        {
            let idx: usize = chain[i];
            let font = &self.fonts[idx];
            assert(self.fonts@[idx as int].wf());
            glyphs.push(font.glyph_of(ch));
            i += 1;
            assert(glyphs@ =~= glyphs_along(self.fonts@, chain@, ch).take(i as int));
        }
        assert(glyphs@ =~= glyphs_along(self.fonts@, chain@, ch));
        match choose_font(chain.as_slice(), glyphs.as_slice(), ch) {
            None => None,
            Some(idx) => {
                proof {
                    lemma_first_there(glyphs@, 0);
                }
                let font = &self.fonts[idx];
                assert(self.fonts@[idx as int].wf());
                Some((idx, font.glyph_of(ch)))
            },
        }
    }
}

/// A bold face comes before every fallback: where it has a character, it is
/// the one that draws it.
pub proof fn law_variant_comes_first(set: FontSet, style: FontStyle, ch: char)
    requires
        set.wf(),
        set.chain(style).len() > 0,
        set.fonts@[set.chain(style)[0] as int].glyph(ch) != 0,
    ensures
        set.source(ch, style) == Some(set.chain(style)[0]),
{
}

/// What draws a character has it, unless it is the null character.
pub proof fn law_source_has_the_character(set: FontSet, style: FontStyle, ch: char)
    requires
        set.source(ch, style) is Some,
        ch != '\0',
    ensures
        set.fonts@[set.source(ch, style)->0 as int].glyph(ch) != 0,
{
    lemma_first_there(glyphs_along(set.fonts@, set.chain(style), ch), 0);
}

proof fn lemma_first_there(glyphs: Seq<u16>, i: int)
    requires
        0 <= i,
    ensures
        ({
            let k = first_there(glyphs, i);
            0 <= k && (k < glyphs.len() ==> glyphs[k] != 0)
        }),
    decreases glyphs.len() - i,
{
    if i < glyphs.len() {
        lemma_first_there(glyphs, i + 1);
    }
}

} // verus!
