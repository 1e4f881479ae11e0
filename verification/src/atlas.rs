//! The glyph atlas: one picture that holds the glyphs drawn so far, and the
//! table that says where each one is.

use std::collections::HashMap;

use vstd::prelude::*;

use crate::font;
use crate::font::{Bitmap, CellMetrics, Content, DirtyRect, FontStyle, GlyphEntry};

verus! {

/// Width and height of the atlas in pixels.
pub const ATLAS_SIDE: u32 = 1024;

/// Two rectangles have no pixel in common. A rectangle is given by the column
/// and row of its top left corner, and by those of its bottom right corner,
/// which is outside.
pub open spec fn apart(a: (int, int, int, int), b: (int, int, int, int)) -> bool {
    a.2 <= b.0 || b.2 <= a.0 || a.3 <= b.1 || b.3 <= a.1
}

/// A rectangle lies within an area of a given size.
pub open spec fn within(a: (int, int, int, int), w: int, h: int) -> bool {
    0 <= a.0 && 0 <= a.1 && a.2 <= w && a.3 <= h
}

/// Rectangles lie in the atlas, and no two of them meet.
pub open spec fn well_placed(areas: Seq<(int, int, int, int)>) -> bool {
    &&& forall|i: int|
        0 <= i < areas.len() ==> within(
            #[trigger] areas[i],
            ATLAS_SIDE as int,
            ATLAS_SIDE as int,
        )
    &&& forall|i: int, j: int|
        0 <= i < j < areas.len() ==> apart(#[trigger] areas[i], #[trigger] areas[j])
}

#[verifier::external_type_specification]
#[verifier::external_body]
pub struct ExAtlasAllocator(etagere::AtlasAllocator);

/// The rectangles that an allocator has given out.
pub uninterp spec fn taken(a: etagere::AtlasAllocator) -> Seq<(int, int, int, int)>;

/// The size that an allocator was made with.
pub uninterp spec fn extent(a: etagere::AtlasAllocator) -> (int, int);

/// The sizes that an allocator was asked for, with and without success.
pub uninterp spec fn asked(a: etagere::AtlasAllocator) -> Seq<(int, int)>;

/// The corner that `etagere::AtlasAllocator::allocate` gives to a rectangle of
/// a size in an area, after it was asked for others.
pub uninterp spec fn corner_for(
    area: (int, int),
    asked_before: Seq<(int, int)>,
    size: (int, int),
) -> Option<(i32, i32)>;

/// Calls `etagere::AtlasAllocator::new`. The contract says that nothing was
/// asked for and nothing is taken yet of an area of the given size.
#[verifier::external_body]
pub(crate) fn new_allocator(w: i32, h: i32) -> (a: etagere::AtlasAllocator)
    requires
        0 < w <= 0x7000,
        0 < h <= 0x7000,
    ensures
        extent(a) == (w as int, h as int),
        taken(a).len() == 0,
        asked(a).len() == 0,
{
    etagere::AtlasAllocator::new(etagere::size2(w, h))
}

/// Where a rectangle of `w` by `h` came to lie: within the area, apart from
/// all rectangles before it, and at least as large as was asked for.
pub open spec fn is_place(
    a: etagere::AtlasAllocator,
    w: int,
    h: int,
    x: int,
    y: int,
    area: (int, int, int, int),
) -> bool {
    &&& (area.0, area.1) == (x, y)
    &&& x + w <= area.2
    &&& y + h <= area.3
    &&& within(area, extent(a).0, extent(a).1)
    &&& forall|i: int| 0 <= i < taken(a).len() ==> apart(#[trigger] taken(a)[i], area)
}

/// Calls `etagere::AtlasAllocator::allocate` and returns the top left corner
/// of the rectangle it gave. The contract says that the corner depends on the
/// area, on what was asked for before, and on the size, and on nothing else. A
/// rectangle lies within the area, is as large as was asked for or larger, and
/// meets none given out before; without one, nothing is taken. The first one
/// that fits into the area is given, in its corner, and none that does not fit.
///
/// The allocator numbers its rectangles and what is left between them with
/// sixteen bits. It puts them on shelves at least eight pixels high, and leaves
/// no rest of a shelf that is not wider than eight pixels. So on an area within
/// 1024 by 1024 there are at most 128 shelves, each with at most 508 rectangles
/// two pixels wide or more, and the numbers do not run out.
#[verifier::external_body]
pub(crate) fn allocate(a: &mut etagere::AtlasAllocator, w: i32, h: i32) -> (corner: Option<(i32, i32)>)
    requires
        2 <= w,
        0 < h,
        extent(*old(a)).0 <= 1024,
        extent(*old(a)).1 <= 1024,
    ensures
        extent(*final(a)) == extent(*old(a)),
        asked(*final(a)) == asked(*old(a)).push((w as int, h as int)),
        corner == corner_for(extent(*old(a)), asked(*old(a)), (w as int, h as int)),
        w > extent(*old(a)).0 || h > extent(*old(a)).1 ==> corner is None,
        taken(*old(a)).len() == 0 && w <= extent(*old(a)).0 && h <= extent(*old(a)).1
            ==> corner == Some((0i32, 0i32)),
        corner is None ==> taken(*final(a)) == taken(*old(a)),
        corner matches Some((x, y)) ==> taken(*final(a)).len() == taken(*old(a)).len() + 1
            && taken(*final(a)).drop_last() == taken(*old(a)) && is_place(
            *old(a),
            w as int,
            h as int,
            x as int,
            y as int,
            taken(*final(a)).last(),
        ),
{
    a.allocate(etagere::size2(w, h)).map(|given| (given.rectangle.min.x, given.rectangle.min.y))
}

/// Entries keep their rectangles, also when another one is given out.
proof fn lemma_entries_stay(before: FontAtlas, atlas: FontAtlas)
    requires
        before.entries_ok(),
        atlas.areas() == before.areas() || (atlas.areas().len() == before.areas().len() + 1
            && atlas.areas().drop_last() == before.areas()),
        forall|c: char, s: FontStyle| #[trigger] atlas.entry(c, s) == before.entry(c, s),
    ensures
        atlas.entries_ok(),
{
    assert forall|c: char, s: FontStyle| atlas.entry_ok(#[trigger] atlas.entry(c, s)) by {
        let e = atlas.entry(c, s)->0;
        assert(before.entry_ok(before.entry(c, s)));
        if atlas.entry(c, s) is Some && e.w != 0 {
            let k = choose|k: int|
                0 <= k < before.areas().len() && holds_picture(#[trigger] before.areas()[k], e);
            assert(atlas.areas() == before.areas() || atlas.areas()[k]
                == atlas.areas().drop_last()[k]);
            assert(holds_picture(atlas.areas()[k], e));
        }
    }
}

proof fn lemma_one_more(a: etagere::AtlasAllocator, all: Seq<(int, int, int, int)>)
    requires
        extent(a) == (ATLAS_SIDE as int, ATLAS_SIDE as int),
        well_placed(taken(a)),
        all.len() == taken(a).len() + 1,
        all.drop_last() == taken(a),
        within(all.last(), ATLAS_SIDE as int, ATLAS_SIDE as int),
        forall|i: int| 0 <= i < taken(a).len() ==> apart(#[trigger] taken(a)[i], all.last()),
    ensures
        well_placed(all),
{
    let n = all.len() - 1;
    assert forall|i: int| 0 <= i < all.len() implies within(
        #[trigger] all[i],
        ATLAS_SIDE as int,
        ATLAS_SIDE as int,
    ) by {
        if i < n {
            assert(all[i] == taken(a)[i]);
        }
    }
    assert forall|i: int, j: int| 0 <= i < j < all.len() implies apart(
        #[trigger] all[i],
        #[trigger] all[j],
    ) by {
        assert(all[i] == taken(a)[i]);
        if j < n {
            assert(all[j] == taken(a)[j]);
        }
    }
}

/// A rectangle holds the picture of an entry in its corner.
pub open spec fn holds_picture(area: (int, int, int, int), e: GlyphEntry) -> bool {
    &&& (area.0, area.1) == (e.atlas_x as int, e.atlas_y as int)
    &&& e.atlas_x + e.w < area.2
    &&& e.atlas_y + e.h < area.3
}

/// The fonts' glyphs that were drawn so far.
pub struct FontAtlas {
    pub metrics: CellMetrics,
    pub atlas_w: u32,
    pub atlas_h: u32,
    /// The brightness of each pixel, row by row.
    pub atlas_data: Vec<u8>,
    /// What changed since the last upload.
    pub dirty_rects: Vec<DirtyRect>,
    /// The glyphs of ASCII, four for each character.
    pub ascii: Vec<Option<GlyphEntry>>,
    /// All other glyphs.
    pub others: HashMap<u32, GlyphEntry>,
    pub allocator: etagere::AtlasAllocator,
}

/// The number under which a glyph is kept.
pub open spec fn slot(ch: char, style: FontStyle) -> u32 {
    ((ch as u32) * 4 + style.number()) as u32
}

/// The slots of two glyphs differ.
proof fn lemma_slots_differ(a: char, s: FontStyle, b: char, t: FontStyle)
    ensures
        slot(a, s) == slot(b, t) <==> a == b && s == t,
        slot(a, s) == (a as u32) * 4 + s.number(),
{
}

/// A picture at a corner of the atlas, drawn over what was there.
pub open spec fn drawn(data: Seq<u8>, width: int, b: Bitmap, x: int, y: int) -> Seq<u8> {
    Seq::new(
        data.len(),
        |i: int|
            if in_picture(width, b, x, y, i) {
                font::pixel(b, i / width - y, i % width - x)
            } else {
                data[i]
            },
    )
}

/// A byte of the atlas belongs to a picture at a corner.
pub open spec fn in_picture(width: int, b: Bitmap, x: int, y: int, i: int) -> bool {
    y <= i / width < y + b.h && x <= i % width < x + b.w
}

/// The picture has all its bytes.
pub open spec fn is_whole(b: Bitmap) -> bool {
    b.data@.len() >= b.w * b.h * font::bytes_per_pixel(b.content)
}

/// The entry of a picture at a corner of the atlas.
pub open spec fn entry_at(b: Bitmap, x: int, y: int, baseline: u32) -> GlyphEntry {
    GlyphEntry {
        atlas_x: x as u16,
        atlas_y: y as u16,
        w: b.w as u16,
        h: b.h as u16,
        offset_x: b.left as i16,
        offset_y: (baseline - b.top) as i16,
    }
}

impl FontAtlas {
    /// The glyph kept under a slot.
    pub open spec fn kept(&self, n: u32) -> Option<GlyphEntry> {
        if n < 512 {
            self.ascii@[n as int]
        } else if self.others@.contains_key(n) {
            Some(self.others@[n])
        } else {
            None
        }
    }

    /// What is known of a glyph: nothing, that it has no picture, or where its
    /// picture is.
    pub open spec fn entry(&self, ch: char, style: FontStyle) -> Option<GlyphEntry> {
        self.kept(slot(ch, style))
    }

    /// The rectangles of the pictures, with a margin.
    pub open spec fn areas(&self) -> Seq<(int, int, int, int)> {
        taken(self.allocator)
    }

    /// The sizes that room was asked for, with a margin.
    pub open spec fn requests(&self) -> Seq<(int, int)> {
        asked(self.allocator)
    }

    /// The atlas has its full size, and its pictures lie in it.
    pub open spec fn tables_ok(&self) -> bool {
        &&& self.ascii@.len() == 512
        &&& extent(self.allocator) == (ATLAS_SIDE as int, ATLAS_SIDE as int)
    }

    /// The picture of an entry lies in one of the rectangles, and begins in
    /// its corner.
    pub open spec fn has_area(&self, e: GlyphEntry) -> bool {
        exists|k: int| 0 <= k < self.areas().len() && holds_picture(#[trigger] self.areas()[k], e)
    }

    /// An entry with a picture has a rectangle.
    pub open spec fn entry_ok(&self, entry: Option<GlyphEntry>) -> bool {
        entry matches Some(e) ==> e.w == 0 || self.has_area(e)
    }

    /// Every entry with a picture has a rectangle.
    pub open spec fn entries_ok(&self) -> bool {
        forall|c: char, s: FontStyle| self.entry_ok(#[trigger] self.entry(c, s))
    }

    /// The atlas has its full size, its pictures lie in it, and no two of them
    /// meet.
    pub open spec fn wf(&self) -> bool {
        &&& self.tables_ok()
        &&& self.atlas_w == ATLAS_SIDE
        &&& self.atlas_h == ATLAS_SIDE
        &&& self.atlas_data@.len() == ATLAS_SIDE * ATLAS_SIDE
        &&& well_placed(self.areas())
        &&& self.entries_ok()
    }

    /// An atlas without glyphs, for cells of a given size.
    pub fn new(metrics: CellMetrics) -> (atlas: FontAtlas)
        ensures
            atlas.wf(),
            atlas.metrics == metrics,
            atlas.areas().len() == 0,
            atlas.requests().len() == 0,
            atlas.dirty_rects@.len() == 0,
            forall|i: int| 0 <= i < atlas.atlas_data@.len() ==> atlas.atlas_data@[i] == 0,
            forall|ch: char, style: FontStyle| #[trigger] atlas.entry(ch, style) is None,
    {
        broadcast use vstd::std_specs::hash::group_hash_axioms;

        let side: usize = ATLAS_SIDE as usize;
        let mut atlas_data: Vec<u8> = Vec::new();
        atlas_data.resize(side * side, 0u8);
        let mut ascii: Vec<Option<GlyphEntry>> = Vec::new();
        let mut i: usize = 0;
        while i < 512
            invariant
                i <= 512,
                ascii@.len() == i,
                forall|k: int| 0 <= k < i ==> ascii@[k] is None,
            decreases 512 - i,
        {
            ascii.push(None);
            i += 1;
        }
        FontAtlas {
            metrics,
            atlas_w: ATLAS_SIDE,
            atlas_h: ATLAS_SIDE,
            atlas_data,
            dirty_rects: Vec::new(),
            ascii,
            others: HashMap::new(),
            allocator: new_allocator(ATLAS_SIDE as i32, ATLAS_SIDE as i32),
        }
    }

    /// What is known of a glyph.
    pub fn get(&self, ch: char, style: FontStyle) -> (entry: Option<GlyphEntry>)
        requires
            self.wf(),
        ensures
            entry == self.entry(ch, style),
    {
        broadcast use vstd::std_specs::hash::group_hash_axioms;

        let n: u32 = (ch as u32) * 4 + style.to_number();
        if n < 512 {
            self.ascii[n as usize]
        } else {
            match self.others.get(&n) {
                Some(e) => Some(*e),
                None => None,
            }
        }
    }

    /// Whether a glyph has still to be drawn.
    pub fn wants(&self, ch: char, style: FontStyle) -> (w: bool)
        requires
            self.wf(),
        ensures
            w == (self.entry(ch, style) is None),
    {
        self.get(ch, style).is_none()
    }

    fn store_glyph(&mut self, ch: char, style: FontStyle, entry: GlyphEntry)
        requires
            old(self).wf(),
            entry.w == 0 || old(self).has_area(entry),
        ensures
            final(self).wf(),
            final(self).areas() == old(self).areas(),
            final(self).requests() == old(self).requests(),
            final(self).metrics == old(self).metrics,
            final(self).atlas_data@ == old(self).atlas_data@,
            final(self).dirty_rects@ == old(self).dirty_rects@,
            final(self).entry(ch, style) == Some(entry),
            forall|c: char, s: FontStyle|
                (c != ch || s != style) ==> #[trigger] final(self).entry(c, s) == old(self).entry(
                    c,
                    s,
                ),
    {
        broadcast use vstd::std_specs::hash::group_hash_axioms;

        let n: u32 = (ch as u32) * 4 + style.to_number();
        if n < 512 {
            self.ascii.set(n as usize, Some(entry));
        } else {
            let _ = self.others.insert(n, entry);
        }
        proof {
            assert forall|c: char, s: FontStyle| (c != ch || s != style) implies #[trigger] self.entry(
                c,
                s,
            ) == old(self).entry(c, s) by {
                lemma_slots_differ(c, s, ch, style);
            }
            assert forall|c: char, s: FontStyle| self.entry_ok(#[trigger] self.entry(c, s)) by {
                lemma_slots_differ(c, s, ch, style);
                let e = self.entry(c, s)->0;
                assert(old(self).entry_ok(old(self).entry(c, s)));
                if self.entry(c, s) is Some && e.w != 0 {
                    let k = choose|k: int|
                        0 <= k < old(self).areas().len() && holds_picture(
                            #[trigger] old(self).areas()[k],
                            e,
                        );
                    assert(holds_picture(self.areas()[k], e));
                }
            }
        }
    }

    /// Remembers that a glyph has no picture.
    pub fn place_blank(&mut self, ch: char, style: FontStyle)
        requires
            old(self).wf(),
        ensures
            final(self).wf(),
            final(self).areas() == old(self).areas(),
            final(self).requests() == old(self).requests(),
            final(self).metrics == old(self).metrics,
            final(self).atlas_data@ == old(self).atlas_data@,
            final(self).dirty_rects@ == old(self).dirty_rects@,
            final(self).entry(ch, style) == Some(font::no_glyph()),
            forall|c: char, s: FontStyle|
                (c != ch || s != style) ==> #[trigger] final(self).entry(c, s) == old(self).entry(
                    c,
                    s,
                ),
    {
        self.store_glyph(ch, style, GlyphEntry::default());
    }

    /// The picture of a glyph copied to a corner of the atlas.
    fn draw(&mut self, b: &Bitmap, x: u32, y: u32)
        requires
            old(self).wf(),
            x + b.w <= ATLAS_SIDE,
            y + b.h <= ATLAS_SIDE,
            is_whole(*b),
        ensures
            final(self).wf(),
            final(self).areas() == old(self).areas(),
            final(self).requests() == old(self).requests(),
            final(self).metrics == old(self).metrics,
            final(self).dirty_rects@ == old(self).dirty_rects@,
            forall|c: char, s: FontStyle| #[trigger]
                final(self).entry(c, s) == old(self).entry(c, s),
            final(self).atlas_data@ == drawn(
                old(self).atlas_data@,
                ATLAS_SIDE as int,
                *b,
                x as int,
                y as int,
            ),
    {
        let mut data: Vec<u8> = Vec::new();
        std::mem::swap(&mut data, &mut self.atlas_data);
        copy_picture(&mut data, b, x, y);
        std::mem::swap(&mut data, &mut self.atlas_data);
        proof {
            lemma_entries_stay(*old(self), *self);
        }
    }

    /// A picture that can be taken in: it is not empty, it is small enough to
    /// be counted, and it has all its bytes.
    pub open spec fn is_usable(b: Bitmap) -> bool {
        0 < b.w < 0xffff && 0 < b.h < 0xffff && is_whole(b)
    }

    /// The size of a picture with its margin.
    pub open spec fn with_margin(b: Bitmap) -> (int, int) {
        (b.w + 1, b.h + 1)
    }

    /// Where the allocator has room for a picture with its margin, if it has.
    pub open spec fn corner_of(&self, b: Bitmap) -> Option<(i32, i32)> {
        corner_for(
            (ATLAS_SIDE as int, ATLAS_SIDE as int),
            self.requests(),
            FontAtlas::with_margin(b),
        )
    }

    /// The atlas `before`, after its allocator was asked for room for a
    /// picture with a margin and gave it at a corner, or did not.
    pub open spec fn was_given(
        &self,
        before: FontAtlas,
        b: Bitmap,
        corner: Option<(i32, i32)>,
    ) -> bool {
        &&& *self == (FontAtlas { allocator: self.allocator, ..before })
        &&& extent(self.allocator) == extent(before.allocator)
        &&& match corner {
            None => self.areas() == before.areas(),
            Some((x, y)) => {
                &&& self.areas().len() == before.areas().len() + 1
                &&& self.areas().drop_last() == before.areas()
                &&& is_place(
                    before.allocator,
                    b.w + 1,
                    b.h + 1,
                    x as int,
                    y as int,
                    self.areas().last(),
                )
            },
        }
    }

    /// Takes in the picture of a glyph at the corner that the allocator gave,
    /// or the fact that there was no room for it.
    pub fn place_at(
        &mut self,
        ch: char,
        style: FontStyle,
        b: &Bitmap,
        corner: Option<(i32, i32)>,
    )
        requires
            FontAtlas::is_usable(*b),
            exists|before: FontAtlas|
                before.wf() && #[trigger] old(self).was_given(before, *b, corner),
        ensures
            final(self).wf(),
            final(self).metrics == old(self).metrics,
            final(self).areas() == old(self).areas(),
            final(self).requests() == old(self).requests(),
            forall|c: char, s: FontStyle|
                (c != ch || s != style) ==> #[trigger] final(self).entry(c, s) == old(self).entry(
                    c,
                    s,
                ),
            corner is None ==> {
                &&& final(self).entry(ch, style) == Some(font::no_glyph())
                &&& final(self).atlas_data@ == old(self).atlas_data@
                &&& final(self).dirty_rects@ == old(self).dirty_rects@
            },
            corner matches Some((x, y)) ==> {
                &&& final(self).entry(ch, style) == Some(
                    entry_at(*b, x as int, y as int, old(self).metrics.baseline),
                )
                &&& final(self).atlas_data@ == drawn(
                    old(self).atlas_data@,
                    ATLAS_SIDE as int,
                    *b,
                    x as int,
                    y as int,
                )
                &&& final(self).dirty_rects@ == old(self).dirty_rects@.push(
                    DirtyRect { x: x as u32, y: y as u32, w: b.w, h: b.h },
                )
            },
    {
        let ghost before = choose|before: FontAtlas|
            before.wf() && #[trigger] self.was_given(before, *b, corner);
        let ghost given = *self;
        match corner {
            None => {
                proof {
                    lemma_entries_stay(before, *self);
                }
                self.place_blank(ch, style);
            },
            Some((x, y)) => {
                proof {
                    lemma_one_more(before.allocator, self.areas());
                    lemma_entries_stay(before, *self);
                }
                self.draw(b, x as u32, y as u32);
                let ghost with_picture = *self;
                self.dirty_rects.push(DirtyRect { x: x as u32, y: y as u32, w: b.w, h: b.h });
                let baseline: u32 = self.metrics.baseline;
                let entry = GlyphEntry {
                    atlas_x: x as u16,
                    atlas_y: y as u16,
                    w: b.w as u16,
                    h: b.h as u16,
                    offset_x: #[verifier::truncate]
                    (b.left as i16),
                    offset_y: #[verifier::truncate]
                    ((baseline as i64 - b.top as i64) as i16),
                };
                proof {
                    lemma_entries_stay(with_picture, *self);
                }
                assert(holds_picture(self.areas()[self.areas().len() - 1], entry));
                self.store_glyph(ch, style, entry);
                assert forall|c: char, s: FontStyle| (c != ch || s != style) implies
                    #[trigger] self.entry(c, s) == given.entry(c, s) by {
                    assert(with_picture.entry(c, s) == given.entry(c, s));
                }
            },
        }
    }

    /// Takes in the picture of a glyph, or the fact that it has none. A picture
    /// that is empty, that lacks bytes, or for which there is no room counts as
    /// none. The first picture has room if it fits into the atlas, and one that
    /// does not fit never has.
    pub fn place(&mut self, ch: char, style: FontStyle, picture: Option<&Bitmap>)
        requires
            old(self).wf(),
        ensures
            final(self).wf(),
            final(self).metrics == old(self).metrics,
            match picture {
                Some(b) if FontAtlas::is_usable(*b) => {
                    &&& final(self).requests() == old(self).requests().push(
                        FontAtlas::with_margin(*b),
                    )
                    &&& match old(self).corner_of(*b) {
                        Some(corner) => final(self).taken_in(*old(self), ch, style, *b, corner),
                        None => final(self).left_out(*old(self), ch, style),
                    }
                    &&& b.w >= ATLAS_SIDE || b.h >= ATLAS_SIDE ==> old(self).corner_of(*b) is None
                    &&& b.w < ATLAS_SIDE && b.h < ATLAS_SIDE && old(self).areas().len() == 0
                        ==> old(self).corner_of(*b) == Some((0i32, 0i32))
                },
                _ => {
                    &&& final(self).requests() == old(self).requests()
                    &&& final(self).left_out(*old(self), ch, style)
                },
            },
    {
        let b = match picture {
            Some(b) => b,
            None => {
                self.place_blank(ch, style);
                return ;
            },
        };
        if b.w == 0 || b.h == 0 || b.w >= 0xffff || b.h >= 0xffff || !has_all_bytes(b) {
            self.place_blank(ch, style);
            return ;
        }
        let ghost before = *self;
        let corner = allocate(&mut self.allocator, b.w as i32 + 1, b.h as i32 + 1);
        assert(self.was_given(before, *b, corner));
        let ghost given = *self;
        assert(forall|c: char, s: FontStyle| #[trigger]
            given.entry(c, s) == before.entry(c, s));
        self.place_at(ch, style, b, corner);
        assert forall|c: char, s: FontStyle| (c != ch || s != style) implies #[trigger] self.entry(
            c,
            s,
        ) == before.entry(c, s) by {
            assert(given.entry(c, s) == before.entry(c, s));
        }
        assert(corner is None ==> self.left_out(before, ch, style));
        assert(corner is Some ==> self.taken_in(before, ch, style, *b, corner->0));
    }

    /// Nothing changed of the other glyphs.
    pub open spec fn keeps_others(&self, before: FontAtlas, ch: char, style: FontStyle) -> bool {
        forall|c: char, s: FontStyle|
            (c != ch || s != style) ==> #[trigger] self.entry(c, s) == before.entry(c, s)
    }

    /// The glyph went without a picture, and nothing else changed.
    pub open spec fn left_out(&self, before: FontAtlas, ch: char, style: FontStyle) -> bool {
        &&& self.keeps_others(before, ch, style)
        &&& self.entry(ch, style) == Some(font::no_glyph())
        &&& self.areas() == before.areas()
        &&& self.atlas_data@ == before.atlas_data@
        &&& self.dirty_rects@ == before.dirty_rects@
    }

    /// The glyph got a place for its picture at a corner, where the picture now
    /// is.
    pub open spec fn taken_in(
        &self,
        before: FontAtlas,
        ch: char,
        style: FontStyle,
        b: Bitmap,
        corner: (i32, i32),
    ) -> bool {
        let (x, y) = (corner.0 as int, corner.1 as int);
        let area = self.areas().last();
        &&& self.keeps_others(before, ch, style)
        &&& self.areas().len() == before.areas().len() + 1
        &&& self.areas().drop_last() == before.areas()
        &&& (area.0, area.1) == (x, y)
        &&& x + b.w < area.2
        &&& y + b.h < area.3
        &&& self.entry(ch, style) == Some(entry_at(b, x, y, before.metrics.baseline))
        &&& self.atlas_data@ == drawn(before.atlas_data@, ATLAS_SIDE as int, b, x, y)
        &&& self.dirty_rects@ == before.dirty_rects@.push(
            DirtyRect { x: x as u32, y: y as u32, w: b.w, h: b.h },
        )
    }

    /// Forgets what was uploaded.
    pub fn clear_dirty(&mut self)
        requires
            old(self).wf(),
        ensures
            final(self).wf(),
            final(self).metrics == old(self).metrics,
            final(self).areas() == old(self).areas(),
            final(self).requests() == old(self).requests(),
            final(self).atlas_data@ == old(self).atlas_data@,
            final(self).dirty_rects@.len() == 0,
            forall|c: char, s: FontStyle| #[trigger]
                final(self).entry(c, s) == old(self).entry(c, s),
    {
        self.dirty_rects = Vec::new();
        proof {
            lemma_entries_stay(*old(self), *self);
        }
    }
}

/// Whether a picture has all its bytes.
fn has_all_bytes(b: &Bitmap) -> (whole: bool)
    requires
        b.w < 0xffff,
        b.h < 0xffff,
    ensures
        whole == is_whole(*b),
{
    let have: usize = b.data.len();
    let bpp: u64 = match b.content {
        Content::Mask => 1,
        Content::SubpixelMask => 3,
        Content::Color => 4,
    };
    assert(0 <= b.w * b.h <= 0xffff * 0xffff) by (nonlinear_arith)
        requires
            b.w < 0xffff,
            b.h < 0xffff,
    ;
    let n: u64 = b.w as u64 * b.h as u64;
    assert(n * bpp == b.w * b.h * font::bytes_per_pixel(b.content)) by (nonlinear_arith)
        requires
            n == b.w * b.h,
            bpp == font::bytes_per_pixel(b.content),
    ;
    assert(n * bpp <= 0xffff * 0xffff * 4) by (nonlinear_arith)
        requires
            n <= 0xffff * 0xffff,
            bpp <= 4,
    ;
    if n * bpp > usize::MAX as u64 {
        return false;
    }
    have >= font::expected_bitmap_len(b.content, b.w, b.h)
}

/// The brightness of a pixel.
fn read_pixel(b: &Bitmap, row: u32, col: u32) -> (v: u8)
    requires
        row < b.h,
        col < b.w,
        b.w <= ATLAS_SIDE,
        b.h <= ATLAS_SIDE,
        is_whole(*b),
    ensures
        v == font::pixel(*b, row as int, col as int),
{
    let bpp: usize = match b.content {
        Content::Mask => 1,
        Content::SubpixelMask => 3,
        Content::Color => 4,
    };
    assert(row * b.w + col + 1 <= b.w * b.h) by (nonlinear_arith)
        requires
            row < b.h,
            col < b.w,
    ;
    assert(b.w * b.h <= 0x10_0000 && 0 <= row * b.w) by (nonlinear_arith)
        requires
            b.w <= 1024,
            b.h <= 1024,
    ;
    let k: usize = row as usize * b.w as usize + col as usize;
    assert(k * bpp + bpp <= b.w * b.h * bpp) by (nonlinear_arith)
        requires
            k + 1 <= b.w * b.h,
            bpp >= 1,
    ;
    assert(k * bpp <= 0x10_0000 * 4) by (nonlinear_arith)
        requires
            k <= 0x10_0000,
            bpp <= 4,
    ;
    let i: usize = k * bpp;
    match b.content {
        Content::Mask => b.data[i],
        Content::SubpixelMask => {
            let sum: u32 = b.data[i] as u32 + b.data[i + 1] as u32 + b.data[i + 2] as u32;
            (sum / 3) as u8
        },
        Content::Color => {
            let r: u32 = b.data[i] as u32;
            let g: u32 = b.data[i + 1] as u32;
            let bl: u32 = b.data[i + 2] as u32;
            let a: u32 = b.data[i + 3] as u32;
            let luma: u32 = (r * 299 + g * 587 + bl * 114) / 1000;
            assert(0 <= luma * a <= 255 * 255) by (nonlinear_arith)
                requires
                    luma <= 255,
                    a <= 255,
            ;
            (luma * a / 255) as u8
        },
    }
}

/// The place of a pixel in the atlas, and back.
proof fn lemma_pixel_place(x: int, y: int, i: int)
    requires
        0 <= x < ATLAS_SIDE,
        i == y * ATLAS_SIDE + x,
    ensures
        i / ATLAS_SIDE as int == y,
        i % ATLAS_SIDE as int == x,
{
}

/// The first `rows` rows of a picture and `cols` pixels of the next one, drawn
/// over what was there.
spec fn partly_drawn(data: Seq<u8>, b: Bitmap, x: int, y: int, rows: int, cols: int) -> Seq<u8> {
    Seq::new(
        data.len(),
        |i: int|
            if in_picture(ATLAS_SIDE as int, b, x, y, i) && (i / ATLAS_SIDE as int - y < rows || (i
                / ATLAS_SIDE as int - y == rows && i % ATLAS_SIDE as int - x < cols)) {
                font::pixel(b, i / ATLAS_SIDE as int - y, i % ATLAS_SIDE as int - x)
            } else {
                data[i]
            },
    )
}

/// Copies a picture into the bytes of the atlas.
fn copy_picture(data: &mut Vec<u8>, b: &Bitmap, x: u32, y: u32)
    requires
        old(data)@.len() == ATLAS_SIDE * ATLAS_SIDE,
        x + b.w <= ATLAS_SIDE,
        y + b.h <= ATLAS_SIDE,
        is_whole(*b),
    ensures
        final(data)@ == drawn(old(data)@, ATLAS_SIDE as int, *b, x as int, y as int),
{
    let ghost start = data@;
    let mut row: u32 = 0;
    assert(data@ =~= partly_drawn(start, *b, x as int, y as int, 0, 0));
    while row < b.h
        invariant
            row <= b.h,
            start.len() == ATLAS_SIDE * ATLAS_SIDE,
            x + b.w <= ATLAS_SIDE,
            y + b.h <= ATLAS_SIDE,
            is_whole(*b),
            data@ == partly_drawn(start, *b, x as int, y as int, row as int, 0),
        decreases b.h - row,
    {
        let mut col: u32 = 0;
        while col < b.w
            invariant
                row < b.h,
                col <= b.w,
                start.len() == ATLAS_SIDE * ATLAS_SIDE,
                x + b.w <= ATLAS_SIDE,
                y + b.h <= ATLAS_SIDE,
                is_whole(*b),
                data@ == partly_drawn(start, *b, x as int, y as int, row as int, col as int),
            decreases b.w - col,
        {
            let dst: usize = (y as usize + row as usize) * 1024 + x as usize + col as usize;
            let v: u8 = read_pixel(b, row, col);
            data.set(dst, v);
            proof {
                lemma_pixel_place(x + col, y + row, dst as int);
                assert forall|i: int| 0 <= i < start.len() implies data@[i] == partly_drawn(
                    start,
                    *b,
                    x as int,
                    y as int,
                    row as int,
                    col + 1,
                )[i] by {
                    if i != dst {
                        assert(!(i / ATLAS_SIDE as int == y + row && i % ATLAS_SIDE as int == x
                            + col));
                    }
                }
                assert(data@ =~= partly_drawn(
                    start,
                    *b,
                    x as int,
                    y as int,
                    row as int,
                    col + 1,
                ));
            }
            col += 1;
        }
        row += 1;
        assert(data@ =~= partly_drawn(start, *b, x as int, y as int, row as int, 0));
    }
    assert(data@ =~= drawn(start, ATLAS_SIDE as int, *b, x as int, y as int));
}

/// A picture that was taken in can be read back where its entry says.
pub proof fn law_picture_is_where_its_entry_says(
    atlas: FontAtlas,
    before: FontAtlas,
    ch: char,
    style: FontStyle,
    b: Bitmap,
    corner: (i32, i32),
    row: int,
    col: int,
)
    requires
        before.wf(),
        atlas.wf(),
        atlas.taken_in(before, ch, style, b, corner),
        0 <= row < b.h,
        0 <= col < b.w,
    ensures
        atlas.entry(ch, style) is Some,
        ({
            let e = atlas.entry(ch, style)->0;
            &&& e.w == b.w
            &&& e.h == b.h
            &&& atlas.atlas_data@[(e.atlas_y + row) * ATLAS_SIDE + e.atlas_x + col]
                == font::pixel(b, row, col)
        }),
{
    let area = atlas.areas().last();
    let n = atlas.areas().len() - 1;
    assert(within(atlas.areas()[n], ATLAS_SIDE as int, ATLAS_SIDE as int));
    let i = (area.1 + row) * ATLAS_SIDE + area.0 + col;
    lemma_pixel_place(area.0 + col, area.1 + row, i);
    assert(0 <= i < ATLAS_SIDE * ATLAS_SIDE);
}

/// Taking in a picture leaves those of all other glyphs as they are.
pub proof fn law_pictures_are_kept(
    atlas: FontAtlas,
    before: FontAtlas,
    ch: char,
    style: FontStyle,
    b: Bitmap,
    corner: (i32, i32),
    other: char,
    other_style: FontStyle,
    row: int,
    col: int,
)
    requires
        before.wf(),
        atlas.wf(),
        atlas.taken_in(before, ch, style, b, corner),
        other != ch || other_style != style,
        before.entry(other, other_style) is Some,
        0 <= row < before.entry(other, other_style)->0.h,
        0 <= col < before.entry(other, other_style)->0.w,
    ensures
        atlas.entry(other, other_style) == before.entry(other, other_style),
        ({
            let e = before.entry(other, other_style)->0;
            let at = (e.atlas_y + row) * ATLAS_SIDE + e.atlas_x + col;
            atlas.atlas_data@[at] == before.atlas_data@[at]
        }),
{
    let e = before.entry(other, other_style)->0;
    let k = choose|k: int|
        0 <= k < before.areas().len() && holds_picture(#[trigger] before.areas()[k], e);
    let n = atlas.areas().len() - 1;
    assert(within(before.areas()[k], ATLAS_SIDE as int, ATLAS_SIDE as int));
    assert(atlas.areas()[k] == atlas.areas().drop_last()[k]);
    assert(apart(atlas.areas()[k], atlas.areas()[n]));
    let i = (e.atlas_y + row) * ATLAS_SIDE + e.atlas_x + col;
    lemma_pixel_place(e.atlas_x + col, e.atlas_y + row, i);
    assert(0 <= i < ATLAS_SIDE * ATLAS_SIDE);
}

} // verus!
