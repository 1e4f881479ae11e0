//! The character maps of font files, as far as it must be known that a character
//! can be looked up in them: a damaged place is told apart before it is used.
//!
//! A font begins with a directory of its tables. The table with the tag `cmap`
//! lists character maps in several formats. One of those in format 12 is a list
//! of records, each for a range of characters with one glyph after the other.

use vstd::prelude::*;

verus! {

/// The tag of the table that lists the character maps.
pub const CMAP_TAG: u32 = 0x636d_6170;

/// Where the characters up to 0xff stand a second time in a character map for
/// symbols.
pub const SYMBOLS_FROM: u32 = 0xf000;

/// Two bytes of font data as a big-endian number.
pub open spec fn half_at(data: Seq<u8>, i: int) -> Option<int> {
    if 0 <= i && i + 2 <= data.len() {
        Some(data[i] * 0x100 + data[i + 1])
    } else {
        None
    }
}

/// Four bytes of font data as a big-endian number.
pub open spec fn word_at(data: Seq<u8>, i: int) -> Option<int> {
    if 0 <= i && i + 4 <= data.len() {
        Some(data[i] * 0x100_0000 + data[i + 1] * 0x1_0000 + data[i + 2] * 0x100 + data[i + 3])
    } else {
        None
    }
}

/// The number of tables of the font at an offset.
pub open spec fn table_count(data: Seq<u8>, offset: int) -> int {
    match half_at(data, offset + 4) {
        Some(n) => n,
        None => 0,
    }
}

/// Where the `k`-th table of a font begins, if it lists the character maps. No
/// table begins with the file.
pub open spec fn cmap_start(data: Seq<u8>, offset: int, k: int) -> Option<int> {
    let record = offset + 12 + 16 * k;
    if word_at(data, record) == Some(CMAP_TAG as int) && word_at(data, record + 8) != Some(0int) {
        word_at(data, record + 8)
    } else {
        None
    }
}

/// A character map for Unicode, by its platform and encoding.
pub open spec fn for_unicode(platform: int, encoding: int) -> bool {
    platform == 0 || (platform == 3 && (encoding == 1 || encoding == 10))
}

/// A character map for symbols.
pub open spec fn for_symbols(platform: int, encoding: int) -> bool {
    platform == 3 && encoding == 0
}

/// A character map that is listed: where it begins, its format, and whether it
/// is for symbols.
pub struct ListedMap {
    pub start: int,
    pub format: int,
    pub symbols: bool,
}

/// The character map that is used of those listed from the `i`-th on, of `n` in
/// all, where `best` is the best before: the first one for symbols, else the
/// last one for Unicode in format 12, else the first one for Unicode. There is
/// none if the list or what it names is cut off before that is known.
pub open spec fn used_map(
    data: Seq<u8>,
    table: int,
    i: int,
    n: int,
    best: Option<ListedMap>,
) -> Option<ListedMap>
    decreases n - i,
{
    if i >= n {
        best
    } else {
        let entry = table + 4 + 8 * i;
        match (half_at(data, entry), half_at(data, entry + 2), word_at(data, entry + 4)) {
            (Some(platform), Some(encoding), Some(distance)) => match half_at(
                data,
                table + distance,
            ) {
                Some(word) => {
                    let listed = ListedMap {
                        start: table + distance,
                        format: word % 0x100,
                        symbols: for_symbols(platform, encoding),
                    };
                    if listed.format != 4 && listed.format != 12 {
                        used_map(data, table, i + 1, n, best)
                    } else if listed.start > u32::MAX {
                        None
                    } else if listed.symbols {
                        Some(listed)
                    } else if for_unicode(platform, encoding) && (listed.format == 12 || best
                        is None) {
                        used_map(data, table, i + 1, n, Some(listed))
                    } else {
                        used_map(data, table, i + 1, n, best)
                    }
                },
                None => None,
            },
            _ => None,
        }
    }
}

/// The record of a character map in format 12 at a place can be used for a
/// character: if it holds the character, the glyph is a number of 32 bits.
pub open spec fn record_ok(data: Seq<u8>, at: int, code: int) -> bool {
    match (word_at(data, at), word_at(data, at + 4), word_at(data, at + 8)) {
        (Some(first), Some(last), Some(glyph)) => first <= code <= last ==> code - first + glyph
            <= u32::MAX,
        _ => true,
    }
}

/// A character can be looked up in a character map in format 12: the map has
/// its header, its size can be counted, and if all its records are there they
/// can be used for the character.
pub open spec fn records_ok(data: Seq<u8>, start: int, code: int) -> bool {
    match word_at(data, start + 12) {
        Some(n) => 12 * n <= usize::MAX && (start + 16 + 12 * n <= data.len() ==> forall|k: int|
            0 <= k < n ==> #[trigger] record_ok(data, start + 16 + 12 * k, code)),
        None => false,
    }
}

/// A character can be looked up in the character map that the table at a place
/// uses, or it uses none. In one for symbols a character up to 0xff may be
/// looked up in both of its places.
pub open spec fn table_ok(data: Seq<u8>, table: int, ch: char) -> bool {
    match half_at(data, table + 2) {
        Some(n) => match used_map(data, table, 0, n, None) {
            Some(used) => used.format == 12 ==> {
                &&& records_ok(data, used.start, ch as int)
                &&& used.symbols && ch as u32 <= 0xff ==> records_ok(
                    data,
                    used.start,
                    ch as int + SYMBOLS_FROM,
                )
            },
            None => true,
        },
        None => true,
    }
}

/// A character can be looked up in the character map of the font at an offset.
pub open spec fn charmap_ok(data: Seq<u8>, offset: int, ch: char) -> bool {
    forall|k: int|
        0 <= k < table_count(data, offset) ==> (#[trigger] cmap_start(data, offset, k) matches Some(
            table,
        ) ==> table_ok(data, table, ch))
}

/// Reads two bytes; see [`half_at`].
fn read_half(data: &[u8], i: u64) -> (n: Option<u16>)
    ensures
        n is Some <==> half_at(data@, i as int) is Some,
        n matches Some(v) ==> v == half_at(data@, i as int)->0,
{
    let len: usize = data.len();
    if len < 2 || i > (len - 2) as u64 {
        return None;
    }
    let at: usize = i as usize;
    Some(data[at] as u16 * 0x100 + data[at + 1] as u16)
}

/// Reads four bytes; see [`word_at`].
fn read_word(data: &[u8], i: u64) -> (n: Option<u32>)
    ensures
        n is Some <==> word_at(data@, i as int) is Some,
        n matches Some(v) ==> v == word_at(data@, i as int)->0,
{
    let len: usize = data.len();
    if len < 4 || i > (len - 4) as u64 {
        return None;
    }
    let at: usize = i as usize;
    Some(
        data[at] as u32 * 0x100_0000 + data[at + 1] as u32 * 0x1_0000 + data[at + 2] as u32 * 0x100
            + data[at + 3] as u32,
    )
}

/// The start of the character map that a table uses, if it is in format 12, and
/// whether it is for symbols.
fn used_records(data: &[u8], table: u32, n: u16) -> (records: Option<(u32, bool)>)
    ensures
        match used_map(data@, table as int, 0, n as int, None) {
            Some(used) => if used.format == 12 {
                &&& records matches Some((start, symbols))
                &&& start == used.start
                &&& symbols == used.symbols
            } else {
                records is None
            },
            None => records is None,
        },
{
    let mut best: Option<(u32, u8)> = None;
    let ghost mut found: Option<ListedMap> = None;
    let mut i: u16 = 0;
    while i < n
        invariant
            i <= n,
            found is Some <==> best is Some,
            best matches Some((start, format)) ==> found->0.start == start && found->0.format
                == format && !found->0.symbols,
            used_map(data@, table as int, 0, n as int, None) == used_map(
                data@,
                table as int,
                i as int,
                n as int,
                found,
            ),
        decreases n - i,
    {
        let entry: u64 = table as u64 + 4 + 8 * (i as u64);
        let (platform, encoding, distance) = match (
            read_half(data, entry),
            read_half(data, entry + 2),
            read_word(data, entry + 4),
        ) {
            (Some(p), Some(e), Some(d)) => (p, e, d),
            _ => {
                return None;
            },
        };
        let start: u64 = table as u64 + distance as u64;
        let word: u16 = match read_half(data, start) {
            Some(w) => w,
            None => {
                return None;
            },
        };
        let format: u8 = (word % 0x100) as u8;
        if format == 4 || format == 12 {
            if start > u32::MAX as u64 {
                return None;
            }
            let symbols: bool = platform == 3 && encoding == 0;
            let unicode: bool = platform == 0 || (platform == 3 && (encoding == 1 || encoding
                == 10));
            if symbols {
                return if format == 12 {
                    Some((start as u32, true))
                } else {
                    None
                };
            }
            if unicode && (format == 12 || best.is_none()) {
                best = Some((start as u32, format));
                proof {
                    found = Some(
                        ListedMap { start: start as int, format: format as int, symbols: false },
                    );
                }
            }
        }
        i += 1;
    }
    match best {
        Some((start, 12)) => Some((start, false)),
        _ => None,
    }
}

/// Whether a record can be used for a character; see [`record_ok`].
fn record_fits(data: &[u8], at: u64, code: u32) -> (fits: bool)
    requires
        at <= u64::MAX - 8,
    ensures
        fits == record_ok(data@, at as int, code as int),
{
    match (read_word(data, at), read_word(data, at + 4), read_word(data, at + 8)) {
        (Some(first), Some(last), Some(glyph)) => {
            code < first || last < code || (code - first) as u64 + glyph as u64 <= u32::MAX as u64
        },
        _ => true,
    }
}

/// Whether a character can be looked up in a character map in format 12; see
/// [`records_ok`].
fn records_fit(data: &[u8], start: u32, code: u32) -> (fit: bool)
    ensures
        fit == records_ok(data@, start as int, code as int),
{
    let n: u32 = match read_word(data, start as u64 + 12) {
        Some(n) => n,
        None => {
            return false;
        },
    };
    if 12 * (n as u64) > usize::MAX as u64 {
        return false;
    }
    if start as u64 + 16 + 12 * (n as u64) > data.len() as u64 {
        return true;
    }
    let mut k: u32 = 0;
    while k < n
        invariant
            k <= n,
            word_at(data@, start + 12) == Some(n as int),
            start + 16 + 12 * n <= data@.len(),
            forall|j: int| 0 <= j < k ==> #[trigger] record_ok(
                data@,
                start + 16 + 12 * j,
                code as int,
            ),
        decreases n - k,
    {
        let at: u64 = start as u64 + 16 + 12 * (k as u64);
        if !record_fits(data, at, code) {
            assert(!record_ok(data@, start + 16 + 12 * (k as int), code as int));
            return false;
        }
        k += 1;
    }
    true
}

/// Whether a character can be looked up by a table; see [`table_ok`].
fn table_fits(data: &[u8], table: u32, ch: char) -> (fits: bool)
    ensures
        fits == table_ok(data@, table as int, ch),
{
    let code: u32 = ch as u32;
    match read_half(data, table as u64 + 2) {
        None => true,
        Some(n) => match used_records(data, table, n) {
            Some((start, symbols)) => records_fit(data, start, code) && (!symbols || code > 0xff
                || records_fit(data, start, code + SYMBOLS_FROM)),
            None => true,
        },
    }
}

/// Whether a character can be looked up in the character map of the font at an
/// offset. It cannot in a map that is cut off before its records, nor where the
/// number of its glyph is out of range.
pub fn charmap_sound(data: &[u8], offset: u32, ch: char) -> (ok: bool)
    ensures
        ok == charmap_ok(data@, offset as int, ch),
{
    let n: u16 = match read_half(data, offset as u64 + 4) {
        Some(n) => n,
        None => 0,
    };
    let mut k: u16 = 0;
    while k < n
        invariant
            k <= n,
            n == table_count(data@, offset as int),
            forall|j: int|
                0 <= j < k ==> (#[trigger] cmap_start(data@, offset as int, j) matches Some(table)
                    ==> table_ok(data@, table, ch)),
        decreases n - k,
    {
        let record: u64 = offset as u64 + 12 + 16 * (k as u64);
        let table: Option<u32> = match read_word(data, record) {
            Some(tag) => if tag == CMAP_TAG {
                read_word(data, record + 8)
            } else {
                None
            },
            None => None,
        };
        match table {
            Some(table) if table != 0 => {
                assert(cmap_start(data@, offset as int, k as int) == Some(table as int));
                if !table_fits(data, table, ch) {
                    return false;
                }
            },
            _ => {},
        }
        k += 1;
    }
    true
}

} // verus!
