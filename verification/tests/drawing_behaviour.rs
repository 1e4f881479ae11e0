//! Fonts, the atlas, frames and what changed between them.

use soltty::atlas::FontAtlas;
use soltty::charmap::charmap_sound;
use soltty::damage::{DamageRect, Geometry, LastFrame};
use soltty::font::{
    choose_font, Bitmap, CellMetrics, Content, FontSet, FontStyle,
};
use soltty::font_files::{distinct_fonts, fallback_files, font_files, variant_files, FoundFont};
use soltty::frame::{
    build_palette, frame_cursor, grid_frame, missing_glyphs, missing_overlay_glyphs, push_overlay,
    resolve_color, search_overlay, Colors,
};
use soltty::grid::Color;
use soltty::overlay::{picker_panel, search_bar, OverlayCell, Paint, PanelColors};
use soltty::picker::Picker;
use soltty::prepare::{picker_cells, prepare, search_bar_cells, Extras};
use soltty::search::{Match, Search, SearchDirection};
use soltty::selection::Selection;
use soltty::term::Term;
use soltty::theme::Theme;
use soltty::theme_lib::ThemeLib;

/// A font whose character map gives one glyph to each character of a range.
fn font(first: u32, last: u32, glyph: u32) -> Vec<u8> {
    let mut out: Vec<u8> = Vec::new();
    out.extend([0, 1, 0, 0]);
    out.extend([0, 1, 0, 0, 0, 0, 0, 0]);
    out.extend(b"cmap");
    out.extend(0u32.to_be_bytes());
    out.extend(28u32.to_be_bytes());
    out.extend(40u32.to_be_bytes());
    out.extend([0, 0, 0, 1]);
    out.extend([0, 3, 0, 10]);
    out.extend(12u32.to_be_bytes());
    out.extend([0, 12, 0, 0]);
    out.extend(28u32.to_be_bytes());
    out.extend(0u32.to_be_bytes());
    out.extend(1u32.to_be_bytes());
    out.extend(first.to_be_bytes());
    out.extend(last.to_be_bytes());
    out.extend(glyph.to_be_bytes());
    out
}

fn metrics() -> CellMetrics {
    CellMetrics { cell_w: 8, cell_h: 16, baseline: 12 }
}

fn picture(w: u32, h: u32, value: u8) -> Bitmap {
    Bitmap { content: Content::Mask, w, h, left: 1, top: 9, data: vec![value; (w * h) as usize] }
}

fn theme() -> Theme {
    let mut palette = [[0; 3]; 16];
    for (i, p) in palette.iter_mut().enumerate() {
        *p = [i as u8; 3];
    }
    Theme {
        name: "t".to_string(),
        bg: [1, 1, 1],
        fg: [2, 2, 2],
        cursor_bg: [3, 3, 3],
        cursor_fg: [4, 4, 4],
        palette,
    }
}

fn term(rows: usize, cols: usize, bytes: &[u8]) -> Term {
    let mut t = Term::new(rows, cols);
    t.feed(bytes);
    t
}

fn geometry(rows: usize, cols: usize) -> Geometry {
    Geometry {
        cell_w: 8,
        cell_h: 16,
        screen_w: cols as i32 * 8,
        screen_h: rows as i32 * 16,
        rows,
        cols,
    }
}

const NOTHING: Extras<'static> = Extras {
    selection: None,
    search: None,
    over: &[],
    picker_open: false,
    vi_cursor: None,
    cursor_on: true,
};

#[test]
fn a_character_is_found_in_the_first_font_that_has_it() {
    let mut set = FontSet::new(font(0x41, 0x5a, 10)).unwrap();
    assert_eq!(set.find_glyph('C', FontStyle::Regular), Some((0, 12)));
    assert_eq!(set.find_glyph('c', FontStyle::Regular), None);
    assert!(set.add_fallback(font(0x41, 0x7a, 100)));
    assert_eq!(set.find_glyph('C', FontStyle::Regular), Some((0, 12)));
    assert_eq!(set.find_glyph('a', FontStyle::Regular), Some((1, 132)));
}

#[test]
fn a_variant_comes_before_the_fallbacks() {
    let mut set = FontSet::new(font(0x41, 0x5a, 10)).unwrap();
    assert!(set.add_variant(FontStyle::Bold, font(0x41, 0x42, 50)));
    assert_eq!(set.find_glyph('B', FontStyle::Bold), Some((1, 51)));
    assert_eq!(set.find_glyph('C', FontStyle::Bold), None);
    assert!(set.add_fallback(font(0x41, 0x5a, 70)));
    assert_eq!(set.find_glyph('B', FontStyle::Bold), Some((1, 51)));
    assert_eq!(set.find_glyph('C', FontStyle::Bold), Some((2, 72)));
    assert_eq!(set.find_glyph('B', FontStyle::Italic), Some((2, 71)));
    assert_eq!(set.find_glyph('B', FontStyle::Regular), Some((0, 11)));
    assert_eq!(set.find_glyph('\0', FontStyle::Italic), Some((0, 0)));
}

#[test]
fn a_file_that_is_no_font_is_refused() {
    assert!(FontSet::new(b"no font at all".to_vec()).is_none());
    assert!(FontSet::new(vec![]).is_none());
    let mut set = FontSet::new(font(0x41, 0x5a, 10)).unwrap();
    assert!(!set.add_fallback(vec![0; 64]));
    assert!(!set.add_variant(FontStyle::Italic, vec![1, 2, 3]));
}

#[test]
fn a_collection_gives_its_first_font() {
    let inner = font(0x41, 0x5a, 10);
    let mut out: Vec<u8> = Vec::new();
    out.extend(b"ttcf");
    out.extend([0, 1, 0, 0]);
    out.extend(1u32.to_be_bytes());
    out.extend(16u32.to_be_bytes());
    out.extend(&inner[..20]);
    out.extend(44u32.to_be_bytes());
    out.extend(&inner[24..]);
    let set = FontSet::new(out).unwrap();
    assert_eq!(set.fonts[0].offset, 16);
    assert_eq!(set.find_glyph('A', FontStyle::Regular), Some((0, 10)));
}

#[test]
fn a_picture_is_where_its_entry_says() {
    let mut atlas = FontAtlas::new(metrics());
    assert!(atlas.wants('é', FontStyle::Regular));
    atlas.place('é', FontStyle::Regular, Some(&picture(5, 7, 200)));
    let e = atlas.get('é', FontStyle::Regular).unwrap();
    assert_eq!((e.w, e.h, e.offset_x, e.offset_y), (5, 7, 1, 3));
    for y in 0..7usize {
        for x in 0..5usize {
            let at = (e.atlas_y as usize + y) * atlas.atlas_w as usize + e.atlas_x as usize + x;
            assert_eq!(atlas.atlas_data[at], 200);
        }
    }
    assert_eq!(atlas.atlas_data.iter().filter(|b| **b != 0).count(), 35);
    assert_eq!(atlas.dirty_rects.len(), 1);
    atlas.clear_dirty();
    assert!(atlas.dirty_rects.is_empty());
}

#[test]
fn pictures_do_not_overwrite_each_other() {
    let mut atlas = FontAtlas::new(metrics());
    for (i, c) in ('a'..='z').enumerate() {
        atlas.place(c, FontStyle::Bold, Some(&picture(6, 9, i as u8 + 1)));
    }
    for (i, c) in ('a'..='z').enumerate() {
        let e = atlas.get(c, FontStyle::Bold).unwrap();
        for y in 0..9usize {
            for x in 0..6usize {
                let at = (e.atlas_y as usize + y) * 1024 + e.atlas_x as usize + x;
                assert_eq!(atlas.atlas_data[at], i as u8 + 1, "{c}");
            }
        }
        assert!(atlas.wants(c, FontStyle::Regular));
    }
}

#[test]
fn a_glyph_without_a_picture_is_not_asked_for_again() {
    let mut atlas = FontAtlas::new(metrics());
    atlas.place_blank(' ', FontStyle::Regular);
    atlas.place('x', FontStyle::Regular, None);
    let short = Bitmap { data: vec![0; 3], ..picture(5, 5, 0) };
    atlas.place('y', FontStyle::Regular, Some(&short));
    for c in [' ', 'x', 'y'] {
        assert!(!atlas.wants(c, FontStyle::Regular), "{c}");
        assert_eq!(atlas.get(c, FontStyle::Regular).unwrap().w, 0, "{c}");
    }
    assert!(atlas.dirty_rects.is_empty());
}

#[test]
fn a_full_atlas_leaves_glyphs_blank() {
    let mut atlas = FontAtlas::new(metrics());
    atlas.place('a', FontStyle::Regular, Some(&picture(1000, 1000, 1)));
    atlas.place('b', FontStyle::Regular, Some(&picture(1000, 1000, 2)));
    assert_eq!(atlas.get('a', FontStyle::Regular).unwrap().w, 1000);
    assert_eq!(atlas.get('b', FontStyle::Regular).unwrap().w, 0);
}

#[test]
fn font_files_in_their_order() {
    let files = font_files(Some("/env.ttf"), Some("/conf.ttf"));
    assert_eq!(files[0], "/env.ttf");
    assert!(files.contains(&"/conf.ttf".to_string()));
    assert!(!fallback_files().is_empty());
    let variants = variant_files(None, Some("/b.ttf"), "/f/X-Regular.ttf", FontStyle::Bold);
    assert_eq!(variants[0], "/b.ttf");
    assert!(variant_files(None, None, "/f/X.ttf", FontStyle::Regular).is_empty());
    let found = vec![
        FoundFont { path: "/p".to_string(), canonical: Some("/real".to_string()) },
        FoundFont { path: "/q".to_string(), canonical: Some("/other".to_string()) },
        FoundFont { path: "/r".to_string(), canonical: Some("/other".to_string()) },
    ];
    assert_eq!(distinct_fonts(&found, Some("/real")), ["/q"]);
}

#[test]
fn the_palette_has_a_cube_and_a_ramp() {
    let p = build_palette(&theme());
    assert_eq!(p.len(), 256);
    assert_eq!(p[5], Paint::Srgb(5, 5, 5));
    assert_eq!(p[16], Paint::Srgb(0, 0, 0));
    assert_eq!(p[16 + 36 + 6 * 2 + 5], Paint::Srgb(95, 135, 255));
    assert_eq!(p[231], Paint::Srgb(255, 255, 255));
    assert_eq!(p[232], Paint::Srgb(8, 8, 8));
    assert_eq!(p[255], Paint::Srgb(238, 238, 238));
    assert_eq!(resolve_color(Color::Default, &p, Paint::MatchOther), Paint::MatchOther);
    assert_eq!(resolve_color(Color::Rgb(9, 8, 7), &p, Paint::MatchOther), Paint::Srgb(9, 8, 7));
}

#[test]
fn a_frame_stays_on_the_grid() {
    let t = term(2, 4, "ab漢\x1b[7mx".as_bytes());
    let atlas = FontAtlas::new(metrics());
    let colors = Colors::of_theme(&theme());
    let frame = grid_frame(&t, &atlas, &colors, None, None, 8);
    assert_eq!(frame.len(), 8);
    assert!(frame.iter().all(|c| c.col < 4 && c.row < 2));
    let inverse = frame.iter().find(|c| c.row == 1 && c.col == 0).unwrap();
    assert_eq!((inverse.fg, inverse.bg), (Paint::Srgb(1, 1, 1), Paint::Srgb(2, 2, 2)));
    let halves: Vec<i32> = frame.iter().filter(|c| c.row == 0 && c.col >= 2).map(|c| c.offset_x).collect();
    assert_eq!(halves, [0, -8]);
}

#[test]
fn a_selection_swaps_the_colours() {
    let t = term(1, 2, b"ab");
    let atlas = FontAtlas::new(metrics());
    let colors = Colors::of_theme(&theme());
    let frame = grid_frame(&t, &atlas, &colors, Some(Selection::new((0, 1))), None, 8);
    assert_eq!(frame[0].bg, Paint::Srgb(1, 1, 1));
    assert_eq!(frame[1].bg, Paint::Srgb(2, 2, 2));
}

#[test]
fn search_hits_are_marked() {
    let t = term(2, 4, b"abab");
    let search = Search {
        direction: SearchDirection::Forward,
        query: "ab".to_string(),
        typing: true,
        matches: vec![
            Match { row: 0, col_start: 0, col_end: 1 },
            Match { row: 0, col_start: 2, col_end: 3 },
        ],
        current: Some(1),
        origin_cursor: (0, 0),
        origin_viewport_offset: 0,
    };
    let overlay = search_overlay(&search, &t);
    assert_eq!(overlay.prompt, '/');
    assert_eq!(overlay.matches.len(), 2);
    assert_eq!(overlay.current, Some(1));
    let atlas = FontAtlas::new(metrics());
    let colors = Colors::of_theme(&theme());
    let frame = grid_frame(&t, &atlas, &colors, None, Some(&overlay), 8);
    assert_eq!(frame[0].bg, Paint::MatchOther);
    assert_eq!(frame[2].bg, Paint::MatchCurrent);
    assert_eq!(frame[2].fg, Paint::Srgb(0, 0, 0));
    let bar = search_bar_cells(Some(&overlay), 2, 4, &colors);
    let text: String = bar[4..].iter().map(|c| c.ch).collect();
    assert_eq!(text, "/ab_");
    assert!(search_bar_cells(None, 2, 4, &colors).is_empty());
}

#[test]
fn missing_glyphs_are_listed_until_they_are_placed() {
    let t = term(1, 4, b"a \x1b[1mb");
    let mut atlas = FontAtlas::new(metrics());
    let missing = missing_glyphs(&t, &atlas);
    assert!(missing.contains(&('a', FontStyle::Regular)));
    assert!(missing.contains(&('b', FontStyle::Bold)));
    assert!(missing.iter().all(|m| m.0 != ' '));
    for (ch, style) in missing {
        atlas.place_blank(ch, style);
    }
    assert!(missing_glyphs(&t, &atlas).is_empty());
    let cells = [OverlayCell { ch: 'z', row: 0, col: 0, fg: Paint::MatchOther, bg: Paint::MatchOther }];
    assert_eq!(missing_overlay_glyphs(&cells, &atlas), [('z', FontStyle::Regular)]);
    let mut out = Vec::new();
    push_overlay(&mut out, &cells, &atlas);
    assert_eq!(out.len(), 1);
}

#[test]
fn the_bar_and_the_picker_are_clipped() {
    let (a, b) = (Paint::Srgb(1, 1, 1), Paint::Srgb(2, 2, 2));
    let cells = search_bar('?', "long query", true, 3, 5, a, b);
    assert_eq!(cells.len(), 10);
    assert!(cells.iter().all(|c| c.row == 2 && c.col < 5));
    assert!(search_bar('/', "q", false, 0, 5, a, b).is_empty());
    let lib = ThemeLib::load(vec![theme()], vec![]);
    let colors = PanelColors { fg: a, bg: b, bright_fg: b, bright_bg: a };
    let panel = picker_panel(&mut Picker::new(&lib, "t"), 24, 80, colors);
    assert!(panel.iter().all(|c| c.row < 24 && c.col < 80));
    assert!(panel.iter().any(|c| c.ch == '▶'));
    assert!(picker_panel(&mut Picker::new(&lib, "t"), 24, 4, colors).is_empty());
    assert!(!picker_cells(&mut Picker::new(&lib, "t"), 24, 80, &Colors::of_theme(&theme())).is_empty());
}

#[test]
fn the_cursor_of_a_frame() {
    let t = term(2, 4, b"ab\x1b[6 q");
    let c = frame_cursor(&t, None, false, true);
    assert_eq!(c.cell, (2, 0));
    let hidden = frame_cursor(&t, None, false, false);
    assert!(hidden.cell.0 < 0);
    let vi = frame_cursor(&t, Some((1, 3)), false, true);
    assert_eq!(vi.cell, (3, 1));
    assert!(frame_cursor(&t, None, true, true).cell.0 < 0);
}

#[test]
fn what_changed_is_drawn_again() {
    let mut last = LastFrame::new();
    let atlas = FontAtlas::new(metrics());
    let colors = Colors::of_theme(&theme());
    let g = geometry(2, 4);
    assert!(g.is_wf());
    let mut t = term(2, 4, b"abcd");
    let first = prepare(&mut last, g, &t, &atlas, &colors, &NOTHING);
    assert_eq!(first.damage, [DamageRect { x: 0, y: 0, width: 32, height: 32 }]);
    let same = prepare(&mut last, g, &t, &atlas, &colors, &NOTHING);
    assert_eq!(same.damage, [DamageRect { x: 0, y: 0, width: 1, height: 1 }]);
    t.feed(b"\x1b[1;2H\x1b[42mXY\x1b[1;4H");
    let changed = prepare(&mut last, g, &t, &atlas, &colors, &NOTHING);
    assert_eq!(changed.damage, [DamageRect { x: 8, y: 16, width: 16, height: 16 }]);
    t.feed(b"\x1b[2;1H");
    let moved = prepare(&mut last, g, &t, &atlas, &colors, &NOTHING);
    assert_eq!(
        moved.damage,
        [
            DamageRect { x: 24, y: 16, width: 8, height: 16 },
            DamageRect { x: 0, y: 0, width: 8, height: 16 },
        ]
    );
    assert_eq!(moved.instances.len(), 8);
}

#[test]
fn geometries_that_cannot_be_counted_are_refused() {
    let g = geometry(2, 4);
    assert!(!Geometry { cell_w: 0, ..g }.is_wf());
    assert!(!Geometry { screen_h: -1, ..g }.is_wf());
    assert!(!Geometry { rows: i32::MAX as usize, ..g }.is_wf());
}

#[test]
fn the_chain_decides_by_its_glyphs() {
    assert_eq!(choose_font(&[4, 1, 2], &[0, 9, 7], 'x'), Some(1));
    assert_eq!(choose_font(&[4, 1, 2], &[3, 9, 7], 'x'), Some(4));
    assert_eq!(choose_font(&[4, 1], &[0, 0], 'x'), None);
    assert_eq!(choose_font(&[], &[], 'x'), None);
}

#[test]
fn the_first_picture_has_room_if_the_atlas_is_large_enough() {
    let mut atlas = FontAtlas::new(metrics());
    atlas.place('W', FontStyle::Regular, Some(&picture(900, 900, 7)));
    let e = atlas.get('W', FontStyle::Regular).unwrap();
    assert_eq!((e.w, e.h, e.atlas_x, e.atlas_y), (900, 900, 0, 0));
    let mut small = FontAtlas::new(metrics());
    small.place('W', FontStyle::Regular, Some(&picture(1024, 4, 7)));
    assert_eq!(small.get('W', FontStyle::Regular).unwrap().w, 0);
    assert!(small.dirty_rects.is_empty());
}

#[test]
fn every_cell_is_drawn_in_its_place() {
    let t = term(2, 5, "a漢b\r\n xyz".as_bytes());
    let mut atlas = FontAtlas::new(metrics());
    atlas.place('x', FontStyle::Regular, Some(&picture(5, 7, 200)));
    let x = atlas.get('x', FontStyle::Regular).unwrap();
    let colors = Colors::of_theme(&theme());
    let frame = grid_frame(&t, &atlas, &colors, None, None, 8);
    for row in 0..2usize {
        for (col, cell) in t.grid().lines[row].cells.iter().enumerate() {
            let drawn = frame.iter().any(|c| c.row as usize == row && c.col as usize == col);
            assert!(drawn, "{row} {col} {}", cell.ch);
        }
    }
    let drawn = frame.iter().find(|c| c.row == 1 && c.col == 1).unwrap();
    assert_eq!((drawn.glyph_w, drawn.glyph_h), (x.w as u32, x.h as u32));
}

#[test]
fn a_damaged_character_map_costs_only_the_characters_it_touches() {
    let find = |data: &[u8], ch: char| {
        FontSet::new(data.to_vec()).unwrap().find_glyph(ch, FontStyle::Regular)
    };
    let whole = font(0x41, 0x5a, 10);
    assert!(charmap_sound(&whole, 0, 'C'));
    assert_eq!(find(&whole, 'C'), Some((0, 12)));

    // The header of the map is cut off.
    let short = whole[..whole.len() - 13].to_vec();
    assert!(!charmap_sound(&short, 0, 'C'));
    assert_eq!(find(&short, 'C'), None);

    // Its records are cut off, so that it has none.
    let empty = whole[..whole.len() - 12].to_vec();
    assert!(charmap_sound(&empty, 0, 'C'));
    assert_eq!(find(&empty, 'C'), None);

    // The last of its glyph numbers does not fit.
    let large = font(0x41, 0x5a, u32::MAX - 24);
    assert!(!charmap_sound(&large, 0, 'Z'));
    assert_eq!(find(&large, 'Z'), None);
    assert!(charmap_sound(&large, 0, 'Y'));
    assert_eq!(find(&large, 'Y'), Some((0, 0xffff)));
    assert_eq!(find(&large, 'a'), None);

    // Another font has the character instead.
    let mut set = FontSet::new(large).unwrap();
    assert!(set.add_fallback(whole));
    assert!(set.add_variant(FontStyle::Bold, short));
    assert_eq!(set.find_glyph('Z', FontStyle::Regular), Some((1, 35)));
    assert_eq!(set.find_glyph('Z', FontStyle::Bold), Some((1, 35)));
}

#[test]
fn a_map_for_symbols_has_its_characters_in_two_places() {
    let mut symbols = font(0xf041, 0xf05a, u32::MAX - 24);
    // The encoding, after the directory and the head of the table.
    symbols[35] = 0;
    let set = FontSet::new(symbols.clone()).unwrap();
    assert_eq!(set.find_glyph('Y', FontStyle::Regular), Some((0, 0xffff)));
    assert!(!charmap_sound(&symbols, 0, 'Z'));
    assert!(!charmap_sound(&symbols, 0, '\u{f05a}'));
    assert_eq!(set.find_glyph('Z', FontStyle::Regular), None);
}

#[test]
fn the_atlas_takes_pictures_until_it_is_full() {
    let mut atlas = FontAtlas::new(metrics());
    let dot = picture(1, 1, 9);
    for code in 0x1_0000u32..0x1_0000 + 70_000 {
        atlas.place(char::from_u32(code).unwrap(), FontStyle::Regular, Some(&dot));
    }
    assert_eq!(atlas.dirty_rects.len(), 64_516);
    assert_eq!(atlas.get(char::from_u32(0x2_0000).unwrap(), FontStyle::Regular).unwrap().w, 0);
}

#[test]
fn lines_through_the_text_are_drawn() {
    let t = term(1, 8, "a\x1b[4mb\x1b[9m漢\x1b[24mc\x1b[29md".as_bytes());
    let atlas = FontAtlas::new(metrics());
    let colors = Colors::of_theme(&theme());
    let mut frame = grid_frame(&t, &atlas, &colors, None, None, 8);
    let lines: Vec<(bool, bool)> =
        frame.iter().map(|c| (c.lines.underline, c.lines.strike)).collect();
    assert_eq!(
        lines[..6],
        [(false, false), (true, false), (true, true), (true, true), (false, true), (false, false)]
    );
    let over = OverlayCell { row: 0, col: 1, ch: 'x', fg: colors.default_fg, bg: colors.default_bg };
    push_overlay(&mut frame, &[over], &atlas);
    let last = frame.last().unwrap();
    assert!(!last.lines.underline && !last.lines.strike);

    // A line that appears is a change of its cell.
    let mut last = LastFrame::new();
    let g = geometry(1, 4);
    let plain = term(1, 4, b"ab");
    let _ = prepare(&mut last, g, &plain, &atlas, &colors, &NOTHING);
    let lined = term(1, 4, b"a\x1b[4mb\x1b[m");
    let changed = prepare(&mut last, g, &lined, &atlas, &colors, &NOTHING);
    assert_eq!(changed.damage, [DamageRect { x: 8, y: 0, width: 8, height: 16 }]);
}
