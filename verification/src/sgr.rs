//! Select Graphic Rendition: how a parameter list changes the pen.

use vstd::prelude::*;

use crate::grid::{CellAttrs, Color, Pen};
use crate::vt;

verus! {

/// The effect of a single code other than the two that start an extended
/// colour. Unknown codes change nothing.
pub open spec fn sgr_code(pen: Pen, code: u16) -> Pen {
    if code == 0 {
        Pen::plain()
    } else if code == 1 {
        Pen { attrs: pen.attrs.with(CellAttrs::BOLD, true), ..pen }
    } else if code == 2 {
        Pen { attrs: pen.attrs.with(CellAttrs::DIM, true), ..pen }
    } else if code == 3 {
        Pen { attrs: pen.attrs.with(CellAttrs::ITALIC, true), ..pen }
    } else if code == 4 {
        Pen { attrs: pen.attrs.with(CellAttrs::UNDERLINE, true), ..pen }
    } else if code == 5 {
        Pen { attrs: pen.attrs.with(CellAttrs::BLINK, true), ..pen }
    } else if code == 7 {
        Pen { attrs: pen.attrs.with(CellAttrs::INVERSE, true), ..pen }
    } else if code == 9 {
        Pen { attrs: pen.attrs.with(CellAttrs::STRIKE, true), ..pen }
    } else if code == 22 {
        Pen {
            attrs: pen.attrs.with(CellAttrs::BOLD, false).with(CellAttrs::DIM, false),
            ..pen
        }
    } else if code == 23 {
        Pen { attrs: pen.attrs.with(CellAttrs::ITALIC, false), ..pen }
    } else if code == 24 {
        Pen { attrs: pen.attrs.with(CellAttrs::UNDERLINE, false), ..pen }
    } else if code == 25 {
        Pen { attrs: pen.attrs.with(CellAttrs::BLINK, false), ..pen }
    } else if code == 27 {
        Pen { attrs: pen.attrs.with(CellAttrs::INVERSE, false), ..pen }
    } else if code == 29 {
        Pen { attrs: pen.attrs.with(CellAttrs::STRIKE, false), ..pen }
    } else if 30 <= code <= 37 {
        Pen { fg: Color::Indexed((code - 30) as u8), ..pen }
    } else if code == 39 {
        Pen { fg: Color::Default, ..pen }
    } else if 40 <= code <= 47 {
        Pen { bg: Color::Indexed((code - 40) as u8), ..pen }
    } else if code == 49 {
        Pen { bg: Color::Default, ..pen }
    } else if 90 <= code <= 97 {
        Pen { fg: Color::Indexed((code - 90 + 8) as u8), ..pen }
    } else if 100 <= code <= 107 {
        Pen { bg: Color::Indexed((code - 100 + 8) as u8), ..pen }
    } else {
        pen
    }
}

/// The pen with the colour that code 38 or 48 selects.
pub open spec fn with_color(pen: Pen, code: u16, color: Option<Color>) -> Pen {
    match color {
        Some(c) => if code == 38 {
            Pen { fg: c, ..pen }
        } else if code == 48 {
            Pen { bg: c, ..pen }
        } else {
            pen
        },
        None => pen,
    }
}

/// The value of the parameter at `i`, if it is there.
pub open spec fn value_at(params: Seq<Seq<u16>>, i: int) -> Option<u16> {
    if 0 <= i < params.len() && params[i].len() > 0 {
        Some(params[i][0])
    } else {
        None
    }
}

/// The colour that the parameters from `i` on spell out: `5;n` for a palette
/// entry, `2;r;g;b` for a direct colour.
pub open spec fn extended_color(params: Seq<Seq<u16>>, i: int) -> Option<Color> {
    match value_at(params, i) {
        Some(5) => match value_at(params, i + 1) {
            Some(n) => Some(Color::Indexed(n as u8)),
            None => None,
        },
        Some(2) => match (
            value_at(params, i + 1),
            value_at(params, i + 2),
            value_at(params, i + 3),
        ) {
            (Some(r), Some(g), Some(b)) => Some(Color::Rgb(r as u8, g as u8, b as u8)),
            _ => None,
        },
        _ => None,
    }
}

/// Where reading goes on after an extended colour at `i`. A parameter that
/// breaks the form off is itself used up.
pub open spec fn after_extended(params: Seq<Seq<u16>>, i: int) -> int {
    match value_at(params, i) {
        Some(5) => i + 2,
        Some(2) => if value_at(params, i + 1) is None {
            i + 2
        } else if value_at(params, i + 2) is None {
            i + 3
        } else {
            i + 4
        },
        _ => i + 1,
    }
}

/// The colour packed into one parameter as subparameters: `38:5:n`,
/// `38:2:r:g:b`, or `38:2:space:r:g:b`.
pub open spec fn packed_color(sub: Seq<u16>) -> Option<Color> {
    if sub.len() > 2 && sub[1] == 5 {
        Some(Color::Indexed(sub[2] as u8))
    } else if sub.len() >= 6 && sub[1] == 2 {
        Some(Color::Rgb(sub[3] as u8, sub[4] as u8, sub[5] as u8))
    } else if sub.len() == 5 && sub[1] == 2 {
        Some(Color::Rgb(sub[2] as u8, sub[3] as u8, sub[4] as u8))
    } else {
        None
    }
}

/// The pen after the parameters from `i` on.
pub open spec fn sgr_from(pen: Pen, params: Seq<Seq<u16>>, i: int) -> Pen
    decreases
            (if i < params.len() {
                params.len() - i
            } else {
                0
            }),
{
    if i < 0 || i >= params.len() {
        pen
    } else if params[i].len() != 1 {
        let code = if params[i].len() > 0 {
            params[i][0]
        } else {
            0
        };
        sgr_from(with_color(pen, code, packed_color(params[i])), params, i + 1)
    } else if params[i][0] == 38 || params[i][0] == 48 {
        sgr_from(
            with_color(pen, params[i][0], extended_color(params, i + 1)),
            params,
            after_extended(params, i + 1),
        )
    } else {
        sgr_from(sgr_code(pen, params[i][0]), params, i + 1)
    }
}

/// The pen after a whole parameter list. An empty list resets it.
pub open spec fn sgr(pen: Pen, params: Seq<Seq<u16>>) -> Pen {
    if params.len() == 0 {
        Pen::plain()
    } else {
        sgr_from(pen, params, 0)
    }
}

/// Applies a single code.
fn apply_code(pen: Pen, code: u16) -> (after: Pen)
    ensures
        after == sgr_code(pen, code),
{
    let mut pen = pen;
    if code == 0 {
        pen = Pen::default();
    } else if code == 1 {
        pen.attrs.set(CellAttrs::BOLD, true);
    } else if code == 2 {
        pen.attrs.set(CellAttrs::DIM, true);
    } else if code == 3 {
        pen.attrs.set(CellAttrs::ITALIC, true);
    } else if code == 4 {
        pen.attrs.set(CellAttrs::UNDERLINE, true);
    } else if code == 5 {
        pen.attrs.set(CellAttrs::BLINK, true);
    } else if code == 7 {
        pen.attrs.set(CellAttrs::INVERSE, true);
    } else if code == 9 {
        pen.attrs.set(CellAttrs::STRIKE, true);
    } else if code == 22 {
        pen.attrs.set(CellAttrs::BOLD, false);
        pen.attrs.set(CellAttrs::DIM, false);
    } else if code == 23 {
        pen.attrs.set(CellAttrs::ITALIC, false);
    } else if code == 24 {
        pen.attrs.set(CellAttrs::UNDERLINE, false);
    } else if code == 25 {
        pen.attrs.set(CellAttrs::BLINK, false);
    } else if code == 27 {
        pen.attrs.set(CellAttrs::INVERSE, false);
    } else if code == 29 {
        pen.attrs.set(CellAttrs::STRIKE, false);
    } else if 30 <= code && code <= 37 {
        pen.fg = Color::Indexed((code - 30) as u8);
    } else if code == 39 {
        pen.fg = Color::Default;
    } else if 40 <= code && code <= 47 {
        pen.bg = Color::Indexed((code - 40) as u8);
    } else if code == 49 {
        pen.bg = Color::Default;
    } else if 90 <= code && code <= 97 {
        pen.fg = Color::Indexed((code - 90 + 8) as u8);
    } else if 100 <= code && code <= 107 {
        pen.bg = Color::Indexed((code - 100 + 8) as u8);
    }
    pen
}

fn set_color(pen: Pen, code: u16, color: Option<Color>) -> (after: Pen)
    ensures
        after == with_color(pen, code, color),
{
    let mut pen = pen;
    if let Some(c) = color {
        if code == 38 {
            pen.fg = c;
        } else if code == 48 {
            pen.bg = c;
        }
    }
    pen
}

/// The value of the parameter `k` places after `i`, if it is there.
fn value(params: &[Vec<u16>], i: usize, k: usize) -> (v: Option<u16>)
    requires
        i <= params@.len(),
    ensures
        v == value_at(vt::lists(params@), i + k),
{
    if k < params.len() - i && params[i + k].len() > 0 {
        Some(params[i + k][0])
    } else {
        None
    }
}

/// `k` places after `i`, at most the end of the list.
fn ahead(params: &[Vec<u16>], i: usize, k: usize) -> (j: usize)
    requires
        i <= params@.len(),
    ensures
        j <= params@.len(),
        j == i + k || (j == params@.len() && i + k > params@.len()),
{
    if k < params.len() - i {
        i + k
    } else {
        params.len()
    }
}

/// Reads an extended colour at `i`; also returns where reading goes on.
fn read_extended_color(params: &[Vec<u16>], i: usize) -> (read: (Option<Color>, usize))
    requires
        i <= params@.len(),
    ensures
        read.0 == extended_color(vt::lists(params@), i as int),
        i <= read.1 <= params@.len(),
        ({
            let next = after_extended(vt::lists(params@), i as int);
            read.1 == next || (read.1 == params@.len() && next > params@.len())
        }),
{
    match value(params, i, 0) {
        Some(mode) => {
            if mode == 5 {
                let next: usize = ahead(params, i, 2);
                match value(params, i, 1) {
                    Some(n) => (Some(Color::Indexed(#[verifier::truncate] (n as u8))), next),
                    None => (None, next),
                }
            } else if mode == 2 {
                match value(params, i, 1) {
                    Some(r) => match value(params, i, 2) {
                        Some(g) => {
                            let next: usize = ahead(params, i, 4);
                            match value(params, i, 3) {
                                Some(b) => (
                                    Some(
                                        Color::Rgb(
                                            #[verifier::truncate] (r as u8),
                                            #[verifier::truncate] (g as u8),
                                            #[verifier::truncate] (b as u8),
                                        ),
                                    ),
                                    next,
                                ),
                                None => (None, next),
                            }
                        },
                        None => (None, ahead(params, i, 3)),
                    },
                    None => (None, ahead(params, i, 2)),
                }
            } else {
                (None, ahead(params, i, 1))
            }
        },
        None => (None, ahead(params, i, 1)),
    }
}

/// Reads a colour packed into the subparameters of one parameter.
fn parse_extended_color_subparams(sub: &[u16]) -> (color: Option<Color>)
    ensures
        color == packed_color(sub@),
{
    let n: usize = sub.len();
    if n > 2 && sub[1] == 5 {
        Some(Color::Indexed(#[verifier::truncate] (sub[2] as u8)))
    } else if n >= 6 && sub[1] == 2 {
        Some(
            Color::Rgb(
                #[verifier::truncate] (sub[3] as u8),
                #[verifier::truncate] (sub[4] as u8),
                #[verifier::truncate] (sub[5] as u8),
            ),
        )
    } else if n == 5 && sub[1] == 2 {
        Some(
            Color::Rgb(
                #[verifier::truncate] (sub[2] as u8),
                #[verifier::truncate] (sub[3] as u8),
                #[verifier::truncate] (sub[4] as u8),
            ),
        )
    } else {
        None
    }
}

/// Applies a parameter list to a pen.
pub fn apply_sgr(pen: Pen, params: &[Vec<u16>]) -> (after: Pen)
    ensures
        after == sgr(pen, vt::lists(params@)),
{
    if params.len() == 0 {
        return Pen::default();
    }
    let ghost all = vt::lists(params@);
    let mut after = pen;
    let mut i: usize = 0;
    while i < params.len()
        invariant
            all == vt::lists(params@),
            i <= params@.len(),
            sgr_from(after, all, i as int) == sgr_from(pen, all, 0),
        decreases params@.len() - i,
    {
        let sub = &params[i];
        if sub.len() != 1 {
            let code: u16 = if sub.len() > 0 {
                sub[0]
            } else {
                0
            };
            after = set_color(after, code, parse_extended_color_subparams(sub.as_slice()));
            i += 1;
        } else {
            let code: u16 = sub[0];
            if code == 38 || code == 48 {
                let (color, next) = read_extended_color(params, i + 1);
                after = set_color(after, code, color);
                assert(sgr_from(after, all, after_extended(all, i + 1)) == sgr_from(
                    after,
                    all,
                    next as int,
                ));
                i = next;
            } else {
                after = apply_code(after, code);
                i += 1;
            }
        }
    }
    after
}

/// A reset forgets everything that was set before it.
pub proof fn law_reset_forgets(a: Pen, b: Pen, params: Seq<Seq<u16>>)
    requires
        params.len() == 0 || params[0] == seq![0u16],
    ensures
        sgr(a, params) == sgr(b, params),
        params.len() <= 1 ==> sgr(a, params) == Pen::plain(),
{
    if params.len() > 0 {
        assert(sgr_from(a, params, 0) == sgr_from(Pen::plain(), params, 1));
        assert(sgr_from(b, params, 0) == sgr_from(Pen::plain(), params, 1));
    }
}

/// The pen after one code.
pub open spec fn after_code(pen: Pen, code: u16) -> Pen {
    sgr(pen, seq![seq![code]])
}

/// The pen after one code that is no colour to come.
proof fn lemma_after_code(pen: Pen, code: u16)
    requires
        code != 38,
        code != 48,
    ensures
        after_code(pen, code) == sgr_code(pen, code),
{
    let params = seq![seq![code]];
    assert(params[0] == seq![code]);
    assert(params[0].len() == 1 && params[0][0] == code);
    assert(sgr_from(pen, params, 0) == sgr_from(sgr_code(pen, code), params, 1));
}

/// Two sets of attributes differ at most in one.
pub open spec fn same_but(a: CellAttrs, b: CellAttrs, bit: u16) -> bool {
    a.0 | bit == b.0 | bit
}

proof fn lemma_one_bit(a: u16, bit: u16)
    requires
        bit == 1 || bit == 2 || bit == 4 || bit == 8 || bit == 0x10 || bit == 0x20 || bit == 0x40,
    ensures
        (a | bit) & bit != 0,
        (a | bit) | bit == a | bit,
        (a & !bit) & bit == 0,
        (a & !bit) | bit == a | bit,
{
    assert((a | bit) & bit != 0 && (a | bit) | bit == a | bit && (a & !bit) & bit == 0 && (a
        & !bit) | bit == a | bit) by (bit_vector)
        requires
            bit == 1 || bit == 2 || bit == 4 || bit == 8 || bit == 0x10 || bit == 0x20 || bit == 0x40,
    ;
}

/// Codes 1, 2, 3, 4, 5, 7 and 9 switch on bold, dim, italic, underline, blink,
/// inverse and strikethrough, each of them alone: colours and other attributes
/// stay.
pub proof fn law_attributes_are_switched_on(pen: Pen)
    ensures
        ({
            let on = |code: u16, bit: u16|
                {
                    let after = after_code(pen, code);
                    &&& after.fg == pen.fg && after.bg == pen.bg
                    &&& after.attrs.0 & bit != 0
                    &&& same_but(after.attrs, pen.attrs, bit)
                };
            &&& on(1, 0x01) && on(2, 0x02) && on(3, 0x04) && on(4, 0x08)
            &&& on(5, 0x40) && on(7, 0x10) && on(9, 0x20)
        }),
{
    lemma_after_code(pen, 1);
    lemma_after_code(pen, 2);
    lemma_after_code(pen, 3);
    lemma_after_code(pen, 4);
    lemma_after_code(pen, 5);
    lemma_after_code(pen, 7);
    lemma_after_code(pen, 9);
    lemma_one_bit(pen.attrs.0, 0x01);
    lemma_one_bit(pen.attrs.0, 0x02);
    lemma_one_bit(pen.attrs.0, 0x04);
    lemma_one_bit(pen.attrs.0, 0x08);
    lemma_one_bit(pen.attrs.0, 0x10);
    lemma_one_bit(pen.attrs.0, 0x20);
    lemma_one_bit(pen.attrs.0, 0x40);
}

/// Codes 23, 24, 25, 27 and 29 switch off italic, underline, blink, inverse and
/// strikethrough, each of them alone, and 22 switches off bold and dim.
pub proof fn law_attributes_are_switched_off(pen: Pen)
    ensures
        ({
            let off = |code: u16, bit: u16|
                {
                    let after = after_code(pen, code);
                    &&& after.fg == pen.fg && after.bg == pen.bg
                    &&& after.attrs.0 & bit == 0
                    &&& same_but(after.attrs, pen.attrs, bit)
                };
            &&& off(22, 0x03) && off(23, 0x04) && off(24, 0x08)
            &&& off(25, 0x40) && off(27, 0x10) && off(29, 0x20)
        }),
{
    lemma_after_code(pen, 22);
    lemma_after_code(pen, 23);
    lemma_after_code(pen, 24);
    lemma_after_code(pen, 25);
    lemma_after_code(pen, 27);
    lemma_after_code(pen, 29);
    lemma_one_bit(pen.attrs.0, 0x04);
    lemma_one_bit(pen.attrs.0, 0x08);
    lemma_one_bit(pen.attrs.0, 0x10);
    lemma_one_bit(pen.attrs.0, 0x20);
    lemma_one_bit(pen.attrs.0, 0x40);
    let a = pen.attrs.0;
    assert(((a & !1u16) & !2u16) & 3u16 == 0 && ((a & !1u16) & !2u16) | 3u16 == a | 3u16)
        by (bit_vector);
}

/// Codes 30 to 37 and 90 to 97 make the first eight and the next eight colours of
/// the palette the colour of text; 40 to 47 and 100 to 107 that of the background.
/// 39 and 49 bring back the default of either. Nothing else changes.
pub proof fn law_basic_colors(pen: Pen, k: u16)
    requires
        k < 8,
    ensures
        after_code(pen, (30 + k) as u16) == (Pen { fg: Color::Indexed(k as u8), ..pen }),
        after_code(pen, (40 + k) as u16) == (Pen { bg: Color::Indexed(k as u8), ..pen }),
        after_code(pen, (90 + k) as u16) == (Pen { fg: Color::Indexed((8 + k) as u8), ..pen }),
        after_code(pen, (100 + k) as u16) == (Pen { bg: Color::Indexed((8 + k) as u8), ..pen }),
        after_code(pen, 39) == (Pen { fg: Color::Default, ..pen }),
        after_code(pen, 49) == (Pen { bg: Color::Default, ..pen }),
{
    lemma_after_code(pen, (30 + k) as u16);
    lemma_after_code(pen, (40 + k) as u16);
    lemma_after_code(pen, (90 + k) as u16);
    lemma_after_code(pen, (100 + k) as u16);
    lemma_after_code(pen, 39);
    lemma_after_code(pen, 49);
}

/// `38;5;n` makes a palette entry the colour of text and `38;2;r;g;b` a colour of its
/// own, also written with colons; 48 does the same for the background. Nothing
/// else changes.
pub proof fn law_extended_colors(pen: Pen, n: u16, r: u16, g: u16, b: u16, space: u16)
    requires
        n <= 255,
        r <= 255,
        g <= 255,
        b <= 255,
    ensures
        ({
            let indexed = Color::Indexed(n as u8);
            let direct = Color::Rgb(r as u8, g as u8, b as u8);
            let fg = |params: Seq<Seq<u16>>, color: Color|
                sgr(pen, params) == (Pen { fg: color, ..pen });
            let bg = |params: Seq<Seq<u16>>, color: Color|
                sgr(pen, params) == (Pen { bg: color, ..pen });
            &&& fg(seq![seq![38u16], seq![5u16], seq![n]], indexed)
            &&& bg(seq![seq![48u16], seq![5u16], seq![n]], indexed)
            &&& fg(seq![seq![38u16], seq![2u16], seq![r], seq![g], seq![b]], direct)
            &&& bg(seq![seq![48u16], seq![2u16], seq![r], seq![g], seq![b]], direct)
            &&& fg(seq![seq![38u16, 5, n]], indexed)
            &&& bg(seq![seq![48u16, 5, n]], indexed)
            &&& fg(seq![seq![38u16, 2, r, g, b]], direct)
            &&& bg(seq![seq![48u16, 2, r, g, b]], direct)
            &&& fg(seq![seq![38u16, 2, space, r, g, b]], direct)
            &&& bg(seq![seq![48u16, 2, space, r, g, b]], direct)
        }),
{
    lemma_extended(pen, 38, n, r, g, b, space);
    lemma_extended(pen, 48, n, r, g, b, space);
}

proof fn lemma_extended(pen: Pen, code: u16, n: u16, r: u16, g: u16, b: u16, space: u16)
    requires
        code == 38 || code == 48,
    ensures
        ({
            let indexed = Some(Color::Indexed(n as u8));
            let direct = Some(Color::Rgb(r as u8, g as u8, b as u8));
            &&& sgr(pen, seq![seq![code], seq![5u16], seq![n]]) == with_color(pen, code, indexed)
            &&& sgr(pen, seq![seq![code], seq![2u16], seq![r], seq![g], seq![b]]) == with_color(
                pen,
                code,
                direct,
            )
            &&& sgr(pen, seq![seq![code, 5, n]]) == with_color(pen, code, indexed)
            &&& sgr(pen, seq![seq![code, 2, r, g, b]]) == with_color(pen, code, direct)
            &&& sgr(pen, seq![seq![code, 2, space, r, g, b]]) == with_color(pen, code, direct)
        }),
{
    let five = seq![seq![code], seq![5u16], seq![n]];
    assert(five[0] =~= seq![code] && five[1] =~= seq![5u16] && five[2] =~= seq![n]);
    assert(extended_color(five, 1) == Some(Color::Indexed(n as u8)));
    assert(after_extended(five, 1) == 3);
    assert(sgr_from(pen, five, 0) == sgr_from(
        with_color(pen, code, Some(Color::Indexed(n as u8))),
        five,
        3,
    ));
    let two = seq![seq![code], seq![2u16], seq![r], seq![g], seq![b]];
    assert(two[0] =~= seq![code] && two[1] =~= seq![2u16] && two[2] =~= seq![r]);
    assert(two[3] =~= seq![g] && two[4] =~= seq![b]);
    assert(extended_color(two, 1) == Some(Color::Rgb(r as u8, g as u8, b as u8)));
    assert(after_extended(two, 1) == 5);
    assert(sgr_from(pen, two, 0) == sgr_from(
        with_color(pen, code, Some(Color::Rgb(r as u8, g as u8, b as u8))),
        two,
        5,
    ));
    lemma_packed(pen, seq![code, 5, n]);
    lemma_packed(pen, seq![code, 2, r, g, b]);
    lemma_packed(pen, seq![code, 2, space, r, g, b]);
}

proof fn lemma_packed(pen: Pen, sub: Seq<u16>)
    requires
        sub.len() > 1,
    ensures
        sgr(pen, seq![sub]) == with_color(pen, sub[0], packed_color(sub)),
{
    let params = seq![sub];
    assert(params[0] == sub);
    assert(sgr_from(pen, params, 0) == sgr_from(
        with_color(pen, sub[0], packed_color(sub)),
        params,
        1,
    ));
}

/// Codes are applied in the order in which they come: a code that is no colour to
/// come, and a list after it, is the code and then the list.
pub proof fn law_codes_are_applied_in_order(pen: Pen, code: u16, rest: Seq<Seq<u16>>)
    requires
        code != 38,
        code != 48,
        rest.len() > 0,
    ensures
        sgr(pen, seq![seq![code]] + rest) == sgr(after_code(pen, code), rest),
{
    lemma_after_code(pen, code);
    let params = seq![seq![code]] + rest;
    assert(params[0] == seq![code]);
    assert(params[0].len() == 1 && params[0][0] == code);
    assert(sgr_from(pen, params, 0) == sgr_from(sgr_code(pen, code), params, 1));
    lemma_shifted(sgr_code(pen, code), seq![seq![code]], rest, 0);
}

/// Reading a list begins anew wherever it begins.
proof fn lemma_shifted(pen: Pen, first: Seq<Seq<u16>>, rest: Seq<Seq<u16>>, i: int)
    requires
        0 <= i,
    ensures
        sgr_from(pen, first + rest, first.len() + i) == sgr_from(pen, rest, i),
    decreases
            (if i < rest.len() {
                rest.len() - i
            } else {
                0
            }),
{
    let all = first + rest;
    let n = first.len();
    if i < rest.len() {
        assert(all[n + i] == rest[i]);
        assert forall|k: int| i <= k implies #[trigger] value_at(all, n + k) == value_at(rest, k) by {
            if k < rest.len() {
                assert(all[n + k] == rest[k]);
            }
        }
        if rest[i].len() != 1 {
            let code = if rest[i].len() > 0 {
                rest[i][0]
            } else {
                0
            };
            lemma_shifted(with_color(pen, code, packed_color(rest[i])), first, rest, i + 1);
        } else if rest[i][0] == 38 || rest[i][0] == 48 {
            assert(value_at(all, n + (i + 1)) == value_at(rest, i + 1));
            assert(value_at(all, n + (i + 2)) == value_at(rest, i + 2));
            assert(value_at(all, n + (i + 3)) == value_at(rest, i + 3));
            assert(value_at(all, n + (i + 4)) == value_at(rest, i + 4));
            assert(extended_color(all, n + i + 1) == extended_color(rest, i + 1));
            assert(after_extended(all, n + i + 1) == n + after_extended(rest, i + 1));
            lemma_shifted(
                with_color(pen, rest[i][0], extended_color(rest, i + 1)),
                first,
                rest,
                after_extended(rest, i + 1),
            );
        } else {
            lemma_shifted(sgr_code(pen, rest[i][0]), first, rest, i + 1);
        }
    }
}

/// A code that means nothing changes nothing, and neither does a colour to come
/// that does not come. An empty list, and code 0, bring back default colours
/// without attributes.
pub proof fn law_unknown_codes_and_reset(pen: Pen, code: u16)
    requires
        code == 6 || code == 8 || 10 <= code <= 21 || code == 26 || code == 28 || code == 38 || code
            == 48 || 50 <= code <= 89 || code == 98 || code == 99 || code > 107,
    ensures
        after_code(pen, code) == pen,
        after_code(pen, 0) == (Pen {
            fg: Color::Default,
            bg: Color::Default,
            attrs: CellAttrs(0),
        }),
        sgr(pen, Seq::empty()) == after_code(pen, 0),
{
    lemma_after_code(pen, 0);
    if code != 38 && code != 48 {
        lemma_after_code(pen, code);
    } else {
        let params = seq![seq![code]];
        assert(params[0] == seq![code]);
        assert(params[0].len() == 1 && params[0][0] == code);
        assert(sgr_from(pen, params, 0) == sgr_from(
            with_color(pen, code, extended_color(params, 1)),
            params,
            after_extended(params, 1),
        ));
    }
}

/// A colour packed into one parameter may have more after it. With a colour space in
/// front the numbers come one later. A form that is no colour, and any other code, does
/// nothing.
pub proof fn law_packed_colors(pen: Pen, sub: Seq<u16>)
    requires
        sub.len() > 1,
        forall|i: int| 2 <= i < sub.len() ==> #[trigger] sub[i] <= 255,
    ensures
        ({
            let after = sgr(pen, seq![sub]);
            let chosen = |color: Color|
                if sub[0] == 38 {
                    after == (Pen { fg: color, ..pen })
                } else {
                    after == (Pen { bg: color, ..pen })
                };
            let known = sub[0] == 38 || sub[0] == 48;
            &&& !known ==> after == pen
            &&& known && sub.len() >= 3 && sub[1] == 5 ==> chosen(Color::Indexed(sub[2] as u8))
            &&& known && sub.len() == 5 && sub[1] == 2 ==> chosen(
                Color::Rgb(sub[2] as u8, sub[3] as u8, sub[4] as u8),
            )
            &&& known && sub.len() >= 6 && sub[1] == 2 ==> chosen(
                Color::Rgb(sub[3] as u8, sub[4] as u8, sub[5] as u8),
            )
            &&& sub[1] != 2 && sub[1] != 5 ==> after == pen
            &&& sub[1] == 2 && sub.len() < 5 ==> after == pen
            &&& sub[1] == 5 && sub.len() < 3 ==> after == pen
        }),
{
    lemma_packed(pen, sub);
}

/// What follows a colour in a list of codes is read as if it stood alone. After 38 and
/// 48 a number other than 2 and 5 is passed over, and a colour that breaks off at the end
/// of the list does nothing.
pub proof fn law_codes_after_a_color(
    pen: Pen,
    code: u16,
    n: u16,
    r: u16,
    g: u16,
    b: u16,
    rest: Seq<Seq<u16>>,
)
    requires
        code == 38 || code == 48,
        rest.len() > 0,
    ensures
        ({
            let five = seq![seq![code], seq![5u16], seq![n]];
            let two = seq![seq![code], seq![2u16], seq![r], seq![g], seq![b]];
            let other = seq![seq![code], seq![n]];
            &&& sgr(pen, five + rest) == sgr(sgr(pen, five), rest)
            &&& sgr(pen, two + rest) == sgr(sgr(pen, two), rest)
            &&& n != 2 && n != 5 ==> sgr(pen, other) == pen && sgr(pen, other + rest) == sgr(
                pen,
                rest,
            )
            &&& sgr(pen, seq![seq![code], seq![5u16]]) == pen
            &&& sgr(pen, seq![seq![code], seq![2u16], seq![r], seq![g]]) == pen
        }),
{
    lemma_extended(pen, code, n, r, g, b, 0);
    let indexed = with_color(pen, code, Some(Color::Indexed(n as u8)));
    let direct = with_color(pen, code, Some(Color::Rgb(r as u8, g as u8, b as u8)));
    let five = seq![seq![code], seq![5u16], seq![n]];
    let more = five + rest;
    assert(more[0] =~= seq![code] && more[1] =~= seq![5u16] && more[2] =~= seq![n]);
    assert(extended_color(more, 1) == Some(Color::Indexed(n as u8)));
    assert(after_extended(more, 1) == 3);
    assert(sgr_from(pen, more, 0) == sgr_from(indexed, more, 3));
    lemma_shifted(indexed, five, rest, 0);
    let two = seq![seq![code], seq![2u16], seq![r], seq![g], seq![b]];
    let long = two + rest;
    assert(long[0] =~= seq![code] && long[1] =~= seq![2u16] && long[2] =~= seq![r]);
    assert(long[3] =~= seq![g] && long[4] =~= seq![b]);
    assert(extended_color(long, 1) == Some(Color::Rgb(r as u8, g as u8, b as u8)));
    assert(after_extended(long, 1) == 5);
    assert(sgr_from(pen, long, 0) == sgr_from(direct, long, 5));
    lemma_shifted(direct, two, rest, 0);
    if n != 2 && n != 5 {
        let other = seq![seq![code], seq![n]];
        assert(other[0] =~= seq![code] && other[1] =~= seq![n]);
        assert(extended_color(other, 1) is None && after_extended(other, 1) == 2);
        assert(sgr_from(pen, other, 0) == sgr_from(pen, other, 2));
        let longer = other + rest;
        assert(longer[0] =~= seq![code] && longer[1] =~= seq![n]);
        assert(extended_color(longer, 1) is None && after_extended(longer, 1) == 2);
        assert(sgr_from(pen, longer, 0) == sgr_from(pen, longer, 2));
        lemma_shifted(pen, other, rest, 0);
    }
    let short = seq![seq![code], seq![5u16]];
    assert(short[0] =~= seq![code] && short[1] =~= seq![5u16]);
    assert(extended_color(short, 1) is None);
    assert(sgr_from(pen, short, 0) == sgr_from(pen, short, 3));
    let broken = seq![seq![code], seq![2u16], seq![r], seq![g]];
    assert(broken[0] =~= seq![code] && broken[1] =~= seq![2u16]);
    assert(broken[2] =~= seq![r] && broken[3] =~= seq![g]);
    assert(extended_color(broken, 1) is None && after_extended(broken, 1) == 5);
    assert(sgr_from(pen, broken, 0) == sgr_from(pen, broken, 5));
}

} // verus!
