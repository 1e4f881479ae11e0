//! What holds of the helpers for text.

use vstd::prelude::*;

use crate::text;

verus! {

/// The number that decimal digits spell.
pub open spec fn value_of(digits: Seq<u8>) -> int
    decreases digits.len(),
{
    if digits.len() == 0 {
        0
    } else {
        value_of(digits.drop_last()) * 10 + (digits.last() - 0x30)
    }
}

/// A number is written in digits that spell it, without a zero in front.
pub proof fn law_decimal_spells_the_number(n: nat, i: int)
    ensures
        value_of(text::decimal(n)) == n,
        text::decimal(n).len() > 0,
        0 <= i < text::decimal(n).len() ==> 0x30 <= text::decimal(n)[i] <= 0x39,
        text::decimal(n).len() > 1 ==> text::decimal(n)[0] != 0x30,
        n > 0 ==> text::decimal(n)[0] != 0x30,
        text::decimal_chars(n).len() == text::decimal(n).len(),
        0 <= i < text::decimal(n).len() ==> text::decimal_chars(n)[i] as u32
            == text::decimal(n)[i] as u32,
    decreases n,
{
    if n < 10 {
        assert(text::decimal(n).drop_last() =~= Seq::<u8>::empty());
        assert(value_of(Seq::<u8>::empty()) == 0);
    } else {
        law_decimal_spells_the_number(n / 10, i);
        assert(text::decimal(n).drop_last() =~= text::decimal(n / 10));
    }
}

/// A byte is written as two hexadecimal digits in lower case, the high one first.
pub proof fn law_hex_spells_the_byte(b: u8, i: int)
    requires
        0 <= i < 2,
    ensures
        ({
            let digits = text::hex(b);
            let value = |d: u8|
                if d <= 0x39 {
                    d - 0x30
                } else {
                    d - 0x61 + 10
                };
            &&& digits.len() == 2
            &&& 0x30 <= digits[i] <= 0x39 || 0x61 <= digits[i] <= 0x66
            &&& value(digits[0]) * 16 + value(digits[1]) == b
        }),
{
}

/// A text without the white space at its end: the rest is white space, and what is
/// left does not end with any.
pub proof fn law_end_is_trimmed(s: Seq<char>, i: int)
    ensures
        ({
            let kept = text::trim_end(s);
            &&& kept.len() <= s.len()
            &&& kept == s.take(kept.len() as int)
            &&& kept.len() > 0 ==> !text::white_space(kept.last())
            &&& kept.len() <= i < s.len() ==> text::white_space(s[i])
        }),
    decreases s.len(),
{
    if s.len() > 0 && text::white_space(s.last()) {
        law_end_is_trimmed(s.drop_last(), i);
        let kept = text::trim_end(s);
        assert(kept =~= s.take(kept.len() as int));
    } else {
        assert(s.take(s.len() as int) =~= s);
    }
}

/// A text without the white space around it neither begins nor ends with any, and
/// stands in the text between white space.
pub proof fn law_both_ends_are_trimmed(s: Seq<char>, i: int)
    ensures
        ({
            let kept = text::trim(s);
            let from = s.len() - text::trim_start(s).len();
            &&& 0 <= from && from + kept.len() <= s.len()
            &&& kept == s.subrange(from, from + kept.len())
            &&& kept.len() > 0 ==> !text::white_space(kept[0]) && !text::white_space(kept.last())
            &&& 0 <= i < from || from + kept.len() <= i < s.len() ==> text::white_space(s[i])
        }),
{
    lemma_start_is_trimmed(s, i);
    let rest = text::trim_start(s);
    let from = s.len() - rest.len();
    law_end_is_trimmed(rest, i - from);
    let kept = text::trim(s);
    assert(kept =~= s.subrange(from, from + kept.len()));
    if kept.len() > 0 {
        assert(kept[0] == rest[0]);
    }
}

proof fn lemma_start_is_trimmed(s: Seq<char>, i: int)
    ensures
        ({
            let rest = text::trim_start(s);
            &&& rest.len() <= s.len()
            &&& rest == s.skip(s.len() - rest.len())
            &&& rest.len() > 0 ==> !text::white_space(rest[0])
            &&& 0 <= i < s.len() - rest.len() ==> text::white_space(s[i])
        }),
    decreases s.len(),
{
    if s.len() > 0 && text::white_space(s[0]) {
        lemma_start_is_trimmed(s.skip(1), i - 1);
        let rest = text::trim_start(s);
        assert(rest =~= s.skip(s.len() - rest.len()));
    } else {
        assert(s.skip(0) =~= s);
    }
}

/// The white space of Unicode, and nothing else, is white space.
pub proof fn law_white_space(c: char)
    ensures
        ({
            let u = c as u32;
            let controls = u == 9 || u == 10 || u == 11 || u == 12 || u == 13 || u == 0x85;
            let spaces = u == 0x20 || u == 0xa0 || u == 0x1680 || (0x2000 <= u && u <= 0x200a) || u
                == 0x202f || u == 0x205f || u == 0x3000;
            let separators = u == 0x2028 || u == 0x2029;
            text::white_space(c) == (controls || spaces || separators)
        }),
{
}

/// Joining lines puts one line feed between each two of them and nothing else: the
/// text of several lines is the first, a line feed, and the text of the others.
pub proof fn law_lines_are_joined(first: Seq<char>, rest: Seq<Seq<char>>)
    ensures
        text::join_lines(Seq::empty()) == Seq::<char>::empty(),
        text::join_lines(seq![first]) == first,
        rest.len() > 0 ==> text::join_lines(seq![first] + rest) == first + seq!['\n']
            + text::join_lines(rest),
    decreases rest.len(),
{
    if rest.len() > 0 {
        let all = seq![first] + rest;
        assert(all.drop_last() =~= seq![first] + rest.drop_last());
        assert(all.last() == rest.last());
        law_lines_are_joined(first, rest.drop_last());
        if rest.len() == 1 {
            assert(all.drop_last() =~= seq![first]);
            assert(text::join_lines(all.drop_last()) == first);
            assert(text::join_lines(rest) == rest[0]);
            assert(text::join_lines(all) =~= first + seq!['\n'] + text::join_lines(rest));
        } else {
            assert(text::join_lines(all) =~= first + seq!['\n'] + text::join_lines(rest));
        }
    }
}

/// Splitting leaves pieces without the separator; one more than there are
/// separators, and put together again with it they are the text.
pub proof fn law_pieces_make_the_text(s: Seq<char>, separator: char, i: int)
    ensures
        ({
            let pieces = text::split_on(s, separator);
            &&& pieces.len() > 0
            &&& together(pieces, separator) == s
            &&& 0 <= i < pieces.len() ==> !pieces[i].contains(separator)
        }),
    decreases s.len(),
{
    let pieces = text::split_on(s, separator);
    if s.len() == 0 {
        assert(pieces.drop_last() =~= Seq::<Seq<char>>::empty());
        assert(together(pieces, separator) =~= s);
    } else {
        let before = text::split_on(s.drop_last(), separator);
        law_pieces_make_the_text(s.drop_last(), separator, i);
        law_pieces_make_the_text(s.drop_last(), separator, before.len() - 1);
        if s.last() == separator {
            assert(pieces.drop_last() =~= before);
            assert(together(pieces, separator) =~= s);
        } else {
            assert(pieces.drop_last() =~= before.drop_last());
            assert(pieces.last() == before.last().push(s.last()));
            assert(together(pieces, separator) =~= together(before, separator).push(s.last()));
            assert(together(pieces, separator) =~= s);
            let last = before.last().push(s.last());
            assert(!last.contains(separator)) by {
                assert forall|k: int| 0 <= k < last.len() implies last[k] != separator by {
                    if k < before.last().len() {
                        assert(before.last().contains(before.last()[k]));
                    }
                }
            }
        }
    }
}

/// Pieces of text one after the other, with a separator between each two.
pub open spec fn together(pieces: Seq<Seq<char>>, separator: char) -> Seq<char>
    decreases pieces.len(),
{
    if pieces.len() == 0 {
        Seq::empty()
    } else if pieces.len() == 1 {
        pieces[0]
    } else {
        together(pieces.drop_last(), separator).push(separator) + pieces.last()
    }
}

/// Capital letters of ASCII become small ones, 32 places further, and all else
/// stays.
pub proof fn law_lower_case(c: char)
    ensures
        'A' <= c <= 'Z' ==> text::ascii_lower(c) as u32 == c as u32 + 32,
        !('A' <= c <= 'Z') ==> text::ascii_lower(c) == c,
{
}

} // verus!
