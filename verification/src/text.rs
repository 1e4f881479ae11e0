//! Bytes and text: decimal and hexadecimal numbers, and ASCII literals as
//! byte sequences.

use vstd::prelude::*;

verus! {

/// The ASCII digit for a value below ten.
pub open spec fn digit(d: nat) -> u8 {
    (0x30 + d) as u8
}

/// A number in decimal notation, without leading zeros.
pub open spec fn decimal(n: nat) -> Seq<u8>
    decreases n,
{
    if n < 10 {
        seq![digit(n)]
    } else {
        decimal(n / 10).push(digit(n % 10))
    }
}

/// The lower-case hexadecimal digit for a value below sixteen.
pub open spec fn hex_digit(d: u8) -> u8 {
    if d < 10 {
        (0x30 + d) as u8
    } else {
        (0x61 + (d - 10)) as u8
    }
}

/// A byte as two hexadecimal digits.
pub open spec fn hex(b: u8) -> Seq<u8> {
    seq![hex_digit((b / 16) as u8), hex_digit((b % 16) as u8)]
}

/// The contents of a list of texts.
pub open spec fn texts(list: Seq<String>) -> Seq<Seq<char>> {
    Seq::new(list.len(), |i: int| list[i]@)
}

/// The bytes of a text that is ASCII, one for each character.
pub open spec fn ascii(text: Seq<char>) -> Seq<u8> {
    Seq::new(text.len(), |i: int| text[i] as u8)
}

/// Appends a number in decimal notation.
pub fn push_decimal(out: &mut Vec<u8>, n: u64)
    ensures
        final(out)@ == old(out)@ + decimal(n as nat),
    decreases n,
{
    if n >= 10 {
        push_decimal(out, n / 10);
    }
    out.push(0x30 + (n % 10) as u8);
    assert(out@ =~= old(out)@ + decimal(n as nat));
}

/// Appends a byte as two hexadecimal digits.
pub fn push_hex(out: &mut Vec<u8>, b: u8)
    ensures
        final(out)@ == old(out)@ + hex(b),
{
    let high: u8 = b / 16;
    let low: u8 = b % 16;
    out.push(
        if high < 10 {
            0x30 + high
        } else {
            0x61 + (high - 10)
        },
    );
    out.push(
        if low < 10 {
            0x30 + low
        } else {
            0x61 + (low - 10)
        },
    );
    assert(out@ =~= old(out)@ + hex(b));
}

/// Appends the bytes of an ASCII text.
pub fn push_ascii(out: &mut Vec<u8>, text: &str)
    ensures
        final(out)@ == old(out)@ + ascii(text@),
{
    let n: usize = text.unicode_len();
    let mut i: usize = 0;
    while i < n
        invariant
            i <= n,
            n == text@.len(),
            out@ == old(out)@ + ascii(text@.take(i as int)),
        decreases n - i,
    {
        let c: char = text.get_char(i);
        out.push(c as u8);
        i += 1;
        assert(out@ =~= old(out)@ + ascii(text@.take(i as int)));
    }
    assert(text@.take(n as int) =~= text@);
}

/// Appends bytes.
pub fn push_bytes(out: &mut Vec<u8>, bytes: &[u8])
    ensures
        final(out)@ == old(out)@ + bytes@,
{
    let mut i: usize = 0;
    while i < bytes.len()
        invariant
            i <= bytes@.len(),
            out@ == old(out)@ + bytes@.take(i as int),
        decreases bytes@.len() - i,
    {
        out.push(bytes[i]);
        i += 1;
        assert(out@ =~= old(out)@ + bytes@.take(i as int));
    }
    assert(bytes@.take(bytes@.len() as int) =~= bytes@);
}

/// The bytes of an ASCII text.
pub fn ascii_vec(text: &str) -> (out: Vec<u8>)
    ensures
        out@ == ascii(text@),
{
    let mut out: Vec<u8> = Vec::new();
    push_ascii(&mut out, text);
    assert(out@ =~= ascii(text@));
    out
}

/// Whether bytes spell an ASCII text.
pub fn bytes_are(bytes: &[u8], text: &str) -> (same: bool)
    ensures
        same == (bytes@ == ascii(text@)),
{
    let n: usize = text.unicode_len();
    if bytes.len() != n {
        return false;
    }
    let mut i: usize = 0;
    while i < n
        invariant
            i <= n,
            n == text@.len(),
            n == bytes@.len(),
            forall|k: int| 0 <= k < i ==> bytes@[k] == ascii(text@)[k],
        decreases n - i,
    {
        let c: char = text.get_char(i);
        if bytes[i] != c as u8 {
            assert(bytes@[i as int] != ascii(text@)[i as int]);
            return false;
        }
        i += 1;
    }
    assert(bytes@ =~= ascii(text@));
    true
}

/// Decodes UTF-8 with `String::from_utf8`: the text comes back where the
/// bytes are valid UTF-8, and nothing where they are not.
#[verifier::external_body]
pub(crate) fn utf8_text(bytes: Vec<u8>) -> (text: Option<String>)
    ensures
        text is Some <==> vstd::utf8::valid_utf8(bytes@),
        text matches Some(t) ==> t@ == vstd::utf8::decode_utf8(bytes@),
{
    String::from_utf8(bytes).ok()
}

/// The code points with the Unicode property White_Space.
pub open spec fn white_space(c: char) -> bool {
    let u = c as u32;
    ||| 0x09 <= u <= 0x0d
    ||| u == 0x20
    ||| u == 0x85
    ||| u == 0xa0
    ||| u == 0x1680
    ||| 0x2000 <= u <= 0x200a
    ||| u == 0x2028
    ||| u == 0x2029
    ||| u == 0x202f
    ||| u == 0x205f
    ||| u == 0x3000
}

/// Whether a character has the Unicode property White_Space.
pub fn is_white_space(c: char) -> (w: bool)
    ensures
        w == white_space(c),
{
    let u: u32 = c as u32;
    (0x09 <= u && u <= 0x0d) || u == 0x20 || u == 0x85 || u == 0xa0 || u == 0x1680 || (0x2000 <= u
        && u <= 0x200a) || u == 0x2028 || u == 0x2029 || u == 0x202f || u == 0x205f || u == 0x3000
}

/// A letter or digit of ASCII.
pub open spec fn ascii_alphanumeric(c: char) -> bool {
    ('0' <= c <= '9') || ('A' <= c <= 'Z') || ('a' <= c <= 'z')
}

/// Whether `char::is_alphanumeric` holds of a character: it has the Unicode
/// property Alphabetic or one of the numeric general categories.
pub uninterp spec fn alphanumeric(c: char) -> bool;

/// Calls `char::is_alphanumeric`. In the ASCII range the letters and digits
/// are the alphanumeric characters.
#[verifier::external_body]
pub(crate) fn is_alphanumeric(c: char) -> (a: bool)
    ensures
        a == alphanumeric(c),
        (c as u32) < 0x80 ==> a == ascii_alphanumeric(c),
{
    c.is_alphanumeric()
}

/// `String::push` appends one character.
pub assume_specification[ String::push ](s: &mut String, c: char)
    ensures
        final(s)@ == old(s)@.push(c),
;

/// The characters of a text.
pub fn chars_of(text: &str) -> (chars: Vec<char>)
    ensures
        chars@ == text@,
{
    let mut chars: Vec<char> = Vec::new();
    for c in it: text.chars()
        invariant
            it.seq() == text@,
            chars@ == text@.take(it.index() as int),
    {
        chars.push(c);
        assert(chars@ =~= text@.take(it.index() + 1));
    }
    assert(text@.take(text@.len() as int) =~= text@);
    chars
}

/// A text made of the given characters.
pub fn string_of(chars: &[char]) -> (text: String)
    ensures
        text@ == chars@,
{
    let mut text = String::new();
    push_chars(&mut text, chars);
    assert(text@ =~= chars@);
    text
}

/// Appends characters to a text.
pub fn push_chars(text: &mut String, chars: &[char])
    ensures
        final(text)@ == old(text)@ + chars@,
{
    let mut i: usize = 0;
    while i < chars.len()
        invariant
            i <= chars@.len(),
            text@ == old(text)@ + chars@.take(i as int),
        decreases chars@.len() - i,
    {
        text.push(chars[i]);
        i += 1;
        assert(text@ =~= old(text)@ + chars@.take(i as int));
    }
    assert(chars@.take(chars@.len() as int) =~= chars@);
}

/// A text without the white space at its end.
pub open spec fn trim_end(chars: Seq<char>) -> Seq<char>
    decreases chars.len(),
{
    if chars.len() > 0 && white_space(chars.last()) {
        trim_end(chars.drop_last())
    } else {
        chars
    }
}

/// A text without the white space at its start.
pub open spec fn trim_start(chars: Seq<char>) -> Seq<char>
    decreases chars.len(),
{
    if chars.len() > 0 && white_space(chars[0]) {
        trim_start(chars.skip(1))
    } else {
        chars
    }
}

/// A text without the white space around it.
pub open spec fn trim(chars: Seq<char>) -> Seq<char> {
    trim_end(trim_start(chars))
}

/// The length of a text without the white space at its end.
pub fn trimmed_len(chars: &[char]) -> (n: usize)
    ensures
        n <= chars@.len(),
        chars@.take(n as int) == trim_end(chars@),
{
    let mut n: usize = chars.len();
    assert(chars@.take(n as int) =~= chars@);
    while n > 0 && is_white_space(chars[n - 1])
        invariant
            n <= chars@.len(),
            trim_end(chars@.take(n as int)) == trim_end(chars@),
        decreases n,
    {
        assert(chars@.take(n as int).drop_last() =~= chars@.take(n - 1));
        n -= 1;
    }
    n
}

/// A text without the white space around it.
pub fn trimmed(chars: &[char]) -> (rest: Vec<char>)
    ensures
        rest@ == trim(chars@),
{
    let mut start: usize = 0;
    assert(chars@.skip(0) =~= chars@);
    while start < chars.len() && is_white_space(chars[start])
        invariant
            start <= chars@.len(),
            trim_start(chars@.skip(start as int)) == trim_start(chars@),
        decreases chars@.len() - start,
    {
        assert(chars@.skip(start as int).skip(1) =~= chars@.skip(start + 1));
        start += 1;
    }
    let end: usize = chars.len();
    let tail = vstd::slice::slice_subrange(chars, start, end);
    assert(tail@ =~= chars@.skip(start as int));
    let n: usize = trimmed_len(tail);
    let rest = vstd::slice::slice_to_vec(vstd::slice::slice_subrange(tail, 0, n));
    assert(rest@ =~= tail@.take(n as int));
    rest
}

/// Lines of text with a line feed between each two.
pub open spec fn join_lines(lines: Seq<Seq<char>>) -> Seq<char>
    decreases lines.len(),
{
    if lines.len() == 0 {
        Seq::empty()
    } else if lines.len() == 1 {
        lines[0]
    } else {
        join_lines(lines.drop_last()) + seq!['\n'] + lines.last()
    }
}

/// Whether characters spell a text.
pub fn chars_are(chars: &[char], text: &str) -> (same: bool)
    ensures
        same == (chars@ == text@),
{
    let n: usize = text.unicode_len();
    if chars.len() != n {
        return false;
    }
    let mut i: usize = 0;
    while i < n
        invariant
            i <= n,
            n == text@.len(),
            n == chars@.len(),
            forall|k: int| 0 <= k < i ==> chars@[k] == text@[k],
        decreases n - i,
    {
        if chars[i] != text.get_char(i) {
            return false;
        }
        i += 1;
    }
    assert(chars@ =~= text@);
    true
}

/// Whether two texts are the same.
pub fn str_is(a: &str, b: &str) -> (same: bool)
    ensures
        same == (a@ == b@),
{
    chars_are(chars_of(a).as_slice(), b)
}

/// An ASCII letter in lower case; any other character as it is.
pub open spec fn ascii_lower(c: char) -> char {
    if 'A' <= c <= 'Z' {
        ((c as u32) + 32) as char
    } else {
        c
    }
}

/// All characters are ASCII.
pub open spec fn all_ascii(text: Seq<char>) -> bool {
    forall|i: int| 0 <= i < text.len() ==> (#[trigger] text[i] as u32) < 0x80
}

/// What `str::to_lowercase` makes of a text: its lower-case form by the rules
/// of Unicode.
pub uninterp spec fn lowercase(text: Seq<char>) -> Seq<char>;

/// Calls `str::to_lowercase`. In a text that is all ASCII each letter turns
/// into its lower-case form and everything else stays.
#[verifier::external_body]
pub(crate) fn to_lowercase(text: &str) -> (lower: String)
    ensures
        lower@ == lowercase(text@),
        all_ascii(text@) ==> lower@ == Seq::new(text@.len(), |i: int| ascii_lower(text@[i])),
{
    text.to_lowercase()
}

/// The pieces of a text between the separators; one more than there are
/// separators.
pub open spec fn split_on(text: Seq<char>, separator: char) -> Seq<Seq<char>>
    decreases text.len(),
{
    if text.len() == 0 {
        seq![Seq::empty()]
    } else {
        let before = split_on(text.drop_last(), separator);
        if text.last() == separator {
            before.push(Seq::empty())
        } else {
            before.drop_last().push(before.last().push(text.last()))
        }
    }
}

/// The contents of a list of texts.
pub open spec fn char_lists(lists: Seq<Vec<char>>) -> Seq<Seq<char>> {
    Seq::new(lists.len(), |i: int| lists[i]@)
}

/// Splits a text at every separator.
pub fn split(text: &[char], separator: char) -> (pieces: Vec<Vec<char>>)
    ensures
        char_lists(pieces@) == split_on(text@, separator),
        pieces@.len() > 0,
{
    let mut pieces: Vec<Vec<char>> = Vec::new();
    let mut piece: Vec<char> = Vec::new();
    let mut i: usize = 0;
    assert(char_lists(pieces@).push(piece@) =~= split_on(text@.take(0), separator));
    while i < text.len()
        invariant
            i <= text@.len(),
            char_lists(pieces@).push(piece@) == split_on(text@.take(i as int), separator),
        decreases text@.len() - i,
    {
        let c: char = text[i];
        let ghost before = char_lists(pieces@).push(piece@);
        proof {
            assert(text@.take(i + 1).drop_last() =~= text@.take(i as int));
            assert(text@.take(i + 1).last() == c);
            assert(before.drop_last() =~= char_lists(pieces@));
            assert(before.last() == piece@);
        }
        if c == separator {
            let ghost old_pieces = pieces@;
            let ghost done = piece@;
            pieces.push(piece);
            piece = Vec::new();
            proof {
                assert(char_lists(pieces@) =~= char_lists(old_pieces).push(done));
                assert(char_lists(pieces@).push(piece@) =~= before.push(Seq::empty()));
            }
        } else {
            piece.push(c);
            assert(char_lists(pieces@).push(piece@) =~= before.drop_last().push(
                before.last().push(c),
            ));
        }
        i += 1;
    }
    assert(text@.take(text@.len() as int) =~= text@);
    let ghost old_pieces = pieces@;
    let ghost done = piece@;
    pieces.push(piece);
    assert(char_lists(pieces@) =~= char_lists(old_pieces).push(done));
    pieces
}

/// A number in decimal notation, as characters.
pub open spec fn decimal_chars(n: nat) -> Seq<char> {
    Seq::new(decimal(n).len(), |i: int| decimal(n)[i] as char)
}

/// Appends a number in decimal notation to a text.
pub fn push_number(text: &mut String, n: u64)
    ensures
        final(text)@ == old(text)@ + decimal_chars(n as nat),
{
    let mut digits: Vec<u8> = Vec::new();
    push_decimal(&mut digits, n);
    assert(digits@ =~= decimal(n as nat));
    let mut i: usize = 0;
    while i < digits.len()
        invariant
            i <= digits@.len(),
            digits@ == decimal(n as nat),
            text@ == old(text)@ + decimal_chars(n as nat).take(i as int),
        decreases digits@.len() - i,
    {
        text.push(digits[i] as char);
        i += 1;
        assert(text@ =~= old(text)@ + decimal_chars(n as nat).take(i as int));
    }
    assert(decimal_chars(n as nat).take(digits@.len() as int) =~= decimal_chars(n as nat));
}

/// Copies part of a text.
pub fn part_of(chars: &[char], from: usize, to: usize) -> (part: Vec<char>)
    requires
        from <= to <= chars@.len(),
    ensures
        part@ == chars@.subrange(from as int, to as int),
{
    vstd::slice::slice_to_vec(vstd::slice::slice_subrange(chars, from, to))
}

/// A text as `str` shows it for debugging: between double quotes, with
/// special characters escaped.
pub uninterp spec fn debug_quoted(text: Seq<char>) -> Seq<char>;

/// Formats a text with the `Debug` implementation of `str`.
#[verifier::external_body]
pub(crate) fn debug_string(text: &str) -> (quoted: String)
    ensures
        quoted@ == debug_quoted(text@),
{
    format!("{:?}", text)
}

/// A text with its ASCII letters in lower case.
pub open spec fn ascii_lowered(s: Seq<char>) -> Seq<char> {
    Seq::new(s.len(), |i: int| ascii_lower(s[i]))
}

/// An ASCII letter in lower case; any other character as it is.
pub fn to_ascii_lower(c: char) -> (lower: char)
    ensures
        lower == ascii_lower(c),
{
    if 'A' <= c && c <= 'Z' {
        ((c as u8) + 32) as char
    } else {
        c
    }
}

/// A text with its ASCII letters in lower case.
pub fn lower_ascii(s: &[char]) -> (low: Vec<char>)
    ensures
        low@ == ascii_lowered(s@),
{
    let mut low: Vec<char> = Vec::new();
    let mut i: usize = 0;
    while i < s.len()
        invariant
            i <= s@.len(),
            low@.len() == i,
            forall|k: int| 0 <= k < i ==> low@[k] == ascii_lower(s@[k]),
        decreases s@.len() - i,
    {
        low.push(to_ascii_lower(s[i]));
        i += 1;
    }
    assert(low@ =~= ascii_lowered(s@));
    low
}

/// Whether two lists of characters are the same.
pub fn same_chars(a: &[char], b: &[char]) -> (same: bool)
    ensures
        same == (a@ == b@),
{
    if a.len() != b.len() {
        return false;
    }
    let mut i: usize = 0;
    while i < a.len()
        invariant
            i <= a@.len(),
            a@.len() == b@.len(),
            forall|k: int| 0 <= k < i ==> a@[k] == b@[k],
        decreases a@.len() - i,
    {
        if a[i] != b[i] {
            return false;
        }
        i += 1;
    }
    assert(a@ =~= b@);
    true
}

} // verus!
