//! Workloads for measuring a terminal, and the record of a measurement.

use vstd::prelude::*;

use crate::text;
use crate::vi_keys;

verus! {

/// One run of a benchmark.
#[derive(Debug)]
pub struct Bench {
    pub name: String,
    pub iters: u64,
    pub cols: u16,
    pub rows: u16,
    /// Where the record goes.
    pub out_path: String,
}

/// The number that the digits from `i` on make after `acc`, up to a limit.
pub open spec fn scan_number(s: Seq<char>, i: int, acc: int, max: int) -> Option<int>
    decreases s.len() - i,
{
    if i >= s.len() {
        Some(acc)
    } else if !('0' <= s[i] <= '9') {
        None
    } else {
        let next = acc * 10 + (s[i] as int - '0' as int);
        if next > max {
            None
        } else {
            scan_number(s, i + 1, next, max)
        }
    }
}

/// A whole number up to a limit: decimal digits after an optional plus sign.
pub open spec fn number_of(s: Seq<char>, max: int) -> Option<int> {
    if s.len() == 0 {
        None
    } else if s.len() > 1 && s[0] == '+' {
        scan_number(s, 1, 0, max)
    } else {
        scan_number(s, 0, 0, max)
    }
}

/// A number that may be missing or unreadable.
pub open spec fn given_number(s: Option<&str>, max: int) -> Option<int> {
    match s {
        Some(t) => number_of(t@, max),
        None => None,
    }
}

/// A number, or another where it is missing.
pub open spec fn or_else(n: Option<int>, other: int) -> int {
    match n {
        Some(v) => v,
        None => other,
    }
}

/// Reads a whole number up to a limit.
fn read_number(s: Option<&str>, max: u64) -> (n: Option<u64>)
    ensures
        n is Some <==> given_number(s, max as int) is Some,
        n matches Some(v) ==> v <= max && v == given_number(s, max as int)->0,
{
    let chars = match s {
        Some(t) => text::chars_of(t),
        None => {
            return None;
        },
    };
    let total: usize = chars.len();
    if total == 0 {
        return None;
    }
    let start: usize = if total > 1 && chars[0] == '+' {
        1
    } else {
        0
    };
    let mut i: usize = start;
    let mut acc: u64 = 0;
    while i < total
        invariant
            start <= i <= total,
            total == chars@.len(),
            acc <= max,
            scan_number(chars@, start as int, 0, max as int) == scan_number(
                chars@,
                i as int,
                acc as int,
                max as int,
            ),
            s is Some,
            chars@ == s->0@,
            total > 0,
            start == (if total > 1 && chars@[0] == '+' {
                1int
            } else {
                0
            }),
        decreases total - i,
    {
        let c: char = chars[i];
        if c < '0' || c > '9' {
            return None;
        }
        let next: u128 = acc as u128 * 10 + (c as u128 - 48);
        if next > max as u128 {
            return None;
        }
        acc = next as u64;
        i += 1;
    }
    Some(acc)
}

/// The size of the terminal as columns and rows: what the environment says,
/// else what was measured, else 80 by 24.
pub open spec fn bench_size(
    env_cols: Option<int>,
    env_rows: Option<int>,
    measured: Option<(u16, u16)>,
) -> (int, int) {
    let seen = match measured {
        Some((w, h)) => (w as int, h as int),
        None => (80, 24),
    };
    (or_else(env_cols, seen.0), or_else(env_rows, seen.1))
}

/// The size of the terminal; see [`bench_size`].
pub fn detect_size(env_cols: Option<&str>, env_rows: Option<&str>, measured: Option<(u16, u16)>) -> (size: (
    u16,
    u16,
))
    ensures
        (size.0 as int, size.1 as int) == bench_size(
            given_number(env_cols, u16::MAX as int),
            given_number(env_rows, u16::MAX as int),
            measured,
        ),
{
    let (w, h): (u16, u16) = match measured {
        Some(size) => size,
        None => (80, 24),
    };
    let cols: u16 = match read_number(env_cols, 0xffff) {
        Some(n) => n as u16,
        None => w,
    };
    let rows: u16 = match read_number(env_rows, 0xffff) {
        Some(n) => n as u16,
        None => h,
    };
    (cols, rows)
}

/// What the environment says about a run.
pub struct BenchEnv<'a> {
    pub iters: Option<&'a str>,
    pub out: Option<&'a str>,
    pub cols: Option<&'a str>,
    pub rows: Option<&'a str>,
    /// The size of the terminal as columns and rows, where it is known.
    pub measured: Option<(u16, u16)>,
}

/// A time in nanoseconds as seconds with six decimals.
pub open spec fn seconds(nanos: u64) -> Seq<char> {
    let micros = (nanos + 500) / 1000;
    text::decimal_chars((micros / 1_000_000) as nat).push('.') + six_digits(micros % 1_000_000)
}

/// A number below a million in six digits.
pub open spec fn six_digits(n: int) -> Seq<char> {
    seq![
        digit_char(n / 100_000 % 10),
        digit_char(n / 10_000 % 10),
        digit_char(n / 1_000 % 10),
        digit_char(n / 100 % 10),
        digit_char(n / 10 % 10),
        digit_char(n % 10),
    ]
}

pub open spec fn digit_char(d: int) -> char {
    (48 + d) as char
}

/// The record of a measurement: the name, the seconds, the iterations, the
/// columns and rows, and the bytes.
pub open spec fn record(
    name: Seq<char>,
    nanos: u64,
    iters: u64,
    cols: u16,
    rows: u16,
    bytes: u64,
) -> Seq<char> {
    name.push(' ') + seconds(nanos).push(' ') + text::decimal_chars(iters as nat).push(' ')
        + text::decimal_chars(cols as nat).push(' ') + text::decimal_chars(rows as nat).push(' ')
        + text::decimal_chars(bytes as nat).push('\n')
}

fn push_digit(s: &mut String, d: u64)
    requires
        d < 10,
    ensures
        final(s)@ == old(s)@.push(digit_char(d as int)),
{
    s.push((48 + d as u8) as char);
}

fn push_seconds(s: &mut String, nanos: u64)
    ensures
        final(s)@ == old(s)@ + seconds(nanos),
{
    let micros: u128 = (nanos as u128 + 500) / 1000;
    let whole: u64 = (micros / 1_000_000) as u64;
    let rest: u64 = (micros % 1_000_000) as u64;
    text::push_number(s, whole);
    s.push('.');
    push_digit(s, rest / 100_000 % 10);
    push_digit(s, rest / 10_000 % 10);
    push_digit(s, rest / 1_000 % 10);
    push_digit(s, rest / 100 % 10);
    push_digit(s, rest / 10 % 10);
    push_digit(s, rest % 10);
    assert(s@ =~= old(s)@ + seconds(nanos));
}

impl Bench {
    /// Sets up a run: the number of iterations is what the environment says or
    /// the default, and the record goes to a fixed place unless the
    /// environment names another.
    pub fn start(name: &str, default_iters: u64, env: &BenchEnv<'_>) -> (b: Bench)
        ensures
            b.name@ == name@,
            b.iters == or_else(given_number(env.iters, u64::MAX as int), default_iters as int),
            b.out_path@ == (match env.out {
                Some(p) => p@,
                None => "/tmp/soltty_bench.txt"@,
            }),
            (b.cols as int, b.rows as int) == bench_size(
                given_number(env.cols, u16::MAX as int),
                given_number(env.rows, u16::MAX as int),
                env.measured,
            ),
    {
        let (cols, rows) = detect_size(env.cols, env.rows, env.measured);
        let iters: u64 = match read_number(env.iters, u64::MAX) {
            Some(n) => n,
            None => default_iters,
        };
        Bench {
            name: name.to_owned(),
            iters,
            cols,
            rows,
            out_path: match env.out {
                Some(p) => p.to_owned(),
                None => "/tmp/soltty_bench.txt".to_owned(),
            },
        }
    }

    /// The record of a run over its iterations.
    pub fn finish(&self, nanos: u64, bytes: u64) -> (line: String)
        ensures
            line@ == record(self.name@, nanos, self.iters, self.cols, self.rows, bytes),
    {
        self.finish_after(nanos, self.iters, bytes)
    }

    /// The record of a run over a time, which came to `ticks` iterations.
    pub fn finish_after(&self, nanos: u64, ticks: u64, bytes: u64) -> (line: String)
        ensures
            line@ == record(self.name@, nanos, ticks, self.cols, self.rows, bytes),
    {
        let mut line = self.name.as_str().to_owned();
        line.push(' ');
        push_seconds(&mut line, nanos);
        line.push(' ');
        text::push_number(&mut line, ticks);
        line.push(' ');
        text::push_number(&mut line, self.cols as u64);
        line.push(' ');
        text::push_number(&mut line, self.rows as u64);
        line.push(' ');
        text::push_number(&mut line, bytes);
        line.push('\n');
        assert(line@ =~= record(self.name@, nanos, ticks, self.cols, self.rows, bytes));
        line
    }
}

/// The sequence that moves the cursor to a row and column.
pub open spec fn cup(row: u16, col: u16) -> Seq<u8> {
    text::ascii("\x1b["@) + text::decimal(row as nat) + text::ascii(";"@) + text::decimal(
        col as nat,
    ) + text::ascii("H"@)
}

/// Writes the sequence that moves the cursor to a row and column.
pub fn write_cup(row: u16, col: u16) -> (bytes: Vec<u8>)
    ensures
        bytes@ == cup(row, col),
{
    let mut out: Vec<u8> = Vec::new();
    text::push_ascii(&mut out, "\x1b[");
    text::push_decimal(&mut out, row as u64);
    text::push_ascii(&mut out, ";");
    text::push_decimal(&mut out, col as u64);
    text::push_ascii(&mut out, "H");
    assert(out@ =~= cup(row, col));
    out
}

/// A short numbered line.
pub open spec fn numbered_line(n: u64) -> Seq<u8> {
    text::ascii("line "@) + text::decimal(n as nat) + text::ascii("\n"@)
}

/// Writes a short numbered line.
pub fn write_line(n: u64) -> (bytes: Vec<u8>)
    ensures
        bytes@ == numbered_line(n),
{
    let mut out: Vec<u8> = Vec::new();
    text::push_ascii(&mut out, "line ");
    text::push_decimal(&mut out, n);
    text::push_ascii(&mut out, "\n");
    assert(out@ =~= numbered_line(n));
    out
}

/// A blank on a background colour.
pub open spec fn colored_blank(r: u8, g: u8, b: u8) -> Seq<u8> {
    text::ascii("\x1b[48;2;"@) + text::decimal(r as nat) + text::ascii(";"@) + text::decimal(
        g as nat,
    ) + text::ascii(";"@) + text::decimal(b as nat) + text::ascii("m "@)
}

/// Writes a blank on a background colour.
pub fn write_sgr_bg_space(r: u8, g: u8, b: u8) -> (bytes: Vec<u8>)
    ensures
        bytes@ == colored_blank(r, g, b),
{
    let mut out: Vec<u8> = Vec::new();
    text::push_ascii(&mut out, "\x1b[48;2;");
    text::push_decimal(&mut out, r as u64);
    text::push_ascii(&mut out, ";");
    text::push_decimal(&mut out, g as u64);
    text::push_ascii(&mut out, ";");
    text::push_decimal(&mut out, b as u64);
    text::push_ascii(&mut out, "m ");
    assert(out@ =~= colored_blank(r, g, b));
    out
}

/// The sequence for a text colour of the palette.
pub open spec fn text_color(n: u8) -> Seq<u8> {
    text::ascii("\x1b[38;5;"@) + text::decimal(n as nat) + text::ascii("m"@)
}

/// Writes the sequence for a text colour of the palette.
pub fn write_sgr_fg256(n: u8) -> (bytes: Vec<u8>)
    ensures
        bytes@ == text_color(n),
{
    let mut out: Vec<u8> = Vec::new();
    text::push_ascii(&mut out, "\x1b[38;5;");
    text::push_decimal(&mut out, n as u64);
    text::push_ascii(&mut out, "m");
    assert(out@ =~= text_color(n));
    out
}

/// The next state of the generator of cursor jumps.
pub open spec fn jump_state(state: u32) -> u32 {
    ((state * 1103515245 + 12345) % 0x1_0000_0000) as u32
}

/// The row and column of a jump, counted from one.
pub open spec fn jump_target(state: u32, rows: int, cols: int) -> (int, int) {
    (state as int / 0x1_0000 % rows + 1, state as int % 0x1_0000 % cols + 1)
}

/// The generator of cursor jumps: its next state, and the row and column to go
/// to on a screen of a given size.
pub fn next_jump(state: u32, rows: u16, cols: u16) -> (next: (u32, u16, u16))
    requires
        rows > 0,
        cols > 0,
    ensures
        next.0 == jump_state(state),
        (next.1 as int, next.2 as int) == jump_target(next.0, rows as int, cols as int),
        1 <= next.1 <= rows,
        1 <= next.2 <= cols,
{
    let rng: u32 = ((state as u64 * 1103515245 + 12345) % 0x1_0000_0000) as u32;
    let row: u32 = rng / 0x1_0000 % rows as u32 + 1;
    let col: u32 = rng % 0x1_0000 % cols as u32 + 1;
    (rng, row as u16, col as u16)
}

/// The next state of the generator of colours.
pub open spec fn color_state(state: u64) -> u64 {
    let a = state ^ (state >> 12);
    let b = a ^ (a << 25);
    b ^ (b >> 27)
}

/// The number that a state of the generator of colours stands for.
pub open spec fn color_number(state: u64) -> int {
    (state * 2685821657736338717) % 0x1_0000_0000_0000_0000
}

/// The generator of colours: its next state, and red, green and blue.
pub fn next_color(state: u64) -> (next: (u64, u8, u8, u8))
    ensures
        next.0 == color_state(state),
        next.1 == color_number(next.0) % 256,
        next.2 == color_number(next.0) / 256 % 256,
        next.3 == color_number(next.0) / 0x1_0000 % 256,
{
    let a: u64 = state ^ (state >> 12);
    let b: u64 = a ^ (a << 25);
    let rng: u64 = b ^ (b >> 27);
    assert(rng as int * 2685821657736338717 <= u128::MAX) by (nonlinear_arith)
        requires
            rng <= u64::MAX,
    ;
    let v: u128 = (rng as u128 * 2685821657736338717) % 0x1_0000_0000_0000_0000;
    let r: u8 = (v % 256) as u8;
    let g: u8 = (v / 256 % 256) as u8;
    let bl: u8 = (v / 0x1_0000 % 256) as u8;
    (rng, r, g, bl)
}

/// A row of the pattern that moves one place with each tick.
pub open spec fn pattern_row(tick: u64, row: int, cols: int) -> Seq<u8> {
    Seq::new(cols as nat, |c: int| pattern_byte(tick, row, c))
}

pub open spec fn pattern_byte(tick: u64, row: int, col: int) -> u8 {
    (0x20 + (tick + row * 7 + col) % 0x1_0000_0000_0000_0000 % 95) as u8
}

/// Fills a row with the pattern.
pub fn fill_row(tick: u64, row: u16, cols: u16) -> (bytes: Vec<u8>)
    ensures
        bytes@ == pattern_row(tick, row as int, cols as int),
{
    let mut out: Vec<u8> = Vec::new();
    let mut c: u16 = 0;
    while c < cols
        invariant
            c <= cols,
            out@.len() == c,
            forall|k: int| 0 <= k < c ==> out@[k] == pattern_byte(tick, row as int, k),
        decreases cols - c,
    {
        let n: u128 = (tick as u128 + row as u128 * 7 + c as u128) % 0x1_0000_0000_0000_0000 % 95;
        out.push(0x20 + n as u8);
        c += 1;
    }
    assert(out@ =~= pattern_row(tick, row as int, cols as int));
    out
}

/// The colour of a tick: one after the other of the colour cube.
pub fn tick_color(tick: u64) -> (n: u8)
    ensures
        n == 16 + tick % 216,
        16 <= n <= 231,
{
    16 + (tick % 216) as u8
}

/// A number is that of a character.
pub open spec fn is_scalar(n: u32) -> bool {
    n < 0xd800 || 0xdfff < n <= 0x10_ffff
}

/// Calls `char::from_u32`. The contract says that it gives the character with
/// that number, if there is one.
#[verifier::external_body]
fn char_from(n: u32) -> (c: Option<char>)
    ensures
        c is Some <==> is_scalar(n),
        c matches Some(ch) ==> ch as u32 == n && ch == n as char,
{
    char::from_u32(n)
}

/// All printable characters from a number up to 0x4000, in rows of a given
/// length, when `col` of the current row are there already.
pub open spec fn all_glyphs(n: int, col: int, per_row: int) -> Seq<char>
    decreases 0x4000 - n,
{
    if n >= 0x4000 {
        if col != 0 {
            seq!['\n']
        } else {
            Seq::empty()
        }
    } else if vi_keys::control_char(n as char) {
        all_glyphs(n + 1, col, per_row)
    } else if col + 1 == per_row {
        seq![n as char, '\n'] + all_glyphs(n + 1, 0, per_row)
    } else {
        seq![n as char] + all_glyphs(n + 1, col + 1, per_row)
    }
}

/// Many different characters, in rows as wide as the screen.
pub fn glyph_page(cols: u16) -> (page: String)
    ensures
        page@ == all_glyphs(
            0x21,
            0,
            if cols > 0 {
                cols as int
            } else {
                1
            },
        ),
{
    let per_row: u32 = if cols > 0 {
        cols as u32
    } else {
        1
    };
    let mut page = String::new();
    let mut n: u32 = 0x21;
    let mut col: u32 = 0;
    while n < 0x4000
        invariant
            0x21 <= n <= 0x4000,
            0 < per_row,
            col < per_row,
            page@ + all_glyphs(n as int, col as int, per_row as int) == all_glyphs(
                0x21,
                0,
                per_row as int,
            ),
        decreases 0x4000 - n,
    {
        let ghost before = page@;
        let ghost at = col as int;
        if let Some(ch) = char_from(n) {
            if !(n < 0x20 || (0x7f <= n && n <= 0x9f)) {
                page.push(ch);
                col += 1;
                if col == per_row {
                    page.push('\n');
                    col = 0;
                }
            }
        }
        n += 1;
        assert(page@ + all_glyphs(n as int, col as int, per_row as int) =~= before + all_glyphs(
            n - 1,
            at,
            per_row as int,
        ));
    }
    if col != 0 {
        let ghost before = page@;
        page.push('\n');
        assert(page@ =~= before + all_glyphs(n as int, col as int, per_row as int));
    } else {
        assert(page@ =~= page@ + all_glyphs(n as int, col as int, per_row as int));
    }
    page
}

} // verus!
