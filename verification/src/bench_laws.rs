//! What the workloads write, and what is recorded of them.

use vstd::prelude::*;

use crate::bench;
use crate::settings_laws;
use crate::text;

verus! {

/// Numbers of the environment are decimal digits, with a plus sign before them or not;
/// what is larger than can be counted is none, nor is anything else.
pub proof fn law_numbers_are_read(s: Seq<char>, max: int)
    requires
        0 <= max,
    ensures
        ({
            let value = settings_laws::digits_value(s);
            let digits = s.len() > 0 && settings_laws::all_digits(s);
            &&& digits && value <= max ==> bench::number_of(s, max) == Some(value)
            &&& digits && value > max ==> bench::number_of(s, max) is None
            &&& digits ==> bench::number_of(seq!['+'] + s, max) == bench::number_of(s, max)
            &&& s.len() == 0 || (s[0] != '+' && !digits) ==> bench::number_of(s, max) is None
        }),
{
    if s.len() > 0 {
        lemma_only_digits(s, 0, 0, max);
        if settings_laws::all_digits(s) {
            assert(s.take(0) =~= Seq::<char>::empty());
            lemma_value(s, 0, max);
            lemma_shifted(s, 0, 0, max);
            assert('0' <= s[0] <= '9');
        }
    }
}

proof fn lemma_only_digits(s: Seq<char>, i: int, acc: int, max: int)
    requires
        0 <= i,
    ensures
        (forall|k: int| i <= k < s.len() ==> '0' <= #[trigger] s[k] <= '9') || bench::scan_number(
            s,
            i,
            acc,
            max,
        ) is None,
    decreases s.len() - i,
{
    if i < s.len() && '0' <= s[i] <= '9' {
        lemma_only_digits(s, i + 1, acc * 10 + (s[i] as int - '0' as int), max);
    }
}

proof fn lemma_value(s: Seq<char>, i: int, max: int)
    requires
        0 <= i <= s.len(),
        settings_laws::all_digits(s),
        settings_laws::digits_value(s.take(i)) <= max,
    ensures
        ({
            let value = settings_laws::digits_value(s);
            let found = bench::scan_number(s, i, settings_laws::digits_value(s.take(i)), max);
            if value <= max {
                found == Some(value)
            } else {
                found is None
            }
        }),
    decreases s.len() - i,
{
    if i < s.len() {
        assert(s.take(i + 1).drop_last() =~= s.take(i));
        assert(s.take(i + 1).last() == s[i]);
        assert('0' <= s[i] <= '9');
        settings_laws::lemma_digits_grow(s, i + 1);
        if settings_laws::digits_value(s.take(i + 1)) <= max {
            lemma_value(s, i + 1, max);
        }
    } else {
        assert(s.take(i) =~= s);
    }
}

proof fn lemma_shifted(s: Seq<char>, i: int, acc: int, max: int)
    requires
        0 <= i,
    ensures
        bench::scan_number(seq!['+'] + s, i + 1, acc, max) == bench::scan_number(s, i, acc, max),
    decreases s.len() - i,
{
    if i < s.len() {
        assert((seq!['+'] + s)[i + 1] == s[i]);
        if '0' <= s[i] <= '9' {
            lemma_shifted(s, i + 1, acc * 10 + (s[i] as int - '0' as int), max);
        }
    }
}

/// The size of the terminal is what the environment says, each number by itself, else
/// what was measured, else 80 columns and 24 rows.
pub proof fn law_size_of_the_terminal(
    cols: Option<int>,
    rows: Option<int>,
    measured: Option<(u16, u16)>,
)
    ensures
        ({
            let size = bench::bench_size(cols, rows, measured);
            &&& cols matches Some(n) ==> size.0 == n
            &&& rows matches Some(n) ==> size.1 == n
            &&& cols is None ==> size.0 == (match measured {
                Some((w, _)) => w as int,
                None => 80,
            })
            &&& rows is None ==> size.1 == (match measured {
                Some((_, h)) => h as int,
                None => 24,
            })
        }),
{
}

/// A time in seconds, with six digits after the point, to the nearest millionth.
pub open spec fn is_time(written: Seq<char>, nanos: u64, whole: nat, rest: Seq<char>) -> bool {
    let micros = whole * 1_000_000 + settings_laws::digits_value(rest);
    &&& written == text::decimal_chars(whole) + seq!['.'] + rest
    &&& rest.len() == 6 && settings_laws::all_digits(rest)
    &&& -500 <= nanos - 1000 * micros <= 500
}

/// A time is recorded in seconds and millionths of them, to the nearest.
pub proof fn law_seconds_are_written(nanos: u64)
    ensures
        exists|whole: nat, rest: Seq<char>| #[trigger]
            is_time(bench::seconds(nanos), nanos, whole, rest),
{
    let micros = (nanos + 500) / 1000;
    let whole = (micros / 1_000_000) as nat;
    let n = micros % 1_000_000;
    let rest = bench::six_digits(n);
    lemma_six_digits(n);
    assert(bench::seconds(nanos) =~= text::decimal_chars(whole) + seq!['.'] + rest);
    assert(is_time(bench::seconds(nanos), nanos, whole, rest));
}

proof fn lemma_one_more_digit(s: Seq<char>, d: int)
    requires
        0 <= d < 10,
    ensures
        settings_laws::digits_value(s.push(bench::digit_char(d))) == settings_laws::digits_value(s)
            * 10 + d,
        settings_laws::all_digits(s) ==> settings_laws::all_digits(s.push(bench::digit_char(d))),
{
    assert(s.push(bench::digit_char(d)).drop_last() =~= s);
}

proof fn lemma_six_digits(n: int)
    requires
        0 <= n < 1_000_000,
    ensures
        settings_laws::digits_value(bench::six_digits(n)) == n,
        settings_laws::all_digits(bench::six_digits(n)),
        bench::six_digits(n).len() == 6,
{
    let none = Seq::<char>::empty();
    let a = none.push(bench::digit_char(n / 100_000 % 10));
    let b = a.push(bench::digit_char(n / 10_000 % 10));
    let c = b.push(bench::digit_char(n / 1_000 % 10));
    let d = c.push(bench::digit_char(n / 100 % 10));
    let e = d.push(bench::digit_char(n / 10 % 10));
    let f = e.push(bench::digit_char(n % 10));
    lemma_one_more_digit(none, n / 100_000 % 10);
    lemma_one_more_digit(a, n / 10_000 % 10);
    lemma_one_more_digit(b, n / 1_000 % 10);
    lemma_one_more_digit(c, n / 100 % 10);
    lemma_one_more_digit(d, n / 10 % 10);
    lemma_one_more_digit(e, n % 10);
    assert(bench::six_digits(n) =~= f);
    assert(settings_laws::digits_value(a) == n / 100_000);
    assert(settings_laws::digits_value(b) == n / 10_000);
    assert(settings_laws::digits_value(c) == n / 1_000);
    assert(settings_laws::digits_value(d) == n / 100);
    assert(settings_laws::digits_value(e) == n / 10);
}

/// A record names the run, its seconds, its iterations, the columns and rows, and the
/// bytes, in this order, with a space between them, and ends its line.
pub proof fn law_runs_are_recorded(
    name: Seq<char>,
    nanos: u64,
    iters: u64,
    cols: u16,
    rows: u16,
    bytes: u64,
)
    ensures
        bench::record(name, nanos, iters, cols, rows, bytes) == name + seq![' '] + bench::seconds(
            nanos,
        ) + seq![' '] + text::decimal_chars(iters as nat) + seq![' '] + text::decimal_chars(
            cols as nat,
        ) + seq![' '] + text::decimal_chars(rows as nat) + seq![' '] + text::decimal_chars(
            bytes as nat,
        ) + seq!['\n'],
{
    assert(bench::record(name, nanos, iters, cols, rows, bytes) =~= name + seq![' ']
        + bench::seconds(nanos) + seq![' '] + text::decimal_chars(iters as nat) + seq![' ']
        + text::decimal_chars(cols as nat) + seq![' '] + text::decimal_chars(rows as nat)
        + seq![' '] + text::decimal_chars(bytes as nat) + seq!['\n']);
}

/// The bytes of the sequences that the workloads write.
pub proof fn law_written_sequences(row: u16, col: u16, n: u64, r: u8, g: u8, b: u8)
    ensures
        bench::cup(row, col) == seq![0x1bu8, 0x5b] + text::decimal(row as nat) + seq![0x3bu8]
            + text::decimal(col as nat) + seq![0x48u8],
        bench::numbered_line(n) == seq![0x6cu8, 0x69, 0x6e, 0x65, 0x20] + text::decimal(n as nat)
            + seq![0x0au8],
        bench::colored_blank(r, g, b) == seq![0x1bu8, 0x5b, 0x34, 0x38, 0x3b, 0x32, 0x3b]
            + text::decimal(r as nat) + seq![0x3bu8] + text::decimal(g as nat) + seq![0x3bu8]
            + text::decimal(b as nat) + seq![0x6du8, 0x20],
        bench::text_color(r) == seq![0x1bu8, 0x5b, 0x33, 0x38, 0x3b, 0x35, 0x3b] + text::decimal(
            r as nat,
        ) + seq![0x6du8],
{
    reveal_strlit("\x1b[");
    reveal_strlit(";");
    reveal_strlit("H");
    reveal_strlit("line ");
    reveal_strlit("\n");
    reveal_strlit("\x1b[48;2;");
    reveal_strlit("m ");
    reveal_strlit("\x1b[38;5;");
    reveal_strlit("m");
    assert(text::ascii("\x1b["@) =~= seq![0x1bu8, 0x5b]);
    assert(text::ascii(";"@) =~= seq![0x3bu8]);
    assert(text::ascii("H"@) =~= seq![0x48u8]);
    assert(text::ascii("line "@) =~= seq![0x6cu8, 0x69, 0x6e, 0x65, 0x20]);
    assert(text::ascii("\n"@) =~= seq![0x0au8]);
    assert(text::ascii("\x1b[48;2;"@) =~= seq![0x1bu8, 0x5b, 0x34, 0x38, 0x3b, 0x32, 0x3b]);
    assert(text::ascii("m "@) =~= seq![0x6du8, 0x20]);
    assert(text::ascii("\x1b[38;5;"@) =~= seq![0x1bu8, 0x5b, 0x33, 0x38, 0x3b, 0x35, 0x3b]);
    assert(text::ascii("m"@) =~= seq![0x6du8]);
}

/// The generator of jumps multiplies and adds, and keeps 32 bits. Of these the high
/// half chooses a row and the low half a column, counted from one.
pub proof fn law_jumps_are_spread(state: u32, rows: int, cols: int)
    requires
        0 < rows,
        0 < cols,
    ensures
        ({
            let next = bench::jump_state(state);
            let target = bench::jump_target(state, rows, cols);
            let high = state as int / 0x1_0000;
            let low = state - 0x1_0000 * high;
            &&& (state * 1103515245 + 12345 - next) % 0x1_0000_0000 == 0
            &&& 1 <= target.0 <= rows && (high - (target.0 - 1)) % rows == 0
            &&& 1 <= target.1 <= cols && (low - (target.1 - 1)) % cols == 0
        }),
{
    let high = state as int / 0x1_0000;
    let low = state as int % 0x1_0000;
    lemma_rest(high, rows);
    lemma_rest(low, cols);
}

proof fn lemma_rest(a: int, n: int)
    requires
        0 < n,
    ensures
        (a - a % n) % n == 0,
        0 <= a % n < n,
{
    vstd::arithmetic::div_mod::lemma_fundamental_div_mod(a, n);
    vstd::arithmetic::div_mod::lemma_mod_multiples_basic(a / n, n);
    vstd::arithmetic::mul::lemma_mul_is_commutative(n, a / n);
    vstd::arithmetic::div_mod::lemma_mod_bound(a, n);
}

/// A row of the pattern runs through the printable characters, and begins one later
/// with each tick and seven later with each row.
pub proof fn law_pattern_moves(tick: u64, row: int, cols: int, c: int)
    requires
        0 <= row <= u16::MAX,
        0 <= c < cols <= u16::MAX,
        tick <= u32::MAX,
    ensures
        ({
            let line = bench::pattern_row(tick, row, cols);
            &&& line.len() == cols
            &&& 0x20 <= line[c] <= 0x7e
            &&& (line[c] - 0x20 - (tick + 7 * row + c)) % 95 == 0
        }),
{
}

/// A page of glyphs goes on with the next character that can be printed, if it is below
/// 0x4000, and begins a new line where the row is full; the last line ends too.
pub proof fn law_page_of_glyphs(n: int, col: int, per_row: int)
    requires
        0x21 <= n <= 0x4000,
        0 <= col < per_row,
    ensures
        ({
            let page = bench::all_glyphs(n, col, per_row);
            let rest = |at: int| bench::all_glyphs(n + 1, at, per_row);
            &&& n == 0x4000 && col == 0 ==> page.len() == 0
            &&& n == 0x4000 && col > 0 ==> page == seq!['\n']
            &&& n < 0x4000 && 0x7f <= n <= 0x9f ==> page == rest(col)
            &&& n < 0x7f || 0x9f < n < 0x4000 ==> {
                &&& col + 1 < per_row ==> page == seq![n as char] + rest(col + 1)
                &&& col + 1 == per_row ==> page == seq![n as char, '\n'] + rest(0)
            }
        }),
{
}

} // verus!
