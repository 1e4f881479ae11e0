//! What configuration and theme files say.

use vstd::prelude::*;

use crate::conf;
use crate::conf::{LineModel, Quoting};
use crate::config;
use crate::config::{ConfigModel, Progress};
use crate::text;
use crate::theme;
use crate::theme::{DraftModel, ThemeModel};

verus! {

/// A text does not hold a character.
pub open spec fn lacks(s: Seq<char>, c: char) -> bool {
    forall|i: int| 0 <= i < s.len() ==> #[trigger] s[i] != c
}

/// The comment of a line begins with the first `#` that stands outside of quotes, and
/// is cut off from there on.
pub proof fn law_comment_is_cut_off(line: Seq<char>, i: int)
    ensures
        ({
            let kept = conf::uncommented(line);
            let cut = kept.len() as int;
            &&& cut <= line.len()
            &&& kept == line.take(cut)
            &&& cut < line.len() ==> line[cut] == '#' && conf::quoting_at(line, cut)
                == Quoting::Outside
            &&& 0 <= i < cut && line[i] == '#' ==> conf::quoting_at(line, i) != Quoting::Outside
        }),
{
    lemma_comment_start(line, 0, i);
}

proof fn lemma_comment_start(line: Seq<char>, from: int, i: int)
    requires
        0 <= from,
    ensures
        ({
            let cut = conf::comment_start(line, from);
            &&& cut <= line.len()
            &&& from <= cut || cut == line.len()
            &&& cut < line.len() ==> line[cut] == '#' && conf::quoting_at(line, cut)
                == Quoting::Outside
            &&& from <= i < cut && line[i] == '#' ==> conf::quoting_at(line, i) != Quoting::Outside
        }),
    decreases line.len() - from,
{
    if from < line.len() && !(line[from] == '#' && conf::quoting_at(line, from)
        == Quoting::Outside) {
        lemma_comment_start(line, from + 1, i);
    }
}

/// Quotes of either kind reach from one to the next of the same kind; those of the
/// other kind between them mean nothing. Before the first quote nothing is quoted.
pub proof fn law_quotes_come_in_pairs(line: Seq<char>, open: int, p: int)
    requires
        0 <= open < p <= line.len(),
        line[open] == '"' || line[open] == '\'',
        forall|i: int| open < i < p ==> #[trigger] line[i] != line[open],
    ensures
        conf::quoting_at(line, open) == Quoting::Outside ==> {
            &&& conf::quoting_at(line, p) == (if line[open] == '"' {
                Quoting::Basic
            } else {
                Quoting::Literal
            })
            &&& p < line.len() && line[p] == line[open] ==> conf::quoting_at(line, p + 1)
                == Quoting::Outside
        },
        (forall|i: int| 0 <= i < open ==> #[trigger] line[i] != '"' && line[i] != '\'')
            ==> conf::quoting_at(line, open) == Quoting::Outside,
    decreases p,
{
    if p > open + 1 {
        law_quotes_come_in_pairs(line, open, p - 1);
    }
    lemma_unquoted(line, open);
}

proof fn lemma_unquoted(line: Seq<char>, n: int)
    requires
        n <= line.len(),
    ensures
        (forall|i: int| 0 <= i < n ==> #[trigger] line[i] != '"' && line[i] != '\'')
            ==> conf::quoting_at(line, n) == Quoting::Outside,
    decreases n,
{
    if n > 0 {
        lemma_unquoted(line, n - 1);
    }
}

/// Without its comment and the white space around it, a line is blank, or a name in
/// square brackets, or a key and a value around the first equals sign, both without
/// the white space around them. Anything else says nothing.
pub proof fn law_what_a_line_says(raw: Seq<char>)
    ensures
        ({
            let line = text::trim(conf::uncommented(raw));
            let bracketed = line.len() >= 2 && line[0] == '[' && line.last() == ']';
            &&& match conf::line_model(raw) {
                LineModel::Blank => line.len() == 0,
                LineModel::Section(name) => bracketed && line == seq!['['] + name + seq![']'],
                LineModel::Pair(key, value) => !bracketed && exists|eq: int|
                    #![trigger line[eq]]
                    {
                        &&& 0 <= eq < line.len() && line[eq] == '='
                        &&& lacks(line.take(eq), '=')
                        &&& key == text::trim(line.take(eq))
                        &&& value == text::trim(line.skip(eq + 1))
                    },
                LineModel::Malformed => !bracketed && line.len() > 0 && lacks(line, '='),
            }
        }),
{
    let line = text::trim(conf::uncommented(raw));
    lemma_first_of(line, '=', 0);
    let eq = conf::first_of(line, '=', 0);
    if line.len() >= 2 && line[0] == '[' && line.last() == ']' {
        assert(line =~= seq!['['] + line.subrange(1, line.len() - 1) + seq![']']);
    }
    if eq < line.len() {
        assert(line.subrange(eq + 1, line.len() as int) =~= line.skip(eq + 1));
        assert(line[eq] == '=');
    }
}

proof fn lemma_first_of(s: Seq<char>, c: char, from: int)
    requires
        0 <= from,
    ensures
        ({
            let at = conf::first_of(s, c, from);
            &&& at <= s.len() || from > s.len()
            &&& from <= at || at == s.len()
            &&& at < s.len() ==> s[at] == c
            &&& forall|i: int| from <= i < at && i < s.len() ==> #[trigger] s[i] != c
        }),
    decreases s.len() - from,
{
    if from < s.len() && s[from] != c {
        lemma_first_of(s, c, from + 1);
    }
}

/// A value loses one pair of quotes around it, if it has one of the same kind, and
/// the white space outside; what is between the quotes stays as it is.
pub proof fn law_values_lose_their_quotes(inner: Seq<char>, quote: char, bare: Seq<char>)
    requires
        quote == '"' || quote == '\'',
        bare.len() > 0 ==> bare[0] != '"' && bare[0] != '\'',
    ensures
        config::unquoted(seq![quote] + inner + seq![quote]) == inner,
        bare.len() > 0 && !text::white_space(bare[0]) && !text::white_space(bare.last())
            ==> config::unquoted(bare) == bare,
{
    let quoted = seq![quote] + inner + seq![quote];
    assert(quoted.last() == quote && quoted[0] == quote);
    lemma_nothing_to_trim(quoted);
    assert(quoted.subrange(1, quoted.len() - 1) =~= inner);
    if bare.len() > 0 && !text::white_space(bare[0]) && !text::white_space(bare.last()) {
        lemma_nothing_to_trim(bare);
    }
}

proof fn lemma_nothing_to_trim(s: Seq<char>)
    requires
        s.len() > 0,
        !text::white_space(s[0]),
        !text::white_space(s.last()),
    ensures
        text::trim(s) == s,
{
}

/// The number that decimal digits spell, read from the left.
pub open spec fn digits_value(s: Seq<char>) -> int
    decreases s.len(),
{
    if s.len() == 0 {
        0
    } else {
        digits_value(s.drop_last()) * 10 + (s.last() as int - 0x30)
    }
}

/// All characters are decimal digits.
pub open spec fn all_digits(s: Seq<char>) -> bool {
    forall|i: int| 0 <= i < s.len() ==> '0' <= #[trigger] s[i] <= '9'
}

/// Digits are read as the number that they spell, if it has 32 bits; a plus sign may
/// stand before them. Anything else is refused.
pub proof fn law_whole_numbers_are_read(s: Seq<char>)
    ensures
        s.len() > 0 && all_digits(s) && digits_value(s) <= u32::MAX ==> config::u32_of(s) == Ok::<
            u32,
            Seq<char>,
        >(digits_value(s) as u32),
        s.len() > 0 && all_digits(s) && digits_value(s) > u32::MAX ==> config::u32_of(s) == Err::<
            u32,
            Seq<char>,
        >("number too large to fit in target type"@),
        s.len() == 0 ==> config::u32_of(s) == Err::<u32, Seq<char>>(
            "cannot parse integer from empty string"@,
        ),
        s.len() > 0 && all_digits(s) ==> config::u32_of(seq!['+'] + s) == config::u32_of(s),
        !all_digits(s) && s.len() > 0 && s[0] != '+' ==> config::u32_of(s) is Err,
{
    if s.len() > 0 {
        lemma_scan(s, 0, 0);
        if all_digits(s) {
            assert(s.skip(0) =~= s);
            assert(s.take(0) =~= Seq::<char>::empty());
            assert(digits_value(s.take(0)) == 0);
            lemma_scan_value(s, 0);
            lemma_scan_shifted(seq!['+'], s, 0, 0);
            assert('0' <= s[0] <= '9');
        }
    }
}

proof fn lemma_scan(s: Seq<char>, i: int, acc: int)
    requires
        0 <= i,
    ensures
        (exists|k: int| i <= k < s.len() && !('0' <= #[trigger] s[k] <= '9')) ==> config::scan_u32(
            s,
            i,
            acc,
        ) is Err,
        (forall|k: int| i <= k < s.len() ==> '0' <= #[trigger] s[k] <= '9') || config::scan_u32(
            s,
            i,
            acc,
        ) is Err,
    decreases s.len() - i,
{
    if i < s.len() && '0' <= s[i] <= '9' {
        lemma_scan(s, i + 1, acc * 10 + (s[i] as int - '0' as int));
    }
}

proof fn lemma_scan_value(s: Seq<char>, i: int)
    requires
        0 <= i <= s.len(),
        all_digits(s),
        digits_value(s.take(i)) <= u32::MAX,
    ensures
        digits_value(s) <= u32::MAX ==> config::scan_u32(s, i, digits_value(s.take(i))) == Ok::<
            u32,
            Seq<char>,
        >(digits_value(s) as u32),
        digits_value(s) > u32::MAX ==> config::scan_u32(s, i, digits_value(s.take(i))) == Err::<
            u32,
            Seq<char>,
        >("number too large to fit in target type"@),
    decreases s.len() - i,
{
    if i < s.len() {
        assert(s.take(i + 1).drop_last() =~= s.take(i));
        assert(s.take(i + 1).last() == s[i]);
        assert('0' <= s[i] <= '9');
        let next = digits_value(s.take(i + 1));
        lemma_digits_grow(s, i + 1);
        if next <= u32::MAX {
            lemma_scan_value(s, i + 1);
        }
    } else {
        assert(s.take(i) =~= s);
    }
}

/// More digits make no smaller number.
pub proof fn lemma_digits_grow(s: Seq<char>, i: int)
    requires
        0 <= i <= s.len(),
        all_digits(s),
    ensures
        0 <= digits_value(s.take(i)) <= digits_value(s),
    decreases s.len(),
{
    if i < s.len() {
        assert forall|k: int| 0 <= k < s.drop_last().len() implies '0' <= #[trigger] s.drop_last()[k]
            <= '9' by {
            assert(s.drop_last()[k] == s[k]);
        }
        lemma_digits_grow(s.drop_last(), i);
        assert(s.drop_last().take(i) =~= s.take(i));
        assert('0' <= s[s.len() - 1] <= '9');
    } else {
        assert(s.take(i) =~= s);
        lemma_digits_positive(s);
    }
}

proof fn lemma_digits_positive(s: Seq<char>)
    requires
        all_digits(s),
    ensures
        0 <= digits_value(s),
    decreases s.len(),
{
    if s.len() > 0 {
        assert forall|k: int| 0 <= k < s.drop_last().len() implies '0' <= #[trigger] s.drop_last()[k]
            <= '9' by {
            assert(s.drop_last()[k] == s[k]);
        }
        lemma_digits_positive(s.drop_last());
        assert('0' <= s[s.len() - 1] <= '9');
    }
}

proof fn lemma_scan_shifted(first: Seq<char>, s: Seq<char>, i: int, acc: int)
    requires
        0 <= i,
    ensures
        config::scan_u32(first + s, first.len() + i, acc) == config::scan_u32(s, i, acc),
    decreases s.len() - i,
{
    if i < s.len() {
        assert((first + s)[first.len() + i] == s[i]);
        if '0' <= s[i] <= '9' {
            lemma_scan_shifted(first, s, i + 1, acc * 10 + (s[i] as int - '0' as int));
        }
    }
}

/// What has been read of a configuration file.
pub open spec fn read_config(source: Seq<char>) -> Result<Progress, Seq<char>> {
    config::after_lines(conf::lines_of(source), conf::lines_of(source).len() as int)
}

/// What has been read of a theme file.
pub open spec fn read_theme(source: Seq<char>) -> Result<DraftModel, Seq<char>> {
    theme::after_lines(conf::lines_of(source), conf::lines_of(source).len() as int)
}

proof fn lemma_one_more_line(source: Seq<char>, line: Seq<char>)
    requires
        lacks(line, '\n'),
    ensures
        conf::lines_of(source + seq!['\n'] + line) == conf::lines_of(source).push(line),
    decreases line.len(),
{
    let all = source + seq!['\n'] + line;
    if line.len() == 0 {
        assert(all =~= source.push('\n'));
        assert(all.drop_last() =~= source);
        assert(line =~= Seq::<char>::empty());
    } else {
        let shorter = line.drop_last();
        assert forall|i: int| 0 <= i < shorter.len() implies #[trigger] shorter[i] != '\n' by {
            assert(shorter[i] == line[i]);
        }
        lemma_one_more_line(source, shorter);
        assert(all.drop_last() =~= source + seq!['\n'] + shorter);
        assert(all.last() == line.last());
        assert(line[line.len() - 1] != '\n');
        assert(shorter.push(line.last()) =~= line);
        let before = conf::lines_of(source).push(shorter);
        assert(all.len() > 0);
        assert(conf::lines_of(all.drop_last()) == before);
        assert(before.drop_last() =~= conf::lines_of(source));
        assert(before.last() == shorter);
    }
}

proof fn lemma_config_prefix(a: Seq<Seq<char>>, b: Seq<Seq<char>>, n: int)
    requires
        n <= a.len(),
        n <= b.len(),
        forall|i: int| 0 <= i < n ==> #[trigger] a[i] == b[i],
    ensures
        config::after_lines(a, n) == config::after_lines(b, n),
        theme::after_lines(a, n) == theme::after_lines(b, n),
    decreases n,
{
    if n > 0 {
        lemma_config_prefix(a, b, n - 1);
        assert(a[n - 1] == b[n - 1]);
    }
}

/// A message about a line of a file.
pub open spec fn told(number: int, what: Seq<char>) -> Seq<char> {
    "line "@ + text::decimal_chars(number as nat) + ": "@ + what
}

/// A line of a configuration file does what it says.
pub open spec fn line_is_heeded(
    p: Progress,
    line: Seq<char>,
    number: int,
    after: Result<Progress, Seq<char>>,
) -> bool {
    match conf::line_model(line) {
        LineModel::Blank => after == Ok::<Progress, Seq<char>>(p),
        LineModel::Section(name) => after == Ok::<Progress, Seq<char>>(
            Progress { section: Some(text::trim(name)), ..p },
        ),
        LineModel::Malformed => after == Err::<Progress, Seq<char>>(
            told(number, "missing `=`"@),
        ),
        LineModel::Pair(key, value) => {
            let full = if p.section is Some {
                p.section->0 + seq!['.'] + key
            } else {
                key
            };
            match config::with_key(p.config, full, value, number) {
                Ok(c) => after == Ok::<Progress, Seq<char>>(Progress { config: c, ..p }),
                Err(e) => after == Err::<Progress, Seq<char>>(e),
            }
        },
    }
}

/// A configuration file is read line by line, with nothing set before the first. A
/// blank line changes nothing. A section holds for the lines after it. A pair sets its
/// key, with the section and a dot before it if there is one. The first line that says
/// nothing, or whose value is refused, refuses the file, and the message has its number.
pub proof fn law_configuration_is_read_by_lines(source: Seq<char>, line: Seq<char>)
    requires
        lacks(line, '\n'),
    ensures
        ({
            let before = read_config(source);
            let after = read_config(source + seq!['\n'] + line);
            let number = conf::lines_of(source).len() + 1;
            &&& before is Err ==> after == before
            &&& before matches Ok(p) ==> line_is_heeded(p, line, number as int, after)
            &&& config::parsed(source) == (match before {
                Ok(p) => Ok::<ConfigModel, Seq<char>>(p.config),
                Err(e) => Err(e),
            })
        }),
        ({
            let nothing = ConfigModel {
                theme: None,
                font: None,
                font_bold: None,
                font_italic: None,
                font_bold_italic: None,
                font_size: None,
                frame_hz: None,
                vi_keybind: None,
            };
            line_is_heeded(
                Progress { config: nothing, section: None },
                line,
                1,
                read_config(line),
            )
        }),
{
    lemma_one_more_line(source, line);
    lemma_one_line(line);
    let lines = conf::lines_of(source);
    lemma_config_prefix(lines, lines.push(line), lines.len() as int);
    reveal_strlit(".");
    assert("."@ =~= seq!['.']);
    reveal_with_fuel(config::after_lines, 2);
}

proof fn lemma_one_line(line: Seq<char>)
    requires
        lacks(line, '\n'),
    ensures
        conf::lines_of(line) == seq![line],
    decreases line.len(),
{
    if line.len() == 0 {
        assert(line =~= Seq::<char>::empty());
    } else {
        let shorter = line.drop_last();
        assert forall|i: int| 0 <= i < shorter.len() implies #[trigger] shorter[i] != '\n' by {
            assert(shorter[i] == line[i]);
        }
        lemma_one_line(shorter);
        assert(line[line.len() - 1] != '\n');
        assert(shorter.push(line.last()) =~= line);
        assert(conf::lines_of(line) =~= seq![line]);
    }
}

/// Whether a text is a decimal number: digits, a point among or beside them, and an
/// exponent after an `e` in either case.
pub open spec fn written(
    whole: Seq<char>,
    fraction: Option<Seq<char>>,
    exponent: Option<(char, Option<char>, Seq<char>)>,
) -> Seq<char> {
    whole + (match fraction {
        Some(f) => seq!['.'] + f,
        None => Seq::empty(),
    }) + (match exponent {
        Some((e, Some(sign), digits)) => seq![e, sign] + digits,
        Some((e, None, digits)) => seq![e] + digits,
        None => Seq::empty(),
    })
}

proof fn lemma_after_digits(before: Seq<char>, digits: Seq<char>, after: Seq<char>, i: int)
    requires
        all_digits(digits),
        after.len() > 0 ==> !('0' <= after[0] <= '9'),
        0 <= i <= digits.len(),
    ensures
        config::after_digits(before + digits + after, before.len() + i) == before.len()
            + digits.len(),
    decreases digits.len() - i,
{
    let s = before + digits + after;
    if i < digits.len() {
        assert(s[before.len() + i] == digits[i]);
        lemma_after_digits(before, digits, after, i + 1);
    } else if after.len() > 0 {
        assert(s[(before.len() + digits.len()) as int] == after[0]);
    }
}

/// The parts of a number that is written in digits.
pub open spec fn are_parts(
    whole: Seq<char>,
    fraction: Option<Seq<char>>,
    exponent: Option<(char, Option<char>, Seq<char>)>,
) -> bool {
    &&& all_digits(whole)
    &&& fraction matches Some(f) ==> all_digits(f)
    &&& exponent matches Some((e, plus, digits)) ==> {
        &&& e == 'e' || e == 'E'
        &&& plus matches Some(p) ==> p == '+' || p == '-'
        &&& all_digits(digits)
    }
}

spec fn point_part(fraction: Option<Seq<char>>) -> Seq<char> {
    match fraction {
        Some(f) => seq!['.'] + f,
        None => Seq::empty(),
    }
}

spec fn exponent_part(exponent: Option<(char, Option<char>, Seq<char>)>) -> Seq<char> {
    match exponent {
        Some((e, Some(p), digits)) => seq![e, p] + digits,
        Some((e, None, digits)) => seq![e] + digits,
        None => Seq::empty(),
    }
}

proof fn lemma_mantissa(
    whole: Seq<char>,
    fraction: Option<Seq<char>>,
    exponent: Option<(char, Option<char>, Seq<char>)>,
)
    requires
        are_parts(whole, fraction, exponent),
    ensures
        ({
            let s = written(whole, fraction, exponent);
            let n = whole.len() as int;
            &&& config::after_digits(s, 0) == n
            &&& fraction is Some ==> n < s.len() && s[n] == '.'
            &&& fraction is None && n < s.len() ==> s[n] != '.'
            &&& fraction matches Some(f) ==> config::after_digits(s, n + 1) == n + 1 + f.len()
        }),
{
    let s = written(whole, fraction, exponent);
    let middle = point_part(fraction);
    let tail = exponent_part(exponent);
    assert(s =~= Seq::<char>::empty() + whole + (middle + tail));
    lemma_after_digits(Seq::empty(), whole, middle + tail, 0);
    if let Some(f) = fraction {
        assert(s =~= (whole + seq!['.']) + f + tail);
        lemma_after_digits(whole + seq!['.'], f, tail, 0);
    } else if whole.len() < s.len() {
        assert(s[whole.len() as int] == tail[0]);
    }
}

proof fn lemma_exponent(
    whole: Seq<char>,
    fraction: Option<Seq<char>>,
    e: char,
    plus: Option<char>,
    digits: Seq<char>,
)
    requires
        are_parts(whole, fraction, Some((e, plus, digits))),
    ensures
        ({
            let s = written(whole, fraction, Some((e, plus, digits)));
            let at = whole.len() + (match fraction {
                Some(f) => 1 + f.len() as int,
                None => 0,
            });
            let from = if plus is Some {
                at + 2
            } else {
                at + 1
            };
            &&& s[at] == e && s.len() == from + digits.len()
            &&& config::after_sign(s, at + 1) == from
            &&& config::after_digits(s, from) == s.len()
        }),
{
    let s = written(whole, fraction, Some((e, plus, digits)));
    let middle = point_part(fraction);
    let at = (whole.len() + middle.len()) as int;
    let head = if plus is Some {
        whole + middle + seq![e, plus->0]
    } else {
        whole + middle + seq![e]
    };
    assert(s =~= head + digits + Seq::<char>::empty());
    lemma_after_digits(head, digits, Seq::empty(), 0);
    assert(s[at] == head[at]);
    if plus is Some {
        assert(s[at + 1] == head[at + 1]);
    } else if digits.len() > 0 {
        assert(s[at + 1] == digits[0]);
        assert('0' <= digits[0] <= '9');
    }
}

/// A size is a decimal number, with or without a point and an exponent, as long as
/// there is a digit beside the point. A sign may stand before it.
pub proof fn law_sizes_are_numbers(
    whole: Seq<char>,
    fraction: Option<Seq<char>>,
    exponent: Option<(char, Option<char>, Seq<char>)>,
    sign: char,
)
    requires
        are_parts(whole, fraction, exponent),
        sign == '+' || sign == '-',
    ensures
        ({
            let s = written(whole, fraction, exponent);
            let good = (whole.len() > 0 || (fraction matches Some(f) && f.len() > 0)) && (exponent
                matches Some((_, _, digits)) ==> digits.len() > 0);
            &&& config::is_number(s) <==> good
            &&& good ==> config::is_float(s) && config::is_float(seq![sign] + s)
        }),
{
    let s = written(whole, fraction, exponent);
    lemma_mantissa(whole, fraction, exponent);
    if let Some((e, plus, digits)) = exponent {
        lemma_exponent(whole, fraction, e, plus, digits);
    }
    if config::is_number(s) {
        if whole.len() > 0 {
            assert(s[0] == whole[0]);
            assert('0' <= whole[0] <= '9');
        }
        assert(s.skip(0) =~= s);
        assert((seq![sign] + s).skip(1) =~= s);
    }
}

/// A hexadecimal digit, in either case, and its value.
pub open spec fn hex_of(c: char) -> int {
    if '0' <= c <= '9' {
        c as int - 0x30
    } else if 'a' <= c <= 'f' {
        c as int - 0x61 + 10
    } else if 'A' <= c <= 'F' {
        c as int - 0x41 + 10
    } else {
        -1
    }
}

/// Six hexadecimal digits are a colour, two for each of red, green and blue, the high
/// digit first; hash signs before them do not matter. A text of another length is
/// none, nor is one with another character in it.
pub proof fn law_colors_are_read(s: Seq<char>)
    requires
        s.len() > 0 ==> s[0] != '#',
    ensures
        ({
            let digits = s.len() == 6 && forall|i: int| 0 <= i < 6 ==> hex_of(#[trigger] s[i]) >= 0;
            &&& digits ==> theme::color_of(s) == Some(
                seq![
                    (hex_of(s[0]) * 16 + hex_of(s[1])) as u8,
                    (hex_of(s[2]) * 16 + hex_of(s[3])) as u8,
                    (hex_of(s[4]) * 16 + hex_of(s[5])) as u8,
                ],
            )
            &&& s.len() != 6 ==> theme::color_of(s) is None
            &&& s.len() == 6 && (hex_of(s[1]) < 0 || hex_of(s[3]) < 0 || hex_of(s[5]) < 0)
                ==> theme::color_of(s) is None
            &&& s.len() == 6 && hex_of(s[0]) < 0 && s[0] != '+' ==> theme::color_of(s) is None
            &&& theme::color_of(seq!['#'] + s) == theme::color_of(s)
        }),
{
    let hashed = seq!['#'] + s;
    assert(hashed.skip(1) =~= s);
    if s.len() == 6 {
        assert(hex_of(s[0]) >= 0 || hex_of(s[0]) < 0);
        assert(hex_of(s[1]) >= 0 || hex_of(s[1]) < 0);
        assert(hex_of(s[2]) >= 0 || hex_of(s[2]) < 0);
        assert(hex_of(s[3]) >= 0 || hex_of(s[3]) < 0);
        assert(hex_of(s[4]) >= 0 || hex_of(s[4]) < 0);
        assert(hex_of(s[5]) >= 0 || hex_of(s[5]) < 0);
    }
}

/// The eight colours are named in the order black, red, green, yellow, blue, magenta,
/// cyan, white; the bright ones come eight places later. There are no other names.
pub proof fn law_names_of_colors(bright: bool, other: Seq<char>)
    ensures
        other != "black"@ && other != "red"@ && other != "green"@ && other != "yellow"@ && other
            != "blue"@ && other != "magenta"@ && other != "cyan"@ && other != "white"@
            ==> theme::palette_place(other, bright) is None,
        ({
            let by: int = if bright {
                8
            } else {
                0
            };
            &&& theme::palette_place("black"@, bright) == Some(by)
            &&& theme::palette_place("red"@, bright) == Some(by + 1)
            &&& theme::palette_place("green"@, bright) == Some(by + 2)
            &&& theme::palette_place("yellow"@, bright) == Some(by + 3)
            &&& theme::palette_place("blue"@, bright) == Some(by + 4)
            &&& theme::palette_place("magenta"@, bright) == Some(by + 5)
            &&& theme::palette_place("cyan"@, bright) == Some(by + 6)
            &&& theme::palette_place("white"@, bright) == Some(by + 7)
        }),
{
    reveal_strlit("black");
    reveal_strlit("red");
    reveal_strlit("green");
    reveal_strlit("yellow");
    reveal_strlit("blue");
    reveal_strlit("magenta");
    reveal_strlit("cyan");
    reveal_strlit("white");
    assert("black"@.len() == 5 && "black"@[0] == 'b');
    assert("red"@.len() == 3);
    assert("green"@.len() == 5 && "green"@[0] == 'g');
    assert("yellow"@.len() == 6);
    assert("blue"@.len() == 4 && "blue"@[0] == 'b');
    assert("magenta"@.len() == 7);
    assert("cyan"@.len() == 4 && "cyan"@[0] == 'c');
    assert("white"@.len() == 5 && "white"@[0] == 'w');
}

/// A theme file names the page's colours under `colors.primary`, the cursor's under
/// `colors.cursor`, and the palette's under `colors.normal` and `colors.bright`. Any
/// other key, and any key in another section, names nothing.
pub proof fn law_theme_sections(d: DraftModel, key: Seq<char>, rgb: Seq<u8>, i: int)
    requires
        d.palette.len() == 16,
        0 <= i < 8,
    ensures
        d.section == "colors.primary"@ ==> {
            &&& theme::with_color(d, "background"@, rgb) == (DraftModel { bg: Some(rgb), ..d })
            &&& theme::with_color(d, "foreground"@, rgb) == (DraftModel { fg: Some(rgb), ..d })
        },
        d.section == "colors.cursor"@ ==> {
            &&& theme::with_color(d, "cursor"@, rgb) == (DraftModel { cursor_bg: Some(rgb), ..d })
            &&& theme::with_color(d, "text"@, rgb) == (DraftModel { cursor_fg: Some(rgb), ..d })
        },
        d.section == "colors.normal"@ && theme::palette_place(key, false) == Some(i)
            ==> theme::with_color(d, key, rgb) == (DraftModel {
            palette: d.palette.update(i, Some(rgb)),
            ..d
        }),
        d.section == "colors.bright"@ && theme::palette_place(key, true) == Some(i + 8)
            ==> theme::with_color(d, key, rgb) == (DraftModel {
            palette: d.palette.update(i + 8, Some(rgb)),
            ..d
        }),
        d.section == "colors.primary"@ && key != "background"@ && key != "foreground"@
            ==> theme::with_color(d, key, rgb) == d,
        d.section == "colors.cursor"@ && key != "cursor"@ && key != "text"@ ==> theme::with_color(
            d,
            key,
            rgb,
        ) == d,
        (d.section == "colors.normal"@ || d.section == "colors.bright"@) && theme::palette_place(
            key,
            false,
        ) is None && theme::palette_place(key, true) is None ==> theme::with_color(d, key, rgb)
            == d,
        d.section != "colors.primary"@ && d.section != "colors.cursor"@ && d.section
            != "colors.normal"@ && d.section != "colors.bright"@ ==> theme::with_color(d, key, rgb)
            == d,
{
    reveal_strlit("colors.primary");
    reveal_strlit("colors.cursor");
    reveal_strlit("colors.normal");
    reveal_strlit("colors.bright");
    reveal_strlit("background");
    reveal_strlit("foreground");
    reveal_strlit("cursor");
    reveal_strlit("text");
    assert("colors.primary"@.len() == 14 && "colors.cursor"@.len() == 13);
    assert("colors.normal"@.len() == 13 && "colors.bright"@.len() == 13);
    assert("colors.cursor"@[7] == 'c' && "colors.normal"@[7] == 'n' && "colors.bright"@[7] == 'b');
    assert("background"@[0] != "foreground"@[0]);
    assert("cursor"@.len() == 6 && "text"@.len() == 4);
}

/// A draft of a theme in which no colour is named.
pub open spec fn no_colors() -> DraftModel {
    DraftModel {
        bg: None,
        fg: None,
        cursor_bg: None,
        cursor_fg: None,
        palette: Seq::new(16, |i: int| None::<Seq<u8>>),
        section: Seq::empty(),
    }
}

/// A line of a theme file does what it says.
pub open spec fn color_is_heeded(
    d: DraftModel,
    line: Seq<char>,
    number: int,
    after: Result<DraftModel, Seq<char>>,
) -> bool {
    match conf::line_model(line) {
        LineModel::Blank => after == Ok::<DraftModel, Seq<char>>(d),
        LineModel::Section(name) => after == Ok::<DraftModel, Seq<char>>(
            DraftModel { section: name, ..d },
        ),
        LineModel::Malformed => after == Err::<DraftModel, Seq<char>>(
            told(number, "missing `=`"@),
        ),
        LineModel::Pair(key, value) => match theme::color_of(theme::bare_value(value)) {
            Some(rgb) => after == Ok::<DraftModel, Seq<char>>(theme::with_color(d, key, rgb)),
            None => after == Err::<DraftModel, Seq<char>>(
                told(number, "bad color "@ + text::debug_quoted(theme::bare_value(value))),
            ),
        },
    }
}

proof fn lemma_bad_color(line: Seq<char>, number: int)
    ensures
        conf::line_model(line) matches LineModel::Pair(_, value) ==> theme::bad_color(
            number,
            theme::bare_value(value),
        ) == told(number, "bad color "@ + text::debug_quoted(theme::bare_value(value))),
{
    if let LineModel::Pair(_, value) = conf::line_model(line) {
        let label = conf::line_label(number);
        let quoted = text::debug_quoted(theme::bare_value(value));
        assert(label + "bad color "@ + quoted =~= label + ("bad color "@ + quoted));
    }
}

/// A theme file is read line by line: a section holds for the lines after it, and a
/// pair must have a colour for its value, in quotes or not, which it names. The first
/// line that is neither, nor blank, refuses the file.
pub proof fn law_theme_is_read_by_lines(source: Seq<char>, line: Seq<char>)
    requires
        lacks(line, '\n'),
    ensures
        ({
            let before = read_theme(source);
            let after = read_theme(source + seq!['\n'] + line);
            let number = conf::lines_of(source).len() as int + 1;
            &&& before is Err ==> after == before
            &&& before matches Ok(d) ==> color_is_heeded(d, line, number, after)
        }),
        color_is_heeded(no_colors(), line, 1, read_theme(line)),
{
    lemma_one_more_line(source, line);
    lemma_one_line(line);
    reveal_with_fuel(theme::after_lines, 2);
    let lines = conf::lines_of(source);
    lemma_config_prefix(lines, lines.push(line), lines.len() as int);
    lemma_bad_color(line, lines.len() as int + 1);
    lemma_bad_color(line, 1);
}

/// A colour loses all quotes on both sides, whatever their kind.
pub proof fn law_colors_lose_their_quotes(open: Seq<char>, inner: Seq<char>, close: Seq<char>)
    requires
        forall|i: int| 0 <= i < open.len() ==> #[trigger] open[i] == '"' || open[i] == '\'',
        forall|i: int| 0 <= i < close.len() ==> #[trigger] close[i] == '"' || close[i] == '\'',
        inner.len() > 0,
        inner[0] != '"' && inner[0] != '\'',
        inner.last() != '"' && inner.last() != '\'',
    ensures
        theme::bare_value(open + inner + close) == inner,
    decreases open.len() + close.len(),
{
    let all = open + inner + close;
    if open.len() > 0 {
        assert(all[0] == open[0]);
        assert(all.skip(1) =~= open.skip(1) + inner + close);
        assert forall|i: int| 0 <= i < open.skip(1).len() implies #[trigger] open.skip(1)[i] == '"'
            || open.skip(1)[i] == '\'' by {
            assert(open.skip(1)[i] == open[i + 1]);
        }
        law_colors_lose_their_quotes(open.skip(1), inner, close);
    } else {
        assert(all =~= inner + close);
        assert(all[0] == inner[0]);
        assert(theme::without_open_quotes(all) == all);
        if close.len() > 0 {
            let less = close.drop_last();
            assert(all.last() == close[close.len() - 1]);
            assert(all.drop_last() =~= open + inner + less);
            assert forall|i: int| 0 <= i < less.len() implies #[trigger] less[i] == '"' || less[i]
                == '\'' by {
                assert(less[i] == close[i]);
            }
            law_colors_lose_their_quotes(open, inner, less);
            assert((open + inner + less)[0] == inner[0]);
            assert(theme::without_open_quotes(open + inner + less) == open + inner + less);
        } else {
            assert(all =~= inner);
        }
    }
}

proof fn lemma_palette_has_sixteen(lines: Seq<Seq<char>>, n: int)
    ensures
        theme::after_lines(lines, n) matches Ok(d) ==> d.palette.len() == 16,
    decreases n,
{
    if n > 0 {
        lemma_palette_has_sixteen(lines, n - 1);
    }
}

/// A theme has the name it was given and the colours that its file names. Background,
/// text and all sixteen colours of the palette must be named, and the message has the
/// first of them that is not; the cursor is the text's colour with the background's for
/// its text where it is not named.
pub proof fn law_theme_has_the_named_colors(
    name: Seq<char>,
    source: Seq<char>,
    result: Result<ThemeModel, Seq<char>>,
    i: int,
)
    requires
        theme::is_parsed_theme(name, source, result),
        0 <= i < 16,
    ensures
        ({
            let read = read_theme(source);
            let d = read->Ok_0;
            let t = result->Ok_0;
            let refused = |what: Seq<char>| result == Err::<ThemeModel, Seq<char>>(what);
            &&& read is Err ==> result is Err && result->Err_0 == read->Err_0
            &&& read is Ok && d.bg is None ==> refused("missing colors.primary.background"@)
            &&& read is Ok && d.bg is Some && d.fg is None ==> refused(
                "missing colors.primary.foreground"@,
            )
            &&& read is Ok && d.bg is Some && d.fg is Some && d.palette[i] is None && (forall|
                k: int,
            |
                0 <= k < i ==> (#[trigger] d.palette[k]) is Some) ==> refused(
                "missing palette index "@ + text::decimal_chars(i as nat),
            )
            &&& read is Ok && d.bg is Some && d.fg is Some && (forall|k: int|
                0 <= k < 16 ==> (#[trigger] d.palette[k]) is Some) ==> result is Ok
            &&& result is Ok ==> {
                &&& t.name == name
                &&& t.bg@ == d.bg->0 && t.fg@ == d.fg->0
                &&& t.palette.len() == 16 && t.palette[i]@ == d.palette[i]->0
                &&& t.cursor_bg@ == (if d.cursor_bg is Some {
                    d.cursor_bg->0
                } else {
                    d.fg->0
                })
                &&& t.cursor_fg@ == (if d.cursor_fg is Some {
                    d.cursor_fg->0
                } else {
                    d.bg->0
                })
            }
        }),
{
    let read = read_theme(source);
    lemma_palette_has_sixteen(
        conf::lines_of(source),
        conf::lines_of(source).len() as int,
    );
    if let Ok(d) = read {
        lemma_first_missing(d.palette, 0, i);
        if result is Ok {
            let t = result->Ok_0;
            let all = Seq::new(t.palette.len(), |k: int| t.palette[k]@);
            let wanted = Seq::new(16, |k: int| d.palette[k]->0);
            assert(theme::theme_colors(t).4 == all);
            assert(all == wanted);
            assert(all.len() == 16 && all[i] == wanted[i]);
        }
    }
}

proof fn lemma_first_missing(palette: Seq<Option<Seq<u8>>>, from: int, i: int)
    requires
        0 <= from <= 16,
        palette.len() == 16,
    ensures
        ({
            let at = theme::first_missing(palette, from);
            &&& from <= at <= 16
            &&& at < 16 ==> palette[at] is None
            &&& from <= i < at ==> palette[i] is Some
        }),
    decreases 16 - from,
{
    if from < 16 && palette[from] is Some {
        lemma_first_missing(palette, from + 1, i);
    }
}

} // verus!
