//! User configuration: what the keys of the configuration file mean.
//!
//! Unknown keys are ignored, so that a file written for another version still
//! loads.

use vstd::prelude::*;

use crate::conf;
use crate::conf::{Line, LineModel};
use crate::text;

verus! {

/// The settings of a configuration file. What is not set is `None`.
#[derive(Debug)]
pub struct Config {
    pub theme: Option<String>,
    pub font: Option<String>,
    pub font_bold: Option<String>,
    pub font_italic: Option<String>,
    pub font_bold_italic: Option<String>,
    /// The font size in pixels as it was written, a decimal number.
    pub font_size: Option<String>,
    pub frame_hz: Option<u32>,
    pub vi_keybind: Option<String>,
}

/// The settings as mathematical values.
#[verifier::ext_equal]
pub struct ConfigModel {
    pub theme: Option<Seq<char>>,
    pub font: Option<Seq<char>>,
    pub font_bold: Option<Seq<char>>,
    pub font_italic: Option<Seq<char>>,
    pub font_bold_italic: Option<Seq<char>>,
    pub font_size: Option<Seq<char>>,
    pub frame_hz: Option<u32>,
    pub vi_keybind: Option<Seq<char>>,
}

/// The contents of an optional text.
pub open spec fn string_in(s: Option<String>) -> Option<Seq<char>> {
    match s {
        Some(t) => Some(t@),
        None => None,
    }
}

impl View for Config {
    type V = ConfigModel;

    open spec fn view(&self) -> ConfigModel {
        ConfigModel {
            theme: string_in(self.theme),
            font: string_in(self.font),
            font_bold: string_in(self.font_bold),
            font_italic: string_in(self.font_italic),
            font_bold_italic: string_in(self.font_bold_italic),
            font_size: string_in(self.font_size),
            frame_hz: self.frame_hz,
            vi_keybind: string_in(self.vi_keybind),
        }
    }
}

impl ConfigModel {
    /// Nothing set.
    pub open spec fn unset() -> ConfigModel {
        ConfigModel {
            theme: None,
            font: None,
            font_bold: None,
            font_italic: None,
            font_bold_italic: None,
            font_size: None,
            frame_hz: None,
            vi_keybind: None,
        }
    }
}

impl Default for Config {
    fn default() -> (c: Self)
        ensures
            c@ == ConfigModel::unset(),
    {
        Config {
            theme: None,
            font: None,
            font_bold: None,
            font_italic: None,
            font_bold_italic: None,
            font_size: None,
            frame_hz: None,
            vi_keybind: None,
        }
    }
}

/// A value without the quotes around it.
pub open spec fn unquoted(value: Seq<char>) -> Seq<char> {
    let s = text::trim(value);
    if s.len() >= 2 && ((s[0] == '"' && s.last() == '"') || (s[0] == '\'' && s.last() == '\'')) {
        s.subrange(1, s.len() - 1)
    } else {
        s
    }
}

/// A value without the quotes around it.
pub fn unquote(value: &[char]) -> (rest: Vec<char>)
    ensures
        rest@ == unquoted(value@),
{
    let s = text::trimmed(value);
    let n: usize = s.len();
    if n >= 2 && ((s[0] == '"' && s[n - 1] == '"') || (s[0] == '\'' && s[n - 1] == '\'')) {
        text::part_of(s.as_slice(), 1, n - 1)
    } else {
        s
    }
}

/// A decimal digit.
pub open spec fn is_digit(c: char) -> bool {
    '0' <= c <= '9'
}

/// The place after the digits that begin at `i`.
pub open spec fn after_digits(s: Seq<char>, i: int) -> int
    decreases s.len() - i,
{
    if 0 <= i < s.len() && is_digit(s[i]) {
        after_digits(s, i + 1)
    } else {
        i
    }
}

/// Whether a sign stands at `i`.
pub open spec fn sign_at(s: Seq<char>, i: int) -> bool {
    0 <= i < s.len() && (s[i] == '+' || s[i] == '-')
}

/// The place after an optional sign at `i`.
pub open spec fn after_sign(s: Seq<char>, i: int) -> int {
    if sign_at(s, i) {
        i + 1
    } else {
        i
    }
}

/// A decimal number without a sign: digits with at most one point among or
/// beside them, and an optional exponent.
pub open spec fn is_number(s: Seq<char>) -> bool {
    let whole = after_digits(s, 0);
    let point = whole < s.len() && s[whole] == '.';
    let fraction = if point {
        after_digits(s, whole + 1)
    } else {
        whole
    };
    let digits = whole > 0 || fraction > whole + 1;
    let exponent = after_sign(s, fraction + 1);
    digits && (fraction == s.len() || ((s[fraction] == 'e' || s[fraction] == 'E') && after_digits(
        s,
        exponent,
    ) > exponent && after_digits(s, exponent) == s.len()))
}

/// A floating-point number as it can be written: an optional sign, then a
/// decimal number, or infinity or not-a-number by name.
pub open spec fn is_float(s: Seq<char>) -> bool {
    let rest = s.skip(after_sign(s, 0));
    let name = text::ascii_lowered(rest);
    is_number(rest) || name == "inf"@ || name == "infinity"@ || name == "nan"@
}

/// The place after the digits that begin at `i`.
fn skip_digits(s: &[char], i: usize) -> (end: usize)
    requires
        i <= s@.len(),
    ensures
        end == after_digits(s@, i as int),
        i <= end <= s@.len(),
{
    let mut end: usize = i;
    while end < s.len() && '0' <= s[end] && s[end] <= '9'
        invariant
            i <= end <= s@.len(),
            after_digits(s@, i as int) == after_digits(s@, end as int),
        decreases s@.len() - end,
    {
        end += 1;
    }
    end
}

/// Whether a text is a decimal number without a sign.
fn reads_as_number(s: &[char]) -> (yes: bool)
    ensures
        yes == is_number(s@),
{
    let n: usize = s.len();
    let whole: usize = skip_digits(s, 0);
    let point: bool = whole < n && s[whole] == '.';
    let fraction: usize = if point {
        skip_digits(s, whole + 1)
    } else {
        whole
    };
    let digits: bool = whole > 0 || (point && fraction > whole + 1);
    if !digits {
        return false;
    }
    if fraction == n {
        return true;
    }
    if s[fraction] != 'e' && s[fraction] != 'E' {
        return false;
    }
    let after: usize = fraction + 1;
    let exponent: usize = if after < n && (s[after] == '+' || s[after] == '-') {
        after + 1
    } else {
        after
    };
    let end: usize = skip_digits(s, exponent);
    end > exponent && end == n
}

/// Whether a text is a word in any case.
fn is_word(s: &[char], word: &str) -> (yes: bool)
    ensures
        yes == (text::ascii_lowered(s@) == word@),
{
    let low = text::lower_ascii(s);
    text::chars_are(low.as_slice(), word)
}

/// Whether a text is a floating-point number.
pub fn reads_as_float(s: &[char]) -> (yes: bool)
    ensures
        yes == is_float(s@),
{
    let n: usize = s.len();
    let start: usize = if n > 0 && (s[0] == '+' || s[0] == '-') {
        1
    } else {
        0
    };
    let rest = vstd::slice::slice_subrange(s, start, n);
    assert(rest@ =~= s@.skip(after_sign(s@, 0)));
    reads_as_number(rest) || is_word(rest, "inf") || is_word(rest, "infinity") || is_word(
        rest,
        "nan",
    )
}

/// The message for a value that is no floating-point number.
pub open spec fn bad_float(s: Seq<char>) -> Seq<char> {
    if s.len() == 0 {
        "cannot parse float from empty string"@
    } else {
        "invalid float literal"@
    }
}

/// The number that the digits from `i` on make after `acc`, or what is wrong.
pub open spec fn scan_u32(s: Seq<char>, i: int, acc: int) -> Result<u32, Seq<char>>
    decreases s.len() - i,
{
    if i >= s.len() {
        Ok(acc as u32)
    } else if !is_digit(s[i]) {
        Err("invalid digit found in string"@)
    } else {
        let next = acc * 10 + (s[i] as int - '0' as int);
        if next > u32::MAX {
            Err("number too large to fit in target type"@)
        } else {
            scan_u32(s, i + 1, next)
        }
    }
}

/// A whole number as it can be written: decimal digits after an optional plus
/// sign.
pub open spec fn u32_of(s: Seq<char>) -> Result<u32, Seq<char>> {
    if s.len() == 0 {
        Err("cannot parse integer from empty string"@)
    } else if s.len() > 1 && s[0] == '+' {
        scan_u32(s, 1, 0)
    } else {
        scan_u32(s, 0, 0)
    }
}

/// The contents of a result with a text for its error.
pub open spec fn result_in<T>(r: Result<T, String>) -> Result<T, Seq<char>> {
    match r {
        Ok(v) => Ok(v),
        Err(e) => Err(e@),
    }
}

/// Reads a whole number.
pub fn read_u32(s: &[char]) -> (n: Result<u32, String>)
    ensures
        result_in(n) == u32_of(s@),
{
    if s.len() == 0 {
        return Err("cannot parse integer from empty string".to_owned());
    }
    let start: usize = if s.len() > 1 && s[0] == '+' {
        1
    } else {
        0
    };
    let mut i: usize = start;
    let mut acc: u64 = 0;
    while i < s.len()
        invariant
            start <= i <= s@.len(),
            acc <= u32::MAX,
            scan_u32(s@, start as int, 0) == scan_u32(s@, i as int, acc as int),
            s@.len() > 0,
            start == (if s@.len() > 1 && s@[0] == '+' {
                1int
            } else {
                0
            }),
        decreases s@.len() - i,
    {
        let c: char = s[i];
        if c < '0' || c > '9' {
            return Err("invalid digit found in string".to_owned());
        }
        let digit: u64 = (c as u64) - 48;
        let next: u64 = acc * 10 + digit;
        if next > u32::MAX as u64 {
            return Err("number too large to fit in target type".to_owned());
        }
        acc = next;
        i += 1;
    }
    Ok(acc as u32)
}

/// The message for a bad number.
pub open spec fn bad_number(line: int, name: Seq<char>, what: Seq<char>) -> Seq<char> {
    conf::line_label(line) + "bad "@ + name + ": "@ + what
}

/// The message for a bad number.
fn bad_number_message(line: usize, name: &str, what: &str) -> (message: String)
    ensures
        message@ == bad_number(line as int, name@, what@),
{
    let mut message = conf::start_message(line);
    message.append("bad ");
    message.append(name);
    message.append(": ");
    message.append(what);
    assert(message@ =~= bad_number(line as int, name@, what@));
    message
}

/// A key with and without its section means the same.
pub open spec fn is_key(key: Seq<char>, sectioned: Seq<char>, bare: Seq<char>) -> bool {
    key == sectioned || key == bare
}

/// The key that binds vi mode.
pub open spec fn is_vi_key(key: Seq<char>) -> bool {
    ||| is_key(key, "keybinds.vi_mode"@, "vi_mode"@)
    ||| is_key(key, "keybinds.vi_keybind"@, "vi_keybind"@)
    ||| is_key(key, "keybinds.vi_key"@, "vi_key"@)
}

/// The settings after one more key, or the message for a bad number.
pub open spec fn with_key(
    c: ConfigModel,
    key: Seq<char>,
    value: Seq<char>,
    line: int,
) -> Result<ConfigModel, Seq<char>> {
    let s = unquoted(value);
    if is_key(key, "appearance.theme"@, "theme"@) {
        Ok(ConfigModel { theme: Some(s), ..c })
    } else if is_key(key, "appearance.font"@, "font"@) {
        Ok(ConfigModel { font: Some(s), ..c })
    } else if is_key(key, "appearance.font_bold"@, "font_bold"@) {
        Ok(ConfigModel { font_bold: Some(s), ..c })
    } else if is_key(key, "appearance.font_italic"@, "font_italic"@) {
        Ok(ConfigModel { font_italic: Some(s), ..c })
    } else if is_key(key, "appearance.font_bold_italic"@, "font_bold_italic"@) {
        Ok(ConfigModel { font_bold_italic: Some(s), ..c })
    } else if is_key(key, "appearance.font_size"@, "font_size"@) {
        if is_float(s) {
            Ok(ConfigModel { font_size: Some(s), ..c })
        } else {
            Err(bad_number(line, "font_size"@, bad_float(s)))
        }
    } else if is_key(key, "behavior.frame_hz"@, "frame_hz"@) {
        match u32_of(s) {
            Ok(n) => Ok(ConfigModel { frame_hz: Some(n), ..c }),
            Err(what) => Err(bad_number(line, "frame_hz"@, what)),
        }
    } else if is_vi_key(key) {
        Ok(ConfigModel { vi_keybind: Some(s), ..c })
    } else {
        Ok(c)
    }
}

fn is_key_text(key: &[char], sectioned: &str, bare: &str) -> (yes: bool)
    ensures
        yes == is_key(key@, sectioned@, bare@),
{
    text::chars_are(key, sectioned) || text::chars_are(key, bare)
}

/// The contents of a result of reading settings.
pub open spec fn config_in(r: Result<Config, String>) -> Result<ConfigModel, Seq<char>> {
    match r {
        Ok(c) => Ok(c@),
        Err(e) => Err(e@),
    }
}

/// Applies one key to the settings.
fn apply_key(config: Config, key: &[char], raw_value: &[char], line: usize) -> (result: Result<
    Config,
    String,
>)
    ensures
        config_in(result) == with_key(config@, key@, raw_value@, line as int),
{
    let mut config = config;
    let value = unquote(raw_value);
    let s = text::string_of(value.as_slice());
    if is_key_text(key, "appearance.theme", "theme") {
        config.theme = Some(s);
    } else if is_key_text(key, "appearance.font", "font") {
        config.font = Some(s);
    } else if is_key_text(key, "appearance.font_bold", "font_bold") {
        config.font_bold = Some(s);
    } else if is_key_text(key, "appearance.font_italic", "font_italic") {
        config.font_italic = Some(s);
    } else if is_key_text(key, "appearance.font_bold_italic", "font_bold_italic") {
        config.font_bold_italic = Some(s);
    } else if is_key_text(key, "appearance.font_size", "font_size") {
        if !reads_as_float(value.as_slice()) {
            let what = if value.len() == 0 {
                "cannot parse float from empty string"
            } else {
                "invalid float literal"
            };
            return Err(bad_number_message(line, "font_size", what));
        }
        config.font_size = Some(s);
    } else if is_key_text(key, "behavior.frame_hz", "frame_hz") {
        match read_u32(value.as_slice()) {
            Ok(n) => {
                config.frame_hz = Some(n);
            },
            Err(what) => {
                return Err(bad_number_message(line, "frame_hz", what.as_str()));
            },
        }
    } else if is_key_text(key, "keybinds.vi_mode", "vi_mode") || is_key_text(
        key,
        "keybinds.vi_keybind",
        "vi_keybind",
    ) || is_key_text(key, "keybinds.vi_key", "vi_key") {
        config.vi_keybind = Some(s);
    }
    Ok(config)
}

/// A key with the section it stands in.
pub open spec fn qualified(section: Option<Seq<char>>, key: Seq<char>) -> Seq<char> {
    match section {
        Some(s) => s + "."@ + key,
        None => key,
    }
}

/// Settings and current section after some lines.
#[verifier::ext_equal]
pub struct Progress {
    pub config: ConfigModel,
    pub section: Option<Seq<char>>,
}

/// One more line read.
pub open spec fn after_line(p: Progress, raw: Seq<char>, number: int) -> Result<
    Progress,
    Seq<char>,
> {
    match conf::line_model(raw) {
        LineModel::Blank => Ok(p),
        LineModel::Section(name) => Ok(Progress { section: Some(text::trim(name)), ..p }),
        LineModel::Pair(key, value) => match with_key(
            p.config,
            qualified(p.section, key),
            value,
            number,
        ) {
            Ok(config) => Ok(Progress { config, ..p }),
            Err(e) => Err(e),
        },
        LineModel::Malformed => Err(conf::missing_equals(number)),
    }
}

/// The first `n` lines read. The first bad line ends it.
pub open spec fn after_lines(lines: Seq<Seq<char>>, n: int) -> Result<Progress, Seq<char>>
    decreases n,
{
    if n <= 0 {
        Ok(Progress { config: ConfigModel::unset(), section: None })
    } else {
        match after_lines(lines, n - 1) {
            Ok(p) => after_line(p, lines[n - 1], n),
            Err(e) => Err(e),
        }
    }
}

/// The settings that a file holds.
pub open spec fn parsed(source: Seq<char>) -> Result<ConfigModel, Seq<char>> {
    let lines = conf::lines_of(source);
    match after_lines(lines, lines.len() as int) {
        Ok(p) => Ok(p.config),
        Err(e) => Err(e),
    }
}

/// A key with the section it stands in.
fn qualify(section: &Option<Vec<char>>, key: Vec<char>) -> (full: Vec<char>)
    ensures
        full@ == qualified(
            match section {
                Some(s) => Some(s@),
                None => None,
            },
            key@,
        ),
{
    match section {
        None => key,
        Some(s) => {
            let mut full = s.clone();
            let mut dot = text::chars_of(".");
            let mut key = key;
            let ghost name = s@;
            let ghost last = key@;
            full.append(&mut dot);
            full.append(&mut key);
            assert(full@ =~= name + "."@ + last);
            full
        },
    }
}

/// An error from some line on is the error of the whole.
proof fn lemma_error_stays(lines: Seq<Seq<char>>, n: int, m: int)
    requires
        0 <= n <= m,
        after_lines(lines, n) is Err,
    ensures
        after_lines(lines, m) == after_lines(lines, n),
    decreases m,
{
    if n < m {
        lemma_error_stays(lines, n, m - 1);
    }
}

/// Reads a configuration file. A line that is neither a section nor a pair,
/// and a number that cannot be read, make the whole file an error that names
/// the line.
pub fn parse(src: &str) -> (result: Result<Config, String>)
    ensures
        config_in(result) == parsed(src@),
{
    let lines = text::split(text::chars_of(src).as_slice(), '\n');
    let ghost all = conf::lines_of(src@);
    let mut config = Config::default();
    let mut section: Option<Vec<char>> = None;
    let mut i: usize = 0;
    while i < lines.len()
        invariant
            i <= lines@.len(),
            all == conf::lines_of(src@),
            text::char_lists(lines@) == all,
            after_lines(all, i as int) == Ok::<Progress, Seq<char>>(
                Progress {
                    config: config@,
                    section: match section {
                        Some(s) => Some(s@),
                        None => None,
                    },
                },
            ),
        decreases lines@.len() - i,
    {
        assert(all[i as int] == lines@[i as int]@);
        assert(after_lines(all, i + 1) == after_line(
            after_lines(all, i as int)->Ok_0,
            all[i as int],
            i + 1,
        ));
        match conf::read_line(lines[i].as_slice()) {
            Line::Blank => {},
            Line::Section(name) => {
                section = Some(text::trimmed(name.as_slice()));
            },
            Line::Pair(key, value) => {
                let full = qualify(&section, key);
                match apply_key(config, full.as_slice(), value.as_slice(), i + 1) {
                    Ok(c) => {
                        config = c;
                    },
                    Err(e) => {
                        proof {
                            lemma_error_stays(all, i + 1, all.len() as int);
                        }
                        return Err(e);
                    },
                }
            },
            Line::Malformed => {
                proof {
                    lemma_error_stays(all, i + 1, all.len() as int);
                }
                return Err(conf::missing_equals_message(i + 1));
            },
        }
        i += 1;
    }
    Ok(config)
}

/// A key that means nothing here is not an error and changes nothing.
pub proof fn law_unknown_keys_are_ignored(c: ConfigModel, key: Seq<char>, value: Seq<char>, line: int)
    requires
        !is_key(key, "appearance.theme"@, "theme"@),
        !is_key(key, "appearance.font"@, "font"@),
        !is_key(key, "appearance.font_bold"@, "font_bold"@),
        !is_key(key, "appearance.font_italic"@, "font_italic"@),
        !is_key(key, "appearance.font_bold_italic"@, "font_bold_italic"@),
        !is_key(key, "appearance.font_size"@, "font_size"@),
        !is_key(key, "behavior.frame_hz"@, "frame_hz"@),
        !is_vi_key(key),
    ensures
        with_key(c, key, value, line) == Ok::<ConfigModel, Seq<char>>(c),
{
}

/// A key means the same with its section and without.
pub proof fn law_sections_are_optional(c: ConfigModel, value: Seq<char>, line: int)
    ensures
        with_key(c, "appearance.theme"@, value, line) == with_key(c, "theme"@, value, line),
        with_key(c, "appearance.font"@, value, line) == with_key(c, "font"@, value, line),
        with_key(c, "appearance.font_bold"@, value, line) == with_key(
            c,
            "font_bold"@,
            value,
            line,
        ),
        with_key(c, "appearance.font_italic"@, value, line) == with_key(
            c,
            "font_italic"@,
            value,
            line,
        ),
        with_key(c, "appearance.font_bold_italic"@, value, line) == with_key(
            c,
            "font_bold_italic"@,
            value,
            line,
        ),
        with_key(c, "appearance.font_size"@, value, line) == with_key(
            c,
            "font_size"@,
            value,
            line,
        ),
        with_key(c, "behavior.frame_hz"@, value, line) == with_key(c, "frame_hz"@, value, line),
        with_key(c, "keybinds.vi_key"@, value, line) == with_key(c, "vi_key"@, value, line),
        with_key(c, "keybinds.vi_mode"@, value, line) == with_key(c, "vi_mode"@, value, line),
        with_key(c, "keybinds.vi_keybind"@, value, line) == with_key(
            c,
            "vi_keybind"@,
            value,
            line,
        ),
{
    lemma_keys_differ();
}

/// No key is also the name of another setting.
proof fn lemma_keys_differ()
    ensures
        "theme"@.len() == 5,
        "font"@.len() == 4,
        "font_bold"@.len() == 9,
        "font_italic"@.len() == 11,
        "font_bold_italic"@.len() == 16,
        "font_size"@.len() == 9,
        "frame_hz"@.len() == 8,
        "vi_key"@.len() == 6,
        "vi_mode"@.len() == 7,
        "vi_keybind"@.len() == 10,
        "appearance.theme"@.len() == 16,
        "appearance.font"@.len() == 15,
        "appearance.font_bold"@.len() == 20,
        "appearance.font_italic"@.len() == 22,
        "appearance.font_bold_italic"@.len() == 27,
        "appearance.font_size"@.len() == 20,
        "behavior.frame_hz"@.len() == 17,
        "keybinds.vi_key"@.len() == 15,
        "keybinds.vi_mode"@.len() == 16,
        "keybinds.vi_keybind"@.len() == 19,
        "font_size"@ != "font_bold"@,
        "appearance.font_size"@ != "appearance.font_bold"@,
        "appearance.theme"@ != "font_bold_italic"@,
        "appearance.theme"@ != "keybinds.vi_mode"@,
        "font_bold_italic"@ != "keybinds.vi_mode"@,
        "appearance.font"@ != "keybinds.vi_key"@,
{
    reveal_strlit("theme");
    reveal_strlit("font");
    reveal_strlit("font_bold");
    reveal_strlit("font_italic");
    reveal_strlit("font_bold_italic");
    reveal_strlit("font_size");
    reveal_strlit("frame_hz");
    reveal_strlit("vi_key");
    reveal_strlit("vi_mode");
    reveal_strlit("vi_keybind");
    reveal_strlit("appearance.theme");
    reveal_strlit("appearance.font");
    reveal_strlit("appearance.font_bold");
    reveal_strlit("appearance.font_italic");
    reveal_strlit("appearance.font_bold_italic");
    reveal_strlit("appearance.font_size");
    reveal_strlit("behavior.frame_hz");
    reveal_strlit("keybinds.vi_key");
    reveal_strlit("keybinds.vi_mode");
    reveal_strlit("keybinds.vi_keybind");
    assert("font_size"@[5] != "font_bold"@[5]);
    assert("appearance.font_size"@[16] != "appearance.font_bold"@[16]);
    assert("appearance.theme"@[0] == 'a');
    assert("font_bold_italic"@[0] == 'f');
    assert("keybinds.vi_mode"@[0] == 'k');
    assert("appearance.font"@[0] != "keybinds.vi_key"@[0]);
}

/// Each key sets its own setting to the value without its quotes, and no other. A
/// number that is none is refused.
pub proof fn law_keys_set_what_they_name(c: ConfigModel, value: Seq<char>, line: int)
    ensures
        ({
            let s = unquoted(value);
            let set = |key: Seq<char>, to: ConfigModel|
                with_key(c, key, value, line) == Ok::<ConfigModel, Seq<char>>(to);
            &&& set("appearance.theme"@, ConfigModel { theme: Some(s), ..c })
            &&& set("appearance.font"@, ConfigModel { font: Some(s), ..c })
            &&& set("appearance.font_bold"@, ConfigModel { font_bold: Some(s), ..c })
            &&& set("appearance.font_italic"@, ConfigModel { font_italic: Some(s), ..c })
            &&& set(
                "appearance.font_bold_italic"@,
                ConfigModel { font_bold_italic: Some(s), ..c },
            )
            &&& set("keybinds.vi_key"@, ConfigModel { vi_keybind: Some(s), ..c })
            &&& set("keybinds.vi_mode"@, ConfigModel { vi_keybind: Some(s), ..c })
            &&& set("keybinds.vi_keybind"@, ConfigModel { vi_keybind: Some(s), ..c })
            &&& is_float(s) ==> set(
                "appearance.font_size"@,
                ConfigModel { font_size: Some(s), ..c },
            )
            &&& !is_float(s) ==> with_key(c, "appearance.font_size"@, value, line) == Err::<
                ConfigModel,
                Seq<char>,
            >(
                "line "@ + text::decimal_chars(line as nat) + ": "@ + "bad "@ + "font_size"@ + ": "@
                    + (if s.len() == 0 {
                    "cannot parse float from empty string"@
                } else {
                    "invalid float literal"@
                }),
            )
            &&& u32_of(s) matches Ok(n) ==> set(
                "behavior.frame_hz"@,
                ConfigModel { frame_hz: Some(n), ..c },
            )
            &&& u32_of(s) matches Err(what) ==> with_key(c, "behavior.frame_hz"@, value, line)
                == Err::<ConfigModel, Seq<char>>(
                "line "@ + text::decimal_chars(line as nat) + ": "@ + "bad "@ + "frame_hz"@ + ": "@
                    + what,
            )
        }),
{
    lemma_keys_differ();
}

} // verus!
