//! Colour themes: reading theme files and finding a theme by name.

use vstd::prelude::*;

use crate::conf;
use crate::conf::{Line, LineModel};
use crate::text;

verus! {

/// A colour theme: the 16 base colours, the default colours and the cursor.
#[derive(Debug)]
pub struct Theme {
    pub name: String,
    pub bg: [u8; 3],
    pub fg: [u8; 3],
    pub cursor_bg: [u8; 3],
    pub cursor_fg: [u8; 3],
    pub palette: [[u8; 3]; 16],
}

impl Clone for Theme {
    fn clone(&self) -> (t: Self)
        ensures
            t@ == self@,
    {
        Theme {
            name: self.name.clone(),
            bg: self.bg,
            fg: self.fg,
            cursor_bg: self.cursor_bg,
            cursor_fg: self.cursor_fg,
            palette: self.palette,
        }
    }
}

/// A theme that is part of the program.
pub struct BuiltinTheme {
    pub name: &'static str,
    pub bg: [u8; 3],
    pub fg: [u8; 3],
    pub cursor_bg: [u8; 3],
    pub cursor_fg: [u8; 3],
    pub palette: [[u8; 3]; 16],
}

/// A theme as a mathematical value.
#[verifier::ext_equal]
pub struct ThemeModel {
    pub name: Seq<char>,
    pub bg: [u8; 3],
    pub fg: [u8; 3],
    pub cursor_bg: [u8; 3],
    pub cursor_fg: [u8; 3],
    pub palette: Seq<[u8; 3]>,
}

impl View for Theme {
    type V = ThemeModel;

    open spec fn view(&self) -> ThemeModel {
        ThemeModel {
            name: self.name@,
            bg: self.bg,
            fg: self.fg,
            cursor_bg: self.cursor_bg,
            cursor_fg: self.cursor_fg,
            palette: self.palette@,
        }
    }
}

impl Theme {
    /// A theme that is part of the program.
    pub fn from_builtin(b: &BuiltinTheme) -> (t: Theme)
        ensures
            t@ == (ThemeModel {
                name: b.name@,
                bg: b.bg,
                fg: b.fg,
                cursor_bg: b.cursor_bg,
                cursor_fg: b.cursor_fg,
                palette: b.palette@,
            }),
    {
        Theme {
            name: b.name.to_owned(),
            bg: b.bg,
            fg: b.fg,
            cursor_bg: b.cursor_bg,
            cursor_fg: b.cursor_fg,
            palette: b.palette,
        }
    }
}

/// The value of a hexadecimal digit.
pub open spec fn hex_value(c: char) -> Option<int> {
    if '0' <= c <= '9' {
        Some(c as int - '0' as int)
    } else if 'a' <= c <= 'f' {
        Some(c as int - 'a' as int + 10)
    } else if 'A' <= c <= 'F' {
        Some(c as int - 'A' as int + 10)
    } else {
        None
    }
}

/// The byte that two hexadecimal digits make. A plus sign may stand in place
/// of the first.
pub open spec fn hex_byte(a: char, b: char) -> Option<u8> {
    match (hex_value(a), hex_value(b)) {
        (Some(high), Some(low)) => Some((high * 16 + low) as u8),
        (None, Some(low)) => if a == '+' {
            Some(low as u8)
        } else {
            None
        },
        _ => None,
    }
}

/// A text without the hash signs at its start.
pub open spec fn without_hashes(s: Seq<char>) -> Seq<char>
    decreases s.len(),
{
    if s.len() > 0 && s[0] == '#' {
        without_hashes(s.skip(1))
    } else {
        s
    }
}

/// The colour that six hexadecimal digits make.
pub open spec fn color_of(s: Seq<char>) -> Option<Seq<u8>> {
    let digits = without_hashes(s);
    if digits.len() != 6 {
        None
    } else {
        match (
            hex_byte(digits[0], digits[1]),
            hex_byte(digits[2], digits[3]),
            hex_byte(digits[4], digits[5]),
        ) {
            (Some(r), Some(g), Some(b)) => Some(seq![r, g, b]),
            _ => None,
        }
    }
}

/// The components of an optional colour.
pub open spec fn components(c: Option<[u8; 3]>) -> Option<Seq<u8>> {
    match c {
        Some(rgb) => Some(rgb@),
        None => None,
    }
}

fn hex_digit_value(c: char) -> (v: Option<u8>)
    ensures
        v is Some <==> hex_value(c) is Some,
        v matches Some(n) ==> hex_value(c) == Some(n as int) && n < 16,
{
    if '0' <= c && c <= '9' {
        Some((c as u8) - 0x30)
    } else if 'a' <= c && c <= 'f' {
        Some((c as u8) - 0x61 + 10)
    } else if 'A' <= c && c <= 'F' {
        Some((c as u8) - 0x41 + 10)
    } else {
        None
    }
}

fn read_hex_byte(a: char, b: char) -> (v: Option<u8>)
    ensures
        v == hex_byte(a, b),
{
    match hex_digit_value(b) {
        None => None,
        Some(low) => match hex_digit_value(a) {
            Some(high) => Some(high * 16 + low),
            None => if a == '+' {
                Some(low)
            } else {
                None
            },
        },
    }
}

/// Reads a colour such as `#1e2f30`.
pub fn parse_hex(s: &[char]) -> (color: Option<[u8; 3]>)
    ensures
        components(color) == color_of(s@),
{
    let mut start: usize = 0;
    assert(s@.skip(0) =~= s@);
    while start < s.len() && s[start] == '#'
        invariant
            start <= s@.len(),
            without_hashes(s@.skip(start as int)) == without_hashes(s@),
        decreases s@.len() - start,
    {
        assert(s@.skip(start as int).skip(1) =~= s@.skip(start + 1));
        start += 1;
    }
    let ghost digits = s@.skip(start as int);
    if s.len() - start != 6 {
        return None;
    }
    match read_hex_byte(s[start], s[start + 1]) {
        None => None,
        Some(r) => match read_hex_byte(s[start + 2], s[start + 3]) {
            None => None,
            Some(g) => match read_hex_byte(s[start + 4], s[start + 5]) {
                None => None,
                Some(b) => {
                    let rgb: [u8; 3] = [r, g, b];
                    assert(rgb@ =~= seq![r, g, b]);
                    Some(rgb)
                },
            },
        },
    }
}

/// The place of a colour name among the eight base colours.
pub open spec fn base_color(name: Seq<char>) -> Option<int> {
    if name == "black"@ {
        Some(0)
    } else if name == "red"@ {
        Some(1)
    } else if name == "green"@ {
        Some(2)
    } else if name == "yellow"@ {
        Some(3)
    } else if name == "blue"@ {
        Some(4)
    } else if name == "magenta"@ {
        Some(5)
    } else if name == "cyan"@ {
        Some(6)
    } else if name == "white"@ {
        Some(7)
    } else {
        None
    }
}

/// The place of a colour name in the palette: the bright colours come after
/// the normal ones.
pub open spec fn palette_place(name: Seq<char>, bright: bool) -> Option<int> {
    match base_color(name) {
        Some(i) => Some(
            if bright {
                i + 8
            } else {
                i
            },
        ),
        None => None,
    }
}

/// The place of a colour name in the palette.
pub fn ansi_name(name: &[char], bright: bool) -> (place: Option<usize>)
    ensures
        place is Some <==> palette_place(name@, bright) is Some,
        place matches Some(i) ==> palette_place(name@, bright) == Some(i as int) && i < 16,
{
    let base: usize = if text::chars_are(name, "black") {
        0
    } else if text::chars_are(name, "red") {
        1
    } else if text::chars_are(name, "green") {
        2
    } else if text::chars_are(name, "yellow") {
        3
    } else if text::chars_are(name, "blue") {
        4
    } else if text::chars_are(name, "magenta") {
        5
    } else if text::chars_are(name, "cyan") {
        6
    } else if text::chars_are(name, "white") {
        7
    } else {
        return None;
    };
    Some(
        if bright {
            base + 8
        } else {
            base
        },
    )
}

/// The colours that a theme file has named so far, and the section it is in.
#[verifier::ext_equal]
pub struct DraftModel {
    pub bg: Option<Seq<u8>>,
    pub fg: Option<Seq<u8>>,
    pub cursor_bg: Option<Seq<u8>>,
    pub cursor_fg: Option<Seq<u8>>,
    pub palette: Seq<Option<Seq<u8>>>,
    pub section: Seq<char>,
}

/// One more colour named.
pub open spec fn with_color(d: DraftModel, key: Seq<char>, rgb: Seq<u8>) -> DraftModel {
    let normal = palette_place(key, false);
    let bright = palette_place(key, true);
    if d.section == "colors.primary"@ && key == "background"@ {
        DraftModel { bg: Some(rgb), ..d }
    } else if d.section == "colors.primary"@ && key == "foreground"@ {
        DraftModel { fg: Some(rgb), ..d }
    } else if d.section == "colors.cursor"@ && key == "text"@ {
        DraftModel { cursor_fg: Some(rgb), ..d }
    } else if d.section == "colors.cursor"@ && key == "cursor"@ {
        DraftModel { cursor_bg: Some(rgb), ..d }
    } else if d.section == "colors.normal"@ && normal is Some {
        DraftModel { palette: d.palette.update(normal->0, Some(rgb)), ..d }
    } else if d.section == "colors.bright"@ && bright is Some {
        DraftModel { palette: d.palette.update(bright->0, Some(rgb)), ..d }
    } else {
        d
    }
}

/// A quote of either kind.
pub open spec fn is_quote(c: char) -> bool {
    c == '"' || c == '\''
}

/// A text without the quotes at its start.
pub open spec fn without_open_quotes(s: Seq<char>) -> Seq<char>
    decreases s.len(),
{
    if s.len() > 0 && is_quote(s[0]) {
        without_open_quotes(s.skip(1))
    } else {
        s
    }
}

/// A text without the quotes at its end.
pub open spec fn without_close_quotes(s: Seq<char>) -> Seq<char>
    decreases s.len(),
{
    if s.len() > 0 && is_quote(s.last()) {
        without_close_quotes(s.drop_last())
    } else {
        s
    }
}

/// A value without the quotes around it.
pub open spec fn bare_value(value: Seq<char>) -> Seq<char> {
    without_close_quotes(without_open_quotes(value))
}

/// The message for a value that is no colour.
pub open spec fn bad_color(line: int, value: Seq<char>) -> Seq<char> {
    bad_color_shown(line, text::debug_quoted(value))
}

/// The message for a value that is no colour, given in quotes.
pub open spec fn bad_color_shown(line: int, quoted: Seq<char>) -> Seq<char> {
    conf::line_label(line) + "bad color "@ + quoted
}

/// The message for a value that is no colour, given in quotes.
pub fn bad_color_message(line: usize, quoted: &str) -> (message: String)
    ensures
        message@ == bad_color_shown(line as int, quoted@),
{
    let mut message = conf::start_message(line);
    message.append("bad color ");
    message.append(quoted);
    assert(message@ =~= bad_color_shown(line as int, quoted@));
    message
}

/// One more line read. A pair must name a colour, even under a key that means
/// nothing.
pub open spec fn after_line(d: DraftModel, raw: Seq<char>, number: int) -> Result<
    DraftModel,
    Seq<char>,
> {
    match conf::line_model(raw) {
        LineModel::Blank => Ok(d),
        LineModel::Section(name) => Ok(DraftModel { section: name, ..d }),
        LineModel::Pair(key, value) => match color_of(bare_value(value)) {
            Some(rgb) => Ok(with_color(d, key, rgb)),
            None => Err(bad_color(number, bare_value(value))),
        },
        LineModel::Malformed => Err(conf::missing_equals(number)),
    }
}

/// No colour named.
pub open spec fn empty_draft() -> DraftModel {
    DraftModel {
        bg: None,
        fg: None,
        cursor_bg: None,
        cursor_fg: None,
        palette: Seq::new(16, |i: int| None::<Seq<u8>>),
        section: Seq::empty(),
    }
}

/// The first `n` lines read. The first bad line ends it.
pub open spec fn after_lines(lines: Seq<Seq<char>>, n: int) -> Result<DraftModel, Seq<char>>
    decreases n,
{
    if n <= 0 {
        Ok(empty_draft())
    } else {
        match after_lines(lines, n - 1) {
            Ok(d) => after_line(d, lines[n - 1], n),
            Err(e) => Err(e),
        }
    }
}

/// The first palette entry from `i` on that was not named, or 16.
pub open spec fn first_missing(palette: Seq<Option<Seq<u8>>>, i: int) -> int
    decreases 16 - i,
{
    if i >= 16 || palette[i] is None {
        i
    } else {
        first_missing(palette, i + 1)
    }
}

/// The colours of a theme, in terms of their components.
pub open spec fn theme_colors(t: ThemeModel) -> (Seq<u8>, Seq<u8>, Seq<u8>, Seq<u8>, Seq<Seq<u8>>) {
    (
        t.bg@,
        t.fg@,
        t.cursor_bg@,
        t.cursor_fg@,
        Seq::new(t.palette.len(), |i: int| t.palette[i]@),
    )
}

/// What reading a theme file gives. Background, foreground and all sixteen
/// palette colours must be named; the cursor defaults to the foreground on
/// the background.
pub open spec fn is_parsed_theme(
    name: Seq<char>,
    source: Seq<char>,
    result: Result<ThemeModel, Seq<char>>,
) -> bool {
    let lines = conf::lines_of(source);
    match after_lines(lines, lines.len() as int) {
        Err(e) => result == Err::<ThemeModel, Seq<char>>(e),
        Ok(d) => {
            if d.bg is None {
                result == Err::<ThemeModel, Seq<char>>("missing colors.primary.background"@)
            } else if d.fg is None {
                result == Err::<ThemeModel, Seq<char>>("missing colors.primary.foreground"@)
            } else if first_missing(d.palette, 0) < 16 {
                result == Err::<ThemeModel, Seq<char>>(
                    "missing palette index "@ + text::decimal_chars(
                        first_missing(d.palette, 0) as nat,
                    ),
                )
            } else {
                &&& result is Ok
                &&& result->Ok_0.name == name
                &&& theme_colors(result->Ok_0) == (
                    d.bg->0,
                    d.fg->0,
                    if d.cursor_bg is Some {
                        d.cursor_bg->0
                    } else {
                        d.fg->0
                    },
                    if d.cursor_fg is Some {
                        d.cursor_fg->0
                    } else {
                        d.bg->0
                    },
                    Seq::new(16, |i: int| d.palette[i]->0),
                )
            }
        },
    }
}

/// The colours that a theme file has named so far.
struct Draft {
    bg: Option<[u8; 3]>,
    fg: Option<[u8; 3]>,
    cursor_bg: Option<[u8; 3]>,
    cursor_fg: Option<[u8; 3]>,
    palette: Vec<Option<[u8; 3]>>,
    section: Vec<char>,
}

impl View for Draft {
    type V = DraftModel;

    closed spec fn view(&self) -> DraftModel {
        DraftModel {
            bg: components(self.bg),
            fg: components(self.fg),
            cursor_bg: components(self.cursor_bg),
            cursor_fg: components(self.cursor_fg),
            palette: Seq::new(self.palette@.len(), |i: int| components(self.palette@[i])),
            section: self.section@,
        }
    }
}

impl Draft {
    fn new() -> (d: Draft)
        ensures
            d@ == empty_draft(),
            d.palette@.len() == 16,
    {
        let mut palette: Vec<Option<[u8; 3]>> = Vec::new();
        let mut i: usize = 0;
        while i < 16
            invariant
                i <= 16,
                palette@.len() == i,
                forall|k: int| 0 <= k < i ==> palette@[k] == None::<[u8; 3]>,
            decreases 16 - i,
        {
            palette.push(None);
            i += 1;
        }
        let d = Draft {
            bg: None,
            fg: None,
            cursor_bg: None,
            cursor_fg: None,
            palette,
            section: Vec::new(),
        };
        assert(d@ =~= empty_draft());
        d
    }

    /// Names a palette colour.
    fn set_palette(&mut self, place: usize, rgb: [u8; 3])
        requires
            place < old(self).palette@.len(),
        ensures
            final(self)@ == (DraftModel {
                palette: old(self)@.palette.update(place as int, Some(rgb@)),
                ..old(self)@
            }),
            final(self).palette@.len() == old(self).palette@.len(),
    {
        self.palette[place] = Some(rgb);
        assert(self@.palette =~= old(self)@.palette.update(place as int, Some(rgb@)));
    }

    /// Names one more colour.
    fn set_color(&mut self, key: &[char], rgb: [u8; 3])
        requires
            old(self).palette@.len() == 16,
        ensures
            final(self)@ == with_color(old(self)@, key@, rgb@),
            final(self).palette@.len() == 16,
    {
        if text::chars_are(self.section.as_slice(), "colors.primary") {
            if text::chars_are(key, "background") {
                self.bg = Some(rgb);
                return ;
            }
            if text::chars_are(key, "foreground") {
                self.fg = Some(rgb);
                return ;
            }
        }
        if text::chars_are(self.section.as_slice(), "colors.cursor") {
            if text::chars_are(key, "text") {
                self.cursor_fg = Some(rgb);
                return ;
            }
            if text::chars_are(key, "cursor") {
                self.cursor_bg = Some(rgb);
                return ;
            }
        }
        if text::chars_are(self.section.as_slice(), "colors.normal") {
            if let Some(place) = ansi_name(key, false) {
                self.set_palette(place, rgb);
                return ;
            }
        }
        if text::chars_are(self.section.as_slice(), "colors.bright") {
            if let Some(place) = ansi_name(key, true) {
                self.set_palette(place, rgb);
            }
        }
    }
}

/// A value without the quotes around it.
fn bare(value: &[char]) -> (rest: Vec<char>)
    ensures
        rest@ == bare_value(value@),
{
    let mut start: usize = 0;
    assert(value@.skip(0) =~= value@);
    while start < value.len() && (value[start] == '"' || value[start] == '\'')
        invariant
            start <= value@.len(),
            without_open_quotes(value@.skip(start as int)) == without_open_quotes(value@),
        decreases value@.len() - start,
    {
        assert(value@.skip(start as int).skip(1) =~= value@.skip(start + 1));
        start += 1;
    }
    let ghost open = value@.skip(start as int);
    let mut end: usize = value.len();
    assert(value@.subrange(start as int, end as int) =~= open);
    while end > start && (value[end - 1] == '"' || value[end - 1] == '\'')
        invariant
            start <= end <= value@.len(),
            without_close_quotes(value@.subrange(start as int, end as int))
                == without_close_quotes(open),
        decreases end,
    {
        assert(value@.subrange(start as int, end as int).drop_last() =~= value@.subrange(
            start as int,
            end - 1,
        ));
        end -= 1;
    }
    text::part_of(value, start, end)
}

/// The contents of a result of reading a theme.
pub open spec fn theme_in(r: Result<Theme, String>) -> Result<ThemeModel, Seq<char>> {
    match r {
        Ok(t) => Ok(t@),
        Err(e) => Err(e@),
    }
}

/// An error from some line on is the error of the whole.
proof fn lemma_error_stays(lines: Seq<Seq<char>>, n: int, m: int)
    requires
        0 <= n <= m,
        after_lines(lines, n) is Err,
    ensures
        after_lines(lines, m) == after_lines(lines, n),
    decreases m,
{
    if n < m {
        lemma_error_stays(lines, n, m - 1);
    }
}

/// Reads the lines of a theme file.
fn read_draft(src: &str) -> (result: Result<Draft, String>)
    ensures
        ({
            let lines = conf::lines_of(src@);
            match result {
                Ok(d) => after_lines(lines, lines.len() as int) == Ok::<DraftModel, Seq<char>>(d@)
                    && d.palette@.len() == 16,
                Err(e) => after_lines(lines, lines.len() as int) == Err::<DraftModel, Seq<char>>(
                    e@,
                ),
            }
        }),
{
    let lines = text::split(text::chars_of(src).as_slice(), '\n');
    let ghost all = conf::lines_of(src@);
    let mut draft = Draft::new();
    let mut i: usize = 0;
    while i < lines.len()
        invariant
            i <= lines@.len(),
            all == conf::lines_of(src@),
            text::char_lists(lines@) == all,
            draft.palette@.len() == 16,
            after_lines(all, i as int) == Ok::<DraftModel, Seq<char>>(draft@),
        decreases lines@.len() - i,
    {
        assert(all[i as int] == lines@[i as int]@);
        assert(after_lines(all, i + 1) == after_line(draft@, all[i as int], i + 1));
        match conf::read_line(lines[i].as_slice()) {
            Line::Blank => {},
            Line::Section(name) => {
                draft.section = name;
            },
            Line::Pair(key, value) => {
                let v = bare(value.as_slice());
                match parse_hex(v.as_slice()) {
                    Some(rgb) => {
                        draft.set_color(key.as_slice(), rgb);
                    },
                    None => {
                        let shown = text::debug_string(text::string_of(v.as_slice()).as_str());
                        proof {
                            lemma_error_stays(all, i + 1, all.len() as int);
                        }
                        return Err(bad_color_message(i + 1, shown.as_str()));
                    },
                }
            },
            Line::Malformed => {
                proof {
                    lemma_error_stays(all, i + 1, all.len() as int);
                }
                return Err(conf::missing_equals_message(i + 1));
            },
        }
        i += 1;
    }
    Ok(draft)
}

/// Reads a theme file.
pub fn parse_user_theme(name: &str, src: &str) -> (result: Result<Theme, String>)
    ensures
        is_parsed_theme(name@, src@, theme_in(result)),
{
    let draft = match read_draft(src) {
        Ok(d) => d,
        Err(e) => {
            return Err(e);
        },
    };
    let bg = match draft.bg {
        Some(c) => c,
        None => {
            return Err("missing colors.primary.background".to_owned());
        },
    };
    let fg = match draft.fg {
        Some(c) => c,
        None => {
            return Err("missing colors.primary.foreground".to_owned());
        },
    };
    let mut palette: [[u8; 3]; 16] = [[0u8; 3]; 16];
    let mut i: usize = 0;
    while i < 16
        invariant
            i <= 16,
            draft.palette@.len() == 16,
            palette@.len() == 16,
            draft@.bg is Some,
            draft@.fg is Some,
            ({
                let lines = conf::lines_of(src@);
                after_lines(lines, lines.len() as int) == Ok::<DraftModel, Seq<char>>(draft@)
            }),
            first_missing(draft@.palette, 0) == first_missing(draft@.palette, i as int),
            forall|k: int|
                0 <= k < i ==> draft@.palette[k] == Some((#[trigger] palette@[k])@),
        decreases 16 - i,
    {
        assert(draft@.palette[i as int] == components(draft.palette@[i as int]));
        match draft.palette[i] {
            Some(rgb) => {
                palette[i] = rgb;
            },
            None => {
                let mut message = "missing palette index ".to_owned();
                text::push_number(&mut message, i as u64);
                return Err(message);
            },
        }
        i += 1;
    }
    let theme = Theme {
        name: name.to_owned(),
        bg,
        fg,
        cursor_bg: match draft.cursor_bg {
            Some(c) => c,
            None => fg,
        },
        cursor_fg: match draft.cursor_fg {
            Some(c) => c,
            None => bg,
        },
        palette,
    };
    assert(theme_colors(theme@).4 =~= Seq::new(16, |i: int| draft@.palette[i]->0));
    Ok(theme)
}

} // verus!
