//! The file format shared by the configuration and by theme files: section
//! headers, `key = value` lines, quoted strings and comments.

use vstd::prelude::*;

use crate::text;

verus! {

/// Where a place in a line stands with regard to quotes.
#[derive(Copy, Clone, Debug, PartialEq, Eq, Structural)]
pub enum Quoting {
    Outside,
    /// Between double quotes.
    Basic,
    /// Between single quotes.
    Literal,
}

/// The quoting after one more character.
pub open spec fn quoting_after(q: Quoting, c: char) -> Quoting {
    if c == '"' && q == Quoting::Outside {
        Quoting::Basic
    } else if c == '"' && q == Quoting::Basic {
        Quoting::Outside
    } else if c == '\'' && q == Quoting::Outside {
        Quoting::Literal
    } else if c == '\'' && q == Quoting::Literal {
        Quoting::Outside
    } else {
        q
    }
}

/// The quoting after the first `n` characters of a line.
pub open spec fn quoting_at(line: Seq<char>, n: int) -> Quoting
    decreases n,
{
    if n <= 0 {
        Quoting::Outside
    } else {
        quoting_after(quoting_at(line, n - 1), line[n - 1])
    }
}

/// The first place from `from` on where a comment begins, or the end of the
/// line. A `#` between quotes begins none.
pub open spec fn comment_start(line: Seq<char>, from: int) -> int
    decreases line.len() - from,
{
    if from >= line.len() {
        line.len() as int
    } else if line[from] == '#' && quoting_at(line, from) == Quoting::Outside {
        from
    } else {
        comment_start(line, from + 1)
    }
}

/// A line without its comment.
pub open spec fn uncommented(line: Seq<char>) -> Seq<char> {
    line.take(comment_start(line, 0))
}

/// What a line says.
#[verifier::ext_equal]
pub enum LineModel {
    Blank,
    /// `[section]`
    Section(Seq<char>),
    /// `key = value`
    Pair(Seq<char>, Seq<char>),
    /// Neither: there is no `=`.
    Malformed,
}

/// The first place of a character in a text, or the end.
pub open spec fn first_of(s: Seq<char>, c: char, from: int) -> int
    decreases s.len() - from,
{
    if from >= s.len() {
        s.len() as int
    } else if s[from] == c {
        from
    } else {
        first_of(s, c, from + 1)
    }
}

/// What a line says, once its comment and the white space around it are gone.
pub open spec fn line_model(raw: Seq<char>) -> LineModel {
    let line = text::trim(uncommented(raw));
    let eq = first_of(line, '=', 0);
    if line.len() == 0 {
        LineModel::Blank
    } else if line.len() >= 2 && line[0] == '[' && line.last() == ']' {
        LineModel::Section(line.subrange(1, line.len() - 1))
    } else if eq < line.len() {
        LineModel::Pair(
            text::trim(line.take(eq)),
            text::trim(line.subrange(eq + 1, line.len() as int)),
        )
    } else {
        LineModel::Malformed
    }
}

/// What a line says.
pub enum Line {
    Blank,
    Section(Vec<char>),
    Pair(Vec<char>, Vec<char>),
    Malformed,
}

impl View for Line {
    type V = LineModel;

    open spec fn view(&self) -> LineModel {
        match self {
            Line::Blank => LineModel::Blank,
            Line::Section(name) => LineModel::Section(name@),
            Line::Pair(key, value) => LineModel::Pair(key@, value@),
            Line::Malformed => LineModel::Malformed,
        }
    }
}

/// The length of a line without its comment.
pub fn strip_comment(line: &[char]) -> (n: usize)
    ensures
        n <= line@.len(),
        line@.take(n as int) == uncommented(line@),
{
    let mut q = Quoting::Outside;
    let mut i: usize = 0;
    while i < line.len()
        invariant
            i <= line@.len(),
            q == quoting_at(line@, i as int),
            comment_start(line@, 0) == comment_start(line@, i as int),
        decreases line@.len() - i,
    {
        let c: char = line[i];
        if c == '#' && q == Quoting::Outside {
            return i;
        }
        if c == '"' && q == Quoting::Outside {
            q = Quoting::Basic;
        } else if c == '"' && q == Quoting::Basic {
            q = Quoting::Outside;
        } else if c == '\'' && q == Quoting::Outside {
            q = Quoting::Literal;
        } else if c == '\'' && q == Quoting::Literal {
            q = Quoting::Outside;
        }
        i += 1;
    }
    i
}

/// The first place of a character in a text, or the end.
pub fn find_char(s: &[char], c: char) -> (at: usize)
    ensures
        at == first_of(s@, c, 0),
        at <= s@.len(),
{
    let mut i: usize = 0;
    while i < s.len()
        invariant
            i <= s@.len(),
            first_of(s@, c, 0) == first_of(s@, c, i as int),
        decreases s@.len() - i,
    {
        if s[i] == c {
            return i;
        }
        i += 1;
    }
    i
}

/// Reads one line.
pub fn read_line(raw: &[char]) -> (line: Line)
    ensures
        line@ == line_model(raw@),
{
    let n: usize = strip_comment(raw);
    let kept = vstd::slice::slice_subrange(raw, 0, n);
    assert(kept@ =~= uncommented(raw@));
    let line = text::trimmed(kept);
    let len: usize = line.len();
    if len == 0 {
        return Line::Blank;
    }
    if len >= 2 && line[0] == '[' && line[len - 1] == ']' {
        return Line::Section(text::part_of(line.as_slice(), 1, len - 1));
    }
    let eq: usize = find_char(line.as_slice(), '=');
    if eq < len {
        let key = vstd::slice::slice_subrange(line.as_slice(), 0, eq);
        let value = vstd::slice::slice_subrange(line.as_slice(), eq + 1, len);
        assert(key@ =~= line@.take(eq as int));
        Line::Pair(text::trimmed(key), text::trimmed(value))
    } else {
        Line::Malformed
    }
}

/// The lines of a file. White space at the end of a line does not matter, so
/// either kind of line ending will do.
pub open spec fn lines_of(source: Seq<char>) -> Seq<Seq<char>> {
    text::split_on(source, '\n')
}

/// `line N: `
pub open spec fn line_label(n: int) -> Seq<char> {
    "line "@ + text::decimal_chars(n as nat) + ": "@
}

/// The message for a line without `=`.
pub open spec fn missing_equals(n: int) -> Seq<char> {
    line_label(n) + "missing `=`"@
}

/// `line N: ` as the start of a message.
pub fn start_message(n: usize) -> (message: String)
    ensures
        message@ == line_label(n as int),
{
    let mut message = String::new();
    message.append("line ");
    text::push_number(&mut message, n as u64);
    message.append(": ");
    assert(message@ =~= line_label(n as int));
    message
}

/// The message for a line without `=`.
pub fn missing_equals_message(n: usize) -> (message: String)
    ensures
        message@ == missing_equals(n as int),
{
    let mut message = start_message(n);
    message.append("missing `=`");
    message
}

proof fn lemma_quoting_prefix(a: Seq<char>, b: Seq<char>, n: int)
    requires
        n <= a.len(),
        n <= b.len(),
        forall|i: int| 0 <= i < n ==> a[i] == b[i],
    ensures
        quoting_at(a, n) == quoting_at(b, n),
    decreases n,
{
    if n > 0 {
        lemma_quoting_prefix(a, b, n - 1);
    }
}

proof fn lemma_comment_start_with_comment(line: Seq<char>, comment: Seq<char>, from: int)
    requires
        0 <= from <= line.len(),
        quoting_at(line, line.len() as int) == Quoting::Outside,
    ensures
        comment_start(line + seq!['#'] + comment, from) == comment_start(line, from),
        comment_start(line, from) <= line.len(),
        from <= comment_start(line, from),
    decreases line.len() - from,
{
    let longer = line + seq!['#'] + comment;
    lemma_quoting_prefix(line, longer, from);
    if from < line.len() {
        assert(longer[from] == line[from]);
        lemma_comment_start_with_comment(line, comment, from + 1);
    } else {
        assert(longer[from] == '#');
    }
}

/// A comment never changes what a line says, as long as it does not begin
/// inside a quoted string.
pub proof fn law_comments_do_not_matter(line: Seq<char>, comment: Seq<char>)
    requires
        quoting_at(line, line.len() as int) == Quoting::Outside,
    ensures
        line_model(line + seq!['#'] + comment) == line_model(line),
{
    lemma_comment_start_with_comment(line, comment, 0);
    assert(uncommented(line + seq!['#'] + comment) =~= uncommented(line));
}

} // verus!
