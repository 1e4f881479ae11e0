//! Where font files are looked for. Paths are written with slashes.

use vstd::prelude::*;

use crate::font::FontStyle;
use crate::text;

verus! {

/// A path without what does not matter at its end: slashes, and steps to the
/// same directory.
pub open spec fn trimmed_path(path: Seq<char>) -> Seq<char>
    decreases path.len(),
{
    let n = path.len() as int;
    if n > 1 && path[n - 1] == '/' {
        trimmed_path(path.drop_last())
    } else if n > 1 && path[n - 1] == '.' && path[n - 2] == '/' {
        trimmed_path(path.drop_last())
    } else {
        path
    }
}

/// The place after the last slash of the first `n` characters.
pub open spec fn name_start(path: Seq<char>, n: int) -> int
    decreases n,
{
    if n <= 0 {
        0
    } else if path[n - 1] == '/' {
        n
    } else {
        name_start(path, n - 1)
    }
}

/// The name of a file: the last part of its path, unless that steps up or
/// stays.
pub open spec fn file_name_of(path: Seq<char>) -> Option<Seq<char>> {
    let p = trimmed_path(path);
    let name = p.skip(name_start(p, p.len() as int));
    if name.len() == 0 || name == seq!['.'] || name == seq!['.', '.'] {
        None
    } else {
        Some(name)
    }
}

/// The directory of a file: its path up to its name.
pub open spec fn parent_of(path: Seq<char>) -> Seq<char> {
    let p = trimmed_path(path);
    trimmed_path(p.take(name_start(p, p.len() as int)))
}

/// The place of the last dot among the first `n` characters, or -1.
pub open spec fn last_dot(name: Seq<char>, n: int) -> int
    decreases n,
{
    if n <= 0 {
        -1
    } else if name[n - 1] == '.' {
        n - 1
    } else {
        last_dot(name, n - 1)
    }
}

/// The name of a file up to its last dot. A dot at the front does not count.
pub open spec fn stem_of(name: Seq<char>) -> Seq<char> {
    let dot = last_dot(name, name.len() as int);
    if dot <= 0 {
        name
    } else {
        name.take(dot)
    }
}

/// What comes after the last dot of the name of a file; a TrueType font where
/// there is no dot.
pub open spec fn extension_of(name: Seq<char>) -> Seq<char> {
    let dot = last_dot(name, name.len() as int);
    if dot <= 0 {
        "ttf"@
    } else {
        name.skip(dot + 1)
    }
}

/// A file in a directory.
pub open spec fn joined(dir: Seq<char>, name: Seq<char>) -> Seq<char> {
    if dir.len() == 0 {
        name
    } else if dir.last() == '/' {
        dir + name
    } else {
        dir.push('/') + name
    }
}

/// The words that name the faces of a style, the usual one first.
pub open spec fn style_words(style: FontStyle) -> Seq<Seq<char>> {
    match style {
        FontStyle::Regular => Seq::empty(),
        FontStyle::Bold => seq!["Bold"@],
        FontStyle::Italic => seq!["Italic"@, "Oblique"@],
        FontStyle::BoldItalic => seq!["BoldItalic"@, "BoldOblique"@],
    }
}

/// The file of a face, next to another file of its family.
pub open spec fn face_file(
    dir: Seq<char>,
    family: Seq<char>,
    word: Seq<char>,
    extension: Seq<char>,
) -> Seq<char> {
    joined(dir, family.push('-') + word.push('.') + extension)
}

/// A text ends with another.
pub open spec fn ends_with(s: Seq<char>, end: Seq<char>) -> bool {
    s.len() >= end.len() && s.skip(s.len() - end.len()) == end
}

/// The files to try for a word: the name with `-Regular` replaced, if it ends
/// in that, and the name with the word added.
pub open spec fn files_for_word(
    dir: Seq<char>,
    stem: Seq<char>,
    word: Seq<char>,
    extension: Seq<char>,
) -> Seq<Seq<char>> {
    let added = face_file(dir, stem, word, extension);
    if ends_with(stem, "-Regular"@) {
        seq![
            face_file(dir, stem.take(stem.len() - "-Regular"@.len()), word, extension),
            added,
        ]
    } else {
        seq![added]
    }
}

/// The files to try for the first `n` words.
pub open spec fn files_for_words(
    dir: Seq<char>,
    stem: Seq<char>,
    words: Seq<Seq<char>>,
    extension: Seq<char>,
    n: int,
) -> Seq<Seq<char>>
    decreases n,
{
    if n <= 0 {
        Seq::empty()
    } else {
        files_for_words(dir, stem, words, extension, n - 1) + files_for_word(
            dir,
            stem,
            words[n - 1],
            extension,
        )
    }
}

/// The files that can be the face of a style that goes with a font file, the
/// best first.
pub open spec fn variants(primary: Seq<char>, style: FontStyle) -> Seq<Seq<char>> {
    match file_name_of(primary) {
        None => Seq::empty(),
        Some(name) => files_for_words(
            parent_of(primary),
            stem_of(name),
            style_words(style),
            extension_of(name),
            style_words(style).len() as int,
        ),
    }
}

/// How many characters of a path matter; see [`trimmed_path`].
fn trimmed_path_len(path: &[char]) -> (n: usize)
    ensures
        n <= path@.len(),
        path@.take(n as int) == trimmed_path(path@),
{
    let mut n: usize = path.len();
    assert(path@.take(n as int) =~= path@);
    while n > 1 && (path[n - 1] == '/' || (path[n - 1] == '.' && path[n - 2] == '/'))
        invariant
            n <= path@.len(),
            trimmed_path(path@) == trimmed_path(path@.take(n as int)),
        decreases n,
    {
        assert(path@.take(n as int).drop_last() =~= path@.take(n - 1));
        n -= 1;
    }
    n
}

/// The place after the last slash; see [`name_start`].
fn find_name_start(path: &[char]) -> (n: usize)
    ensures
        n <= path@.len(),
        n == name_start(path@, path@.len() as int),
{
    let mut n: usize = path.len();
    while n > 0 && path[n - 1] != '/'
        invariant
            n <= path@.len(),
            name_start(path@, path@.len() as int) == name_start(path@, n as int),
        decreases n,
    {
        n -= 1;
    }
    n
}

/// The name of a file and its directory.
fn split_path(path: &str) -> (parts: Option<(Vec<char>, Vec<char>)>)
    ensures
        parts is Some <==> file_name_of(path@) is Some,
        parts matches Some((dir, name)) ==> dir@ == parent_of(path@) && name@ == file_name_of(
            path@,
        )->0,
{
    let chars = text::chars_of(path);
    let n: usize = trimmed_path_len(chars.as_slice());
    let p = vstd::slice::slice_subrange(chars.as_slice(), 0, n);
    assert(p@ =~= trimmed_path(path@));
    let start: usize = find_name_start(p);
    let name = vstd::slice::slice_subrange(p, start, n);
    assert(name@ =~= p@.skip(start as int));
    proof {
        assert(name@ == seq!['.'] <==> name@.len() == 1 && name@[0] == '.') by {
            if name@.len() == 1 && name@[0] == '.' {
                assert(name@ =~= seq!['.']);
            }
        }
        assert(name@ == seq!['.', '.'] <==> name@.len() == 2 && name@[0] == '.' && name@[1] == '.')
            by {
            if name@.len() == 2 && name@[0] == '.' && name@[1] == '.' {
                assert(name@ =~= seq!['.', '.']);
            }
        }
    }
    if name.len() == 0 || (name.len() == 1 && name[0] == '.') || (name.len() == 2 && name[0] == '.'
        && name[1] == '.') {
        return None;
    }
    let head = vstd::slice::slice_subrange(p, 0, start);
    assert(head@ =~= p@.take(start as int));
    let m: usize = trimmed_path_len(head);
    let dir = vstd::slice::slice_subrange(head, 0, m);
    assert(dir@ =~= head@.take(m as int));
    Some((vstd::slice::slice_to_vec(dir), vstd::slice::slice_to_vec(name)))
}

/// The place of the last dot that parts a name, if there is one.
fn find_dot(name: &[char]) -> (dot: Option<usize>)
    ensures
        dot is Some <==> last_dot(name@, name@.len() as int) > 0,
        dot matches Some(i) ==> i == last_dot(name@, name@.len() as int) && i < name@.len(),
{
    let mut n: usize = name.len();
    while n > 0
        invariant
            n <= name@.len(),
            last_dot(name@, name@.len() as int) == last_dot(name@, n as int),
        decreases n,
    {
        if name[n - 1] == '.' {
            return if n > 1 {
                Some(n - 1)
            } else {
                None
            };
        }
        n -= 1;
    }
    None
}

/// The file of a face; see [`face_file`].
fn write_face_file(dir: &[char], family: &[char], word: &str, extension: &[char]) -> (path: String)
    ensures
        path@ == face_file(dir@, family@, word@, extension@),
{
    let mut path = String::new();
    text::push_chars(&mut path, dir);
    if dir.len() > 0 && dir[dir.len() - 1] != '/' {
        path.push('/');
    }
    text::push_chars(&mut path, family);
    path.push('-');
    let word_chars = text::chars_of(word);
    text::push_chars(&mut path, word_chars.as_slice());
    path.push('.');
    text::push_chars(&mut path, extension);
    assert(path@ =~= face_file(dir@, family@, word@, extension@));
    path
}

/// Whether a text ends with another.
fn has_end(s: &[char], end: &[char]) -> (has: bool)
    ensures
        has == ends_with(s@, end@),
{
    if s.len() < end.len() {
        return false;
    }
    let from: usize = s.len() - end.len();
    let tail = vstd::slice::slice_subrange(s, from, s.len());
    assert(tail@ =~= s@.skip(from as int));
    text::same_chars(tail, end)
}

/// The words of a style; see [`style_words`].
fn words_of(style: FontStyle) -> (words: Vec<&'static str>)
    ensures
        words@.len() == style_words(style).len(),
        forall|i: int| 0 <= i < words@.len() ==> (#[trigger] words@[i])@ == style_words(style)[i],
{
    let mut words: Vec<&'static str> = Vec::new();
    match style {
        FontStyle::Regular => {},
        FontStyle::Bold => {
            words.push("Bold");
        },
        FontStyle::Italic => {
            words.push("Italic");
            words.push("Oblique");
        },
        FontStyle::BoldItalic => {
            words.push("BoldItalic");
            words.push("BoldOblique");
        },
    }
    words
}

/// The files that can be the bold or italic face that goes with a font file,
/// the best first.
pub fn variant_candidates(primary: &str, style: FontStyle) -> (files: Vec<String>)
    ensures
        text::texts(files@) == variants(primary@, style),
{
    let mut files: Vec<String> = Vec::new();
    let (dir, name) = match split_path(primary) {
        Some(parts) => parts,
        None => {
            assert(text::texts(files@) =~= Seq::<Seq<char>>::empty());
            return files;
        },
    };
    let (stem, extension) = match find_dot(name.as_slice()) {
        Some(dot) => {
            let n: usize = name.len();
            let before = vstd::slice::slice_subrange(name.as_slice(), 0, dot);
            let after = vstd::slice::slice_subrange(name.as_slice(), dot + 1, n);
            assert(before@ =~= name@.take(dot as int));
            assert(after@ =~= name@.skip(dot + 1));
            (vstd::slice::slice_to_vec(before), vstd::slice::slice_to_vec(after))
        },
        None => (name, text::chars_of("ttf")),
    };
    let regular = text::chars_of("-Regular");
    let replace: bool = has_end(stem.as_slice(), regular.as_slice());
    let words = words_of(style);
    let ghost all = style_words(style);
    let mut i: usize = 0;
    assert(text::texts(files@) =~= Seq::<Seq<char>>::empty());
    while i < words.len()
        invariant
            i <= words@.len(),
            all == style_words(style),
            words@.len() == all.len(),
            forall|k: int| 0 <= k < words@.len() ==> (#[trigger] words@[k])@ == all[k],
            regular@ == "-Regular"@,
            replace == ends_with(stem@, regular@),
            text::texts(files@) == files_for_words(dir@, stem@, all, extension@, i as int),
        decreases words@.len() - i,
    {
        let word: &str = words[i];
        let ghost before = text::texts(files@);
        assert(word@ == all[i as int]);
        if replace {
            let n: usize = stem.len() - regular.len();
            let family = vstd::slice::slice_subrange(stem.as_slice(), 0, n);
            assert(family@ =~= stem@.take(n as int));
            files.push(
                write_face_file(dir.as_slice(), family, word, extension.as_slice()),
            );
        }
        files.push(
            write_face_file(dir.as_slice(), stem.as_slice(), word, extension.as_slice()),
        );
        assert(text::texts(files@) =~= before + files_for_word(
            dir@,
            stem@,
            all[i as int],
            extension@,
        ));
        i += 1;
    }
    files
}

/// A text that may be missing, as a list.
pub open spec fn one_or_none(s: Option<&str>) -> Seq<Seq<char>> {
    match s {
        Some(t) => seq![t@],
        None => Seq::empty(),
    }
}

fn push_given(files: &mut Vec<String>, given: Option<&str>)
    ensures
        text::texts(final(files)@) == text::texts(old(files)@) + one_or_none(given),
{
    if let Some(p) = given {
        files.push(p.to_owned());
    }
    assert(text::texts(files@) =~= text::texts(old(files)@) + one_or_none(given));
}

/// The files to try for a bold or italic face, in order: what the environment
/// names, what the configuration names, and what goes with the first font.
pub fn variant_files(
    env: Option<&str>,
    configured: Option<&str>,
    primary: &str,
    style: FontStyle,
) -> (files: Vec<String>)
    ensures
        text::texts(files@) == one_or_none(env) + one_or_none(configured) + variants(
            primary@,
            style,
        ),
{
    let mut files: Vec<String> = Vec::new();
    assert(text::texts(files@) =~= Seq::<Seq<char>>::empty());
    push_given(&mut files, env);
    push_given(&mut files, configured);
    let mut rest = variant_candidates(primary, style);
    let ghost first = text::texts(files@);
    let ghost last = text::texts(rest@);
    files.append(&mut rest);
    assert(text::texts(files@) =~= first + last);
    assert(first =~= one_or_none(env) + one_or_none(configured));
    files
}

/// Where the first font is looked for if nobody names one.
pub open spec fn usual_fonts() -> Seq<Seq<char>> {
    seq![
        "/usr/share/fonts/TTF/JetBrainsMono-Regular.ttf"@,
        "/usr/share/fonts/JetBrainsMono/JetBrainsMono-Regular.ttf"@,
        "/usr/share/fonts/jetbrains-mono/JetBrainsMono-Regular.ttf"@,
        "/usr/share/fonts/truetype/jetbrains-mono/JetBrainsMono-Regular.ttf"@,
        "/usr/share/fonts/TTF/CascadiaMono.ttf"@,
        "/usr/share/fonts/TTF/FiraCode-Regular.ttf"@,
        "/usr/share/fonts/truetype/firacode/FiraCode-Regular.ttf"@,
        "/usr/share/fonts/TTF/Hack-Regular.ttf"@,
        "/usr/share/fonts/TTF/DejaVuSansMono.ttf"@,
        "/usr/share/fonts/dejavu/DejaVuSansMono.ttf"@,
        "/usr/share/fonts/truetype/dejavu/DejaVuSansMono.ttf"@,
        "/Library/Fonts/SF-Mono-Regular.otf"@,
        "/System/Library/Fonts/Menlo.ttc"@,
        "/Library/Fonts/Menlo.ttc"@,
        "/System/Library/Fonts/Monaco.ttf"@,
        "C:\\Windows\\Fonts\\CascadiaMono.ttf"@,
        "C:\\Windows\\Fonts\\consola.ttf"@,
    ]
}

/// The files to try for the first font, in order: what the environment names,
/// what the configuration names, and the usual places.
pub fn font_files(env: Option<&str>, configured: Option<&str>) -> (files: Vec<String>)
    ensures
        text::texts(files@) == one_or_none(env) + one_or_none(configured) + usual_fonts(),
{
    let mut files: Vec<String> = Vec::new();
    assert(text::texts(files@) =~= Seq::<Seq<char>>::empty());
    push_given(&mut files, env);
    push_given(&mut files, configured);
    let ghost first = text::texts(files@);
    files.push("/usr/share/fonts/TTF/JetBrainsMono-Regular.ttf".to_owned());
    files.push("/usr/share/fonts/JetBrainsMono/JetBrainsMono-Regular.ttf".to_owned());
    files.push("/usr/share/fonts/jetbrains-mono/JetBrainsMono-Regular.ttf".to_owned());
    files.push("/usr/share/fonts/truetype/jetbrains-mono/JetBrainsMono-Regular.ttf".to_owned());
    files.push("/usr/share/fonts/TTF/CascadiaMono.ttf".to_owned());
    files.push("/usr/share/fonts/TTF/FiraCode-Regular.ttf".to_owned());
    files.push("/usr/share/fonts/truetype/firacode/FiraCode-Regular.ttf".to_owned());
    files.push("/usr/share/fonts/TTF/Hack-Regular.ttf".to_owned());
    files.push("/usr/share/fonts/TTF/DejaVuSansMono.ttf".to_owned());
    files.push("/usr/share/fonts/dejavu/DejaVuSansMono.ttf".to_owned());
    files.push("/usr/share/fonts/truetype/dejavu/DejaVuSansMono.ttf".to_owned());
    files.push("/Library/Fonts/SF-Mono-Regular.otf".to_owned());
    files.push("/System/Library/Fonts/Menlo.ttc".to_owned());
    files.push("/Library/Fonts/Menlo.ttc".to_owned());
    files.push("/System/Library/Fonts/Monaco.ttf".to_owned());
    files.push("C:\\Windows\\Fonts\\CascadiaMono.ttf".to_owned());
    files.push("C:\\Windows\\Fonts\\consola.ttf".to_owned());
    assert(text::texts(files@) =~= first + usual_fonts());
    assert(first =~= one_or_none(env) + one_or_none(configured));
    files
}

/// Fonts that have many of the symbols that others lack, the best first.
pub open spec fn symbol_fonts() -> Seq<Seq<char>> {
    seq![
        "/usr/share/fonts/TTF/DejaVuSansMono.ttf"@,
        "/usr/share/fonts/dejavu/DejaVuSansMono.ttf"@,
        "/usr/share/fonts/truetype/dejavu/DejaVuSansMono.ttf"@,
        "/usr/share/fonts/noto/NotoSansMono-Regular.ttf"@,
        "/usr/share/fonts/truetype/noto/NotoSansMono-Regular.ttf"@,
        "/System/Library/Fonts/Menlo.ttc"@,
        "/System/Library/Fonts/Monaco.ttf"@,
        "C:\\Windows\\Fonts\\seguisym.ttf"@,
        "C:\\Windows\\Fonts\\consola.ttf"@,
    ]
}

/// The files to try for fonts to fall back to; see [`symbol_fonts`].
pub fn fallback_files() -> (files: Vec<String>)
    ensures
        text::texts(files@) == symbol_fonts(),
{
    let mut files: Vec<String> = Vec::new();
    files.push("/usr/share/fonts/TTF/DejaVuSansMono.ttf".to_owned());
    files.push("/usr/share/fonts/dejavu/DejaVuSansMono.ttf".to_owned());
    files.push("/usr/share/fonts/truetype/dejavu/DejaVuSansMono.ttf".to_owned());
    files.push("/usr/share/fonts/noto/NotoSansMono-Regular.ttf".to_owned());
    files.push("/usr/share/fonts/truetype/noto/NotoSansMono-Regular.ttf".to_owned());
    files.push("/System/Library/Fonts/Menlo.ttc".to_owned());
    files.push("/System/Library/Fonts/Monaco.ttf".to_owned());
    files.push("C:\\Windows\\Fonts\\seguisym.ttf".to_owned());
    files.push("C:\\Windows\\Fonts\\consola.ttf".to_owned());
    assert(text::texts(files@) =~= symbol_fonts());
    files
}

/// A font file that exists.
#[derive(Debug)]
pub struct FoundFont {
    pub path: String,
    /// The path without links, where that could be found out.
    pub canonical: Option<String>,
}

/// What tells two files apart: the path without links where it is known.
pub open spec fn identity(f: FoundFont) -> Seq<char> {
    match f.canonical {
        Some(c) => c@,
        None => f.path@,
    }
}

/// The path without links, if it is known.
pub open spec fn canonical_of(c: Option<String>) -> Option<Seq<char>> {
    match c {
        Some(s) => Some(s@),
        None => None,
    }
}

/// A file among the first `i` is the same as another.
pub open spec fn seen_before(found: Seq<FoundFont>, i: int) -> bool {
    exists|k: int| 0 <= k < i && identity(#[trigger] found[k]) == identity(found[i])
}

/// The paths of the first `n` files that are new, and not the first font under
/// another name.
pub open spec fn distinct(
    found: Seq<FoundFont>,
    primary: Option<Seq<char>>,
    n: int,
) -> Seq<Seq<char>>
    decreases n,
{
    if n <= 0 {
        Seq::empty()
    } else if seen_before(found, n - 1) || canonical_of(found[n - 1].canonical) == primary {
        distinct(found, primary, n - 1)
    } else {
        distinct(found, primary, n - 1).push(found[n - 1].path@)
    }
}

fn is_same_file(a: &FoundFont, b: &FoundFont) -> (same: bool)
    ensures
        same == (identity(*a) == identity(*b)),
{
    let x: &str = match &a.canonical {
        Some(c) => c.as_str(),
        None => a.path.as_str(),
    };
    let y: &str = match &b.canonical {
        Some(c) => c.as_str(),
        None => b.path.as_str(),
    };
    text::str_is(x, y)
}

/// The fonts to fall back to, out of the files that exist: each file once, and
/// without the first font, whatever name it has here.
pub fn distinct_fonts(found: &Vec<FoundFont>, primary: Option<&str>) -> (paths: Vec<String>)
    ensures
        text::texts(paths@) == distinct(
            found@,
            match primary {
                Some(p) => Some(p@),
                None => None,
            },
            found@.len() as int,
        ),
{
    let ghost first = match primary {
        Some(p) => Some(p@),
        None => None,
    };
    let mut paths: Vec<String> = Vec::new();
    let mut i: usize = 0;
    assert(text::texts(paths@) =~= Seq::<Seq<char>>::empty());
    while i < found.len()
        invariant
            i <= found@.len(),
            first == (match primary {
                Some(p) => Some(p@),
                None => None,
            }),
            text::texts(paths@) == distinct(found@, first, i as int),
        decreases found@.len() - i,
    {
        let mut seen: bool = false;
        let mut k: usize = 0;
        while k < i
            invariant
                k <= i < found@.len(),
                seen <==> exists|j: int| 0 <= j < k && identity(#[trigger] found@[j]) == identity(
                    found@[i as int],
                ),
            decreases i - k,
        {
            if is_same_file(&found[k], &found[i]) {
                seen = true;
            }
            k += 1;
        }
        let is_primary: bool = match (&found[i].canonical, primary) {
            (Some(c), Some(p)) => text::str_is(c.as_str(), p),
            (None, None) => true,
            _ => false,
        };
        let ghost before = text::texts(paths@);
        if !seen && !is_primary {
            paths.push(found[i].path.as_str().to_owned());
            assert(text::texts(paths@) =~= before.push(found@[i as int].path@));
        }
        i += 1;
    }
    paths
}

/// A regular face has no variants.
pub proof fn law_regular_has_no_variants(primary: Seq<char>)
    ensures
        variants(primary, FontStyle::Regular) == Seq::<Seq<char>>::empty(),
{
}

} // verus!
