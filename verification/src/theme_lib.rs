//! The collection of themes: builtins and user themes in one sorted list.

use vstd::prelude::*;

use crate::search;
use crate::text;
use crate::theme::{Theme, ThemeModel};

verus! {

/// The theme to start with.
pub const DEFAULT_THEME_NAME: &'static str = "Dracula";

/// Themes sorted by name.
pub struct ThemeLib {
    themes: Vec<Theme>,
}

/// The contents of a list of themes.
pub open spec fn models(themes: Seq<Theme>) -> Seq<ThemeModel> {
    Seq::new(themes.len(), |i: int| themes[i]@)
}

impl View for ThemeLib {
    type V = Seq<ThemeModel>;

    closed spec fn view(&self) -> Seq<ThemeModel> {
        models(self.themes@)
    }
}

/// Names that differ in the case of ASCII letters only.
pub open spec fn same_name(a: Seq<char>, b: Seq<char>) -> bool {
    text::ascii_lowered(a) == text::ascii_lowered(b)
}

/// The first theme from `i` on with a given name, or the length of the list.
pub open spec fn named(themes: Seq<ThemeModel>, name: Seq<char>, i: int) -> int
    decreases themes.len() - i,
{
    if i >= themes.len() {
        themes.len() as int
    } else if same_name(themes[i].name, name) {
        i
    } else {
        named(themes, name, i + 1)
    }
}

/// A theme takes the place of the one with its name, or joins at the end.
pub open spec fn with_theme(themes: Seq<ThemeModel>, theme: ThemeModel) -> Seq<ThemeModel> {
    let i = named(themes, theme.name, 0);
    if i < themes.len() {
        themes.update(i, theme)
    } else {
        themes.push(theme)
    }
}

/// User themes one after the other over the builtins.
pub open spec fn with_themes(themes: Seq<ThemeModel>, user: Seq<ThemeModel>) -> Seq<ThemeModel>
    decreases user.len(),
{
    if user.len() == 0 {
        themes
    } else {
        with_theme(with_themes(themes, user.drop_last()), user.last())
    }
}

/// Whether a text comes before another by its code points, or is the same.
pub open spec fn reads_before(a: Seq<char>, b: Seq<char>) -> bool
    decreases a.len(),
{
    if a.len() == 0 {
        true
    } else if b.len() == 0 {
        false
    } else if a[0] != b[0] {
        a[0] < b[0]
    } else {
        reads_before(a.skip(1), b.skip(1))
    }
}

/// What a theme is sorted and found by: its name in lower case.
pub open spec fn sort_key(t: ThemeModel) -> Seq<char> {
    text::lowercase(t.name)
}

/// The keys of a list of themes.
pub open spec fn sort_keys(themes: Seq<ThemeModel>) -> Seq<Seq<char>> {
    Seq::new(themes.len(), |i: int| sort_key(themes[i]))
}

/// The first place from `i` on whose key comes after `key`.
pub open spec fn place_for(keys: Seq<Seq<char>>, key: Seq<char>, i: int) -> int
    decreases keys.len() - i,
{
    if i >= keys.len() {
        keys.len() as int
    } else if reads_before(keys[i], key) {
        place_for(keys, key, i + 1)
    } else {
        i
    }
}

/// Themes sorted by key; themes with one key stay in order.
pub open spec fn sorted(themes: Seq<ThemeModel>) -> Seq<ThemeModel>
    decreases themes.len(),
{
    if themes.len() == 0 {
        themes
    } else {
        let rest = sorted(themes.drop_last());
        rest.insert(place_for(sort_keys(rest), sort_key(themes.last()), 0), themes.last())
    }
}

/// A text holds another.
pub open spec fn holds(whole: Seq<char>, part: Seq<char>) -> bool {
    exists|i: int| #[trigger] search::occurs_at(whole, part, i)
}

/// `found` is what a search by name finds: the first key that is the needle,
/// or else, of the keys that hold it, the first of those with the shortest
/// names.
pub open spec fn is_found(
    keys: Seq<Seq<char>>,
    lengths: Seq<usize>,
    needle: Seq<char>,
    found: Option<int>,
) -> bool {
    if exists|i: int| 0 <= i < keys.len() && #[trigger] keys[i] == needle {
        found matches Some(i) && 0 <= i < keys.len() && keys[i] == needle && forall|j: int|
            0 <= j < i ==> #[trigger] keys[j] != needle
    } else {
        match found {
            Some(i) => {
                &&& 0 <= i < keys.len()
                &&& holds(keys[i], needle)
                &&& forall|j: int|
                    0 <= j < keys.len() && holds(#[trigger] keys[j], needle) ==> lengths[i]
                        <= lengths[j] && (j < i ==> lengths[i] < lengths[j])
            },
            None => forall|j: int| 0 <= j < keys.len() ==> !holds(#[trigger] keys[j], needle),
        }
    }
}

/// The lengths of the names, in bytes.
pub open spec fn name_lengths(themes: Seq<ThemeModel>) -> Seq<usize> {
    Seq::new(themes.len(), |i: int| vstd::utf8::encode_utf8(themes[i].name).len() as usize)
}

/// What a search for a name finds in a list of themes.
pub open spec fn finds(themes: Seq<ThemeModel>, name: Seq<char>, found: Option<int>) -> bool {
    is_found(sort_keys(themes), name_lengths(themes), text::lowercase(name), found)
}

/// Whether a text comes before another, or is the same.
fn in_order(a: &[char], b: &[char]) -> (yes: bool)
    ensures
        yes == reads_before(a@, b@),
{
    let mut i: usize = 0;
    assert(a@.skip(0) =~= a@);
    assert(b@.skip(0) =~= b@);
    while i < a.len() && i < b.len() && a[i] == b[i]
        invariant
            i <= a@.len(),
            i <= b@.len(),
            reads_before(a@, b@) == reads_before(a@.skip(i as int), b@.skip(i as int)),
        decreases a@.len() - i,
    {
        assert(a@.skip(i as int).skip(1) =~= a@.skip(i + 1));
        assert(b@.skip(i as int).skip(1) =~= b@.skip(i + 1));
        i += 1;
    }
    if i == a.len() {
        true
    } else if i == b.len() {
        false
    } else {
        assert(a@.skip(i as int)[0] == a@[i as int]);
        assert(b@.skip(i as int)[0] == b@[i as int]);
        a[i] < b[i]
    }
}

/// The place in a list of sorted keys behind all that come before `key`.
pub fn find_place(keys: &Vec<Vec<char>>, key: &[char]) -> (place: usize)
    ensures
        place == place_for(text::char_lists(keys@), key@, 0),
        place <= keys@.len(),
{
    let ghost all = text::char_lists(keys@);
    let mut i: usize = 0;
    while i < keys.len()
        invariant
            i <= keys@.len(),
            all == text::char_lists(keys@),
            place_for(all, key@, 0) == place_for(all, key@, i as int),
        decreases keys@.len() - i,
    {
        assert(all[i as int] == keys@[i as int]@);
        if !in_order(keys[i].as_slice(), key) {
            return i;
        }
        i += 1;
    }
    i
}

/// Whether a text holds another.
fn text_holds(whole: &[char], part: &[char]) -> (yes: bool)
    ensures
        yes == holds(whole@, part@),
{
    let n: usize = whole.len();
    let m: usize = part.len();
    if m > n {
        return false;
    }
    let mut i: usize = 0;
    while i <= n - m
        invariant
            n == whole@.len(),
            m == part@.len(),
            m <= n,
            i <= n - m + 1,
            forall|k: int| k < i ==> !#[trigger] search::occurs_at(whole@, part@, k),
        decreases n - m + 1 - i,
    {
        let mut k: usize = 0;
        while k < m && whole[i + k] == part[k]
            invariant
                n == whole@.len(),
                m == part@.len(),
                i + m <= n,
                k <= m,
                forall|q: int| 0 <= q < k ==> whole@[i + q] == part@[q],
            decreases m - k,
        {
            k += 1;
        }
        if k == m {
            assert(whole@.subrange(i as int, i + m) =~= part@);
            assert(search::occurs_at(whole@, part@, i as int));
            return true;
        }
        proof {
            if search::occurs_at(whole@, part@, i as int) {
                assert(whole@.subrange(i as int, i + m)[k as int] == whole@[i + k]);
                assert(false);
            }
        }
        i += 1;
    }
    assert forall|k: int| !#[trigger] search::occurs_at(whole@, part@, k) by {}
    false
}

/// What a search by name finds, given the keys and the lengths of the names;
/// see [`is_found`].
pub fn pick_by_name(keys: &Vec<Vec<char>>, lengths: &Vec<usize>, needle: &[char]) -> (found:
    Option<usize>)
    requires
        keys@.len() == lengths@.len(),
    ensures
        is_found(
            text::char_lists(keys@),
            lengths@,
            needle@,
            match found {
                Some(i) => Some(i as int),
                None => None,
            },
        ),
{
    let ghost all = text::char_lists(keys@);
    let mut i: usize = 0;
    while i < keys.len()
        invariant
            i <= keys@.len(),
            all == text::char_lists(keys@),
            forall|k: int| 0 <= k < i ==> #[trigger] all[k] != needle@,
        decreases keys@.len() - i,
    {
        assert(all[i as int] == keys@[i as int]@);
        if text::same_chars(keys[i].as_slice(), needle) {
            return Some(i);
        }
        i += 1;
    }
    let mut best: Option<usize> = None;
    let mut j: usize = 0;
    while j < keys.len()
        invariant
            j <= keys@.len(),
            keys@.len() == lengths@.len(),
            all == text::char_lists(keys@),
            best matches Some(b) ==> b < j && holds(all[b as int], needle@) && forall|k: int|
                0 <= k < j && holds(#[trigger] all[k], needle@) ==> lengths@[b as int]
                    <= lengths@[k] && (k < b ==> lengths@[b as int] < lengths@[k]),
            best is None ==> forall|k: int|
                0 <= k < j ==> !holds(#[trigger] all[k], needle@),
        decreases keys@.len() - j,
    {
        assert(all[j as int] == keys@[j as int]@);
        if text_holds(keys[j].as_slice(), needle) {
            match best {
                None => {
                    best = Some(j);
                },
                Some(b) => {
                    if lengths[j] < lengths[b] {
                        best = Some(j);
                    }
                },
            }
        }
        j += 1;
    }
    best
}

/// The keys of a list of themes.
fn keys_of(themes: &Vec<Theme>) -> (keys: Vec<Vec<char>>)
    ensures
        text::char_lists(keys@) == sort_keys(models(themes@)),
        keys@.len() == themes@.len(),
{
    let mut keys: Vec<Vec<char>> = Vec::new();
    let mut i: usize = 0;
    while i < themes.len()
        invariant
            i <= themes@.len(),
            keys@.len() == i,
            forall|k: int|
                0 <= k < i ==> (#[trigger] keys@[k])@ == text::lowercase(themes@[k].name@),
        decreases themes@.len() - i,
    {
        let lower = text::to_lowercase(themes[i].name.as_str());
        keys.push(text::chars_of(lower.as_str()));
        i += 1;
    }
    assert(text::char_lists(keys@) =~= sort_keys(models(themes@)));
    keys
}

/// The place of a theme with a given name, or the length of the list.
fn find_named(themes: &Vec<Theme>, name: &str) -> (at: usize)
    ensures
        at == named(models(themes@), name@, 0),
        at <= themes@.len(),
{
    let ghost all = models(themes@);
    let wanted = text::lower_ascii(text::chars_of(name).as_slice());
    let mut i: usize = 0;
    while i < themes.len()
        invariant
            i <= themes@.len(),
            all == models(themes@),
            wanted@ == text::ascii_lowered(name@),
            named(all, name@, 0) == named(all, name@, i as int),
        decreases themes@.len() - i,
    {
        let low = text::lower_ascii(text::chars_of(themes[i].name.as_str()).as_slice());
        if text::same_chars(low.as_slice(), wanted.as_slice()) {
            return i;
        }
        i += 1;
    }
    i
}

/// The themes that are left over are the rest of all, one by one.
proof fn lemma_first_of_rest(all: Seq<ThemeModel>, done: int, left: Seq<Theme>)
    requires
        0 <= done <= all.len(),
        models(left) == all.skip(done),
        left.len() > 0,
    ensures
        done < all.len(),
        left[0]@ == all[done],
        forall|i: int| 0 <= i < left.len() ==> (#[trigger] left[i])@ == all[done + i],
        left.len() == all.len() - done,
{
    assert(models(left).len() == left.len());
    assert forall|i: int| 0 <= i < left.len() implies (#[trigger] left[i])@ == all[done + i] by {
        assert(models(left)[i] == left[i]@);
    }
}

impl ThemeLib {
    /// Builtin themes with user themes over them, sorted by name. A user theme
    /// takes the place of a builtin of the same name, whatever its case.
    pub fn load(builtins: Vec<Theme>, user: Vec<Theme>) -> (lib: ThemeLib)
        ensures
            lib@ == sorted(with_themes(models(builtins@), models(user@))),
    {
        let ghost base = models(builtins@);
        let ghost added = models(user@);
        let mut merged = builtins;
        let mut user = user;
        let mut done: Ghost<int> = Ghost(0);
        assert(added.take(0) =~= Seq::<ThemeModel>::empty());
        assert(added.skip(0) =~= added);
        while user.len() > 0
            invariant
                0 <= done@ <= added.len(),
                models(user@) == added.skip(done@),
                models(merged@) == with_themes(base, added.take(done@)),
            decreases user@.len(),
        {
            let ghost left = user@;
            let ghost before = models(merged@);
            let theme = user.remove(0);
            let ghost model = theme@;
            proof {
                lemma_first_of_rest(added, done@, left);
                assert(models(user@) =~= added.skip(done@ + 1));
                assert(added.take(done@ + 1).drop_last() =~= added.take(done@));
            }
            let at: usize = find_named(&merged, theme.name.as_str());
            if at < merged.len() {
                merged[at] = theme;
                assert(models(merged@) =~= before.update(at as int, model));
            } else {
                merged.push(theme);
                assert(models(merged@) =~= before.push(model));
            }
            done = Ghost(done@ + 1);
        }
        assert(added.take(done@) =~= added);
        ThemeLib { themes: Self::sort(merged) }
    }

    fn sort(themes: Vec<Theme>) -> (out: Vec<Theme>)
        ensures
            models(out@) == sorted(models(themes@)),
    {
        let ghost all = models(themes@);
        let mut themes = themes;
        let mut out: Vec<Theme> = Vec::new();
        let mut keys: Vec<Vec<char>> = Vec::new();
        let mut done: Ghost<int> = Ghost(0);
        assert(all.take(0) =~= Seq::<ThemeModel>::empty());
        assert(models(out@) =~= Seq::<ThemeModel>::empty());
        assert(text::char_lists(keys@) =~= sort_keys(models(out@)));
        assert(all.skip(0) =~= all);
        while themes.len() > 0
            invariant
                0 <= done@ <= all.len(),
                models(themes@) == all.skip(done@),
                models(out@) == sorted(all.take(done@)),
                text::char_lists(keys@) == sort_keys(models(out@)),
            decreases themes@.len(),
        {
            let ghost left = themes@;
            let ghost before = models(out@);
            let ghost old_keys = keys@;
            let theme = themes.remove(0);
            let ghost model = theme@;
            proof {
                lemma_first_of_rest(all, done@, left);
                assert(models(themes@) =~= all.skip(done@ + 1));
                assert(all.take(done@ + 1).drop_last() =~= all.take(done@));
                assert(text::char_lists(old_keys).len() == sort_keys(before).len());
            }
            let lower = text::to_lowercase(theme.name.as_str());
            let key = text::chars_of(lower.as_str());
            let ghost key_chars = key@;
            let place: usize = find_place(&keys, key.as_slice());
            keys.insert(place, key);
            out.insert(place, theme);
            proof {
                assert(models(out@) =~= before.insert(place as int, model));
                assert(text::char_lists(keys@) =~= text::char_lists(old_keys).insert(
                    place as int,
                    key_chars,
                ));
                assert(text::char_lists(keys@) =~= sort_keys(models(out@)));
            }
            done = Ghost(done@ + 1);
        }
        assert(all.take(done@) =~= all);
        out
    }

    /// The names in order.
    pub fn names(&self) -> (names: Vec<String>)
        ensures
            names@.len() == self@.len(),
            forall|i: int| 0 <= i < self@.len() ==> (#[trigger] names@[i])@ == self@[i].name,
    {
        let mut names: Vec<String> = Vec::new();
        let mut i: usize = 0;
        while i < self.themes.len()
            invariant
                i <= self.themes@.len(),
                names@.len() == i,
                forall|k: int| 0 <= k < i ==> (#[trigger] names@[k])@ == self@[k].name,
            decreases self.themes@.len() - i,
        {
            names.push(self.themes[i].name.clone());
            i += 1;
        }
        names
    }

    /// All themes in order.
    pub fn all(&self) -> (themes: &[Theme])
        ensures
            models(themes@) == self@,
    {
        self.themes.as_slice()
    }

    /// Looks a theme up by name, in any case. Where no name is the one asked
    /// for, a name that holds it will do, the shortest first.
    pub fn find(&self, name: &str) -> (theme: Option<&Theme>)
        ensures
            theme matches Some(t) ==> exists|i: int|
                #[trigger] finds(self@, name@, Some(i)) && t@ == self@[i],
            theme is None ==> finds(self@, name@, None),
    {
        match self.find_index(name) {
            Some(i) => {
                assert(finds(self@, name@, Some(i as int)));
                Some(&self.themes[i])
            },
            None => None,
        }
    }

    /// The place of the theme that [`ThemeLib::find`] finds.
    fn find_index(&self, name: &str) -> (found: Option<usize>)
        ensures
            finds(
                self@,
                name@,
                match found {
                    Some(i) => Some(i as int),
                    None => None,
                },
            ),
            found matches Some(i) ==> i < self@.len(),
    {
        let lower = text::to_lowercase(name);
        let needle = text::chars_of(lower.as_str());
        let keys = keys_of(&self.themes);
        let mut lengths: Vec<usize> = Vec::new();
        let mut i: usize = 0;
        while i < self.themes.len()
            invariant
                i <= self.themes@.len(),
                lengths@.len() == i,
                forall|k: int| 0 <= k < i ==> #[trigger] lengths@[k] == name_lengths(self@)[k],
            decreases self.themes@.len() - i,
        {
            lengths.push(self.themes[i].name.as_str().len());
            i += 1;
        }
        assert(lengths@ =~= name_lengths(self@));
        pick_by_name(&keys, &lengths, needle.as_slice())
    }

    /// The theme to start with: the default one if it can be found, else the
    /// first.
    pub fn default(&self) -> (theme: &Theme)
        requires
            self@.len() > 0,
        ensures
            finds(self@, DEFAULT_THEME_NAME@, None) ==> theme@ == self@[0],
            !finds(self@, DEFAULT_THEME_NAME@, None) ==> exists|i: int|
                #[trigger] finds(self@, DEFAULT_THEME_NAME@, Some(i)) && theme@ == self@[i],
    {
        match self.find(DEFAULT_THEME_NAME) {
            Some(t) => t,
            None => &self.themes[0],
        }
    }

    /// The place of the theme with a given name, in any case of its ASCII
    /// letters.
    pub fn position(&self, name: &str) -> (at: Option<usize>)
        ensures
            at is Some <==> named(self@, name@, 0) < self@.len(),
            at matches Some(i) ==> i == named(self@, name@, 0),
    {
        let i: usize = find_named(&self.themes, name);
        if i < self.themes.len() {
            Some(i)
        } else {
            None
        }
    }

    /// The theme at a place.
    pub fn at(&self, idx: usize) -> (theme: &Theme)
        requires
            idx < self@.len(),
        ensures
            theme@ == self@[idx as int],
    {
        &self.themes[idx]
    }

    /// The number of themes.
    pub fn len(&self) -> (n: usize)
        ensures
            n == self@.len(),
    {
        self.themes.len()
    }
}

proof fn lemma_order_is_total(a: Seq<char>, b: Seq<char>)
    ensures
        reads_before(a, b) || reads_before(b, a),
    decreases a.len(),
{
    if a.len() > 0 && b.len() > 0 && a[0] == b[0] {
        lemma_order_is_total(a.skip(1), b.skip(1));
    }
}

proof fn lemma_order_is_transitive(a: Seq<char>, b: Seq<char>, c: Seq<char>)
    requires
        reads_before(a, b),
        reads_before(b, c),
    ensures
        reads_before(a, c),
    decreases a.len(),
{
    if a.len() > 0 && b.len() > 0 && c.len() > 0 && a[0] == b[0] && b[0] == c[0] {
        lemma_order_is_transitive(a.skip(1), b.skip(1), c.skip(1));
    }
}

proof fn lemma_place_for(keys: Seq<Seq<char>>, key: Seq<char>, i: int)
    requires
        0 <= i <= keys.len(),
    ensures
        i <= place_for(keys, key, i) <= keys.len(),
        forall|k: int|
            i <= k < place_for(keys, key, i) ==> reads_before(#[trigger] keys[k], key),
        place_for(keys, key, i) < keys.len() ==> !reads_before(
            keys[place_for(keys, key, i)],
            key,
        ),
    decreases keys.len() - i,
{
    if i < keys.len() && reads_before(keys[i], key) {
        lemma_place_for(keys, key, i + 1);
    }
}

/// The library lists its themes in order of their names.
pub proof fn law_library_is_sorted(themes: Seq<ThemeModel>, i: int, j: int)
    requires
        0 <= i < j < sorted(themes).len(),
    ensures
        reads_before(sort_key(sorted(themes)[i]), sort_key(sorted(themes)[j])),
    decreases themes.len(),
{
    let rest = sorted(themes.drop_last());
    let key = sort_key(themes.last());
    let keys = sort_keys(rest);
    let place = place_for(keys, key, 0);
    lemma_place_for(keys, key, 0);
    let all = sorted(themes);
    assert(all == rest.insert(place, themes.last()));
    if j < place {
        law_library_is_sorted(themes.drop_last(), i, j);
    } else if j == place {
        assert(all[i] == rest[i]);
        assert(keys[i] == sort_key(rest[i]));
    } else if i == place {
        assert(all[j] == rest[j - 1]);
        assert(keys[place] == sort_key(rest[place]));
        lemma_order_is_total(keys[place], key);
        if j - 1 > place {
            law_library_is_sorted(themes.drop_last(), place, j - 1);
            lemma_order_is_transitive(key, keys[place], sort_key(rest[j - 1]));
        }
    } else if i < place {
        law_library_is_sorted(themes.drop_last(), i, j - 1);
    } else {
        law_library_is_sorted(themes.drop_last(), i - 1, j - 1);
    }
}

/// Sorting neither drops nor adds a theme.
pub proof fn law_library_keeps_every_theme(themes: Seq<ThemeModel>)
    ensures
        sorted(themes).to_multiset() == themes.to_multiset(),
        sorted(themes).len() == themes.len(),
    decreases themes.len(),
{
    if themes.len() > 0 {
        let rest = sorted(themes.drop_last());
        let last = themes.last();
        let place = place_for(sort_keys(rest), sort_key(last), 0);
        lemma_place_for(sort_keys(rest), sort_key(last), 0);
        law_library_keeps_every_theme(themes.drop_last());
        let all = rest.insert(place, last);
        assert(all.remove(place) =~= rest);
        assert(all[place] == last);
        assert(themes.drop_last().push(last) =~= themes);
        all.to_multiset_ensures();
        themes.drop_last().to_multiset_ensures();
        assert(all.contains(last));
        assert(all.to_multiset() =~= rest.to_multiset().insert(last));
    }
}

proof fn lemma_named(themes: Seq<ThemeModel>, name: Seq<char>, i: int)
    requires
        0 <= i <= themes.len(),
    ensures
        i <= named(themes, name, i) <= themes.len(),
        named(themes, name, i) < themes.len() ==> same_name(
            themes[named(themes, name, i)].name,
            name,
        ),
        forall|k: int|
            i <= k < named(themes, name, i) ==> !same_name((#[trigger] themes[k]).name, name),
    decreases themes.len() - i,
{
    if i < themes.len() && !same_name(themes[i].name, name) {
        lemma_named(themes, name, i + 1);
    }
}

/// A user theme overrides: asking for its name, in any case of the letters,
/// gives the user's theme and not the builtin.
pub proof fn law_user_theme_overrides(themes: Seq<ThemeModel>, theme: ThemeModel, name: Seq<char>)
    requires
        same_name(theme.name, name),
    ensures
        ({
            let after = with_theme(themes, theme);
            let i = named(after, name, 0);
            i < after.len() && after[i] == theme
        }),
{
    lemma_named(themes, theme.name, 0);
    let after = with_theme(themes, theme);
    let place = named(themes, theme.name, 0);
    lemma_named(after, name, 0);
    let i = named(after, name, 0);
    assert(after[place] == theme);
    if i < place {
        assert(after[i] == themes[i]);
        assert(same_name(themes[i].name, theme.name));
    }
}

/// A search finds the theme that has the name, wherever the library has one.
pub proof fn law_search_prefers_the_exact_name(themes: Seq<ThemeModel>, name: Seq<char>, k: int, found: int)
    requires
        0 <= k < themes.len(),
        sort_key(themes[k]) == text::lowercase(name),
        finds(themes, name, Some(found)),
    ensures
        0 <= found < themes.len(),
        sort_key(themes[found]) == text::lowercase(name),
        !finds(themes, name, None),
{
    assert(sort_keys(themes)[k] == text::lowercase(name));
}

/// A search by name has only one answer.
pub proof fn law_search_has_one_answer(
    themes: Seq<ThemeModel>,
    name: Seq<char>,
    a: Option<int>,
    b: Option<int>,
)
    requires
        finds(themes, name, a),
        finds(themes, name, b),
    ensures
        a == b,
{
    let keys = sort_keys(themes);
    let needle = text::lowercase(name);
    if a is Some && b is Some {
        assert(keys[a->0] == keys[a->0] && keys[b->0] == keys[b->0]);
    } else if a is Some {
        assert(keys[a->0] == keys[a->0]);
    } else if b is Some {
        assert(keys[b->0] == keys[b->0]);
    }
}

/// No two themes have the same name.
pub open spec fn distinct_names(themes: Seq<ThemeModel>) -> bool {
    forall|i: int, j: int|
        0 <= i < j < themes.len() ==> !same_name(
            (#[trigger] themes[i]).name,
            (#[trigger] themes[j]).name,
        )
}

/// The library holds every theme of the user, the last of those with one name,
/// and no other theme of that name.
pub proof fn law_library_prefers_user_themes(
    builtins: Seq<ThemeModel>,
    user: Seq<ThemeModel>,
    k: int,
    other: ThemeModel,
)
    requires
        distinct_names(builtins),
        0 <= k < user.len(),
        forall|j: int|
            k < j < user.len() ==> !same_name((#[trigger] user[j]).name, user[k].name),
    ensures
        ({
            let lib = sorted(with_themes(builtins, user));
            &&& lib.contains(user[k])
            &&& lib.contains(other) && same_name(other.name, user[k].name) ==> other == user[k]
        }),
{
    let all = with_themes(builtins, user);
    lemma_user_theme_stays(builtins, user, k);
    lemma_names_stay_distinct(builtins, user);
    law_library_keeps_every_theme(all);
    let lib = sorted(all);
    all.to_multiset_ensures();
    lib.to_multiset_ensures();
    assert(all.to_multiset().count(user[k]) > 0);
    assert(lib.contains(user[k]));
    if lib.contains(other) && same_name(other.name, user[k].name) {
        assert(lib.to_multiset().count(other) > 0);
        assert(all.contains(other));
        let i = all.index_of(other);
        let j = all.index_of(user[k]);
        if i < j {
            assert(!same_name(all[i].name, all[j].name));
        } else if j < i {
            assert(!same_name(all[j].name, all[i].name));
        }
    }
}

proof fn lemma_names_stay_distinct(builtins: Seq<ThemeModel>, user: Seq<ThemeModel>)
    requires
        distinct_names(builtins),
    ensures
        distinct_names(with_themes(builtins, user)),
    decreases user.len(),
{
    if user.len() > 0 {
        lemma_names_stay_distinct(builtins, user.drop_last());
        let before = with_themes(builtins, user.drop_last());
        let theme = user.last();
        lemma_named(before, theme.name, 0);
        let place = named(before, theme.name, 0);
        let after = with_theme(before, theme);
        assert forall|i: int, j: int| 0 <= i < j < after.len() implies !same_name(
            (#[trigger] after[i]).name,
            (#[trigger] after[j]).name,
        ) by {
            if place < before.len() {
                if i != place && j != place {
                    assert(!same_name(before[i].name, before[j].name));
                } else if i == place {
                    assert(!same_name(before[place].name, before[j].name));
                } else {
                    assert(!same_name(before[i].name, before[place].name));
                }
            } else if j < before.len() {
                assert(!same_name(before[i].name, before[j].name));
            } else {
                assert(!same_name(before[i].name, theme.name));
            }
        }
    }
}

proof fn lemma_user_theme_stays(builtins: Seq<ThemeModel>, user: Seq<ThemeModel>, k: int)
    requires
        0 <= k < user.len(),
        forall|j: int|
            k < j < user.len() ==> !same_name((#[trigger] user[j]).name, user[k].name),
    ensures
        with_themes(builtins, user).contains(user[k]),
    decreases user.len(),
{
    let before = with_themes(builtins, user.drop_last());
    let theme = user.last();
    let after = with_theme(before, theme);
    lemma_named(before, theme.name, 0);
    let place = named(before, theme.name, 0);
    if k == user.len() - 1 {
        assert(after[place] == theme);
    } else {
        let start = user.drop_last();
        assert forall|j: int| k < j < start.len() implies !same_name(
            (#[trigger] start[j]).name,
            start[k].name,
        ) by {
            assert(start[j] == user[j]);
        }
        lemma_user_theme_stays(builtins, start, k);
        let i = before.index_of(user[k]);
        assert(!same_name(theme.name, user[k].name));
        assert(i != place);
        assert(after[i] == user[k]);
    }
}

} // verus!
