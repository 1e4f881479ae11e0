//! How themes are kept, ordered and found.

use vstd::prelude::*;

use crate::text;
use crate::theme::ThemeModel;
use crate::theme_lib;

verus! {

/// Texts are ordered by the first character in which they differ; a text comes before
/// all that begin with it.
pub proof fn law_reading_order(common: Seq<char>, a: Seq<char>, b: Seq<char>)
    ensures
        theme_lib::reads_before(common, common + b),
        b.len() > 0 ==> !theme_lib::reads_before(common + b, common),
        a.len() > 0 && b.len() > 0 && a[0] != b[0] ==> (theme_lib::reads_before(
            common + a,
            common + b,
        ) <==> a[0] < b[0]),
    decreases common.len(),
{
    if common.len() == 0 {
        assert(common + a =~= a);
        assert(common + b =~= b);
    } else {
        let rest = common.skip(1);
        law_reading_order(rest, a, b);
        assert((common + a).skip(1) =~= rest + a);
        assert((common + b).skip(1) =~= rest + b);
    }
}

/// A theme is sorted in behind those whose names in lower case come before its own or
/// are the same, and before those whose names come after it.
pub proof fn law_themes_are_sorted_in(themes: Seq<ThemeModel>, t: ThemeModel)
    ensures
        theme_lib::sorted(Seq::empty()) == Seq::<ThemeModel>::empty(),
        exists|p: int| #[trigger]
            sorted_in_at(
                theme_lib::sorted(themes),
                t,
                theme_lib::sorted(themes.push(t)),
                p,
            ),
{
    let before = theme_lib::sorted(themes);
    let keys = theme_lib::sort_keys(before);
    let key = text::lowercase(t.name);
    assert(themes.push(t).drop_last() =~= themes);
    let p = theme_lib::place_for(keys, key, 0);
    lemma_place_for(keys, key, 0);
    assert forall|j: int| 0 <= j < before.len() implies text::lowercase(
        (#[trigger] before[j]).name,
    ) == keys[j] by {}
    assert(sorted_in_at(before, t, theme_lib::sorted(themes.push(t)), p));
}

/// A theme stands at a place of a list that was there before, in order.
pub open spec fn sorted_in_at(
    before: Seq<ThemeModel>,
    t: ThemeModel,
    after: Seq<ThemeModel>,
    p: int,
) -> bool {
    let key = text::lowercase(t.name);
    &&& 0 <= p <= before.len()
    &&& after == before.take(p).push(t) + before.skip(p)
    &&& forall|j: int|
        0 <= j < p ==> theme_lib::reads_before(
            text::lowercase((#[trigger] before[j]).name),
            key,
        )
    &&& p < before.len() ==> !theme_lib::reads_before(text::lowercase(before[p].name), key)
}

proof fn lemma_place_for(keys: Seq<Seq<char>>, key: Seq<char>, i: int)
    requires
        0 <= i <= keys.len(),
    ensures
        ({
            let p = theme_lib::place_for(keys, key, i);
            &&& i <= p <= keys.len()
            &&& p < keys.len() ==> !theme_lib::reads_before(keys[p], key)
            &&& forall|j: int| i <= j < p ==> theme_lib::reads_before(#[trigger] keys[j], key)
        }),
    decreases keys.len() - i,
{
    if i < keys.len() && theme_lib::reads_before(keys[i], key) {
        lemma_place_for(keys, key, i + 1);
    }
}

/// A theme takes the place of the first one whose name is the same up to the case of
/// ASCII letters, and joins at the end where there is none. The others stay.
pub proof fn law_theme_takes_its_place(themes: Seq<ThemeModel>, t: ThemeModel, j: int)
    ensures
        ({
            let after = theme_lib::with_theme(themes, t);
            let same = |i: int|
                text::ascii_lowered(themes[i].name) == text::ascii_lowered(t.name);
            let known = exists|i: int| 0 <= i < themes.len() && #[trigger] same(i);
            &&& !known ==> after == themes.push(t)
            &&& known ==> after.len() == themes.len() && exists|i: int|
                {
                    &&& 0 <= i < themes.len() && #[trigger] same(i)
                    &&& forall|k: int| 0 <= k < i ==> !#[trigger] same(k)
                    &&& after[i] == t
                    &&& 0 <= j < themes.len() && j != i ==> after[j] == themes[j]
                }
        }),
{
    let same = |i: int| text::ascii_lowered(themes[i].name) == text::ascii_lowered(t.name);
    lemma_named(themes, t.name, 0);
    let i = theme_lib::named(themes, t.name, 0);
    assert forall|k: int| 0 <= k < i implies !#[trigger] same(k) by {
        assert(!theme_lib::same_name(themes[k].name, t.name));
    }
    if i < themes.len() {
        assert(same(i));
    }
}

proof fn lemma_named(themes: Seq<ThemeModel>, name: Seq<char>, i: int)
    requires
        0 <= i <= themes.len(),
    ensures
        ({
            let n = theme_lib::named(themes, name, i);
            &&& i <= n <= themes.len()
            &&& n < themes.len() ==> theme_lib::same_name(themes[n].name, name)
            &&& forall|k: int|
                i <= k < n ==> !theme_lib::same_name((#[trigger] themes[k]).name, name)
        }),
    decreases themes.len() - i,
{
    if i < themes.len() && !theme_lib::same_name(themes[i].name, name) {
        lemma_named(themes, name, i + 1);
    }
}

/// A text holds each part of it, and nothing else.
pub proof fn law_parts_are_held(before: Seq<char>, part: Seq<char>, after: Seq<char>, whole: Seq<char>)
    ensures
        theme_lib::holds(before + part + after, part),
        theme_lib::holds(whole, part) ==> exists|i: int|
            0 <= i <= whole.len() - part.len() && whole == #[trigger] whole.take(i) + part
                + whole.skip(i + part.len()),
{
    let all = before + part + after;
    let at = before.len() as int;
    assert(all.subrange(at, at + part.len()) =~= part);
    assert(crate::search::occurs_at(all, part, at));
    if theme_lib::holds(whole, part) {
        let i = choose|i: int| #[trigger] crate::search::occurs_at(whole, part, i);
        assert(whole =~= whole.take(i) + whole.subrange(i, i + part.len()) + whole.skip(
            i + part.len(),
        ));
    }
}

/// Where no theme has the name that was asked for, one is found whose name holds it in
/// lower case: of these the one with the fewest bytes, and the first of several such.
/// None is found only where no name holds it.
pub proof fn law_search_by_part_of_a_name(
    themes: Seq<ThemeModel>,
    name: Seq<char>,
    found: Option<int>,
    j: int,
)
    requires
        theme_lib::finds(themes, name, found),
        forall|k: int|
            0 <= k < themes.len() ==> text::lowercase((#[trigger] themes[k]).name)
                != text::lowercase(name),
        0 <= j < themes.len(),
        theme_lib::holds(text::lowercase(themes[j].name), text::lowercase(name)),
        forall|k: int|
            0 <= k < themes.len() ==> vstd::utf8::encode_utf8((#[trigger] themes[k]).name).len()
                <= usize::MAX,
    ensures
        found matches Some(i) && {
            let bytes = |k: int| vstd::utf8::encode_utf8(themes[k].name).len();
            &&& 0 <= i < themes.len()
            &&& theme_lib::holds(text::lowercase(themes[i].name), text::lowercase(name))
            &&& bytes(i) <= bytes(j)
            &&& j < i ==> bytes(i) < bytes(j)
        },
{
    let keys = theme_lib::sort_keys(themes);
    assert forall|k: int| 0 <= k < themes.len() implies #[trigger] keys[k] == text::lowercase(
        themes[k].name,
    ) by {}
    assert(keys[j] == text::lowercase(themes[j].name));
}

} // verus!
