//! What each key of vi mode is for.

use vstd::prelude::*;

use crate::keys::{Key, Modifiers, NamedKey};
use crate::motion;
use crate::motion::Motion;
use crate::screen_laws;
use crate::search::{SearchDirection, SearchModel};
use crate::search_laws;
use crate::selection;
use crate::selection::SelectionMode;
use crate::term::TermModel;
use crate::text;
use crate::vi;
use crate::vi::{PendingOp, ViModel, VisualMode};
use crate::vi_keys::ViState;
use crate::vi_search;
use crate::yank;

verus! {

/// Vi mode with the cursor on the screen, nothing half typed and no search being
/// typed.
pub open spec fn at_rest(s: ViState) -> bool {
    &&& s.wf()
    &&& s.vi.active
    &&& s.vi.pending_op is None
    &&& s.vi.search matches Some(search) ==> !search.typing
    &&& s.vi.cursor.0 < screen_laws::in_use(s.term).rows
    &&& s.vi.cursor.1 < screen_laws::in_use(s.term).cols
}

/// A text that begins with a character.
pub open spec fn begins_with(text: Seq<char>, ch: char) -> bool {
    text.len() > 0 && text[0] == ch
}

/// How often a motion is repeated: once, or as often as the count says.
pub open spec fn times(count: Option<u32>) -> int {
    if count is Some && count->0 > 0 {
        count->0 as int
    } else {
        1
    }
}

/// A motion was carried out as often as the count says, the count is used up, and
/// nothing was copied.
pub open spec fn was_moved(s: ViState, after: ViState, m: Motion) -> bool {
    let (view, place) = motion::motion_steps(
        s.term,
        (s.vi.cursor.0 as int, s.vi.cursor.1 as int),
        m,
        times(s.vi.pending_count),
    );
    &&& after.term == view
    &&& after.vi == (ViModel {
        cursor: (place.0 as usize, place.1 as usize),
        pending_count: None,
        pending_op: None,
        ..s.vi
    })
    &&& after.copied == s.copied
}

/// The row of the cursor is in view.
proof fn lemma_cursor_in_view(s: ViState)
    requires
        s.wf(),
        s.vi.cursor.0 < screen_laws::in_use(s.term).rows,
    ensures
        motion::in_view(s.term, s.vi.cursor),
{
}

/// `h`, `j`, `k` and `l` go left, down, up and right; `w`, `e` and `b` by words and with
/// Shift by big words; `0`, `^` and `$` within the line; `G` to the end; `H`, `M` and `L`
/// in the view.
pub proof fn law_motion_keys(s: ViState, t: String, mods: Modifiers)
    requires
        at_rest(s),
        !mods.ctrl,
    ensures
        ({
            let after = s.key(Key::Character(t), mods);
            let lower = |c: char| begins_with(t@, c) && !mods.shift;
            let upper = |c: char| begins_with(t@, c) && mods.shift;
            &&& lower('h') ==> was_moved(s, after, Motion::Char(0, (-1) as isize))
            &&& lower('j') ==> was_moved(s, after, Motion::Char(1, 0))
            &&& lower('k') ==> was_moved(s, after, Motion::Char((-1) as isize, 0))
            &&& lower('l') ==> was_moved(s, after, Motion::Char(0, 1))
            &&& lower('w') ==> was_moved(s, after, Motion::WordNext { big: false })
            &&& upper('W') ==> was_moved(s, after, Motion::WordNext { big: true })
            &&& lower('e') ==> was_moved(s, after, Motion::WordEnd { big: false })
            &&& upper('E') ==> was_moved(s, after, Motion::WordEnd { big: true })
            &&& lower('b') ==> was_moved(s, after, Motion::WordPrev { big: false })
            &&& upper('B') ==> was_moved(s, after, Motion::WordPrev { big: true })
            &&& begins_with(t@, '^') ==> was_moved(s, after, Motion::LineFirstNonBlank)
            &&& begins_with(t@, '$') ==> was_moved(s, after, Motion::LineEnd)
            &&& begins_with(t@, '0') && s.vi.pending_count is None ==> was_moved(
                s,
                after,
                Motion::LineStart,
            )
            &&& upper('G') ==> was_moved(s, after, Motion::DocEnd)
            &&& upper('H') ==> was_moved(s, after, Motion::ScreenTop)
            &&& upper('M') ==> was_moved(s, after, Motion::ScreenMiddle)
            &&& upper('L') ==> was_moved(s, after, Motion::ScreenBottom)
        }),
{
    lemma_cursor_in_view(s);
}

/// Ctrl with `u` and `d` scrolls by half pages, with `b` and `f` by whole ones.
pub proof fn law_page_keys(s: ViState, t: String, mods: Modifiers)
    requires
        at_rest(s),
        mods.ctrl,
    ensures
        ({
            let after = s.key(Key::Character(t), mods);
            &&& begins_with(t@, 'u') ==> was_moved(s, after, Motion::HalfPageUp)
            &&& begins_with(t@, 'd') ==> was_moved(s, after, Motion::HalfPageDown)
            &&& begins_with(t@, 'b') ==> was_moved(s, after, Motion::FullPageUp)
            &&& begins_with(t@, 'f') ==> was_moved(s, after, Motion::FullPageDown)
        }),
{
    lemma_cursor_in_view(s);
}

/// Twice `g` goes to the start; after the first one nothing has moved. Another key
/// in place of the second drops the command.
pub proof fn law_go_to_the_start(s: ViState, t: String, other: String, mods: Modifiers)
    requires
        at_rest(s),
        !mods.ctrl,
        !mods.shift,
        begins_with(t@, 'g'),
        other@.len() > 0,
        'h' <= other@[0] <= 'z',
    ensures
        ({
            let once = s.key(Key::Character(t), mods);
            let twice = once.key(Key::Character(t), mods);
            let dropped = once.key(Key::Character(other), mods);
            &&& once.term == s.term && once.copied == s.copied
            &&& once.vi == (ViModel { pending_op: Some(PendingOp::Goto), ..s.vi })
            &&& was_moved(s, twice, Motion::DocStart)
            &&& dropped.term == s.term && dropped.copied == s.copied && dropped.vi == s.vi
        }),
{
}

/// Digits make a count, the last one typed being the ones: it is repeated so often.
/// A zero that does not follow another digit is none.
pub proof fn law_digits_make_a_count(s: ViState, t: String, mods: Modifiers)
    requires
        at_rest(s),
        !mods.ctrl,
        t@.len() > 0,
        '0' <= t@[0] <= '9',
        t@[0] != '0' || s.vi.pending_count is Some,
    ensures
        ({
            let after = s.key(Key::Character(t), mods);
            let before = if s.vi.pending_count is Some {
                s.vi.pending_count->0 as int
            } else {
                0
            };
            let typed = before * 10 + (t@[0] as u32 - 0x30);
            &&& after.term == s.term && after.copied == s.copied
            &&& after.vi == (ViModel { pending_count: after.vi.pending_count, ..s.vi })
            &&& after.vi.pending_count is Some
            &&& typed <= 10_000 ==> after.vi.pending_count->0 == typed
            &&& typed > 10_000 ==> after.vi.pending_count->0 == 10_000
        }),
{
}

/// `v`, Shift with `v` and Ctrl with `v` begin to select characters, lines and a
/// block, from the cursor on.
pub proof fn law_visual_keys(s: ViState, t: String, mods: Modifiers)
    requires
        at_rest(s),
        t@.len() > 0,
        t@[0] == 'v' || t@[0] == 'V',
    ensures
        ({
            let after = s.key(Key::Character(t), mods);
            let visual = if mods.ctrl {
                VisualMode::Block
            } else if mods.shift {
                VisualMode::Line
            } else {
                VisualMode::Char
            };
            &&& after.term == s.term && after.copied == s.copied
            &&& after.vi == (ViModel { visual, visual_anchor: Some(s.vi.cursor), ..s.vi })
        }),
{
}

/// In a visual mode the selection goes from where it began to the cursor: as text
/// or as a block between the two, or over all columns of the rows between them.
pub proof fn law_selection_follows_the_cursor(s: ViState, key: Key, mods: Modifiers)
    requires
        s.wf(),
        s.key(key, mods).vi.active,
        s.key(key, mods).vi.visual != VisualMode::Off,
        s.key(key, mods).vi.visual_anchor is Some,
        screen_laws::in_use(s.key(key, mods).term).cols > 0,
        s.key(key, mods).term.wf(),
    ensures
        ({
            let after = s.key(key, mods);
            let (a, b) = (after.vi.visual_anchor->0, after.vi.cursor);
            let sel = after.selection->0;
            let visual = after.vi.visual;
            &&& after.selection is Some
            &&& !sel.dragging
            &&& visual == VisualMode::Char || visual == VisualMode::Block ==> sel.anchor == a
                && sel.end == b
            &&& visual == VisualMode::Char ==> sel.mode == SelectionMode::Char
            &&& visual == VisualMode::Block ==> sel.mode == SelectionMode::Block
            &&& visual == VisualMode::Line ==> {
                &&& sel.mode == SelectionMode::Char
                &&& sel.anchor.1 == 0
                &&& sel.end.1 == screen_laws::in_use(after.term).cols - 1
                &&& sel.anchor.0 <= a.0 <= sel.end.0 && sel.anchor.0 <= b.0 <= sel.end.0
                &&& (sel.anchor.0 == a.0 && sel.end.0 == b.0) || (sel.anchor.0 == b.0 && sel.end.0
                    == a.0)
            }
        }),
{
}

/// Vi mode was left after a text was copied: nothing is selected, half typed or
/// searched for, and the cursor stays.
pub open spec fn left_with(s: ViState, after: ViState, copied: Seq<char>) -> bool {
    &&& after.copied == copied
    &&& after.selection is None
    &&& !after.vi.active
    &&& after.vi.visual == VisualMode::Off
    &&& after.vi.visual_anchor is None
    &&& after.vi.pending_count is None
    &&& after.vi.pending_op is None
    &&& after.vi.search is None
}

/// `y` in a visual mode copies what is selected.
pub proof fn law_selection_is_yanked(s: ViState, t: String, mods: Modifiers)
    requires
        at_rest(s),
        !mods.ctrl,
        t@.len() > 0,
        t@[0] == 'y' || t@[0] == 'Y',
        s.vi.visual != VisualMode::Off,
        s.selection is Some,
    ensures
        ({
            let after = s.key(Key::Character(t), mods);
            &&& left_with(s, after, selection::selection_copy(s.term, s.selection->0))
            &&& after.term == s.term
            &&& after.vi.cursor == s.vi.cursor
        }),
{
}

/// The place of the cursor in the rows of history and screen.
pub open spec fn place(s: ViState) -> (int, int) {
    (
        search_laws::place_of_row(s.term, s.term.viewport_offset, s.vi.cursor.0 as int),
        s.vi.cursor.1 as int,
    )
}

/// A key without Shift and Ctrl stands for a motion.
pub open spec fn is_motion_key(t: Seq<char>, m: Motion) -> bool {
    ||| begins_with(t, 'w') && m == (Motion::WordNext { big: false })
    ||| begins_with(t, 'e') && m == (Motion::WordEnd { big: false })
    ||| begins_with(t, 'b') && m == (Motion::WordPrev { big: false })
    ||| begins_with(t, '$') && m == Motion::LineEnd
    ||| begins_with(t, '^') && m == Motion::LineFirstNonBlank
    ||| begins_with(t, 'h') && m == Motion::Char(0, (-1) as isize)
    ||| begins_with(t, 'j') && m == Motion::Char(1, 0)
    ||| begins_with(t, 'k') && m == Motion::Char((-1) as isize, 0)
    ||| begins_with(t, 'l') && m == Motion::Char(0, 1)
}

/// The state after `y`.
proof fn lemma_yank_begins(s: ViState, y: String, mods: Modifiers)
    requires
        at_rest(s),
        s.vi.visual == VisualMode::Off,
        begins_with(y@, 'y'),
        !mods.ctrl,
        !mods.shift,
    ensures
        ({
            let start = (place(s).0 as usize, place(s).1 as usize);
            s.key(Key::Character(y), mods) == s.with_op(Some(PendingOp::Yank { start_abs: start }))
        }),
{
}

/// The state after a motion that follows `y`.
proof fn lemma_yank_ends(
    once: ViState,
    t: String,
    mods: Modifiers,
    m: Motion,
    start: (usize, usize),
)
    requires
        once.wf(),
        once.vi.search matches Some(search) ==> !search.typing,
        once.vi.pending_op == Some(PendingOp::Yank { start_abs: start }),
        !mods.ctrl,
        !mods.shift,
        is_motion_key(t@, m),
    ensures
        ({
            let there = once.with_op(None).moved(m);
            once.key(Key::Character(t), mods) == there.yanked(start, there.cursor_place())
        }),
{
    assert(crate::vi_keys::motion_of_key(t@[0], false, false) == Some(m));
    assert(crate::text::ascii_lower(t@[0]) == t@[0]);
    let there = once.with_op(None).moved(m);
    let end = there.cursor_place();
    assert(once.after_yank(start, t@[0], false, false) == there.yanked(start, end));
    assert(!there.yanked(start, end).vi.active);
}

/// No motion scrolls the view beyond the live screen.
proof fn lemma_offset(t: TermModel, at: (int, int), m: Motion, n: int)
    requires
        0 <= t.viewport_offset,
    ensures
        0 <= motion::motion_steps(t, at, m, n).0.viewport_offset,
    decreases n,
{
    if n > 0 {
        lemma_offset(t, at, m, n - 1);
    }
}

/// Where a motion leads from rest.
proof fn lemma_moved(s: ViState, m: Motion)
    requires
        at_rest(s),
    ensures
        ({
            let (view, there) = motion::motion_steps(
                s.term,
                (s.vi.cursor.0 as int, s.vi.cursor.1 as int),
                m,
                times(s.vi.pending_count),
            );
            let op = Some(PendingOp::Yank { start_abs: s.cursor_place() });
            let moved = s.with_op(op).with_op(None).moved(m);
            let end = (
                search_laws::place_of_row(view, view.viewport_offset, there.0) as usize,
                there.1 as usize,
            );
            &&& moved.term == view
            &&& moved.cursor_place() == end
            &&& s.cursor_place() == (place(s).0 as usize, place(s).1 as usize)
        }),
{
    lemma_cursor_in_view(s);
    motion::law_motions_stay_in_view(
        s.term,
        (s.vi.cursor.0 as int, s.vi.cursor.1 as int),
        m,
        times(s.vi.pending_count),
    );
    lemma_offset(
        s.term,
        (s.vi.cursor.0 as int, s.vi.cursor.1 as int),
        m,
        times(s.vi.pending_count),
    );
    let op = Some(PendingOp::Yank { start_abs: s.cursor_place() });
    assert(s.with_op(op).with_op(None) == s);
}

/// `y` and a motion copy from the cursor to where the motion leads, both ends
/// with it, and leave vi mode. The count repeats the motion.
pub proof fn law_motion_is_yanked(s: ViState, y: String, t: String, mods: Modifiers, m: Motion)
    requires
        at_rest(s),
        !mods.ctrl,
        s.vi.visual == VisualMode::Off,
        begins_with(y@, 'y'),
        !mods.shift,
        is_motion_key(t@, m),
    ensures
        ({
            let once = s.key(Key::Character(y), mods);
            let after = once.key(Key::Character(t), mods);
            let (view, there) = motion::motion_steps(
                s.term,
                (s.vi.cursor.0 as int, s.vi.cursor.1 as int),
                m,
                times(s.vi.pending_count),
            );
            let end = (
                search_laws::place_of_row(view, view.viewport_offset, there.0) as usize,
                there.1 as usize,
            );
            let start = (place(s).0 as usize, place(s).1 as usize);
            &&& once.term == s.term && once.copied == s.copied
            &&& once.vi == (ViModel { pending_op: once.vi.pending_op, ..s.vi })
            &&& left_with(s, after, yank::range_copy(view, start, end))
            &&& after.term == view
        }),
{
    lemma_yank_begins(s, y, mods);
    let once = s.key(Key::Character(y), mods);
    let start = (place(s).0 as usize, place(s).1 as usize);
    lemma_yank_ends(once, t, mods, m, start);
    lemma_moved(s, m);
}

/// Twice `y`, and Shift with `y`, copy whole lines, from that of the cursor on, as many
/// as the count says, and leave vi mode. The view stays.
pub proof fn law_lines_are_yanked(s: ViState, y: String, mods: Modifiers, shifted: Modifiers)
    requires
        at_rest(s),
        s.vi.visual == VisualMode::Off,
        begins_with(y@, 'y'),
        !mods.ctrl,
        !mods.shift,
        !shifted.ctrl,
        shifted.shift,
    ensures
        ({
            let twice = s.key(Key::Character(y), mods).key(Key::Character(y), mods);
            let capital = s.key(Key::Character(y), shifted);
            let last = place(s).0 + times(s.vi.pending_count) - 1;
            let text = yank::range_copy(
                s.term,
                (place(s).0 as usize, 0),
                (
                    (if last > usize::MAX {
                        usize::MAX as int
                    } else {
                        last
                    }) as usize,
                    (screen_laws::in_use(s.term).cols - 1) as usize,
                ),
            );
            &&& left_with(s, twice, text) && twice.term == s.term
            &&& left_with(s, capital, text) && capital.term == s.term
        }),
{
    let once = s.key(Key::Character(y), mods);
    let start = (place(s).0 as usize, place(s).1 as usize);
    assert(once.vi.pending_op == Some(PendingOp::Yank { start_abs: start }));
}

/// `yiw` and `yaw` copy the word under the cursor, the second with the blanks around
/// it, and leave vi mode; with Shift at the end, the big word.
pub proof fn law_words_are_yanked(
    s: ViState,
    y: String,
    object: String,
    w: String,
    mods: Modifiers,
    last: Modifiers,
)
    requires
        at_rest(s),
        s.vi.visual == VisualMode::Off,
        begins_with(y@, 'y'),
        begins_with(object@, 'i') || begins_with(object@, 'a'),
        begins_with(w@, 'w') || begins_with(w@, 'W'),
        !mods.ctrl,
        !mods.shift,
        !last.ctrl,
    ensures
        ({
            let after = s.key(Key::Character(y), mods).key(Key::Character(object), mods).key(
                Key::Character(w),
                last,
            );
            let ends = if begins_with(object@, 'i') {
                yank::inner_object(s.term, s.vi.cursor, last.shift)
            } else {
                yank::around_object(s.term, s.vi.cursor, last.shift)
            };
            let place = |at: (usize, usize)|
                (
                    search_laws::place_of_row(
                        s.term,
                        s.term.viewport_offset,
                        at.0 as int,
                    ) as usize,
                    at.1,
                );
            &&& left_with(s, after, yank::range_copy(s.term, place(ends.0), place(ends.1)))
            &&& after.term == s.term
        }),
{
    lemma_cursor_in_view(s);
    let once = s.key(Key::Character(y), mods);
    let start = (place(s).0 as usize, place(s).1 as usize);
    assert(once.vi.pending_op == Some(PendingOp::Yank { start_abs: start }));
    let twice = once.key(Key::Character(object), mods);
    assert(begins_with(object@, 'i') ==> twice.vi.pending_op == Some(PendingOp::YankInner));
    assert(begins_with(object@, 'a') ==> twice.vi.pending_op == Some(PendingOp::YankAround));
    assert(motion::in_view(twice.term, twice.vi.cursor));
}

/// `/` begins a search forward and `?` one backward. `n` goes to the next hit in the
/// direction of the search, and with Shift against it.
pub proof fn law_search_keys(s: ViState, t: String, mods: Modifiers)
    requires
        at_rest(s),
        !mods.ctrl,
    ensures
        ({
            let after = s.key(Key::Character(t), mods);
            let search = after.vi.search->0;
            let stepped = vi_search::navigated(s.vi, s.term, mods.shift);
            &&& begins_with(t@, '/') || begins_with(t@, '?') ==> {
                &&& after.term == s.term && after.copied == s.copied
                &&& after.vi == (ViModel { search: Some(search), ..s.vi })
                &&& search.typing && search.query.len() == 0
                &&& search.origin_cursor == s.vi.cursor
                &&& search.origin_viewport_offset == s.term.viewport_offset
            }
            &&& begins_with(t@, '/') ==> search.direction == SearchDirection::Forward
            &&& begins_with(t@, '?') ==> search.direction == SearchDirection::Backward
            &&& begins_with(t@, 'n') || begins_with(t@, 'N') ==> {
                &&& after.vi == stepped.0
                &&& after.term == stepped.1
                &&& after.copied == s.copied
            }
        }),
{
}

/// While a search is typed, a character is added to the query and Backspace takes
/// the last one away, and the search is brought up to date; Enter keeps cursor and
/// view and ends the typing; Escape goes back to where the search began. Keys with
/// Ctrl and other keys do nothing.
pub proof fn law_typing_a_search(s: ViState, t: String, mods: Modifiers)
    requires
        s.wf(),
        s.vi.search is Some,
        s.vi.search->0.typing,
        t@.len() > 0,
        t@[0] as u32 >= 0x20,
        !(0x7f <= t@[0] as u32 <= 0x9f),
    ensures
        ({
            let old = s.vi.search->0;
            let asked = |query: Seq<char>|
                vi_search::refreshed(
                    ViModel { search: Some(SearchModel { query, ..old }), ..s.vi },
                    s.term,
                );
            let typed = s.key(Key::Character(t), mods);
            let erased = s.key(Key::Named(NamedKey::Backspace), mods);
            let done = s.key(Key::Named(NamedKey::Enter), mods);
            let given_up = s.key(Key::Named(NamedKey::Escape), mods);
            &&& !mods.ctrl ==> (typed.vi, typed.term) == asked(old.query.push(t@[0]))
            &&& mods.ctrl ==> typed.vi == s.vi && typed.term == s.term
            &&& old.query.len() > 0 ==> (erased.vi, erased.term) == asked(old.query.drop_last())
            &&& done.vi == (ViModel {
                search: Some(SearchModel { typing: false, ..old }),
                ..s.vi
            })
            &&& done.term == s.term
            &&& given_up.vi == (ViModel {
                search: None,
                cursor: old.origin_cursor,
                ..s.vi
            })
            &&& s.term.alt is None && old.origin_viewport_offset <= s.term.primary.scrollback.len()
                ==> given_up.term == (TermModel {
                viewport_offset: old.origin_viewport_offset as int,
                ..s.term
            })
            &&& typed.copied == s.copied && erased.copied == s.copied && done.copied == s.copied
                && given_up.copied == s.copied
        }),
{
}

/// Escape takes back one thing at a time, in this order: a search that was
/// committed, a half-typed count or command, the visual mode with its selection,
/// and at last vi mode itself. The cursor, the view and what was copied stay.
pub proof fn law_escape_takes_back_one_thing(s: ViState, mods: Modifiers)
    requires
        s.wf(),
        s.vi.active,
        s.vi.search matches Some(search) ==> !search.typing,
    ensures
        ({
            let v = s.vi;
            let after = s.key(Key::Named(NamedKey::Escape), mods);
            let half_typed = v.pending_count is Some || v.pending_op is Some;
            let visual = v.visual != VisualMode::Off;
            &&& after.term == s.term && after.copied == s.copied
            &&& v.search is Some ==> after.vi == (ViModel { search: None, ..v })
            &&& v.search is None && half_typed ==> after.vi == (ViModel {
                pending_count: None,
                pending_op: None,
                ..v
            })
            &&& v.search is None && !half_typed && visual ==> {
                &&& after.vi == (ViModel {
                    visual: VisualMode::Off,
                    visual_anchor: None,
                    ..v
                })
                &&& after.selection is None
            }
            &&& v.search is None && !half_typed && !visual ==> {
                &&& after.vi.cursor == v.cursor
                &&& left_with(s, after, s.copied)
            }
        }),
{
}

/// Other keys without a character do nothing.
pub proof fn law_other_keys_do_nothing(s: ViState, key: NamedKey, mods: Modifiers)
    requires
        s.wf(),
        s.vi.active,
        s.vi.visual == VisualMode::Off,
        key != NamedKey::Escape,
        s.vi.search matches Some(search) ==> !search.typing,
    ensures
        s.key(Key::Named(key), mods) == s,
{
}

/// A key that means nothing leaves everything as it is, and after the beginning of a
/// command it takes that back: only `g` goes on after `g`, only `w` after `yi` and `ya`,
/// and after `y` only a motion, `y`, `i` and `a`.
pub proof fn law_keys_without_meaning(s: ViState, t: String, mods: Modifiers)
    requires
        s.wf(),
        s.vi.active,
        s.vi.visual == VisualMode::Off,
        s.vi.search matches Some(search) ==> !search.typing,
        !mods.ctrl,
        t@.len() > 0,
        !('0' <= t@[0] <= '9'),
    ensures
        ({
            let after = s.key(Key::Character(t), mods);
            let c = text::ascii_lower(t@[0]);
            let dropped = ViState { vi: ViModel { pending_op: None, ..s.vi }, ..s };
            let moves = {
                ||| c == 'h' || c == 'l' || c == 'w' || c == 'e' || c == 'b' || c == '^' || c == '$'
                ||| (c == 'j' || c == 'k') && !mods.shift
                ||| (c == 'm' || c == 'g') && mods.shift
            };
            let object = (c == 'i' || c == 'a') && !mods.shift;
            let begins = c == 'g' || c == 'v' || c == 'y' || c == '/' || c == '?' || c == 'n';
            &&& s.vi.pending_op is None && !moves && !begins ==> after == s
            &&& s.vi.pending_op == Some(PendingOp::Goto) && c != 'g' ==> after == dropped
            &&& s.vi.pending_op == Some(PendingOp::YankInner) && c != 'w' ==> after == dropped
            &&& s.vi.pending_op == Some(PendingOp::YankAround) && c != 'w' ==> after == dropped
            &&& s.vi.pending_op is Some && s.vi.pending_op->0 is Yank && !moves && c != 'y'
                && !object ==> after == dropped
        }),
{
}

} // verus!
