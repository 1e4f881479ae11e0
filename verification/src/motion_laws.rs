//! Where the motions of vi mode lead, in terms of the characters in view.

use vstd::prelude::*;

use crate::grid::Cell;
use crate::motion;
use crate::motion::{Motion, WordClass};
use crate::screen_laws;
use crate::selection;
use crate::term::TermModel;
use crate::text;

verus! {

/// A row of the view: as many rows of the history as the view is scrolled back,
/// then those of the screen.
pub open spec fn seen_row(t: TermModel, row: int) -> Seq<Cell> {
    let g = screen_laws::in_use(t);
    let back = screen_laws::limited(t.viewport_offset, g.scrollback.len() as int);
    if row < back {
        g.scrollback[g.scrollback.len() - back + row]
    } else {
        g.lines[row - back]
    }
}

/// The character at a place of the view; NUL right of the end of its row.
pub open spec fn seen(t: TermModel, at: (int, int)) -> char {
    let cells = seen_row(t, at.0);
    if at.1 < cells.len() {
        cells[at.1].ch
    } else {
        '\0'
    }
}

/// A view scrolled back by `n` rows begins with the newest `n` rows of the
/// history and goes on with the top rows of the screen.
pub proof fn law_view_is_history_and_screen(t: TermModel, row: int)
    requires
        t.wf(),
        0 <= row < screen_laws::in_use(t).rows,
    ensures
        selection::view_row(t, row) == seen_row(t, row),
        selection::row_in_view(t, row),
{
}

/// A place is on the screen.
pub open spec fn on_view(t: TermModel, at: (int, int)) -> bool {
    0 <= at.0 < screen_laws::in_use(t).rows && 0 <= at.1 < screen_laws::in_use(t).cols
}

/// In reading order, one place comes before another.
pub open spec fn precedes(a: (int, int), b: (int, int)) -> bool {
    a.0 < b.0 || (a.0 == b.0 && a.1 < b.1)
}

/// The last place of the view.
pub open spec fn last_place(t: TermModel) -> (int, int) {
    (screen_laws::in_use(t).rows - 1, screen_laws::in_use(t).cols - 1)
}

/// The place that comes next in reading order.
pub open spec fn after(t: TermModel, at: (int, int)) -> (int, int) {
    if at.1 == screen_laws::in_use(t).cols - 1 {
        (at.0 + 1, 0)
    } else {
        (at.0, at.1 + 1)
    }
}

/// White space or nothing.
pub open spec fn blank(ch: char) -> bool {
    text::white_space(ch) || ch == '\0'
}

/// Two characters that are not blank belong to one word, where they stand side
/// by side: both are letters, digits or underscores, or neither is. For the big
/// words anything goes with anything.
pub open spec fn go_together(a: char, b: char, big: bool) -> bool {
    &&& !blank(a) && !blank(b)
    &&& big || (text::alphanumeric(a) || a == '_') == (text::alphanumeric(b) || b == '_')
}

/// All places from `from` up to, but not with, `to` hold a character that goes
/// together with `ch`.
pub open spec fn one_word(
    t: TermModel,
    from: (int, int),
    to: (int, int),
    ch: char,
    big: bool,
) -> bool {
    forall|p: (int, int)|
        #![trigger on_view(t, p)]
        on_view(t, p) && !precedes(p, from) && precedes(p, to) ==> go_together(
            seen(t, p),
            ch,
            big,
        )
}

/// All places from `from` up to, but not with, `to` are blank.
pub open spec fn all_blank(t: TermModel, from: (int, int), to: (int, int)) -> bool {
    forall|p: (int, int)|
        #![trigger on_view(t, p)]
        on_view(t, p) && !precedes(p, from) && precedes(p, to) ==> blank(seen(t, p))
}

/// Where one step of a motion leads.
pub open spec fn led(t: TermModel, at: (int, int), motion: Motion) -> (TermModel, (int, int)) {
    motion::motion_steps(t, at, motion, 1)
}

proof fn lemma_led(t: TermModel, at: (int, int), motion: Motion)
    ensures
        led(t, at, motion) == motion::motion_step(t, at, motion),
{
    reveal_with_fuel(motion::motion_steps, 2);
}

/// A count repeats a motion: steps add up.
pub proof fn law_counts_repeat(t: TermModel, at: (int, int), motion: Motion, a: int, b: int)
    requires
        0 <= a,
        0 <= b,
    ensures
        ({
            let there = motion::motion_steps(t, at, motion, a);
            motion::motion_steps(t, at, motion, a + b) == motion::motion_steps(
                there.0,
                there.1,
                motion,
                b,
            )
        }),
        motion::motion_steps(t, at, motion, 0) == (t, at),
    decreases b,
{
    if b > 0 {
        law_counts_repeat(t, at, motion, a, b - 1);
    }
}

proof fn lemma_class(t: TermModel, at: (int, int), big: bool)
    requires
        t.wf(),
        on_view(t, at),
    ensures
        motion::view_char(t, at) == seen(t, at),
        motion::class_at(t, at, big) == WordClass::Whitespace <==> blank(seen(t, at)),
        !blank(seen(t, at)) ==> (motion::class_at(t, at, big) == WordClass::Word <==> big
            || text::alphanumeric(seen(t, at)) || seen(t, at) == '_'),
        !blank(seen(t, at)) ==> (motion::class_at(t, at, big) == WordClass::Punct <==> !big
            && !text::alphanumeric(seen(t, at)) && seen(t, at) != '_'),
{
    law_view_is_history_and_screen(t, at.0);
}

/// All places from `from` up to, but not with, `to` are of a class.
spec fn of_class(
    t: TermModel,
    from: (int, int),
    to: (int, int),
    class: WordClass,
    big: bool,
) -> bool {
    forall|p: (int, int)|
        #![trigger on_view(t, p)]
        on_view(t, p) && !precedes(p, from) && precedes(p, to) ==> motion::class_at(t, p, big)
            == class
}

proof fn lemma_of_class(
    t: TermModel,
    from: (int, int),
    to: (int, int),
    at: (int, int),
    big: bool,
)
    requires
        t.wf(),
        on_view(t, at),
        of_class(t, from, to, motion::class_at(t, at, big), big),
    ensures
        blank(seen(t, at)) ==> all_blank(t, from, to),
        !blank(seen(t, at)) ==> one_word(t, from, to, seen(t, at), big),
{
    lemma_class(t, at, big);
    assert forall|p: (int, int)|
        #![trigger on_view(t, p)]
        on_view(t, p) && !precedes(p, from) && precedes(p, to) implies if blank(seen(t, at)) {
        blank(seen(t, p))
    } else {
        go_together(seen(t, p), seen(t, at), big)
    } by {
        lemma_class(t, p, big);
    }
}

proof fn lemma_blank_class(t: TermModel, from: (int, int), to: (int, int), big: bool)
    requires
        t.wf(),
        of_class(t, from, to, WordClass::Whitespace, big),
    ensures
        all_blank(t, from, to),
{
    assert forall|p: (int, int)|
        #![trigger on_view(t, p)]
        on_view(t, p) && !precedes(p, from) && precedes(p, to) implies blank(seen(t, p)) by {
        lemma_class(t, p, big);
    }
}

proof fn lemma_skip_forward(t: TermModel, at: (int, int), class: WordClass, big: bool)
    requires
        on_view(t, at),
    ensures
        ({
            let end = motion::skip_forward(t, at, class, big);
            &&& on_view(t, end.1)
            &&& !precedes(end.1, at)
            &&& of_class(t, at, end.1, class, big)
            &&& end.0 ==> motion::class_at(t, end.1, big) != class
            &&& !end.0 ==> motion::class_at(t, end.1, big) == class && end.1 == last_place(t)
        }),
    decreases t.screen().rows - at.0, t.screen().cols - at.1,
{
    if motion::class_at(t, at, big) == class {
        if let Some(next) = motion::next_cell(t, at) {
            lemma_skip_forward(t, next, class, big);
            let end = motion::skip_forward(t, at, class, big).1;
            assert forall|p: (int, int)|
                #![trigger on_view(t, p)]
                on_view(t, p) && !precedes(p, at) && precedes(p, end) implies motion::class_at(
                t,
                p,
                big,
            ) == class by {
                if p != at {
                    assert(!precedes(p, next));
                }
            }
        }
    }
}

proof fn lemma_run_last(t: TermModel, at: (int, int), class: WordClass, big: bool)
    requires
        on_view(t, at),
        motion::class_at(t, at, big) == class,
    ensures
        ({
            let end = motion::run_last(t, at, class, big);
            &&& on_view(t, end)
            &&& !precedes(end, at)
            &&& of_class(t, at, end, class, big)
            &&& motion::class_at(t, end, big) == class
            &&& end == last_place(t) || motion::class_at(t, after(t, end), big) != class
        }),
    decreases t.screen().rows - at.0, t.screen().cols - at.1,
{
    if let Some(next) = motion::next_cell(t, at) {
        assert(next == after(t, at));
        if motion::class_at(t, next, big) == class {
            lemma_run_last(t, next, class, big);
            let end = motion::run_last(t, at, class, big);
            assert forall|p: (int, int)|
                #![trigger on_view(t, p)]
                on_view(t, p) && !precedes(p, at) && precedes(p, end) implies motion::class_at(
                t,
                p,
                big,
            ) == class by {
                if p != at {
                    assert(!precedes(p, next));
                }
            }
        }
    }
}

proof fn lemma_skip_backward(t: TermModel, at: (int, int), class: WordClass, big: bool)
    requires
        on_view(t, at),
    ensures
        ({
            let end = motion::skip_backward(t, at, class, big);
            &&& on_view(t, end.1)
            &&& !precedes(at, end.1)
            &&& of_class(t, after(t, end.1), after(t, at), class, big)
            &&& end.0 ==> motion::class_at(t, end.1, big) != class
            &&& !end.0 ==> motion::class_at(t, end.1, big) == class && end.1 == (0int, 0int)
        }),
    decreases at.0, at.1,
{
    if motion::class_at(t, at, big) == class {
        if let Some(prev) = motion::prev_cell(t, at) {
            assert(after(t, prev) == at);
            lemma_skip_backward(t, prev, class, big);
            let end = motion::skip_backward(t, at, class, big).1;
            assert forall|p: (int, int)|
                #![trigger on_view(t, p)]
                on_view(t, p) && !precedes(p, after(t, end)) && precedes(p, after(t, at)) implies
                motion::class_at(t, p, big) == class by {
                if p != at {
                    assert(precedes(p, at));
                }
            }
        }
    }
}

proof fn lemma_run_first(t: TermModel, at: (int, int), class: WordClass, big: bool)
    requires
        on_view(t, at),
        motion::class_at(t, at, big) == class,
    ensures
        ({
            let end = motion::run_first(t, at, class, big);
            &&& on_view(t, end)
            &&& !precedes(at, end)
            &&& of_class(t, end, after(t, at), class, big)
            &&& motion::class_at(t, end, big) == class
            &&& forall|p: (int, int)|
                on_view(t, p) && #[trigger] after(t, p) == end ==> motion::class_at(t, p, big)
                    != class
        }),
    decreases at.0, at.1,
{
    if let Some(prev) = motion::prev_cell(t, at) {
        assert(after(t, prev) == at);
        if motion::class_at(t, prev, big) == class {
            lemma_run_first(t, prev, class, big);
            let end = motion::run_first(t, at, class, big);
            assert forall|p: (int, int)|
                #![trigger on_view(t, p)]
                on_view(t, p) && !precedes(p, end) && precedes(p, after(t, at)) implies
                motion::class_at(t, p, big) == class by {
                if p != at {
                    assert(precedes(p, at));
                }
            }
        } else {
            assert forall|p: (int, int)| on_view(t, p) && #[trigger] after(t, p) == at implies
                motion::class_at(t, p, big) != class by {
                assert(p == prev);
            }
        }
    }
}

/// `w` and `W` lead over the rest of the word, if there is one under the cursor,
/// and over the blanks that follow it, and no further: they end on the first
/// place after that, which begins another word, or on the last place of the view
/// if there is none. The view stays.
pub proof fn law_next_word(t: TermModel, at: (int, int), big: bool)
    requires
        t.wf(),
        on_view(t, at),
    ensures
        ({
            let (view, end) = led(t, at, Motion::WordNext { big });
            &&& view == t
            &&& on_view(t, end)
            &&& !precedes(end, at)
            &&& exists|gap: (int, int)|
                #![trigger precedes(gap, at)]
                {
                    &&& !precedes(gap, at) && !precedes(end, gap)
                    &&& blank(seen(t, at)) ==> gap == at
                    &&& one_word(t, at, gap, seen(t, at), big)
                    &&& all_blank(t, gap, end)
                    &&& {
                        ||| !blank(seen(t, end)) && (gap != end || !go_together(
                            seen(t, at),
                            seen(t, end),
                            big,
                        ))
                        ||| end == last_place(t) && (blank(seen(t, end)) || gap == end)
                    }
                }
        }),
{
    lemma_led(t, at, Motion::WordNext { big });
    let end = motion::word_next_of(t, at, big);
    let class = motion::class_at(t, at, big);
    lemma_class(t, at, big);
    if class == WordClass::Whitespace {
        lemma_skip_forward(t, at, WordClass::Whitespace, big);
        lemma_class(t, end, big);
        lemma_blank_class(t, at, end, big);
        assert(!precedes(at, at));
        assert(one_word(t, at, at, seen(t, at), big));
    } else {
        lemma_skip_forward(t, at, class, big);
        let past = motion::skip_forward(t, at, class, big);
        lemma_of_class(t, at, past.1, at, big);
        lemma_class(t, past.1, big);
        if past.0 {
            lemma_skip_forward(t, past.1, WordClass::Whitespace, big);
            lemma_blank_class(t, past.1, end, big);
            lemma_class(t, end, big);
            assert(!precedes(past.1, at));
        } else {
            assert(!precedes(end, at));
            assert(all_blank(t, end, end));
        }
    }
}

/// `e` and `E` lead over blanks to the end of a word: the word goes on from the
/// first place that is not blank up to the end, and no further. Where only
/// blanks follow, they lead to the last place of the view. The view stays.
pub proof fn law_word_end(t: TermModel, at: (int, int), big: bool)
    requires
        t.wf(),
        on_view(t, at),
        at != last_place(t),
    ensures
        ({
            let (view, end) = led(t, at, Motion::WordEnd { big });
            &&& view == t
            &&& on_view(t, end)
            &&& precedes(at, end)
            &&& {
                ||| end == last_place(t) && all_blank(t, after(t, at), end) && blank(seen(t, end))
                ||| exists|word: (int, int)|
                    #![trigger precedes(at, word)]
                    {
                        &&& on_view(t, word) && precedes(at, word) && !precedes(end, word)
                        &&& all_blank(t, after(t, at), word)
                        &&& !blank(seen(t, end))
                        &&& one_word(t, word, end, seen(t, end), big)
                        &&& end == last_place(t) || !go_together(
                            seen(t, end),
                            seen(t, after(t, end)),
                            big,
                        )
                    }
            }
        }),
{
    lemma_led(t, at, Motion::WordEnd { big });
    let end = motion::word_end_of(t, at, big);
    let next = motion::next_cell(t, at)->0;
    assert(motion::next_cell(t, at) == Some(after(t, at)));
    let class = motion::class_at(t, at, big);
    lemma_class(t, at, big);
    lemma_class(t, next, big);
    if class == WordClass::Whitespace || motion::class_at(t, next, big) != class {
        lemma_skip_forward(t, next, WordClass::Whitespace, big);
        let word = motion::skip_forward(t, next, WordClass::Whitespace, big);
        lemma_blank_class(t, next, word.1, big);
        lemma_class(t, word.1, big);
        if word.0 {
            let inner = motion::class_at(t, word.1, big);
            lemma_run_last(t, word.1, inner, big);
            lemma_class(t, end, big);
            lemma_of_class(t, word.1, end, end, big);
            if end != last_place(t) {
                lemma_class(t, after(t, end), big);
            }
            assert(precedes(at, word.1));
        }
    } else {
        lemma_run_last(t, at, class, big);
        lemma_run_starts(t, at, class, big);
        lemma_class(t, end, big);
        lemma_of_class(t, at, end, end, big);
        if end != last_place(t) {
            lemma_class(t, after(t, end), big);
        }
        assert(precedes(at, next));
        assert(all_blank(t, next, next));
        assert(one_word(t, next, end, seen(t, end), big));
    }
}

/// A run that goes on ends after its start.
proof fn lemma_run_starts(t: TermModel, at: (int, int), class: WordClass, big: bool)
    requires
        on_view(t, at),
        motion::next_cell(t, at) is Some,
        motion::class_at(t, motion::next_cell(t, at)->0, big) == class,
    ensures
        !precedes(motion::run_last(t, at, class, big), motion::next_cell(t, at)->0),
{
    lemma_run_last(t, motion::next_cell(t, at)->0, class, big);
}

/// `b` and `B` lead back over blanks to the start of a word: the word goes on
/// from there up to the last place that is not blank, and it does not begin
/// earlier. Where there are only blanks, they lead to the first place of the
/// view. The view stays.
pub proof fn law_previous_word(t: TermModel, at: (int, int), big: bool)
    requires
        t.wf(),
        on_view(t, at),
        at != (0int, 0int),
    ensures
        ({
            let (view, end) = led(t, at, Motion::WordPrev { big });
            &&& view == t
            &&& on_view(t, end)
            &&& precedes(end, at)
            &&& {
                ||| end == (0int, 0int) && all_blank(t, end, at)
                ||| exists|word: (int, int)|
                    #![trigger precedes(word, at)]
                    {
                        &&& on_view(t, word) && precedes(word, at) && !precedes(word, end)
                        &&& all_blank(t, after(t, word), at)
                        &&& !blank(seen(t, end))
                        &&& one_word(t, end, after(t, word), seen(t, end), big)
                        &&& forall|p: (int, int)|
                            on_view(t, p) && #[trigger] after(t, p) == end ==> !go_together(
                                seen(t, p),
                                seen(t, end),
                                big,
                            )
                    }
            }
        }),
{
    lemma_led(t, at, Motion::WordPrev { big });
    let end = motion::word_prev_of(t, at, big);
    let prev = motion::prev_cell(t, at)->0;
    assert(after(t, prev) == at);
    lemma_skip_backward(t, prev, WordClass::Whitespace, big);
    let word = motion::skip_backward(t, prev, WordClass::Whitespace, big);
    lemma_blank_class(t, after(t, word.1), at, big);
    lemma_class(t, word.1, big);
    if word.0 {
        let inner = motion::class_at(t, word.1, big);
        lemma_run_first(t, word.1, inner, big);
        lemma_class(t, end, big);
        lemma_of_class(t, end, after(t, word.1), end, big);
        assert forall|p: (int, int)| on_view(t, p) && #[trigger] after(t, p) == end implies
            !go_together(seen(t, p), seen(t, end), big) by {
            lemma_class(t, p, big);
        }
        assert(precedes(word.1, at));
    } else {
        assert forall|p: (int, int)|
            #![trigger on_view(t, p)]
            on_view(t, p) && !precedes(p, end) && precedes(p, at) implies blank(seen(t, p)) by {
            if p != end {
                assert(!precedes(p, after(t, end)));
            }
        }
    }
}

/// At the last place of the view `e` stays, at the first one `b` does.
pub proof fn law_word_motions_stop_at_the_edge(t: TermModel, big: bool)
    requires
        t.wf(),
        on_view(t, (0, 0)),
    ensures
        led(t, last_place(t), Motion::WordEnd { big }) == (t, last_place(t)),
        led(t, (0, 0), Motion::WordPrev { big }) == (t, (0int, 0int)),
{
    lemma_led(t, last_place(t), Motion::WordEnd { big });
    lemma_led(t, (0, 0), Motion::WordPrev { big });
}

/// `0` leads to the first column, `^` to the first one of the row that is not
/// blank and `$` to the last one; to the first column where all are blank.
pub proof fn law_motions_in_a_line(t: TermModel, at: (int, int), col: int)
    requires
        t.wf(),
        on_view(t, at),
        0 <= col < screen_laws::in_use(t).cols,
    ensures
        ({
            let (first, last) = (
                led(t, at, Motion::LineFirstNonBlank).1.1,
                led(t, at, Motion::LineEnd).1.1,
            );
            let ink = !blank(seen(t, (at.0, col)));
            &&& led(t, at, Motion::LineStart) == (t, (at.0, 0int))
            &&& led(t, at, Motion::LineFirstNonBlank) == (t, (at.0, first))
            &&& led(t, at, Motion::LineEnd) == (t, (at.0, last))
            &&& ink ==> first <= col <= last
            &&& first != 0 ==> !blank(seen(t, (at.0, first)))
            &&& last != 0 ==> !blank(seen(t, (at.0, last)))
            &&& ink ==> !blank(seen(t, (at.0, first))) && !blank(seen(t, (at.0, last)))
            &&& 0 <= first && 0 <= last
        }),
{
    lemma_led(t, at, Motion::LineStart);
    lemma_led(t, at, Motion::LineFirstNonBlank);
    lemma_led(t, at, Motion::LineEnd);
    law_view_is_history_and_screen(t, at.0);
    let cells = seen_row(t, at.0);
    let cols = screen_laws::in_use(t).cols;
    lemma_first_ink(cells, cols, 0, col);
    lemma_last_ink(cells, crate::grid::min_int(cols, cells.len() as int), col);
}

proof fn lemma_first_ink(cells: Seq<Cell>, limit: int, i: int, col: int)
    requires
        0 <= i,
        0 <= limit,
    ensures
        ({
            let first = motion::first_ink(cells, limit, i);
            &&& 0 <= first && (first == 0 || i <= first < limit)
            &&& first != 0 ==> first < cells.len() && !blank(cells[first].ch)
            &&& i <= col < cells.len() && col < limit && !blank(cells[col].ch) ==> {
                &&& first <= col
                &&& !blank(cells[first].ch)
            }
        }),
    decreases cells.len() - i,
{
    if i < limit && i < cells.len() && !selection::word_char(cells[i].ch) {
        lemma_first_ink(cells, limit, i + 1, col);
    }
}

proof fn lemma_last_ink(cells: Seq<Cell>, n: int, col: int)
    requires
        n <= cells.len(),
    ensures
        ({
            let last = motion::last_ink(cells, n);
            &&& 0 <= last && (last == 0 || last < n)
            &&& last != 0 ==> !blank(cells[last].ch)
            &&& 0 <= col < n && !blank(cells[col].ch) ==> col <= last && !blank(cells[last].ch)
        }),
    decreases n,
{
    if n > 0 && !selection::word_char(cells[n - 1].ch) {
        lemma_last_ink(cells, n - 1, col);
    }
}

/// The same terminal with the view scrolled back by a number of rows, as far as
/// there are any. On the alternate screen the view stays.
pub open spec fn scrolled_to(t: TermModel, offset: int) -> TermModel {
    if t.alt is Some {
        t
    } else {
        TermModel {
            viewport_offset: screen_laws::limited(offset, t.primary.scrollback.len() as int),
            ..t
        }
    }
}

/// Scrolling by a positive distance goes back into the history, by a negative
/// one towards the live screen, as far as there are rows.
pub proof fn law_view_scrolls(t: TermModel, delta: int)
    ensures
        t.scroll_view(delta) == scrolled_to(t, t.viewport_offset + delta),
{
}

/// The cursor moves by rows down and columns right, within the screen; what a
/// row is beyond the screen, the view scrolls: up into the history, down towards
/// the live screen.
pub proof fn law_motion_by_places(t: TermModel, at: (int, int), down: isize, right: isize)
    requires
        t.wf(),
        on_view(t, at),
    ensures
        ({
            let g = screen_laws::in_use(t);
            let (view, end) = led(t, at, Motion::Char(down, right));
            let row = at.0 + down;
            &&& end == (
                screen_laws::limited(row, g.rows - 1),
                screen_laws::limited(at.1 + right, g.cols - 1),
            )
            &&& 0 <= row < g.rows ==> view == t
            &&& row < 0 ==> view == scrolled_to(t, t.viewport_offset - row)
            &&& row >= g.rows ==> view == scrolled_to(t, t.viewport_offset - (row - (g.rows - 1)))
        }),
{
    lemma_led(t, at, Motion::Char(down, right));
}

/// `gg` leads to the oldest row of the history and `G` to the bottom of the live
/// screen; `H`, `M` and `L` to the top, the middle and the bottom of the view. All
/// keep the column.
pub proof fn law_motions_in_the_document(t: TermModel, at: (int, int))
    requires
        t.wf(),
        on_view(t, at),
    ensures
        ({
            let g = screen_laws::in_use(t);
            let oldest = t.primary.scrollback.len() as int;
            &&& led(t, at, Motion::DocStart) == (
                scrolled_to(t, t.viewport_offset + oldest),
                (0int, at.1),
            )
            &&& t.alt is None ==> led(t, at, Motion::DocStart).0.viewport_offset == oldest
            &&& led(t, at, Motion::DocEnd) == (
                TermModel { viewport_offset: 0, ..t },
                (g.rows - 1, at.1),
            )
            &&& led(t, at, Motion::ScreenTop) == (t, (0int, at.1))
            &&& led(t, at, Motion::ScreenMiddle) == (t, (g.rows / 2, at.1))
            &&& led(t, at, Motion::ScreenBottom) == (t, (g.rows - 1, at.1))
        }),
{
    lemma_led(t, at, Motion::DocStart);
    lemma_led(t, at, Motion::DocEnd);
    lemma_led(t, at, Motion::ScreenTop);
    lemma_led(t, at, Motion::ScreenMiddle);
    lemma_led(t, at, Motion::ScreenBottom);
}

/// Ctrl-u and Ctrl-d scroll by half a screen, Ctrl-b and Ctrl-f by a screen less
/// one row: the first of each pair back into the history, the second towards the
/// live screen. The cursor stays at its place of the view.
pub proof fn law_motions_by_pages(t: TermModel, at: (int, int))
    requires
        t.wf(),
        on_view(t, at),
    ensures
        ({
            let rows = screen_laws::in_use(t).rows;
            let offset = t.viewport_offset;
            &&& led(t, at, Motion::HalfPageUp) == (scrolled_to(t, offset + rows / 2), at)
            &&& led(t, at, Motion::HalfPageDown) == (scrolled_to(t, offset - rows / 2), at)
            &&& led(t, at, Motion::FullPageUp) == (scrolled_to(t, offset + (rows - 1)), at)
            &&& led(t, at, Motion::FullPageDown) == (scrolled_to(t, offset - (rows - 1)), at)
        }),
{
    lemma_led(t, at, Motion::HalfPageUp);
    lemma_led(t, at, Motion::HalfPageDown);
    lemma_led(t, at, Motion::FullPageUp);
    lemma_led(t, at, Motion::FullPageDown);
}

} // verus!
