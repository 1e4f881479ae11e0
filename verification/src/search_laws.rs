//! What a search finds and where it leads.

use vstd::prelude::*;

use crate::grid::Cell;
use crate::screen_laws;
use crate::search;
use crate::search::{Match, SearchDirection, SearchModel};
use crate::selection;
use crate::term::TermModel;
use crate::vi::ViModel;
use crate::vi_search;
use crate::yank;

verus! {

/// The rows of the history and of the screen, oldest first.
pub open spec fn rows_of(t: TermModel) -> Seq<Seq<Cell>> {
    screen_laws::in_use(t).scrollback + screen_laws::in_use(t).lines
}

/// The place in [`rows_of`] of a row of the view, were it scrolled back by
/// `offset` rows.
pub open spec fn place_of_row(t: TermModel, offset: int, row: int) -> int {
    let history = screen_laws::in_use(t).scrollback.len() as int;
    history - screen_laws::limited(offset, history) + row
}

/// A text stands in the cells of a row from a column on, one character in each.
pub open spec fn stands_at(cells: Seq<Cell>, text: Seq<char>, col: int) -> bool {
    &&& 0 <= col && col + text.len() <= cells.len()
    &&& forall|k: int| 0 <= k < text.len() ==> (#[trigger] cells[col + k]).ch == text[k]
}

proof fn lemma_stands_at(cells: Seq<Cell>, text: Seq<char>, col: int)
    ensures
        search::occurs_at(selection::chars_in(cells), text, col) <==> stands_at(cells, text, col),
{
    let line = selection::chars_in(cells);
    if 0 <= col && col + text.len() <= cells.len() {
        let part = line.subrange(col, col + text.len());
        if stands_at(cells, text, col) {
            assert forall|k: int| 0 <= k < text.len() implies part[k] == text[k] by {
                assert(cells[col + k].ch == text[k]);
            }
            assert(part =~= text);
        }
        if part == text {
            assert forall|k: int| 0 <= k < text.len() implies (#[trigger] cells[col + k]).ch
                == text[k] by {
                assert(part[k] == text[k]);
            }
        }
    }
}

/// A search with a query, brought up to date.
pub open spec fn updated(v: ViModel, t: TermModel) -> SearchModel {
    vi_search::refreshed(v, t).0.search->0
}

/// Where a search begins, as a place in the rows of history and screen.
pub open spec fn start_of(s: SearchModel, t: TermModel) -> (int, int) {
    (
        place_of_row(t, s.origin_viewport_offset as int, s.origin_cursor.0 as int),
        s.origin_cursor.1 as int,
    )
}

/// Every hit is the query itself, character by character, in the row and the
/// columns that it names.
pub proof fn law_hits_are_the_query(v: ViModel, t: TermModel, i: int)
    requires
        t.wf(),
        v.search is Some,
        v.search->0.query.len() > 0,
        search::addressable(rows_of(t)),
        0 <= i < updated(v, t).matches.len(),
    ensures
        ({
            let m = updated(v, t).matches[i];
            let query = v.search->0.query;
            &&& m.row < rows_of(t).len()
            &&& m.col_end == m.col_start + query.len() - 1
            &&& stands_at(rows_of(t)[m.row as int], query, m.col_start as int)
        }),
{
    let rows = rows_of(t);
    let query = v.search->0.query;
    search::law_every_hit_spells_the_query(rows, rows.len() as int, query, i);
    let m = updated(v, t).matches[i];
    lemma_stands_at(rows[m.row as int], query, m.col_start as int);
}

/// Wherever the query stands in the history or on the screen, a hit covers that
/// place. Hits do not overlap and come in reading order.
pub proof fn law_hits_are_all_there_are(
    v: ViModel,
    t: TermModel,
    row: int,
    col: int,
    i: int,
    j: int,
)
    requires
        t.wf(),
        v.search is Some,
        v.search->0.query.len() > 0,
        search::addressable(rows_of(t)),
    ensures
        ({
            let hits = updated(v, t).matches;
            let query = v.search->0.query;
            &&& 0 <= row < rows_of(t).len() && stands_at(rows_of(t)[row], query, col)
                ==> exists|k: int|
                0 <= k < hits.len() && (#[trigger] hits[k]).row == row && hits[k].col_start <= col
                    <= hits[k].col_end
            &&& 0 <= i < j < hits.len() ==> hits[i].row < hits[j].row || (hits[i].row == hits[j].row
                && hits[i].col_end < hits[j].col_start)
        }),
{
    let rows = rows_of(t);
    let query = v.search->0.query;
    if 0 <= row < rows.len() && stands_at(rows[row], query, col) {
        lemma_stands_at(rows[row], query, col);
        search::law_no_occurrence_is_missed(rows, rows.len() as int, query, row, col);
    }
    if 0 <= i < j < updated(v, t).matches.len() {
        search::law_hits_are_in_order(rows, rows.len() as int, query, i, j);
    }
}

/// The current hit of a search forward is the first one that does not begin
/// before the place where the search began, and the first of all where there is
/// none. Backward it is the last one that does not begin after that place, and the
/// last of all where there is none. Without hits there is no current one.
pub proof fn law_nearest_hit_is_current(v: ViModel, t: TermModel, i: int)
    requires
        t.wf(),
        v.wf(),
        v.search is Some,
        0 <= i < updated(v, t).matches.len(),
        updated(v, t).matches.len() <= usize::MAX,
    ensures
        ({
            let s = updated(v, t);
            let at = start_of(v.search->0, t);
            let current = s.current->0 as int;
            let before = |k: int|
                s.matches[k].row < at.0 || (s.matches[k].row == at.0 && s.matches[k].col_start
                    < at.1);
            let beyond = |k: int|
                s.matches[k].row > at.0 || (s.matches[k].row == at.0 && s.matches[k].col_start
                    > at.1);
            &&& s.current is Some && 0 <= current < s.matches.len()
            &&& s.direction == SearchDirection::Forward ==> {
                ||| !before(current) && (i < current ==> before(i))
                ||| current == 0 && before(i)
            }
            &&& s.direction == SearchDirection::Backward ==> {
                ||| !beyond(current) && (i > current ==> beyond(i))
                ||| current == s.matches.len() - 1 && beyond(i)
            }
        }),
{
    let s = updated(v, t);
    let at = start_of(v.search->0, t);
    lemma_first_from(s.matches, at.0 as usize, at.1 as usize, 0, i);
    lemma_last_up_to(s.matches, at.0 as usize, at.1 as usize, s.matches.len() as int, i);
}

proof fn lemma_first_from(hits: Seq<Match>, row: usize, col: usize, from: int, i: int)
    requires
        0 <= from,
    ensures
        ({
            let first = search::first_from(hits, row, col, from);
            &&& from <= first || first == hits.len()
            &&& first < hits.len() ==> hits[first].row > row || (hits[first].row == row
                && hits[first].col_start >= col)
            &&& from <= i < first && i < hits.len() ==> hits[i].row < row || (hits[i].row == row
                && hits[i].col_start < col)
        }),
    decreases hits.len() - from,
{
    if from < hits.len() && !search::from_on(hits[from], row, col) {
        lemma_first_from(hits, row, col, from + 1, i);
    }
}

proof fn lemma_last_up_to(hits: Seq<Match>, row: usize, col: usize, n: int, i: int)
    requires
        n <= hits.len(),
    ensures
        ({
            let last = search::last_up_to(hits, row, col, n);
            &&& last < n || last == -1
            &&& last >= 0 ==> hits[last].row < row || (hits[last].row == row
                && hits[last].col_start <= col)
            &&& last < i < n && 0 <= i ==> hits[i].row > row || (hits[i].row == row
                && hits[i].col_start > col)
        }),
    decreases n,
{
    if n > 0 && !search::up_to(hits[n - 1], row, col) {
        lemma_last_up_to(hits, row, col, n - 1, i);
    }
}

/// Cursor and view are at a hit: the row under the cursor is that of the hit, the
/// column its first one, and of the terminal only the view changed.
pub open spec fn is_at_hit(t: TermModel, v: ViModel, view: TermModel, hit: Match) -> bool {
    &&& view == (TermModel { viewport_offset: view.viewport_offset, ..t })
    &&& v.cursor.0 < screen_laws::in_use(t).rows
    &&& place_of_row(view, view.viewport_offset, v.cursor.0 as int) == hit.row
    &&& v.cursor.1 == hit.col_start
}

/// After a change of the query the cursor goes to the current hit. Without hits
/// it stays, and so does the view; with an empty query both go back to where the
/// search began.
pub proof fn law_typing_leads_to_the_hit(v: ViModel, t: TermModel)
    requires
        t.wf(),
        v.wf(),
        v.search is Some,
        screen_laws::in_use(t).rows > 0,
        search::addressable(rows_of(t)),
        rows_of(t).len() <= isize::MAX,
    ensures
        ({
            let (after, view) = vi_search::refreshed(v, t);
            let s = after.search->0;
            let from = v.search->0;
            &&& after == (ViModel { cursor: after.cursor, search: Some(s), ..v })
            &&& s == (SearchModel { matches: s.matches, current: s.current, ..from })
            &&& s.current is None <==> s.matches.len() == 0
            &&& from.query.len() > 0 && s.current is Some ==> is_at_hit(
                t,
                after,
                view,
                s.matches[s.current->0 as int],
            )
            &&& from.query.len() > 0 && s.current is None ==> after.cursor == v.cursor && view == t
            &&& from.query.len() == 0 ==> {
                &&& s.matches.len() == 0
                &&& after.cursor == from.origin_cursor
                &&& t.alt is None && from.origin_viewport_offset <= t.primary.scrollback.len()
                    ==> view.viewport_offset == from.origin_viewport_offset
            }
        }),
{
    let from = v.search->0;
    let rows = rows_of(t);
    let hits = vi_search::searched(from, t).matches;
    if from.query.len() == 0 {
        lemma_no_query(rows, rows.len() as int, from.query);
    } else if hits.len() > 0 {
        let at = start_of(from, t);
        lemma_first_from(hits, at.0 as usize, at.1 as usize, 0, 0);
        lemma_last_up_to(hits, at.0 as usize, at.1 as usize, hits.len() as int, 0);
        let i = vi_search::searched(from, t).current->0 as int;
        search::law_every_hit_spells_the_query(rows, rows.len() as int, from.query, i);
        lemma_jump(t, hits[i].row as int);
    }
}

proof fn lemma_no_query(rows: Seq<Seq<Cell>>, n: int, query: Seq<char>)
    requires
        query.len() == 0,
    ensures
        search::matches_in(rows, n, query).len() == 0,
    decreases n,
{
    if n > 0 {
        lemma_no_query(rows, n - 1, query);
    }
}

proof fn lemma_jump(t: TermModel, row: int)
    requires
        t.wf(),
        screen_laws::in_use(t).rows > 0,
        0 <= row < rows_of(t).len(),
    ensures
        ({
            let view = yank::jumped(t, row, screen_laws::in_use(t).rows);
            let top = place_of_row(view, view.viewport_offset, 0);
            &&& view == (TermModel { viewport_offset: view.viewport_offset, ..t })
            &&& top == view.viewport_top()
            &&& top <= row < top + screen_laws::in_use(t).rows
        }),
{
    yank::law_jump_brings_row_into_view(t, row);
}

/// A row that is in view stays where it is. One that is out of sight comes to the
/// middle of the view, as far as history and screen go.
pub proof fn law_a_hit_out_of_sight_comes_to_the_middle(t: TermModel, row: int)
    requires
        t.wf(),
        t.alt is None,
        0 < t.primary.rows,
        0 <= row < rows_of(t).len(),
    ensures
        ({
            let top = place_of_row(t, t.viewport_offset, 0);
            let view = yank::jumped(t, row, t.primary.rows);
            let seen = top <= row < top + t.primary.rows;
            &&& seen ==> view == t
            &&& !seen ==> place_of_row(view, view.viewport_offset, 0) == screen_laws::limited(
                row - t.primary.rows / 2,
                t.primary.scrollback.len() as int,
            )
        }),
{
}

/// Stepping goes to the next hit in the direction of the search: forward to the
/// one after the current hit and from the last to the first, backward to the one
/// before it and from the first to the last. In reverse it is the other way
/// round. The cursor goes to the hit, and nothing else changes but the view.
pub proof fn law_stepping_between_hits(v: ViModel, t: TermModel, reverse: bool)
    requires
        t.wf(),
        v.search is Some,
        v.search->0.current is Some,
        v.search->0.current->0 < v.search->0.matches.len(),
        v.search->0.matches.len() <= usize::MAX,
        screen_laws::in_use(t).rows > 0,
        forall|k: int|
            0 <= k < v.search->0.matches.len() ==> (#[trigger] v.search->0.matches[k]).row
                < rows_of(t).len(),
    ensures
        ({
            let s = v.search->0;
            let (i, n) = (s.current->0 as int, s.matches.len() as int);
            let (after, view) = vi_search::navigated(v, t, reverse);
            let next = after.search->0.current->0 as int;
            let onward = if reverse {
                s.direction == SearchDirection::Backward
            } else {
                s.direction == SearchDirection::Forward
            };
            &&& after == (ViModel {
                cursor: after.cursor,
                search: Some(SearchModel { current: Some(next as usize), ..s }),
                ..v
            })
            &&& onward && i + 1 < n ==> next == i + 1
            &&& onward && i + 1 == n ==> next == 0
            &&& !onward && i > 0 ==> next == i - 1
            &&& !onward && i == 0 ==> next == n - 1
            &&& is_at_hit(t, after, view, s.matches[next])
        }),
{
    let s = v.search->0;
    let next = vi_search::neighbour(s, reverse);
    assert(0 <= next < s.matches.len());
    lemma_jump(t, s.matches[next].row as int);
}

/// Without a search, or without hits, stepping does nothing.
pub proof fn law_no_hits_no_steps(v: ViModel, t: TermModel, reverse: bool)
    requires
        v.search is None || v.search->0.matches.len() == 0,
    ensures
        vi_search::navigated(v, t, reverse) == (v, t),
{
}

/// A search begins with an empty query that is being typed, and remembers the
/// direction, the cursor and the view.
pub proof fn law_search_begins(v: ViModel, t: TermModel, direction: SearchDirection)
    requires
        t.wf(),
    ensures
        ({
            let after = vi_search::started(v, t, direction);
            let s = after.search->0;
            &&& after == (ViModel { search: Some(s), ..v })
            &&& s.direction == direction
            &&& s.query.len() == 0 && s.matches.len() == 0 && s.current is None
            &&& s.typing
            &&& s.origin_cursor == v.cursor
            &&& s.origin_viewport_offset == t.viewport_offset
        }),
{
}

} // verus!
