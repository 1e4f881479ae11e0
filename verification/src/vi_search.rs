//! Searching from vi mode: the query that is typed, the jump to its hits, and
//! the way back.

use vstd::prelude::*;

use crate::search;
use crate::search::{Search, SearchDirection, SearchModel};
use crate::term::{Term, TermModel};
use crate::vi::{ViMode, ViModel};
use crate::yank;

verus! {

/// Vi mode with a search begun at the cursor.
pub open spec fn started(v: ViModel, t: TermModel, direction: SearchDirection) -> ViModel {
    ViModel {
        search: Some(
            SearchModel {
                direction,
                query: Seq::empty(),
                typing: true,
                matches: Seq::empty(),
                current: None,
                origin_cursor: v.cursor,
                origin_viewport_offset: t.viewport_offset as usize,
            },
        ),
        ..v
    }
}

/// The search with its hits found anew.
pub open spec fn searched(s: SearchModel, t: TermModel) -> SearchModel {
    let matches = search::matches_in(t.all_rows(), t.all_rows().len() as int, s.query);
    let from = yank::absolute_of(
        t,
        s.origin_cursor.0 as int,
        s.origin_viewport_offset as int,
    );
    SearchModel {
        matches,
        current: search::picked_match(matches, from as usize, s.origin_cursor.1, s.direction),
        ..s
    }
}

/// Cursor and view at a hit.
pub open spec fn at_hit(v: ViModel, t: TermModel, i: int) -> (ViModel, TermModel) {
    let m = v.search->0.matches[i];
    let view = yank::jumped(t, m.row as int, t.screen().rows);
    (
        ViModel {
            cursor: (
                (if m.row >= view.viewport_top() {
                    m.row - view.viewport_top()
                } else {
                    0
                }) as usize,
                m.col_start,
            ),
            ..v
        },
        view,
    )
}

/// Cursor and view back where the search began.
pub open spec fn at_origin(v: ViModel, t: TermModel) -> (ViModel, TermModel) {
    let s = v.search->0;
    (
        ViModel { cursor: s.origin_cursor, ..v },
        t.scroll_view(s.origin_viewport_offset - t.viewport_offset),
    )
}

/// The search brought up to date after a change of its query: cursor and view
/// go to the hit, or back to the origin where the query is empty.
pub open spec fn refreshed(v: ViModel, t: TermModel) -> (ViModel, TermModel) {
    match v.search {
        None => (v, t),
        Some(s) => {
            let found = ViModel { search: Some(searched(s, t)), ..v };
            match searched(s, t).current {
                Some(i) => at_hit(found, t, i as int),
                None => if s.query.len() == 0 {
                    at_origin(found, t)
                } else {
                    (found, t)
                },
            }
        },
    }
}

/// The search given up.
pub open spec fn cancelled(v: ViModel, t: TermModel) -> (ViModel, TermModel) {
    match v.search {
        None => (v, t),
        Some(_) => {
            let back = at_origin(v, t);
            (ViModel { search: None, ..back.0 }, back.1)
        },
    }
}

/// The hit after the current one, around the end; before it in reverse.
pub open spec fn neighbour(s: SearchModel, reverse: bool) -> int {
    let current = match s.current {
        Some(i) => i as int,
        None => 0,
    };
    let n = s.matches.len() as int;
    if (s.direction == SearchDirection::Forward) != reverse {
        if current + 1 == n {
            0
        } else {
            current + 1
        }
    } else {
        if current == 0 {
            n - 1
        } else {
            current - 1
        }
    }
}

/// Cursor and view at the next hit, or the one before in reverse.
pub open spec fn navigated(v: ViModel, t: TermModel, reverse: bool) -> (ViModel, TermModel) {
    match v.search {
        None => (v, t),
        Some(s) => if s.matches.len() == 0 {
            (v, t)
        } else {
            let i = neighbour(s, reverse);
            at_hit(
                ViModel { search: Some(SearchModel { current: Some(i as usize), ..s }), ..v },
                t,
                i,
            )
        },
    }
}

/// Begins a search at the cursor.
pub fn start_search(vi: &mut ViMode, term: &Term, direction: SearchDirection)
    requires
        old(vi)@.wf(),
        term.wf(),
    ensures
        final(vi)@.wf(),
        final(vi)@ == started(old(vi)@, term@, direction),
{
    let matches: Vec<search::Match> = Vec::new();
    vi.search = Some(
        Search {
            direction,
            query: String::new(),
            typing: true,
            matches,
            current: None,
            origin_cursor: vi.cursor,
            origin_viewport_offset: term.viewport_offset(),
        },
    );
    assert(vi@ =~= started(old(vi)@, term@, direction));
}

proof fn lemma_match_rows(rows: Seq<Seq<crate::grid::Cell>>, n: int, query: Seq<char>)
    requires
        0 <= n <= rows.len() <= isize::MAX,
    ensures
        forall|i: int|
            0 <= i < search::matches_in(rows, n, query).len() ==> (#[trigger] search::matches_in(
                rows,
                n,
                query,
            )[i]).row < n,
    decreases n,
{
    if n > 0 {
        lemma_match_rows(rows, n - 1, query);
        let before = search::matches_in(rows, n - 1, query);
        let row = search::row_matches(
            n - 1,
            crate::selection::chars_in(rows[n - 1]),
            query,
        );
        assert forall|i: int| 0 <= i < search::matches_in(rows, n, query).len() implies (
        #[trigger] search::matches_in(rows, n, query)[i]).row < n by {
            if i >= before.len() {
                assert(search::matches_in(rows, n, query)[i] == row[i - before.len()]);
            } else {
                assert(search::matches_in(rows, n, query)[i] == before[i]);
            }
        }
    }
}

/// Finds the hits anew and goes to the one nearest to where the search began.
pub fn refresh_search(vi: &mut ViMode, term: &mut Term)
    requires
        old(vi)@.wf(),
        old(term).wf(),
    ensures
        final(vi)@.wf(),
        final(term).wf(),
        final(term).history() == old(term).history(),
        (final(vi)@, final(term)@) == refreshed(old(vi)@, old(term)@),
{
    let ghost v = vi@;
    let ghost t = term@;
    let mut search = match vi.search.take() {
        Some(s) => s,
        None => {
            return ;
        },
    };
    let from: usize = yank::viewport_to_absolute(
        term,
        search.origin_cursor.0,
        search.origin_viewport_offset,
    );
    let matches = search::find_matches(term, search.query.as_str());
    proof {
        lemma_match_rows(t.all_rows(), t.all_rows().len() as int, search.query@);
    }
    let current = search::pick_current_match(
        matches.as_slice(),
        from,
        search.origin_cursor.1,
        search.direction,
    );
    search.matches = matches;
    search.current = current;
    assert(search@ =~= searched(v.search->0, t));
    match current {
        Some(i) => {
            let m = search.matches[i];
            let rows: usize = term.grid().rows;
            let vrow: usize = yank::jump_viewport_to(term, m.row, rows);
            vi.cursor = (vrow, m.col_start);
        },
        None => {
            if search.query.as_str().is_empty() {
                let offset: usize = term.viewport_offset();
                term.scroll_view(search.origin_viewport_offset as isize - offset as isize);
                vi.cursor = search.origin_cursor;
            }
        },
    }
    vi.search = Some(search);
    assert(vi@ =~= refreshed(v, t).0);
}

/// Gives the search up and goes back to where it began.
pub fn cancel_search(vi: &mut ViMode, term: &mut Term)
    requires
        old(vi)@.wf(),
        old(term).wf(),
    ensures
        final(vi)@.wf(),
        final(term).wf(),
        final(term).history() == old(term).history(),
        (final(vi)@, final(term)@) == cancelled(old(vi)@, old(term)@),
{
    if let Some(s) = vi.search.take() {
        let offset: usize = term.viewport_offset();
        term.scroll_view(s.origin_viewport_offset as isize - offset as isize);
        vi.cursor = s.origin_cursor;
    }
    assert(vi@ =~= cancelled(old(vi)@, old(term)@).0);
}

/// Goes to the next hit in the direction of the search, or in reverse.
pub fn search_navigate(vi: &mut ViMode, term: &mut Term, reverse: bool)
    requires
        old(vi)@.wf(),
        old(term).wf(),
    ensures
        final(vi)@.wf(),
        final(term).wf(),
        final(term).history() == old(term).history(),
        (final(vi)@, final(term)@) == navigated(old(vi)@, old(term)@, reverse),
{
    let ghost v = vi@;
    let ghost t = term@;
    let mut search = match vi.search.take() {
        Some(s) => s,
        None => {
            return ;
        },
    };
    let n: usize = search.matches.len();
    if n == 0 {
        vi.search = Some(search);
        assert(vi@ =~= v);
        return ;
    }
    let current: usize = match search.current {
        Some(i) => i,
        None => 0,
    };
    let forward: bool = (search.direction == SearchDirection::Forward) != reverse;
    let next: usize = if forward {
        if current == n - 1 {
            0
        } else {
            current + 1
        }
    } else {
        if current == 0 {
            n - 1
        } else {
            current - 1
        }
    };
    search.current = Some(next);
    let m = search.matches[next];
    let rows: usize = term.grid().rows;
    let vrow: usize = yank::jump_viewport_to(term, m.row, rows);
    vi.cursor = (vrow, m.col_start);
    vi.search = Some(search);
    assert(vi@ =~= navigated(v, t, reverse).0);
}

/// Giving a search up undoes it: cursor and view are where they were when it
/// began, whatever was found in between.
pub proof fn law_cancel_undoes_search(
    v: ViModel,
    t: TermModel,
    direction: SearchDirection,
    later: ViModel,
    view: TermModel,
)
    requires
        t.wf(),
        !t.on_alt(),
        t.viewport_offset <= t.primary.scrollback.len(),
        later.search is Some,
        later.search->0.origin_cursor == started(v, t, direction).search->0.origin_cursor,
        later.search->0.origin_viewport_offset == started(
            v,
            t,
            direction,
        ).search->0.origin_viewport_offset,
        view == (TermModel { viewport_offset: view.viewport_offset, ..t }),
    ensures
        cancelled(later, view).0.cursor == v.cursor,
        cancelled(later, view).0.search is None,
        cancelled(later, view).1 == t,
{
}

/// Typing and refining a query keeps the way back.
pub proof fn law_refresh_keeps_the_way_back(v: ViModel, t: TermModel)
    requires
        v.search is Some,
    ensures
        refreshed(v, t).0.search is Some,
        refreshed(v, t).0.search->0.origin_cursor == v.search->0.origin_cursor,
        refreshed(v, t).0.search->0.origin_viewport_offset
            == v.search->0.origin_viewport_offset,
        refreshed(v, t).1 == (TermModel {
            viewport_offset: refreshed(v, t).1.viewport_offset,
            ..t
        }),
{
}

/// Going to the next hit and then back is at the same hit again.
pub proof fn law_next_and_previous_cancel(s: SearchModel, reverse: bool)
    requires
        s.wf(),
        s.matches.len() > 0,
        s.matches.len() <= usize::MAX,
        s.current is Some,
    ensures
        ({
            let there = SearchModel { current: Some(neighbour(s, reverse) as usize), ..s };
            neighbour(there, !reverse) == s.current->0
        }),
{
}

/// Vi mode and the view after several queries, one in place of the other.
pub open spec fn searched_for(v: ViModel, t: TermModel, queries: Seq<Seq<char>>) -> (
    ViModel,
    TermModel,
)
    decreases queries.len(),
{
    if queries.len() == 0 {
        (v, t)
    } else {
        let before = searched_for(v, t, queries.drop_last());
        refreshed(
            ViModel {
                search: Some(
                    SearchModel { query: queries.last(), ..before.0.search->0 },
                ),
                ..before.0
            },
            before.1,
        )
    }
}

proof fn lemma_queries_keep_the_way_back(v: ViModel, t: TermModel, queries: Seq<Seq<char>>)
    requires
        v.search is Some,
    ensures
        ({
            let after = searched_for(v, t, queries);
            &&& after.0.search is Some
            &&& after.0.search->0.origin_cursor == v.search->0.origin_cursor
            &&& after.0.search->0.origin_viewport_offset == v.search->0.origin_viewport_offset
            &&& after.1 == (TermModel { viewport_offset: after.1.viewport_offset, ..t })
        }),
    decreases queries.len(),
{
    if queries.len() > 0 {
        lemma_queries_keep_the_way_back(v, t, queries.drop_last());
        let before = searched_for(v, t, queries.drop_last());
        law_refresh_keeps_the_way_back(
            ViModel {
                search: Some(
                    SearchModel { query: queries.last(), ..before.0.search->0 },
                ),
                ..before.0
            },
            before.1,
        );
    }
}

/// Typing a query, however it is changed, and giving up is back where it
/// began: cursor, view and everything else of the terminal.
pub proof fn law_searching_is_reversible(
    v: ViModel,
    t: TermModel,
    direction: SearchDirection,
    queries: Seq<Seq<char>>,
)
    requires
        t.wf(),
        !t.on_alt(),
        t.viewport_offset <= t.primary.scrollback.len(),
    ensures
        ({
            let typed = searched_for(started(v, t, direction), t, queries);
            let back = cancelled(typed.0, typed.1);
            &&& back.0.cursor == v.cursor
            &&& back.0.search is None
            &&& back.1 == t
        }),
{
    let begun = started(v, t, direction);
    lemma_queries_keep_the_way_back(begun, t, queries);
    let typed = searched_for(begun, t, queries);
    law_cancel_undoes_search(v, t, direction, typed.0, typed.1);
}

} // verus!
