//! Text search over history and screen.

use vstd::prelude::*;

use crate::grid::Cell;
use crate::grid::Grid;
use crate::selection;
use crate::term::Term;
use crate::text;

verus! {

#[derive(Copy, Clone, Debug, PartialEq, Eq, Structural)]
pub enum SearchDirection {
    /// Begun with `/`.
    Forward,
    /// Begun with `?`.
    Backward,
}

/// One hit. Rows count history and screen together; both columns belong to
/// the hit.
#[derive(Copy, Clone, Debug, PartialEq, Eq, Structural)]
pub struct Match {
    pub row: usize,
    pub col_start: usize,
    pub col_end: usize,
}

/// A search that is being typed or that was committed.
pub struct Search {
    pub direction: SearchDirection,
    pub query: String,
    /// The query is being edited; motions are inert.
    pub typing: bool,
    pub matches: Vec<Match>,
    pub current: Option<usize>,
    /// Where the vi cursor was when the search began, to go back to on
    /// cancel.
    pub origin_cursor: (usize, usize),
    pub origin_viewport_offset: usize,
}

/// A search as a mathematical value.
#[verifier::ext_equal]
pub struct SearchModel {
    pub direction: SearchDirection,
    pub query: Seq<char>,
    pub typing: bool,
    pub matches: Seq<Match>,
    pub current: Option<usize>,
    pub origin_cursor: (usize, usize),
    pub origin_viewport_offset: usize,
}

impl View for Search {
    type V = SearchModel;

    open spec fn view(&self) -> SearchModel {
        SearchModel {
            direction: self.direction,
            query: self.query@,
            typing: self.typing,
            matches: self.matches@,
            current: self.current,
            origin_cursor: self.origin_cursor,
            origin_viewport_offset: self.origin_viewport_offset,
        }
    }
}

impl SearchModel {
    /// The current hit is one of the hits, and places can be counted.
    pub open spec fn wf(self) -> bool {
        &&& self.current matches Some(i) ==> i < self.matches.len()
        &&& self.origin_cursor.0 <= isize::MAX
        &&& self.origin_viewport_offset <= isize::MAX
        &&& forall|i: int|
            0 <= i < self.matches.len() ==> (#[trigger] self.matches[i]).row <= isize::MAX
    }
}

/// The query stands at a place in a line.
pub open spec fn occurs_at(line: Seq<char>, query: Seq<char>, at: int) -> bool {
    0 <= at && at + query.len() <= line.len() && line.subrange(at, at + query.len()) == query
}

/// The first place from `from` on at which the query stands, or the length of
/// the line where there is none.
pub open spec fn next_occurrence(line: Seq<char>, query: Seq<char>, from: int) -> int
    decreases line.len() - from,
{
    if from >= line.len() {
        line.len() as int
    } else if occurs_at(line, query, from) {
        from
    } else {
        next_occurrence(line, query, from + 1)
    }
}

/// The places of the hits in a line from `from` on: the leftmost first, each
/// next one after the end of the one before.
pub open spec fn hits(line: Seq<char>, query: Seq<char>, from: int) -> Seq<int>
    decreases
            (if from < line.len() {
                line.len() - from
            } else {
                0
            }),
{
    if query.len() == 0 || from < 0 || from >= line.len() {
        Seq::empty()
    } else {
        let at = next_occurrence(line, query, from);
        if from <= at < line.len() {
            seq![at] + hits(line, query, at + query.len())
        } else {
            Seq::empty()
        }
    }
}

/// The hits in one row.
pub open spec fn row_matches(row: int, line: Seq<char>, query: Seq<char>) -> Seq<Match> {
    let places = hits(line, query, 0);
    Seq::new(
        places.len(),
        |k: int|
            Match {
                row: row as usize,
                col_start: places[k] as usize,
                col_end: (places[k] + query.len() - 1) as usize,
            },
    )
}

/// The hits in the first `n` rows, top to bottom and left to right.
pub open spec fn matches_in(rows: Seq<Seq<Cell>>, n: int, query: Seq<char>) -> Seq<Match>
    decreases n,
{
    if n <= 0 {
        Seq::empty()
    } else {
        matches_in(rows, n - 1, query) + row_matches(
            n - 1,
            selection::chars_in(rows[n - 1]),
            query,
        )
    }
}

/// Whether the query stands at a place in a line.
fn stands_at(line: &[Cell], query: &[char], at: usize) -> (stands: bool)
    requires
        at < line@.len(),
    ensures
        stands == occurs_at(selection::chars_in(line@), query@, at as int),
{
    let ghost chars = selection::chars_in(line@);
    let n: usize = line.len();
    if query.len() > n - at {
        return false;
    }
    let mut i: usize = 0;
    while i < query.len()
        invariant
            i <= query@.len(),
            n == line@.len(),
            at + query@.len() <= n,
            chars == selection::chars_in(line@),
            forall|k: int| 0 <= k < i ==> chars[at + k] == query@[k],
        decreases query@.len() - i,
    {
        if line[at + i].ch != query[i] {
            proof {
                let part = chars.subrange(at as int, at + query@.len());
                assert(part[i as int] == chars[at + i]);
                assert(part != query@);
            }
            return false;
        }
        i += 1;
    }
    assert(chars.subrange(at as int, at + query@.len()) =~= query@);
    true
}

proof fn lemma_next_occurrence_bounds(line: Seq<char>, query: Seq<char>, from: int)
    requires
        0 <= from,
    ensures
        next_occurrence(line, query, from) <= line.len(),
        from < line.len() ==> from <= next_occurrence(line, query, from),
        next_occurrence(line, query, from) < line.len() ==> occurs_at(
            line,
            query,
            next_occurrence(line, query, from),
        ),
        forall|i: int|
            from <= i < next_occurrence(line, query, from) ==> !#[trigger] occurs_at(
                line,
                query,
                i,
            ),
    decreases line.len() - from,
{
    if from < line.len() && !occurs_at(line, query, from) {
        lemma_next_occurrence_bounds(line, query, from + 1);
    }
}

/// Appends the hits in one row.
fn push_row_matches(out: &mut Vec<Match>, row: usize, line: &[Cell], query: &[char])
    requires
        query@.len() > 0,
    ensures
        final(out)@ == old(out)@ + row_matches(
            row as int,
            selection::chars_in(line@),
            query@,
        ),
{
    let ghost chars = selection::chars_in(line@);
    let ghost places = hits(chars, query@, 0);
    let mut found: Ghost<int> = Ghost(0);
    let mut at: usize = 0;
    let n: usize = line.len();
    let mut clear: Ghost<int> = Ghost(0);
    assert(places.skip(0) =~= places);
    while at < n
        invariant
            n == line@.len(),
            at <= n,
            query@.len() > 0,
            chars == selection::chars_in(line@),
            places == hits(chars, query@, 0),
            0 <= found@ <= places.len(),
            0 <= clear@ <= at,
            places.skip(found@) == hits(chars, query@, clear@),
            at < n ==> next_occurrence(chars, query@, clear@) == next_occurrence(
                chars,
                query@,
                at as int,
            ),
            at == n ==> places.skip(found@).len() == 0,
            out@ == old(out)@ + row_matches(row as int, chars, query@).take(found@),
        decreases n - at,
    {
        if stands_at(line, query, at) {
            proof {
                assert(next_occurrence(chars, query@, clear@) == at);
                assert(hits(chars, query@, clear@) == seq![at as int] + hits(
                    chars,
                    query@,
                    at + query@.len(),
                ));
                assert(places.skip(found@)[0] == at);
                assert(places.skip(found@).skip(1) =~= hits(chars, query@, at + query@.len()));
                assert(places.skip(found@ + 1) =~= places.skip(found@).skip(1));
            }
            let hit = Match { row, col_start: at, col_end: at + (query.len() - 1) };
            out.push(hit);
            proof {
                let all = row_matches(row as int, chars, query@);
                assert(places[found@] == at);
                assert(all[found@] == hit);
                assert(all.take(found@ + 1) =~= all.take(found@).push(hit));
                assert(out@ =~= old(out)@ + all.take(found@ + 1));
            }
            at = at + query.len();
            found = Ghost(found@ + 1);
            clear = Ghost(at as int);
        } else {
            at += 1;
            proof {
                if at == n {
                    assert(next_occurrence(chars, query@, at as int) == n);
                }
            }
        }
    }
    assert(row_matches(row as int, chars, query@).take(found@) =~= row_matches(
        row as int,
        chars,
        query@,
    ));
}

/// The row with the given index into history and screen together.
fn absolute_row(g: &Grid, row: usize) -> (cells: &[Cell])
    requires
        row < g.scrollback@.len() + g.lines@.len(),
    ensures
        cells@ == (g@.scrollback + g@.lines)[row as int],
{
    let history: usize = g.scrollback.len();
    if row < history {
        g.scrollback[row].cells.as_slice()
    } else {
        g.lines[row - history].cells.as_slice()
    }
}

/// Finds the query in history and screen. Hits do not overlap: after one, the
/// search in its row goes on behind it. An empty query finds nothing.
pub fn find_matches(term: &Term, query: &str) -> (out: Vec<Match>)
    requires
        term.wf(),
    ensures
        out@ == matches_in(term@.all_rows(), term@.all_rows().len() as int, query@),
{
    let mut out: Vec<Match> = Vec::new();
    let chars = text::chars_of(query);
    let g = term.grid();
    let ghost rows = term@.all_rows();
    let total: usize = g.scrollback.len() + g.lines.len();
    if chars.len() == 0 {
        proof {
            lemma_empty_query_finds_nothing(rows, rows.len() as int);
            assert(query@ =~= Seq::<char>::empty());
        }
        return out;
    }
    let mut row: usize = 0;
    while row < total
        invariant
            row <= total,
            total == g.scrollback@.len() + g.lines@.len(),
            rows == g@.scrollback + g@.lines,
            chars@ == query@,
            chars@.len() > 0,
            out@ == matches_in(rows, row as int, query@),
        decreases total - row,
    {
        push_row_matches(&mut out, row, absolute_row(g, row), chars.as_slice());
        row += 1;
    }
    out
}

proof fn lemma_empty_query_finds_nothing(rows: Seq<Seq<Cell>>, n: int)
    ensures
        matches_in(rows, n, Seq::empty()) == Seq::<Match>::empty(),
    decreases n,
{
    if n > 0 {
        lemma_empty_query_finds_nothing(rows, n - 1);
        assert(row_matches(n - 1, selection::chars_in(rows[n - 1]), Seq::empty()) =~= Seq::<
            Match,
        >::empty());
    }
}

/// A hit at or after a place.
pub open spec fn from_on(m: Match, row: usize, col: usize) -> bool {
    m.row > row || (m.row == row && m.col_start >= col)
}

/// A hit at or before a place.
pub open spec fn up_to(m: Match, row: usize, col: usize) -> bool {
    m.row < row || (m.row == row && m.col_start <= col)
}

/// The first hit from `i` on that is not before a place, or the number of
/// hits.
pub open spec fn first_from(matches: Seq<Match>, row: usize, col: usize, i: int) -> int
    decreases matches.len() - i,
{
    if i >= matches.len() {
        matches.len() as int
    } else if from_on(matches[i], row, col) {
        i
    } else {
        first_from(matches, row, col, i + 1)
    }
}

/// The last of the first `n` hits that is not after a place, or -1.
pub open spec fn last_up_to(matches: Seq<Match>, row: usize, col: usize, n: int) -> int
    decreases n,
{
    if n <= 0 {
        -1
    } else if up_to(matches[n - 1], row, col) {
        n - 1
    } else {
        last_up_to(matches, row, col, n - 1)
    }
}

/// The hit to go to from a place: the next one in the direction of the
/// search, around the end where there is none.
pub open spec fn picked_match(
    matches: Seq<Match>,
    row: usize,
    col: usize,
    direction: SearchDirection,
) -> Option<usize> {
    if matches.len() == 0 {
        None
    } else {
        match direction {
            SearchDirection::Forward => {
                let i = first_from(matches, row, col, 0);
                Some(
                    (if i < matches.len() {
                        i
                    } else {
                        0
                    }) as usize,
                )
            },
            SearchDirection::Backward => {
                let i = last_up_to(matches, row, col, matches.len() as int);
                Some(
                    (if i >= 0 {
                        i
                    } else {
                        matches.len() - 1
                    }) as usize,
                )
            },
        }
    }
}

/// Picks the hit to go to from a place; none where there are no hits.
pub fn pick_current_match(
    matches: &[Match],
    from_row: usize,
    from_col: usize,
    direction: SearchDirection,
) -> (picked: Option<usize>)
    ensures
        picked == picked_match(matches@, from_row, from_col, direction),
        picked matches Some(i) ==> i < matches@.len(),
{
    let n: usize = matches.len();
    if n == 0 {
        return None;
    }
    match direction {
        SearchDirection::Forward => {
            let mut i: usize = 0;
            while i < n
                invariant
                    i <= n,
                    n == matches@.len(),
                    n > 0,
                    direction == SearchDirection::Forward,
                    first_from(matches@, from_row, from_col, 0) == first_from(
                        matches@,
                        from_row,
                        from_col,
                        i as int,
                    ),
                decreases n - i,
            {
                let m = matches[i];
                if m.row > from_row || (m.row == from_row && m.col_start >= from_col) {
                    return Some(i);
                }
                i += 1;
            }
            Some(0)
        },
        SearchDirection::Backward => {
            let mut i: usize = n;
            while i > 0
                invariant
                    i <= n,
                    n == matches@.len(),
                    n > 0,
                    direction == SearchDirection::Backward,
                    last_up_to(matches@, from_row, from_col, n as int) == last_up_to(
                        matches@,
                        from_row,
                        from_col,
                        i as int,
                    ),
                decreases i,
            {
                i -= 1;
                let m = matches[i];
                if m.row < from_row || (m.row == from_row && m.col_start <= from_col) {
                    return Some(i);
                }
            }
            Some(n - 1)
        },
    }
}

/// The hits in one line: each is an occurrence, they follow one another
/// without overlap, and every occurrence is a hit or overlaps one.
proof fn lemma_hits(line: Seq<char>, query: Seq<char>, from: int)
    requires
        query.len() > 0,
        0 <= from,
    ensures
        forall|k: int|
            0 <= k < hits(line, query, from).len() ==> {
                &&& from <= #[trigger] hits(line, query, from)[k]
                &&& occurs_at(line, query, hits(line, query, from)[k])
            },
        forall|i: int, j: int|
            0 <= i < j < hits(line, query, from).len() ==> #[trigger] hits(line, query, from)[i]
                + query.len() <= #[trigger] hits(line, query, from)[j],
        forall|p: int|
            from <= p && #[trigger] occurs_at(line, query, p) ==> covered_by(
                hits(line, query, from),
                query.len() as int,
                p,
            ),
    decreases
            (if from < line.len() {
                line.len() - from
            } else {
                0
            }),
{
    let all = hits(line, query, from);
    if from < line.len() {
        lemma_next_occurrence_bounds(line, query, from);
        let at = next_occurrence(line, query, from);
        if at < line.len() {
            let rest = hits(line, query, at + query.len());
            lemma_hits(line, query, at + query.len());
            assert(all == seq![at] + rest);
            assert forall|k: int| 0 <= k < all.len() implies from <= #[trigger] all[k] && occurs_at(
                line,
                query,
                all[k],
            ) by {
                if k > 0 {
                    assert(all[k] == rest[k - 1]);
                }
            }
            assert forall|i: int, j: int| 0 <= i < j < all.len() implies #[trigger] all[i]
                + query.len() <= #[trigger] all[j] by {
                assert(all[j] == rest[j - 1]);
                if i > 0 {
                    assert(all[i] == rest[i - 1]);
                }
            }
            assert forall|p: int| from <= p && #[trigger] occurs_at(line, query, p) implies covered_by(
                all,
                query.len() as int,
                p,
            ) by {
                if p < at + query.len() {
                    assert(all[0] == at);
                } else {
                    assert(covered_by(rest, query.len() as int, p));
                    let k = choose|k: int|
                        0 <= k < rest.len() && #[trigger] rest[k] <= p < rest[k] + query.len();
                    assert(all[k + 1] == rest[k]);
                }
            }
        }
    }
}

/// One of the places lies at most `len - 1` before `p` and not after it.
pub open spec fn covered_by(places: Seq<int>, len: int, p: int) -> bool {
    exists|k: int| 0 <= k < places.len() && #[trigger] places[k] <= p < places[k] + len
}

/// Rows and columns that fit the machine.
pub open spec fn addressable(rows: Seq<Seq<Cell>>) -> bool {
    rows.len() <= usize::MAX && forall|r: int|
        0 <= r < rows.len() ==> (#[trigger] rows[r]).len() <= usize::MAX
}

/// Every hit spells the query, in the row and columns it names.
pub proof fn law_every_hit_spells_the_query(
    rows: Seq<Seq<Cell>>,
    n: int,
    query: Seq<char>,
    i: int,
)
    requires
        query.len() > 0,
        addressable(rows),
        0 <= n <= rows.len(),
        0 <= i < matches_in(rows, n, query).len(),
    ensures
        ({
            let m = matches_in(rows, n, query)[i];
            &&& m.row < n
            &&& m.col_end == m.col_start + query.len() - 1
            &&& m.col_end < rows[m.row as int].len()
            &&& occurs_at(selection::chars_in(rows[m.row as int]), query, m.col_start as int)
        }),
    decreases n,
{
    let before = matches_in(rows, n - 1, query);
    if i < before.len() {
        law_every_hit_spells_the_query(rows, n - 1, query, i);
    } else {
        let line = selection::chars_in(rows[n - 1]);
        lemma_hits(line, query, 0);
        let places = hits(line, query, 0);
        assert(matches_in(rows, n, query)[i] == row_matches(n - 1, line, query)[i - before.len()]);
        assert(occurs_at(line, query, places[i - before.len()]));
    }
}

/// Hits come in reading order and never overlap.
pub proof fn law_hits_are_in_order(
    rows: Seq<Seq<Cell>>,
    n: int,
    query: Seq<char>,
    i: int,
    j: int,
)
    requires
        query.len() > 0,
        addressable(rows),
        0 <= n <= rows.len(),
        0 <= i < j < matches_in(rows, n, query).len(),
    ensures
        ({
            let a = matches_in(rows, n, query)[i];
            let b = matches_in(rows, n, query)[j];
            a.row < b.row || (a.row == b.row && a.col_end < b.col_start)
        }),
    decreases n,
{
    let before = matches_in(rows, n - 1, query);
    let line = selection::chars_in(rows[n - 1]);
    if j < before.len() {
        law_hits_are_in_order(rows, n - 1, query, i, j);
    } else if i < before.len() {
        law_every_hit_spells_the_query(rows, n - 1, query, i);
        law_every_hit_spells_the_query(rows, n, query, j);
        assert(matches_in(rows, n, query)[j] == row_matches(n - 1, line, query)[j - before.len()]);
    } else {
        lemma_hits(line, query, 0);
        let places = hits(line, query, 0);
        law_every_hit_spells_the_query(rows, n, query, i);
        law_every_hit_spells_the_query(rows, n, query, j);
        assert(matches_in(rows, n, query)[i] == row_matches(n - 1, line, query)[i - before.len()]);
        assert(matches_in(rows, n, query)[j] == row_matches(n - 1, line, query)[j - before.len()]);
        assert(places[i - before.len()] + query.len() <= places[j - before.len()]);
        assert(occurs_at(line, query, places[i - before.len()]));
        assert(occurs_at(line, query, places[j - before.len()]));
    }
}

/// Nothing is missed: every place where the query stands belongs to a hit or
/// overlaps one.
pub proof fn law_no_occurrence_is_missed(
    rows: Seq<Seq<Cell>>,
    n: int,
    query: Seq<char>,
    row: int,
    at: int,
)
    requires
        query.len() > 0,
        addressable(rows),
        0 <= row < n <= rows.len(),
        occurs_at(selection::chars_in(rows[row]), query, at),
    ensures
        exists|i: int|
            0 <= i < matches_in(rows, n, query).len() && {
                let m = #[trigger] matches_in(rows, n, query)[i];
                m.row == row && m.col_start <= at <= m.col_end
            },
    decreases n,
{
    let before = matches_in(rows, n - 1, query);
    let all = matches_in(rows, n, query);
    let line = selection::chars_in(rows[n - 1]);
    if row < n - 1 {
        law_no_occurrence_is_missed(rows, n - 1, query, row, at);
        let i = choose|i: int|
            0 <= i < before.len() && {
                let m = #[trigger] before[i];
                m.row == row && m.col_start <= at <= m.col_end
            };
        assert(all[i] == before[i]);
    } else {
        lemma_hits(line, query, 0);
        let places = hits(line, query, 0);
        assert(covered_by(places, query.len() as int, at));
        let k = choose|k: int|
            0 <= k < places.len() && #[trigger] places[k] <= at < places[k] + query.len();
        assert(occurs_at(line, query, places[k]));
        assert(all[before.len() + k] == row_matches(n - 1, line, query)[k]);
    }
}

} // verus!
