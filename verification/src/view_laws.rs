//! What holds of the history, and of the view of a user who scrolled back into
//! it.

use vstd::prelude::*;

use crate::grid;
use crate::grid::{Cell, GridModel};
use crate::term;
use crate::term::TermModel;
use crate::term_laws;
use crate::vt;
use crate::vt::VtAction;

verus! {

/// The history is within its limit, and no more of its rows are new than there
/// are.
pub open spec fn history_ok(g: GridModel) -> bool {
    0 <= g.new_rows <= g.scrollback.len() <= g.history_room()
}

/// How many rows of a history are not new.
pub open spec fn settled_rows(g: GridModel) -> int {
    g.scrollback.len() - g.new_rows
}

/// The history was `old` when rows were last counted: what is not new in it are
/// the newest rows of `old`, and rows of `old` are missing only where the
/// history is full or was dropped as a whole.
pub open spec fn continues(old_rows: Seq<Seq<Cell>>, g: GridModel) -> bool {
    let kept = settled_rows(g);
    &&& history_ok(g)
    &&& kept <= old_rows.len()
    &&& forall|i: int|
        0 <= i < kept ==> #[trigger] g.scrollback[i] == old_rows[old_rows.len() - kept + i]
    &&& kept == old_rows.len() || kept == 0 || g.scrollback.len() == g.history_room()
}

/// Rows that enter the history follow those that were there.
proof fn lemma_entering_continues(
    old_rows: Seq<Seq<Cell>>,
    g: GridModel,
    entering: Seq<Seq<Cell>>,
)
    requires
        continues(old_rows, g),
    ensures
        continues(old_rows, g.with_history(entering)),
{
    let all = g.scrollback + entering;
    let after = g.with_history(entering);
    let gone = all.len() - after.scrollback.len();
    let kept = settled_rows(after);
    assert forall|i: int| 0 <= i < kept implies #[trigger] after.scrollback[i]
        == old_rows[old_rows.len() - kept + i] by {
        assert(after.scrollback[i] == all[gone + i]);
        assert(g.scrollback[gone + i] == old_rows[old_rows.len() - settled_rows(g) + gone + i]);
    }
}

proof fn lemma_line_feed_continues(old_rows: Seq<Seq<Cell>>, g: GridModel)
    requires
        continues(old_rows, g),
    ensures
        continues(old_rows, g.line_feed()),
{
    let still = g.at(g.cursor.row, g.cursor.col);
    let count = grid::min_int(1, g.scroll_bot - g.scroll_top + 1);
    lemma_entering_continues(old_rows, g, g.lines.subrange(0, count));
    assert(continues(old_rows, still.with_history(still.lines.subrange(0, count))));
}

proof fn lemma_print_continues(old_rows: Seq<Seq<Cell>>, g: GridModel, ch: char)
    requires
        continues(old_rows, g),
    ensures
        continues(old_rows, g.put_char(ch)),
{
    let wrapped = if g.cursor.wrap_next {
        g.at(g.cursor.row, 0).line_feed()
    } else {
        g
    };
    lemma_line_feed_continues(old_rows, g.at(g.cursor.row, 0));
    assert(continues(old_rows, wrapped));
    lemma_line_feed_continues(old_rows, wrapped.at(wrapped.cursor.row, 0));
    assert(continues(old_rows, g.ready_for(ch)));
}

proof fn lemma_csi_continues(
    old_rows: Seq<Seq<Cell>>,
    t: TermModel,
    params: Seq<Seq<u16>>,
    intermediates: Seq<u8>,
    name: char,
)
    requires
        continues(old_rows, t.primary),
        !t.on_alt(),
    ensures
        continues(old_rows, t.csi(params, intermediates, name).primary),
{
    reveal(TermModel::csi);
    reveal(term::csi_screen);
    reveal(term::with_shape);
    term_laws::lemma_modes_keep_primary_cells(t, params, params.len() as int, true);
    term_laws::lemma_modes_keep_primary_cells(t, params, params.len() as int, false);
}

proof fn lemma_action_continues(old_rows: Seq<Seq<Cell>>, t: TermModel, action: VtAction)
    requires
        continues(old_rows, t.primary),
    ensures
        continues(old_rows, t.perform(action).primary),
{
    reveal(TermModel::perform);
    if t.on_alt() {
        term_laws::law_alt_screen_protects_primary(t, action);
    } else {
        let g = t.primary;
        match action {
            VtAction::Print(c) => {
                lemma_print_continues(old_rows, g, c);
            },
            VtAction::Execute(byte) => {
                reveal(term::control);
                lemma_line_feed_continues(old_rows, g);
            },
            VtAction::Csi { params, intermediates, action: name } => {
                lemma_csi_continues(old_rows, t, params, intermediates, name);
            },
            VtAction::Esc { intermediates, byte } => {
                reveal(term::esc_screen);
                lemma_line_feed_continues(old_rows, g);
            },
            VtAction::Osc { fields, .. } => {
                reveal(TermModel::osc);
            },
            _ => {},
        }
    }
}

proof fn lemma_actions_continue(old_rows: Seq<Seq<Cell>>, t: TermModel, actions: Seq<VtAction>)
    requires
        continues(old_rows, t.primary),
    ensures
        continues(old_rows, t.perform_all(actions).primary),
    decreases actions.len(),
{
    if actions.len() > 0 {
        lemma_actions_continue(old_rows, t, actions.drop_last());
        lemma_action_continues(old_rows, t.perform_all(actions.drop_last()), actions.last());
    }
}

pub proof fn lemma_run_continues(
    old_rows: Seq<Seq<Cell>>,
    t: TermModel,
    history: Seq<u8>,
    bytes: Seq<u8>,
)
    requires
        continues(old_rows, t.primary),
    ensures
        continues(old_rows, t.run(history, bytes).primary),
    decreases bytes.len(),
{
    if bytes.len() > 0 {
        lemma_run_continues(old_rows, t, history, bytes.drop_last());
        lemma_actions_continue(
            old_rows,
            t.run(history, bytes.drop_last()),
            vt::vt_actions(history + bytes.drop_last(), bytes.last()),
        );
    }
}

/// How many of the rows that were in the history are gone from it after output.
pub open spec fn rows_gone(t: TermModel, history: Seq<u8>, bytes: Seq<u8>) -> int {
    t.primary.scrollback.len() - settled_rows(t.counted().run(history, bytes).primary)
}

/// None of the rows that were in the history is left, though there is room in
/// it: output reset the terminal.
pub open spec fn started_over(t: TermModel, history: Seq<u8>, bytes: Seq<u8>) -> bool {
    &&& rows_gone(t, history, bytes) == t.primary.scrollback.len()
    &&& t.feed(history, bytes).primary.scrollback.len() < term::SCROLLBACK_ROWS
}

/// Output adds rows at the end of the history and takes rows only from its
/// front: what is left of it follows unchanged. Rows leave it only while it is
/// full, or all at once when the terminal is reset.
pub proof fn law_history_is_a_queue(t: TermModel, history: Seq<u8>, bytes: Seq<u8>, i: int)
    requires
        t.wf(),
        rows_gone(t, history, bytes) <= i < t.primary.scrollback.len(),
    ensures
        ({
            let after = t.feed(history, bytes).primary.scrollback;
            let gone = rows_gone(t, history, bytes);
            &&& 0 <= gone
            &&& i - gone < after.len()
            &&& after[i - gone] == t.primary.scrollback[i]
            &&& gone > 0 ==> after.len() == term::SCROLLBACK_ROWS
        }),
{
    let old_rows = t.primary.scrollback;
    lemma_run_continues(old_rows, t.counted(), history, bytes);
    lemma_run_keeps_limit(t.counted(), history, bytes);
    let g = t.counted().run(history, bytes).primary;
    let gone = rows_gone(t, history, bytes);
    assert(g.scrollback[i - gone] == old_rows[old_rows.len() - settled_rows(g) + (i - gone)]);
}

/// While the user is scrolled back, output does not move what they see, also
/// when the history is full: every row of the history in view that is still in
/// the history stays where it was. Only where the row at the top is gone does
/// the view move, to what is then the oldest row. After a reset the view is as
/// far from the oldest row as before, or at the live screen if there are fewer
/// rows.
pub proof fn law_view_is_anchored(t: TermModel, history: Seq<u8>, bytes: Seq<u8>, vrow: int)
    requires
        t.wf(),
        !t.on_alt(),
        0 < t.viewport_offset <= t.primary.scrollback.len(),
        !t.feed(history, bytes).on_alt(),
        0 <= vrow,
        t.viewport_top() + vrow < t.primary.scrollback.len(),
    ensures
        ({
            let after = t.feed(history, bytes);
            let gone = rows_gone(t, history, bytes);
            &&& after.viewport_top() == (if started_over(t, history, bytes) {
                grid::min_int(t.viewport_top(), after.primary.scrollback.len() as int)
            } else if gone <= t.viewport_top() {
                t.viewport_top() - gone
            } else {
                0
            })
            &&& gone <= t.viewport_top() ==> after.all_rows()[after.viewport_top() + vrow]
                == t.all_rows()[t.viewport_top() + vrow]
            &&& gone <= t.viewport_top() + vrow ==> after.all_rows()[t.viewport_top() + vrow - gone]
                == t.all_rows()[t.viewport_top() + vrow]
        }),
{
    let old_rows = t.primary.scrollback;
    let raw = t.counted().run(history, bytes);
    lemma_run_continues(old_rows, t.counted(), history, bytes);
    lemma_run_keeps_limit(t.counted(), history, bytes);
    term_laws::lemma_run_ignores_view(t.counted(), history, bytes, t.viewport_offset);
    let i = t.viewport_top() + vrow;
    if rows_gone(t, history, bytes) <= i {
        law_history_is_a_queue(t, history, bytes, i);
    }
}

/// The view never points beyond the history of the primary screen, however
/// output, resizing and scrolling follow one another.
pub proof fn law_view_stays_in_history(
    t: TermModel,
    history: Seq<u8>,
    bytes: Seq<u8>,
    rows: int,
    cols: int,
    delta: int,
)
    requires
        t.wf(),
        t.viewport_offset <= t.primary.scrollback.len(),
    ensures
        ({
            let fed = t.feed(history, bytes);
            &&& 0 <= fed.viewport_offset <= fed.primary.scrollback.len()
        }),
        ({
            let sized = t.resize(rows, cols);
            &&& 0 <= sized.viewport_offset <= sized.primary.scrollback.len()
        }),
        ({
            let scrolled = t.scroll_view(delta);
            &&& 0 <= scrolled.viewport_offset <= scrolled.primary.scrollback.len()
        }),
{
    term_laws::lemma_run_ignores_view(t.counted(), history, bytes, t.viewport_offset);
    lemma_run_continues(t.primary.scrollback, t.counted(), history, bytes);
}

pub proof fn lemma_run_keeps_limit(t: TermModel, history: Seq<u8>, bytes: Seq<u8>)
    ensures
        t.run(history, bytes).primary.scrollback_limit == t.primary.scrollback_limit,
    decreases bytes.len(),
{
    if bytes.len() > 0 {
        lemma_run_keeps_limit(t, history, bytes.drop_last());
        lemma_actions_keep_limit(
            t.run(history, bytes.drop_last()),
            vt::vt_actions(history + bytes.drop_last(), bytes.last()),
        );
    }
}

proof fn lemma_actions_keep_limit(t: TermModel, actions: Seq<VtAction>)
    ensures
        t.perform_all(actions).primary.scrollback_limit == t.primary.scrollback_limit,
    decreases actions.len(),
{
    if actions.len() > 0 {
        lemma_actions_keep_limit(t, actions.drop_last());
        lemma_action_keeps_limit(t.perform_all(actions.drop_last()), actions.last());
    }
}

proof fn lemma_action_keeps_limit(t: TermModel, action: VtAction)
    ensures
        t.perform(action).primary.scrollback_limit == t.primary.scrollback_limit,
{
    reveal(TermModel::perform);
    reveal(TermModel::csi);
    reveal(TermModel::osc);
    reveal(term::control);
    reveal(term::csi_screen);
    reveal(term::with_shape);
    reveal(term::esc_screen);
    if let VtAction::Csi { params, .. } = action {
        term_laws::lemma_modes_keep_primary_cells(t, params, params.len() as int, true);
        term_laws::lemma_modes_keep_primary_cells(t, params, params.len() as int, false);
    }
}

/// The same terminal with another number of new rows.
pub open spec fn with_new_rows(t: TermModel, n: int) -> TermModel {
    TermModel { primary: grid_with_new_rows(t.primary, n), ..t }
}

/// The same grid with another number of new rows.
pub open spec fn grid_with_new_rows(g: GridModel, n: int) -> GridModel {
    GridModel { new_rows: n, ..g }
}

/// `n` rows and those that are new in a grid, as far as it has them.
pub open spec fn rows_added(n: int, g: GridModel) -> int {
    grid::min_int(n + g.new_rows, g.scrollback.len() as int)
}

/// A history that had `len` rows when they were counted grew by new rows only.
pub open spec fn grew(len: int, g: GridModel) -> bool {
    history_ok(g) && g.scrollback.len() <= len + g.new_rows
}

/// Rows are counted by what is done, whatever was counted before: `after` comes
/// of `n` new rows as `from_none` comes of none.
spec fn counts_on(g: GridModel, n: int, from_none: GridModel, after: GridModel) -> bool {
    &&& grew(g.scrollback.len() as int, from_none)
    &&& after == grid_with_new_rows(from_none, rows_added(n, from_none))
}

/// The same of terminals; `some` comes of `n` new rows as `none` comes of none.
pub open spec fn counted_from(t: TermModel, n: int, none: TermModel, some: TermModel) -> bool {
    &&& grew(t.primary.scrollback.len() as int, none.primary)
    &&& some == with_new_rows(none, rows_added(n, none.primary))
}

proof fn lemma_line_feed_counts(g: GridModel, n: int)
    requires
        history_ok(grid_with_new_rows(g, n)),
    ensures
        counts_on(
            g,
            n,
            grid_with_new_rows(g, 0).line_feed(),
            grid_with_new_rows(g, n).line_feed(),
        ),
{
    let none = grid_with_new_rows(g, 0).line_feed();
    let some = grid_with_new_rows(g, n).line_feed();
    assert(some =~~= grid_with_new_rows(none, rows_added(n, none)));
}

/// Two steps, each of which counts on from what was counted before, do so
/// together.
proof fn lemma_steps_count(g: GridModel, n: int, mid: GridModel, end: GridModel)
    requires
        history_ok(grid_with_new_rows(g, n)),
        grew(g.scrollback.len() as int, mid),
        grew(mid.scrollback.len() as int, end),
    ensures
        ({
            let both = grid_with_new_rows(end, rows_added(mid.new_rows, end));
            &&& grew(g.scrollback.len() as int, both)
            &&& rows_added(rows_added(n, mid), end) == rows_added(n, both)
            &&& history_ok(grid_with_new_rows(mid, rows_added(n, mid)))
        }),
{
}

proof fn lemma_print_counts(g: GridModel, n: int, ch: char)
    requires
        history_ok(grid_with_new_rows(g, n)),
    ensures
        counts_on(
            g,
            n,
            grid_with_new_rows(g, 0).put_char(ch),
            grid_with_new_rows(g, n).put_char(ch),
        ),
{
    let none = grid_with_new_rows(g, 0);
    let some = grid_with_new_rows(g, n);
    let none1 = wrapped(none);
    let some1 = wrapped(some);
    lemma_line_feed_counts(g.at(g.cursor.row, 0), n);
    assert(none.at(g.cursor.row, 0) == grid_with_new_rows(g.at(g.cursor.row, 0), 0));
    assert(some.at(g.cursor.row, 0) == grid_with_new_rows(g.at(g.cursor.row, 0), n));
    assert(counts_on(g, n, none1, some1));
    let m = rows_added(n, none1);
    let base = none1.at(none1.cursor.row, 0);
    lemma_line_feed_counts(base, none1.new_rows);
    lemma_line_feed_counts(base, m);
    let end = grid_with_new_rows(base, 0).line_feed();
    assert(base == grid_with_new_rows(base, none1.new_rows));
    assert(some1.at(some1.cursor.row, 0) == grid_with_new_rows(base, m));
    lemma_steps_count(g, n, none1, end);
    let none2 = none.ready_for(ch);
    let some2 = some.ready_for(ch);
    assert(counts_on(g, n, none2, some2));
    assert(some2.draw(ch).lines =~~= none2.draw(ch).lines);
}

/// A pending wrap carried out.
spec fn wrapped(g: GridModel) -> GridModel {
    if g.cursor.wrap_next {
        g.at(g.cursor.row, 0).line_feed()
    } else {
        g
    }
}

proof fn lemma_csi_counts(g: GridModel, n: int, params: Seq<Seq<u16>>, action: char)
    requires
        history_ok(grid_with_new_rows(g, n)),
    ensures
        counts_on(
            g,
            n,
            term::csi_screen(grid_with_new_rows(g, 0), params, action),
            term::csi_screen(grid_with_new_rows(g, n), params, action),
        ),
{
    reveal(term::csi_screen);
    let none = term::csi_screen(grid_with_new_rows(g, 0), params, action);
    let some = term::csi_screen(grid_with_new_rows(g, n), params, action);
    assert(some =~~= grid_with_new_rows(none, n));
}

/// A step on the screen in use counts on if it does so on the primary screen.
proof fn lemma_screen_counts(t: TermModel, n: int, none: GridModel, some: GridModel)
    requires
        history_ok(grid_with_new_rows(t.primary, n)),
        t.on_alt() ==> none == some,
        !t.on_alt() ==> counts_on(t.primary, n, none, some),
    ensures
        counted_from(
            t,
            n,
            with_new_rows(t, 0).with_screen(none),
            with_new_rows(t, n).with_screen(some),
        ),
{
}

proof fn lemma_control_counts(g: GridModel, n: int, byte: u8)
    requires
        history_ok(grid_with_new_rows(g, n)),
    ensures
        counts_on(
            g,
            n,
            term::control(grid_with_new_rows(g, 0), byte),
            term::control(grid_with_new_rows(g, n), byte),
        ),
{
    reveal(term::control);
    lemma_line_feed_counts(g, n);
}

proof fn lemma_esc_counts(g: GridModel, n: int, byte: u8)
    requires
        history_ok(grid_with_new_rows(g, n)),
    ensures
        counts_on(
            g,
            n,
            term::esc_screen(grid_with_new_rows(g, 0), byte),
            term::esc_screen(grid_with_new_rows(g, n), byte),
        ),
{
    reveal(term::esc_screen);
    lemma_line_feed_counts(g, n);
    let none = term::esc_screen(grid_with_new_rows(g, 0), byte);
    let some = term::esc_screen(grid_with_new_rows(g, n), byte);
    if byte != 0x44 && byte != 0x45 {
        assert(some =~~= grid_with_new_rows(none, rows_added(n, none)));
    }
}

proof fn lemma_shape_counts(g: GridModel, n: int, code: u16)
    requires
        history_ok(grid_with_new_rows(g, n)),
    ensures
        counts_on(
            g,
            n,
            term::with_shape(grid_with_new_rows(g, 0), code),
            term::with_shape(grid_with_new_rows(g, n), code),
        ),
{
    reveal(term::with_shape);
}

proof fn lemma_sequence_counts(
    t: TermModel,
    n: int,
    params: Seq<Seq<u16>>,
    intermediates: Seq<u8>,
    name: char,
)
    requires
        history_ok(grid_with_new_rows(t.primary, n)),
    ensures
        counted_from(
            t,
            n,
            with_new_rows(t, 0).csi(params, intermediates, name),
            with_new_rows(t, n).csi(params, intermediates, name),
        ),
{
    reveal(TermModel::csi);
    reveal(term::status_reply);
    let none = with_new_rows(t, 0).screen();
    let some = with_new_rows(t, n).screen();
    if intermediates == seq![0x20u8] && name == 'q' {
        let code = term::arg_or(params, 0, 0);
        lemma_shape_counts(t.primary, n, code);
        lemma_screen_counts(t, n, term::with_shape(none, code), term::with_shape(some, code));
    } else if intermediates.len() > 0 && intermediates[0] == 0x3f {
        lemma_modes_count(t, n, params, params.len() as int, true);
        lemma_modes_count(t, n, params, params.len() as int, false);
    } else if name != 'n' {
        lemma_csi_counts(t.primary, n, params, name);
        lemma_screen_counts(
            t,
            n,
            term::csi_screen(none, params, name),
            term::csi_screen(some, params, name),
        );
    }
}

proof fn lemma_action_counts(t: TermModel, n: int, action: VtAction)
    requires
        history_ok(grid_with_new_rows(t.primary, n)),
    ensures
        counted_from(
            t,
            n,
            with_new_rows(t, 0).perform(action),
            with_new_rows(t, n).perform(action),
        ),
{
    reveal(TermModel::perform);
    let g = t.primary;
    let none = with_new_rows(t, 0).screen();
    let some = with_new_rows(t, n).screen();
    match action {
        VtAction::Print(c) => {
            lemma_print_counts(g, n, c);
            lemma_screen_counts(t, n, none.put_char(c), some.put_char(c));
        },
        VtAction::Execute(byte) => {
            lemma_control_counts(g, n, byte);
            lemma_screen_counts(t, n, term::control(none, byte), term::control(some, byte));
        },
        VtAction::Csi { params, intermediates, action: name } => {
            lemma_sequence_counts(t, n, params, intermediates, name);
        },
        VtAction::Esc { intermediates, byte } => {
            lemma_esc_counts(g, n, byte);
            lemma_screen_counts(t, n, term::esc_screen(none, byte), term::esc_screen(some, byte));
        },
        VtAction::Osc { fields, .. } => {
            reveal(TermModel::osc);
        },
        _ => {},
    }
}

proof fn lemma_modes_count(t: TermModel, n: int, params: Seq<Seq<u16>>, upto: int, on: bool)
    ensures
        with_new_rows(t, n).set_modes(params, upto, on) == with_new_rows(
            with_new_rows(t, 0).set_modes(params, upto, on),
            n,
        ),
        with_new_rows(t, 0).set_modes(params, upto, on).primary.new_rows == 0,
        with_new_rows(t, 0).set_modes(params, upto, on).primary.scrollback
            == t.primary.scrollback,
        with_new_rows(t, 0).set_modes(params, upto, on).primary.scrollback_limit
            == t.primary.scrollback_limit,
    decreases upto,
{
    term_laws::lemma_modes_keep_primary_cells(with_new_rows(t, 0), params, upto, on);
    if upto > 0 {
        lemma_modes_count(t, n, params, upto - 1, on);
        lemma_mode_counts(
            with_new_rows(t, 0).set_modes(params, upto - 1, on),
            n,
            term_laws::mode_at(params, upto - 1),
            on,
        );
    }
}

proof fn lemma_mode_counts(t: TermModel, n: int, mode: u16, on: bool)
    requires
        t.primary.new_rows == 0,
    ensures
        with_new_rows(t, n).set_mode(mode, on) == with_new_rows(t.set_mode(mode, on), n),
{
    reveal(TermModel::set_mode);
    let none = t.set_mode(mode, on);
    let some = with_new_rows(t, n).set_mode(mode, on);
    if let Some(g) = none.alt {
        assert(some.alt->0.lines =~~= g.lines);
    }
}

proof fn lemma_actions_count(t: TermModel, n: int, actions: Seq<VtAction>)
    requires
        history_ok(grid_with_new_rows(t.primary, n)),
    ensures
        counted_from(
            t,
            n,
            with_new_rows(t, 0).perform_all(actions),
            with_new_rows(t, n).perform_all(actions),
        ),
    decreases actions.len(),
{
    if actions.len() > 0 {
        let start = actions.drop_last();
        lemma_actions_count(t, n, start);
        let mid = with_new_rows(t, 0).perform_all(start);
        let end = with_new_rows(mid, 0).perform(actions.last());
        assert(mid == with_new_rows(mid, mid.primary.new_rows));
        lemma_action_counts(mid, mid.primary.new_rows, actions.last());
        lemma_steps_count(t.primary, n, mid.primary, end.primary);
        lemma_action_counts(mid, rows_added(n, mid.primary), actions.last());
    } else {
        assert(with_new_rows(t, n) == with_new_rows(with_new_rows(t, 0), n));
    }
}

/// What output adds to the history does not depend on how many rows of it were
/// new before.
pub proof fn lemma_run_counts(t: TermModel, n: int, history: Seq<u8>, bytes: Seq<u8>)
    requires
        history_ok(grid_with_new_rows(t.primary, n)),
    ensures
        counted_from(
            t,
            n,
            with_new_rows(t, 0).run(history, bytes),
            with_new_rows(t, n).run(history, bytes),
        ),
    decreases bytes.len(),
{
    if bytes.len() > 0 {
        let start = bytes.drop_last();
        let actions = vt::vt_actions(history + start, bytes.last());
        lemma_run_counts(t, n, history, start);
        let mid = with_new_rows(t, 0).run(history, start);
        let end = with_new_rows(mid, 0).perform_all(actions);
        assert(mid == with_new_rows(mid, mid.primary.new_rows));
        lemma_actions_count(mid, mid.primary.new_rows, actions);
        lemma_steps_count(t.primary, n, mid.primary, end.primary);
        lemma_actions_count(mid, rows_added(n, mid.primary), actions);
    } else {
        assert(with_new_rows(t, n) == with_new_rows(with_new_rows(t, 0), n));
    }
}

} // verus!
