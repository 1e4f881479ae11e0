//! What holds of the terminal as a whole.

use vstd::prelude::*;

use crate::grid::GridModel;
use crate::sgr;
use crate::term;
use crate::term::TermModel;
use crate::text;
use crate::view_laws;
use crate::vt;
use crate::vt::VtAction;

verus! {

/// The same terminal looked at from another place.
pub open spec fn viewed_from(t: TermModel, offset: int) -> TermModel {
    TermModel { viewport_offset: offset, ..t }
}

/// Output arrives in pieces of any size: what two pieces do one after the
/// other is what they do in one.
pub proof fn law_run_in_pieces(t: TermModel, history: Seq<u8>, a: Seq<u8>, b: Seq<u8>)
    ensures
        t.run(history, a + b) == t.run(history, a).run(history + a, b),
    decreases b.len(),
{
    if b.len() == 0 {
        assert(a + b =~= a);
    } else {
        assert((a + b).drop_last() =~= a + b.drop_last());
        assert(history + (a + b.drop_last()) =~= (history + a) + b.drop_last());
        law_run_in_pieces(t, history, a, b.drop_last());
    }
}

/// Where output is split into pieces leaves no trace: screens, title, modes
/// and replies come out the same. So does the view of a user who is not scrolled
/// back, and of one who is, unless a reset dropped the history that they were
/// looking at.
pub proof fn law_feed_in_pieces(t: TermModel, history: Seq<u8>, a: Seq<u8>, b: Seq<u8>)
    requires
        t.wf(),
    ensures
        ({
            let whole = t.feed(history, a + b);
            let pieces = t.feed(history, a).feed(history + a, b);
            &&& viewed_from(pieces, 0) == viewed_from(whole, 0)
            &&& t.viewport_offset == 0 || (!view_laws::started_over(t, history, a)
                && !view_laws::started_over(t, history, a + b)) ==> pieces == whole
        }),
{
    let start = t.counted();
    law_run_in_pieces(start, history, a, b);
    view_laws::lemma_run_counts(t, 0, history, a);
    view_laws::lemma_run_continues(t.primary.scrollback, start, history, a);
    view_laws::lemma_run_continues(t.primary.scrollback, start, history, a + b);
    view_laws::lemma_run_keeps_limit(start, history, a);
    view_laws::lemma_run_keeps_limit(start, history, a + b);
    let mid = start.run(history, a);
    let first = t.feed(history, a);
    lemma_run_ignores_view(start, history, a, t.viewport_offset);
    assert(mid == view_laws::with_new_rows(mid, mid.primary.new_rows));
    view_laws::lemma_run_counts(mid, mid.primary.new_rows, history + a, b);
    let rest = mid.counted();
    assert(first.counted() == viewed_from(rest, first.viewport_offset));
    lemma_run_ignores_view(rest, history + a, b, first.viewport_offset);
    lemma_run_ignores_view(mid, history + a, b, mid.viewport_offset);
}

/// What output does never depends on where the user is looking.
pub proof fn lemma_run_ignores_view(t: TermModel, history: Seq<u8>, bytes: Seq<u8>, offset: int)
    ensures
        viewed_from(t, offset).run(history, bytes) == viewed_from(t.run(history, bytes), offset),
        t.run(history, bytes).viewport_offset == t.viewport_offset,
    decreases bytes.len(),
{
    if bytes.len() > 0 {
        lemma_run_ignores_view(t, history, bytes.drop_last(), offset);
        lemma_actions_ignore_view(
            t.run(history, bytes.drop_last()),
            vt::vt_actions(history + bytes.drop_last(), bytes.last()),
            offset,
        );
    }
}

proof fn lemma_actions_ignore_view(t: TermModel, actions: Seq<VtAction>, offset: int)
    ensures
        viewed_from(t, offset).perform_all(actions) == viewed_from(t.perform_all(actions), offset),
        t.perform_all(actions).viewport_offset == t.viewport_offset,
    decreases actions.len(),
{
    if actions.len() > 0 {
        lemma_actions_ignore_view(t, actions.drop_last(), offset);
        lemma_action_ignores_view(t.perform_all(actions.drop_last()), actions.last(), offset);
    }
}

proof fn lemma_action_ignores_view(t: TermModel, action: VtAction, offset: int)
    ensures
        viewed_from(t, offset).perform(action) == viewed_from(t.perform(action), offset),
        t.perform(action).viewport_offset == t.viewport_offset,
{
    reveal(TermModel::perform);
    reveal(TermModel::csi);
    reveal(TermModel::osc);
    if let VtAction::Csi { params, .. } = action {
        lemma_modes_ignore_view(t, params, params.len() as int, true, offset);
        lemma_modes_ignore_view(t, params, params.len() as int, false, offset);
    }
}

proof fn lemma_modes_ignore_view(
    t: TermModel,
    params: Seq<Seq<u16>>,
    n: int,
    on: bool,
    offset: int,
)
    ensures
        viewed_from(t, offset).set_modes(params, n, on) == viewed_from(
            t.set_modes(params, n, on),
            offset,
        ),
        t.set_modes(params, n, on).viewport_offset == t.viewport_offset,
    decreases n,
{
    if n > 0 {
        lemma_modes_ignore_view(t, params, n - 1, on, offset);
        lemma_mode_ignores_view(
            t.set_modes(params, n - 1, on),
            match sgr::value_at(params, n - 1) {
                Some(m) => m,
                None => 0,
            },
            on,
            offset,
        );
    }
}

proof fn lemma_mode_ignores_view(t: TermModel, mode: u16, on: bool, offset: int)
    ensures
        viewed_from(t, offset).set_mode(mode, on) == viewed_from(t.set_mode(mode, on), offset),
        t.set_mode(mode, on).viewport_offset == t.viewport_offset,
{
    reveal(TermModel::set_mode);
}

/// The theme owns the colours: no output changes them.
pub proof fn law_theme_colors_are_kept(t: TermModel, history: Seq<u8>, bytes: Seq<u8>)
    ensures
        same_theme(t, t.feed(history, bytes)),
{
    lemma_run_keeps_theme(t.counted(), history, bytes);
}

/// The same theme colours.
pub open spec fn same_theme(a: TermModel, b: TermModel) -> bool {
    a.default_fg == b.default_fg && a.default_bg == b.default_bg && a.cursor_color
        == b.cursor_color
}

proof fn lemma_run_keeps_theme(t: TermModel, history: Seq<u8>, bytes: Seq<u8>)
    ensures
        same_theme(t, t.run(history, bytes)),
        t.reply.is_prefix_of(t.run(history, bytes).reply),
    decreases bytes.len(),
{
    if bytes.len() > 0 {
        lemma_run_keeps_theme(t, history, bytes.drop_last());
        let mid = t.run(history, bytes.drop_last());
        let actions = vt::vt_actions(history + bytes.drop_last(), bytes.last());
        lemma_actions_keep_theme(mid, actions);
        let reply = mid.perform_all(actions).reply;
        assert(reply.subrange(0, t.reply.len() as int) =~= mid.reply.subrange(
            0,
            t.reply.len() as int,
        )) by {
            assert(mid.reply =~= reply.subrange(0, mid.reply.len() as int));
        }
    }
}

proof fn lemma_actions_keep_theme(t: TermModel, actions: Seq<VtAction>)
    ensures
        same_theme(t, t.perform_all(actions)),
        t.reply.is_prefix_of(t.perform_all(actions).reply),
    decreases actions.len(),
{
    if actions.len() > 0 {
        lemma_actions_keep_theme(t, actions.drop_last());
        let mid = t.perform_all(actions.drop_last());
        lemma_action_keeps_theme(mid, actions.last());
        let reply = mid.perform(actions.last()).reply;
        assert(reply.subrange(0, t.reply.len() as int) =~= mid.reply.subrange(
            0,
            t.reply.len() as int,
        )) by {
            assert(mid.reply =~= reply.subrange(0, mid.reply.len() as int));
        }
    }
}

proof fn lemma_action_keeps_theme(t: TermModel, action: VtAction)
    ensures
        same_theme(t, t.perform(action)),
        t.reply.is_prefix_of(t.perform(action).reply),
{
    reveal(TermModel::perform);
    reveal(TermModel::csi);
    reveal(TermModel::osc);
    if let VtAction::Csi { params, .. } = action {
        lemma_modes_keep_theme(t, params, params.len() as int, true);
        lemma_modes_keep_theme(t, params, params.len() as int, false);
    }
}

proof fn lemma_modes_keep_theme(t: TermModel, params: Seq<Seq<u16>>, n: int, on: bool)
    ensures
        same_theme(t, t.set_modes(params, n, on)),
        t.reply == t.set_modes(params, n, on).reply,
    decreases n,
{
    if n > 0 {
        lemma_modes_keep_theme(t, params, n - 1, on);
        reveal(TermModel::set_mode);
    }
}

/// Replies are kept until they are taken: output only adds to them.
pub proof fn law_replies_are_kept(t: TermModel, history: Seq<u8>, bytes: Seq<u8>)
    ensures
        t.reply.is_prefix_of(t.feed(history, bytes).reply),
{
    lemma_run_keeps_theme(t.counted(), history, bytes);
}

/// A request to set one of the theme colours does nothing at all.
pub proof fn law_color_request_is_ignored(t: TermModel, fields: Seq<Seq<u8>>, bell: bool)
    requires
        fields.len() > 0,
        fields[0] == text::ascii("10"@) || fields[0] == text::ascii("11"@) || fields[0]
            == text::ascii("12"@),
        term::joined(fields.skip(1)) != text::ascii("?"@),
    ensures
        t.perform(VtAction::Osc { fields, bell }) == t,
{
    reveal(TermModel::perform);
    reveal(TermModel::osc);
    reveal_strlit("0");
    reveal_strlit("2");
    reveal_strlit("10");
    reveal_strlit("11");
    reveal_strlit("12");
    assert(text::ascii("0"@).len() == 1);
    assert(text::ascii("2"@).len() == 1);
    assert(fields[0].len() == 2);
}

/// Going to the alternate screen and back leaves the primary screen as it
/// was: cells, history, cursor and pen. It does not matter what was drawn on
/// the alternate screen.
pub proof fn law_alt_screen_round_trip(t: TermModel, drawn: GridModel)
    requires
        !t.on_alt(),
    ensures
        ({
            let there = TermModel { alt: Some(drawn), ..t.enter_alt() };
            let back = there.leave_alt();
            &&& t.enter_alt().on_alt()
            &&& !back.on_alt()
            &&& back.screen() == t.primary.save_cursor()
            &&& back == (TermModel { primary: t.primary.save_cursor(), ..t })
        }),
{
}

/// Nothing that happens on the alternate screen touches the cells or the
/// history of the primary one.
pub proof fn law_alt_screen_protects_primary(t: TermModel, action: VtAction)
    requires
        t.on_alt(),
    ensures
        t.perform(action).primary.lines == t.primary.lines,
        t.perform(action).primary.scrollback == t.primary.scrollback,
        t.perform(action).primary.scrollback_limit == t.primary.scrollback_limit,
        t.perform(action).primary.new_rows == t.primary.new_rows,
{
    reveal(TermModel::perform);
    reveal(TermModel::csi);
    reveal(TermModel::osc);
    if let VtAction::Csi { params, .. } = action {
        lemma_modes_keep_primary_cells(t, params, params.len() as int, true);
        lemma_modes_keep_primary_cells(t, params, params.len() as int, false);
    }
}

/// Modes never change cells or history of the primary screen.
pub proof fn lemma_modes_keep_primary_cells(t: TermModel, params: Seq<Seq<u16>>, n: int, on: bool)
    ensures
        t.set_modes(params, n, on).primary.lines == t.primary.lines,
        t.set_modes(params, n, on).primary.scrollback == t.primary.scrollback,
        t.set_modes(params, n, on).primary.scrollback_limit == t.primary.scrollback_limit,
        t.set_modes(params, n, on).primary.new_rows == t.primary.new_rows,
    decreases n,
{
    if n > 0 {
        lemma_modes_keep_primary_cells(t, params, n - 1, on);
        lemma_mode_keeps_primary_cells(
            t.set_modes(params, n - 1, on),
            match sgr::value_at(params, n - 1) {
                Some(m) => m,
                None => 0,
            },
            on,
        );
    }
}

proof fn lemma_mode_keeps_primary_cells(t: TermModel, mode: u16, on: bool)
    ensures
        t.set_mode(mode, on).primary.lines == t.primary.lines,
        t.set_mode(mode, on).primary.scrollback == t.primary.scrollback,
        t.set_mode(mode, on).primary.scrollback_limit == t.primary.scrollback_limit,
        t.set_mode(mode, on).primary.new_rows == t.primary.new_rows,
{
    reveal(TermModel::set_mode);
}

/// A fresh alternate screen is blank and has no history, whichever mode
/// brought it up.
pub proof fn law_alt_screen_starts_blank(t: TermModel, mode: u16, r: int, c: int)
    requires
        t.wf(),
        !t.on_alt(),
        mode == 47 || mode == 1047 || mode == 1049,
        0 <= r < t.primary.rows,
        0 <= c < t.primary.cols,
    ensures
        t.set_mode(mode, true).on_alt(),
        t.set_mode(mode, true).screen().lines[r][c] == crate::grid::Pen::plain().blank(),
        t.set_mode(mode, true).screen().scrollback.len() == 0,
{
    reveal(TermModel::set_mode);
}

/// The terminal after characters were printed one after the other.
pub open spec fn printed(t: TermModel, bytes: Seq<u8>) -> TermModel
    decreases bytes.len(),
{
    if bytes.len() == 0 {
        t
    } else {
        let before = printed(t, bytes.drop_last());
        before.with_screen(before.screen().put_char(bytes.last() as char))
    }
}

/// Between sequences, plain text is shown as it stands, character by
/// character, and nothing else happens to the screens. While the view is
/// pinned to the live screen, nothing else happens at all but that new rows of
/// the history are counted.
pub proof fn law_plain_text_is_shown(t: TermModel, history: Seq<u8>, bytes: Seq<u8>)
    requires
        t.wf(),
        vt::idle(history),
        forall|i: int| 0 <= i < bytes.len() ==> vt::printable(#[trigger] bytes[i]),
    ensures
        t.run(history, bytes) == printed(t, bytes),
        t.viewport_offset == 0 ==> t.feed(history, bytes) == printed(t, bytes).counted(),
{
    lemma_text_is_printed(t, history, bytes);
    lemma_run_ignores_view(t.counted(), history, bytes, 0);
    lemma_run_ignores_view(t, history, bytes, 0);
    assert(t == view_laws::with_new_rows(t, t.primary.new_rows));
    view_laws::lemma_run_counts(t, t.primary.new_rows, history, bytes);
}

proof fn lemma_text_is_printed(t: TermModel, history: Seq<u8>, bytes: Seq<u8>)
    requires
        vt::idle(history),
        forall|i: int| 0 <= i < bytes.len() ==> vt::printable(#[trigger] bytes[i]),
    ensures
        t.run(history, bytes) == printed(t, bytes),
    decreases bytes.len(),
{
    if bytes.len() > 0 {
        let start = bytes.drop_last();
        lemma_text_is_printed(t, history, start);
        lemma_text_leaves_no_trace(history, start, bytes.last());
        let actions = vt::vt_actions(history + start, bytes.last());
        assert(vt::printable(bytes.last()));
        assert(vt::vt_actions(history.push(bytes.last()) + Seq::<u8>::empty(), 0)
            == vt::vt_actions(history + Seq::<u8>::empty(), 0));
        assert(actions == seq![VtAction::Print(bytes.last() as char)]);
        let mid = t.run(history, start);
        assert(actions.drop_last() =~= Seq::<VtAction>::empty());
        assert(mid.perform_all(actions.drop_last()) == mid);
        assert(mid.perform_all(actions) == mid.perform(actions.last()));
        reveal(TermModel::perform);
    }
}

/// What comes after plain text means what it would have meant before it.
proof fn lemma_text_leaves_no_trace(history: Seq<u8>, bytes: Seq<u8>, next: u8)
    requires
        vt::idle(history),
        forall|i: int| 0 <= i < bytes.len() ==> vt::printable(#[trigger] bytes[i]),
    ensures
        vt::vt_actions(history + bytes, next) == vt::vt_actions(history, next),
    decreases bytes.len(),
{
    if bytes.len() == 0 {
        assert(history + bytes =~= history);
    } else {
        let rest = bytes.drop_first();
        assert(history + bytes =~= history.push(bytes[0]) + rest);
        assert(vt::printable(bytes[0]));
        assert(vt::vt_actions(history.push(bytes[0]) + rest, next) == vt::vt_actions(
            history + rest,
            next,
        ));
        assert forall|i: int| 0 <= i < rest.len() implies vt::printable(#[trigger] rest[i]) by {
            assert(rest[i] == bytes[i + 1]);
        }
        lemma_text_leaves_no_trace(history, rest, next);
    }
}

/// The private mode that a parameter names.
pub open spec fn mode_at(params: Seq<Seq<u16>>, i: int) -> u16 {
    match sgr::value_at(params, i) {
        Some(mode) => mode,
        None => 0,
    }
}

/// A mode that stands for the alternate screen.
pub open spec fn is_screen_mode(mode: u16) -> bool {
    mode == 47 || mode == 1047 || mode == 1049
}

/// An action that leaves the alternate screen: it resets one of its modes.
pub open spec fn leaves_alt_screen(action: VtAction) -> bool {
    action matches VtAction::Csi { params, intermediates, action: name } && intermediates.len() > 0
        && intermediates[0] == 0x3f && name == 'l' && exists|i: int|
        0 <= i < params.len() && is_screen_mode(#[trigger] mode_at(params, i))
}

/// Whatever is done on the alternate screen until it is left, the primary one
/// comes back as it was: cells, history, cursor and pen.
pub proof fn law_alt_session_leaves_no_trace(t: TermModel, actions: Seq<VtAction>)
    requires
        !t.on_alt(),
        forall|i: int| 0 <= i < actions.len() ==> !leaves_alt_screen(#[trigger] actions[i]),
    ensures
        ({
            let back = t.set_mode(1049, true).perform_all(actions).set_mode(1049, false);
            &&& !back.on_alt()
            &&& back.primary == t.primary.save_cursor()
            &&& back.screen().lines == t.screen().lines
            &&& back.screen().scrollback == t.screen().scrollback
            &&& back.screen().cursor == t.screen().cursor
            &&& back.screen().pen == t.screen().pen
        }),
{
    reveal(TermModel::set_mode);
    lemma_actions_leave_primary(t.set_mode(1049, true), actions);
}

proof fn lemma_actions_leave_primary(t: TermModel, actions: Seq<VtAction>)
    requires
        t.on_alt(),
        forall|i: int| 0 <= i < actions.len() ==> !leaves_alt_screen(#[trigger] actions[i]),
    ensures
        t.perform_all(actions).on_alt(),
        t.perform_all(actions).primary == t.primary,
    decreases actions.len(),
{
    if actions.len() > 0 {
        let start = actions.drop_last();
        assert forall|i: int| 0 <= i < start.len() implies !leaves_alt_screen(
            #[trigger] start[i],
        ) by {
            assert(start[i] == actions[i]);
        }
        lemma_actions_leave_primary(t, start);
        lemma_action_leaves_primary(t.perform_all(start), actions.last());
    }
}

proof fn lemma_action_leaves_primary(t: TermModel, action: VtAction)
    requires
        t.on_alt(),
        !leaves_alt_screen(action),
    ensures
        t.perform(action).on_alt(),
        t.perform(action).primary == t.primary,
{
    reveal(TermModel::perform);
    reveal(TermModel::csi);
    reveal(TermModel::osc);
    if let VtAction::Csi { params, intermediates, action: name } = action {
        if intermediates.len() > 0 && intermediates[0] == 0x3f {
            if name == 'h' {
                lemma_modes_leave_primary(t, params, params.len() as int, true);
            } else if name == 'l' {
                lemma_modes_leave_primary(t, params, params.len() as int, false);
            }
        }
    }
}

proof fn lemma_modes_leave_primary(t: TermModel, params: Seq<Seq<u16>>, n: int, on: bool)
    requires
        t.on_alt(),
        n <= params.len(),
        on || forall|i: int| 0 <= i < n ==> !is_screen_mode(#[trigger] mode_at(params, i)),
    ensures
        t.set_modes(params, n, on).on_alt(),
        t.set_modes(params, n, on).primary == t.primary,
    decreases n,
{
    if n > 0 {
        reveal(TermModel::set_mode);
        lemma_modes_leave_primary(t, params, n - 1, on);
        assert(on || !is_screen_mode(mode_at(params, n - 1)));
    }
}

} // verus!
