//! When frames are drawn, and when a cursor that blinks is there.

use vstd::prelude::*;

use crate::grid::CursorShape;
use crate::pacing;
use crate::pacing::{Pacing, Wake};

verus! {

/// How long ago a moment was.
pub open spec fn ago(then: u64, now: u64) -> int {
    if now >= then {
        now - then
    } else {
        0
    }
}

/// A frame rate is what the environment asks for, else what the configuration does
/// unless it is zero, else the nearest whole number to that of the monitor, else 120;
/// but never below 60 nor above 240.
pub proof fn law_frame_rate_is_found(
    env: Option<u32>,
    configured: Option<u32>,
    monitor: Option<u32>,
    other: Option<u32>,
)
    ensures
        ({
            let within = |rate: u32, asked: int|
                {
                    &&& 60 <= rate <= 240
                    &&& 60 <= asked <= 240 ==> rate == asked
                    &&& asked < 60 ==> rate == 60
                    &&& asked > 240 ==> rate == 240
                };
            let rate = pacing::frame_rate(env, configured, monitor);
            &&& env matches Some(hz) ==> within(rate, hz as int)
            &&& env is None && configured is Some && configured->0 > 0 ==> within(
                rate,
                configured->0 as int,
            )
            &&& env is None && (configured is None || configured->0 == 0) ==> {
                &&& monitor is None ==> rate == 120
                &&& monitor matches Some(m) ==> exists|hz: int|
                    #[trigger] within(rate, hz) && -500 <= m - 1000 * hz < 500
            }
        }),
{
    let rate = pacing::frame_rate(env, configured, monitor);
    let within = |rate: u32, asked: int|
        {
            &&& 60 <= rate <= 240
            &&& 60 <= asked <= 240 ==> rate == asked
            &&& asked < 60 ==> rate == 60
            &&& asked > 240 ==> rate == 240
        };
    if env is None && (configured is None || configured->0 == 0) {
        if let Some(m) = monitor {
            let hz = (m + 500) / 1000;
            assert(within(rate, hz));
        }
    }
}

/// The time between frames, as often as there are frames in a second, is a second, up
/// to half a nanosecond for each frame.
pub proof fn law_interval_fits_the_rate(hz: u32)
    requires
        hz > 0,
    ensures
        ({
            let total = pacing::interval_of(hz) * hz;
            1_000_000_000 - (hz + 1) / 2 <= total <= 1_000_000_000 + hz / 2
        }),
{
    let n = hz as int;
    let q = (1_000_000_000 + n / 2) / n;
    assert(q * n <= 1_000_000_000 + n / 2 && 1_000_000_000 + n / 2 < q * n + n)
        by (nonlinear_arith)
        requires
            q == (1_000_000_000 + n / 2) / n,
            n > 0,
    ;
}

/// There may be a frame before the first one, after a tenth of a second without any,
/// and when the time between frames is over, which is three times as long in a burst.
pub proof fn law_frame_is_due(p: Pacing, now: u64)
    ensures
        p.last_render is None ==> p.due(now),
        p.last_render matches Some(t) ==> {
            let spacing = if p.burst_holdoff > 0 {
                3 * p.frame_interval
            } else {
                p.frame_interval as int
            };
            p.due(now) <==> ago(t, now) >= spacing || ago(t, now) >= 100_000_000
        },
        p.asks(now) <==> p.due(now) && !p.redraw_pending,
{
}

/// Four kilobytes at once begin a burst of six frames. Any output is to be shown.
pub proof fn law_output_is_to_be_shown(p: Pacing, bytes: usize)
    ensures
        ({
            let after = p.fed(bytes);
            &&& bytes == 0 ==> after == p
            &&& bytes > 0 ==> after.dirty
            &&& bytes >= 4096 ==> after.burst_holdoff == 6
            &&& bytes < 4096 ==> after.burst_holdoff == p.burst_holdoff
            &&& after.last_render == p.last_render && after.redraw_pending == p.redraw_pending
            &&& after.frame_interval == p.frame_interval && after.blink_epoch == p.blink_epoch
        }),
{
}

/// After a frame there is nothing to show and none asked for; a burst is one frame
/// shorter.
pub proof fn law_frame_is_drawn(p: Pacing, now: u64)
    ensures
        ({
            let after = p.drawn(now);
            &&& !after.dirty && !after.redraw_pending
            &&& after.last_render == Some(now)
            &&& p.burst_holdoff > 0 ==> after.burst_holdoff == p.burst_holdoff - 1
            &&& p.burst_holdoff == 0 ==> after.burst_holdoff == 0
            &&& after.frame_interval == p.frame_interval && after.blink_epoch == p.blink_epoch
        }),
{
}

/// The cursor is on for half a second and off for half a second, from its epoch on.
pub proof fn law_cursor_is_on_and_off(epoch: u64, now: u64)
    requires
        epoch <= now,
    ensures
        pacing::lit(epoch, now) <==> (now - epoch) % 1_000_000_000 < 500_000_000,
        now < u64::MAX - 500_000_000 ==> {
            let at = pacing::toggle_after(epoch, now);
            &&& now < at <= now + 500_000_000
            &&& (at - epoch) % 500_000_000 == 0
        },
{
    let d = now - epoch;
    assert((d / 500_000_000) % 2 == 0 <==> d % 1_000_000_000 < 500_000_000) by (nonlinear_arith)
        requires
            d >= 0,
    ;
    let k = d / 500_000_000 + 1;
    assert((k * 500_000_000) % 500_000_000 == 0) by (nonlinear_arith);
}

/// Bars and lines below the text blink; blocks do not, filled or not.
pub proof fn law_which_shapes_blink()
    ensures
        pacing::blinks(CursorShape::Bar),
        pacing::blinks(CursorShape::Underline),
        !pacing::blinks(CursorShape::Block),
        !pacing::blinks(CursorShape::HollowBlock),
{
}

/// A window without the keyboard shows no cursor. One that has it shows a block all the
/// time, and a bar or a line in the first half of every second since the cursor was lit.
pub proof fn law_cursor_is_shown(focused: bool, shape: CursorShape, epoch: u64, now: u64)
    requires
        epoch <= now,
    ensures
        ({
            let shown = pacing::cursor_is_shown(focused, shape, epoch, now);
            let steady = shape == CursorShape::Block || shape == CursorShape::HollowBlock;
            &&& !focused ==> !shown
            &&& focused && steady ==> shown
            &&& focused && !steady ==> (shown <==> (now - epoch) % 1_000_000_000 < 500_000_000)
        }),
{
    law_cursor_is_on_and_off(epoch, now);
}

/// Before waiting: with a frame asked for, nothing is to do. With something to show,
/// a frame is asked for if there may be one, and else the wait ends when there may. With
/// nothing to show, it ends when a cursor that blinks goes on or off; if it did so since
/// the last frame, there is something to show.
pub proof fn law_waiting_for_the_next_frame(p: Pacing, now: u64, blinking: bool)
    requires
        p.frame_interval <= u32::MAX,
        p.last_render matches Some(t) ==> t <= u32::MAX * 1_000_000_000,
    ensures
        ({
            let (after, wake) = p.plan(now, blinking);
            let changed = blinking && (p.last_render matches Some(t) && pacing::lit(
                p.blink_epoch,
                t,
            ) != pacing::lit(p.blink_epoch, now));
            let spacing = if p.burst_holdoff > 0 {
                3 * p.frame_interval
            } else {
                p.frame_interval as int
            };
            let shows = p.dirty || changed;
            &&& p.redraw_pending ==> after == p && wake == Wake::Unchanged
            &&& !p.redraw_pending && shows && p.due(now) ==> {
                &&& wake == Wake::Redraw
                &&& after == (Pacing { dirty: true, redraw_pending: true, ..p })
            }
            &&& !p.redraw_pending && shows && !p.due(now) ==> {
                &&& wake matches Wake::At(at) && at == p.last_render->0 + spacing
                &&& after == (Pacing { dirty: true, ..p })
            }
            &&& !p.redraw_pending && !shows ==> {
                &&& after == p
                &&& blinking ==> wake == Wake::At(pacing::toggle_after(p.blink_epoch, now))
                &&& !blinking ==> wake == Wake::Unchanged
            }
        }),
{
}

} // verus!
