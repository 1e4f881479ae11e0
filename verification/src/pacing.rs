//! When to draw: the cap on the frame rate, bursts of output, and the blinking
//! cursor. Times are in nanoseconds since some fixed moment.

use vstd::prelude::*;

use crate::config;
use crate::grid::CursorShape;
use crate::text;

verus! {

/// After this long without a frame, the next one is drawn at once.
pub const IDLE_NANOS: u64 = 100_000_000;

pub const MIN_FRAME_HZ: u32 = 60;

pub const MAX_FRAME_HZ: u32 = 240;

/// The frame rate where nothing says otherwise.
pub const DEFAULT_FRAME_HZ: u32 = 120;

/// The cursor is on for this long, then off for as long.
pub const BLINK_HALF_NANOS: u64 = 500_000_000;

/// This many bytes at once are a burst.
pub const BURST_BYTES: usize = 4096;

/// How much longer the time between frames is during a burst.
pub const BURST_FRAME_MULTIPLIER: u64 = 3;

/// How many frames a burst lasts after the last large read.
pub const BURST_HOLDOFF_FRAMES: u32 = 6;

/// A frame rate within its bounds.
pub open spec fn capped(hz: int) -> u32 {
    if hz < MIN_FRAME_HZ {
        MIN_FRAME_HZ
    } else if hz > MAX_FRAME_HZ {
        MAX_FRAME_HZ
    } else {
        hz as u32
    }
}

/// The frame rate: what the environment says, else what the configuration
/// says, where zero means nothing, else that of the monitor, else the default.
pub open spec fn frame_rate(
    env: Option<u32>,
    configured: Option<u32>,
    monitor_millihertz: Option<u32>,
) -> u32 {
    capped(
        match (env, configured, monitor_millihertz) {
            (Some(hz), _, _) => hz as int,
            (None, Some(hz), m) if hz > 0 => hz as int,
            (None, _, Some(mhz)) => (mhz + 500) / 1000,
            (None, _, None) => DEFAULT_FRAME_HZ as int,
        },
    )
}

/// The value of the environment variable, if it is a number.
pub open spec fn env_rate(env: Option<&str>) -> Option<u32> {
    match env {
        Some(s) => match config::u32_of(s@) {
            Ok(hz) => Some(hz),
            Err(_) => None,
        },
        None => None,
    }
}

/// Decides on the frame rate; see [`frame_rate`].
pub fn pick_frame_rate(
    env: Option<&str>,
    configured: Option<u32>,
    monitor_millihertz: Option<u32>,
) -> (hz: u32)
    ensures
        hz == frame_rate(env_rate(env), configured, monitor_millihertz),
        MIN_FRAME_HZ <= hz <= MAX_FRAME_HZ,
{
    let asked: Option<u32> = match env {
        Some(s) => match config::read_u32(text::chars_of(s).as_slice()) {
            Ok(hz) => Some(hz),
            Err(_) => None,
        },
        None => None,
    };
    let wanted: u64 = match asked {
        Some(hz) => hz as u64,
        None => match configured {
            Some(hz) if hz > 0 => hz as u64,
            _ => match monitor_millihertz {
                Some(mhz) => (mhz as u64 + 500) / 1000,
                None => DEFAULT_FRAME_HZ as u64,
            },
        },
    };
    if wanted < MIN_FRAME_HZ as u64 {
        MIN_FRAME_HZ
    } else if wanted > MAX_FRAME_HZ as u64 {
        MAX_FRAME_HZ
    } else {
        wanted as u32
    }
}

/// The time between frames at a frame rate, to the nearest nanosecond.
pub open spec fn interval_of(hz: u32) -> int {
    (1_000_000_000 + hz as int / 2) / hz as int
}

/// The time between frames at a frame rate, to the nearest nanosecond.
pub fn frame_interval(hz: u32) -> (nanos: u64)
    requires
        hz > 0,
    ensures
        nanos == (1_000_000_000 + hz as int / 2) / hz as int,
        nanos == interval_of(hz),
{
    (1_000_000_000 + hz as u64 / 2) / hz as u64
}

/// How long ago a moment was.
pub open spec fn since(then: u64, now: u64) -> int {
    if now > then {
        now - then
    } else {
        0
    }
}

/// A moment some time later, as far as the clock goes.
pub open spec fn later(then: u64, by: int) -> u64 {
    if then + by <= u64::MAX {
        (then + by) as u64
    } else {
        u64::MAX
    }
}

/// The shapes that blink.
pub open spec fn blinks(shape: CursorShape) -> bool {
    shape == CursorShape::Bar || shape == CursorShape::Underline
}

/// The cursor is in the on half of its blinking.
pub open spec fn lit(epoch: u64, now: u64) -> bool {
    (since(epoch, now) / BLINK_HALF_NANOS as int) % 2 == 0
}

/// The next moment at which the cursor goes on or off.
pub open spec fn toggle_after(epoch: u64, now: u64) -> u64 {
    later(epoch, (since(epoch, now) / BLINK_HALF_NANOS as int + 1) * BLINK_HALF_NANOS)
}

/// What to do before waiting for the next event.
#[derive(Copy, Clone, Debug, PartialEq, Eq, Structural)]
pub enum Wake {
    /// Wait as before.
    Unchanged,
    /// Ask for a frame now.
    Redraw,
    /// Wait until a moment at the latest.
    At(u64),
}

/// What is known of the frames drawn and to draw.
#[derive(Copy, Clone, Debug, PartialEq, Eq, Structural)]
pub struct Pacing {
    /// A frame was asked for and not drawn yet.
    pub redraw_pending: bool,
    /// There is something to show.
    pub dirty: bool,
    pub last_render: Option<u64>,
    /// The least time between frames.
    pub frame_interval: u64,
    /// When the blinking cursor last began to be on.
    pub blink_epoch: u64,
    /// How many more frames the burst lasts.
    pub burst_holdoff: u32,
}

impl Pacing {
    /// The least time between frames as things are.
    pub open spec fn spacing(self) -> int {
        if self.burst_holdoff > 0 {
            self.frame_interval * BURST_FRAME_MULTIPLIER
        } else {
            self.frame_interval as int
        }
    }

    /// A frame may be drawn.
    pub open spec fn due(self, now: u64) -> bool {
        match self.last_render {
            None => true,
            Some(t) => since(t, now) >= self.spacing() || since(t, now) >= IDLE_NANOS,
        }
    }

    /// A frame is asked for, if one may be drawn and none was asked for yet.
    pub open spec fn asks(self, now: u64) -> bool {
        !self.redraw_pending && self.due(now)
    }

    /// The cursor changed between on and off since the last frame.
    pub open spec fn toggled(self, now: u64) -> bool {
        self.last_render matches Some(t) && lit(self.blink_epoch, t) != lit(
            self.blink_epoch,
            now,
        )
    }

    /// What to do before waiting for the next event.
    pub open spec fn plan(self, now: u64, blinking: bool) -> (Pacing, Wake) {
        let seen = if blinking && !self.redraw_pending && self.toggled(now) {
            Pacing { dirty: true, ..self }
        } else {
            self
        };
        if seen.redraw_pending {
            (seen, Wake::Unchanged)
        } else if !seen.dirty {
            if blinking {
                (seen, Wake::At(toggle_after(self.blink_epoch, now)))
            } else {
                (seen, Wake::Unchanged)
            }
        } else if seen.due(now) {
            (Pacing { redraw_pending: true, ..seen }, Wake::Redraw)
        } else {
            (seen, Wake::At(later(self.last_render->0, self.spacing())))
        }
    }

    /// After a frame.
    pub open spec fn drawn(self, now: u64) -> Pacing {
        Pacing {
            redraw_pending: false,
            dirty: false,
            last_render: Some(now),
            burst_holdoff: if self.burst_holdoff > 0 {
                (self.burst_holdoff - 1) as u32
            } else {
                0
            },
            ..self
        }
    }

    /// After a read of so many bytes.
    pub open spec fn fed(self, bytes: usize) -> Pacing {
        if bytes == 0 {
            self
        } else {
            Pacing {
                dirty: true,
                burst_holdoff: if bytes >= BURST_BYTES {
                    BURST_HOLDOFF_FRAMES
                } else {
                    self.burst_holdoff
                },
                ..self
            }
        }
    }

    /// After frames at several moments.
    pub open spec fn after_frames(self, times: Seq<u64>) -> Pacing
        decreases times.len(),
    {
        if times.len() == 0 {
            self
        } else {
            self.after_frames(times.drop_last()).drawn(times.last())
        }
    }

    /// Before the first frame.
    pub fn new(frame_interval: u64, now: u64) -> (p: Pacing)
        ensures
            p == (Pacing {
                redraw_pending: false,
                dirty: false,
                last_render: None,
                frame_interval,
                blink_epoch: now,
                burst_holdoff: 0,
            }),
    {
        Pacing {
            redraw_pending: false,
            dirty: false,
            last_render: None,
            frame_interval,
            blink_epoch: now,
            burst_holdoff: 0,
        }
    }

    /// Output was read, this many bytes at once.
    pub fn output(&mut self, bytes: usize)
        ensures
            *final(self) == (if bytes == 0 {
                *old(self)
            } else {
                Pacing {
                    dirty: true,
                    burst_holdoff: if bytes >= BURST_BYTES {
                        BURST_HOLDOFF_FRAMES
                    } else {
                        old(self).burst_holdoff
                    },
                    ..*old(self)
                }
            }),
            *final(self) == old(self).fed(bytes),
    {
        if bytes == 0 {
            return ;
        }
        if bytes >= BURST_BYTES {
            self.burst_holdoff = BURST_HOLDOFF_FRAMES;
        }
        self.dirty = true;
    }

    /// A key went down, which ends a burst.
    pub fn key_pressed(&mut self)
        ensures
            *final(self) == (Pacing { burst_holdoff: 0, ..*old(self) }),
    {
        self.burst_holdoff = 0;
    }

    /// Something was typed, which lights the cursor.
    pub fn typed(&mut self, now: u64)
        ensures
            *final(self) == (Pacing { blink_epoch: now, ..*old(self) }),
    {
        self.blink_epoch = now;
    }

    /// A frame was drawn.
    pub fn rendered(&mut self, now: u64)
        ensures
            *final(self) == old(self).drawn(now),
    {
        self.redraw_pending = false;
        self.dirty = false;
        self.last_render = Some(now);
        if self.burst_holdoff > 0 {
            self.burst_holdoff = self.burst_holdoff - 1;
        }
    }

    fn may_draw(&self, now: u64) -> (due: bool)
        ensures
            due == self.due(now),
    {
        match self.last_render {
            None => true,
            Some(t) => {
                let elapsed: u64 = if now > t {
                    now - t
                } else {
                    0
                };
                elapsed as u128 >= self.current_spacing() || elapsed >= IDLE_NANOS
            },
        }
    }

    fn current_spacing(&self) -> (nanos: u128)
        ensures
            nanos == self.spacing(),
    {
        if self.burst_holdoff > 0 {
            self.frame_interval as u128 * BURST_FRAME_MULTIPLIER as u128
        } else {
            self.frame_interval as u128
        }
    }

    /// Whether to ask for a frame now.
    pub fn maybe_request_redraw(&mut self, now: u64) -> (asked: bool)
        ensures
            asked == old(self).asks(now),
            *final(self) == (Pacing {
                redraw_pending: old(self).redraw_pending || asked,
                ..*old(self)
            }),
    {
        if self.redraw_pending || !self.may_draw(now) {
            return false;
        }
        self.redraw_pending = true;
        true
    }

    /// Whether there is nothing to plan, whatever the time is, so that the
    /// clock need not be read.
    pub fn at_rest(&self, blinking: bool) -> (rest: bool)
        ensures
            rest == (!blinking && (!self.dirty || self.redraw_pending)),
            rest ==> forall|now: u64| #[trigger]
                self.plan(now, blinking) == (*self, Wake::Unchanged),
    {
        !blinking && (!self.dirty || self.redraw_pending)
    }

    /// What to do before waiting for the next event; see [`Pacing::plan`].
    pub fn about_to_wait(&mut self, now: u64, blinking: bool) -> (wake: Wake)
        ensures
            (*final(self), wake) == old(self).plan(now, blinking),
    {
        if blinking && !self.redraw_pending {
            if let Some(t) = self.last_render {
                if is_lit(self.blink_epoch, t) != is_lit(self.blink_epoch, now) {
                    self.dirty = true;
                }
            }
        }
        if self.redraw_pending {
            return Wake::Unchanged;
        }
        if !self.dirty {
            return if blinking {
                Wake::At(next_blink_toggle(self.blink_epoch, now))
            } else {
                Wake::Unchanged
            };
        }
        if self.may_draw(now) {
            self.redraw_pending = true;
            return Wake::Redraw;
        }
        match self.last_render {
            None => Wake::Unchanged,
            Some(t) => {
                let at: u128 = t as u128 + self.current_spacing();
                Wake::At(
                    if at <= u64::MAX as u128 {
                        at as u64
                    } else {
                        u64::MAX
                    },
                )
            },
        }
    }
}

/// Whether a cursor shape blinks. A block, also a hollow one, stays steady.
pub fn cursor_blinks(shape: CursorShape) -> (b: bool)
    ensures
        b == blinks(shape),
{
    match shape {
        CursorShape::Block => false,
        CursorShape::HollowBlock => false,
        CursorShape::Bar => true,
        CursorShape::Underline => true,
    }
}

fn is_lit(epoch: u64, now: u64) -> (on: bool)
    ensures
        on == lit(epoch, now),
{
    let elapsed: u64 = if now > epoch {
        now - epoch
    } else {
        0
    };
    (elapsed / BLINK_HALF_NANOS) % 2 == 0
}

/// Whether the cursor is drawn at a moment.
pub fn cursor_visible_now(shape: CursorShape, blink_epoch: u64, now: u64) -> (visible: bool)
    ensures
        visible == (!blinks(shape) || lit(blink_epoch, now)),
{
    !cursor_blinks(shape) || is_lit(blink_epoch, now)
}

/// A frame shows the cursor of the terminal.
pub open spec fn cursor_is_shown(
    focused: bool,
    shape: CursorShape,
    blink_epoch: u64,
    now: u64,
) -> bool {
    focused && (!blinks(shape) || lit(blink_epoch, now))
}

/// Whether a frame shows the cursor of the terminal: only in a window that has
/// the keyboard, and of a cursor that blinks only the half in which it is on.
pub fn cursor_shown(focused: bool, shape: CursorShape, blink_epoch: u64, now: u64) -> (shown: bool)
    ensures
        shown == cursor_is_shown(focused, shape, blink_epoch, now),
        shown == (focused && (!blinks(shape) || lit(blink_epoch, now))),
{
    focused && cursor_visible_now(shape, blink_epoch, now)
}

/// The next moment at which a blinking cursor goes on or off.
pub fn next_blink_toggle(blink_epoch: u64, now: u64) -> (at: u64)
    ensures
        at == toggle_after(blink_epoch, now),
{
    let elapsed: u64 = if now > blink_epoch {
        now - blink_epoch
    } else {
        0
    };
    let half: u128 = 500_000_000;
    let after: u128 = (elapsed / BLINK_HALF_NANOS + 1) as u128 * half;
    let at: u128 = blink_epoch as u128 + after;
    if at <= u64::MAX as u128 {
        at as u64
    } else {
        u64::MAX
    }
}

/// Waiting and asking go by the same deadline: with something to show, a frame
/// comes out of waiting exactly when it could have been asked for.
pub proof fn law_both_paths_agree(p: Pacing, now: u64, blinking: bool)
    requires
        p.dirty,
    ensures
        p.plan(now, blinking).1 == Wake::Redraw <==> p.asks(now),
{
}

/// Output is shown at the latest a tenth of a second after the last frame.
pub proof fn law_latency_is_bounded(p: Pacing, then: u64, now: u64)
    requires
        p.dirty,
        !p.redraw_pending,
        p.last_render == Some(then),
        now - then >= IDLE_NANOS,
    ensures
        p.plan(now, false).1 == Wake::Redraw,
{
}

/// A frame is never drawn sooner than the frame interval after the last one,
/// unless there has been none for a tenth of a second.
pub proof fn law_frame_rate_is_capped(p: Pacing, then: u64, now: u64)
    requires
        p.last_render == Some(then),
        p.asks(now),
    ensures
        since(then, now) >= p.frame_interval || since(then, now) >= IDLE_NANOS,
{
}

/// A burst is over after six frames without another large read.
pub proof fn law_burst_ends(p: Pacing, times: Seq<u64>)
    requires
        p.burst_holdoff <= BURST_HOLDOFF_FRAMES,
        times.len() >= BURST_HOLDOFF_FRAMES,
    ensures
        p.after_frames(times).spacing() == p.frame_interval,
{
    lemma_holdoff_counts_down(p, times);
}

proof fn lemma_holdoff_counts_down(p: Pacing, times: Seq<u64>)
    ensures
        p.after_frames(times).frame_interval == p.frame_interval,
        p.after_frames(times).burst_holdoff == (if p.burst_holdoff > times.len() {
            p.burst_holdoff - times.len()
        } else {
            0
        }),
    decreases times.len(),
{
    if times.len() > 0 {
        lemma_holdoff_counts_down(p, times.drop_last());
    }
}

/// A key ends a burst at once.
pub proof fn law_typing_ends_a_burst(p: Pacing)
    ensures
        (Pacing { burst_holdoff: 0, ..p }).spacing() == p.frame_interval,
{
}

/// The cursor changes exactly at the toggle, and not before.
pub proof fn law_cursor_toggles_in_time(epoch: u64, now: u64, between: u64)
    requires
        epoch <= now <= between < toggle_after(epoch, now),
        toggle_after(epoch, now) < u64::MAX,
    ensures
        lit(epoch, between) == lit(epoch, now),
        lit(epoch, toggle_after(epoch, now)) != lit(epoch, now),
{
    let half = BLINK_HALF_NANOS as int;
    let k = since(epoch, now) / half;
    assert(k * half <= since(epoch, now) < (k + 1) * half) by (nonlinear_arith)
        requires
            k == since(epoch, now) / half,
            half == 500_000_000,
    ;
    assert(since(epoch, toggle_after(epoch, now)) / half == k + 1);
    assert(since(epoch, between) / half == k);
}

} // verus!
