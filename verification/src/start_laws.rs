//! What is decided at the start, and how other programs are read from.

use vstd::prelude::*;

use crate::clipboard::{Way, Ways};
use crate::offers;
use crate::reader;
use crate::reader::{Batch, ReadOutcome, ReadStep};
use crate::startup;
use crate::startup::{SurfaceKind, TimingRing};
use crate::text;

verus! {

/// Each sample of a surface counts one against it, transparency a hundred, and depth
/// and stencil one each, however much of them there is.
pub proof fn law_surfaces_are_compared(k: SurfaceKind, more: SurfaceKind)
    ensures
        k.samples == 0 && k.alpha == 0 && k.depth == 0 && k.stencil == 0 ==> startup::penalty(k)
            == 0,
        startup::penalty(more) - startup::penalty(SurfaceKind { samples: k.samples, ..more })
            == more.samples - k.samples,
        k.alpha == 0 && more.alpha > 0 ==> startup::penalty(more) - startup::penalty(
            SurfaceKind { alpha: k.alpha, ..more },
        ) == 100,
        k.depth == 0 && more.depth > 0 ==> startup::penalty(more) - startup::penalty(
            SurfaceKind { depth: k.depth, ..more },
        ) == 1,
        k.stencil == 0 && more.stencil > 0 ==> startup::penalty(more) - startup::penalty(
            SurfaceKind { stencil: k.stencil, ..more },
        ) == 1,
{
}

/// The ring after a number of frames.
pub open spec fn after_frames(n: nat) -> TimingRing
    decreases n,
{
    if n == 0 {
        TimingRing { next_slot: 0, primed: false }
    } else {
        after_frames((n - 1) as nat).stepped()
    }
}

/// The frames take four slots in turn, and a slot is read from the fourth frame on,
/// when each was written.
pub proof fn law_slots_take_turns(n: nat)
    ensures
        after_frames(n).next_slot == n % 4,
        after_frames(n).primed <==> n >= 4,
    decreases n,
{
    if n > 0 {
        law_slots_take_turns((n - 1) as nat);
    }
}

/// From the fifth frame on, the slot that comes next is read before it is written
/// again.
pub proof fn law_slots_are_read(n: nat)
    ensures
        n < 4 ==> after_frames(n).slot_read() is None,
        n >= 4 ==> (after_frames(n).slot_read() matches Some(slot) && slot == (n + 1) % 4),
{
    law_slots_take_turns(n);
    law_slots_take_turns(n + 1);
}

/// A switch is on if it is the digit one, or the four letters of `true` in either case.
pub proof fn law_switches(value: Seq<char>)
    ensures
        startup::switched_on(value) <==> {
            ||| value.len() == 1 && value[0] == '1'
            ||| {
                &&& value.len() == 4
                &&& value[0] == 't' || value[0] == 'T'
                &&& value[1] == 'r' || value[1] == 'R'
                &&& value[2] == 'u' || value[2] == 'U'
                &&& value[3] == 'e' || value[3] == 'E'
            }
        },
{
    reveal_strlit("1");
    reveal_strlit("true");
    let low = text::ascii_lowered(value);
    if value.len() == 1 && value[0] == '1' {
        assert(value =~= "1"@);
    }
    assert("1"@.len() == 1 && "1"@[0] == '1');
    assert("true"@.len() == 4);
    assert("true"@[0] == 't' && "true"@[1] == 'r' && "true"@[2] == 'u' && "true"@[3] == 'e');
    if value.len() == 4 {
        lemma_letter(value[0], 't', 'T');
        lemma_letter(value[1], 'r', 'R');
        lemma_letter(value[2], 'u', 'U');
        lemma_letter(value[3], 'e', 'E');
        if low[0] == 't' && low[1] == 'r' && low[2] == 'u' && low[3] == 'e' {
            assert(low =~= "true"@);
        }
    }
}

proof fn lemma_letter(c: char, lower: char, upper: char)
    requires
        'a' <= lower <= 'z',
        upper as int + 32 == lower as int,
    ensures
        text::ascii_lower(c) == lower <==> c == lower || c == upper,
{
}

/// A pipe is waited for until its deadline, in whole milliseconds, but no longer than a
/// minute at a time; after the deadline not at all.
pub proof fn law_pipes_have_a_deadline(deadline: u64, now: u64)
    ensures
        ({
            let wait = reader::wait_millis(deadline, now);
            let left = deadline - now;
            &&& left < 0 ==> wait is None
            &&& 0 <= left < 60_000_000_000 ==> (wait matches Some(m) && 1_000_000 * m <= left
                < 1_000_000 * m + 1_000_000)
            &&& left >= 60_000_000_000 ==> wait == Some(60_000int)
        }),
{
}

/// How good a kind of text is, the best first; five is none.
pub open spec fn rank(kind: Seq<char>) -> int {
    let low = text::ascii_lowered(kind);
    if low == "text/plain;charset=utf-8"@ {
        0
    } else if low == "text/plain"@ {
        1
    } else if low == "utf8_string"@ {
        2
    } else if low == "text"@ {
        3
    } else if low == "string"@ {
        4
    } else {
        5
    }
}

proof fn lemma_kinds(kind: Seq<char>)
    ensures
        offers::text_kinds().len() == 5,
        forall|k: int|
            0 <= k < 5 ==> (offers::same_kind(kind, #[trigger] offers::text_kinds()[k]) <==> rank(
                kind,
            ) == k),
{
    reveal_strlit("text/plain;charset=utf-8");
    reveal_strlit("text/plain");
    reveal_strlit("UTF8_STRING");
    reveal_strlit("TEXT");
    reveal_strlit("STRING");
    reveal_strlit("utf8_string");
    reveal_strlit("text");
    reveal_strlit("string");
    assert(text::ascii_lowered("text/plain;charset=utf-8"@) =~= "text/plain;charset=utf-8"@);
    assert(text::ascii_lowered("text/plain"@) =~= "text/plain"@);
    assert(text::ascii_lowered("UTF8_STRING"@) =~= "utf8_string"@);
    assert(text::ascii_lowered("TEXT"@) =~= "text"@);
    assert(text::ascii_lowered("STRING"@) =~= "string"@);
    assert("text/plain;charset=utf-8"@.len() == 24 && "text/plain"@.len() == 10);
    assert("utf8_string"@.len() == 11 && "text"@.len() == 4 && "string"@.len() == 6);
    let kinds = offers::text_kinds();
    assert(kinds[0] == "text/plain;charset=utf-8"@ && kinds[1] == "text/plain"@);
    assert(kinds[2] == "UTF8_STRING"@ && kinds[3] == "TEXT"@ && kinds[4] == "STRING"@);
    assert forall|k: int| 0 <= k < 5 implies (offers::same_kind(
        kind,
        #[trigger] offers::text_kinds()[k],
    ) <==> rank(kind) == k) by {
        assert(k == 0 || k == 1 || k == 2 || k == 3 || k == 4);
    }
}

proof fn lemma_first_of_kind(mimes: Seq<String>, kind: Seq<char>, i: int)
    requires
        0 <= i <= mimes.len(),
    ensures
        ({
            let n = offers::first_of_kind(mimes, kind, i);
            &&& i <= n <= mimes.len()
            &&& n < mimes.len() ==> offers::same_kind(mimes[n]@, kind)
            &&& forall|j: int| i <= j < n ==> !offers::same_kind((#[trigger] mimes[j])@, kind)
        }),
    decreases mimes.len() - i,
{
    if i < mimes.len() && !offers::same_kind(mimes[i]@, kind) {
        lemma_first_of_kind(mimes, kind, i + 1);
    }
}

proof fn lemma_best_offer(mimes: Seq<String>, k: int)
    requires
        0 <= k <= 5,
        forall|j: int| 0 <= j < mimes.len() ==> rank((#[trigger] mimes[j])@) >= k,
    ensures
        match offers::best_offer(mimes, k) {
            None => forall|j: int| 0 <= j < mimes.len() ==> rank((#[trigger] mimes[j])@) == 5,
            Some(i) => {
                &&& 0 <= i < mimes.len()
                &&& rank(mimes[i]@) < 5
                &&& forall|j: int|
                    0 <= j < mimes.len() ==> rank(mimes[i]@) <= rank((#[trigger] mimes[j])@)
                &&& forall|j: int| 0 <= j < i ==> rank(mimes[i]@) < rank((#[trigger] mimes[j])@)
            },
        },
    decreases 5 - k,
{
    let kinds = offers::text_kinds();
    assert(kinds.len() == 5);
    if k < 5 {
        let i = offers::first_of_kind(mimes, kinds[k], 0);
        lemma_first_of_kind(mimes, kinds[k], 0);
        assert forall|j: int| 0 <= j < mimes.len() implies (offers::same_kind(
            (#[trigger] mimes[j])@,
            kinds[k],
        ) <==> rank(mimes[j]@) == k) by {
            lemma_kinds(mimes[j]@);
        }
        if i == mimes.len() {
            lemma_best_offer(mimes, k + 1);
        }
    }
}

/// Of the offers of a clipboard, the first of the best kind of text is taken, whatever
/// the case of its letters: UTF-8, plain text, and three older names. None is taken if
/// none is text.
pub proof fn law_best_offer_is_taken(mimes: Seq<String>)
    ensures
        match offers::best_offer(mimes, 0) {
            None => forall|j: int| 0 <= j < mimes.len() ==> rank((#[trigger] mimes[j])@) == 5,
            Some(i) => {
                &&& 0 <= i < mimes.len()
                &&& rank(mimes[i]@) < 5
                &&& forall|j: int|
                    0 <= j < mimes.len() ==> rank(mimes[i]@) <= rank((#[trigger] mimes[j])@)
                &&& forall|j: int| 0 <= j < i ==> rank(mimes[i]@) < rank((#[trigger] mimes[j])@)
            },
        },
{
    lemma_best_offer(mimes, 0);
}

/// The ways to the clipboard: the compositor for reading, the programs where there is
/// a compositor, and the desktop's clipboard but not for the primary selection, in this
/// order.
pub proof fn law_ways_to_the_clipboard(w: Ways, writing: bool, primary: bool, i: int, j: int)
    ensures
        ({
            let ways = w.order(writing, primary);
            let turn = |way: Way|
                match way {
                    Way::Compositor => 1int,
                    Way::Program => 2,
                    Way::Desktop => 3,
                };
            &&& ways.contains(Way::Compositor) <==> w.compositor && !writing
            &&& ways.contains(Way::Program) <==> w.compositor && w.programs
            &&& ways.contains(Way::Desktop) <==> w.desktop && !primary
            &&& 0 <= i < j < ways.len() ==> turn(ways[i]) < turn(ways[j])
        }),
{
    let all = seq![Way::Compositor, Way::Program, Way::Desktop];
    let keep = |way: Way| w.has(way, writing, primary);
    let ways = w.order(writing, primary);
    reveal(Seq::filter);
    let first = all.drop_last().drop_last();
    assert(first.drop_last() =~= Seq::<Way>::empty());
    assert(first.drop_last().filter(keep) =~= Seq::<Way>::empty());
    assert(first.last() == Way::Compositor);
    let one = first.filter(keep);
    assert(one == if w.compositor && !writing {
        first.drop_last().filter(keep).push(Way::Compositor)
    } else {
        first.drop_last().filter(keep)
    });
    assert(all.drop_last().last() == Way::Program);
    let two = all.drop_last().filter(keep);
    assert(two == if w.compositor && w.programs {
        one.push(Way::Program)
    } else {
        one
    });
    assert(all.last() == Way::Desktop);
    assert(ways == if w.desktop && !primary {
        two.push(Way::Desktop)
    } else {
        two
    });
    if w.compositor && !writing {
        assert(ways[0] == Way::Compositor);
    }
    if w.compositor && w.programs {
        assert(ways[one.len() as int] == Way::Program);
    }
    if w.desktop && !primary {
        assert(ways[two.len() as int] == Way::Desktop);
    }
}

/// Reads are gathered up to a quarter of a megabyte. What was gathered is taken in when
/// there is no more to read now or ever; with nothing gathered, the reader waits or
/// stops. A signal changes nothing, and a failure ends the reading.
pub proof fn law_reads_are_gathered(b: Batch, n: usize)
    requires
        b.total < 262_144,
        0 < n <= 262_144 - b.total,
    ensures
        b.step(ReadOutcome::Bytes(n)).0.total == b.total + n,
        b.step(ReadOutcome::Bytes(n)).1 == (if b.total + n == 262_144 {
            ReadStep::Deliver
        } else {
            ReadStep::Read
        }),
        b.step(ReadOutcome::Nothing) == (b, if b.total == 0 {
            ReadStep::Wait
        } else {
            ReadStep::Deliver
        }),
        b.step(ReadOutcome::End) == (b, if b.total == 0 {
            ReadStep::Stop
        } else {
            ReadStep::Deliver
        }),
        b.step(ReadOutcome::Interrupted) == (b, ReadStep::Read),
        b.step(ReadOutcome::Failed) == (b, ReadStep::Stop),
{
}

} // verus!
