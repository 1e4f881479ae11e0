//! Reading from the application: how reads are gathered into batches, and how
//! a pipe is read to its end.

use vstd::prelude::*;

use crate::text;

verus! {

/// How many bytes a batch holds at most.
pub const BATCH_BYTES: usize = 262_144;

/// How a read that does not block came out.
#[derive(Copy, Clone, Debug, PartialEq, Eq, Structural)]
pub enum ReadOutcome {
    /// This many bytes came, at least one.
    Bytes(usize),
    /// The other end is closed.
    End,
    /// A signal came in between.
    Interrupted,
    /// There is nothing to read now.
    Nothing,
    Failed,
}

/// What to do next.
#[derive(Copy, Clone, Debug, PartialEq, Eq, Structural)]
pub enum ReadStep {
    /// Read again.
    Read,
    /// Wait until there is something, then read.
    Wait,
    /// Take the batch in, and begin another.
    Deliver,
    /// Stop reading for good.
    Stop,
}

/// A batch that is being gathered.
#[derive(Copy, Clone, Debug, PartialEq, Eq, Structural)]
pub struct Batch {
    /// The bytes gathered so far.
    pub total: usize,
}

impl Batch {
    pub open spec fn wf(self) -> bool {
        self.total < BATCH_BYTES
    }

    /// A batch grows until there is nothing more to read at the moment, or it
    /// is full.
    pub open spec fn step(self, outcome: ReadOutcome) -> (Batch, ReadStep) {
        match outcome {
            ReadOutcome::Bytes(n) => {
                let grown = Batch { total: (self.total + n) as usize };
                if grown.total >= BATCH_BYTES {
                    (grown, ReadStep::Deliver)
                } else {
                    (grown, ReadStep::Read)
                }
            },
            ReadOutcome::End => if self.total > 0 {
                (self, ReadStep::Deliver)
            } else {
                (self, ReadStep::Stop)
            },
            ReadOutcome::Interrupted => (self, ReadStep::Read),
            ReadOutcome::Nothing => if self.total > 0 {
                (self, ReadStep::Deliver)
            } else {
                (self, ReadStep::Wait)
            },
            ReadOutcome::Failed => (self, ReadStep::Stop),
        }
    }

    /// An empty batch.
    pub fn new() -> (b: Batch)
        ensures
            b.total == 0,
            b.wf(),
    {
        Batch { total: 0 }
    }

    /// Takes in how a read came out. No read gives more than there is room for.
    pub fn advance(&mut self, outcome: ReadOutcome) -> (next: ReadStep)
        requires
            old(self).wf(),
            outcome matches ReadOutcome::Bytes(n) ==> 0 < n <= BATCH_BYTES - old(self).total,
        ensures
            (*final(self), next) == old(self).step(outcome),
            final(self).total <= BATCH_BYTES,
            next != ReadStep::Deliver ==> final(self).wf(),
    {
        match outcome {
            ReadOutcome::Bytes(n) => {
                self.total = self.total + n;
                if self.total >= BATCH_BYTES {
                    ReadStep::Deliver
                } else {
                    ReadStep::Read
                }
            },
            ReadOutcome::End => if self.total > 0 {
                ReadStep::Deliver
            } else {
                ReadStep::Stop
            },
            ReadOutcome::Interrupted => ReadStep::Read,
            ReadOutcome::Nothing => if self.total > 0 {
                ReadStep::Deliver
            } else {
                ReadStep::Wait
            },
            ReadOutcome::Failed => ReadStep::Stop,
        }
    }
}

/// What is delivered is never empty, and nothing is waited for while there is
/// something to deliver.
pub proof fn law_batches_hold_something(b: Batch, outcome: ReadOutcome)
    requires
        b.wf(),
        outcome matches ReadOutcome::Bytes(n) ==> 0 < n <= BATCH_BYTES - b.total,
    ensures
        b.step(outcome).1 == ReadStep::Deliver ==> b.step(outcome).0.total > 0,
        b.step(outcome).1 == ReadStep::Wait ==> b.total == 0,
{
}

/// How long reading a pipe may take, in nanoseconds.
pub const PIPE_NANOS: u64 = 500_000_000;

/// How long to wait for a pipe, in milliseconds, until a deadline.
pub open spec fn wait_millis(deadline: u64, now: u64) -> Option<int> {
    if now > deadline {
        None
    } else if (deadline - now) / 1_000_000 < 60_000 {
        Some((deadline - now) / 1_000_000)
    } else {
        Some(60_000)
    }
}

/// How long to wait for a pipe, in milliseconds: as long as is left until the
/// deadline, but at most a minute. Nothing after the deadline.
pub fn poll_millis(deadline: u64, now: u64) -> (millis: Option<i32>)
    ensures
        millis is Some <==> wait_millis(deadline, now) is Some,
        millis matches Some(m) ==> wait_millis(deadline, now) == Some(m as int),
        millis is None <==> now > deadline,
        millis matches Some(m) ==> m == (if (deadline - now) / 1_000_000 < 60_000 {
            (deadline - now) / 1_000_000
        } else {
            60_000
        }),
{
    if now > deadline {
        return None;
    }
    let left: u64 = (deadline - now) / 1_000_000;
    Some(
        if left < 60_000 {
            left as i32
        } else {
            60_000
        },
    )
}

/// The text read from a pipe so far.
pub struct PipeText {
    pub bytes: Vec<u8>,
}

impl PipeText {
    pub fn new() -> (p: PipeText)
        ensures
            p.bytes@ == Seq::<u8>::empty(),
    {
        PipeText { bytes: Vec::new() }
    }

    /// More bytes came.
    pub fn push(&mut self, more: &[u8])
        ensures
            final(self).bytes@ == old(self).bytes@ + more@,
    {
        text::push_bytes(&mut self.bytes, more);
    }

    /// The text, if the bytes are one.
    pub fn finish(self) -> (t: Option<String>)
        ensures
            t is Some <==> vstd::utf8::valid_utf8(self.bytes@),
            t matches Some(s) ==> s@ == vstd::utf8::decode_utf8(self.bytes@),
    {
        text::utf8_text(self.bytes)
    }
}

} // verus!
