//! The jitter buffer as a mathematical value: a bounded window of slots, the
//! sequence number expected next, and the counters.
//!
//! Sequence numbers count frames and wrap at 2^32. A number is *ahead* of the
//! expected one when it lies less than half the range in front of it, and
//! *behind* otherwise.

use crate::frame::silence_frame;
use vstd::prelude::*;

verus! {

/// Half the range of a sequence number.
pub const HALF_RANGE: u32 = 0x8000_0000;

/// Observable counters. Each one stops at `u64::MAX`.
#[derive(Clone, Copy, Debug, PartialEq, Eq, Structural)]
pub struct Metrics {
    /// Frames refused: too late, duplicate, or of the wrong width.
    pub dropped: u64,
    /// Unread slots discarded to make room for newer ones.
    pub overruns: u64,
    /// Pulls that found fewer resident slots than requested.
    pub underruns: u64,
    /// How often the window was cleared.
    pub resets: u64,
}

/// `counter + by`, stopping at `u64::MAX`.
pub open spec fn bump(counter: u64, by: nat) -> u64 {
    if counter + by > u64::MAX {
        u64::MAX
    } else {
        (counter + by) as u64
    }
}

/// The sequence number `steps` frames after `seq`.
pub open spec fn seq_after(seq: u32, steps: nat) -> u32 {
    ((seq + steps) % 0x1_0000_0000) as u32
}

/// How many frames `seq` lies in front of `base`, going round the range.
pub open spec fn seq_distance(base: u32, seq: u32) -> nat {
    if seq >= base {
        (seq - base) as nat
    } else {
        (seq - base + 0x1_0000_0000) as nat
    }
}

/// `count` empty slots: the place of frames that never arrived.
pub open spec fn gaps(count: nat) -> Seq<Option<Seq<i16>>> {
    Seq::new(count, |i: int| None::<Seq<i16>>)
}

/// Each frame as an occupied slot.
pub open spec fn occupied(frames: Seq<Seq<i16>>) -> Seq<Option<Seq<i16>>> {
    Seq::new(frames.len(), |i: int| Some(frames[i]))
}

/// What a slot plays as: its frame, or silence where nothing arrived.
pub open spec fn slot_frame(slot: Option<Seq<i16>>, channels: nat) -> Seq<i16> {
    match slot {
        Some(frame) => frame,
        None => silence_frame(channels),
    }
}

/// Whether every frame is `channels` samples wide.
pub open spec fn all_width(frames: Seq<Seq<i16>>, channels: nat) -> bool {
    forall|i: int| 0 <= i < frames.len() ==> (#[trigger] frames[i]).len() == channels
}

/// The abstract state of a jitter buffer.
pub struct BufferState {
    /// The most slots that may be resident.
    pub capacity: nat,
    /// Frames per second of the current stream.
    pub sample_rate: u32,
    /// Samples per frame of the current stream.
    pub channels: u16,
    /// The resident slots, oldest first. `None` marks a frame that is missing.
    pub window: Seq<Option<Seq<i16>>>,
    /// The sequence number of the slot after the newest one; `None` until
    /// the first frame after a start or a reset.
    pub expected: Option<u32>,
    /// The counters.
    pub metrics: Metrics,
}

impl BufferState {
    /// An empty buffer with no expectation and all counters at zero.
    pub open spec fn fresh(capacity: nat, sample_rate: u32, channels: u16) -> Self {
        BufferState {
            capacity,
            sample_rate,
            channels,
            window: Seq::empty(),
            expected: None,
            metrics: Metrics { dropped: 0, overruns: 0, underruns: 0, resets: 0 },
        }
    }

    /// The invariant of every buffer: a positive capacity below half the
    /// sequence range, at least one channel, no more than `capacity` slots
    /// resident, and every resident frame of the stream's width.
    pub open spec fn wf(self) -> bool {
        &&& 1 <= self.capacity < HALF_RANGE
        &&& self.channels >= 1
        &&& self.window.len() <= self.capacity
        &&& forall|i: int|
            0 <= i < self.window.len() ==> match #[trigger] self.window[i] {
                Some(frame) => frame.len() == self.channels,
                None => true,
            }
    }

    /// Whether a frame numbered `seq` would be appended directly behind the
    /// newest slot.
    pub open spec fn in_step(self, seq: u32) -> bool {
        self.expected is None || self.expected == Some(seq)
    }

    /// How many slots must leave before `extra` more fit.
    pub open spec fn excess(self, extra: nat) -> nat {
        if self.window.len() + extra > self.capacity {
            (self.window.len() + extra - self.capacity) as nat
        } else {
            0
        }
    }

    /// Appends slots behind the newest one. Where the window would exceed the
    /// capacity, the oldest slots leave first and are counted as overruns.
    pub open spec fn append(self, slots: Seq<Option<Seq<i16>>>) -> Self {
        BufferState {
            window: (self.window + slots).skip(self.excess(slots.len()) as int),
            metrics: Metrics {
                overruns: bump(self.metrics.overruns, self.excess(slots.len())),
                ..self.metrics
            },
            ..self
        }
    }

    /// Appends `gap` missing slots and then `frame`, which carries `seq`.
    pub open spec fn place(self, gap: nat, frame: Seq<i16>, seq: u32) -> Self {
        BufferState {
            expected: Some(seq_after(seq, 1)),
            ..self.append(gaps(gap).push(Some(frame)))
        }
    }

    /// A frame that arrives `behind` slots before the write cursor: it takes
    /// its slot if that slot is still resident and empty, and is dropped
    /// otherwise.
    pub open spec fn backfill(self, behind: nat, frame: Seq<i16>) -> Self {
        if 1 <= behind <= self.window.len() && self.window[self.window.len() - behind] is None {
            BufferState {
                window: self.window.update(self.window.len() - behind, Some(frame)),
                ..self
            }
        } else {
            self.drop_one()
        }
    }

    /// Counts one refused frame.
    pub open spec fn drop_one(self) -> Self {
        BufferState {
            metrics: Metrics { dropped: bump(self.metrics.dropped, 1), ..self.metrics },
            ..self
        }
    }

    /// Empties the window and forgets the expected sequence number. The
    /// counters stay, and the reset is counted.
    pub open spec fn reset(self) -> Self {
        BufferState {
            window: Seq::empty(),
            expected: None,
            metrics: Metrics { resets: bump(self.metrics.resets, 1), ..self.metrics },
            ..self
        }
    }

    /// A reset that also takes over a new sample rate and channel count.
    pub open spec fn adopt(self, sample_rate: u32, channels: u16) -> Self {
        BufferState { sample_rate, channels, ..self.reset() }
    }

    /// One frame numbered `seq` arrives.
    ///
    /// - A frame of the wrong width is dropped.
    /// - With no expectation, the frame starts the sequence.
    /// - At or ahead of the expected number, the frames in between are
    ///   marked missing and the frame is appended; if more than `capacity`
    ///   are missing, the buffer is reset and the frame starts anew.
    /// - Behind the expected number, the frame fills its own slot if that is
    ///   still resident and empty, and is dropped otherwise.
    pub open spec fn accept(self, frame: Seq<i16>, seq: u32) -> Self {
        if frame.len() != self.channels {
            self.drop_one()
        } else {
            match self.expected {
                None => self.place(0, frame, seq),
                Some(expected) => {
                    if seq_distance(expected, seq) < HALF_RANGE {
                        if seq_distance(expected, seq) > self.capacity {
                            self.reset().place(0, frame, seq)
                        } else {
                            self.place(seq_distance(expected, seq), frame, seq)
                        }
                    } else {
                        self.backfill(seq_distance(seq, expected), frame)
                    }
                },
            }
        }
    }

    /// A run of frames arrives, the first numbered `seq`, each following one
    /// numbered one higher: every frame is accepted in turn.
    pub open spec fn push(self, frames: Seq<Seq<i16>>, seq: u32) -> Self
        decreases frames.len(),
    {
        if frames.len() == 0 {
            self
        } else {
            self.push(frames.drop_last(), seq).accept(
                frames.last(),
                seq_after(seq, (frames.len() - 1) as nat),
            )
        }
    }

    /// The `n` frames that a pull hands out: the oldest resident slots in
    /// order, a missing one as silence, and silence for what is not there.
    pub open spec fn pulled(self, n: nat) -> Seq<Seq<i16>> {
        Seq::new(
            n,
            |i: int|
                if i < self.window.len() {
                    slot_frame(self.window[i], self.channels as nat)
                } else {
                    silence_frame(self.channels as nat)
                },
        )
    }

    /// The state that a pull of `n` frames leaves: the slots handed out are
    /// gone, and a pull that ran short is counted as one underrun.
    pub open spec fn after_pull(self, n: nat) -> Self {
        BufferState {
            window: self.window.skip(
                if n <= self.window.len() {
                    n as int
                } else {
                    self.window.len() as int
                },
            ),
            metrics: Metrics {
                underruns: if self.window.len() < n {
                    bump(self.metrics.underruns, 1)
                } else {
                    self.metrics.underruns
                },
                ..self.metrics
            },
            ..self
        }
    }
}

/// Counting in two steps is counting the sum.
pub proof fn lemma_bump_twice(counter: u64, first: nat, second: nat)
    ensures
        bump(bump(counter, first), second) == bump(counter, first + second),
{
}

/// Appending in two steps is appending the concatenation.
pub proof fn lemma_append_twice(
    state: BufferState,
    first: Seq<Option<Seq<i16>>>,
    second: Seq<Option<Seq<i16>>>,
)
    requires
        state.window.len() <= state.capacity,
    ensures
        state.append(first).append(second) == state.append(first + second),
{
    let step = state.append(first);
    let two = step.append(second);
    let one = state.append(first + second);
    assert(step.excess(second.len()) + state.excess(first.len()) == state.excess(
        (first + second).len(),
    ));
    lemma_bump_twice(state.metrics.overruns, state.excess(first.len()), step.excess(second.len()));
    assert(two.window =~= one.window);
}

/// Appending keeps a well-formed state well-formed, provided the appended
/// frames have the stream's width.
pub proof fn lemma_append_wf(state: BufferState, slots: Seq<Option<Seq<i16>>>)
    requires
        state.wf(),
        forall|i: int|
            0 <= i < slots.len() ==> match #[trigger] slots[i] {
                Some(frame) => frame.len() == state.channels,
                None => true,
            },
    ensures
        state.append(slots).wf(),
        state.append(slots).window.len() == if state.window.len() + slots.len()
            <= state.capacity {
            state.window.len() + slots.len()
        } else {
            state.capacity
        },
{
}

/// Stepping a sequence number once more.
pub proof fn lemma_seq_after_step(seq: u32, steps: nat)
    ensures
        seq_after(seq, steps + 1) == seq_after(seq_after(seq, steps), 1),
        seq_after(seq, 0) == seq,
        seq_after(seq, 1) == seq.wrapping_add(1),
{
}

/// Pushing one frame more is accepting it after the others.
pub proof fn lemma_push_step(state: BufferState, frames: Seq<Seq<i16>>, seq: u32, i: int)
    requires
        0 <= i < frames.len(),
    ensures
        state.push(frames.take(i + 1), seq) == state.push(frames.take(i), seq).accept(
            frames[i],
            seq_after(seq, i as nat),
        ),
{
    let upto = frames.take(i + 1);
    assert(upto.drop_last() =~= frames.take(i));
}

} // verus!
