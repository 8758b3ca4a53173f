//! The jitter buffer: a fixed ring of slots between the network receiver,
//! which pushes, and the playback driver, which pulls.

use crate::config::{ConfigError, StreamConfig, MAX_CAPACITY};
use crate::frame::{frame_views, lemma_frame_views_push, SampleFrame};
use crate::state::{
    gaps, lemma_append_twice, lemma_push_step, lemma_seq_after_step, seq_after, BufferState,
    Metrics, HALF_RANGE,
};
use vstd::prelude::*;

verus! {

/// The physical index of the slot `offset` places after `head` in a ring of
/// `capacity` slots.
spec fn ring_index(head: int, offset: int, capacity: int) -> int {
    if head + offset < capacity {
        head + offset
    } else {
        head + offset - capacity
    }
}

/// A stored slot as the abstract state holds it.
spec fn slot_view(slot: Option<SampleFrame>) -> Option<Seq<i16>> {
    match slot {
        Some(frame) => Some(frame@),
        None => None,
    }
}

/// A bounded ring of frames with a read cursor (`head`) and a count of
/// resident slots; the write cursor is `head + len`, taken round the ring.
pub struct JitterBuffer {
    slots: Vec<Option<SampleFrame>>,
    head: usize,
    len: usize,
    sample_rate: u32,
    channels: u16,
    expected: Option<u32>,
    metrics: Metrics,
}

impl View for JitterBuffer {
    type V = BufferState;

    closed spec fn view(&self) -> BufferState {
        BufferState {
            capacity: self.slots.len() as nat,
            sample_rate: self.sample_rate,
            channels: self.channels,
            window: Seq::new(
                self.len as nat,
                |i: int| slot_view(self.slots[ring_index(self.head as int, i, self.slots.len() as int)]),
            ),
            expected: self.expected,
            metrics: self.metrics,
        }
    }
}

impl JitterBuffer {
    /// The representation invariant: established by `new`, kept by every
    /// method.
    pub closed spec fn wf(&self) -> bool {
        &&& 1 <= self.slots.len() <= MAX_CAPACITY
        &&& self.head < self.slots.len()
        &&& self.len <= self.slots.len()
        &&& self.channels >= 1
        &&& forall|j: int|
            0 <= j < self.slots.len() ==> match #[trigger] self.slots[j] {
                Some(frame) => frame@.len() == self.channels,
                None => true,
            }
    }

    /// The state of a well-formed buffer is well-formed: what is proved of
    /// every well-formed state holds of every buffer.
    pub proof fn lemma_state_wf(&self)
        requires
            self.wf(),
        ensures
            self@.wf(),
    {
    }

    /// An empty buffer for the given stream, or the reason why the
    /// configuration cannot be used.
    pub fn new(config: StreamConfig) -> (r: Result<Self, ConfigError>)
        ensures
            match config.check() {
                Ok(capacity) => r is Ok && r->Ok_0@ == BufferState::fresh(
                    capacity,
                    config.sample_rate,
                    config.channels,
                ) && r->Ok_0.wf(),
                Err(e) => r is Err && r->Err_0 == e,
            },
    {
        match config.capacity_frames() {
            Err(e) => Err(e),
            Ok(capacity) => {
                let mut slots: Vec<Option<SampleFrame>> = Vec::new();
                let mut i: usize = 0;
                while i < capacity
                    invariant
                        i <= capacity,
                        slots.len() == i,
                        forall|j: int| 0 <= j < i ==> slots[j] is None,
                    decreases capacity - i,
                {
                    slots.push(None);
                    i = i + 1;
                }
                let buffer = JitterBuffer {
                    slots,
                    head: 0,
                    len: 0,
                    sample_rate: config.sample_rate,
                    channels: config.channels,
                    expected: None,
                    metrics: Metrics { dropped: 0, overruns: 0, underruns: 0, resets: 0 },
                };
                assert(buffer@.window =~= Seq::empty());
                Ok(buffer)
            },
        }
    }

    /// The most frames the buffer holds.
    pub fn capacity(&self) -> (n: usize)
        ensures
            n == self@.capacity,
    {
        self.slots.len()
    }

    /// How many slots are resident, missing ones included.
    pub fn len(&self) -> (n: usize)
        ensures
            n == self@.window.len(),
    {
        self.len
    }

    /// Whether nothing is resident.
    pub fn is_empty(&self) -> (b: bool)
        ensures
            b == (self@.window.len() == 0),
    {
        self.len == 0
    }

    /// Frames per second of the current stream.
    pub fn sample_rate(&self) -> (rate: u32)
        ensures
            rate == self@.sample_rate,
    {
        self.sample_rate
    }

    /// Samples per frame of the current stream.
    pub fn channels(&self) -> (n: u16)
        ensures
            n == self@.channels,
    {
        self.channels
    }

    /// The sequence number the next in-order frame must carry, if any is
    /// expected.
    pub fn expected_sequence(&self) -> (seq: Option<u32>)
        ensures
            seq == self@.expected,
    {
        self.expected
    }

    /// The counters.
    pub fn metrics(&self) -> (m: Metrics)
        ensures
            m == self@.metrics,
    {
        self.metrics
    }

    /// The physical index `offset` places after the read cursor.
    fn index_at(&self, offset: usize) -> (index: usize)
        requires
            self.wf(),
            offset <= self.len,
        ensures
            index == ring_index(self.head as int, offset as int, self.slots.len() as int),
            offset < self.slots.len() ==> index < self.slots.len(),
    {
        let room: usize = self.slots.len() - self.head;
        if offset < room {
            self.head + offset
        } else {
            offset - room
        }
    }

    /// Stores one slot at the write cursor, discarding the oldest slot when
    /// the ring is full.
    fn enqueue(&mut self, slot: Option<SampleFrame>)
        requires
            old(self).wf(),
            slot matches Some(frame) ==> frame@.len() == old(self).channels,
        ensures
            final(self).wf(),
            final(self)@ == old(self)@.append(seq![slot_view(slot)]),
    {
        let capacity: usize = self.slots.len();
        if self.len < capacity {
            let index: usize = self.index_at(self.len);
            self.slots.set(index, slot);
            self.len = self.len + 1;
        } else {
            let index: usize = self.head;
            self.slots.set(index, slot);
            self.head = if self.head + 1 < capacity {
                self.head + 1
            } else {
                0
            };
            self.metrics.overruns = self.metrics.overruns.saturating_add(1);
        }
        assert(self@.window =~= old(self)@.append(seq![slot_view(slot)]).window);
    }

    /// Marks `gap` slots at the write cursor as missing.
    fn pad(&mut self, gap: usize)
        requires
            old(self).wf(),
        ensures
            final(self).wf(),
            final(self)@ == old(self)@.append(gaps(gap as nat)),
    {
        let mut done: usize = 0;
        assert(self@.window =~= old(self)@.append(gaps(0)).window);
        while done < gap
            invariant
                done <= gap,
                self.wf(),
                self@ == old(self)@.append(gaps(done as nat)),
                old(self)@.window.len() <= old(self)@.capacity,
            decreases gap - done,
        {
            self.enqueue(None);
            proof {
                lemma_append_twice(
                    old(self)@,
                    gaps(done as nat),
                    seq![None::<Seq<i16>>],
                );
                assert(gaps(done as nat) + seq![None::<Seq<i16>>] =~= gaps((done + 1) as nat));
            }
            done = done + 1;
        }
    }

    /// Appends `gap` missing slots and a copy of `frame`, numbered `seq`.
    fn place(&mut self, gap: usize, frame: &SampleFrame, seq: u32)
        requires
            old(self).wf(),
            frame@.len() == old(self).channels,
        ensures
            final(self).wf(),
            final(self)@ == old(self)@.place(gap as nat, frame@, seq),
    {
        self.pad(gap);
        self.enqueue(Some(frame.clone()));
        self.expected = Some(seq.wrapping_add(1));
        proof {
            lemma_append_twice(old(self)@, gaps(gap as nat), seq![Some(frame@)]);
            assert(gaps(gap as nat) + seq![Some(frame@)] =~= gaps(gap as nat).push(Some(frame@)));
        }
    }

    /// Counts one refused frame.
    fn drop_one(&mut self)
        requires
            old(self).wf(),
        ensures
            final(self).wf(),
            final(self)@ == old(self)@.drop_one(),
    {
        self.metrics.dropped = self.metrics.dropped.saturating_add(1);
    }

    /// Stores a late frame in its own slot, if that slot is resident and
    /// still empty.
    fn backfill(&mut self, behind: usize, frame: &SampleFrame)
        requires
            old(self).wf(),
            frame@.len() == old(self).channels,
        ensures
            final(self).wf(),
            final(self)@ == old(self)@.backfill(behind as nat, frame@),
    {
        if 1 <= behind && behind <= self.len {
            let index: usize = self.index_at(self.len - behind);
            if self.slots[index].is_none() {
                self.slots.set(index, Some(frame.clone()));
                assert(self@.window =~= old(self)@.backfill(behind as nat, frame@).window);
                return ;
            }
        }
        self.drop_one();
    }

    /// Empties every slot and puts both cursors at the start.
    fn wipe(&mut self)
        requires
            old(self).wf(),
        ensures
            final(self).wf(),
            final(self)@ == (BufferState { window: Seq::empty(), ..old(self)@ }),
            forall|j: int| 0 <= j < final(self).slots.len() ==> final(self).slots[j] is None,
    {
        let capacity: usize = self.slots.len();
        let mut j: usize = 0;
        while j < capacity
            invariant
                j <= capacity,
                capacity == self.slots.len(),
                self.wf(),
                self.slots.len() == old(self).slots.len(),
                self.sample_rate == old(self).sample_rate,
                self.channels == old(self).channels,
                self.expected == old(self).expected,
                self.metrics == old(self).metrics,
                forall|k: int| 0 <= k < j ==> self.slots[k] is None,
            decreases capacity - j,
        {
            self.slots.set(j, None);
            j = j + 1;
        }
        self.head = 0;
        self.len = 0;
        assert(self@.window =~= Seq::empty());
    }

    /// Clears the buffer and forgets which sequence number comes next, so
    /// that the next frame pushed starts the sequence. The counters are
    /// kept, and the reset is counted.
    pub fn reset(&mut self)
        requires
            old(self).wf(),
        ensures
            final(self).wf(),
            final(self)@ == old(self)@.reset(),
    {
        self.wipe();
        self.expected = None;
        self.metrics.resets = self.metrics.resets.saturating_add(1);
    }

    /// Resets the buffer and takes over the sample rate and channel count
    /// of a new stream. A zero rate or channel count is refused and leaves
    /// the buffer as it was.
    pub fn reconfigure(&mut self, sample_rate: u32, channels: u16) -> (r: Result<(), ConfigError>)
        requires
            old(self).wf(),
        ensures
            final(self).wf(),
            sample_rate == 0 ==> r == Err::<(), ConfigError>(ConfigError::ZeroSampleRate)
                && final(self)@ == old(self)@,
            sample_rate != 0 && channels == 0 ==> r == Err::<(), ConfigError>(
                ConfigError::ZeroChannels,
            ) && final(self)@ == old(self)@,
            sample_rate != 0 && channels != 0 ==> r is Ok && final(self)@ == old(self)@.adopt(
                sample_rate,
                channels,
            ),
    {
        if sample_rate == 0 {
            return Err(ConfigError::ZeroSampleRate);
        }
        if channels == 0 {
            return Err(ConfigError::ZeroChannels);
        }
        self.wipe();
        self.expected = None;
        self.metrics.resets = self.metrics.resets.saturating_add(1);
        self.sample_rate = sample_rate;
        self.channels = channels;
        Ok(())
    }

    /// Takes in one frame numbered `seq`.
    fn accept(&mut self, frame: &SampleFrame, seq: u32)
        requires
            old(self).wf(),
        ensures
            final(self).wf(),
            final(self)@ == old(self)@.accept(frame@, seq),
    {
        if frame.channels() != self.channels as usize {
            self.drop_one();
            return ;
        }
        match self.expected {
            None => {
                self.place(0, frame, seq);
            },
            Some(expected) => {
                let ahead: u32 = seq.wrapping_sub(expected);
                if ahead < HALF_RANGE {
                    if ahead as usize > self.slots.len() {
                        self.reset();
                        self.place(0, frame, seq);
                    } else {
                        self.place(ahead as usize, frame, seq);
                    }
                } else {
                    let behind: u32 = expected.wrapping_sub(seq);
                    self.backfill(behind as usize, frame);
                }
            },
        }
    }

    /// Takes in a run of frames, the first numbered `sequence_no` and each
    /// following one numbered one higher.
    ///
    /// Frames that continue the sequence are appended; when the ring is
    /// full the oldest unread slots make room and are counted as overruns.
    /// Frames that were skipped are marked missing and play as silence; a
    /// skip of more than the capacity resets the buffer. A late frame fills
    /// its own slot if that is still resident and empty, and is counted as
    /// dropped otherwise, as is a frame of the wrong width.
    pub fn push(&mut self, frames: &[SampleFrame], sequence_no: u32)
        requires
            old(self).wf(),
        ensures
            final(self).wf(),
            final(self)@ == old(self)@.push(frame_views(frames@), sequence_no),
    {
        let ghost all = frame_views(frames@);
        let mut i: usize = 0;
        let mut seq: u32 = sequence_no;
        while i < frames.len()
            invariant
                i <= frames.len(),
                all == frame_views(frames@),
                self.wf(),
                seq == seq_after(sequence_no, i as nat),
                self@ == old(self)@.push(all.take(i as int), sequence_no),
            decreases frames.len() - i,
        {
            self.accept(&frames[i], seq);
            proof {
                lemma_push_step(old(self)@, all, sequence_no, i as int);
                lemma_seq_after_step(sequence_no, i as nat);
            }
            seq = seq.wrapping_add(1);
            i = i + 1;
        }
        assert(all.take(i as int) =~= all);
    }

    /// Hands out exactly `n` frames and never waits: the oldest resident
    /// slots in order, then silence for what is not there. A slot whose
    /// frame never arrived plays as silence too. A pull that finds fewer
    /// than `n` slots resident is counted as one underrun.
    pub fn pull(&mut self, n: usize) -> (frames: Vec<SampleFrame>)
        requires
            old(self).wf(),
        ensures
            final(self).wf(),
            frames.len() == n,
            frame_views(frames@) == old(self)@.pulled(n as nat),
            final(self)@ == old(self)@.after_pull(n as nat),
    {
        let resident: usize = self.len;
        let channels: usize = self.channels as usize;
        let capacity: usize = self.slots.len();
        let mut frames: Vec<SampleFrame> = Vec::new();
        let mut i: usize = 0;
        assert(self@.window =~= old(self)@.window.skip(0));
        while i < n
            invariant
                i <= n,
                self.wf(),
                resident == old(self).len,
                channels == old(self).channels,
                capacity == self.slots.len(),
                self@ == (BufferState {
                    window: old(self)@.window.skip(
                        if i <= resident {
                            i as int
                        } else {
                            resident as int
                        },
                    ),
                    ..old(self)@
                }),
                self.len == if i <= resident {
                    resident - i
                } else {
                    0
                },
                frames.len() == i,
                frame_views(frames@) == old(self)@.pulled(i as nat),
            decreases n - i,
        {
            let ghost before = self@;
            let frame = if self.len > 0 {
                let index: usize = self.head;
                let taken = self.slots[index].take();
                self.head = if index + 1 < capacity {
                    index + 1
                } else {
                    0
                };
                self.len = self.len - 1;
                assert(before.window[0] == old(self)@.window[i as int]);
                assert(self@.window =~= before.window.skip(1));
                assert(self@.window =~= old(self)@.window.skip(i + 1));
                match taken {
                    Some(frame) => frame,
                    None => SampleFrame::silence(channels),
                }
            } else {
                SampleFrame::silence(channels)
            };
            proof {
                lemma_frame_views_push(frames@, frame);
            }
            frames.push(frame);
            i = i + 1;
            assert(frame_views(frames@) =~= old(self)@.pulled(i as nat));
        }
        if resident < n {
            self.metrics.underruns = self.metrics.underruns.saturating_add(1);
        }
        frames
    }
}

} // verus!
