//! What holds of every jitter buffer, proved over its abstract state.

use crate::frame::silence_run;
use crate::state::{
    all_width, bump, gaps, lemma_append_twice, lemma_append_wf, occupied, seq_after,
    seq_distance, BufferState, HALF_RANGE,
};
use vstd::prelude::*;

verus! {

/// The newest `capacity` slots of `slots`, or all of them if they are fewer.
pub open spec fn newest(slots: Seq<Option<Seq<i16>>>, capacity: nat) -> Seq<Option<Seq<i16>>> {
    if slots.len() > capacity {
        slots.skip(slots.len() - capacity)
    } else {
        slots
    }
}

impl BufferState {
    /// How many frames are missing in front of a frame numbered `seq`:
    /// none when nothing is expected yet.
    pub open spec fn lead(self, seq: u32) -> nat {
        match self.expected {
            None => 0,
            Some(expected) => seq_distance(expected, seq),
        }
    }

    /// What a run numbered `seq` is appended to: the state itself, or its
    /// reset where more than `capacity` frames are missing in front of the
    /// run.
    pub open spec fn footing(self, seq: u32) -> Self {
        if self.lead(seq) > self.capacity {
            self.reset()
        } else {
            self
        }
    }

    /// Several runs pushed one after the other, the first numbered `seq` and
    /// each following run numbered directly behind the one before.
    pub open spec fn push_each(self, runs: Seq<Seq<Seq<i16>>>, seq: u32) -> Self
        decreases runs.len(),
    {
        if runs.len() == 0 {
            self
        } else {
            self.push_each(runs.drop_last(), seq).push(
                runs.last(),
                seq_after(seq, runs.drop_last().flatten().len()),
            )
        }
    }

    /// Several pulls one after the other.
    pub open spec fn after_pulls(self, counts: Seq<nat>) -> Self
        decreases counts.len(),
    {
        if counts.len() == 0 {
            self
        } else {
            self.after_pulls(counts.drop_last()).after_pull(counts.last())
        }
    }
}

/// Stepping twice is stepping by the sum.
pub proof fn lemma_seq_after_sum(seq: u32, first: nat, second: nat)
    ensures
        seq_after(seq_after(seq, first), second) == seq_after(seq, first + second),
{
    let m = 0x1_0000_0000int;
    vstd::arithmetic::div_mod::lemma_add_mod_noop(seq + first, second as int, m);
    vstd::arithmetic::div_mod::lemma_mod_twice(seq + first, m);
    vstd::arithmetic::div_mod::lemma_add_mod_noop((seq + first) % m, second as int, m);
}

/// Going `gap` further from a number `steps` after `seq` is a distance of `gap`.
pub proof fn lemma_distance_after(seq: u32, steps: nat, gap: nat)
    requires
        gap < 0x1_0000_0000,
    ensures
        seq_distance(seq_after(seq, steps), seq_after(seq, steps + gap)) == gap,
{
    lemma_seq_after_sum(seq, steps, gap);
    let base = seq_after(seq, steps);
    assert(seq_after(base, gap) == if base + gap < 0x1_0000_0000 {
        base + gap
    } else {
        base + gap - 0x1_0000_0000
    });
}

/// A run that does not arrive late is appended whole: behind the slots it
/// skipped, or, where it skipped more than `capacity`, into the emptied
/// buffer.
pub proof fn lemma_push_not_late(state: BufferState, frames: Seq<Seq<i16>>, seq: u32)
    requires
        state.wf(),
        all_width(frames, state.channels as nat),
        frames.len() >= 1,
        state.lead(seq) < HALF_RANGE,
    ensures
        state.push(frames, seq) == (BufferState {
            expected: Some(seq_after(seq, frames.len())),
            ..state.footing(seq).append(gaps(state.footing(seq).lead(seq)) + occupied(frames))
        }),
        state.push(frames, seq).wf(),
    decreases frames.len(),
{
    let base = state.footing(seq);
    let last = frames.last();
    let before = frames.drop_last();
    let slots = gaps(base.lead(seq)) + occupied(frames);
    assert(forall|i: int|
        0 <= i < slots.len() ==> match #[trigger] slots[i] {
            Some(frame) => frame.len() == state.channels,
            None => true,
        });
    lemma_append_wf(base, slots);
    if frames.len() == 1 {
        lemma_seq_after_sum(seq, 0, 1);
        assert(gaps(base.lead(seq)).push(Some(last)) =~= slots);
    } else {
        lemma_push_not_late(state, before, seq);
        let mid = state.push(before, seq);
        lemma_seq_after_sum(seq, before.len(), 1);
        let first = gaps(base.lead(seq)) + occupied(before);
        lemma_append_twice(base, first, gaps(0).push(Some(last)));
        assert(first + gaps(0).push(Some(last)) =~= slots);
        assert(mid.append(gaps(0).push(Some(last))) == BufferState {
            expected: mid.expected,
            ..base.append(first).append(gaps(0).push(Some(last)))
        });
    }
}

/// Pushing two runs back to back is pushing their concatenation.
pub proof fn lemma_push_concat(
    state: BufferState,
    first: Seq<Seq<i16>>,
    second: Seq<Seq<i16>>,
    seq: u32,
)
    ensures
        state.push(first + second, seq) == state.push(first, seq).push(
            second,
            seq_after(seq, first.len()),
        ),
    decreases second.len(),
{
    if second.len() > 0 {
        let all = first + second;
        let start = seq_after(seq, first.len());
        let number = seq_after(seq, (all.len() - 1) as nat);
        assert(all.drop_last() =~= first + second.drop_last());
        lemma_push_concat(state, first, second.drop_last(), seq);
        lemma_seq_after_sum(seq, first.len(), (second.len() - 1) as nat);
        let mid = state.push(first, seq);
        assert(state.push(all, seq) == state.push(all.drop_last(), seq).accept(
            all.last(),
            number,
        ));
        assert(mid.push(second, start) == mid.push(second.drop_last(), start).accept(
            second.last(),
            number,
        ));
    }
}

/// Pushing runs one after the other is pushing all their frames as one run.
pub proof fn lemma_push_each_is_push(state: BufferState, runs: Seq<Seq<Seq<i16>>>, seq: u32)
    ensures
        state.push_each(runs, seq) == state.push(runs.flatten(), seq),
    decreases runs.len(),
{
    if runs.len() > 0 {
        let before = runs.drop_last();
        lemma_push_each_is_push(state, before, seq);
        lemma_push_concat(state, before.flatten(), runs.last(), seq);
        runs.lemma_flatten_and_flatten_alt_are_equivalent();
        assert(runs.flatten() == before.flatten() + runs.last()) by {
            before.lemma_flatten_and_flatten_alt_are_equivalent();
        }
    }
}

/// No loss under capacity: after any number of pushes into an empty buffer,
/// each numbered directly behind the one before and all together no more
/// than `capacity` frames, a pull of that many frames hands out exactly the
/// pushed frames in the order in which they were pushed, and leaves the
/// buffer empty.
pub proof fn lemma_no_loss_under_capacity(state: BufferState, runs: Seq<Seq<Seq<i16>>>, seq: u32)
    requires
        state.wf(),
        state.window.len() == 0,
        state.in_step(seq),
        all_width(runs.flatten(), state.channels as nat),
        runs.flatten().len() <= state.capacity,
    ensures
        state.push_each(runs, seq).pulled(runs.flatten().len()) == runs.flatten(),
        state.push_each(runs, seq).after_pull(runs.flatten().len()).window.len() == 0,
{
    lemma_push_each_is_push(state, runs, seq);
    if runs.flatten().len() >= 1 {
        lemma_distance_after(seq, 0, 0);
        lemma_push_not_late(state, runs.flatten(), seq);
    }
}

/// A pull on an empty buffer hands out exactly `n` frames of silence and
/// leaves the buffer empty.
pub proof fn lemma_pull_empty_is_silence(state: BufferState, n: nat)
    requires
        state.window.len() == 0,
    ensures
        state.pulled(n).len() == n,
        state.pulled(n) == silence_run(n, state.channels as nat),
        state.after_pull(n).window.len() == 0,
        state.after_pull(n).expected == state.expected,
{
}

/// Drop-oldest: a run pushed in step leaves the newest `capacity` slots of
/// the old window followed by the run, in order; what was discarded is the
/// oldest part, and it is counted. A run of `capacity` frames or more leaves
/// exactly its own last `capacity` frames.
pub proof fn lemma_drop_oldest(state: BufferState, frames: Seq<Seq<i16>>, seq: u32)
    requires
        state.wf(),
        state.in_step(seq),
        all_width(frames, state.channels as nat),
    ensures
        state.push(frames, seq).window == newest(
            state.window + occupied(frames),
            state.capacity,
        ),
        state.push(frames, seq).metrics.overruns == bump(
            state.metrics.overruns,
            state.excess(frames.len()),
        ),
        frames.len() >= state.capacity ==> state.push(frames, seq).window == occupied(
            frames.skip(frames.len() - state.capacity),
        ),
{
    if frames.len() >= 1 {
        lemma_distance_after(seq, 0, 0);
        lemma_push_not_late(state, frames, seq);
        if frames.len() >= state.capacity {
            assert(newest(state.window + occupied(frames), state.capacity) =~= occupied(
                frames.skip(frames.len() - state.capacity),
            ));
        }
    }
}

/// The newest frames survive: after a run that does not arrive late, the
/// newest slots of the window hold the newest frames of the run, in order,
/// as many as fit; a run of `capacity` frames or more fills the window.
pub proof fn lemma_newest_frames_survive(state: BufferState, frames: Seq<Seq<i16>>, seq: u32)
    requires
        state.wf(),
        all_width(frames, state.channels as nat),
        state.lead(seq) < HALF_RANGE,
    ensures
        ({
            let kept = if frames.len() <= state.capacity {
                frames.len()
            } else {
                state.capacity
            };
            let window = state.push(frames, seq).window;
            &&& window.len() >= kept
            &&& window.skip(window.len() - kept) == occupied(frames.skip(frames.len() - kept))
        }),
{
    if frames.len() >= 1 {
        lemma_push_not_late(state, frames, seq);
    }
}

/// A gap plays as silence: when `missing` frames, no more than `capacity`,
/// are skipped between two runs, the window holds the first run, then
/// `missing` empty slots, then the second run (the newest `capacity` slots
/// of all that); and where everything fits into an empty buffer, a pull
/// hands out the first run, `missing` frames of silence, and the second run.
pub proof fn lemma_gap_plays_as_silence(
    state: BufferState,
    before: Seq<Seq<i16>>,
    missing: nat,
    after: Seq<Seq<i16>>,
    seq: u32,
)
    requires
        state.wf(),
        state.in_step(seq),
        before.len() >= 1,
        after.len() >= 1,
        all_width(before, state.channels as nat),
        all_width(after, state.channels as nat),
        missing <= state.capacity,
    ensures
        state.push(before, seq).push(
            after,
            seq_after(seq, before.len() + missing),
        ).window == newest(
            state.window + occupied(before) + gaps(missing) + occupied(after),
            state.capacity,
        ),
        state.window.len() == 0 && before.len() + missing + after.len() <= state.capacity
            ==> state.push(before, seq).push(
            after,
            seq_after(seq, before.len() + missing),
        ).pulled(before.len() + missing + after.len()) == before + silence_run(
            missing,
            state.channels as nat,
        ) + after,
{
    lemma_distance_after(seq, 0, 0);
    lemma_push_not_late(state, before, seq);
    let mid = state.push(before, seq);
    let second = seq_after(seq, before.len() + missing);
    lemma_distance_after(seq, before.len(), missing);
    lemma_push_not_late(mid, after, second);
    let end = mid.push(after, second);
    let first_slots = gaps(0) + occupied(before);
    let second_slots = gaps(missing) + occupied(after);
    lemma_append_twice(state, first_slots, second_slots);
    assert(mid.append(second_slots) == BufferState {
        expected: mid.expected,
        ..state.append(first_slots).append(second_slots)
    });
    let all = state.window + occupied(before) + gaps(missing) + occupied(after);
    assert(state.window + (first_slots + second_slots) =~= all);
    if state.window.len() == 0 && before.len() + missing + after.len() <= state.capacity {
        let total = before.len() + missing + after.len();
        assert(end.pulled(total) =~= before + silence_run(missing, state.channels as nat)
            + after);
    }
}

/// After a reset, pulls hand out only silence, however many and however
/// large, as long as nothing is pushed.
pub proof fn lemma_reset_then_silence(state: BufferState, counts: Seq<nat>, n: nat)
    ensures
        state.reset().after_pulls(counts).window.len() == 0,
        state.reset().after_pulls(counts).pulled(n) == silence_run(n, state.channels as nat),
    decreases counts.len(),
{
    if counts.len() > 0 {
        lemma_reset_then_silence(state, counts.drop_last(), counts.last());
    }
    let quiet = state.reset().after_pulls(counts);
    lemma_after_pulls_keeps_config(state.reset(), counts);
    lemma_pull_empty_is_silence(quiet, n);
}

/// Pulls change neither the capacity nor the stream parameters.
pub proof fn lemma_after_pulls_keeps_config(state: BufferState, counts: Seq<nat>)
    ensures
        state.after_pulls(counts).capacity == state.capacity,
        state.after_pulls(counts).channels == state.channels,
        state.after_pulls(counts).sample_rate == state.sample_rate,
        state.after_pulls(counts).expected == state.expected,
    decreases counts.len(),
{
    if counts.len() > 0 {
        lemma_after_pulls_keeps_config(state, counts.drop_last());
    }
}

/// Whatever arrives, the buffer stays well-formed: never more than
/// `capacity` slots resident, and every resident frame of the stream's width.
pub proof fn lemma_accept_keeps_wf(state: BufferState, frame: Seq<i16>, seq: u32)
    requires
        state.wf(),
    ensures
        state.accept(frame, seq).wf(),
        state.accept(frame, seq).capacity == state.capacity,
        state.accept(frame, seq).channels == state.channels,
        state.accept(frame, seq).sample_rate == state.sample_rate,
{
    if frame.len() == state.channels {
        let one = seq![Some(frame)];
        lemma_append_wf(state.reset(), one);
        match state.expected {
            None => {
                lemma_append_wf(state, one);
            },
            Some(expected) => {
                let ahead = seq_distance(expected, seq);
                if ahead <= state.capacity {
                    lemma_append_wf(state, gaps(ahead).push(Some(frame)));
                }
            },
        }
    }
}

/// A push of any frames under any sequence number leaves the buffer
/// well-formed.
pub proof fn lemma_push_keeps_wf(state: BufferState, frames: Seq<Seq<i16>>, seq: u32)
    requires
        state.wf(),
    ensures
        state.push(frames, seq).wf(),
        state.push(frames, seq).capacity == state.capacity,
        state.push(frames, seq).channels == state.channels,
        state.push(frames, seq).sample_rate == state.sample_rate,
    decreases frames.len(),
{
    if frames.len() > 0 {
        lemma_push_keeps_wf(state, frames.drop_last(), seq);
        lemma_accept_keeps_wf(
            state.push(frames.drop_last(), seq),
            frames.last(),
            seq_after(seq, (frames.len() - 1) as nat),
        );
    }
}

/// A pull hands out exactly `n` frames, each of the stream's width, and
/// leaves the buffer well-formed.
pub proof fn lemma_pull_keeps_wf(state: BufferState, n: nat)
    requires
        state.wf(),
    ensures
        state.pulled(n).len() == n,
        all_width(state.pulled(n), state.channels as nat),
        state.after_pull(n).wf(),
{
}

} // verus!
