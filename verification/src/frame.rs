//! One point in time of a PCM stream: one sample per channel.
//!
//! A sample is a normalised amplitude in signed 16-bit fixed point: the value
//! `v` stands for `v / 32768`, so `0` is silence.

use vstd::prelude::*;

verus! {

/// The all-zero frame of the given width.
pub open spec fn silence_frame(channels: nat) -> Seq<i16> {
    Seq::new(channels, |c: int| 0i16)
}

/// The sample sequences of a run of frames.
pub open spec fn frame_views(frames: Seq<SampleFrame>) -> Seq<Seq<i16>> {
    Seq::new(frames.len(), |i: int| frames[i]@)
}

/// The sample sequences of a run with one more frame behind it.
pub proof fn lemma_frame_views_push(frames: Seq<SampleFrame>, frame: SampleFrame)
    ensures
        frame_views(frames.push(frame)) == frame_views(frames).push(frame@),
{
    assert(frame_views(frames.push(frame)) =~= frame_views(frames).push(frame@));
}

/// `count` frames of silence, each `channels` wide.
pub open spec fn silence_run(count: nat, channels: nat) -> Seq<Seq<i16>> {
    Seq::new(count, |i: int| silence_frame(channels))
}

/// The samples of one instant, one per channel. A frame is never modified
/// after it has been built.
#[derive(Debug, PartialEq, Eq)]
pub struct SampleFrame {
    samples: Vec<i16>,
}

impl View for SampleFrame {
    type V = Seq<i16>;

    closed spec fn view(&self) -> Seq<i16> {
        self.samples@
    }
}

impl Clone for SampleFrame {
    fn clone(&self) -> (copy: Self)
        ensures
            copy@ == self@,
    {
        let samples = self.samples.clone();
        SampleFrame { samples }
    }
}

impl SampleFrame {
    /// Builds a frame from its samples, channel 0 first.
    pub fn new(samples: Vec<i16>) -> (frame: Self)
        ensures
            frame@ == samples@,
    {
        SampleFrame { samples }
    }

    /// The silent frame of `channels` samples.
    pub fn silence(channels: usize) -> (frame: Self)
        ensures
            frame@ == silence_frame(channels as nat),
    {
        let mut samples: Vec<i16> = Vec::new();
        let mut c: usize = 0;
        while c < channels
            invariant
                c <= channels,
                samples@ == silence_frame(c as nat),
            decreases channels - c,
        {
            samples.push(0i16);
            c = c + 1;
        }
        SampleFrame { samples }
    }

    /// How many channels the frame carries.
    pub fn channels(&self) -> (n: usize)
        ensures
            n == self@.len(),
    {
        self.samples.len()
    }

    /// The sample of one channel, or `None` past the last channel.
    pub fn sample(&self, channel: usize) -> (s: Option<i16>)
        ensures
            s == if channel < self@.len() {
                Some(self@[channel as int])
            } else {
                None
            },
    {
        if channel < self.samples.len() {
            Some(self.samples[channel])
        } else {
            None
        }
    }

    /// All samples, channel 0 first.
    pub fn samples(&self) -> (s: &[i16])
        ensures
            s@ == self@,
    {
        self.samples.as_slice()
    }
}

} // verus!
