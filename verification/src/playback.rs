//! The playback side: exactly as many frames as the device asks for, in the
//! device's channel layout and sample representation.

use crate::config::ConfigError;
use crate::frame::{frame_views, lemma_frame_views_push, silence_run, SampleFrame};
use crate::jitter::JitterBuffer;
use crate::sample::{narrow_u8, offset_u16, pcm_to_u16, pcm_to_u8};
use vstd::prelude::*;

verus! {

/// How many channels lie at or behind `from`.
pub open spec fn channels_left(channels: int, from: int) -> nat {
    if from < channels {
        (channels - from) as nat
    } else {
        0
    }
}

/// The sum of the samples at channels `from`, `from + step`, `from + 2 step`
/// and so on.
pub open spec fn lane_sum(frame: Seq<i16>, from: int, step: int) -> int
    decreases channels_left(frame.len() as int, from),
{
    if 0 < step && 0 <= from < frame.len() {
        frame[from] + lane_sum(frame, from + step, step)
    } else {
        0
    }
}

/// How many of the channels `from`, `from + step`, `from + 2 step` and so on
/// lie below `channels`.
pub open spec fn lane_len(channels: int, from: int, step: int) -> int
    decreases channels_left(channels, from),
{
    if 0 < step && 0 <= from < channels {
        1 + lane_len(channels, from + step, step)
    } else {
        0
    }
}

/// The sample of output channel `j` when a frame is laid out on `out`
/// channels.
///
/// With at least as many output channels as the frame has, the frame's
/// channels are repeated in turn. With fewer, output channel `j` is the
/// average, rounded down, of the frame's channels `j`, `j + out`,
/// `j + 2 out` and so on. Where there is nothing to take (an empty frame, a
/// layout without channels, a place behind the frame's last channel), the
/// sample is silence.
pub open spec fn mixed_sample(frame: Seq<i16>, out: nat, j: int) -> i16 {
    if frame.len() == 0 || out == 0 {
        0
    } else if out >= frame.len() {
        frame[j % (frame.len() as int)]
    } else if j >= frame.len() {
        0
    } else {
        (lane_sum(frame, j, out as int) / lane_len(frame.len() as int, j, out as int)) as i16
    }
}

/// A frame laid out on `out` channels.
pub open spec fn mix_frame(frame: Seq<i16>, out: nat) -> Seq<i16> {
    Seq::new(out, |j: int| mixed_sample(frame, out, j))
}

/// Frames of `width` samples each, written one after the other.
pub open spec fn interleaved(frames: Seq<Seq<i16>>, width: nat) -> Seq<i16> {
    Seq::new(frames.len() * width, |k: int| frames[k / (width as int)][k % (width as int)])
}

/// Frames laid out on `out` channels each and written one after the other.
pub open spec fn laid_out(frames: Seq<Seq<i16>>, out: nat) -> Seq<i16> {
    interleaved(Seq::new(frames.len(), |i: int| mix_frame(frames[i], out)), out)
}

/// How a device numbers its samples.
#[derive(Clone, Copy, Debug, PartialEq, Eq, Structural)]
pub enum SampleKind {
    /// Signed integers, silence at zero.
    Signed,
    /// Unsigned integers, silence at the middle of the range.
    Unsigned,
    /// Floating point.
    Float,
}

/// The sample representations the driver can render to.
#[derive(Clone, Copy, Debug, PartialEq, Eq, Structural)]
pub enum NativeFormat {
    /// Signed 16-bit.
    I16,
    /// Unsigned 16-bit.
    U16,
    /// Unsigned 8-bit.
    U8,
}

/// A buffer of samples in a device's own representation.
#[derive(Debug, PartialEq, Eq)]
pub enum NativeSamples {
    /// Signed 16-bit samples.
    I16(Vec<i16>),
    /// Unsigned 16-bit samples.
    U16(Vec<u16>),
    /// Unsigned 8-bit samples.
    U8(Vec<u8>),
}

/// A buffer of native samples as a mathematical value.
pub enum NativeView {
    /// Signed 16-bit samples.
    I16(Seq<i16>),
    /// Unsigned 16-bit samples.
    U16(Seq<u16>),
    /// Unsigned 8-bit samples.
    U8(Seq<u8>),
}

impl NativeView {
    /// How many samples the buffer holds.
    pub open spec fn len(self) -> nat {
        match self {
            NativeView::I16(samples) => samples.len(),
            NativeView::U16(samples) => samples.len(),
            NativeView::U8(samples) => samples.len(),
        }
    }
}

impl NativeSamples {
    /// How many samples the buffer holds.
    pub fn len(&self) -> (n: usize)
        ensures
            n == self@.len(),
    {
        match self {
            NativeSamples::I16(samples) => samples.len(),
            NativeSamples::U16(samples) => samples.len(),
            NativeSamples::U8(samples) => samples.len(),
        }
    }
}

impl View for NativeSamples {
    type V = NativeView;

    open spec fn view(&self) -> NativeView {
        match self {
            NativeSamples::I16(samples) => NativeView::I16(samples@),
            NativeSamples::U16(samples) => NativeView::U16(samples@),
            NativeSamples::U8(samples) => NativeView::U8(samples@),
        }
    }
}

/// Signed 16-bit samples in the given native representation.
pub open spec fn native(format: NativeFormat, pcm: Seq<i16>) -> NativeView {
    match format {
        NativeFormat::I16 => NativeView::I16(pcm),
        NativeFormat::U16 => NativeView::U16(Seq::new(pcm.len(), |k: int| offset_u16(pcm[k]))),
        NativeFormat::U8 => NativeView::U8(Seq::new(pcm.len(), |k: int| narrow_u8(pcm[k]))),
    }
}

/// The representation to render to for a device that numbers its samples as
/// `kind` with `bits` bits each.
pub open spec fn negotiated(kind: SampleKind, bits: u8) -> Option<NativeFormat> {
    if kind == SampleKind::Signed && bits == 16 {
        Some(NativeFormat::I16)
    } else if kind == SampleKind::Unsigned && bits == 16 {
        Some(NativeFormat::U16)
    } else if kind == SampleKind::Unsigned && bits == 8 {
        Some(NativeFormat::U8)
    } else {
        None
    }
}

impl NativeFormat {
    /// Chooses the representation for a device, or reports that the device's
    /// representation cannot be rendered to. This is the one place where a
    /// format can be refused: rendering itself never fails.
    pub fn negotiate(kind: SampleKind, bits: u8) -> (r: Result<NativeFormat, ConfigError>)
        ensures
            match negotiated(kind, bits) {
                Some(format) => r == Ok::<NativeFormat, ConfigError>(format),
                None => r == Err::<NativeFormat, ConfigError>(ConfigError::UnsupportedFormat),
            },
    {
        match kind {
            SampleKind::Signed => {
                if bits == 16 {
                    Ok(NativeFormat::I16)
                } else {
                    Err(ConfigError::UnsupportedFormat)
                }
            },
            SampleKind::Unsigned => {
                if bits == 16 {
                    Ok(NativeFormat::U16)
                } else if bits == 8 {
                    Ok(NativeFormat::U8)
                } else {
                    Err(ConfigError::UnsupportedFormat)
                }
            },
            SampleKind::Float => Err(ConfigError::UnsupportedFormat),
        }
    }
}

/// An average of 16-bit samples is a 16-bit sample.
proof fn lemma_average_in_range(sum: int, count: int)
    requires
        count >= 1,
        -32768 * count <= sum <= 32767 * count,
    ensures
        -32768 <= sum / count <= 32767,
        (sum + 32768 * count) / count == sum / count + 32768,
{
    vstd::arithmetic::div_mod::lemma_fundamental_div_mod(sum, count);
    vstd::arithmetic::div_mod::lemma_mod_bound(sum, count);
    let q = sum / count;
    assert(-32768 <= q <= 32767) by (nonlinear_arith)
        requires
            count >= 1,
            -32768 * count <= sum <= 32767 * count,
            sum == count * q + sum % count,
            0 <= sum % count < count,
    ;
    vstd::arithmetic::div_mod::lemma_hoist_over_denominator(sum, 32768, count as nat);
}

/// Position `f * width + j` of an interleaved buffer belongs to frame `f`,
/// channel `j`.
proof fn lemma_position(f: int, j: int, width: int)
    requires
        0 <= f,
        0 <= j < width,
    ensures
        (f * width + j) / width == f,
        (f * width + j) % width == j,
        (f + 1) * width == f * width + width,
        0 <= f * width,
{
    vstd::arithmetic::div_mod::lemma_fundamental_div_mod_converse(f * width + j, width, f, j);
    assert((f + 1) * width == f * width + width) by (nonlinear_arith);
    assert(0 <= f * width) by (nonlinear_arith)
        requires
            0 <= f,
            0 < width,
    ;
}

/// Every position below `count * width` belongs to a frame below `count`.
proof fn lemma_position_bounds(k: int, count: int, width: int)
    requires
        0 <= k < count * width,
        0 < width,
    ensures
        0 <= k / width < count,
        0 <= k % width < width,
{
    vstd::arithmetic::div_mod::lemma_fundamental_div_mod(k, width);
    vstd::arithmetic::div_mod::lemma_mod_bound(k, width);
    let q = k / width;
    assert(0 <= q < count) by (nonlinear_arith)
        requires
            0 <= k < count * width,
            0 < width,
            k == width * q + k % width,
            0 <= k % width < width,
    ;
}

/// What stands at each position of frames laid out on `out` channels.
proof fn lemma_laid_out_at(frames: Seq<Seq<i16>>, out: nat)
    requires
        out >= 1,
    ensures
        laid_out(frames, out).len() == frames.len() * out,
        forall|k: int|
            0 <= k < frames.len() * out ==> #[trigger] laid_out(frames, out)[k] == mixed_sample(
                frames[k / (out as int)],
                out,
                k % (out as int),
            ),
{
    assert forall|k: int| 0 <= k < frames.len() * out implies #[trigger] laid_out(frames, out)[k]
        == mixed_sample(frames[k / (out as int)], out, k % (out as int)) by {
        lemma_position_bounds(k, frames.len() as int, out as int);
    }
}

/// The sample of output channel `j` when `frame` is laid out on `out`
/// channels.
pub fn mix_sample(frame: &SampleFrame, out: usize, j: usize) -> (s: i16)
    ensures
        s == mixed_sample(frame@, out as nat, j as int),
{
    let samples = frame.samples();
    let channels: usize = samples.len();
    if channels == 0 || out == 0 {
        0
    } else if out >= channels {
        samples[j % channels]
    } else if j >= channels {
        0
    } else {
        let mut total: u128 = 0;
        let mut count: u128 = 0;
        let mut at: usize = j;
        while at < channels
            invariant
                j <= at <= channels,
                0 < out < channels,
                channels == samples@.len(),
                samples@ == frame@,
                count <= at,
                at > j ==> count >= 1,
                total == (lane_sum(frame@, j as int, out as int) - lane_sum(
                    frame@,
                    at as int,
                    out as int,
                )) + 32768 * count,
                count == lane_len(channels as int, j as int, out as int) - lane_len(
                    channels as int,
                    at as int,
                    out as int,
                ),
                0 <= total <= 65535 * count,
            decreases channels - at,
        {
            proof {
                let next = at as int + out as int;
                assert(lane_sum(frame@, at as int, out as int) == frame@[at as int] + lane_sum(
                    frame@,
                    next,
                    out as int,
                ));
                assert(lane_len(channels as int, at as int, out as int) == 1 + lane_len(
                    channels as int,
                    next,
                    out as int,
                ));
            }
            total = total + ((samples[at] as i32 + 32768) as u128);
            count = count + 1;
            if out >= channels - at {
                at = channels;
            } else {
                at = at + out;
            }
        }
        proof {
            lemma_average_in_range(total - 32768 * count, count as int);
        }
        let average: u128 = total / count;
        ((average as i32) - 32768) as i16
    }
}

/// Renders what the jitter buffer holds for one audio device.
#[derive(Clone, Copy, Debug, PartialEq, Eq)]
pub struct PlaybackDriver {
    channels: u16,
    format: NativeFormat,
}

impl PlaybackDriver {
    #[verifier::type_invariant]
    spec fn inv(self) -> bool {
        self.channels >= 1
    }

    /// The device's channel count.
    pub closed spec fn spec_channels(self) -> nat {
        self.channels as nat
    }

    /// The device's sample representation.
    pub closed spec fn spec_format(self) -> NativeFormat {
        self.format
    }

    /// A driver for a device with `channels` channels and the given sample
    /// representation. A device without channels is refused.
    pub fn new(channels: u16, format: NativeFormat) -> (r: Result<Self, ConfigError>)
        ensures
            channels == 0 ==> r is Err && r->Err_0 == ConfigError::ZeroChannels,
            channels != 0 ==> r is Ok && r->Ok_0.spec_channels() == channels
                && r->Ok_0.spec_format() == format,
    {
        if channels == 0 {
            Err(ConfigError::ZeroChannels)
        } else {
            Ok(PlaybackDriver { channels, format })
        }
    }

    /// The device's channel count.
    pub fn channels(&self) -> (n: u16)
        ensures
            n == self.spec_channels(),
            n >= 1,
    {
        proof {
            use_type_invariant(self);
        }
        self.channels
    }

    /// The device's sample representation.
    pub fn format(&self) -> (format: NativeFormat)
        ensures
            format == self.spec_format(),
    {
        self.format
    }

    /// Signed 16-bit samples in the device's representation.
    fn encode(&self, pcm: Vec<i16>) -> (samples: NativeSamples)
        ensures
            samples@ == native(self.spec_format(), pcm@),
    {
        match self.format {
            NativeFormat::I16 => NativeSamples::I16(pcm),
            NativeFormat::U16 => {
                let mut out: Vec<u16> = Vec::new();
                let mut k: usize = 0;
                while k < pcm.len()
                    invariant
                        k <= pcm.len(),
                        out.len() == k,
                        forall|i: int| 0 <= i < k ==> out[i] == offset_u16(pcm[i]),
                    decreases pcm.len() - k,
                {
                    out.push(pcm_to_u16(pcm[k]));
                    k = k + 1;
                }
                assert(out@ =~= Seq::new(pcm@.len(), |i: int| offset_u16(pcm@[i])));
                NativeSamples::U16(out)
            },
            NativeFormat::U8 => {
                let mut out: Vec<u8> = Vec::new();
                let mut k: usize = 0;
                while k < pcm.len()
                    invariant
                        k <= pcm.len(),
                        out.len() == k,
                        forall|i: int| 0 <= i < k ==> out[i] == narrow_u8(pcm[i]),
                    decreases pcm.len() - k,
                {
                    out.push(pcm_to_u8(pcm[k]));
                    k = k + 1;
                }
                assert(out@ =~= Seq::new(pcm@.len(), |i: int| narrow_u8(pcm@[i])));
                NativeSamples::U8(out)
            },
        }
    }

    /// Lays frames out on the device's channels, one frame after the other.
    fn lay_out(&self, frames: &Vec<SampleFrame>) -> (pcm: Vec<i16>)
        ensures
            pcm@ == laid_out(frame_views(frames@), self.spec_channels()),
    {
        proof {
            use_type_invariant(self);
        }
        let out: usize = self.channels as usize;
        let ghost views = frame_views(frames@);
        let mut pcm: Vec<i16> = Vec::new();
        let mut f: usize = 0;
        while f < frames.len()
            invariant
                f <= frames.len(),
                out == self.channels,
                out >= 1,
                views == frame_views(frames@),
                pcm.len() == f * out,
                forall|k: int|
                    0 <= k < pcm.len() ==> #[trigger] pcm[k] == mixed_sample(
                        views[k / (out as int)],
                        out as nat,
                        k % (out as int),
                    ),
            decreases frames.len() - f,
        {
            let mut j: usize = 0;
            while j < out
                invariant
                    j <= out,
                    f < frames.len(),
                    out >= 1,
                    views == frame_views(frames@),
                    pcm.len() == f * out + j,
                    forall|k: int|
                        0 <= k < pcm.len() ==> #[trigger] pcm[k] == mixed_sample(
                            views[k / (out as int)],
                            out as nat,
                            k % (out as int),
                        ),
                decreases out - j,
            {
                let s: i16 = mix_sample(&frames[f], out, j);
                proof {
                    lemma_position(f as int, j as int, out as int);
                }
                pcm.push(s);
                j = j + 1;
            }
            proof {
                lemma_position(f as int, 0, out as int);
            }
            f = f + 1;
        }
        proof {
            lemma_laid_out_at(views, out as nat);
        }
        pcm
    }

    /// Supplies the device with exactly `requested` frames: they are pulled
    /// from the jitter buffer, which fills what it does not have with
    /// silence; each frame is laid out on the device's channels; and each
    /// sample is put into the device's representation. The result holds
    /// `requested` times the device's channel count samples, frame after
    /// frame. Rendering never fails and never waits.
    pub fn render(&self, buffer: &mut JitterBuffer, requested: usize) -> (samples: NativeSamples)
        requires
            old(buffer).wf(),
        ensures
            final(buffer).wf(),
            final(buffer)@ == old(buffer)@.after_pull(requested as nat),
            samples@ == native(
                self.spec_format(),
                laid_out(old(buffer)@.pulled(requested as nat), self.spec_channels()),
            ),
            samples@.len() == requested * self.spec_channels(),
    {
        proof {
            use_type_invariant(self);
        }
        let frames = buffer.pull(requested);
        let pcm = self.lay_out(&frames);
        proof {
            lemma_laid_out_at(frame_views(frames@), self.spec_channels());
        }
        self.encode(pcm)
    }

    /// `requested` frames of silence in the device's layout and
    /// representation: what to play when the jitter buffer cannot be had
    /// without waiting.
    pub fn render_silence(&self, requested: usize) -> (samples: NativeSamples)
        ensures
            samples@ == native(
                self.spec_format(),
                laid_out(silence_run(requested as nat, 1), self.spec_channels()),
            ),
            samples@.len() == requested * self.spec_channels(),
    {
        proof {
            use_type_invariant(self);
        }
        let mut frames: Vec<SampleFrame> = Vec::new();
        let mut i: usize = 0;
        while i < requested
            invariant
                i <= requested,
                frames.len() == i,
                frame_views(frames@) == silence_run(i as nat, 1),
            decreases requested - i,
        {
            let frame = SampleFrame::silence(1);
            proof {
                lemma_frame_views_push(frames@, frame);
            }
            frames.push(frame);
            i = i + 1;
            assert(frame_views(frames@) =~= silence_run(i as nat, 1));
        }
        let pcm = self.lay_out(&frames);
        proof {
            lemma_laid_out_at(frame_views(frames@), self.spec_channels());
        }
        self.encode(pcm)
    }

    /// Renders from the buffer if it could be had without waiting, and
    /// silence if it could not: a missed deadline is worse than a moment of
    /// silence.
    pub fn render_or_silence(&self, buffer: Option<&mut JitterBuffer>, requested: usize) -> (samples:
        NativeSamples)
        requires
            buffer matches Some(b) ==> b.wf(),
        ensures
            match buffer {
                Some(b) => final(b).wf() && final(b)@ == b@.after_pull(requested as nat)
                    && samples@ == native(
                    self.spec_format(),
                    laid_out(b@.pulled(requested as nat), self.spec_channels()),
                ),
                None => samples@ == native(
                    self.spec_format(),
                    laid_out(silence_run(requested as nat, 1), self.spec_channels()),
                ),
            },
            samples@.len() == requested * self.spec_channels(),
    {
        match buffer {
            Some(b) => self.render(b, requested),
            None => self.render_silence(requested),
        }
    }
}

} // verus!
