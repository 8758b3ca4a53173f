//! Stream parameters fixed at the start of a session.

use vstd::prelude::*;

verus! {

/// The largest ring the buffer accepts, in frames: one less than half the
/// range of a sequence number, so that "ahead" and "behind" never overlap.
pub const MAX_CAPACITY: usize = 0x7fff_ffff;

/// Why a configuration cannot be used.
#[derive(Clone, Copy, Debug, PartialEq, Eq, Structural)]
pub enum ConfigError {
    /// The sample rate is zero.
    ZeroSampleRate,
    /// The channel count is zero.
    ZeroChannels,
    /// The buffer depth holds less than one frame at this rate.
    DepthTooShort,
    /// The buffer depth holds more than `MAX_CAPACITY` frames at this rate.
    DepthTooLong,
    /// The device's sample representation is none that can be rendered to.
    UnsupportedFormat,
}

/// Sample rate, channel count and target buffer depth of one session.
#[derive(Clone, Copy, Debug, PartialEq, Eq, Structural)]
pub struct StreamConfig {
    /// Frames per second.
    pub sample_rate: u32,
    /// Samples per frame.
    pub channels: u16,
    /// Target depth of the jitter buffer, in milliseconds of audio.
    pub depth_ms: u32,
}

/// How many whole frames `depth_ms` milliseconds hold at `sample_rate`.
pub open spec fn depth_in_frames(sample_rate: u32, depth_ms: u32) -> nat {
    ((sample_rate as nat) * (depth_ms as nat)) / 1000
}

impl StreamConfig {
    /// The ring capacity this configuration asks for, or the first reason
    /// why it is unusable.
    pub open spec fn check(self) -> Result<nat, ConfigError> {
        if self.sample_rate == 0 {
            Err(ConfigError::ZeroSampleRate)
        } else if self.channels == 0 {
            Err(ConfigError::ZeroChannels)
        } else if depth_in_frames(self.sample_rate, self.depth_ms) == 0 {
            Err(ConfigError::DepthTooShort)
        } else if depth_in_frames(self.sample_rate, self.depth_ms) > MAX_CAPACITY {
            Err(ConfigError::DepthTooLong)
        } else {
            Ok(depth_in_frames(self.sample_rate, self.depth_ms))
        }
    }

    /// Groups the three parameters; nothing is checked yet.
    pub fn new(sample_rate: u32, channels: u16, depth_ms: u32) -> (config: Self)
        ensures
            config == (StreamConfig { sample_rate, channels, depth_ms }),
    {
        StreamConfig { sample_rate, channels, depth_ms }
    }

    /// Validates the configuration and computes the ring capacity in frames.
    pub fn capacity_frames(&self) -> (r: Result<usize, ConfigError>)
        ensures
            match self.check() {
                Ok(frames) => r == Ok::<usize, ConfigError>(frames as usize) && 1 <= frames
                    <= MAX_CAPACITY,
                Err(e) => r == Err::<usize, ConfigError>(e),
            },
    {
        if self.sample_rate == 0 {
            return Err(ConfigError::ZeroSampleRate);
        }
        if self.channels == 0 {
            return Err(ConfigError::ZeroChannels);
        }
        let rate: u64 = self.sample_rate as u64;
        let depth: u64 = self.depth_ms as u64;
        assert(rate * depth <= 0xffff_ffff * 0xffff_ffff) by (nonlinear_arith)
            requires
                rate <= 0xffff_ffff,
                depth <= 0xffff_ffff,
        ;
        let frames: u64 = rate * depth / 1000;
        if frames == 0 {
            Err(ConfigError::DepthTooShort)
        } else if frames > 0x7fff_ffff {
            Err(ConfigError::DepthTooLong)
        } else {
            Ok(frames as usize)
        }
    }
}

} // verus!
