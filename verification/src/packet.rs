//! The datagram framing.
//!
//! A packet is a 12-byte header followed by the payload. All header fields
//! are big-endian:
//!
//! | bytes  | field                                             |
//! |--------|---------------------------------------------------|
//! | 0..4   | sequence number of the first frame                |
//! | 4..8   | sample rate in frames per second, not zero        |
//! | 8..10  | channel count, not zero                           |
//! | 10..12 | sample format: 0 = unsigned 8-bit, 1 = signed 16-bit big-endian |
//!
//! The payload holds whole frames, each one sample per channel, channel 0
//! first.

use crate::frame::{frame_views, lemma_frame_views_push, SampleFrame};
use crate::sample::{i16_from_be, pcm_from_u8, signed_be16, widen_u8};
use vstd::prelude::*;
use vstd::slice::{slice_subrange, slice_to_vec};

verus! {

/// Length of the packet header in bytes.
pub const HEADER_LEN: usize = 12;

/// How the samples of a payload are encoded.
#[derive(Clone, Copy, Debug, PartialEq, Eq, Structural)]
pub enum WireFormat {
    /// One byte per sample, unsigned, silence at 128.
    U8,
    /// Two bytes per sample, signed, high byte first.
    I16,
}

/// Why a datagram is not a packet.
#[derive(Clone, Copy, Debug, PartialEq, Eq, Structural)]
pub enum PacketError {
    /// Shorter than the header.
    Truncated,
    /// The sample rate is zero.
    ZeroSampleRate,
    /// The channel count is zero.
    ZeroChannels,
    /// The format field holds a value that names no format.
    UnknownFormat,
    /// The payload does not end on a frame boundary.
    RaggedPayload,
}

impl WireFormat {
    /// Bytes per sample.
    pub open spec fn width(self) -> nat {
        match self {
            WireFormat::U8 => 1,
            WireFormat::I16 => 2,
        }
    }

    /// The format that a header's format field names.
    pub open spec fn of_tag(tag: int) -> Option<WireFormat> {
        if tag == 0 {
            Some(WireFormat::U8)
        } else if tag == 1 {
            Some(WireFormat::I16)
        } else {
            None
        }
    }

    /// Bytes per sample.
    pub fn sample_bytes(&self) -> (n: usize)
        ensures
            n == self.width(),
    {
        match self {
            WireFormat::U8 => 1,
            WireFormat::I16 => 2,
        }
    }

    /// The format that a header's format field names, if any.
    pub fn from_tag(tag: u16) -> (format: Option<WireFormat>)
        ensures
            format == WireFormat::of_tag(tag as int),
    {
        if tag == 0 {
            Some(WireFormat::U8)
        } else if tag == 1 {
            Some(WireFormat::I16)
        } else {
            None
        }
    }
}

/// The big-endian number held by the two bytes at `at`.
pub open spec fn be16(bytes: Seq<u8>, at: int) -> int {
    bytes[at] as int * 256 + bytes[at + 1] as int
}

/// The big-endian number held by the four bytes at `at`.
pub open spec fn be32(bytes: Seq<u8>, at: int) -> int {
    bytes[at] as int * 16777216 + bytes[at + 1] as int * 65536 + bytes[at + 2] as int * 256
        + bytes[at + 3] as int
}

/// A parsed packet as a mathematical value.
pub struct PacketView {
    /// Sequence number of the first frame of the payload.
    pub sequence: u32,
    /// Frames per second.
    pub sample_rate: u32,
    /// Samples per frame.
    pub channels: u16,
    /// Encoding of the payload.
    pub format: WireFormat,
    /// The raw samples.
    pub payload: Seq<u8>,
}

impl PacketView {
    /// Bytes per frame.
    pub open spec fn frame_bytes(self) -> nat {
        self.channels as nat * self.format.width()
    }

    /// How many whole frames the payload holds.
    pub open spec fn frame_count(self) -> nat {
        if self.channels == 0 {
            0
        } else {
            self.payload.len() / self.frame_bytes()
        }
    }

    /// The `k`-th sample of the payload.
    pub open spec fn sample(self, k: int) -> i16 {
        match self.format {
            WireFormat::U8 => widen_u8(self.payload[k]),
            WireFormat::I16 => signed_be16(self.payload[2 * k], self.payload[2 * k + 1]),
        }
    }

    /// The `f`-th frame of the payload.
    pub open spec fn frame(self, f: int) -> Seq<i16> {
        Seq::new(self.channels as nat, |c: int| self.sample(f * self.channels + c))
    }

    /// All whole frames of the payload, in order.
    pub open spec fn frames(self) -> Seq<Seq<i16>> {
        Seq::new(self.frame_count(), |f: int| self.frame(f))
    }
}

/// What a datagram parses to: the packet it holds, or the first fault found,
/// going through the header from the front and then to the payload.
pub open spec fn parse_packet(bytes: Seq<u8>) -> Result<PacketView, PacketError> {
    if bytes.len() < HEADER_LEN {
        Err(PacketError::Truncated)
    } else if be32(bytes, 4) == 0 {
        Err(PacketError::ZeroSampleRate)
    } else if be16(bytes, 8) == 0 {
        Err(PacketError::ZeroChannels)
    } else {
        match WireFormat::of_tag(be16(bytes, 10)) {
            None => Err(PacketError::UnknownFormat),
            Some(format) => {
                if (bytes.len() - HEADER_LEN) % (be16(bytes, 8) * format.width() as int) != 0 {
                    Err(PacketError::RaggedPayload)
                } else {
                    Ok(
                        PacketView {
                            sequence: be32(bytes, 0) as u32,
                            sample_rate: be32(bytes, 4) as u32,
                            channels: be16(bytes, 8) as u16,
                            format,
                            payload: bytes.skip(HEADER_LEN as int),
                        },
                    )
                }
            },
        }
    }
}

/// One datagram's worth of samples with the stream parameters it was
/// encoded at. A packet lives only until its frames are in the buffer.
#[derive(Debug, PartialEq, Eq)]
pub struct Packet {
    /// Sequence number of the first frame of the payload.
    pub sequence: u32,
    /// Frames per second.
    pub sample_rate: u32,
    /// Samples per frame.
    pub channels: u16,
    /// Encoding of the payload.
    pub format: WireFormat,
    /// The raw samples.
    pub payload: Vec<u8>,
}

impl View for Packet {
    type V = PacketView;

    open spec fn view(&self) -> PacketView {
        PacketView {
            sequence: self.sequence,
            sample_rate: self.sample_rate,
            channels: self.channels,
            format: self.format,
            payload: self.payload@,
        }
    }
}

fn read_u16(bytes: &[u8], at: usize) -> (r: u16)
    requires
        at + 2 <= bytes.len(),
    ensures
        r == be16(bytes@, at as int),
{
    (bytes[at] as u16) * 256 + (bytes[at + 1] as u16)
}

fn read_u32(bytes: &[u8], at: usize) -> (r: u32)
    requires
        at + 4 <= bytes.len(),
    ensures
        r == be32(bytes@, at as int),
{
    (bytes[at] as u32) * 16777216 + (bytes[at + 1] as u32) * 65536 + (bytes[at + 2] as u32) * 256
        + (bytes[at + 3] as u32)
}

/// Sample `f * channels + c` lies wholly inside a payload of `count` frames.
proof fn lemma_sample_in_payload(f: int, c: int, count: int, channels: int, width: int, len: int)
    by (nonlinear_arith)
    requires
        0 <= f < count,
        0 <= c < channels,
        1 <= width,
        count * (channels * width) <= len,
    ensures
        0 <= f * channels + c,
        (f * channels + c + 1) * width <= len,
        (f + 1) * channels == f * channels + channels,
{
}

impl Packet {
    /// Parses a datagram: the header fields are read, checked in order, and
    /// the payload is taken as it stands.
    pub fn parse(datagram: &[u8]) -> (r: Result<Packet, PacketError>)
        ensures
            match parse_packet(datagram@) {
                Ok(packet) => r is Ok && r->Ok_0@ == packet,
                Err(e) => r is Err && r->Err_0 == e,
            },
    {
        if datagram.len() < HEADER_LEN {
            return Err(PacketError::Truncated);
        }
        let sequence: u32 = read_u32(datagram, 0);
        let sample_rate: u32 = read_u32(datagram, 4);
        let channels: u16 = read_u16(datagram, 8);
        let tag: u16 = read_u16(datagram, 10);
        if sample_rate == 0 {
            return Err(PacketError::ZeroSampleRate);
        }
        if channels == 0 {
            return Err(PacketError::ZeroChannels);
        }
        let format = match WireFormat::from_tag(tag) {
            Some(format) => format,
            None => {
                return Err(PacketError::UnknownFormat);
            },
        };
        let frame_bytes: usize = (channels as usize) * format.sample_bytes();
        if (datagram.len() - HEADER_LEN) % frame_bytes != 0 {
            return Err(PacketError::RaggedPayload);
        }
        let payload = slice_to_vec(slice_subrange(datagram, HEADER_LEN, datagram.len()));
        Ok(Packet { sequence, sample_rate, channels, format, payload })
    }

    /// Decodes the `k`-th sample of the payload.
    fn sample_at(&self, k: usize) -> (s: i16)
        requires
            (k + 1) * self.format.width() <= self.payload.len(),
        ensures
            s == self@.sample(k as int),
    {
        match self.format {
            WireFormat::U8 => pcm_from_u8(self.payload[k]),
            WireFormat::I16 => i16_from_be(self.payload[2 * k], self.payload[2 * k + 1]),
        }
    }

    /// Decodes the payload into frames of signed 16-bit samples. Bytes
    /// behind the last whole frame are ignored, and a packet without
    /// channels has no frames.
    pub fn frames(&self) -> (frames: Vec<SampleFrame>)
        ensures
            frame_views(frames@) == self@.frames(),
    {
        let mut frames: Vec<SampleFrame> = Vec::new();
        let channels: usize = self.channels as usize;
        let width: usize = self.format.sample_bytes();
        if channels == 0 {
            return frames;
        }
        let frame_bytes: usize = channels * width;
        let count: usize = self.payload.len() / frame_bytes;
        proof {
            vstd::arithmetic::div_mod::lemma_fundamental_div_mod(
                self.payload.len() as int,
                frame_bytes as int,
            );
            assert(count * (channels * width) == frame_bytes * count) by (nonlinear_arith)
                requires
                    frame_bytes == channels * width,
            ;
        }
        let mut f: usize = 0;
        let mut k: usize = 0;
        while f < count
            invariant
                f <= count,
                k == f * channels,
                channels == self.channels,
                channels >= 1,
                width == self.format.width(),
                count == self@.frame_count(),
                count * (channels * width) <= self.payload.len(),
                frames.len() == f,
                frame_views(frames@) == self@.frames().take(f as int),
            decreases count - f,
        {
            let mut samples: Vec<i16> = Vec::new();
            let mut c: usize = 0;
            while c < channels
                invariant
                    c <= channels,
                    f < count,
                    k == f * channels + c,
                    channels == self.channels,
                    width == self.format.width(),
                    count * (channels * width) <= self.payload.len(),
                    samples@ == self@.frame(f as int).take(c as int),
                decreases channels - c,
            {
                proof {
                    lemma_sample_in_payload(
                        f as int,
                        c as int,
                        count as int,
                        channels as int,
                        width as int,
                        self.payload.len() as int,
                    );
                }
                let s: i16 = self.sample_at(k);
                samples.push(s);
                c = c + 1;
                k = k + 1;
            }
            proof {
                lemma_sample_in_payload(
                    f as int,
                    0,
                    count as int,
                    channels as int,
                    width as int,
                    self.payload.len() as int,
                );
            }
            let frame = SampleFrame::new(samples);
            proof {
                assert(frame@ =~= self@.frame(f as int));
                lemma_frame_views_push(frames@, frame);
            }
            frames.push(frame);
            f = f + 1;
            assert(frame_views(frames@) =~= self@.frames().take(f as int));
        }
        frames
    }
}

} // verus!
