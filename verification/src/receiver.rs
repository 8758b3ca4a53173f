//! The network side: what to do with each thing the transport hands over.
//!
//! Waiting for the transport is the caller's business. The caller hands in
//! every datagram it receives, and the failure that ends the stream; the
//! receiver decides what goes into the jitter buffer and whether to go on.

use crate::jitter::JitterBuffer;
use crate::packet::{parse_packet, Packet, PacketError};
use crate::state::{bump, BufferState};
use vstd::prelude::*;

verus! {

/// What the transport handed over.
pub enum Received<'a> {
    /// The bytes of one datagram.
    Datagram(&'a [u8]),
    /// The transport is closed or can no longer be read.
    TransportFailed,
}

/// Whether the receive loop goes on.
#[derive(Clone, Copy, Debug, PartialEq, Eq, Structural)]
pub enum Flow {
    /// Wait for the next datagram.
    Continue,
    /// The transport has failed: the stream is over.
    Terminated,
}

/// The state of a receiver as a mathematical value.
pub struct ReceiverState {
    /// Whether a packet has been dispatched since the start.
    pub started: bool,
    /// Whether the transport has failed.
    pub terminated: bool,
    /// How many datagrams were refused as malformed; stops at `u64::MAX`.
    pub malformed: u64,
}

/// The buffer after a datagram was dispatched to it. A malformed datagram
/// changes nothing. The first packet, and one whose sample rate or channel
/// count differs from the buffer's, first makes the buffer reset and adopt
/// the packet's parameters. Then the packet's frames are pushed under its
/// sequence number.
pub open spec fn dispatched(buffer: BufferState, started: bool, datagram: Seq<u8>) -> BufferState {
    match parse_packet(datagram) {
        Err(_) => buffer,
        Ok(packet) => {
            let tuned = if !started || packet.sample_rate != buffer.sample_rate || packet.channels
                != buffer.channels {
                buffer.adopt(packet.sample_rate, packet.channels)
            } else {
                buffer
            };
            tuned.push(packet.frames(), packet.sequence)
        },
    }
}

/// The receiver after a datagram was dispatched.
pub open spec fn dispatched_receiver(receiver: ReceiverState, datagram: Seq<u8>) -> ReceiverState {
    match parse_packet(datagram) {
        Err(_) => ReceiverState { malformed: bump(receiver.malformed, 1), ..receiver },
        Ok(_) => ReceiverState { started: true, ..receiver },
    }
}

/// Turns datagrams into frames in the jitter buffer.
#[derive(Debug)]
pub struct NetworkReceiver {
    started: bool,
    terminated: bool,
    malformed: u64,
}

impl View for NetworkReceiver {
    type V = ReceiverState;

    closed spec fn view(&self) -> ReceiverState {
        ReceiverState {
            started: self.started,
            terminated: self.terminated,
            malformed: self.malformed,
        }
    }
}

impl NetworkReceiver {
    /// A receiver that has seen nothing yet.
    pub fn new() -> (receiver: Self)
        ensures
            receiver@ == (ReceiverState { started: false, terminated: false, malformed: 0 }),
    {
        NetworkReceiver { started: false, terminated: false, malformed: 0 }
    }

    /// How many datagrams were refused as malformed.
    pub fn malformed(&self) -> (n: u64)
        ensures
            n == self@.malformed,
    {
        self.malformed
    }

    /// Whether the transport has failed.
    pub fn is_terminated(&self) -> (b: bool)
        ensures
            b == self@.terminated,
    {
        self.terminated
    }

    /// Parses one datagram and pushes its frames into the buffer.
    ///
    /// A malformed datagram is counted and reported, and the buffer stays as
    /// it is. Otherwise the number of frames pushed is returned; before the
    /// push the buffer is reset and re-tuned if this is the first packet or
    /// the packet's sample rate or channel count is not the buffer's.
    pub fn dispatch(&mut self, buffer: &mut JitterBuffer, datagram: &[u8]) -> (r: Result<
        usize,
        PacketError,
    >)
        requires
            old(buffer).wf(),
        ensures
            final(buffer).wf(),
            final(buffer)@ == dispatched(old(buffer)@, old(self)@.started, datagram@),
            final(self)@ == dispatched_receiver(old(self)@, datagram@),
            match parse_packet(datagram@) {
                Ok(packet) => r == Ok::<usize, PacketError>(packet.frame_count() as usize),
                Err(e) => r == Err::<usize, PacketError>(e),
            },
    {
        match Packet::parse(datagram) {
            Err(e) => {
                self.malformed = self.malformed.saturating_add(1);
                Err(e)
            },
            Ok(packet) => {
                if !self.started || packet.sample_rate != buffer.sample_rate() || packet.channels
                    != buffer.channels() {
                    let _ = buffer.reconfigure(packet.sample_rate, packet.channels);
                }
                self.started = true;
                let frames = packet.frames();
                buffer.push(frames.as_slice(), packet.sequence);
                Ok(frames.len())
            },
        }
    }

    /// One step of the receive loop: a datagram is dispatched and the loop
    /// goes on, whether the datagram was well-formed or not; a failure of
    /// the transport ends the loop for good. Once the loop has ended,
    /// nothing more is taken in.
    pub fn receive_and_dispatch(
        &mut self,
        buffer: &mut JitterBuffer,
        received: Received<'_>,
    ) -> (flow: Flow)
        requires
            old(buffer).wf(),
        ensures
            final(buffer).wf(),
            old(self)@.terminated ==> flow == Flow::Terminated && final(self)@ == old(self)@
                && final(buffer)@ == old(buffer)@,
            !old(self)@.terminated ==> match received {
                Received::Datagram(datagram) => flow == Flow::Continue && final(buffer)@
                    == dispatched(old(buffer)@, old(self)@.started, datagram@) && final(self)@
                    == dispatched_receiver(old(self)@, datagram@),
                Received::TransportFailed => flow == Flow::Terminated && final(buffer)@ == old(
                    buffer,
                )@ && final(self)@ == (ReceiverState { terminated: true, ..old(self)@ }),
            },
    {
        if self.terminated {
            return Flow::Terminated;
        }
        match received {
            Received::Datagram(datagram) => {
                let _ = self.dispatch(buffer, datagram);
                Flow::Continue
            },
            Received::TransportFailed => {
                self.terminated = true;
                Flow::Terminated
            },
        }
    }
}

} // verus!
