//! Streaming handoff between a network receiver and a hardware-clocked audio
//! callback: a bounded jitter buffer with sequencing, drop-oldest overrun and
//! zero-fill underrun, a fixed packet framing, and channel/format adaptation
//! for playback.

pub mod frame;
pub mod config;
pub mod state;
pub mod jitter;
pub mod laws;
pub mod sample;
pub mod packet;
pub mod receiver;
pub mod playback;
