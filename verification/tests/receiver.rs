use android_mic_rs::config::StreamConfig;
use android_mic_rs::frame::SampleFrame;
use android_mic_rs::jitter::JitterBuffer;
use android_mic_rs::packet::PacketError;
use android_mic_rs::receiver::{Flow, NetworkReceiver, Received};

fn wire(sequence: u32, rate: u32, channels: u16, tag: u16, payload: &[u8]) -> Vec<u8> {
    let mut bytes = Vec::new();
    bytes.extend_from_slice(&sequence.to_be_bytes());
    bytes.extend_from_slice(&rate.to_be_bytes());
    bytes.extend_from_slice(&channels.to_be_bytes());
    bytes.extend_from_slice(&tag.to_be_bytes());
    bytes.extend_from_slice(payload);
    bytes
}

fn ring(capacity: u32, channels: u16) -> JitterBuffer {
    JitterBuffer::new(StreamConfig::new(1000, channels, capacity)).unwrap()
}

#[test]
fn new_receiver_has_seen_nothing() {
    let r = NetworkReceiver::new();
    assert_eq!(r.malformed(), 0);
    assert!(!r.is_terminated());
}

#[test]
fn first_packet_resets_and_tunes_the_buffer() {
    let mut b = ring(8, 1);
    b.push(&[SampleFrame::new(vec![99])], 0);
    let mut r = NetworkReceiver::new();
    let pushed = r.dispatch(&mut b, &wire(50, 8000, 2, 0, &[128, 129, 130, 131]));
    assert_eq!(pushed, Ok(2));
    assert_eq!(b.sample_rate(), 8000);
    assert_eq!(b.channels(), 2);
    assert_eq!(b.metrics().resets, 1);
    assert_eq!(b.expected_sequence(), Some(52));
    assert_eq!(b.pull(2), vec![SampleFrame::new(vec![0, 256]), SampleFrame::new(vec![512, 768])]);
}

#[test]
fn first_packet_resets_even_with_equal_parameters() {
    let mut b = ring(8, 1);
    b.push(&[SampleFrame::new(vec![99])], 0);
    let mut r = NetworkReceiver::new();
    assert_eq!(r.dispatch(&mut b, &wire(7, 1000, 1, 0, &[130])), Ok(1));
    assert_eq!(b.metrics().resets, 1);
    assert_eq!(b.pull(1), vec![SampleFrame::new(vec![512])]);
}

#[test]
fn following_packets_are_pushed_in_sequence() {
    let mut b = ring(8, 1);
    let mut r = NetworkReceiver::new();
    assert_eq!(r.dispatch(&mut b, &wire(10, 1000, 1, 1, &[0, 1, 0, 2])), Ok(2));
    assert_eq!(r.dispatch(&mut b, &wire(12, 1000, 1, 1, &[0, 3])), Ok(1));
    // Number 13 never arrives.
    assert_eq!(r.dispatch(&mut b, &wire(14, 1000, 1, 1, &[0, 5])), Ok(1));
    assert_eq!(b.metrics().resets, 1);
    assert_eq!(
        b.pull(5),
        vec![
            SampleFrame::new(vec![1]),
            SampleFrame::new(vec![2]),
            SampleFrame::new(vec![3]),
            SampleFrame::new(vec![0]),
            SampleFrame::new(vec![5]),
        ]
    );
}

#[test]
fn malformed_datagram_is_counted_and_changes_nothing() {
    let mut b = ring(8, 1);
    let mut r = NetworkReceiver::new();
    assert_eq!(r.dispatch(&mut b, &wire(10, 1000, 1, 1, &[0, 1])), Ok(1));
    assert_eq!(r.dispatch(&mut b, &[1, 2, 3]), Err(PacketError::Truncated));
    assert_eq!(r.dispatch(&mut b, &wire(11, 0, 1, 1, &[0, 2])), Err(PacketError::ZeroSampleRate));
    assert_eq!(r.dispatch(&mut b, &wire(11, 1000, 0, 1, &[0, 2])), Err(PacketError::ZeroChannels));
    assert_eq!(r.dispatch(&mut b, &wire(11, 1000, 1, 7, &[0, 2])), Err(PacketError::UnknownFormat));
    assert_eq!(r.dispatch(&mut b, &wire(11, 1000, 1, 1, &[0])), Err(PacketError::RaggedPayload));
    assert_eq!(r.malformed(), 5);
    assert_eq!(b.len(), 1);
    assert_eq!(b.expected_sequence(), Some(11));
    assert_eq!(b.metrics().resets, 1);
    assert_eq!(b.metrics().dropped, 0);
}

#[test]
fn malformed_first_datagram_leaves_the_start_open() {
    let mut b = ring(8, 1);
    b.push(&[SampleFrame::new(vec![99])], 0);
    let mut r = NetworkReceiver::new();
    assert_eq!(r.dispatch(&mut b, &[0u8; 4]), Err(PacketError::Truncated));
    assert_eq!(b.len(), 1);
    assert_eq!(r.dispatch(&mut b, &wire(3, 1000, 1, 0, &[128])), Ok(1));
    // The first well-formed packet is the first packet.
    assert_eq!(b.metrics().resets, 1);
    assert_eq!(b.len(), 1);
}

#[test]
fn changed_parameters_start_a_new_session() {
    let mut b = ring(8, 1);
    let mut r = NetworkReceiver::new();
    assert_eq!(r.dispatch(&mut b, &wire(10, 1000, 1, 0, &[130, 131])), Ok(2));
    assert_eq!(r.dispatch(&mut b, &wire(500, 1000, 2, 0, &[140, 141])), Ok(1));
    assert_eq!(b.metrics().resets, 2);
    assert_eq!(b.channels(), 2);
    assert_eq!(b.pull(2), vec![SampleFrame::new(vec![3072, 3328]), SampleFrame::new(vec![0, 0])]);
    assert_eq!(r.dispatch(&mut b, &wire(501, 2000, 2, 0, &[150, 151])), Ok(1));
    assert_eq!(b.metrics().resets, 3);
    assert_eq!(b.sample_rate(), 2000);
}

#[test]
fn transport_failure_ends_the_loop() {
    let mut b = ring(8, 1);
    let mut r = NetworkReceiver::new();
    let first = wire(10, 1000, 1, 0, &[130]);
    assert_eq!(r.receive_and_dispatch(&mut b, Received::Datagram(&first)), Flow::Continue);
    assert_eq!(r.receive_and_dispatch(&mut b, Received::Datagram(&[9, 9])), Flow::Continue);
    assert_eq!(r.malformed(), 1);
    assert_eq!(r.receive_and_dispatch(&mut b, Received::TransportFailed), Flow::Terminated);
    assert!(r.is_terminated());
    // Nothing is taken in after the end.
    let late = wire(11, 1000, 1, 0, &[131]);
    assert_eq!(r.receive_and_dispatch(&mut b, Received::Datagram(&late)), Flow::Terminated);
    assert_eq!(r.receive_and_dispatch(&mut b, Received::Datagram(&[1])), Flow::Terminated);
    assert_eq!(r.malformed(), 1);
    assert_eq!(b.len(), 1);
    assert_eq!(b.pull(1), vec![SampleFrame::new(vec![512])]);
}
