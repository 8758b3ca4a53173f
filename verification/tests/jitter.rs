use android_mic_rs::config::{ConfigError, StreamConfig};
use android_mic_rs::frame::SampleFrame;
use android_mic_rs::jitter::JitterBuffer;

fn buffer(capacity: u32, channels: u16) -> JitterBuffer {
    // At 1000 frames per second one millisecond is one frame.
    JitterBuffer::new(StreamConfig::new(1000, channels, capacity)).unwrap()
}

fn mono(value: i16) -> SampleFrame {
    SampleFrame::new(vec![value])
}

fn silence() -> SampleFrame {
    SampleFrame::silence(1)
}

#[test]
fn new_buffer_is_empty() {
    let b = buffer(4, 2);
    assert_eq!(b.capacity(), 4);
    assert_eq!(b.len(), 0);
    assert!(b.is_empty());
    assert_eq!(b.channels(), 2);
    assert_eq!(b.sample_rate(), 1000);
    assert_eq!(b.expected_sequence(), None);
    let m = b.metrics();
    assert_eq!((m.dropped, m.overruns, m.underruns, m.resets), (0, 0, 0, 0));
}

#[test]
fn new_buffer_takes_capacity_from_rate_and_depth() {
    let b = JitterBuffer::new(StreamConfig::new(48000, 2, 20)).unwrap();
    assert_eq!(b.capacity(), 960);
    let b = JitterBuffer::new(StreamConfig::new(44100, 1, 15)).unwrap();
    assert_eq!(b.capacity(), 661);
}

#[test]
fn new_buffer_refuses_bad_config() {
    assert_eq!(
        JitterBuffer::new(StreamConfig::new(0, 2, 20)).err(),
        Some(ConfigError::ZeroSampleRate)
    );
    assert_eq!(
        JitterBuffer::new(StreamConfig::new(48000, 0, 20)).err(),
        Some(ConfigError::ZeroChannels)
    );
    assert_eq!(
        JitterBuffer::new(StreamConfig::new(999, 1, 1)).err(),
        Some(ConfigError::DepthTooShort)
    );
    assert_eq!(
        JitterBuffer::new(StreamConfig::new(48000, 1, 0)).err(),
        Some(ConfigError::DepthTooShort)
    );
    assert_eq!(
        JitterBuffer::new(StreamConfig::new(4_000_000_000, 1, 4_000_000_000)).err(),
        Some(ConfigError::DepthTooLong)
    );
    assert_eq!(
        JitterBuffer::new(StreamConfig::new(0, 0, 0)).err(),
        Some(ConfigError::ZeroSampleRate)
    );
}

#[test]
fn pushes_under_capacity_come_out_in_order() {
    let mut b = buffer(8, 1);
    b.push(&[mono(10), mono(11)], 100);
    b.push(&[mono(12)], 102);
    b.push(&[mono(13), mono(14), mono(15)], 103);
    assert_eq!(b.len(), 6);
    let out = b.pull(6);
    assert_eq!(out, vec![mono(10), mono(11), mono(12), mono(13), mono(14), mono(15)]);
    assert!(b.is_empty());
    let m = b.metrics();
    assert_eq!((m.dropped, m.overruns, m.underruns, m.resets), (0, 0, 0, 0));
}

#[test]
fn pull_on_empty_buffer_is_silence() {
    let mut b = buffer(4, 1);
    let out = b.pull(3);
    assert_eq!(out, vec![silence(), silence(), silence()]);
    assert_eq!(b.metrics().underruns, 1);
}

#[test]
fn pull_on_empty_stereo_buffer_is_stereo_silence() {
    let mut b = buffer(4, 2);
    let out = b.pull(2);
    assert_eq!(out.len(), 2);
    assert_eq!(out[0], SampleFrame::new(vec![0, 0]));
    assert_eq!(out[1], SampleFrame::new(vec![0, 0]));
}

#[test]
fn pull_of_nothing_is_empty_and_no_underrun() {
    let mut b = buffer(4, 1);
    let out = b.pull(0);
    assert!(out.is_empty());
    assert_eq!(b.metrics().underruns, 0);
}

#[test]
fn overrun_drops_oldest() {
    let mut b = buffer(4, 1);
    b.push(&[mono(1), mono(2), mono(3), mono(4)], 0);
    b.push(&[mono(5)], 4);
    assert_eq!(b.len(), 4);
    assert_eq!(b.metrics().overruns, 1);
    let out = b.pull(4);
    assert_eq!(out, vec![mono(2), mono(3), mono(4), mono(5)]);
}

#[test]
fn long_run_keeps_its_newest_frames() {
    let mut b = buffer(3, 1);
    let run: Vec<SampleFrame> = (0..10).map(mono).collect();
    b.push(&run, 7);
    assert_eq!(b.len(), 3);
    assert_eq!(b.metrics().overruns, 7);
    assert_eq!(b.pull(3), vec![mono(7), mono(8), mono(9)]);
    assert_eq!(b.expected_sequence(), Some(17));
}

#[test]
fn gap_is_filled_with_silence() {
    let mut b = buffer(4, 1);
    b.push(&[mono(1)], 1);
    b.push(&[mono(2)], 2);
    b.push(&[mono(4)], 4);
    let out = b.pull(4);
    assert_eq!(out, vec![mono(1), mono(2), silence(), mono(4)]);
    assert_eq!(b.metrics().dropped, 0);
}

#[test]
fn wider_gap_is_as_many_silent_frames() {
    let mut b = buffer(8, 1);
    b.push(&[mono(1), mono(2)], 10);
    b.push(&[mono(3)], 15);
    assert_eq!(b.len(), 6);
    let out = b.pull(6);
    assert_eq!(out, vec![mono(1), mono(2), silence(), silence(), silence(), mono(3)]);
}

#[test]
fn late_frame_fills_its_gap() {
    let mut b = buffer(4, 1);
    b.push(&[mono(1), mono(2)], 1);
    b.push(&[mono(4)], 4);
    b.push(&[mono(3)], 3);
    assert_eq!(b.metrics().dropped, 0);
    assert_eq!(b.expected_sequence(), Some(5));
    assert_eq!(b.pull(4), vec![mono(1), mono(2), mono(3), mono(4)]);
}

#[test]
fn duplicate_frame_is_dropped() {
    let mut b = buffer(4, 1);
    b.push(&[mono(1), mono(2)], 1);
    b.push(&[mono(9)], 2);
    assert_eq!(b.metrics().dropped, 1);
    assert_eq!(b.len(), 2);
    assert_eq!(b.pull(2), vec![mono(1), mono(2)]);
}

#[test]
fn frame_behind_the_read_cursor_is_dropped() {
    let mut b = buffer(4, 1);
    b.push(&[mono(1)], 1);
    b.push(&[mono(3)], 3);
    assert_eq!(b.pull(2), vec![mono(1), silence()]);
    // Number 2 was already played as silence.
    b.push(&[mono(2)], 2);
    assert_eq!(b.metrics().dropped, 1);
    assert_eq!(b.pull(1), vec![mono(3)]);
}

#[test]
fn frame_far_behind_is_dropped() {
    let mut b = buffer(4, 1);
    b.push(&[mono(1)], 1000);
    b.push(&[mono(2)], 10);
    assert_eq!(b.metrics().dropped, 1);
    assert_eq!(b.len(), 1);
    assert_eq!(b.expected_sequence(), Some(1001));
}

#[test]
fn gap_of_exactly_capacity_is_filled() {
    let mut b = buffer(4, 1);
    b.push(&[mono(1)], 0);
    b.push(&[mono(2)], 5);
    assert_eq!(b.metrics().resets, 0);
    assert_eq!(b.metrics().overruns, 2);
    assert_eq!(b.pull(4), vec![silence(), silence(), silence(), mono(2)]);
}

#[test]
fn gap_beyond_capacity_resets() {
    let mut b = buffer(4, 1);
    b.push(&[mono(1), mono(2)], 0);
    b.push(&[mono(3)], 7);
    assert_eq!(b.metrics().resets, 1);
    assert_eq!(b.metrics().overruns, 0);
    assert_eq!(b.len(), 1);
    assert_eq!(b.expected_sequence(), Some(8));
    assert_eq!(b.pull(2), vec![mono(3), silence()]);
}

#[test]
fn sequence_numbers_wrap() {
    let mut b = buffer(4, 1);
    b.push(&[mono(1), mono(2)], u32::MAX);
    assert_eq!(b.expected_sequence(), Some(1));
    b.push(&[mono(3)], 1);
    assert_eq!(b.pull(3), vec![mono(1), mono(2), mono(3)]);
    b.push(&[mono(4)], u32::MAX);
    assert_eq!(b.metrics().dropped, 1);
}

#[test]
fn frame_of_wrong_width_is_dropped() {
    let mut b = buffer(4, 2);
    b.push(&[SampleFrame::new(vec![1, 2]), SampleFrame::new(vec![3]), SampleFrame::new(vec![4, 5])], 0);
    assert_eq!(b.metrics().dropped, 1);
    // The refused frame leaves its slot empty.
    assert_eq!(
        b.pull(3),
        vec![SampleFrame::new(vec![1, 2]), SampleFrame::new(vec![0, 0]), SampleFrame::new(vec![4, 5])]
    );
}

#[test]
fn short_pull_leaves_the_rest() {
    let mut b = buffer(4, 1);
    b.push(&[mono(1), mono(2), mono(3)], 0);
    assert_eq!(b.pull(2), vec![mono(1), mono(2)]);
    assert_eq!(b.len(), 1);
    assert_eq!(b.metrics().underruns, 0);
    assert_eq!(b.pull(2), vec![mono(3), silence()]);
    assert_eq!(b.metrics().underruns, 1);
    assert_eq!(b.pull(1), vec![silence()]);
    assert_eq!(b.metrics().underruns, 2);
}

#[test]
fn ring_wraps_round_many_times() {
    let mut b = buffer(3, 1);
    let mut seq: u32 = 0;
    for round in 0..10i16 {
        b.push(&[mono(round * 2), mono(round * 2 + 1)], seq);
        seq += 2;
        assert_eq!(b.pull(2), vec![mono(round * 2), mono(round * 2 + 1)]);
    }
    assert!(b.is_empty());
    assert_eq!(b.metrics().overruns, 0);
}

#[test]
fn reset_then_pull_is_silence() {
    let mut b = buffer(4, 1);
    b.push(&[mono(1), mono(2), mono(3)], 5);
    b.reset();
    assert!(b.is_empty());
    assert_eq!(b.expected_sequence(), None);
    assert_eq!(b.metrics().resets, 1);
    assert_eq!(b.pull(2), vec![silence(), silence()]);
    assert_eq!(b.pull(5), vec![silence(), silence(), silence(), silence(), silence()]);
    // The next frame starts the sequence wherever it is numbered.
    b.push(&[mono(9)], 77);
    assert_eq!(b.pull(1), vec![mono(9)]);
    assert_eq!(b.metrics().dropped, 0);
}

#[test]
fn reset_keeps_counters() {
    let mut b = buffer(2, 1);
    b.push(&[mono(1), mono(2), mono(3)], 0);
    b.push(&[mono(1)], 0);
    let _ = b.pull(5);
    b.reset();
    let m = b.metrics();
    assert_eq!((m.dropped, m.overruns, m.underruns, m.resets), (1, 1, 1, 1));
}

#[test]
fn reconfigure_adopts_new_stream() {
    let mut b = buffer(4, 1);
    b.push(&[mono(1)], 0);
    assert_eq!(b.reconfigure(8000, 2), Ok(()));
    assert_eq!(b.capacity(), 4);
    assert_eq!(b.sample_rate(), 8000);
    assert_eq!(b.channels(), 2);
    assert!(b.is_empty());
    assert_eq!(b.expected_sequence(), None);
    assert_eq!(b.metrics().resets, 1);
    b.push(&[SampleFrame::new(vec![5, 6])], 40);
    assert_eq!(b.pull(2), vec![SampleFrame::new(vec![5, 6]), SampleFrame::new(vec![0, 0])]);
}

#[test]
fn reconfigure_refuses_zero() {
    let mut b = buffer(4, 1);
    b.push(&[mono(1)], 0);
    assert_eq!(b.reconfigure(0, 2), Err(ConfigError::ZeroSampleRate));
    assert_eq!(b.reconfigure(8000, 0), Err(ConfigError::ZeroChannels));
    assert_eq!(b.reconfigure(0, 0), Err(ConfigError::ZeroSampleRate));
    assert_eq!(b.len(), 1);
    assert_eq!(b.channels(), 1);
    assert_eq!(b.sample_rate(), 1000);
    assert_eq!(b.metrics().resets, 0);
}

#[test]
fn frame_accessors() {
    let f = SampleFrame::new(vec![7, -8, 9]);
    assert_eq!(f.channels(), 3);
    assert_eq!(f.sample(0), Some(7));
    assert_eq!(f.sample(2), Some(9));
    assert_eq!(f.sample(3), None);
    assert_eq!(f.samples(), &[7i16, -8, 9][..]);
    assert_eq!(f.clone(), f);
    let s = SampleFrame::silence(3);
    assert_eq!(s.samples(), &[0i16, 0, 0][..]);
    assert_eq!(SampleFrame::silence(0).channels(), 0);
}
