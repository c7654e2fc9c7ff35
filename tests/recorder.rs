use jammin::payload::Payload;
use jammin::recorder::{split_buffer, split_point, LoopRecorder, Notification, RecordingState};

const RATE: u32 = 48000;
const SECOND: i64 = 1_000_000_000;

fn constant(value: f32, n: usize, start: i64, stop: i64) -> Payload<f32> {
    Payload { channels: vec![vec![value; n]], sample_rate: RATE, start, stop }
}

#[test]
fn one_second_at_session_start_is_captured_whole() {
    let mut rec: LoopRecorder<f32> = LoopRecorder::with_default_window(RATE, 0.0, 0);
    assert!(matches!(rec.toggle(0), Some(Notification::Recording)));
    assert_eq!(rec.state, RecordingState::Recording);
    assert!(rec.on_payload(constant(1.0, 48000, 0, SECOND)).is_none());
    assert_eq!(rec.buffer.position(), 48000);
    let captured = rec.buffer.captured();
    assert_eq!(captured.len(), 48000);
    assert!(captured.iter().all(|x| *x == 1.0));
}

#[test]
fn second_payload_overwrites_a_one_second_window() {
    let mut rec: LoopRecorder<f32> = LoopRecorder::new(RATE, 1, 0.0, 0);
    assert_eq!(rec.buffer.capacity_of(), 48000);
    rec.toggle(0);
    rec.on_payload(constant(1.0, 48000, 0, SECOND));
    rec.on_payload(constant(2.0, 48000, SECOND, 2 * SECOND));
    assert_eq!(rec.buffer.position(), 48000);
    let captured = rec.buffer.captured();
    assert_eq!(captured.len(), 48000);
    assert!(captured.iter().all(|x| *x == 2.0));
}

#[test]
fn payload_straddling_the_start_keeps_its_second_half() {
    let mut rec: LoopRecorder<f32> = LoopRecorder::with_default_window(RATE, 0.0, 0);
    rec.toggle(SECOND / 2);
    rec.on_payload(constant(1.0, 48000, 0, SECOND));
    assert_eq!(rec.buffer.position(), 24000);
    assert!(rec.buffer.captured().iter().all(|x| *x == 1.0));
}

#[test]
fn payload_after_the_stop_completes_the_loop() {
    let mut rec: LoopRecorder<f32> = LoopRecorder::with_default_window(RATE, 0.0, 0);
    rec.toggle(0);
    rec.on_payload(constant(1.0, 48000, 0, SECOND));
    assert!(rec.toggle(SECOND).is_none());
    assert_eq!(rec.state, RecordingState::MarkedInactive);
    assert_eq!(rec.stopped, SECOND);
    let position = rec.buffer.position();
    match rec.on_payload(constant(3.0, 4800, SECOND + SECOND / 2, SECOND + SECOND * 6 / 10)) {
        Some(Notification::LoopComplete(samples)) => {
            assert_eq!(samples.len(), position);
            assert!(samples.iter().all(|x| *x == 1.0));
        }
        _ => panic!("expected a completed loop"),
    }
    assert_eq!(rec.state, RecordingState::Inactive);
    assert_eq!(rec.buffer.position(), 0);
    assert!(rec.buffer.slots_of().iter().all(|x| *x == 0.0));
}

#[test]
fn toggle_while_marked_inactive_changes_nothing() {
    let mut rec: LoopRecorder<f32> = LoopRecorder::new(RATE, 1, 0.0, 0);
    rec.toggle(0);
    rec.on_payload(constant(1.0, 100, 0, 2_083_333));
    rec.toggle(SECOND);
    assert!(rec.toggle(5 * SECOND).is_none());
    assert_eq!(rec.state, RecordingState::MarkedInactive);
    assert_eq!(rec.stopped, SECOND);
    assert_eq!(rec.started, 0);
    assert_eq!(rec.buffer.position(), 100);
}

#[test]
fn payload_before_the_start_is_dropped() {
    let mut rec: LoopRecorder<f32> = LoopRecorder::new(RATE, 1, 0.0, 0);
    rec.toggle(10 * SECOND);
    assert!(rec.on_payload(constant(1.0, 48000, 0, SECOND)).is_none());
    assert_eq!(rec.buffer.position(), 0);
}

#[test]
fn inactive_recorder_ignores_payloads() {
    let mut rec: LoopRecorder<f32> = LoopRecorder::new(RATE, 1, 0.0, 0);
    assert!(rec.on_payload(constant(1.0, 480, 0, SECOND / 100)).is_none());
    assert_eq!(rec.buffer.position(), 0);
    assert_eq!(rec.state, RecordingState::Inactive);
}

#[test]
fn marked_inactive_keeps_samples_before_the_stop() {
    let mut rec: LoopRecorder<f32> = LoopRecorder::new(RATE, 1, 0.0, 0);
    rec.toggle(0);
    rec.toggle(SECOND / 4);
    assert!(rec.on_payload(constant(1.0, 48000, 0, SECOND)).is_none());
    assert_eq!(rec.buffer.position(), 12000);
    assert_eq!(rec.state, RecordingState::MarkedInactive);
}

#[test]
fn split_point_is_held_to_the_payload() {
    assert_eq!(split_point(RATE, 48000, 0, -SECOND), 0);
    assert_eq!(split_point(RATE, 48000, 0, 0), 0);
    assert_eq!(split_point(RATE, 48000, 0, SECOND / 2), 24000);
    assert_eq!(split_point(RATE, 48000, 0, SECOND), 47999);
    assert_eq!(split_point(RATE, 48000, 0, 9 * SECOND), 47999);
    assert_eq!(split_point(RATE, 0, 0, SECOND), 0);
    assert_eq!(split_point(44100, 10, 0, 100_000), 4);
    assert_eq!(split_point(RATE, 10, i64::MIN, i64::MAX), 9);
}

#[test]
fn split_buffer_parts_join_to_the_payload() {
    let p = Payload { channels: vec![vec![1.0f32, 2.0, 3.0, 4.0], vec![5.0, 6.0, 7.0, 8.0]], sample_rate: RATE, start: 0, stop: 83_333 };
    let (before, after) = split_buffer(RATE, &p, 41_667);
    assert_eq!(before, &[1.0f32, 2.0][..]);
    assert_eq!(after, &[3.0f32, 4.0][..]);
}

#[test]
fn only_the_first_channel_is_captured() {
    let mut rec: LoopRecorder<f32> = LoopRecorder::new(RATE, 1, 0.0, 0);
    assert!(rec.buffer.slots_of().iter().all(|x| *x == 0.0));
    rec.toggle(0);
    let p = Payload { channels: vec![vec![1.0f32; 480], vec![9.0f32; 480]], sample_rate: RATE, start: 0, stop: SECOND / 100 };
    rec.on_payload(p);
    assert_eq!(rec.buffer.captured(), vec![1.0f32; 480]);
}
