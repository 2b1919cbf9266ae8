use flexdisplay_host::adaptive::{AdaptiveStreamState, MotionDetector, PlaybackTuning};
use flexdisplay_host::latency::{host_now_us, micros_or_zero, StreamLatencyState};

#[test]
fn tuning_names() {
    assert_eq!(PlaybackTuning::Interactive.as_str(), "interactive");
    assert_eq!(PlaybackTuning::Motion.as_str(), "motion");
    assert_eq!(PlaybackTuning::from_str(" Video "), PlaybackTuning::Motion);
    assert_eq!(PlaybackTuning::from_str("SMOOTH"), PlaybackTuning::Motion);
    assert_eq!(PlaybackTuning::from_str("motion"), PlaybackTuning::Motion);
    assert_eq!(PlaybackTuning::from_str("desktop"), PlaybackTuning::Interactive);
    for t in [PlaybackTuning::Interactive, PlaybackTuning::Motion] {
        assert_eq!(PlaybackTuning::from_str(t.as_str()), t);
    }
}

#[test]
fn tuning_decisions() {
    let mut st = AdaptiveStreamState::default();
    assert_eq!(st.evaluate_tuning(), PlaybackTuning::Interactive);
    st.set_motion_score_milli(421);
    assert_eq!(st.evaluate_tuning(), PlaybackTuning::Motion);
    st.set_motion_score_milli(281);
    st.update_client_stats(60, 0);
    assert_eq!(st.evaluate_tuning(), PlaybackTuning::Motion);
    st.set_motion_score_milli(280);
    assert_eq!(st.evaluate_tuning(), PlaybackTuning::Interactive);
    st.set_motion_score_milli(150);
    assert_eq!(st.evaluate_tuning(), PlaybackTuning::Interactive);
    st.set_motion_score_milli(5000);
    assert_eq!(st.motion_score_milli(), 1000);
}

#[test]
fn client_stats_are_capped() {
    let mut st = AdaptiveStreamState::default();
    st.update_client_stats(9000, 12);
    assert_eq!(st.client_glass_ms(), 5000);
    st.update_client_stats(0, 0);
    assert_eq!(st.client_glass_ms(), 5000);
    st.update_client_stats(33, 0);
    assert_eq!(st.client_glass_ms(), 33);
}

#[test]
fn tuning_round_trip() {
    let mut st = AdaptiveStreamState::default();
    assert_eq!(st.current_tuning(), PlaybackTuning::Interactive);
    st.set_tuning(PlaybackTuning::Motion);
    assert_eq!(st.current_tuning(), PlaybackTuning::Motion);
    st.set_tuning(PlaybackTuning::Interactive);
    assert_eq!(st.current_tuning(), PlaybackTuning::Interactive);
}

#[test]
fn motion_buckets_rotate_every_100ms() {
    let mut det = MotionDetector::default();
    det.observe_chunk_at(0, 2048);
    det.observe_chunk_at(99, 1000);
    assert_eq!(det.buckets()[0], 3048);
    assert_eq!(det.current_bucket(), 0);
    det.observe_chunk_at(250, 100);
    assert_eq!(det.current_bucket(), 2);
    let b = det.buckets();
    assert_eq!((b[0], b[1], b[2]), (3048, 0, 100));
    det.observe_chunk_at(1350, 7);
    assert_eq!(det.current_bucket(), 3);
    let b = det.buckets();
    assert_eq!(b.iter().map(|x| *x as u64).sum::<u64>(), 7);
    det.observe_chunk_at(1351, usize::MAX);
    det.observe_chunk_at(1352, 5);
    assert_eq!(det.buckets()[3], u32::MAX);
}

#[test]
fn motion_detector_reads_the_clock() {
    let mut det = MotionDetector::new();
    det.observe_chunk(4096);
    det.observe_chunk(4096);
    assert_eq!(det.buckets().iter().map(|x| *x as u64).sum::<u64>(), 8192);
}

#[test]
fn latency_marks() {
    let mut st = StreamLatencyState::default();
    assert_eq!(st.last_send_us(), 0);
    st.mark_send_at(123);
    assert_eq!(st.last_send_us(), 123);
    st.mark_send_now();
    assert!(st.last_send_us() > 1_600_000_000_000_000);
    assert!(host_now_us() >= st.last_send_us());
}

#[test]
fn clock_readings_are_reported_in_64_bits() {
    assert_eq!(micros_or_zero(None), 0);
    assert_eq!(micros_or_zero(Some(1_700_000_000_123_456)), 1_700_000_000_123_456);
    assert_eq!(micros_or_zero(Some((1u128 << 64) + 5)), 5);
}
