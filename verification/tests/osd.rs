use voxtype::osd::stream::FrameCounter;
use voxtype::osd::config::OsdPosition;
use voxtype::osd::ring::FrameRing;

#[derive(Debug, Clone, Copy, PartialEq)]
struct AudioFrame {
    seq: u32,
    min: f32,
    max: f32,
    peak_dbfs: f32,
}

fn frame(seq: u32) -> AudioFrame {
    AudioFrame {
        seq,
        min: -0.1,
        max: 0.1,
        peak_dbfs: -20.0,
    }
}

#[test]
fn ring_keeps_latest_within_capacity() {
    let mut r = FrameRing::new(4);
    for i in 0..10 {
        r.push(frame(i));
    }
    assert_eq!(r.len(), 4);
    let latest = r.latest().unwrap();
    assert_eq!(latest.seq, 9);
}

#[test]
fn ring_latest_none_when_empty() {
    let r: FrameRing<AudioFrame> = FrameRing::new(8);
    assert!(r.latest().is_none());
    assert_eq!(r.len(), 0);
}

#[test]
fn ring_grows_until_capacity() {
    let mut r = FrameRing::new(8);
    for i in 0..3 {
        r.push(frame(i));
    }
    assert_eq!(r.len(), 3);
    assert_eq!(r.latest().unwrap().seq, 2);
}

#[test]
fn ring_of_one_keeps_only_newest() {
    let mut r = FrameRing::new(1);
    r.push(frame(5));
    r.push(frame(6));
    assert_eq!(r.len(), 1);
    assert_eq!(r.capacity(), 1);
    let f = r.latest().unwrap();
    assert_eq!(f.seq, 6);
    assert!(f.max > f.min && f.peak_dbfs < 0.0);
}

#[test]
fn osd_position_defaults_to_bottom_center() {
    assert_eq!(OsdPosition::default(), OsdPosition::BottomCenter);
}

#[test]
fn frame_counter_reports_every_n_frames() {
    let mut c = FrameCounter::new(3);
    let due: Vec<bool> = (0..7).map(|_| c.record()).collect();
    assert_eq!(due, vec![false, false, true, false, false, true, false]);
    assert_eq!(c.total, 7);
}

#[test]
fn frame_counter_quiet_when_zero() {
    let mut c = FrameCounter::new(0);
    for _ in 0..5 {
        assert!(!c.record());
    }
    assert_eq!(c.total, 5);
    let mut every = FrameCounter::new(1);
    assert!(every.record());
    assert!(every.record());
}
