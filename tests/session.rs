use glowworm::{Algorithm, CaptureSession, Frame, GlowError, Phase, Region};

fn frame() -> Frame {
    Frame {
        width: 2,
        height: 2,
        data: vec![10, 100, 200, 255, 50, 150, 250, 255, 30, 60, 90, 255, 255, 128, 64, 255],
    }
}

fn session(max_failures: u32) -> CaptureSession {
    let regions = vec![Region { x: 0, y: 0, x2: 0, y2: 0 }, Region { x: 1, y: 1, x2: 1, y2: 1 }];
    CaptureSession::new(Algorithm::Samples, regions, max_failures)
}

#[test]
fn colours_are_zero_before_first_frame() {
    let s = session(3);
    assert_eq!(s.colors(), vec![0; 6]);
    assert_eq!(s.current_phase(), Phase::Idle);
}

#[test]
fn full_capture_cycle_releases_its_buffer() {
    let mut s = session(3);
    assert!(s.request());
    assert_eq!(s.current_phase(), Phase::AwaitingOffer);
    assert!(!s.request());
    assert_eq!(s.offer(), Ok(0));
    assert_eq!(s.pending_ticket(), Some(0));
    assert_eq!(s.current_phase(), Phase::AwaitingReady);
    assert!(!s.request());
    assert_eq!(s.ready(&frame()), Ok(0));
    assert_eq!(s.pending_ticket(), None);
    assert_eq!(s.current_phase(), Phase::Idle);
    assert_eq!(s.colors(), vec![200, 100, 10, 64, 128, 255]);
}

#[test]
fn tickets_are_never_reused() {
    let mut s = session(3);
    for expected in 0..5u64 {
        assert!(s.request());
        assert_eq!(s.offer(), Ok(expected));
        assert_eq!(s.ready(&frame()), Ok(expected));
        assert_eq!(s.pending_ticket(), None);
    }
}

#[test]
fn unexpected_events_change_nothing() {
    let mut s = session(3);
    assert_eq!(s.offer(), Err(GlowError::UnexpectedEvent));
    assert_eq!(s.ready(&frame()), Err(GlowError::UnexpectedEvent));
    assert_eq!(s.failed(), Err(GlowError::UnexpectedEvent));
    assert_eq!(s.current_phase(), Phase::Idle);
    assert!(s.request());
    assert_eq!(s.ready(&frame()), Err(GlowError::UnexpectedEvent));
    assert_eq!(s.current_phase(), Phase::AwaitingOffer);
}

#[test]
fn failed_capture_is_retried() {
    let mut s = session(2);
    assert!(s.request());
    assert_eq!(s.offer(), Ok(0));
    assert_eq!(s.failed(), Ok(Some(0)));
    assert_eq!(s.current_phase(), Phase::Idle);
    assert_eq!(s.pending_ticket(), None);
    assert!(s.request());
    assert_eq!(s.failed(), Ok(None));
    assert!(s.request());
    assert_eq!(s.offer(), Ok(1));
    assert_eq!(s.ready(&frame()), Ok(1));
    assert_eq!(s.colors(), vec![200, 100, 10, 64, 128, 255]);
}

#[test]
fn repeated_failures_make_capture_unavailable() {
    let mut s = session(1);
    assert!(s.request());
    assert_eq!(s.failed(), Ok(None));
    assert!(s.request());
    assert_eq!(s.offer(), Ok(0));
    assert_eq!(s.failed(), Err(GlowError::CaptureUnavailable));
    assert_eq!(s.current_phase(), Phase::Stopped);
    assert_eq!(s.pending_ticket(), None);
    assert!(!s.request());
}

#[test]
fn frame_too_small_stops_session() {
    let mut s = session(3);
    assert!(s.request());
    assert_eq!(s.offer(), Ok(0));
    let small = Frame { width: 1, height: 1, data: vec![1, 2, 3, 4] };
    assert_eq!(s.ready(&small), Err(GlowError::OutOfBounds));
    assert_eq!(s.current_phase(), Phase::Stopped);
    assert_eq!(s.pending_ticket(), None);
    assert_eq!(s.colors(), vec![0; 6]);
}
