use lianli_devices::delivery::{Delivery, DeliveryStep};
use lianli_devices::recovery::{LinkHealth, RecoverError, RecoveryPhase, RecoveryStep};
use lianli_devices::session::{FrameAttempt, LcdSession, DEFAULT_H264_CHUNK_SIZE, FRAME_SEND_ATTEMPTS};

#[test]
fn recovery_refused_while_shutting_down() {
    let mut h = LinkHealth::new();
    assert_eq!(h.begin_recovery(true, true), RecoveryStep::Failed(RecoverError::ShuttingDown));
    assert_eq!(h.consecutive_failures(), 0);
    assert_eq!(h.phase(), RecoveryPhase::Idle);
}

#[test]
fn reopen_success_resets_failures() {
    let mut h = LinkHealth::new();
    assert_eq!(h.begin_recovery(false, true), RecoveryStep::Reopen);
    assert_eq!(h.consecutive_failures(), 1);
    assert_eq!(h.after_reopen(true), RecoveryStep::Recovered);
    assert_eq!(h.consecutive_failures(), 0);
    assert!(!h.device_gone());
}

#[test]
fn failed_reopen_falls_back_to_clear_halt() {
    let mut h = LinkHealth::new();
    assert_eq!(h.begin_recovery(false, true), RecoveryStep::Reopen);
    assert_eq!(h.after_reopen(false), RecoveryStep::ClearHalt);
    assert_eq!(h.after_clear_halt(true), RecoveryStep::Recovered);
    assert_eq!(h.consecutive_failures(), 1);
}

#[test]
fn shared_transport_goes_straight_to_clear_halt() {
    let mut h = LinkHealth::new();
    assert_eq!(h.begin_recovery(false, false), RecoveryStep::ClearHalt);
    assert_eq!(h.after_clear_halt(false), RecoveryStep::Failed(RecoverError::Unresponsive));
    assert!(h.device_gone());
    assert_eq!(h.begin_recovery(false, false), RecoveryStep::Failed(RecoverError::StaleHandle));
}

#[test]
fn sixth_consecutive_failure_declares_device_gone() {
    let mut h = LinkHealth::new();
    for round in 1..=5u32 {
        assert_eq!(h.begin_recovery(false, false), RecoveryStep::ClearHalt);
        assert_eq!(h.after_clear_halt(true), RecoveryStep::Recovered);
        assert_eq!(h.consecutive_failures(), round);
    }
    assert_eq!(h.begin_recovery(false, false), RecoveryStep::ClearHalt);
    assert_eq!(h.after_clear_halt(true), RecoveryStep::Failed(RecoverError::Unresponsive));
    assert!(h.device_gone());
    assert_eq!(h.consecutive_failures(), 6);
    h.reset();
    assert!(!h.device_gone());
    assert_eq!(h.consecutive_failures(), 0);
}

#[test]
fn write_success_ends_failure_streak() {
    let mut h = LinkHealth::new();
    h.begin_recovery(false, false);
    h.after_clear_halt(true);
    h.note_write_success();
    assert_eq!(h.consecutive_failures(), 0);
}

#[test]
fn delivery_first_write_ok() {
    let mut d = Delivery::new();
    assert_eq!(d.after_write(true), DeliveryStep::Delivered);
}

#[test]
fn delivery_retries_once_after_recovery() {
    let mut d = Delivery::new();
    assert_eq!(d.after_write(false), DeliveryStep::Recover);
    assert_eq!(d.after_recovery(true), DeliveryStep::Rewrite);
    assert_eq!(d.after_write(false), DeliveryStep::Failed);
    let mut d = Delivery::new();
    d.after_write(false);
    assert_eq!(d.after_recovery(true), DeliveryStep::Rewrite);
    assert_eq!(d.after_write(true), DeliveryStep::Delivered);
    let mut d = Delivery::new();
    d.after_write(false);
    assert_eq!(d.after_recovery(false), DeliveryStep::Failed);
}

#[test]
fn session_starts_uninitialized_with_default_chunk() {
    let s = LcdSession::new();
    assert!(!s.initialized);
    assert_eq!(s.h264_chunk_size, DEFAULT_H264_CHUNK_SIZE);
    assert_eq!(s.h264_chunk_size, 202_752);
    assert_eq!(s.firmware_str(), None);
}

#[test]
fn frame_is_tried_three_times() {
    let mut s = LcdSession::new();
    s.initialized = true;
    assert_eq!(s.after_frame_attempt(0, false), FrameAttempt::Retry);
    assert!(!s.initialized);
    s.initialized = true;
    assert_eq!(s.after_frame_attempt(1, false), FrameAttempt::Retry);
    s.initialized = true;
    assert_eq!(s.after_frame_attempt(FRAME_SEND_ATTEMPTS - 1, false), FrameAttempt::GiveUp);
    assert!(s.initialized);
    assert_eq!(s.after_frame_attempt(1, true), FrameAttempt::Sent);
}

#[test]
fn session_reset_clears_gone_device() {
    let mut s = LcdSession::new();
    s.health.begin_recovery(false, false);
    s.health.after_clear_halt(false);
    assert!(s.health.device_gone());
    s.reset_failure_state();
    assert!(!s.health.device_gone());
    assert_eq!(s.health.consecutive_failures(), 0);
}
