use lianli_devices::headroom::{may_flush_control, CONTROL_RELAX_AFTER_MS};
use lianli_devices::pending::{PendingCmd, PendingQueue};

fn cmd(label: &str, byte: u8, queued_at_ms: u64, play_safe: bool) -> PendingCmd {
    PendingCmd {
        label: label.to_string(),
        packet: vec![byte; 4],
        reply_wait_ms: 250,
        queued_at_ms,
        play_safe,
    }
}

fn labels(cmds: &[PendingCmd]) -> Vec<String> {
    cmds.iter().map(|c| c.label.clone()).collect()
}

#[test]
fn defer_latest_wins_per_label() {
    let mut q = PendingQueue::new();
    q.defer(cmd("SyncPumpFan", 1, 0, true));
    q.defer(cmd("PushRgbData", 2, 10, false));
    q.defer(cmd("SyncPumpFan", 3, 20, true));
    let all = q.take_pending();
    assert_eq!(labels(&all), vec!["PushRgbData".to_string(), "SyncPumpFan".to_string()]);
    assert_eq!(all[1].packet, vec![3u8; 4]);
    assert_eq!(all[1].queued_at_ms, 20);
    assert!(!q.has_pending());
}

#[test]
fn defer_keeps_other_labels_in_order() {
    let mut q = PendingQueue::new();
    q.defer(cmd("A", 1, 0, true));
    q.defer(cmd("B", 2, 0, false));
    q.defer(cmd("C", 3, 0, true));
    q.defer(cmd("B", 4, 0, false));
    let all = q.take_pending();
    assert_eq!(labels(&all), vec!["A".to_string(), "C".to_string(), "B".to_string()]);
    assert_eq!(all[2].packet, vec![4u8; 4]);
}

#[test]
fn has_pending_tracks_queue() {
    let mut q = PendingQueue::new();
    assert!(!q.has_pending());
    assert!(!q.has_play_safe_pending());
    q.defer(cmd("PushRgbData", 2, 0, false));
    assert!(q.has_pending());
    assert!(!q.has_play_safe_pending());
    q.defer(cmd("SyncPumpFan", 1, 0, true));
    assert!(q.has_play_safe_pending());
}

#[test]
fn take_play_safe_partitions_in_order() {
    let mut q = PendingQueue::new();
    q.defer(cmd("A", 1, 0, true));
    q.defer(cmd("B", 2, 0, false));
    q.defer(cmd("C", 3, 0, true));
    q.defer(cmd("D", 4, 0, false));
    let safe = q.take_play_safe();
    assert_eq!(labels(&safe), vec!["A".to_string(), "C".to_string()]);
    assert!(q.has_pending());
    assert!(!q.has_play_safe_pending());
    let rest = q.take_pending();
    assert_eq!(labels(&rest), vec!["B".to_string(), "D".to_string()]);
}

#[test]
fn oldest_play_safe_age_ignores_unsafe_commands() {
    let mut q = PendingQueue::new();
    assert_eq!(q.oldest_play_safe_age(1000), None);
    q.defer(cmd("PushRgbData", 2, 100, false));
    assert_eq!(q.oldest_play_safe_age(1000), None);
    q.defer(cmd("SyncPumpFan", 1, 400, true));
    q.defer(cmd("GetH2Params", 5, 700, true));
    assert_eq!(q.oldest_play_safe_age(1000), Some(600));
    // A clock reading from before the command was queued counts as no wait.
    assert_eq!(q.oldest_play_safe_age(300), Some(0));
}

#[test]
fn flush_allowed_at_safe_level() {
    assert!(may_flush_control(Some(0), None));
    assert!(may_flush_control(Some(1), None));
    assert!(!may_flush_control(Some(2), None));
    assert!(!may_flush_control(Some(2), Some(CONTROL_RELAX_AFTER_MS - 1)));
    assert!(may_flush_control(Some(2), Some(CONTROL_RELAX_AFTER_MS)));
    assert!(!may_flush_control(Some(3), Some(60_000)));
    assert!(!may_flush_control(None, Some(60_000)));
}

#[test]
fn flush_at_level_one_sends_play_safe_only() {
    let mut q = PendingQueue::new();
    q.defer(cmd("SyncPumpFan", 1, 0, true));
    q.defer(cmd("PushRgbData", 2, 0, false));
    let sent = q.take_flushable(Some(1), 10);
    assert_eq!(labels(&sent), vec!["SyncPumpFan".to_string()]);
    let rest = q.take_pending();
    assert_eq!(labels(&rest), vec!["PushRgbData".to_string()]);
}

#[test]
fn flush_at_level_two_waits_three_seconds() {
    let mut q = PendingQueue::new();
    q.defer(cmd("SyncPumpFan", 1, 1_000, true));
    assert!(q.take_flushable(Some(2), 3_999).is_empty());
    assert!(q.has_pending());
    let sent = q.take_flushable(Some(2), 4_000);
    assert_eq!(sent.len(), 1);
    assert!(!q.has_pending());
}

#[test]
fn flush_refused_when_buffer_full_or_unknown() {
    let mut q = PendingQueue::new();
    q.defer(cmd("SyncPumpFan", 1, 0, true));
    assert!(q.take_flushable(Some(4), 1_000_000).is_empty());
    assert!(q.take_flushable(None, 1_000_000).is_empty());
    assert!(q.has_play_safe_pending());
}

#[test]
fn flush_never_sends_play_unsafe_commands() {
    let mut q = PendingQueue::new();
    q.defer(cmd("PushRgbData", 2, 0, false));
    assert!(q.take_flushable(Some(0), 1_000_000).is_empty());
    assert!(q.has_pending());
}

#[test]
fn clean_stream_end_sends_play_safe_and_drops_the_rest() {
    let mut q = PendingQueue::new();
    q.defer(cmd("SyncPumpFan", 1, 0, true));
    q.defer(cmd("PushRgbData", 2, 0, false));
    q.defer(cmd("GetH2Params", 3, 0, true));
    let (send, dropped) = q.finish_stream(true);
    assert_eq!(labels(&send), vec!["SyncPumpFan".to_string(), "GetH2Params".to_string()]);
    assert_eq!(labels(&dropped), vec!["PushRgbData".to_string()]);
    assert!(!q.has_pending());
}

#[test]
fn failed_stream_end_drops_everything() {
    let mut q = PendingQueue::new();
    q.defer(cmd("SyncPumpFan", 1, 0, true));
    q.defer(cmd("PushRgbData", 2, 0, false));
    let (send, dropped) = q.finish_stream(false);
    assert!(send.is_empty());
    assert_eq!(labels(&dropped), vec!["SyncPumpFan".to_string(), "PushRgbData".to_string()]);
    assert!(!q.has_pending());
}
