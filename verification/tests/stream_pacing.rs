use lianli_devices::buffer_wait::{BufferWait, WaitStep, WAIT_BUFFER_NO_STOP_CAP};
use lianli_devices::stream::{
    ack_needs_drain, advance_deadline_ns, after_file_read, after_reader_read, chunk_interval_ns,
    is_last_chunk, pacing_sleep_ns, settled_level, ChunkStep,
};

#[test]
fn wait_returns_level_at_threshold() {
    let mut w = BufferWait::new(2, false);
    assert_eq!(w.before_poll(false), WaitStep::Poll);
    assert_eq!(w.after_poll(Some(4)), WaitStep::Sleep);
    assert_eq!(w.before_poll(false), WaitStep::Poll);
    assert_eq!(w.after_poll(Some(2)), WaitStep::Done(Some(2)));
}

#[test]
fn wait_without_answer_reports_last_level() {
    let mut w = BufferWait::new(2, false);
    assert_eq!(w.before_poll(false), WaitStep::Poll);
    assert_eq!(w.after_poll(Some(5)), WaitStep::Sleep);
    assert_eq!(w.before_poll(false), WaitStep::Poll);
    assert_eq!(w.after_poll(None), WaitStep::Done(Some(5)));
    let mut w = BufferWait::new(2, false);
    w.before_poll(false);
    assert_eq!(w.after_poll(None), WaitStep::Done(None));
}

#[test]
fn wait_without_stop_flag_is_capped() {
    let mut w = BufferWait::new(1, false);
    let mut polls = 0u32;
    loop {
        match w.before_poll(false) {
            WaitStep::Poll => {
                polls += 1;
                assert_eq!(w.after_poll(Some(9)), WaitStep::Sleep);
            }
            WaitStep::Done(last) => {
                assert_eq!(last, Some(9));
                break;
            }
            WaitStep::Sleep => unreachable!(),
        }
    }
    assert_eq!(polls, WAIT_BUFFER_NO_STOP_CAP);
    assert_eq!(polls, 600);
}

#[test]
fn wait_with_stop_flag_honours_it() {
    let mut w = BufferWait::new(2, true);
    for _ in 0..1000 {
        assert_eq!(w.before_poll(false), WaitStep::Poll);
        assert_eq!(w.after_poll(Some(3)), WaitStep::Sleep);
    }
    assert_eq!(w.before_poll(true), WaitStep::Done(Some(3)));
}

#[test]
fn file_loop_steps() {
    assert_eq!(after_file_read(0, true, false), ChunkStep::Rewind);
    assert_eq!(after_file_read(0, true, true), ChunkStep::Finish);
    assert_eq!(after_file_read(0, false, false), ChunkStep::Finish);
    assert_eq!(after_file_read(10, true, true), ChunkStep::Finish);
    assert_eq!(after_file_read(10, false, false), ChunkStep::Send);
    assert_eq!(after_reader_read(0), ChunkStep::Finish);
    assert_eq!(after_reader_read(1), ChunkStep::Send);
    assert!(is_last_chunk(100, 100));
    assert!(!is_last_chunk(99, 100));
}

#[test]
fn ack_above_three_drains() {
    assert!(!ack_needs_drain(3));
    assert!(ack_needs_drain(4));
    assert_eq!(settled_level(Some(4), Some(2)), Some(2));
    assert_eq!(settled_level(Some(4), None), Some(4));
    assert_eq!(settled_level(None, None), None);
}

#[test]
fn pacing_keeps_schedule_or_restarts_from_now() {
    assert_eq!(chunk_interval_ns(33_333_333), 33_333_333);
    assert_eq!(chunk_interval_ns(16_666_666), 30_000_000);
    assert_eq!(pacing_sleep_ns(100, 40), 60);
    assert_eq!(pacing_sleep_ns(100, 140), 0);
    assert_eq!(advance_deadline_ns(100, 50, 120), 150);
    assert_eq!(advance_deadline_ns(100, 50, 200), 250);
}
