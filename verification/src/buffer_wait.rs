use vstd::prelude::*;

verus! {

/// Without a stop flag, the buffer wait gives up after this many polls.
pub const WAIT_BUFFER_NO_STOP_CAP: u32 = 600;

/// Pause between two buffer-level polls, in milliseconds.
pub const WAIT_BUFFER_POLL_MS: u64 = 50;

/// What the caller does next while waiting for the panel to drain.
#[derive(PartialEq, Eq, Structural, Debug, Clone, Copy)]
pub enum WaitStep {
    /// Query the buffer level and report it to `after_poll`.
    Poll,
    /// Sleep `WAIT_BUFFER_POLL_MS`, then ask `before_poll` again.
    Sleep,
    /// The wait is over; this is the level to report, if any.
    Done(Option<u8>),
}

/// The wait as the contracts see it.
pub struct WaitView {
    pub threshold: u8,
    pub has_stop: bool,
    pub polls: nat,
    pub last: Option<u8>,
}

/// A wait is well formed when the last level it kept was above the
/// threshold and, without a stop flag, it stayed within the poll cap.
pub open spec fn wait_ok(w: WaitView) -> bool {
    &&& (w.last matches Some(l) ==> l > w.threshold)
    &&& !w.has_stop ==> w.polls <= WAIT_BUFFER_NO_STOP_CAP
}

/// Polls the panel until its ingest buffer drains to `threshold` or less.
/// With a stop flag the flag is the cancellation token; without one a cap
/// on the number of polls prevents an indefinite hang on a wedged device.
pub struct BufferWait {
    threshold: u8,
    has_stop: bool,
    polls: u32,
    last: Option<u8>,
}

impl View for BufferWait {
    type V = WaitView;

    closed spec fn view(&self) -> WaitView {
        WaitView {
            threshold: self.threshold,
            has_stop: self.has_stop,
            polls: self.polls as nat,
            last: self.last,
        }
    }
}

impl BufferWait {
    #[verifier::type_invariant]
    spec fn inv(self) -> bool {
        wait_ok(self@)
    }

    pub fn new(threshold: u8, has_stop: bool) -> (w: BufferWait)
        ensures
            w@ == (WaitView { threshold, has_stop, polls: 0, last: None }),
    {
        BufferWait { threshold, has_stop, polls: 0, last: None }
    }

    /// Called before each poll with the current value of the stop flag
    /// (ignored when the wait has none).
    pub fn before_poll(&mut self, stop_requested: bool) -> (step: WaitStep)
        ensures
            final(self)@.threshold == old(self)@.threshold,
            final(self)@.has_stop == old(self)@.has_stop,
            final(self)@.last == old(self)@.last,
            ({
                let w = old(self)@;
                if (w.has_stop && stop_requested) || (!w.has_stop && w.polls >= 600) {
                    step == WaitStep::Done(w.last) && final(self)@.polls == w.polls
                } else {
                    &&& step == WaitStep::Poll
                    &&& !w.has_stop ==> final(self)@.polls == w.polls + 1
                }
            }),
            wait_ok(final(self)@),
    {
        proof { use_type_invariant(&*self); }
        if self.has_stop {
            if stop_requested {
                return WaitStep::Done(self.last);
            }
            self.polls = self.polls.saturating_add(1);
        } else {
            if self.polls >= WAIT_BUFFER_NO_STOP_CAP {
                return WaitStep::Done(self.last);
            }
            self.polls = self.polls + 1;
        }
        WaitStep::Poll
    }

    /// Report the level the poll read, or `None` when the panel gave no
    /// answer.
    pub fn after_poll(&mut self, level: Option<u8>) -> (step: WaitStep)
        ensures
            ({
                let w = old(self)@;
                match level {
                    Some(l) => if l <= w.threshold {
                        step == WaitStep::Done(Some(l)) && final(self)@ == w
                    } else {
                        step == WaitStep::Sleep && final(self)@ == (WaitView { last: Some(l), ..w })
                    },
                    None => step == WaitStep::Done(w.last) && final(self)@ == w,
                }
            }),
            wait_ok(final(self)@),
    {
        proof { use_type_invariant(&*self); }
        match level {
            Some(l) => {
                if l <= self.threshold {
                    WaitStep::Done(Some(l))
                } else {
                    self.last = Some(l);
                    WaitStep::Sleep
                }
            },
            None => WaitStep::Done(self.last),
        }
    }
}

/// Without a stop flag a wait never polls more than 600 times; the level it
/// keeps as its last is always one above the threshold.
pub proof fn law_wait_bounded(w: WaitView)
    requires
        wait_ok(w),
    ensures
        !w.has_stop ==> w.polls <= 600,
        w.last matches Some(l) ==> l > w.threshold,
{
}

} // verus!
