use vstd::prelude::*;

verus! {

/// Buffer level at or below which queued control commands go out right away.
pub const CONTROL_SAFE_LEVEL: u8 = 1;

/// If the panel never drains that far, this level is accepted once a command
/// has waited `CONTROL_RELAX_AFTER_MS`.
pub const CONTROL_RELAXED_LEVEL: u8 = 2;

/// How long, in milliseconds, a play-safe command waits before the relaxed
/// level is accepted.
pub const CONTROL_RELAX_AFTER_MS: u64 = 3000;

/// May play-safe control commands go out now, given the buffer level the
/// panel last reported and the longest wait among them?
pub open spec fn flush_allowed(level: Option<u8>, oldest_age_ms: Option<u64>) -> bool {
    match level {
        Some(l) => l <= CONTROL_SAFE_LEVEL || (l <= CONTROL_RELAXED_LEVEL
            && (oldest_age_ms matches Some(a) && a >= CONTROL_RELAX_AFTER_MS)),
        None => false,
    }
}

/// The flush rule as the stream thread evaluates it between chunks.
pub fn may_flush_control(level: Option<u8>, oldest_age_ms: Option<u64>) -> (open: bool)
    ensures
        open == flush_allowed(level, oldest_age_ms),
{
    match level {
        Some(l) => {
            if l <= CONTROL_SAFE_LEVEL {
                true
            } else if l <= CONTROL_RELAXED_LEVEL {
                match oldest_age_ms {
                    Some(a) => a >= CONTROL_RELAX_AFTER_MS,
                    None => false,
                }
            } else {
                false
            }
        },
        None => false,
    }
}

/// Flushing is never allowed without a buffer level, never above the relaxed
/// level, and at the relaxed level only after the full wait.
pub proof fn law_flush_bounds(level: Option<u8>, oldest_age_ms: Option<u64>)
    ensures
        flush_allowed(level, oldest_age_ms) ==> level is Some,
        flush_allowed(level, oldest_age_ms) ==> level.unwrap() <= CONTROL_RELAXED_LEVEL,
        flush_allowed(level, oldest_age_ms) && level.unwrap() > CONTROL_SAFE_LEVEL
            ==> (oldest_age_ms matches Some(a) && a >= CONTROL_RELAX_AFTER_MS),
        (level matches Some(l) && l <= CONTROL_SAFE_LEVEL) ==> flush_allowed(level, oldest_age_ms),
{
}

/// A lower buffer level, or a longer wait, never forbids an allowed flush.
pub proof fn law_flush_monotone(l1: u8, l2: u8, a1: Option<u64>, a2: Option<u64>)
    requires
        l1 <= l2,
        a2 matches Some(y) ==> (a1 matches Some(x) && x >= y),
        flush_allowed(Some(l2), a2),
    ensures
        flush_allowed(Some(l1), a1),
{
}

/// The flush rule in numbers: commands may go out at buffer level 0 or 1
/// whatever the wait, at level 2 only once the oldest play-safe command has
/// waited 3000 ms, and never at level 3 or above or without a level.
pub proof fn law_flush_rule(level: Option<u8>, oldest_age_ms: Option<u64>)
    ensures
        flush_allowed(level, oldest_age_ms) <==> (level matches Some(l) && (l <= 1 || (l == 2
            && (oldest_age_ms matches Some(a) && a >= 3000)))),
{
}

} // verus!
