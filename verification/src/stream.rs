use vstd::prelude::*;

verus! {

/// A chunk acknowledgement reporting a buffer level above this makes the
/// stream thread wait for the panel to drain.
pub const ACK_DRAIN_ABOVE: u8 = 3;

/// The level the stream thread waits for after a full-buffer ACK.
pub const DRAIN_TARGET_LEVEL: u8 = 2;

/// Shortest pause between two chunks, in nanoseconds.
pub const MIN_CHUNK_INTERVAL_NS: u64 = 30_000_000;

/// What the stream loop does after reading from its source.
#[derive(PartialEq, Eq, Structural, Debug, Clone, Copy)]
pub enum ChunkStep {
    /// End of file while looping: seek back to the start and read again.
    Rewind,
    /// The stream is over.
    Finish,
    /// Send the bytes just read as the next chunk.
    Send,
}

/// The decision of the file stream loop after a read of `n` bytes.
pub open spec fn file_chunk_step(n: usize, looping: bool, stop: bool) -> ChunkStep {
    if n == 0 {
        if looping && !stop {
            ChunkStep::Rewind
        } else {
            ChunkStep::Finish
        }
    } else if stop {
        ChunkStep::Finish
    } else {
        ChunkStep::Send
    }
}

/// After reading `n` bytes of an H.264 file: rewind at the end when
/// looping and not stopped, stop on request, otherwise send.
pub fn after_file_read(n: usize, looping: bool, stop: bool) -> (step: ChunkStep)
    ensures
        step == file_chunk_step(n, looping, stop),
{
    if n == 0 {
        if looping && !stop {
            ChunkStep::Rewind
        } else {
            ChunkStep::Finish
        }
    } else if stop {
        ChunkStep::Finish
    } else {
        ChunkStep::Send
    }
}

/// After reading `n` bytes of a live H.264 stream: an empty read ends it.
pub fn after_reader_read(n: usize) -> (step: ChunkStep)
    ensures
        step == (if n == 0 { ChunkStep::Finish } else { ChunkStep::Send }),
{
    if n == 0 {
        ChunkStep::Finish
    } else {
        ChunkStep::Send
    }
}

/// A chunk is the last one when the file position has reached its length.
pub fn is_last_chunk(position: u64, file_len: u64) -> (last: bool)
    ensures
        last == (position >= file_len),
{
    position >= file_len
}

/// Must the stream thread wait for the panel to drain after this ACK level?
pub fn ack_needs_drain(level: u8) -> (drain: bool)
    ensures
        drain == (level > ACK_DRAIN_ABOVE),
        drain <==> level >= 4,
{
    level > ACK_DRAIN_ABOVE
}

/// The buffer level the flush rule sees after a chunk: the level the
/// drain wait ended on, if it read one, else the level of the ACK.
pub fn settled_level(ack_level: Option<u8>, drained_level: Option<u8>) -> (level: Option<u8>)
    ensures
        level == (if drained_level is Some { drained_level } else { ack_level }),
{
    match drained_level {
        Some(l) => Some(l),
        None => ack_level,
    }
}

/// The pause between chunks: the frame interval the caller computed from
/// the frame rate, but never shorter than `MIN_CHUNK_INTERVAL_NS`.
pub fn chunk_interval_ns(frame_interval_ns: u64) -> (interval: u64)
    ensures
        interval == (if frame_interval_ns >= MIN_CHUNK_INTERVAL_NS { frame_interval_ns } else { MIN_CHUNK_INTERVAL_NS }),
        interval >= 30_000_000,
        interval >= frame_interval_ns,
        frame_interval_ns >= 30_000_000 ==> interval == frame_interval_ns,
{
    if frame_interval_ns >= MIN_CHUNK_INTERVAL_NS {
        frame_interval_ns
    } else {
        MIN_CHUNK_INTERVAL_NS
    }
}

/// How long to sleep before the next chunk, given its deadline.
pub fn pacing_sleep_ns(deadline_ns: u64, now_ns: u64) -> (sleep: u64)
    ensures
        sleep == (if now_ns < deadline_ns { deadline_ns - now_ns } else { 0 }),
{
    if now_ns < deadline_ns {
        deadline_ns - now_ns
    } else {
        0
    }
}

/// The deadline of the chunk after next: one interval later, or one
/// interval from now when the stream has fallen behind.
pub open spec fn next_deadline(deadline_ns: u64, interval_ns: u64, now_ns: u64) -> int {
    if deadline_ns + interval_ns < now_ns {
        now_ns + interval_ns
    } else {
        deadline_ns + interval_ns
    }
}

pub fn advance_deadline_ns(deadline_ns: u64, interval_ns: u64, now_ns: u64) -> (next: u64)
    requires
        deadline_ns + interval_ns <= u64::MAX,
        now_ns + interval_ns <= u64::MAX,
    ensures
        next == next_deadline(deadline_ns, interval_ns, now_ns),
{
    let next = deadline_ns + interval_ns;
    if next < now_ns {
        now_ns + interval_ns
    } else {
        next
    }
}

/// Pacing never schedules a chunk in the past, and never later than one
/// interval after the later of the old deadline and now; when the stream
/// keeps up, deadlines are exactly one interval apart.
pub proof fn law_deadline_pacing(deadline_ns: u64, interval_ns: u64, now_ns: u64)
    ensures
        next_deadline(deadline_ns, interval_ns, now_ns) >= now_ns,
        next_deadline(deadline_ns, interval_ns, now_ns) >= deadline_ns + interval_ns,
        next_deadline(deadline_ns, interval_ns, now_ns) <= (if deadline_ns >= now_ns { deadline_ns } else { now_ns }) + interval_ns,
        deadline_ns + interval_ns >= now_ns ==> next_deadline(deadline_ns, interval_ns, now_ns)
            == deadline_ns + interval_ns,
{
}

/// The file stream loop, stated over its inputs: a stop request ends the
/// stream after any read, looping or not; a chunk is sent only when bytes
/// were read and no stop was requested; the file is rewound only at its
/// end, when looping and not stopped. A live stream ends exactly on an
/// empty read.
pub proof fn law_stream_step(n: usize, looping: bool, stop: bool)
    ensures
        stop ==> file_chunk_step(n, looping, stop) == ChunkStep::Finish,
        file_chunk_step(n, looping, stop) == ChunkStep::Send <==> (n > 0 && !stop),
        file_chunk_step(n, looping, stop) == ChunkStep::Rewind <==> (n == 0 && looping && !stop),
        (n == 0 && !looping) ==> file_chunk_step(n, looping, stop) == ChunkStep::Finish,
{
}

} // verus!
