use vstd::prelude::*;
use vstd::utf8::{decode_utf8, valid_utf8};

use crate::recovery::{HealthView, LinkHealth, RecoveryPhase};
use crate::wire::{announced_block_size, firmware_field, firmware_version, block_size_from_reply, utf8_lossy};

verus! {

/// H.264 chunk size used until the panel announces its own.
pub const DEFAULT_H264_CHUNK_SIZE: usize = 202_752;

/// A frame is tried this many times before its error is returned.
pub const FRAME_SEND_ATTEMPTS: u32 = 3;

/// What to do after one attempt at sending a frame.
#[derive(PartialEq, Eq, Structural, Debug, Clone, Copy)]
pub enum FrameAttempt {
    /// The frame went out.
    Sent,
    /// It failed; the panel is marked uninitialized and the frame is tried
    /// again.
    Retry,
    /// It failed on the last attempt; its error is returned.
    GiveUp,
}

/// The state of an open LCD that the driver logic reads and updates.
pub struct LcdSession {
    pub initialized: bool,
    pub h264_chunk_size: usize,
    pub firmware: Option<String>,
    pub health: LinkHealth,
}

impl LcdSession {
    pub fn new() -> (s: LcdSession)
        ensures
            !s.initialized,
            s.h264_chunk_size == DEFAULT_H264_CHUNK_SIZE,
            s.h264_chunk_size == 202_752,
            s.firmware is None,
            s.health@ == (HealthView { failures: 0, gone: false, phase: RecoveryPhase::Idle }),
    {
        LcdSession {
            initialized: false,
            h264_chunk_size: DEFAULT_H264_CHUNK_SIZE,
            firmware: None,
            health: LinkHealth::new(),
        }
    }

    /// A write went through: the failure streak ends.
    pub fn note_write_success(&mut self)
        ensures
            final(self).health@ == (HealthView { failures: 0, ..old(self).health@ }),
            final(self).initialized == old(self).initialized,
            final(self).h264_chunk_size == old(self).h264_chunk_size,
            final(self).firmware == old(self).firmware,
    {
        self.health.note_write_success();
    }

    /// After re-discovery: the device is no longer gone and no failure is
    /// counted.
    pub fn reset_failure_state(&mut self)
        ensures
            final(self).health@ == (HealthView { failures: 0, gone: false, phase: RecoveryPhase::Idle }),
            final(self).initialized == old(self).initialized,
            final(self).h264_chunk_size == old(self).h264_chunk_size,
            final(self).firmware == old(self).firmware,
    {
        self.health.reset();
    }

    /// The panel has left the initialized state (after a stream, a desktop
    /// switch or a failed frame); it has to be initialized again.
    pub fn mark_uninitialized(&mut self)
        ensures
            !final(self).initialized,
            final(self).h264_chunk_size == old(self).h264_chunk_size,
            final(self).firmware == old(self).firmware,
            final(self).health@ == old(self).health@,
    {
        self.initialized = false;
    }

    /// Take the chunk size a GetH264Block reply announces; zero changes
    /// nothing.
    pub fn apply_block_size_reply(&mut self, reply: &[u8; 512])
        ensures
            final(self).h264_chunk_size == (match announced_block_size(reply@) {
                Some(n) => n,
                None => old(self).h264_chunk_size,
            }),
            final(self).initialized == old(self).initialized,
            final(self).firmware == old(self).firmware,
            final(self).health@ == old(self).health@,
    {
        if let Some(size) = block_size_from_reply(reply) {
            self.h264_chunk_size = size;
        }
    }

    /// Take the firmware version a GetVer reply reports; an empty field
    /// changes nothing.
    pub fn apply_firmware_reply(&mut self, reply: &[u8; 512])
        ensures
            firmware_field(reply@).len() > 0 ==> (final(self).firmware matches Some(v) && v@
                == utf8_lossy(firmware_field(reply@))),
            (firmware_field(reply@).len() > 0 && valid_utf8(firmware_field(reply@))) ==> (
            final(self).firmware matches Some(v) && v@ == decode_utf8(firmware_field(reply@))),
            firmware_field(reply@).len() == 0 ==> final(self).firmware == old(self).firmware,
            final(self).initialized == old(self).initialized,
            final(self).h264_chunk_size == old(self).h264_chunk_size,
            final(self).health@ == old(self).health@,
    {
        if let Some(v) = firmware_version(reply) {
            self.firmware = Some(v);
        }
    }

    pub fn firmware_str(&self) -> (fw: Option<&str>)
        ensures
            fw is None <==> self.firmware is None,
            fw matches Some(t) ==> (self.firmware matches Some(f) && t@ == f@),
    {
        match &self.firmware {
            Some(f) => Some(f.as_str()),
            None => None,
        }
    }

    /// After attempt number `attempt` (counting from zero) at sending a
    /// frame: done on success; on failure mark the panel uninitialized and
    /// retry, unless this was the last attempt.
    pub fn after_frame_attempt(&mut self, attempt: u32, sent: bool) -> (next: FrameAttempt)
        requires
            attempt < FRAME_SEND_ATTEMPTS,
        ensures
            sent ==> next == FrameAttempt::Sent && final(self).initialized == old(self).initialized,
            !sent && attempt < 2 ==> next == FrameAttempt::Retry,
            !sent && attempt == 2 ==> next == FrameAttempt::GiveUp,
            !sent && attempt + 1 < FRAME_SEND_ATTEMPTS ==> next == FrameAttempt::Retry
                && !final(self).initialized,
            !sent && attempt + 1 == FRAME_SEND_ATTEMPTS ==> next == FrameAttempt::GiveUp
                && final(self).initialized == old(self).initialized,
            final(self).h264_chunk_size == old(self).h264_chunk_size,
            final(self).firmware == old(self).firmware,
            final(self).health@ == old(self).health@,
    {
        if sent {
            FrameAttempt::Sent
        } else if attempt + 1 < FRAME_SEND_ATTEMPTS {
            self.initialized = false;
            FrameAttempt::Retry
        } else {
            FrameAttempt::GiveUp
        }
    }
}

} // verus!
