use vstd::prelude::*;
use vstd::utf8::{decode_utf8, valid_utf8};

verus! {

/// Every command starts with a header of this many bytes.
pub const PACKET_HEADER_LEN: usize = 512;

/// Every reply the panel sends is read into a buffer of this many bytes.
pub const REPLY_LEN: usize = 512;

/// Offset of the buffer-level byte in a chunk acknowledgement or a
/// QueryBlock reply.
pub const LEVEL_OFFSET: usize = 8;

/// Bytes `8..40` of a GetVer reply hold the firmware version, NUL-padded.
pub const FIRMWARE_START: usize = 8;
pub const FIRMWARE_END: usize = 40;

/// Why a frame could not be sent.
#[derive(PartialEq, Eq, Structural, Debug, Clone, Copy)]
pub enum FrameError {
    /// The payload exceeds what the panel accepts in one frame.
    TooLarge { len: usize, max: usize },
}

/// A command on the wire: the 512-byte header followed by the payload.
pub fn frame_packet(header: &[u8], payload: &[u8]) -> (packet: Vec<u8>)
    requires
        header@.len() == PACKET_HEADER_LEN,
        PACKET_HEADER_LEN + payload@.len() <= usize::MAX,
    ensures
        packet@ == header@ + payload@,
{
    let mut packet: Vec<u8> = Vec::with_capacity(PACKET_HEADER_LEN + payload.len());
    let mut i: usize = 0;
    while i < header.len()
        invariant
            i <= header@.len(),
            packet@ == header@.take(i as int),
        decreases header@.len() - i,
    {
        assert(header@.take(i as int + 1) == header@.take(i as int).push(header@[i as int]));
        packet.push(header[i]);
        i = i + 1;
    }
    assert(header@.take(header@.len() as int) == header@);
    let mut j: usize = 0;
    while j < payload.len()
        invariant
            j <= payload@.len(),
            packet@ == header@ + payload@.take(j as int),
        decreases payload@.len() - j,
    {
        assert(payload@.take(j as int + 1) == payload@.take(j as int).push(payload@[j as int]));
        packet.push(payload[j]);
        j = j + 1;
    }
    assert(payload@.take(payload@.len() as int) == payload@);
    packet
}

/// A frame may be sent only if its payload fits the panel's limit.
pub fn check_frame_len(frame_len: usize, max_payload: usize) -> (r: Result<(), FrameError>)
    ensures
        r is Ok <==> frame_len <= max_payload,
        r matches Err(e) ==> e == (FrameError::TooLarge { len: frame_len, max: max_payload }),
{
    if frame_len > max_payload {
        Err(FrameError::TooLarge { len: frame_len, max: max_payload })
    } else {
        Ok(())
    }
}

/// The buffer level a chunk acknowledgement or QueryBlock reply reports.
pub fn reply_level(reply: &[u8; 512]) -> (level: u8)
    ensures
        level == reply@[LEVEL_OFFSET as int],
{
    reply[LEVEL_OFFSET]
}

/// The big-endian 32-bit number at `i..i + 4`.
pub open spec fn be_u32_at(s: Seq<u8>, i: int) -> int {
    s[i] * 16777216 + s[i + 1] * 65536 + s[i + 2] * 256 + s[i + 3]
}

/// The H.264 chunk size a GetH264Block reply announces; zero announces
/// nothing.
pub open spec fn announced_block_size(reply: Seq<u8>) -> Option<usize> {
    if be_u32_at(reply, 8) > 0 {
        Some(be_u32_at(reply, 8) as usize)
    } else {
        None
    }
}

pub fn block_size_from_reply(reply: &[u8; 512]) -> (size: Option<usize>)
    ensures
        size == announced_block_size(reply@),
{
    let v: u32 = (reply[8] as u32) * 16777216 + (reply[9] as u32) * 65536 + (reply[10] as u32) * 256
        + (reply[11] as u32);
    if v > 0 {
        Some(v as usize)
    } else {
        None
    }
}

/// The bytes before the first NUL (all of them when there is none).
pub open spec fn until_nul(f: Seq<u8>) -> Seq<u8>
    decreases f.len(),
{
    if f.len() == 0 {
        f
    } else if f[0] == 0 {
        Seq::empty()
    } else {
        seq![f[0]] + until_nul(f.drop_first())
    }
}

/// The firmware field of a GetVer reply.
pub open spec fn firmware_field(reply: Seq<u8>) -> Seq<u8> {
    until_nul(reply.subrange(FIRMWARE_START as int, FIRMWARE_END as int))
}

proof fn lemma_until_nul(f: Seq<u8>, k: int)
    requires
        0 <= k <= f.len(),
        forall|j: int| 0 <= j < k ==> f[j] != 0,
        k == f.len() || f[k] == 0,
    ensures
        until_nul(f) == f.take(k),
    decreases k,
{
    if k == 0 {
        if f.len() > 0 {
            assert(f[0] == 0);
        }
        assert(f.take(0) =~= Seq::<u8>::empty());
        assert(f.len() == 0 ==> f =~= Seq::<u8>::empty());
    } else {
        let g = f.drop_first();
        assert forall|j: int| 0 <= j < k - 1 implies g[j] != 0 by {
            assert(g[j] == f[j + 1]);
        }
        if k - 1 < g.len() {
            assert(g[k - 1] == f[k]);
        }
        lemma_until_nul(g, k - 1);
        assert(seq![f[0]] + g.take(k - 1) =~= f.take(k));
    }
}

/// The firmware field of a GetVer reply: bytes `8..40` up to the first NUL.
pub fn firmware_field_bytes(reply: &[u8; 512]) -> (field: Vec<u8>)
    ensures
        field@ == firmware_field(reply@),
{
    let ghost f = reply@.subrange(FIRMWARE_START as int, FIRMWARE_END as int);
    let mut field: Vec<u8> = Vec::new();
    let mut i: usize = FIRMWARE_START;
    while i < FIRMWARE_END && reply[i] != 0
        invariant
            FIRMWARE_START <= i <= FIRMWARE_END,
            f == reply@.subrange(FIRMWARE_START as int, FIRMWARE_END as int),
            field@ == f.take(i - FIRMWARE_START),
            forall|j: int| 0 <= j < i - FIRMWARE_START ==> f[j] != 0,
        decreases FIRMWARE_END - i,
    {
        assert(f.take(i - FIRMWARE_START + 1) == f.take(i - FIRMWARE_START).push(reply@[i as int]));
        field.push(reply[i]);
        i = i + 1;
    }
    proof {
        lemma_until_nul(f, i - FIRMWARE_START);
    }
    field
}

/// What `String::from_utf8_lossy` makes of these bytes.
pub uninterp spec fn utf8_lossy(bytes: Seq<u8>) -> Seq<char>;

/// Decodes bytes as UTF-8 with `String::from_utf8_lossy`, each invalid
/// sequence becoming U+FFFD. Claimed: the result is named `utf8_lossy`,
/// it is empty exactly when the input is, and valid UTF-8 is decoded as is.
#[verifier::external_body]
fn decode_utf8_lossy(bytes: &[u8]) -> (s: String)
    ensures
        s@ == utf8_lossy(bytes@),
        s@.len() == 0 <==> bytes@.len() == 0,
        valid_utf8(bytes@) ==> s@ == decode_utf8(bytes@),
{
    String::from_utf8_lossy(bytes).into_owned()
}

/// The firmware version a GetVer reply reports, if the field is not empty.
pub fn firmware_version(reply: &[u8; 512]) -> (version: Option<String>)
    ensures
        version is Some <==> firmware_field(reply@).len() > 0,
        version matches Some(v) ==> v@ == utf8_lossy(firmware_field(reply@)),
        version matches Some(v) ==> (valid_utf8(firmware_field(reply@)) ==> v@ == decode_utf8(
            firmware_field(reply@),
        )),
{
    let field = firmware_field_bytes(reply);
    let text = decode_utf8_lossy(field.as_slice());
    if text.as_str().is_empty() {
        None
    } else {
        Some(text)
    }
}

/// A GetH264Block reply announces the big-endian number in bytes `8..12`;
/// it announces nothing exactly when those four bytes are zero.
pub proof fn law_block_size_big_endian(r: Seq<u8>)
    requires
        r.len() >= 12,
    ensures
        announced_block_size(r) is None <==> (r[8] == 0 && r[9] == 0 && r[10] == 0 && r[11] == 0),
        announced_block_size(r) matches Some(n) ==> n > 0 && n == ((r[8] * 256 + r[9]) * 256 + r[10]) * 256 + r[11],
{
}

proof fn lemma_until_nul_shape(g: Seq<u8>)
    ensures
        until_nul(g).len() <= g.len(),
        forall|i: int| 0 <= i < until_nul(g).len() ==> #[trigger] until_nul(g)[i] == g[i] && g[i] != 0,
        until_nul(g).len() == g.len() || g[until_nul(g).len() as int] == 0,
    decreases g.len(),
{
    if g.len() > 0 && g[0] != 0 {
        let h = g.drop_first();
        lemma_until_nul_shape(h);
        let u = until_nul(g);
        assert forall|i: int| 0 <= i < u.len() implies #[trigger] u[i] == g[i] && g[i] != 0 by {
            if i > 0 {
                assert(u[i] == until_nul(h)[i - 1]);
                assert(h[i - 1] == g[i]);
            }
        }
        if until_nul(h).len() < h.len() {
            assert(h[until_nul(h).len() as int] == g[u.len() as int]);
        }
    }
}

/// The firmware field is the longest run of non-NUL bytes at the start of
/// bytes `8..40` of the reply: at most 32 bytes, copied as they are, and
/// either all 32 or followed by a NUL.
pub proof fn law_firmware_field(r: Seq<u8>)
    requires
        r.len() >= 40,
    ensures
        firmware_field(r).len() <= 32,
        forall|i: int| 0 <= i < firmware_field(r).len() ==> #[trigger] firmware_field(r)[i] == r[8 + i]
            && r[8 + i] != 0,
        firmware_field(r).len() == 32 || r[8 + firmware_field(r).len() as int] == 0,
{
    let g = r.subrange(8, 40);
    lemma_until_nul_shape(g);
    assert forall|i: int| 0 <= i < firmware_field(r).len() implies #[trigger] firmware_field(r)[i] == r[8 + i]
        && r[8 + i] != 0 by {
        assert(firmware_field(r) == until_nul(g));
        assert(0 <= i < until_nul(g).len());
        assert(until_nul(g)[i] == g[i]);
        assert(g[i] != 0);
        assert(g[i] == r[8 + i]);
    }
    if firmware_field(r).len() < 32 {
        assert(g[firmware_field(r).len() as int] == r[8 + firmware_field(r).len() as int]);
    }
}

} // verus!
