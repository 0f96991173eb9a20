//! The fixed-size 1420-byte relay frame: SessionId (16) | Nonce (8) |
//! PayloadLength (2, big endian) | Payload | zero padding.
use vstd::prelude::*;

use crate::error::ProtocolError;
use crate::text::{byte_list_string, byte_list_text, concat_text, decimal_string, decimal_text};
use crate::protocol::wire::{be16_at, be16_bytes, copy_range, get_u16, put_slice, put_u16, put_zeros};

verus! {

/// Fixed total size of a frame in bytes (MTU-friendly wire format).
pub const FRAME_SIZE: usize = 1420;

/// Size of the SessionId field in bytes.
pub const SESSION_ID_SIZE: usize = 16;

/// Size of the Nonce field in bytes.
pub const NONCE_SIZE: usize = 8;

/// Size of the PayloadLength field in bytes.
pub const PAYLOAD_LEN_SIZE: usize = 2;

/// Total size of the frame header in bytes (16 + 8 + 2 = 26).
pub const HEADER_SIZE: usize = SESSION_ID_SIZE + NONCE_SIZE + PAYLOAD_LEN_SIZE;

/// Maximum allowed payload size in bytes: 1420 - 16 - 8 - 2 = 1394.
pub const MAX_PAYLOAD_SIZE: usize = FRAME_SIZE - HEADER_SIZE;

/// Session identifier (16 bytes).
pub type SessionId = [u8; SESSION_ID_SIZE];

/// Packet nonce (8 bytes).
pub type Nonce = [u8; NONCE_SIZE];

/// A parsed protocol frame.
#[derive(Clone, PartialEq, Eq)]
pub struct Frame {
    pub session_id: SessionId,
    pub nonce: Nonce,
    pub payload: Vec<u8>,
}

/// The 1420 wire bytes of a frame with these fields: header, payload, then zero padding.
pub open spec fn frame_wire(session_id: Seq<u8>, nonce: Seq<u8>, payload: Seq<u8>) -> Seq<u8> {
    session_id + nonce + be16_bytes(payload.len() as u16) + payload
        + Seq::new((MAX_PAYLOAD_SIZE - payload.len()) as nat, |k: int| 0u8)
}

/// The wire bytes of `f`.
pub open spec fn frame_bytes(f: Frame) -> Seq<u8> {
    frame_wire(f.session_id@, f.nonce@, f.payload@)
}

/// The PayloadLength field of the frame that starts at the beginning of `b`.
pub open spec fn wire_payload_len(b: Seq<u8>) -> int {
    be16_at(b, SESSION_ID_SIZE + NONCE_SIZE) as int
}

/// `f` holds the fields of the frame that starts at the beginning of `b`.
pub open spec fn frame_from_wire(f: Frame, b: Seq<u8>) -> bool {
    &&& f.session_id@ == b.subrange(0, 16)
    &&& f.nonce@ == b.subrange(16, 24)
    &&& f.payload@ == b.subrange(26, 26 + wire_payload_len(b))
}

/// What parsing the first 1420 bytes of `b` gives: the frame, or the error
/// when its PayloadLength field exceeds `MAX_PAYLOAD_SIZE`.
pub open spec fn parse_result_ok(b: Seq<u8>, r: Result<Frame, ProtocolError>) -> bool {
    if wire_payload_len(b) > MAX_PAYLOAD_SIZE {
        r == Err::<Frame, ProtocolError>(
            ProtocolError::PayloadTooLarge { actual: wire_payload_len(b) as usize, max: MAX_PAYLOAD_SIZE },
        )
    } else {
        r matches Ok(f) && frame_from_wire(f, b)
    }
}

/// The frame whose fields these are, when the payload fits in a frame.
pub open spec fn frame_new_result(session_id: SessionId, nonce: Nonce, payload: Seq<u8>, r: Result<Frame, ProtocolError>) -> bool {
    if payload.len() > MAX_PAYLOAD_SIZE {
        r == Err::<Frame, ProtocolError>(
            ProtocolError::PayloadTooLarge { actual: payload.len() as usize, max: MAX_PAYLOAD_SIZE },
        )
    } else {
        r matches Ok(f) && f.session_id == session_id && f.nonce == nonce && f.payload@ == payload
    }
}

/// Two frames carry the same session id, nonce and payload bytes.
pub open spec fn same_frame(a: Frame, b: Frame) -> bool {
    a.session_id@ == b.session_id@ && a.nonce@ == b.nonce@ && a.payload@ == b.payload@
}

/// Encoding then decoding gives the frame back: the wire form of a frame whose
/// payload fits is exactly 1420 bytes, and parsing it (whatever follows it in
/// the buffer) yields exactly that frame and leaves what follows.
pub proof fn lemma_frame_roundtrip(f: Frame, rest: Seq<u8>)
    requires
        f.payload@.len() <= MAX_PAYLOAD_SIZE,
    ensures
        frame_bytes(f).len() == FRAME_SIZE,
        (frame_bytes(f) + rest).subrange(FRAME_SIZE as int, (frame_bytes(f) + rest).len() as int) == rest,
        forall|r: Result<Frame, ProtocolError>|
            parse_result_ok(frame_bytes(f) + rest, r) <==> (r matches Ok(g) && same_frame(g, f)),
{
    let n: int = f.payload@.len() as int;
    let w = frame_bytes(f);
    let b = w + rest;
    assert(w.len() == FRAME_SIZE);
    assert(b.subrange(0, FRAME_SIZE as int) == w);
    assert(b.subrange(FRAME_SIZE as int, b.len() as int) =~= rest);
    assert(b.subrange(0, 16) =~= f.session_id@);
    assert(b.subrange(16, 24) =~= f.nonce@);
    assert(b.subrange(24, 26) =~= be16_bytes(n as u16));
    crate::protocol::wire::lemma_be16_roundtrip(n as u16, b, 24);
    assert(wire_payload_len(b) == n);
    assert(b.subrange(26, 26 + n) =~= f.payload@);
}

fn take_session_id(b: &[u8]) -> (r: SessionId)
    requires
        b@.len() >= 16,
    ensures
        r@ == b@.subrange(0, 16),
{
    let mut out: SessionId = [0u8; SESSION_ID_SIZE];
    let mut i: usize = 0;
    while i < SESSION_ID_SIZE
        invariant
            0 <= i <= 16,
            b@.len() >= 16,
            forall|j: int| 0 <= j < i ==> out@[j] == b@[j],
        decreases 16 - i,
    {
        out[i] = b[i];
        i = i + 1;
    }
    assert(out@ =~= b@.subrange(0, 16));
    out
}

fn take_nonce(b: &[u8]) -> (r: Nonce)
    requires
        b@.len() >= 24,
    ensures
        r@ == b@.subrange(16, 24),
{
    let mut out: Nonce = [0u8; NONCE_SIZE];
    let mut i: usize = 0;
    while i < NONCE_SIZE
        invariant
            0 <= i <= 8,
            b@.len() >= 24,
            forall|j: int| 0 <= j < i ==> out@[j] == b@[16 + j],
        decreases 8 - i,
    {
        out[i] = b[16 + i];
        i = i + 1;
    }
    assert(out@ =~= b@.subrange(16, 24));
    out
}

/// Parses the frame at the start of `b`, which holds at least a whole frame.
fn parse_frame_prefix(b: &[u8]) -> (r: Result<Frame, ProtocolError>)
    requires
        b@.len() >= FRAME_SIZE,
    ensures
        parse_result_ok(b@, r),
{
    let session_id = take_session_id(b);
    let nonce = take_nonce(b);
    let payload_len = get_u16(b, 24) as usize;
    if payload_len > MAX_PAYLOAD_SIZE {
        return Err(ProtocolError::PayloadTooLarge { actual: payload_len, max: MAX_PAYLOAD_SIZE });
    }
    let payload = copy_range(b, HEADER_SIZE, HEADER_SIZE + payload_len);
    Ok(Frame { session_id, nonce, payload })
}

/// Moves the first `n` bytes out of `src`.
fn split_front(src: &mut Vec<u8>, n: usize) -> (front: Vec<u8>)
    requires
        n <= old(src)@.len(),
    ensures
        front@ == old(src)@.subrange(0, n as int),
        final(src)@ == old(src)@.subrange(n as int, old(src)@.len() as int),
{
    let rest = src.split_off(n);
    let mut front = rest;
    std::mem::swap(&mut front, src);
    front
}

impl Frame {
    /// Creates a new `Frame`, refusing a payload longer than `MAX_PAYLOAD_SIZE`.
    pub fn new(session_id: SessionId, nonce: Nonce, payload: Vec<u8>) -> (r: Result<Self, ProtocolError>)
        ensures
            frame_new_result(session_id, nonce, payload@, r),
    {
        if payload.len() > MAX_PAYLOAD_SIZE {
            return Err(ProtocolError::PayloadTooLarge { actual: payload.len(), max: MAX_PAYLOAD_SIZE });
        }
        Ok(Frame { session_id, nonce, payload })
    }

    /// Parses a complete frame from a slice of at least `FRAME_SIZE` bytes.
    pub fn from_slice(slice: &[u8]) -> (r: Result<Self, ProtocolError>)
        ensures
            slice@.len() < FRAME_SIZE ==> r == Err::<Frame, ProtocolError>(
                ProtocolError::FrameTooShort { expected: FRAME_SIZE, actual: slice@.len() as usize },
            ),
            slice@.len() >= FRAME_SIZE ==> parse_result_ok(slice@, r),
    {
        if slice.len() < FRAME_SIZE {
            return Err(ProtocolError::FrameTooShort { expected: FRAME_SIZE, actual: slice.len() });
        }
        parse_frame_prefix(slice)
    }

    /// Parses a complete frame from the front of `src`, splitting off exactly
    /// `FRAME_SIZE` bytes; a buffer shorter than that is left untouched.
    pub fn parse(src: &mut Vec<u8>) -> (r: Result<Self, ProtocolError>)
        ensures
            old(src)@.len() < FRAME_SIZE ==> r == Err::<Frame, ProtocolError>(
                ProtocolError::FrameTooShort { expected: FRAME_SIZE, actual: old(src)@.len() as usize },
            ) && final(src)@ == old(src)@,
            old(src)@.len() >= FRAME_SIZE ==> parse_result_ok(old(src)@, r) && final(src)@
                == old(src)@.subrange(FRAME_SIZE as int, old(src)@.len() as int),
    {
        if src.len() < FRAME_SIZE {
            return Err(ProtocolError::FrameTooShort { expected: FRAME_SIZE, actual: src.len() });
        }
        let frame_bytes = split_front(src, FRAME_SIZE);
        let r = parse_frame_prefix(frame_bytes.as_slice());
        proof {
            assert(frame_bytes@.subrange(0, 16) == old(src)@.subrange(0, 16));
            assert(frame_bytes@.subrange(16, 24) == old(src)@.subrange(16, 24));
            assert(frame_bytes@[24] == old(src)@[24] && frame_bytes@[25] == old(src)@[25]);
            let n = wire_payload_len(old(src)@);
            if n <= MAX_PAYLOAD_SIZE {
                assert(frame_bytes@.subrange(26, 26 + n) == old(src)@.subrange(26, 26 + n));
            }
        }
        r
    }
}

/// Constant-time slice comparison to prevent timing side-channels: every byte
/// pair is combined before the single final test.
pub fn constant_time_eq(a: &[u8], b: &[u8]) -> (r: bool)
    ensures
        r == (a@ == b@),
{
    if a.len() != b.len() {
        return false;
    }
    let mut res: u8 = 0;
    let mut i: usize = 0;
    while i < a.len()
        invariant
            a@.len() == b@.len(),
            0 <= i <= a@.len(),
            (res == 0) <==> (forall|j: int| 0 <= j < i ==> a@[j] == b@[j]),
        decreases a@.len() - i,
    {
        let x = a[i];
        let y = b[i];
        let old_res = res;
        res = res | (x ^ y);
        assert((old_res | (x ^ y)) == 0u8 <==> (old_res == 0u8 && x == y)) by (bit_vector);
        i = i + 1;
    }
    if res == 0 {
        assert(a@ =~= b@);
        true
    } else {
        false
    }
}

/// Constant-time comparison for Session IDs.
pub fn session_id_eq(a: &SessionId, b: &SessionId) -> (r: bool)
    ensures
        r == (a@ == b@),
{
    constant_time_eq(a.as_slice(), b.as_slice())
}

/// Codec for encoding and decoding fixed-size 1420-byte binary frames.
#[derive(Debug, Default, Clone, Copy)]
pub struct FrameCodec;

impl FrameCodec {
    /// Creates a new `FrameCodec`.
    pub fn new() -> (r: Self) {
        FrameCodec
    }

    /// Appends the 1420 wire bytes of `item`, or refuses a payload longer than
    /// `MAX_PAYLOAD_SIZE` and leaves `dst` unchanged.
    pub fn encode(&mut self, item: Frame, dst: &mut Vec<u8>) -> (r: Result<(), ProtocolError>)
        ensures
            item.payload@.len() > MAX_PAYLOAD_SIZE ==> r == Err::<(), ProtocolError>(
                ProtocolError::PayloadTooLarge { actual: item.payload@.len() as usize, max: MAX_PAYLOAD_SIZE },
            ) && final(dst)@ == old(dst)@,
            item.payload@.len() <= MAX_PAYLOAD_SIZE ==> r is Ok && final(dst)@ == old(dst)@ + frame_bytes(item),
    {
        let payload_len = item.payload.len();
        if payload_len > MAX_PAYLOAD_SIZE {
            return Err(ProtocolError::PayloadTooLarge { actual: payload_len, max: MAX_PAYLOAD_SIZE });
        }
        put_slice(dst, item.session_id.as_slice());
        put_slice(dst, item.nonce.as_slice());
        put_u16(dst, payload_len as u16);
        put_slice(dst, item.payload.as_slice());
        put_zeros(dst, MAX_PAYLOAD_SIZE - payload_len);
        Ok(())
    }

    /// Decodes one frame from the front of `src`: `Ok(None)` while fewer than
    /// 1420 bytes are buffered (nothing is consumed); otherwise exactly 1420
    /// bytes are consumed, padding included, even when the frame is refused.
    pub fn decode(&mut self, src: &mut Vec<u8>) -> (r: Result<Option<Frame>, ProtocolError>)
        ensures
            old(src)@.len() < FRAME_SIZE ==> r == Ok::<Option<Frame>, ProtocolError>(None) && final(src)@
                == old(src)@,
            old(src)@.len() >= FRAME_SIZE ==> final(src)@ == old(src)@.subrange(
                FRAME_SIZE as int,
                old(src)@.len() as int,
            ) && match r {
                Ok(Some(f)) => parse_result_ok(old(src)@, Ok(f)),
                Ok(None) => false,
                Err(e) => parse_result_ok(old(src)@, Err(e)),
            },
    {
        if src.len() < FRAME_SIZE {
            return Ok(None);
        }
        match Frame::parse(src) {
            Ok(f) => Ok(Some(f)),
            Err(e) => Err(e),
        }
    }

    /// Decodes at end of stream: a leftover that is not a whole frame is an error.
    pub fn decode_eof(&mut self, buf: &mut Vec<u8>) -> (r: Result<Option<Frame>, ProtocolError>)
        ensures
            old(buf)@.len() == 0 ==> r == Ok::<Option<Frame>, ProtocolError>(None) && final(buf)@ == old(buf)@,
            0 < old(buf)@.len() < FRAME_SIZE ==> r == Err::<Option<Frame>, ProtocolError>(
                ProtocolError::FrameTooShort { expected: FRAME_SIZE, actual: old(buf)@.len() as usize },
            ) && final(buf)@ == old(buf)@,
            old(buf)@.len() >= FRAME_SIZE ==> final(buf)@ == old(buf)@.subrange(
                FRAME_SIZE as int,
                old(buf)@.len() as int,
            ) && match r {
                Ok(Some(f)) => parse_result_ok(old(buf)@, Ok(f)),
                Ok(None) => false,
                Err(e) => parse_result_ok(old(buf)@, Err(e)),
            },
    {
        match self.decode(buf) {
            Ok(Some(frame)) => Ok(Some(frame)),
            Ok(None) => {
                if buf.len() == 0 {
                    Ok(None)
                } else {
                    Err(ProtocolError::FrameTooShort { expected: FRAME_SIZE, actual: buf.len() })
                }
            },
            Err(e) => Err(e),
        }
    }

    /// Decodes exactly one frame, or reports `FrameTooShort` when fewer than
    /// 1420 bytes are available.
    pub fn decode_exact(&mut self, src: &mut Vec<u8>) -> (r: Result<Frame, ProtocolError>)
        ensures
            old(src)@.len() < FRAME_SIZE ==> r == Err::<Frame, ProtocolError>(
                ProtocolError::FrameTooShort { expected: FRAME_SIZE, actual: old(src)@.len() as usize },
            ) && final(src)@ == old(src)@,
            old(src)@.len() >= FRAME_SIZE ==> parse_result_ok(old(src)@, r) && final(src)@
                == old(src)@.subrange(FRAME_SIZE as int, old(src)@.len() as int),
    {
        if src.len() < FRAME_SIZE {
            return Err(ProtocolError::FrameTooShort { expected: FRAME_SIZE, actual: src.len() });
        }
        match self.decode(src) {
            Ok(Some(f)) => Ok(f),
            Ok(None) => Err(ProtocolError::FrameTooShort { expected: FRAME_SIZE, actual: src.len() }),
            Err(e) => Err(e),
        }
    }
}

/// The rendering of a frame for logs: the session id and the payload bytes
/// are left out; the nonce and the payload length are shown.
pub open spec fn frame_debug_text(f: Frame) -> Seq<char> {
    "Frame { session_id: \"[REDACTED]\", nonce: "@ + byte_list_text(f.nonce@) + ", payload_len: "@ + decimal_text(
        f.payload@.len(),
    ) + " }"@
}

impl Frame {
    /// A rendering for logs that leaves the session id and the payload out.
    pub fn debug_text(&self) -> (r: String)
        ensures
            r@ == frame_debug_text(*self),
    {
        let a = concat_text("Frame { session_id: \"[REDACTED]\", nonce: ", byte_list_string(self.nonce.as_slice()).as_str());
        let b = concat_text(a.as_str(), ", payload_len: ");
        let c = concat_text(b.as_str(), decimal_string(self.payload.len() as u64).as_str());
        let r = concat_text(c.as_str(), " }");
        proof {
            assert(r@ =~= frame_debug_text(*self));
        }
        r
    }
}

/// The log rendering of a frame never shows its session id or payload bytes:
/// frames that differ only there render alike.
pub proof fn lemma_frame_debug_hides_contents(a: Frame, b: Frame)
    requires
        a.nonce == b.nonce,
        a.payload@.len() == b.payload@.len(),
    ensures
        frame_debug_text(a) == frame_debug_text(b),
{
}

} // verus!
