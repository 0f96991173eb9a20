//! Encrypted frame exchange over a packet transport: what is sent for a
//! frame and what a received packet yields.
use vstd::prelude::*;

use crate::error::{CryptoError, ProtocolError};
use crate::protocol::frame::{frame_bytes, parse_result_ok, Frame, FrameCodec, FRAME_SIZE, MAX_PAYLOAD_SIZE};
use crate::protocol::wire::{put_slice, put_zeros};
use crate::transport::noise::{NoiseError, NoiseSession, ENCRYPTED_FRAME_SIZE, MAX_NOISE_MSG_LEN, NOISE_TAG_LEN};

verus! {

/// Bridges a packet transport with a `NoiseSession`, providing encrypted `Frame` exchange.
pub struct SecureTransport<T> {
    transport: T,
    session: NoiseSession,
}

/// A buffer of `n` zero bytes.
fn zero_buffer(n: usize) -> (r: Vec<u8>)
    ensures
        r@.len() == n,
{
    let mut v: Vec<u8> = Vec::new();
    put_zeros(&mut v, n);
    v
}

/// The crypto error for a failure of the Noise session.
fn crypto_error(e: NoiseError) -> (r: CryptoError)
    ensures
        e is Snow ==> (r matches CryptoError::Snow(_)),
        !(e is Snow) ==> r is DecryptionFailed,
{
    match e {
        NoiseError::Snow(s) => CryptoError::Snow(s),
        _ => CryptoError::DecryptionFailed,
    }
}

impl<T> SecureTransport<T> {
    /// The packet transport.
    pub closed spec fn transport_view(&self) -> T {
        self.transport
    }

    /// The Noise session.
    pub closed spec fn session_view(&self) -> NoiseSession {
        self.session
    }

    pub fn new(transport: T, session: NoiseSession) -> (r: Self)
        ensures
            r.transport_view() == transport,
            r.session_view() == session,
    {
        SecureTransport { transport, session }
    }

    /// The packet that carries `frame`: its 1420 wire bytes encrypted into a
    /// 1436-byte Noise message. A frame whose payload is too large is refused
    /// with the key error "frame encoding failed"; a refusal of the Noise
    /// session is passed on.
    pub fn seal_frame(&mut self, frame: &Frame) -> (r: Result<Vec<u8>, CryptoError>)
        ensures
            final(self).transport_view() == old(self).transport_view(),
            frame.payload@.len() > MAX_PAYLOAD_SIZE ==> (r matches Err(CryptoError::Key(m)) && m@
                == "frame encoding failed"@),
            frame.payload@.len() <= MAX_PAYLOAD_SIZE ==> (r is Ok || r matches Err(CryptoError::Snow(_))),
            r matches Ok(p) ==> p@.len() == ENCRYPTED_FRAME_SIZE,
            final(self).session_view().handshake() == old(self).session_view().handshake(),
            final(self).session_view().received() == old(self).session_view().received(),
            r is Ok ==> final(self).session_view().sent() == old(self).session_view().sent().push(frame_bytes(*frame)),
            r is Err ==> final(self).session_view().sent() == old(self).session_view().sent(),
    {
        let mut raw: Vec<u8> = Vec::new();
        let mut codec = FrameCodec::new();
        let mut payload: Vec<u8> = Vec::new();
        put_slice(&mut payload, frame.payload.as_slice());
        let copy = Frame { session_id: frame.session_id, nonce: frame.nonce, payload };
        match codec.encode(copy, &mut raw) {
            Ok(()) => {},
            Err(_) => {
                let m = "frame encoding failed".to_string();
                proof {
                    reveal_strlit("frame encoding failed");
                }
                return Err(CryptoError::Key(m));
            },
        }
        let mut cipher_text = zero_buffer(raw.len() + NOISE_TAG_LEN);
        let n = match self.session.encrypt(raw.as_slice(), cipher_text.as_mut_slice()) {
            Ok(n) => n,
            Err(e) => return Err(crypto_error(e)),
        };
        cipher_text.truncate(n);
        Ok(cipher_text)
    }

    /// The frame a received packet carries: the packet is decrypted (a
    /// refusal of the Noise session is passed on) and the plaintext must hold
    /// a whole frame, else the key error "frame parsing failed".
    pub fn open_frame(&mut self, packet: &[u8]) -> (r: Result<Frame, CryptoError>)
        ensures
            final(self).transport_view() == old(self).transport_view(),
            packet@.len() < NOISE_TAG_LEN || packet@.len() > MAX_NOISE_MSG_LEN ==> (r matches Err(CryptoError::Snow(_))),
            r is Ok || (r matches Err(CryptoError::Snow(_))) || (r matches Err(CryptoError::Key(m)) && m@
                == "frame parsing failed"@),
            r matches Ok(f) ==> (packet@.len() >= ENCRYPTED_FRAME_SIZE && (exists|p: Seq<u8>|
                p.len() == packet@.len() - NOISE_TAG_LEN && #[trigger] parse_result_ok(p, Ok(f)))),
            final(self).session_view().handshake() == old(self).session_view().handshake(),
            final(self).session_view().sent() == old(self).session_view().sent(),
            r matches Ok(f) ==> final(self).session_view().received().len() == old(self).session_view().received().len()
                + 1 && parse_result_ok(final(self).session_view().received().last(), Ok(f)),
            r matches Err(CryptoError::Snow(_)) ==> final(self).session_view().received() == old(
                self,
            ).session_view().received(),
    {
        let mut plain = zero_buffer(packet.len());
        let n = match self.session.decrypt(packet, plain.as_mut_slice()) {
            Ok(n) => n,
            Err(e) => return Err(crypto_error(e)),
        };
        plain.truncate(n);
        assert(plain@ == self.session.received().last());
        match Frame::from_slice(plain.as_slice()) {
            Ok(f) => {
                assert(parse_result_ok(plain@, Ok(f)));
                let r: Result<Frame, CryptoError> = Ok(f);
                assert(r matches Ok(g) && g == f);
                r
            },
            Err(_) => {
                let m = "frame parsing failed".to_string();
                proof {
                    reveal_strlit("frame parsing failed");
                }
                Err(CryptoError::Key(m))
            },
        }
    }

    pub fn session(&self) -> (r: &NoiseSession)
        ensures
            *r == self.session_view(),
    {
        &self.session
    }

    pub fn session_mut(&mut self) -> (r: &mut NoiseSession)
        ensures
            *r == old(self).session_view(),
            final(self).session_view() == *final(r),
            final(self).transport_view() == old(self).transport_view(),
    {
        &mut self.session
    }

    pub fn transport(&self) -> (r: &T)
        ensures
            *r == self.transport_view(),
    {
        &self.transport
    }

    pub fn transport_mut(&mut self) -> (r: &mut T)
        ensures
            *r == old(self).transport_view(),
            final(self).transport_view() == *final(r),
    {
        &mut self.transport
    }

    pub fn into_parts(self) -> (r: (T, NoiseSession))
        ensures
            r.0 == self.transport_view(),
            r.1 == self.session_view(),
    {
        (self.transport, self.session)
    }
}

} // verus!
