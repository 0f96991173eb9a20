//! The Noise transport session: frames encrypted with the relay's
//! Noise_NK_25519_ChaChaPoly_BLAKE2s state and length-prefixed for streams.
use vstd::prelude::*;

use crate::error::ProtocolError;
use crate::protocol::frame::{frame_bytes, parse_result_ok, Frame, FrameCodec, FRAME_SIZE, MAX_PAYLOAD_SIZE};
use crate::protocol::wire::{be16_at, be16_bytes, put_slice, put_u16, put_zeros};

verus! {

/// An established Noise transport state is carried in the session unchanged.
#[verifier::external_type_specification]
#[verifier::external_body]
pub struct ExTransportState(snow::TransportState);

/// A Noise handshake in progress is carried between its steps unchanged.
#[verifier::external_type_specification]
#[verifier::external_body]
pub struct ExHandshakeState(snow::HandshakeState);

/// Noise Protocol handshake pattern: Noise_NK_25519_ChaChaPoly_BLAKE2s
pub const NOISE_PATTERN: &'static str = "Noise_NK_25519_ChaChaPoly_BLAKE2s";

/// Noise protocol prologue (empty for both server and client).
pub const NOISE_PROLOGUE: [u8; 0] = [];

/// Maximum Noise message size per specification (65535 bytes).
pub const MAX_NOISE_MSG_LEN: usize = 65535;

/// Poly1305 authentication tag overhead in bytes.
pub const NOISE_TAG_LEN: usize = 16;

/// Encrypted frame size on wire (1420 frame + 16 tag = 1436 bytes).
pub const ENCRYPTED_FRAME_SIZE: usize = FRAME_SIZE + NOISE_TAG_LEN;

/// Errors in the Noise transport and handshake layer.
#[derive(Debug)]
pub enum NoiseError {
    Snow(snow::Error),
    Io(std::io::Error),
    Protocol(ProtocolError),
    BadMessageSize { expected: usize, actual: usize },
    StreamClosed,
}

/// Whether `t` is the message of a Noise error: its label, then the
/// message of the snow or I/O error (not stated), of the frame error, or the
/// sizes involved.
pub open spec fn noise_error_describes(e: NoiseError, t: Seq<char>) -> bool {
    match e {
        NoiseError::Snow(_) => crate::error::begins_with(t, "Noise cryptographic error: "@),
        NoiseError::Io(_) => crate::error::begins_with(t, "I/O error during Noise communication: "@),
        NoiseError::Protocol(p) => t == "Protocol frame error: "@ + crate::error::protocol_error_text(p),
        NoiseError::BadMessageSize { expected, actual } => t == "Unexpected message size: expected "@
            + crate::text::decimal_text(expected as nat) + ", got "@ + crate::text::decimal_text(actual as nat),
        NoiseError::StreamClosed => t == "Stream closed unexpectedly"@,
    }
}

impl NoiseError {
    /// The message of this error.
    pub fn describe(&self) -> (r: String)
        ensures
            noise_error_describes(*self, r@),
    {
        match self {
            NoiseError::Snow(e) => {
                let r = crate::text::concat_text("Noise cryptographic error: ", crate::error::snow_error_text(e).as_str());
                assert(r@.subrange(0, "Noise cryptographic error: "@.len() as int) =~= "Noise cryptographic error: "@);
                r
            },
            NoiseError::Io(e) => {
                let r = crate::text::concat_text(
                    "I/O error during Noise communication: ",
                    crate::error::io_error_text(e).as_str(),
                );
                assert(r@.subrange(0, "I/O error during Noise communication: "@.len() as int)
                    =~= "I/O error during Noise communication: "@);
                r
            },
            NoiseError::Protocol(p) => crate::text::concat_text("Protocol frame error: ", p.describe().as_str()),
            NoiseError::BadMessageSize { expected, actual } => {
                let a = crate::text::concat_text(
                    "Unexpected message size: expected ",
                    crate::text::decimal_string(*expected as u64).as_str(),
                );
                let b = crate::text::concat_text(a.as_str(), ", got ");
                crate::text::concat_text(b.as_str(), crate::text::decimal_string(*actual as u64).as_str())
            },
            NoiseError::StreamClosed => "Stream closed unexpectedly".to_string(),
        }
    }
}

/// `TransportState::write_message`: encrypts `payload` into `out` and gives
/// the ciphertext length, the payload length plus the 16-byte tag. It refuses
/// (with `Error::Input`) a payload whose ciphertext would exceed 65535 bytes
/// or `out`. The session records the payload among what it has sent when
/// snow encrypts it. The ciphertext bytes, which depend on the session's key
/// and nonce, are not stated.
#[verifier::external_body]
fn transport_write(s: &mut NoiseSession, payload: &[u8], out: &mut [u8]) -> (r: Result<usize, snow::Error>)
    ensures
        payload@.len() + NOISE_TAG_LEN > MAX_NOISE_MSG_LEN ==> r is Err,
        payload@.len() + NOISE_TAG_LEN > old(out)@.len() ==> r is Err,
        r is Ok ==> r->Ok_0 == payload@.len() + NOISE_TAG_LEN,
        final(out)@.len() == old(out)@.len(),
        final(s).handshake() == old(s).handshake(),
        final(s).received() == old(s).received(),
        r is Ok ==> final(s).sent() == old(s).sent().push(payload@),
        r is Err ==> final(s).sent() == old(s).sent(),
{
    let r = s.transport.write_message(payload, out);
    if r.is_ok() {
        s.sent = Ghost(s.sent@.push(payload@));
    }
    r
}

/// `TransportState::read_message`: decrypts and authenticates `input` into
/// `out` and gives the plaintext length, the input length less the 16-byte
/// tag. It refuses input longer than 65535 bytes, shorter than the tag, or
/// whose plaintext would not fit in `out`, and input that does not
/// authenticate. The session records the plaintext written to `out` among
/// what it has received. Which plaintext a ciphertext yields is not stated.
#[verifier::external_body]
fn transport_read(s: &mut NoiseSession, input: &[u8], out: &mut [u8]) -> (r: Result<usize, snow::Error>)
    ensures
        input@.len() > MAX_NOISE_MSG_LEN ==> r is Err,
        input@.len() < NOISE_TAG_LEN ==> r is Err,
        input@.len() >= NOISE_TAG_LEN && old(out)@.len() < input@.len() - NOISE_TAG_LEN ==> r is Err,
        r is Ok ==> r->Ok_0 == input@.len() - NOISE_TAG_LEN,
        final(out)@.len() == old(out)@.len(),
        final(s).handshake() == old(s).handshake(),
        final(s).sent() == old(s).sent(),
        r matches Ok(n) ==> final(s).received() == old(s).received().push(final(out)@.subrange(0, n as int)),
        r is Err ==> final(s).received() == old(s).received(),
{
    let r = s.transport.read_message(input, out);
    if let Ok(n) = r {
        s.received = Ghost(s.received@.push(out@.subrange(0, n as int)));
    }
    r
}

/// A fresh frame with the same fields.
fn copy_frame(f: &Frame) -> (r: Frame)
    ensures
        r.session_id == f.session_id,
        r.nonce == f.nonce,
        r.payload@ == f.payload@,
{
    let mut payload: Vec<u8> = Vec::new();
    put_slice(&mut payload, f.payload.as_slice());
    Frame { session_id: f.session_id, nonce: f.nonce, payload }
}

/// A buffer of `n` zero bytes.
fn zeroed(n: usize) -> (r: Vec<u8>)
    ensures
        r@.len() == n,
{
    let mut v: Vec<u8> = Vec::new();
    put_zeros(&mut v, n);
    v
}

/// An active Noise transport session with encrypted state.
pub struct NoiseSession {
    transport: snow::TransportState,
    established: Ghost<Option<(Seq<u8>, Seq<Seq<u8>>)>>,
    sent: Ghost<Seq<Seq<u8>>>,
    received: Ghost<Seq<Seq<u8>>>,
}

impl NoiseSession {
    /// A rendering for logs: the pattern, never the cryptographic state.
    pub fn debug_text(&self) -> (r: String)
        ensures
            r@ == "NoiseSession { pattern: \"Noise_NK_25519_ChaChaPoly_BLAKE2s\", state: \"[ENCRYPTED]\" }"@,
    {
        "NoiseSession { pattern: \"Noise_NK_25519_ChaChaPoly_BLAKE2s\", state: \"[ENCRYPTED]\" }".to_string()
    }

    /// The established Noise transport state the session encrypts with.
    pub closed spec fn transport_state(&self) -> snow::TransportState {
        self.transport
    }

    /// The handshake that established the session, when this library ran
    /// it: the static key the handshake was built with and the handshake
    /// messages, in the order they were written and read.
    pub closed spec fn handshake(&self) -> Option<(Seq<u8>, Seq<Seq<u8>>)> {
        self.established@
    }

    /// The plaintexts this session has encrypted, in order.
    pub closed spec fn sent(&self) -> Seq<Seq<u8>> {
        self.sent@
    }

    /// The plaintexts this session has decrypted, in order.
    pub closed spec fn received(&self) -> Seq<Seq<u8>> {
        self.received@
    }

    /// Creates a new `NoiseSession` wrapping an established `snow::TransportState`.
    pub fn new(transport: snow::TransportState) -> (r: Self)
        ensures
            r.transport_state() == transport,
            r.handshake() is None,
            r.sent() == Seq::<Seq<u8>>::empty(),
            r.received() == Seq::<Seq<u8>>::empty(),
    {
        NoiseSession { transport, established: Ghost(None), sent: Ghost(Seq::empty()), received: Ghost(Seq::empty()) }
    }

    /// Encrypts a frame for a stream: the 1420 frame bytes are encrypted into
    /// a 1436-byte message, sent behind its 2-byte big-endian length. A frame
    /// whose payload is too large is refused before anything is encrypted.
    pub fn encrypt_frame(&mut self, frame: &Frame) -> (r: Result<Vec<u8>, NoiseError>)
        ensures
            frame.payload@.len() > MAX_PAYLOAD_SIZE ==> (r matches Err(NoiseError::Protocol(e)) && e
                == (ProtocolError::PayloadTooLarge { actual: frame.payload@.len() as usize, max: MAX_PAYLOAD_SIZE })),
            frame.payload@.len() <= MAX_PAYLOAD_SIZE ==> (r is Ok || r matches Err(NoiseError::Snow(_))),
            r matches Ok(p) ==> (p@.len() == 2 + ENCRYPTED_FRAME_SIZE && p@.subrange(0, 2) == be16_bytes(
                ENCRYPTED_FRAME_SIZE as u16,
            )),
            final(self).handshake() == old(self).handshake(),
            final(self).received() == old(self).received(),
            r is Ok ==> final(self).sent() == old(self).sent().push(frame_bytes(*frame)),
            r is Err ==> final(self).sent() == old(self).sent(),
    {
        let mut raw: Vec<u8> = Vec::new();
        let mut codec = FrameCodec::new();
        match codec.encode(copy_frame(frame), &mut raw) {
            Ok(()) => {},
            Err(e) => return Err(NoiseError::Protocol(e)),
        }
        assert(raw@.len() == FRAME_SIZE);
        let mut cipher_text = zeroed(raw.len() + NOISE_TAG_LEN);
        let n = match transport_write(self, raw.as_slice(), cipher_text.as_mut_slice()) {
            Ok(n) => n,
            Err(e) => return Err(NoiseError::Snow(e)),
        };
        cipher_text.truncate(n);
        let mut packet: Vec<u8> = Vec::new();
        put_u16(&mut packet, cipher_text.len() as u16);
        put_slice(&mut packet, cipher_text.as_slice());
        assert(packet@.subrange(0, 2) =~= be16_bytes(ENCRYPTED_FRAME_SIZE as u16));
        Ok(packet)
    }

    /// Decrypts one encrypted message into a frame: the plaintext, 16 bytes
    /// shorter than the message, must hold a whole frame.
    pub fn decrypt_frame(&mut self, cipher_text: &[u8]) -> (r: Result<Frame, NoiseError>)
        ensures
            cipher_text@.len() < NOISE_TAG_LEN || cipher_text@.len() > MAX_NOISE_MSG_LEN ==> (r matches Err(
                NoiseError::Snow(_),
            )),
            r is Ok || (r matches Err(NoiseError::Snow(_))) || (r matches Err(NoiseError::Protocol(_))),
            r matches Err(NoiseError::Protocol(e)) ==> ((cipher_text@.len() < ENCRYPTED_FRAME_SIZE && e
                == (ProtocolError::FrameTooShort {
                expected: FRAME_SIZE,
                actual: (cipher_text@.len() - NOISE_TAG_LEN) as usize,
            })) || (exists|p: Seq<u8>| p.len() == cipher_text@.len() - NOISE_TAG_LEN && #[trigger] parse_result_ok(p, Err(e)))),
            r matches Ok(f) ==> (cipher_text@.len() >= ENCRYPTED_FRAME_SIZE && (exists|p: Seq<u8>|
                p.len() == cipher_text@.len() - NOISE_TAG_LEN && #[trigger] parse_result_ok(p, Ok(f)))),
            final(self).handshake() == old(self).handshake(),
            final(self).sent() == old(self).sent(),
            r matches Ok(f) ==> final(self).received().len() == old(self).received().len() + 1
                && parse_result_ok(final(self).received().last(), Ok(f)),
            r matches Err(NoiseError::Protocol(e)) ==> final(self).received().len() == old(self).received().len() + 1
                && if final(self).received().last().len() < FRAME_SIZE {
                e == (ProtocolError::FrameTooShort {
                    expected: FRAME_SIZE,
                    actual: final(self).received().last().len() as usize,
                })
            } else {
                parse_result_ok(final(self).received().last(), Err(e))
            },
            r matches Err(NoiseError::Snow(_)) ==> final(self).received() == old(self).received(),
    {
        let mut plain = zeroed(cipher_text.len());
        let n = match transport_read(self, cipher_text, plain.as_mut_slice()) {
            Ok(n) => n,
            Err(e) => return Err(NoiseError::Snow(e)),
        };
        plain.truncate(n);
        assert(plain@ == self.received().last());
        match Frame::from_slice(plain.as_slice()) {
            Ok(f) => {
                assert(parse_result_ok(plain@, Ok(f)));
                let r: Result<Frame, NoiseError> = Ok(f);
                assert(r matches Ok(g) && g == f);
                r
            },
            Err(e) => {
                let r: Result<Frame, NoiseError> = Err(NoiseError::Protocol(e));
                assert(r matches Err(NoiseError::Protocol(g)) && g == e);
                r
            },
        }
    }

    /// Encrypts raw bytes into `out`, giving the ciphertext length.
    pub fn encrypt(&mut self, payload: &[u8], out: &mut [u8]) -> (r: Result<usize, NoiseError>)
        ensures
            payload@.len() + NOISE_TAG_LEN > MAX_NOISE_MSG_LEN ==> (r matches Err(NoiseError::Snow(_))),
            payload@.len() + NOISE_TAG_LEN > old(out)@.len() ==> (r matches Err(NoiseError::Snow(_))),
            r is Ok || (r matches Err(NoiseError::Snow(_))),
            r is Ok ==> r->Ok_0 == payload@.len() + NOISE_TAG_LEN,
            final(out)@.len() == old(out)@.len(),
            final(self).handshake() == old(self).handshake(),
            final(self).received() == old(self).received(),
            r is Ok ==> final(self).sent() == old(self).sent().push(payload@),
            r is Err ==> final(self).sent() == old(self).sent(),
    {
        match transport_write(self, payload, out) {
            Ok(n) => Ok(n),
            Err(e) => Err(NoiseError::Snow(e)),
        }
    }

    /// Decrypts raw bytes into `out`, giving the plaintext length.
    pub fn decrypt(&mut self, packet: &[u8], out: &mut [u8]) -> (r: Result<usize, NoiseError>)
        ensures
            packet@.len() > MAX_NOISE_MSG_LEN ==> (r matches Err(NoiseError::Snow(_))),
            packet@.len() < NOISE_TAG_LEN ==> (r matches Err(NoiseError::Snow(_))),
            packet@.len() >= NOISE_TAG_LEN && old(out)@.len() < packet@.len() - NOISE_TAG_LEN ==> (r matches Err(
                NoiseError::Snow(_),
            )),
            r is Ok || (r matches Err(NoiseError::Snow(_))),
            r is Ok ==> r->Ok_0 == packet@.len() - NOISE_TAG_LEN,
            final(out)@.len() == old(out)@.len(),
            final(self).handshake() == old(self).handshake(),
            final(self).sent() == old(self).sent(),
            r matches Ok(n) ==> final(self).received() == old(self).received().push(final(out)@.subrange(0, n as int)),
            r is Err ==> final(self).received() == old(self).received(),
    {
        match transport_read(self, packet, out) {
            Ok(n) => Ok(n),
            Err(e) => Err(NoiseError::Snow(e)),
        }
    }
}

/// Checks the length prefix of an incoming encrypted frame: at most
/// `ENCRYPTED_FRAME_SIZE` bytes, else `BadMessageSize`.
pub fn check_frame_length(len: usize) -> (r: Result<usize, NoiseError>)
    ensures
        len <= ENCRYPTED_FRAME_SIZE ==> (r matches Ok(n) && n == len),
        len > ENCRYPTED_FRAME_SIZE ==> (r matches Err(NoiseError::BadMessageSize { expected, actual })
            && expected == ENCRYPTED_FRAME_SIZE && actual == len),
{
    if len > ENCRYPTED_FRAME_SIZE {
        return Err(NoiseError::BadMessageSize { expected: ENCRYPTED_FRAME_SIZE, actual: len });
    }
    Ok(len)
}

/// Room for one handshake message (and for its payload when read).
pub const HANDSHAKE_BUFFER_LEN: usize = 128;

/// A Noise handshake in progress, with the static key it was built with and
/// the handshake messages it has carried so far.
pub struct NoiseHandshake {
    state: snow::HandshakeState,
    static_key: Ghost<Seq<u8>>,
    messages: Ghost<Seq<Seq<u8>>>,
}

impl NoiseHandshake {
    /// The static key the handshake was built with: the relay's private key
    /// on the responder's side, the relay's public key on the initiator's.
    pub closed spec fn static_key(&self) -> Seq<u8> {
        self.static_key@
    }

    /// The handshake messages written and read so far, in order.
    pub closed spec fn transcript(&self) -> Seq<Seq<u8>> {
        self.messages@
    }
}

/// `snow::Builder::new(NOISE_PATTERN.parse()?)`, then
/// `local_private_key(private_key)?` and `build_responder()`: the responder
/// side of the relay's pattern, built with `private_key` and no message yet.
/// The builder copies the key into a 32-byte array, so a longer key would
/// panic; whether snow accepts the key is not stated.
#[verifier::external_body]
fn responder_for(private_key: &[u8]) -> (r: Result<NoiseHandshake, snow::Error>)
    requires
        private_key@.len() <= 32,
    ensures
        r matches Ok(h) ==> h.static_key() == private_key@ && h.transcript() == Seq::<Seq<u8>>::empty(),
{
    let params: snow::params::NoiseParams = NOISE_PATTERN.parse()?;
    let state = snow::Builder::new(params).local_private_key(private_key)?.build_responder()?;
    Ok(NoiseHandshake { state, static_key: Ghost(private_key@), messages: Ghost(Seq::empty()) })
}

/// `snow::Builder::new(NOISE_PATTERN.parse()?)`, then
/// `remote_public_key(server_public_key)?` and `build_initiator()`: the
/// initiator side of the relay's pattern, built with `server_public_key` and
/// no message yet. The builder copies the key into a 56-byte array, so a
/// longer key would panic; whether snow accepts the key is not stated.
#[verifier::external_body]
fn initiator_for(server_public_key: &[u8]) -> (r: Result<NoiseHandshake, snow::Error>)
    requires
        server_public_key@.len() <= 56,
    ensures
        r matches Ok(h) ==> h.static_key() == server_public_key@ && h.transcript() == Seq::<Seq<u8>>::empty(),
{
    let params: snow::params::NoiseParams = NOISE_PATTERN.parse()?;
    let state = snow::Builder::new(params).remote_public_key(server_public_key)?.build_initiator()?;
    Ok(NoiseHandshake { state, static_key: Ghost(server_public_key@), messages: Ghost(Seq::empty()) })
}

/// `HandshakeState::write_message`: writes the next handshake message, with
/// `payload` inside, into `out` and gives its length, which never exceeds
/// `out`; the handshake records the message written. On failure snow
/// restores its state and nothing is recorded. The message bytes, which hold
/// fresh ephemeral keys, are not stated.
/// snow checks that each key fits before writing it but copies the 16-byte
/// tag of an encrypted static key unchecked, which panics on a buffer too
/// short for it; with the crate's resolver every key is a 32-byte Curve25519
/// key, so room for an ephemeral key, an encrypted static key and the
/// payload with its tag (96 bytes beyond the payload) rules that out.
#[verifier::external_body]
fn handshake_write(hs: &mut NoiseHandshake, payload: &[u8], out: &mut [u8]) -> (r: Result<usize, snow::Error>)
    requires
        old(out)@.len() >= 96 + payload@.len(),
    ensures
        r matches Ok(n) ==> n <= old(out)@.len(),
        final(out)@.len() == old(out)@.len(),
        final(hs).static_key() == old(hs).static_key(),
        r matches Ok(n) ==> final(hs).transcript() == old(hs).transcript().push(final(out)@.subrange(0, n as int)),
        r is Err ==> final(hs).transcript() == old(hs).transcript(),
{
    let r = hs.state.write_message(payload, out);
    if let Ok(n) = r {
        hs.messages = Ghost(hs.messages@.push(out@.subrange(0, n as int)));
    }
    r
}

/// `HandshakeState::read_message`: reads the peer's next handshake message
/// and writes its payload into `payload`, giving the payload length, which
/// never exceeds `payload`; the handshake records the message read. A
/// message longer than 65535 bytes is refused; on failure snow restores its
/// state and nothing is recorded. Whether a message authenticates is not
/// stated.
#[verifier::external_body]
fn handshake_read(hs: &mut NoiseHandshake, message: &[u8], payload: &mut [u8]) -> (r: Result<usize, snow::Error>)
    ensures
        message@.len() > MAX_NOISE_MSG_LEN ==> r is Err,
        r matches Ok(n) ==> n <= old(payload)@.len(),
        final(payload)@.len() == old(payload)@.len(),
        final(hs).static_key() == old(hs).static_key(),
        r is Ok ==> final(hs).transcript() == old(hs).transcript().push(message@),
        r is Err ==> final(hs).transcript() == old(hs).transcript(),
{
    let r = hs.state.read_message(message, payload);
    if r.is_ok() {
        hs.messages = Ghost(hs.messages@.push(message@));
    }
    r
}

/// `HandshakeState::into_transport_mode`: the transport session once the
/// handshake is finished, established by that handshake, with nothing sent
/// or received yet; refused while messages remain.
#[verifier::external_body]
fn handshake_into_transport(hs: NoiseHandshake) -> (r: Result<NoiseSession, snow::Error>)
    ensures
        r matches Ok(s) ==> s.handshake() == Some((hs.static_key(), hs.transcript()))
            && s.sent() == Seq::<Seq<u8>>::empty() && s.received() == Seq::<Seq<u8>>::empty(),
{
    let transport = hs.state.into_transport_mode()?;
    Ok(NoiseSession {
        transport,
        established: Ghost(Some((hs.static_key@, hs.messages@))),
        sent: Ghost(Seq::empty()),
        received: Ghost(Seq::empty()),
    })
}

/// Whether `packet` is a handshake message behind its 2-byte big-endian
/// length, as it goes on the stream.
pub open spec fn framed_handshake_message(packet: Seq<u8>) -> bool {
    &&& 2 <= packet.len() <= 2 + HANDSHAKE_BUFFER_LEN
    &&& packet.subrange(0, 2) == be16_bytes((packet.len() - 2) as u16)
}

/// The first `n` bytes of `message`, behind their 2-byte big-endian length.
fn frame_handshake_message(message: &Vec<u8>, n: usize) -> (r: Vec<u8>)
    requires
        n <= message@.len(),
        n <= HANDSHAKE_BUFFER_LEN,
    ensures
        framed_handshake_message(r@),
        r@.subrange(2, r@.len() as int) == message@.subrange(0, n as int),
{
    let mut packet: Vec<u8> = Vec::new();
    put_u16(&mut packet, n as u16);
    let body = crate::protocol::wire::copy_range(message.as_slice(), 0, n);
    put_slice(&mut packet, body.as_slice());
    assert(packet@.subrange(0, 2) =~= be16_bytes(n as u16));
    assert(packet@.subrange(2, packet@.len() as int) =~= body@);
    packet
}

/// The relay's side of the handshake once the client's first message has
/// arrived: the responder, built with `server_private_key`, reads
/// `message1`, writes its reply with an empty payload and enters transport
/// mode. The reply comes back behind its 2-byte big-endian length, ready for
/// the stream, with the session that this handshake established. Every
/// failure is snow's.
pub fn server_handshake_reply(server_private_key: &[u8], message1: &[u8]) -> (r: Result<(Vec<u8>, NoiseSession), NoiseError>)
    requires
        server_private_key@.len() <= 32,
    ensures
        r matches Ok((packet, _)) ==> framed_handshake_message(packet@),
        r matches Ok((packet, s)) ==> s.handshake() == Some(
            (server_private_key@, seq![message1@, packet@.subrange(2, packet@.len() as int)]),
        ),
        r matches Ok((_, s)) ==> s.sent() == Seq::<Seq<u8>>::empty() && s.received() == Seq::<Seq<u8>>::empty(),
        r is Ok || (r matches Err(NoiseError::Snow(_))),
        message1@.len() > MAX_NOISE_MSG_LEN ==> r is Err,
{
    let mut responder = match responder_for(server_private_key) {
        Ok(h) => h,
        Err(e) => return Err(NoiseError::Snow(e)),
    };
    let mut payload = zeroed(HANDSHAKE_BUFFER_LEN);
    match handshake_read(&mut responder, message1, payload.as_mut_slice()) {
        Ok(_) => {},
        Err(e) => return Err(NoiseError::Snow(e)),
    }
    let mut message2 = zeroed(HANDSHAKE_BUFFER_LEN);
    let empty: [u8; 0] = [];
    let n = match handshake_write(&mut responder, empty.as_slice(), message2.as_mut_slice()) {
        Ok(n) => n,
        Err(e) => return Err(NoiseError::Snow(e)),
    };
    let packet = frame_handshake_message(&message2, n);
    assert(responder.transcript() =~= seq![message1@, packet@.subrange(2, packet@.len() as int)]);
    match handshake_into_transport(responder) {
        Ok(t) => Ok((packet, t)),
        Err(e) => Err(NoiseError::Snow(e)),
    }
}

/// The client's opening of the handshake with the relay whose static public
/// key is `server_public_key`: the initiator, built with that key, writes
/// its first message with an empty payload. The message comes back behind
/// its 2-byte big-endian length, ready for the stream, with the handshake to
/// finish on the reply. Every failure is snow's.
pub fn client_handshake_start(server_public_key: &[u8]) -> (r: Result<(NoiseHandshake, Vec<u8>), NoiseError>)
    requires
        server_public_key@.len() <= 56,
    ensures
        r matches Ok((_, packet)) ==> framed_handshake_message(packet@),
        r matches Ok((h, packet)) ==> h.static_key() == server_public_key@ && h.transcript() == seq![
            packet@.subrange(2, packet@.len() as int),
        ],
        r is Ok || (r matches Err(NoiseError::Snow(_))),
{
    let mut initiator = match initiator_for(server_public_key) {
        Ok(h) => h,
        Err(e) => return Err(NoiseError::Snow(e)),
    };
    let mut message1 = zeroed(HANDSHAKE_BUFFER_LEN);
    let empty: [u8; 0] = [];
    let n = match handshake_write(&mut initiator, empty.as_slice(), message1.as_mut_slice()) {
        Ok(n) => n,
        Err(e) => return Err(NoiseError::Snow(e)),
    };
    let packet = frame_handshake_message(&message1, n);
    assert(initiator.transcript() =~= seq![packet@.subrange(2, packet@.len() as int)]);
    Ok((initiator, packet))
}

/// The client's end of the handshake: the initiator reads the relay's reply
/// `message2` and enters transport mode, giving the session that the whole
/// handshake established. Every failure is snow's.
pub fn client_handshake_finish(state: NoiseHandshake, message2: &[u8]) -> (r: Result<NoiseSession, NoiseError>)
    ensures
        r matches Ok(s) ==> s.handshake() == Some((state.static_key(), state.transcript().push(message2@))),
        r matches Ok(s) ==> s.sent() == Seq::<Seq<u8>>::empty() && s.received() == Seq::<Seq<u8>>::empty(),
        r is Ok || (r matches Err(NoiseError::Snow(_))),
        message2@.len() > MAX_NOISE_MSG_LEN ==> r is Err,
{
    let mut initiator = state;
    let mut payload = zeroed(HANDSHAKE_BUFFER_LEN);
    match handshake_read(&mut initiator, message2, payload.as_mut_slice()) {
        Ok(_) => {},
        Err(e) => return Err(NoiseError::Snow(e)),
    }
    match handshake_into_transport(initiator) {
        Ok(t) => Ok(t),
        Err(e) => Err(NoiseError::Snow(e)),
    }
}

} // verus!
