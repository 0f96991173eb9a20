//! The message envelope that wraps every application and control message:
//! version (1) | type (1) | flags (2) | message_id (8) | correlation_id (8) |
//! timestamp (8) | payload_len (2) | payload, all integers big endian.
use vstd::prelude::*;

use crate::text::{concat_text, decimal_string, decimal_text};

use crate::error::ProtocolError;
use crate::protocol::frame::MAX_PAYLOAD_SIZE;
use crate::protocol::versioning::{version_code, ProtocolVersion};
use crate::protocol::wire::{
    be16_at, be16_bytes, be64_at, be64_bytes, copy_range, get_u16, get_u64, put_slice, put_u16,
    put_u64,
};

verus! {

/// Header size of `MessageEnvelope` in bytes (30).
pub const ENVELOPE_HEADER_SIZE: usize = 30;

/// Maximum payload size that fits inside an envelope within a single frame (1364).
pub const MAX_ENVELOPE_PAYLOAD_SIZE: usize = MAX_PAYLOAD_SIZE - ENVELOPE_HEADER_SIZE;

/// Protocol message type identifier.
#[derive(Debug, Clone, Copy, PartialEq, Eq, Hash)]
pub enum MessageType {
    // Client to server (0x01..0x3F)
    AuthRequest,
    ConnectRequest,
    DisconnectRequest,
    SendMessage,
    Ack,
    Heartbeat,
    KeyExchange,
    RelayRequest,
    RawEcho,
    // Server to client responses (0x80..0x8F)
    AuthResponse,
    ConnectionAccepted,
    ConnectionRejected,
    HeartbeatResponse,
    ErrorResponse,
    SendMessageResponse,
    RawEchoResponse,
    // Server to client events (0x90..0x9F)
    IncomingMessageEvent,
    DeliveryStatusEvent,
    PeerEvent,
    RelayEvent,
}

/// The wire byte of a message type.
pub open spec fn message_type_code(t: MessageType) -> u8 {
    match t {
        MessageType::AuthRequest => 0x01,
        MessageType::ConnectRequest => 0x02,
        MessageType::DisconnectRequest => 0x03,
        MessageType::SendMessage => 0x04,
        MessageType::Ack => 0x05,
        MessageType::Heartbeat => 0x06,
        MessageType::KeyExchange => 0x07,
        MessageType::RelayRequest => 0x08,
        MessageType::RawEcho => 0x0F,
        MessageType::AuthResponse => 0x81,
        MessageType::ConnectionAccepted => 0x82,
        MessageType::ConnectionRejected => 0x83,
        MessageType::HeartbeatResponse => 0x84,
        MessageType::ErrorResponse => 0x85,
        MessageType::SendMessageResponse => 0x86,
        MessageType::RawEchoResponse => 0x8F,
        MessageType::IncomingMessageEvent => 0x90,
        MessageType::DeliveryStatusEvent => 0x91,
        MessageType::PeerEvent => 0x92,
        MessageType::RelayEvent => 0x93,
    }
}

/// The message type whose wire byte is `v`, if any.
pub open spec fn message_type_of(v: u8) -> Option<MessageType> {
    if v == 0x01 { Some(MessageType::AuthRequest) }
    else if v == 0x02 { Some(MessageType::ConnectRequest) }
    else if v == 0x03 { Some(MessageType::DisconnectRequest) }
    else if v == 0x04 { Some(MessageType::SendMessage) }
    else if v == 0x05 { Some(MessageType::Ack) }
    else if v == 0x06 { Some(MessageType::Heartbeat) }
    else if v == 0x07 { Some(MessageType::KeyExchange) }
    else if v == 0x08 { Some(MessageType::RelayRequest) }
    else if v == 0x0F { Some(MessageType::RawEcho) }
    else if v == 0x81 { Some(MessageType::AuthResponse) }
    else if v == 0x82 { Some(MessageType::ConnectionAccepted) }
    else if v == 0x83 { Some(MessageType::ConnectionRejected) }
    else if v == 0x84 { Some(MessageType::HeartbeatResponse) }
    else if v == 0x85 { Some(MessageType::ErrorResponse) }
    else if v == 0x86 { Some(MessageType::SendMessageResponse) }
    else if v == 0x8F { Some(MessageType::RawEchoResponse) }
    else if v == 0x90 { Some(MessageType::IncomingMessageEvent) }
    else if v == 0x91 { Some(MessageType::DeliveryStatusEvent) }
    else if v == 0x92 { Some(MessageType::PeerEvent) }
    else if v == 0x93 { Some(MessageType::RelayEvent) }
    else { None }
}

/// A response type: wire byte in 0x80..=0x8F.
pub open spec fn is_response_code(v: u8) -> bool {
    0x80 <= v <= 0x8F
}

/// An event type: wire byte in 0x90..=0x9F.
pub open spec fn is_event_code(v: u8) -> bool {
    0x90 <= v <= 0x9F
}

impl MessageType {
    /// The message type whose wire byte is `val`, or `UnknownMessageType`.
    pub fn from_u8(val: u8) -> (r: Result<Self, ProtocolError>)
        ensures
            r == match message_type_of(val) {
                Some(t) => Ok::<MessageType, ProtocolError>(t),
                None => Err::<MessageType, ProtocolError>(ProtocolError::UnknownMessageType(val)),
            },
    {
        match val {
            0x01 => Ok(MessageType::AuthRequest),
            0x02 => Ok(MessageType::ConnectRequest),
            0x03 => Ok(MessageType::DisconnectRequest),
            0x04 => Ok(MessageType::SendMessage),
            0x05 => Ok(MessageType::Ack),
            0x06 => Ok(MessageType::Heartbeat),
            0x07 => Ok(MessageType::KeyExchange),
            0x08 => Ok(MessageType::RelayRequest),
            0x0F => Ok(MessageType::RawEcho),
            0x81 => Ok(MessageType::AuthResponse),
            0x82 => Ok(MessageType::ConnectionAccepted),
            0x83 => Ok(MessageType::ConnectionRejected),
            0x84 => Ok(MessageType::HeartbeatResponse),
            0x85 => Ok(MessageType::ErrorResponse),
            0x86 => Ok(MessageType::SendMessageResponse),
            0x8F => Ok(MessageType::RawEchoResponse),
            0x90 => Ok(MessageType::IncomingMessageEvent),
            0x91 => Ok(MessageType::DeliveryStatusEvent),
            0x92 => Ok(MessageType::PeerEvent),
            0x93 => Ok(MessageType::RelayEvent),
            unknown => Err(ProtocolError::UnknownMessageType(unknown)),
        }
    }

    /// The wire byte of this message type.
    pub fn to_u8(self) -> (r: u8)
        ensures
            r == message_type_code(self),
    {
        match self {
            MessageType::AuthRequest => 0x01,
            MessageType::ConnectRequest => 0x02,
            MessageType::DisconnectRequest => 0x03,
            MessageType::SendMessage => 0x04,
            MessageType::Ack => 0x05,
            MessageType::Heartbeat => 0x06,
            MessageType::KeyExchange => 0x07,
            MessageType::RelayRequest => 0x08,
            MessageType::RawEcho => 0x0F,
            MessageType::AuthResponse => 0x81,
            MessageType::ConnectionAccepted => 0x82,
            MessageType::ConnectionRejected => 0x83,
            MessageType::HeartbeatResponse => 0x84,
            MessageType::ErrorResponse => 0x85,
            MessageType::SendMessageResponse => 0x86,
            MessageType::RawEchoResponse => 0x8F,
            MessageType::IncomingMessageEvent => 0x90,
            MessageType::DeliveryStatusEvent => 0x91,
            MessageType::PeerEvent => 0x92,
            MessageType::RelayEvent => 0x93,
        }
    }

    /// Client-to-server types have the high bit of their wire byte clear.
    pub fn is_client_to_server(&self) -> (r: bool)
        ensures
            r == (message_type_code(*self) < 0x80),
    {
        let v = self.to_u8();
        assert((v & 0x80u8) == 0u8 <==> v < 0x80u8) by (bit_vector);
        (v & 0x80) == 0
    }

    /// Server-to-client types have the high bit of their wire byte set.
    pub fn is_server_to_client(&self) -> (r: bool)
        ensures
            r == (message_type_code(*self) >= 0x80),
    {
        let v = self.to_u8();
        assert((v & 0x80u8) != 0u8 <==> v >= 0x80u8) by (bit_vector);
        (v & 0x80) != 0
    }

    /// Responses have wire bytes 0x80..=0x8F.
    pub fn is_response(&self) -> (r: bool)
        ensures
            r == is_response_code(message_type_code(*self)),
    {
        let v = self.to_u8();
        0x80 <= v && v <= 0x8F
    }

    /// Events have wire bytes 0x90..=0x9F.
    pub fn is_event(&self) -> (r: bool)
        ensures
            r == is_event_code(message_type_code(*self)),
    {
        let v = self.to_u8();
        0x90 <= v && v <= 0x9F
    }
}

/// Every message type is found again from its wire byte, and a wire byte that
/// names a type is that type's byte.
pub proof fn lemma_message_type_roundtrip(t: MessageType, v: u8)
    ensures
        message_type_of(message_type_code(t)) == Some(t),
        message_type_of(v) matches Some(u) ==> message_type_code(u) == v,
{
}

/// A standard protocol envelope wrapping all application and control messages.
#[derive(Clone, PartialEq, Eq)]
pub struct MessageEnvelope {
    pub version: ProtocolVersion,
    pub message_type: MessageType,
    pub flags: u16,
    pub message_id: u64,
    pub correlation_id: u64,
    pub timestamp: u64,
    pub payload: Vec<u8>,
}

/// The wire bytes of an envelope with these header fields and payload.
pub open spec fn envelope_bytes(
    version: u8,
    message_type: MessageType,
    flags: u16,
    message_id: u64,
    correlation_id: u64,
    timestamp: u64,
    payload: Seq<u8>,
) -> Seq<u8> {
    seq![version, message_type_code(message_type)] + be16_bytes(flags) + be64_bytes(message_id)
        + be64_bytes(correlation_id) + be64_bytes(timestamp) + be16_bytes(payload.len() as u16) + payload
}

/// The wire bytes of an envelope.
pub open spec fn envelope_wire(e: MessageEnvelope) -> Seq<u8> {
    envelope_bytes(
        version_code(e.version),
        e.message_type,
        e.flags,
        e.message_id,
        e.correlation_id,
        e.timestamp,
        e.payload@,
    )
}

/// The PayloadLength field of the envelope at the start of `b`.
pub open spec fn envelope_payload_len(b: Seq<u8>) -> int {
    be16_at(b, 28) as int
}

/// `b` starts with a well-formed envelope: every check of decoding passes.
pub open spec fn envelope_ok(b: Seq<u8>) -> bool {
    &&& b.len() >= ENVELOPE_HEADER_SIZE
    &&& b[0] == 1
    &&& message_type_of(b[1]) is Some
    &&& envelope_payload_len(b) <= MAX_ENVELOPE_PAYLOAD_SIZE
    &&& b.len() - ENVELOPE_HEADER_SIZE >= envelope_payload_len(b)
}

/// The message type of the envelope at the start of `b`.
pub open spec fn envelope_type_of(b: Seq<u8>) -> MessageType {
    message_type_of(b[1]).unwrap()
}

/// The payload of the envelope at the start of `b`.
pub open spec fn envelope_payload_of(b: Seq<u8>) -> Seq<u8> {
    b.subrange(30, 30 + envelope_payload_len(b))
}

/// What decoding `b` as an envelope gives, error by error in the order they are checked.
pub open spec fn envelope_decoded(b: Seq<u8>, r: Result<MessageEnvelope, ProtocolError>) -> bool {
    if b.len() < ENVELOPE_HEADER_SIZE {
        r == Err::<MessageEnvelope, ProtocolError>(
            ProtocolError::FrameTooShort { expected: ENVELOPE_HEADER_SIZE, actual: b.len() as usize },
        )
    } else if b[0] != 1 {
        r == Err::<MessageEnvelope, ProtocolError>(ProtocolError::UnsupportedVersion { expected: 1, actual: b[0] })
    } else if message_type_of(b[1]) is None {
        r == Err::<MessageEnvelope, ProtocolError>(ProtocolError::UnknownMessageType(b[1]))
    } else if envelope_payload_len(b) > MAX_ENVELOPE_PAYLOAD_SIZE {
        r == Err::<MessageEnvelope, ProtocolError>(
            ProtocolError::PayloadTooLarge { actual: envelope_payload_len(b) as usize, max: MAX_ENVELOPE_PAYLOAD_SIZE },
        )
    } else if b.len() - ENVELOPE_HEADER_SIZE < envelope_payload_len(b) {
        r == Err::<MessageEnvelope, ProtocolError>(
            ProtocolError::FrameTooShort {
                expected: envelope_payload_len(b) as usize,
                actual: (b.len() - ENVELOPE_HEADER_SIZE) as usize,
            },
        )
    } else {
        r matches Ok(e) && e.version == ProtocolVersion::V1 && e.message_type == envelope_type_of(b)
            && e.flags == be16_at(b, 2) && e.message_id == be64_at(b, 4) && e.correlation_id == be64_at(b, 12)
            && e.timestamp == be64_at(b, 20) && e.payload@ == envelope_payload_of(b)
    }
}

/// Decoding fails exactly when `b` does not start with a well-formed envelope.
pub proof fn lemma_envelope_decoded_ok(b: Seq<u8>, r: Result<MessageEnvelope, ProtocolError>)
    requires
        envelope_decoded(b, r),
    ensures
        r is Ok <==> envelope_ok(b),
{
}

/// Two envelopes carry the same fields and payload bytes.
pub open spec fn same_envelope(a: MessageEnvelope, b: MessageEnvelope) -> bool {
    a.version == b.version && a.message_type == b.message_type && a.flags == b.flags
        && a.message_id == b.message_id && a.correlation_id == b.correlation_id
        && a.timestamp == b.timestamp && a.payload@ == b.payload@
}

impl MessageEnvelope {
    /// Creates a current-version envelope with no flags, refusing a payload
    /// longer than `MAX_ENVELOPE_PAYLOAD_SIZE`.
    pub fn new(
        message_type: MessageType,
        message_id: u64,
        correlation_id: u64,
        timestamp: u64,
        payload: Vec<u8>,
    ) -> (r: Result<Self, ProtocolError>)
        ensures
            payload@.len() > MAX_ENVELOPE_PAYLOAD_SIZE ==> r == Err::<MessageEnvelope, ProtocolError>(
                ProtocolError::PayloadTooLarge { actual: payload@.len() as usize, max: MAX_ENVELOPE_PAYLOAD_SIZE },
            ),
            payload@.len() <= MAX_ENVELOPE_PAYLOAD_SIZE ==> (r matches Ok(e) && e.version == ProtocolVersion::V1
                && e.message_type == message_type && e.flags == 0 && e.message_id == message_id
                && e.correlation_id == correlation_id && e.timestamp == timestamp && e.payload@ == payload@),
    {
        if payload.len() > MAX_ENVELOPE_PAYLOAD_SIZE {
            return Err(ProtocolError::PayloadTooLarge { actual: payload.len(), max: MAX_ENVELOPE_PAYLOAD_SIZE });
        }
        Ok(MessageEnvelope {
            version: ProtocolVersion::CURRENT,
            message_type,
            flags: 0,
            message_id,
            correlation_id,
            timestamp,
            payload,
        })
    }

    /// Sets envelope flags.
    pub fn with_flags(self, flags: u16) -> (r: Self)
        ensures
            r.flags == flags,
            r.version == self.version && r.message_type == self.message_type
                && r.message_id == self.message_id && r.correlation_id == self.correlation_id
                && r.timestamp == self.timestamp && r.payload@ == self.payload@,
    {
        let mut s = self;
        s.flags = flags;
        s
    }

    /// Appends the wire bytes of the envelope, or refuses a payload longer
    /// than `MAX_ENVELOPE_PAYLOAD_SIZE` and leaves `dst` unchanged.
    pub fn encode(&self, dst: &mut Vec<u8>) -> (r: Result<(), ProtocolError>)
        ensures
            self.payload@.len() > MAX_ENVELOPE_PAYLOAD_SIZE ==> r == Err::<(), ProtocolError>(
                ProtocolError::PayloadTooLarge { actual: self.payload@.len() as usize, max: MAX_ENVELOPE_PAYLOAD_SIZE },
            ) && final(dst)@ == old(dst)@,
            self.payload@.len() <= MAX_ENVELOPE_PAYLOAD_SIZE ==> r is Ok && final(dst)@ == old(dst)@
                + envelope_wire(*self),
    {
        if self.payload.len() > MAX_ENVELOPE_PAYLOAD_SIZE {
            return Err(ProtocolError::PayloadTooLarge { actual: self.payload.len(), max: MAX_ENVELOPE_PAYLOAD_SIZE });
        }
        dst.push(self.version.to_u8());
        dst.push(self.message_type.to_u8());
        put_u16(dst, self.flags);
        put_u64(dst, self.message_id);
        put_u64(dst, self.correlation_id);
        put_u64(dst, self.timestamp);
        put_u16(dst, self.payload.len() as u16);
        put_slice(dst, self.payload.as_slice());
        assert(final(dst)@ =~= old(dst)@ + envelope_wire(*self));
        Ok(())
    }

    /// The wire bytes of the envelope.
    pub fn to_bytes(&self) -> (r: Result<Vec<u8>, ProtocolError>)
        ensures
            self.payload@.len() > MAX_ENVELOPE_PAYLOAD_SIZE ==> r == Err::<Vec<u8>, ProtocolError>(
                ProtocolError::PayloadTooLarge { actual: self.payload@.len() as usize, max: MAX_ENVELOPE_PAYLOAD_SIZE },
            ),
            self.payload@.len() <= MAX_ENVELOPE_PAYLOAD_SIZE ==> (r matches Ok(b) && b@ == envelope_wire(*self)),
    {
        let mut buf: Vec<u8> = Vec::new();
        match self.encode(&mut buf) {
            Ok(()) => {
                assert(buf@ =~= envelope_wire(*self));
                Ok(buf)
            },
            Err(e) => Err(e),
        }
    }

    /// Decodes an envelope from the start of `slice`; bytes after its payload are ignored.
    pub fn decode(slice: &[u8]) -> (r: Result<Self, ProtocolError>)
        ensures
            envelope_decoded(slice@, r),
    {
        if slice.len() < ENVELOPE_HEADER_SIZE {
            return Err(ProtocolError::FrameTooShort { expected: ENVELOPE_HEADER_SIZE, actual: slice.len() });
        }
        let version = match ProtocolVersion::from_u8(slice[0]) {
            Ok(v) => v,
            Err(e) => return Err(e),
        };
        let message_type = match MessageType::from_u8(slice[1]) {
            Ok(t) => t,
            Err(e) => return Err(e),
        };
        let flags = get_u16(slice, 2);
        let message_id = get_u64(slice, 4);
        let correlation_id = get_u64(slice, 12);
        let timestamp = get_u64(slice, 20);
        let payload_len = get_u16(slice, 28) as usize;
        if payload_len > MAX_ENVELOPE_PAYLOAD_SIZE {
            return Err(ProtocolError::PayloadTooLarge { actual: payload_len, max: MAX_ENVELOPE_PAYLOAD_SIZE });
        }
        let remaining = slice.len() - ENVELOPE_HEADER_SIZE;
        if remaining < payload_len {
            return Err(ProtocolError::FrameTooShort { expected: payload_len, actual: remaining });
        }
        let payload = copy_range(slice, ENVELOPE_HEADER_SIZE, ENVELOPE_HEADER_SIZE + payload_len);
        Ok(MessageEnvelope { version, message_type, flags, message_id, correlation_id, timestamp, payload })
    }
}

/// Decoding the wire bytes of an envelope gives the envelope back, whatever
/// follows it in the buffer.
pub proof fn lemma_envelope_roundtrip(e: MessageEnvelope, rest: Seq<u8>)
    requires
        e.payload@.len() <= MAX_ENVELOPE_PAYLOAD_SIZE,
    ensures
        envelope_wire(e).len() == ENVELOPE_HEADER_SIZE + e.payload@.len(),
        forall|r: Result<MessageEnvelope, ProtocolError>|
            envelope_decoded(envelope_wire(e) + rest, r) <==> (r matches Ok(d) && same_envelope(d, e)),
{
    let w = envelope_wire(e);
    let b = w + rest;
    let n: int = e.payload@.len() as int;
    assert(w.len() == 30 + n);
    assert(b[0] == version_code(e.version));
    assert(b[1] == message_type_code(e.message_type));
    lemma_message_type_roundtrip(e.message_type, b[1]);
    assert(b.subrange(2, 4) =~= be16_bytes(e.flags));
    crate::protocol::wire::lemma_be16_roundtrip(e.flags, b, 2);
    assert(b.subrange(4, 12) =~= be64_bytes(e.message_id));
    crate::protocol::wire::lemma_be64_roundtrip(e.message_id, b, 4);
    assert(b.subrange(12, 20) =~= be64_bytes(e.correlation_id));
    crate::protocol::wire::lemma_be64_roundtrip(e.correlation_id, b, 12);
    assert(b.subrange(20, 28) =~= be64_bytes(e.timestamp));
    crate::protocol::wire::lemma_be64_roundtrip(e.timestamp, b, 20);
    assert(b.subrange(28, 30) =~= be16_bytes(n as u16));
    crate::protocol::wire::lemma_be16_roundtrip(n as u16, b, 28);
    assert(b.subrange(30, 30 + n) =~= e.payload@);
    assert(e.version == ProtocolVersion::V1);
}

/// The bytes of a version-1 envelope decode to exactly the fields they were
/// built from.
pub proof fn lemma_envelope_bytes_decode(
    t: MessageType,
    flags: u16,
    message_id: u64,
    correlation_id: u64,
    timestamp: u64,
    payload: Seq<u8>,
)
    requires
        payload.len() <= MAX_ENVELOPE_PAYLOAD_SIZE,
    ensures
        forall|r: Result<MessageEnvelope, ProtocolError>|
            envelope_decoded(envelope_bytes(1, t, flags, message_id, correlation_id, timestamp, payload), r) <==> (r matches Ok(d)
                && d.version == ProtocolVersion::V1 && d.message_type == t && d.flags == flags && d.message_id
                == message_id && d.correlation_id == correlation_id && d.timestamp == timestamp && d.payload@
                == payload),
{
    let b = envelope_bytes(1, t, flags, message_id, correlation_id, timestamp, payload);
    let n: int = payload.len() as int;
    assert(b.len() == 30 + n);
    lemma_message_type_roundtrip(t, b[1]);
    assert(b.subrange(2, 4) =~= be16_bytes(flags));
    crate::protocol::wire::lemma_be16_roundtrip(flags, b, 2);
    assert(b.subrange(4, 12) =~= be64_bytes(message_id));
    crate::protocol::wire::lemma_be64_roundtrip(message_id, b, 4);
    assert(b.subrange(12, 20) =~= be64_bytes(correlation_id));
    crate::protocol::wire::lemma_be64_roundtrip(correlation_id, b, 12);
    assert(b.subrange(20, 28) =~= be64_bytes(timestamp));
    crate::protocol::wire::lemma_be64_roundtrip(timestamp, b, 20);
    assert(b.subrange(28, 30) =~= be16_bytes(n as u16));
    crate::protocol::wire::lemma_be16_roundtrip(n as u16, b, 28);
    assert(b.subrange(30, 30 + n) =~= payload);
}

/// The name of a message type, as `Debug` renders it.
pub open spec fn message_type_name(t: MessageType) -> Seq<char> {
    match t {
        MessageType::AuthRequest => "AuthRequest"@,
        MessageType::ConnectRequest => "ConnectRequest"@,
        MessageType::DisconnectRequest => "DisconnectRequest"@,
        MessageType::SendMessage => "SendMessage"@,
        MessageType::Ack => "Ack"@,
        MessageType::Heartbeat => "Heartbeat"@,
        MessageType::KeyExchange => "KeyExchange"@,
        MessageType::RelayRequest => "RelayRequest"@,
        MessageType::RawEcho => "RawEcho"@,
        MessageType::AuthResponse => "AuthResponse"@,
        MessageType::ConnectionAccepted => "ConnectionAccepted"@,
        MessageType::ConnectionRejected => "ConnectionRejected"@,
        MessageType::HeartbeatResponse => "HeartbeatResponse"@,
        MessageType::ErrorResponse => "ErrorResponse"@,
        MessageType::SendMessageResponse => "SendMessageResponse"@,
        MessageType::RawEchoResponse => "RawEchoResponse"@,
        MessageType::IncomingMessageEvent => "IncomingMessageEvent"@,
        MessageType::DeliveryStatusEvent => "DeliveryStatusEvent"@,
        MessageType::PeerEvent => "PeerEvent"@,
        MessageType::RelayEvent => "RelayEvent"@,
    }
}

/// The rendering of an envelope for logs: the header fields and the payload
/// length, the payload itself replaced by `[REDACTED]`.
pub open spec fn envelope_debug_text(e: MessageEnvelope) -> Seq<char> {
    "MessageEnvelope { version: V1, message_type: "@ + message_type_name(e.message_type) + ", flags: "@
        + decimal_text(e.flags as nat) + ", message_id: "@ + decimal_text(e.message_id as nat) + ", correlation_id: "@
        + decimal_text(e.correlation_id as nat) + ", timestamp: "@ + decimal_text(e.timestamp as nat)
        + ", payload_len: "@ + decimal_text(e.payload@.len()) + ", payload: \"[REDACTED]\" }"@
}

impl MessageType {
    /// The name of this message type, as `Debug` renders it.
    pub fn name(&self) -> (r: String)
        ensures
            r@ == message_type_name(*self),
    {
        match self {
            MessageType::AuthRequest => "AuthRequest".to_string(),
            MessageType::ConnectRequest => "ConnectRequest".to_string(),
            MessageType::DisconnectRequest => "DisconnectRequest".to_string(),
            MessageType::SendMessage => "SendMessage".to_string(),
            MessageType::Ack => "Ack".to_string(),
            MessageType::Heartbeat => "Heartbeat".to_string(),
            MessageType::KeyExchange => "KeyExchange".to_string(),
            MessageType::RelayRequest => "RelayRequest".to_string(),
            MessageType::RawEcho => "RawEcho".to_string(),
            MessageType::AuthResponse => "AuthResponse".to_string(),
            MessageType::ConnectionAccepted => "ConnectionAccepted".to_string(),
            MessageType::ConnectionRejected => "ConnectionRejected".to_string(),
            MessageType::HeartbeatResponse => "HeartbeatResponse".to_string(),
            MessageType::ErrorResponse => "ErrorResponse".to_string(),
            MessageType::SendMessageResponse => "SendMessageResponse".to_string(),
            MessageType::RawEchoResponse => "RawEchoResponse".to_string(),
            MessageType::IncomingMessageEvent => "IncomingMessageEvent".to_string(),
            MessageType::DeliveryStatusEvent => "DeliveryStatusEvent".to_string(),
            MessageType::PeerEvent => "PeerEvent".to_string(),
            MessageType::RelayEvent => "RelayEvent".to_string(),
        }
    }
}

impl MessageEnvelope {
    /// A rendering for logs that leaves the payload out.
    pub fn debug_text(&self) -> (r: String)
        ensures
            r@ == envelope_debug_text(*self),
    {
        let a = concat_text("MessageEnvelope { version: V1, message_type: ", self.message_type.name().as_str());
        let b = concat_text(a.as_str(), ", flags: ");
        let c = concat_text(b.as_str(), decimal_string(self.flags as u64).as_str());
        let d = concat_text(c.as_str(), ", message_id: ");
        let e = concat_text(d.as_str(), decimal_string(self.message_id).as_str());
        let f = concat_text(e.as_str(), ", correlation_id: ");
        let g = concat_text(f.as_str(), decimal_string(self.correlation_id).as_str());
        let h = concat_text(g.as_str(), ", timestamp: ");
        let i = concat_text(h.as_str(), decimal_string(self.timestamp).as_str());
        let j = concat_text(i.as_str(), ", payload_len: ");
        let k = concat_text(j.as_str(), decimal_string(self.payload.len() as u64).as_str());
        let r = concat_text(k.as_str(), ", payload: \"[REDACTED]\" }");
        proof {
            assert(r@ =~= envelope_debug_text(*self));
        }
        r
    }
}

/// The log rendering of an envelope never shows its payload bytes: envelopes
/// that differ only in payload bytes of the same length render alike.
pub proof fn lemma_envelope_debug_hides_payload(a: MessageEnvelope, b: MessageEnvelope)
    requires
        a.message_type == b.message_type,
        a.flags == b.flags,
        a.message_id == b.message_id,
        a.correlation_id == b.correlation_id,
        a.timestamp == b.timestamp,
        a.payload@.len() == b.payload@.len(),
    ensures
        envelope_debug_text(a) == envelope_debug_text(b),
{
}

} // verus!
