//! Messages sent from the relay to a client, split into responses
//! (correlated with a request) and events (unsolicited pushes).
use vstd::prelude::*;

use crate::text::{bool_string, bool_text, concat_text, debug_quoted, decimal_string, decimal_text, quote_text, quoted, str_debug, ascii_chars};
use crate::transport::obfuscation::{hex_bytes, hex_encode};
use vstd::utf8::{decode_utf8, encode_utf8};

use crate::error::ProtocolError;
use crate::protocol::envelope::{is_event_code, is_response_code, message_type_code, MessageType};
use crate::protocol::messages::client_to_server::too_short;
use crate::protocol::wire::{
    be16_at, be16_bytes, be32_at, be32_bytes, be64_at, be64_bytes, copy_array16, copy_array32, copy_range,
    get_u16, get_u32, get_u64, put_slice, put_u16, put_u32, put_u64,
};
use crate::text::{lossy_text, string_from_utf8_lossy};

verus! {

/// Delivery status codes for DeliveryStatusEvent.
#[derive(Debug, Clone, Copy, PartialEq, Eq)]
pub enum DeliveryStatus {
    Delivered,
    Dropped,
    Queued,
    Failed,
}

/// The wire byte of a delivery status.
pub open spec fn delivery_status_code(s: DeliveryStatus) -> u8 {
    match s {
        DeliveryStatus::Delivered => 1,
        DeliveryStatus::Dropped => 2,
        DeliveryStatus::Queued => 3,
        DeliveryStatus::Failed => 4,
    }
}

/// The delivery status read from wire byte `v`: unknown bytes read as `Failed`.
pub open spec fn delivery_status_of(v: u8) -> DeliveryStatus {
    if v == 1 {
        DeliveryStatus::Delivered
    } else if v == 2 {
        DeliveryStatus::Dropped
    } else if v == 3 {
        DeliveryStatus::Queued
    } else {
        DeliveryStatus::Failed
    }
}

impl DeliveryStatus {
    pub fn from_u8(v: u8) -> (r: Self)
        ensures
            r == delivery_status_of(v),
    {
        match v {
            1 => DeliveryStatus::Delivered,
            2 => DeliveryStatus::Dropped,
            3 => DeliveryStatus::Queued,
            _ => DeliveryStatus::Failed,
        }
    }

    /// The wire byte of this status.
    pub fn to_u8(self) -> (r: u8)
        ensures
            r == delivery_status_code(self),
    {
        match self {
            DeliveryStatus::Delivered => 1,
            DeliveryStatus::Dropped => 2,
            DeliveryStatus::Queued => 3,
            DeliveryStatus::Failed => 4,
        }
    }
}

/// Peer status codes for PeerEvent.
#[derive(Debug, Clone, Copy, PartialEq, Eq)]
pub enum PeerStatus {
    Online,
    Offline,
    RelayActive,
}

/// The wire byte of a peer status.
pub open spec fn peer_status_code(s: PeerStatus) -> u8 {
    match s {
        PeerStatus::Online => 1,
        PeerStatus::Offline => 2,
        PeerStatus::RelayActive => 3,
    }
}

/// The peer status read from wire byte `v`: unknown bytes read as `Offline`.
pub open spec fn peer_status_of(v: u8) -> PeerStatus {
    if v == 1 {
        PeerStatus::Online
    } else if v == 3 {
        PeerStatus::RelayActive
    } else {
        PeerStatus::Offline
    }
}

impl PeerStatus {
    pub fn from_u8(v: u8) -> (r: Self)
        ensures
            r == peer_status_of(v),
    {
        match v {
            1 => PeerStatus::Online,
            3 => PeerStatus::RelayActive,
            _ => PeerStatus::Offline,
        }
    }

    /// The wire byte of this status.
    pub fn to_u8(self) -> (r: u8)
        ensures
            r == peer_status_code(self),
    {
        match self {
            PeerStatus::Online => 1,
            PeerStatus::Offline => 2,
            PeerStatus::RelayActive => 3,
        }
    }
}

/// Messages sent from SERVER to CLIENT.
#[derive(Clone, PartialEq, Eq)]
pub enum ServerToClientMessage {
    AuthResponse { success: bool, session_id: [u8; 16] },
    ConnectionAccepted { session_id: [u8; 16], assigned_peer_id: [u8; 32] },
    ConnectionRejected { reason_code: u32, message: String },
    HeartbeatResponse { sequence: u64 },
    ErrorResponse { code: u32, message: String },
    SendMessageResponse { message_id: u64, accepted: bool },
    RawEchoResponse { payload: Vec<u8> },
    IncomingMessageEvent { sender_id: [u8; 32], data: Vec<u8> },
    DeliveryStatusEvent { message_id: u64, status: DeliveryStatus },
    PeerEvent { peer_id: [u8; 32], status: PeerStatus },
    RelayEvent { session_id: [u8; 16], status: u8 },
}

/// The message type of a server message.
pub open spec fn server_message_type(m: ServerToClientMessage) -> MessageType {
    match m {
        ServerToClientMessage::AuthResponse { .. } => MessageType::AuthResponse,
        ServerToClientMessage::ConnectionAccepted { .. } => MessageType::ConnectionAccepted,
        ServerToClientMessage::ConnectionRejected { .. } => MessageType::ConnectionRejected,
        ServerToClientMessage::HeartbeatResponse { .. } => MessageType::HeartbeatResponse,
        ServerToClientMessage::ErrorResponse { .. } => MessageType::ErrorResponse,
        ServerToClientMessage::SendMessageResponse { .. } => MessageType::SendMessageResponse,
        ServerToClientMessage::RawEchoResponse { .. } => MessageType::RawEchoResponse,
        ServerToClientMessage::IncomingMessageEvent { .. } => MessageType::IncomingMessageEvent,
        ServerToClientMessage::DeliveryStatusEvent { .. } => MessageType::DeliveryStatusEvent,
        ServerToClientMessage::PeerEvent { .. } => MessageType::PeerEvent,
        ServerToClientMessage::RelayEvent { .. } => MessageType::RelayEvent,
    }
}

/// The wire byte of a boolean flag.
pub open spec fn flag_byte(b: bool) -> u8 {
    if b { 1 } else { 0 }
}

/// A status code and a UTF-8 text whose byte length is written modulo 2^16.
pub open spec fn coded_text_wire(code: u32, text: Seq<char>) -> Seq<u8> {
    be32_bytes(code) + be16_bytes(encode_utf8(text).len() as u16) + encode_utf8(text)
}

/// The payload bytes of a server message.
pub open spec fn server_message_wire(m: ServerToClientMessage) -> Seq<u8> {
    match m {
        ServerToClientMessage::AuthResponse { success, session_id } => seq![flag_byte(success)] + session_id@,
        ServerToClientMessage::ConnectionAccepted { session_id, assigned_peer_id } => session_id@ + assigned_peer_id@,
        ServerToClientMessage::ConnectionRejected { reason_code, message } => coded_text_wire(reason_code, message@),
        ServerToClientMessage::HeartbeatResponse { sequence } => be64_bytes(sequence),
        ServerToClientMessage::ErrorResponse { code, message } => coded_text_wire(code, message@),
        ServerToClientMessage::SendMessageResponse { message_id, accepted } =>
            be64_bytes(message_id) + seq![flag_byte(accepted)],
        ServerToClientMessage::RawEchoResponse { payload } => payload@,
        ServerToClientMessage::IncomingMessageEvent { sender_id, data } => sender_id@ + data@,
        ServerToClientMessage::DeliveryStatusEvent { message_id, status } =>
            be64_bytes(message_id) + seq![delivery_status_code(status)],
        ServerToClientMessage::PeerEvent { peer_id, status } => peer_id@ + seq![peer_status_code(status)],
        ServerToClientMessage::RelayEvent { session_id, status } => session_id@ + seq![status],
    }
}

/// Two server messages are the same variant with the same field values.
pub open spec fn same_server_message(a: ServerToClientMessage, b: ServerToClientMessage) -> bool {
    match (a, b) {
        (
            ServerToClientMessage::AuthResponse { success: s1, session_id: i1 },
            ServerToClientMessage::AuthResponse { success: s2, session_id: i2 },
        ) => s1 == s2 && i1@ == i2@,
        (
            ServerToClientMessage::ConnectionAccepted { session_id: i1, assigned_peer_id: p1 },
            ServerToClientMessage::ConnectionAccepted { session_id: i2, assigned_peer_id: p2 },
        ) => i1@ == i2@ && p1@ == p2@,
        (
            ServerToClientMessage::ConnectionRejected { reason_code: c1, message: m1 },
            ServerToClientMessage::ConnectionRejected { reason_code: c2, message: m2 },
        ) => c1 == c2 && m1@ == m2@,
        (
            ServerToClientMessage::HeartbeatResponse { sequence: s1 },
            ServerToClientMessage::HeartbeatResponse { sequence: s2 },
        ) => s1 == s2,
        (
            ServerToClientMessage::ErrorResponse { code: c1, message: m1 },
            ServerToClientMessage::ErrorResponse { code: c2, message: m2 },
        ) => c1 == c2 && m1@ == m2@,
        (
            ServerToClientMessage::SendMessageResponse { message_id: i1, accepted: a1 },
            ServerToClientMessage::SendMessageResponse { message_id: i2, accepted: a2 },
        ) => i1 == i2 && a1 == a2,
        (
            ServerToClientMessage::RawEchoResponse { payload: p1 },
            ServerToClientMessage::RawEchoResponse { payload: p2 },
        ) => p1@ == p2@,
        (
            ServerToClientMessage::IncomingMessageEvent { sender_id: s1, data: d1 },
            ServerToClientMessage::IncomingMessageEvent { sender_id: s2, data: d2 },
        ) => s1@ == s2@ && d1@ == d2@,
        (
            ServerToClientMessage::DeliveryStatusEvent { message_id: i1, status: s1 },
            ServerToClientMessage::DeliveryStatusEvent { message_id: i2, status: s2 },
        ) => i1 == i2 && s1 == s2,
        (
            ServerToClientMessage::PeerEvent { peer_id: p1, status: s1 },
            ServerToClientMessage::PeerEvent { peer_id: p2, status: s2 },
        ) => p1@ == p2@ && s1 == s2,
        (
            ServerToClientMessage::RelayEvent { session_id: i1, status: s1 },
            ServerToClientMessage::RelayEvent { session_id: i2, status: s2 },
        ) => i1@ == i2@ && s1 == s2,
        _ => false,
    }
}

/// The code and text read from a coded-text payload of at least 6 bytes whose
/// text is complete.
pub open spec fn coded_text_ok(b: Seq<u8>, code: u32, text: Seq<char>) -> bool {
    code == be32_at(b, 0) && text == lossy_text(b.subrange(6, 6 + be16_at(b, 4)))
}

/// What decoding payload `b` as a server message of type `t` gives.
pub open spec fn server_decoded(t: MessageType, b: Seq<u8>, r: Result<ServerToClientMessage, ProtocolError>) -> bool {
    let n = b.len() as int;
    match t {
        MessageType::AuthResponse => if n < 17 {
            r == too_short::<ServerToClientMessage>(17, n)
        } else {
            r matches Ok(ServerToClientMessage::AuthResponse { success, session_id }) && success == (b[0] != 0)
                && session_id@ == b.subrange(1, 17)
        },
        MessageType::ConnectionAccepted => if n < 48 {
            r == too_short::<ServerToClientMessage>(48, n)
        } else {
            r matches Ok(ServerToClientMessage::ConnectionAccepted { session_id, assigned_peer_id })
                && session_id@ == b.subrange(0, 16) && assigned_peer_id@ == b.subrange(16, 48)
        },
        MessageType::ConnectionRejected => if n < 6 {
            r == too_short::<ServerToClientMessage>(6, n)
        } else if n - 6 < be16_at(b, 4) {
            r == too_short::<ServerToClientMessage>(be16_at(b, 4) as int, n - 6)
        } else {
            r matches Ok(ServerToClientMessage::ConnectionRejected { reason_code, message }) && coded_text_ok(
                b,
                reason_code,
                message@,
            )
        },
        MessageType::HeartbeatResponse => if n < 8 {
            r == too_short::<ServerToClientMessage>(8, n)
        } else {
            r == Ok::<ServerToClientMessage, ProtocolError>(ServerToClientMessage::HeartbeatResponse { sequence: be64_at(b, 0) })
        },
        MessageType::ErrorResponse => if n < 6 {
            r == too_short::<ServerToClientMessage>(6, n)
        } else if n - 6 < be16_at(b, 4) {
            r == too_short::<ServerToClientMessage>(be16_at(b, 4) as int, n - 6)
        } else {
            r matches Ok(ServerToClientMessage::ErrorResponse { code, message }) && coded_text_ok(b, code, message@)
        },
        MessageType::SendMessageResponse => if n < 9 {
            r == too_short::<ServerToClientMessage>(9, n)
        } else {
            r == Ok::<ServerToClientMessage, ProtocolError>(
                ServerToClientMessage::SendMessageResponse { message_id: be64_at(b, 0), accepted: b[8] != 0 },
            )
        },
        MessageType::RawEchoResponse => r matches Ok(ServerToClientMessage::RawEchoResponse { payload }) && payload@ == b,
        MessageType::IncomingMessageEvent => if n < 32 {
            r == too_short::<ServerToClientMessage>(32, n)
        } else {
            r matches Ok(ServerToClientMessage::IncomingMessageEvent { sender_id, data }) && sender_id@ == b.subrange(0, 32)
                && data@ == b.subrange(32, n)
        },
        MessageType::DeliveryStatusEvent => if n < 9 {
            r == too_short::<ServerToClientMessage>(9, n)
        } else {
            r == Ok::<ServerToClientMessage, ProtocolError>(
                ServerToClientMessage::DeliveryStatusEvent { message_id: be64_at(b, 0), status: delivery_status_of(b[8]) },
            )
        },
        MessageType::PeerEvent => if n < 33 {
            r == too_short::<ServerToClientMessage>(33, n)
        } else {
            r matches Ok(ServerToClientMessage::PeerEvent { peer_id, status }) && peer_id@ == b.subrange(0, 32)
                && status == peer_status_of(b[32])
        },
        MessageType::RelayEvent => if n < 17 {
            r == too_short::<ServerToClientMessage>(17, n)
        } else {
            r matches Ok(ServerToClientMessage::RelayEvent { session_id, status }) && session_id@ == b.subrange(0, 16)
                && status == b[16]
        },
        _ => r == Err::<ServerToClientMessage, ProtocolError>(ProtocolError::UnexpectedDirection),
    }
}

/// Appends a status code, the 16-bit byte length of `text` and its UTF-8 bytes.
fn put_coded_text(buf: &mut Vec<u8>, code: u32, text: &String)
    ensures
        final(buf)@ == old(buf)@ + coded_text_wire(code, text@),
{
    let bytes = text.as_str().as_bytes();
    put_u32(buf, code);
    put_u16(buf, bytes.len() as u16);
    put_slice(buf, bytes);
}

impl ServerToClientMessage {
    /// The message type of this message.
    pub fn message_type(&self) -> (r: MessageType)
        ensures
            r == server_message_type(*self),
    {
        match self {
            ServerToClientMessage::AuthResponse { .. } => MessageType::AuthResponse,
            ServerToClientMessage::ConnectionAccepted { .. } => MessageType::ConnectionAccepted,
            ServerToClientMessage::ConnectionRejected { .. } => MessageType::ConnectionRejected,
            ServerToClientMessage::HeartbeatResponse { .. } => MessageType::HeartbeatResponse,
            ServerToClientMessage::ErrorResponse { .. } => MessageType::ErrorResponse,
            ServerToClientMessage::SendMessageResponse { .. } => MessageType::SendMessageResponse,
            ServerToClientMessage::RawEchoResponse { .. } => MessageType::RawEchoResponse,
            ServerToClientMessage::IncomingMessageEvent { .. } => MessageType::IncomingMessageEvent,
            ServerToClientMessage::DeliveryStatusEvent { .. } => MessageType::DeliveryStatusEvent,
            ServerToClientMessage::PeerEvent { .. } => MessageType::PeerEvent,
            ServerToClientMessage::RelayEvent { .. } => MessageType::RelayEvent,
        }
    }

    /// Whether this message is a response correlated with a client request.
    pub fn is_response(&self) -> (r: bool)
        ensures
            r == is_response_code(message_type_code(server_message_type(*self))),
    {
        self.message_type().is_response()
    }

    /// Whether this message is an unsolicited event.
    pub fn is_event(&self) -> (r: bool)
        ensures
            r == is_event_code(message_type_code(server_message_type(*self))),
    {
        self.message_type().is_event()
    }

    /// The payload bytes of this message.
    pub fn encode(&self) -> (r: Vec<u8>)
        ensures
            r@ == server_message_wire(*self),
    {
        let mut buf: Vec<u8> = Vec::new();
        match self {
            ServerToClientMessage::AuthResponse { success, session_id } => {
                buf.push(if *success { 1u8 } else { 0u8 });
                put_slice(&mut buf, session_id.as_slice());
            },
            ServerToClientMessage::ConnectionAccepted { session_id, assigned_peer_id } => {
                put_slice(&mut buf, session_id.as_slice());
                put_slice(&mut buf, assigned_peer_id.as_slice());
            },
            ServerToClientMessage::ConnectionRejected { reason_code, message } => {
                put_coded_text(&mut buf, *reason_code, message);
            },
            ServerToClientMessage::HeartbeatResponse { sequence } => {
                put_u64(&mut buf, *sequence);
            },
            ServerToClientMessage::ErrorResponse { code, message } => {
                put_coded_text(&mut buf, *code, message);
            },
            ServerToClientMessage::SendMessageResponse { message_id, accepted } => {
                put_u64(&mut buf, *message_id);
                buf.push(if *accepted { 1u8 } else { 0u8 });
            },
            ServerToClientMessage::RawEchoResponse { payload } => {
                put_slice(&mut buf, payload.as_slice());
            },
            ServerToClientMessage::IncomingMessageEvent { sender_id, data } => {
                put_slice(&mut buf, sender_id.as_slice());
                put_slice(&mut buf, data.as_slice());
            },
            ServerToClientMessage::DeliveryStatusEvent { message_id, status } => {
                put_u64(&mut buf, *message_id);
                buf.push(status.to_u8());
            },
            ServerToClientMessage::PeerEvent { peer_id, status } => {
                put_slice(&mut buf, peer_id.as_slice());
                buf.push(status.to_u8());
            },
            ServerToClientMessage::RelayEvent { session_id, status } => {
                put_slice(&mut buf, session_id.as_slice());
                buf.push(*status);
            },
        }
        assert(buf@ =~= server_message_wire(*self));
        buf
    }

    /// Decodes the payload of an envelope of type `msg_type`; client-to-server
    /// types are refused with `UnexpectedDirection`.
    pub fn decode(msg_type: MessageType, payload: &Vec<u8>) -> (r: Result<Self, ProtocolError>)
        ensures
            server_decoded(msg_type, payload@, r),
    {
        let slice = payload.as_slice();
        let n = slice.len();
        match msg_type {
            MessageType::AuthResponse => {
                if n < 17 {
                    return Err(ProtocolError::FrameTooShort { expected: 17, actual: n });
                }
                let success = slice[0] != 0;
                Ok(ServerToClientMessage::AuthResponse { success, session_id: copy_array16(slice, 1) })
            },
            MessageType::ConnectionAccepted => {
                if n < 48 {
                    return Err(ProtocolError::FrameTooShort { expected: 48, actual: n });
                }
                let session_id = copy_array16(slice, 0);
                let assigned_peer_id = copy_array32(slice, 16);
                Ok(ServerToClientMessage::ConnectionAccepted { session_id, assigned_peer_id })
            },
            MessageType::ConnectionRejected => {
                if n < 6 {
                    return Err(ProtocolError::FrameTooShort { expected: 6, actual: n });
                }
                let reason_code = get_u32(slice, 0);
                let msg_len = get_u16(slice, 4) as usize;
                if n - 6 < msg_len {
                    return Err(ProtocolError::FrameTooShort { expected: msg_len, actual: n - 6 });
                }
                let text = copy_range(slice, 6, 6 + msg_len);
                let message = string_from_utf8_lossy(text.as_slice());
                Ok(ServerToClientMessage::ConnectionRejected { reason_code, message })
            },
            MessageType::HeartbeatResponse => {
                if n < 8 {
                    return Err(ProtocolError::FrameTooShort { expected: 8, actual: n });
                }
                Ok(ServerToClientMessage::HeartbeatResponse { sequence: get_u64(slice, 0) })
            },
            MessageType::ErrorResponse => {
                if n < 6 {
                    return Err(ProtocolError::FrameTooShort { expected: 6, actual: n });
                }
                let code = get_u32(slice, 0);
                let msg_len = get_u16(slice, 4) as usize;
                if n - 6 < msg_len {
                    return Err(ProtocolError::FrameTooShort { expected: msg_len, actual: n - 6 });
                }
                let text = copy_range(slice, 6, 6 + msg_len);
                let message = string_from_utf8_lossy(text.as_slice());
                Ok(ServerToClientMessage::ErrorResponse { code, message })
            },
            MessageType::SendMessageResponse => {
                if n < 9 {
                    return Err(ProtocolError::FrameTooShort { expected: 9, actual: n });
                }
                let message_id = get_u64(slice, 0);
                Ok(ServerToClientMessage::SendMessageResponse { message_id, accepted: slice[8] != 0 })
            },
            MessageType::RawEchoResponse => {
                let copy = copy_range(slice, 0, n);
                assert(copy@ =~= payload@);
                Ok(ServerToClientMessage::RawEchoResponse { payload: copy })
            },
            MessageType::IncomingMessageEvent => {
                if n < 32 {
                    return Err(ProtocolError::FrameTooShort { expected: 32, actual: n });
                }
                let sender_id = copy_array32(slice, 0);
                let data = copy_range(slice, 32, n);
                Ok(ServerToClientMessage::IncomingMessageEvent { sender_id, data })
            },
            MessageType::DeliveryStatusEvent => {
                if n < 9 {
                    return Err(ProtocolError::FrameTooShort { expected: 9, actual: n });
                }
                let message_id = get_u64(slice, 0);
                let status = DeliveryStatus::from_u8(slice[8]);
                Ok(ServerToClientMessage::DeliveryStatusEvent { message_id, status })
            },
            MessageType::PeerEvent => {
                if n < 33 {
                    return Err(ProtocolError::FrameTooShort { expected: 33, actual: n });
                }
                let peer_id = copy_array32(slice, 0);
                let status = PeerStatus::from_u8(slice[32]);
                Ok(ServerToClientMessage::PeerEvent { peer_id, status })
            },
            MessageType::RelayEvent => {
                if n < 17 {
                    return Err(ProtocolError::FrameTooShort { expected: 17, actual: n });
                }
                let session_id = copy_array16(slice, 0);
                Ok(ServerToClientMessage::RelayEvent { session_id, status: slice[16] })
            },
            _ => Err(ProtocolError::UnexpectedDirection),
        }
    }
}

/// A coded text whose UTF-8 bytes fit the 16-bit length field is read back unchanged.
pub proof fn lemma_coded_text_roundtrip(code: u32, text: Seq<char>)
    requires
        encode_utf8(text).len() <= 0xffff,
    ensures
        coded_text_wire(code, text).len() == 6 + encode_utf8(text).len(),
        be16_at(coded_text_wire(code, text), 4) == encode_utf8(text).len(),
        coded_text_ok(coded_text_wire(code, text), code, text),
{
    let b = coded_text_wire(code, text);
    let t = encode_utf8(text);
    assert(b.subrange(0, 4) =~= be32_bytes(code));
    crate::protocol::wire::lemma_be32_roundtrip(code, b, 0);
    assert(b.subrange(4, 6) =~= be16_bytes(t.len() as u16));
    crate::protocol::wire::lemma_be16_roundtrip(t.len() as u16, b, 4);
    assert(b.subrange(6, 6 + t.len() as int) =~= t);
    vstd::utf8::encode_utf8_valid_utf8(text);
    vstd::utf8::encode_utf8_decode_utf8(text);
}

/// Decoding the payload bytes of a server message under its own type gives the
/// message back, provided each text fits its 16-bit length field.
pub proof fn lemma_server_message_roundtrip(m: ServerToClientMessage)
    requires
        m matches ServerToClientMessage::ConnectionRejected { message, .. } ==> encode_utf8(message@).len() <= 0xffff,
        m matches ServerToClientMessage::ErrorResponse { message, .. } ==> encode_utf8(message@).len() <= 0xffff,
    ensures
        forall|r: Result<ServerToClientMessage, ProtocolError>|
            server_decoded(server_message_type(m), server_message_wire(m), r) <==> (r matches Ok(d)
                && same_server_message(d, m)),
{
    let b = server_message_wire(m);
    match m {
        ServerToClientMessage::AuthResponse { success, session_id } => {
            assert(b.subrange(1, 17) =~= session_id@);
        },
        ServerToClientMessage::ConnectionAccepted { session_id, assigned_peer_id } => {
            assert(b.subrange(0, 16) =~= session_id@);
            assert(b.subrange(16, 48) =~= assigned_peer_id@);
        },
        ServerToClientMessage::ConnectionRejected { reason_code, message } => {
            lemma_coded_text_roundtrip(reason_code, message@);
        },
        ServerToClientMessage::HeartbeatResponse { sequence } => {
            assert(b.subrange(0, 8) =~= be64_bytes(sequence));
            crate::protocol::wire::lemma_be64_roundtrip(sequence, b, 0);
        },
        ServerToClientMessage::ErrorResponse { code, message } => {
            lemma_coded_text_roundtrip(code, message@);
        },
        ServerToClientMessage::SendMessageResponse { message_id, accepted } => {
            assert(b.subrange(0, 8) =~= be64_bytes(message_id));
            crate::protocol::wire::lemma_be64_roundtrip(message_id, b, 0);
        },
        ServerToClientMessage::RawEchoResponse { payload } => {},
        ServerToClientMessage::IncomingMessageEvent { sender_id, data } => {
            assert(b.subrange(0, 32) =~= sender_id@);
            assert(b.subrange(32, b.len() as int) =~= data@);
        },
        ServerToClientMessage::DeliveryStatusEvent { message_id, status } => {
            assert(b.subrange(0, 8) =~= be64_bytes(message_id));
            crate::protocol::wire::lemma_be64_roundtrip(message_id, b, 0);
        },
        ServerToClientMessage::PeerEvent { peer_id, status } => {
            assert(b.subrange(0, 32) =~= peer_id@);
        },
        ServerToClientMessage::RelayEvent { session_id, status } => {
            assert(b.subrange(0, 16) =~= session_id@);
        },
    }
}

/// The name of a delivery status, as `Debug` renders it.
pub open spec fn delivery_status_name(s: DeliveryStatus) -> Seq<char> {
    match s {
        DeliveryStatus::Delivered => "Delivered"@,
        DeliveryStatus::Dropped => "Dropped"@,
        DeliveryStatus::Queued => "Queued"@,
        DeliveryStatus::Failed => "Failed"@,
    }
}

/// The name of a peer status, as `Debug` renders it.
pub open spec fn peer_status_name(s: PeerStatus) -> Seq<char> {
    match s {
        PeerStatus::Online => "Online"@,
        PeerStatus::Offline => "Offline"@,
        PeerStatus::RelayActive => "RelayActive"@,
    }
}

/// The rendering of a server message for logs: session ids, the assigned
/// peer id and message data are left out; peer ids appear in hexadecimal;
/// payloads only by their length.
pub open spec fn server_message_debug_text(m: ServerToClientMessage) -> Seq<char> {
    match m {
        ServerToClientMessage::AuthResponse { success, .. } => "AuthResponse { success: "@ + bool_text(success)
            + ", session_id: \"[REDACTED]\" }"@,
        ServerToClientMessage::ConnectionAccepted { .. } =>
            "ConnectionAccepted { session_id: \"[REDACTED]\", assigned_peer_id: \"[REDACTED]\" }"@,
        ServerToClientMessage::ConnectionRejected { reason_code, message } => "ConnectionRejected { reason_code: "@
            + decimal_text(reason_code as nat) + ", message: "@ + debug_quoted(message@) + " }"@,
        ServerToClientMessage::HeartbeatResponse { sequence } => "HeartbeatResponse { sequence: "@ + decimal_text(
            sequence as nat,
        ) + " }"@,
        ServerToClientMessage::ErrorResponse { code, message } => "ErrorResponse { code: "@ + decimal_text(code as nat)
            + ", message: "@ + debug_quoted(message@) + " }"@,
        ServerToClientMessage::SendMessageResponse { message_id, accepted } => "SendMessageResponse { message_id: "@
            + decimal_text(message_id as nat) + ", accepted: "@ + bool_text(accepted) + " }"@,
        ServerToClientMessage::RawEchoResponse { payload } => "RawEchoResponse { payload_len: "@ + decimal_text(
            payload@.len(),
        ) + " }"@,
        ServerToClientMessage::IncomingMessageEvent { sender_id, data } => "IncomingMessageEvent { sender_id: "@
            + quoted(ascii_chars(hex_bytes(sender_id@))) + ", data_len: "@ + decimal_text(data@.len())
            + ", data: \"[REDACTED]\" }"@,
        ServerToClientMessage::DeliveryStatusEvent { message_id, status } => "DeliveryStatusEvent { message_id: "@
            + decimal_text(message_id as nat) + ", status: "@ + delivery_status_name(status) + " }"@,
        ServerToClientMessage::PeerEvent { peer_id, status } => "PeerEvent { peer_id: "@ + quoted(
            ascii_chars(hex_bytes(peer_id@)),
        ) + ", status: "@ + peer_status_name(status) + " }"@,
        ServerToClientMessage::RelayEvent { status, .. } => "RelayEvent { session_id: \"[REDACTED]\", status: "@
            + decimal_text(status as nat) + " }"@,
    }
}

impl DeliveryStatus {
    fn name(&self) -> (r: String)
        ensures
            r@ == delivery_status_name(*self),
    {
        match self {
            DeliveryStatus::Delivered => "Delivered".to_string(),
            DeliveryStatus::Dropped => "Dropped".to_string(),
            DeliveryStatus::Queued => "Queued".to_string(),
            DeliveryStatus::Failed => "Failed".to_string(),
        }
    }
}

impl PeerStatus {
    fn name(&self) -> (r: String)
        ensures
            r@ == peer_status_name(*self),
    {
        match self {
            PeerStatus::Online => "Online".to_string(),
            PeerStatus::Offline => "Offline".to_string(),
            PeerStatus::RelayActive => "RelayActive".to_string(),
        }
    }
}

/// `a`, then `b`, then `c`.
fn join3(a: &str, b: &str, c: &str) -> (r: String)
    ensures
        r@ == a@ + b@ + c@,
{
    let ab = concat_text(a, b);
    concat_text(ab.as_str(), c)
}

impl ServerToClientMessage {
    /// A rendering for logs that leaves session ids and message data out.
    pub fn debug_text(&self) -> (r: String)
        ensures
            r@ == server_message_debug_text(*self),
    {
        let r = match self {
            ServerToClientMessage::AuthResponse { success, .. } => join3(
                "AuthResponse { success: ",
                bool_string(*success).as_str(),
                ", session_id: \"[REDACTED]\" }",
            ),
            ServerToClientMessage::ConnectionAccepted { .. } =>
                "ConnectionAccepted { session_id: \"[REDACTED]\", assigned_peer_id: \"[REDACTED]\" }".to_string(),
            ServerToClientMessage::ConnectionRejected { reason_code, message } => {
                let a = join3("ConnectionRejected { reason_code: ", decimal_string(*reason_code as u64).as_str(), ", message: ");
                join3(a.as_str(), str_debug(message.as_str()).as_str(), " }")
            },
            ServerToClientMessage::HeartbeatResponse { sequence } => join3(
                "HeartbeatResponse { sequence: ",
                decimal_string(*sequence).as_str(),
                " }",
            ),
            ServerToClientMessage::ErrorResponse { code, message } => {
                let a = join3("ErrorResponse { code: ", decimal_string(*code as u64).as_str(), ", message: ");
                join3(a.as_str(), str_debug(message.as_str()).as_str(), " }")
            },
            ServerToClientMessage::SendMessageResponse { message_id, accepted } => {
                let a = join3("SendMessageResponse { message_id: ", decimal_string(*message_id).as_str(), ", accepted: ");
                join3(a.as_str(), bool_string(*accepted).as_str(), " }")
            },
            ServerToClientMessage::RawEchoResponse { payload } => join3(
                "RawEchoResponse { payload_len: ",
                decimal_string(payload.len() as u64).as_str(),
                " }",
            ),
            ServerToClientMessage::IncomingMessageEvent { sender_id, data } => {
                let a = join3(
                    "IncomingMessageEvent { sender_id: ",
                    quote_text(hex_encode(sender_id.as_slice()).as_str()).as_str(),
                    ", data_len: ",
                );
                join3(a.as_str(), decimal_string(data.len() as u64).as_str(), ", data: \"[REDACTED]\" }")
            },
            ServerToClientMessage::DeliveryStatusEvent { message_id, status } => {
                let a = join3("DeliveryStatusEvent { message_id: ", decimal_string(*message_id).as_str(), ", status: ");
                join3(a.as_str(), status.name().as_str(), " }")
            },
            ServerToClientMessage::PeerEvent { peer_id, status } => {
                let a = join3(
                    "PeerEvent { peer_id: ",
                    quote_text(hex_encode(peer_id.as_slice()).as_str()).as_str(),
                    ", status: ",
                );
                join3(a.as_str(), status.name().as_str(), " }")
            },
            ServerToClientMessage::RelayEvent { status, .. } => join3(
                "RelayEvent { session_id: \"[REDACTED]\", status: ",
                decimal_string(*status as u64).as_str(),
                " }",
            ),
        };
        proof {
            assert(r@ =~= server_message_debug_text(*self));
        }
        r
    }
}

/// Whether two server messages agree on what their renderings show: the same
/// variant, with equal fields apart from session ids and the assigned peer id,
/// and message data or payloads of equal length.
pub open spec fn server_visible_fields_agree(a: ServerToClientMessage, b: ServerToClientMessage) -> bool {
    match (a, b) {
        (
            ServerToClientMessage::AuthResponse { success: s, .. },
            ServerToClientMessage::AuthResponse { success: t, .. },
        ) => s == t,
        (ServerToClientMessage::ConnectionAccepted { .. }, ServerToClientMessage::ConnectionAccepted { .. }) => true,
        (
            ServerToClientMessage::RawEchoResponse { payload: p },
            ServerToClientMessage::RawEchoResponse { payload: q },
        ) => p@.len() == q@.len(),
        (
            ServerToClientMessage::IncomingMessageEvent { sender_id: r, data: d },
            ServerToClientMessage::IncomingMessageEvent { sender_id: q, data: e },
        ) => r == q && d@.len() == e@.len(),
        (
            ServerToClientMessage::RelayEvent { status: s, .. },
            ServerToClientMessage::RelayEvent { status: t, .. },
        ) => s == t,
        _ => a == b,
    }
}

/// The rendering of a server message never shows a session id, an assigned
/// peer id or message data: messages that differ only there render alike.
pub proof fn lemma_server_debug_hides_secrets(a: ServerToClientMessage, b: ServerToClientMessage)
    requires
        server_visible_fields_agree(a, b),
    ensures
        server_message_debug_text(a) == server_message_debug_text(b),
{
}

} // verus!
