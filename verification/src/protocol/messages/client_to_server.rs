//! Messages sent from a client to the relay, and their payload encodings.
use vstd::prelude::*;

use crate::text::{ascii_chars, concat_text, decimal_string, decimal_text, quote_text, quoted};
use crate::transport::obfuscation::{hex_bytes, hex_encode};

use crate::error::ProtocolError;
use crate::protocol::envelope::MessageType;
use crate::protocol::wire::{
    be16_at, be16_bytes, be32_at, be32_bytes, be64_at, be64_bytes, copy_array32, copy_range, get_u16,
    get_u32, get_u64, put_slice, put_u16, put_u32, put_u64,
};

verus! {

/// Messages sent from CLIENT to SERVER.
#[derive(Clone, PartialEq, Eq)]
pub enum ClientToServerMessage {
    AuthRequest { token: Vec<u8>, client_version: u32 },
    ConnectRequest { peer_id: [u8; 32] },
    DisconnectRequest { reason_code: u32 },
    SendMessage { recipient_id: [u8; 32], data: Vec<u8> },
    Ack { acknowledged_message_id: u64 },
    Heartbeat { sequence: u64 },
    KeyExchange { ephemeral_pubkey: [u8; 32] },
    RelayRequest { target_peer_id: [u8; 32] },
    RawEcho { payload: Vec<u8> },
}

/// The message type of a client message.
pub open spec fn client_message_type(m: ClientToServerMessage) -> MessageType {
    match m {
        ClientToServerMessage::AuthRequest { .. } => MessageType::AuthRequest,
        ClientToServerMessage::ConnectRequest { .. } => MessageType::ConnectRequest,
        ClientToServerMessage::DisconnectRequest { .. } => MessageType::DisconnectRequest,
        ClientToServerMessage::SendMessage { .. } => MessageType::SendMessage,
        ClientToServerMessage::Ack { .. } => MessageType::Ack,
        ClientToServerMessage::Heartbeat { .. } => MessageType::Heartbeat,
        ClientToServerMessage::KeyExchange { .. } => MessageType::KeyExchange,
        ClientToServerMessage::RelayRequest { .. } => MessageType::RelayRequest,
        ClientToServerMessage::RawEcho { .. } => MessageType::RawEcho,
    }
}

/// The payload bytes of a client message (a token length is written modulo 2^16).
pub open spec fn client_message_wire(m: ClientToServerMessage) -> Seq<u8> {
    match m {
        ClientToServerMessage::AuthRequest { token, client_version } =>
            be16_bytes(token@.len() as u16) + token@ + be32_bytes(client_version),
        ClientToServerMessage::ConnectRequest { peer_id } => peer_id@,
        ClientToServerMessage::DisconnectRequest { reason_code } => be32_bytes(reason_code),
        ClientToServerMessage::SendMessage { recipient_id, data } => recipient_id@ + data@,
        ClientToServerMessage::Ack { acknowledged_message_id } => be64_bytes(acknowledged_message_id),
        ClientToServerMessage::Heartbeat { sequence } => be64_bytes(sequence),
        ClientToServerMessage::KeyExchange { ephemeral_pubkey } => ephemeral_pubkey@,
        ClientToServerMessage::RelayRequest { target_peer_id } => target_peer_id@,
        ClientToServerMessage::RawEcho { payload } => payload@,
    }
}

/// Two client messages are the same variant with the same field values.
pub open spec fn same_client_message(a: ClientToServerMessage, b: ClientToServerMessage) -> bool {
    match (a, b) {
        (
            ClientToServerMessage::AuthRequest { token: t1, client_version: v1 },
            ClientToServerMessage::AuthRequest { token: t2, client_version: v2 },
        ) => t1@ == t2@ && v1 == v2,
        (ClientToServerMessage::ConnectRequest { peer_id: p1 }, ClientToServerMessage::ConnectRequest { peer_id: p2 }) =>
            p1@ == p2@,
        (
            ClientToServerMessage::DisconnectRequest { reason_code: c1 },
            ClientToServerMessage::DisconnectRequest { reason_code: c2 },
        ) => c1 == c2,
        (
            ClientToServerMessage::SendMessage { recipient_id: r1, data: d1 },
            ClientToServerMessage::SendMessage { recipient_id: r2, data: d2 },
        ) => r1@ == r2@ && d1@ == d2@,
        (
            ClientToServerMessage::Ack { acknowledged_message_id: a1 },
            ClientToServerMessage::Ack { acknowledged_message_id: a2 },
        ) => a1 == a2,
        (ClientToServerMessage::Heartbeat { sequence: s1 }, ClientToServerMessage::Heartbeat { sequence: s2 }) => s1 == s2,
        (
            ClientToServerMessage::KeyExchange { ephemeral_pubkey: k1 },
            ClientToServerMessage::KeyExchange { ephemeral_pubkey: k2 },
        ) => k1@ == k2@,
        (
            ClientToServerMessage::RelayRequest { target_peer_id: p1 },
            ClientToServerMessage::RelayRequest { target_peer_id: p2 },
        ) => p1@ == p2@,
        (ClientToServerMessage::RawEcho { payload: p1 }, ClientToServerMessage::RawEcho { payload: p2 }) => p1@ == p2@,
        _ => false,
    }
}

/// The error for a payload of `actual` bytes where `expected` were needed.
pub open spec fn too_short<T>(expected: int, actual: int) -> Result<T, ProtocolError> {
    Err(ProtocolError::FrameTooShort { expected: expected as usize, actual: actual as usize })
}

/// What decoding payload `b` as a client message of type `t` gives.
pub open spec fn client_decoded(t: MessageType, b: Seq<u8>, r: Result<ClientToServerMessage, ProtocolError>) -> bool {
    let n = b.len() as int;
    match t {
        MessageType::AuthRequest => if n < 2 {
            r == too_short::<ClientToServerMessage>(2, n)
        } else if n - 2 < be16_at(b, 0) + 4 {
            r == too_short::<ClientToServerMessage>(be16_at(b, 0) + 4, n - 2)
        } else {
            let tl = be16_at(b, 0) as int;
            r matches Ok(ClientToServerMessage::AuthRequest { token, client_version }) && token@ == b.subrange(2, 2 + tl)
                && client_version == be32_at(b, 2 + tl)
        },
        MessageType::ConnectRequest => if n < 32 {
            r == too_short::<ClientToServerMessage>(32, n)
        } else {
            r matches Ok(ClientToServerMessage::ConnectRequest { peer_id }) && peer_id@ == b.subrange(0, 32)
        },
        MessageType::DisconnectRequest => if n < 4 {
            r == too_short::<ClientToServerMessage>(4, n)
        } else {
            r == Ok::<ClientToServerMessage, ProtocolError>(ClientToServerMessage::DisconnectRequest { reason_code: be32_at(b, 0) })
        },
        MessageType::SendMessage => if n < 32 {
            r == too_short::<ClientToServerMessage>(32, n)
        } else {
            r matches Ok(ClientToServerMessage::SendMessage { recipient_id, data }) && recipient_id@ == b.subrange(0, 32)
                && data@ == b.subrange(32, n)
        },
        MessageType::Ack => if n < 8 {
            r == too_short::<ClientToServerMessage>(8, n)
        } else {
            r == Ok::<ClientToServerMessage, ProtocolError>(ClientToServerMessage::Ack { acknowledged_message_id: be64_at(b, 0) })
        },
        MessageType::Heartbeat => if n < 8 {
            r == too_short::<ClientToServerMessage>(8, n)
        } else {
            r == Ok::<ClientToServerMessage, ProtocolError>(ClientToServerMessage::Heartbeat { sequence: be64_at(b, 0) })
        },
        MessageType::KeyExchange => if n < 32 {
            r == too_short::<ClientToServerMessage>(32, n)
        } else {
            r matches Ok(ClientToServerMessage::KeyExchange { ephemeral_pubkey }) && ephemeral_pubkey@ == b.subrange(0, 32)
        },
        MessageType::RelayRequest => if n < 32 {
            r == too_short::<ClientToServerMessage>(32, n)
        } else {
            r matches Ok(ClientToServerMessage::RelayRequest { target_peer_id }) && target_peer_id@ == b.subrange(0, 32)
        },
        MessageType::RawEcho => r matches Ok(ClientToServerMessage::RawEcho { payload }) && payload@ == b,
        _ => r == Err::<ClientToServerMessage, ProtocolError>(ProtocolError::UnexpectedDirection),
    }
}

impl ClientToServerMessage {
    /// The message type of this message.
    pub fn message_type(&self) -> (r: MessageType)
        ensures
            r == client_message_type(*self),
    {
        match self {
            ClientToServerMessage::AuthRequest { .. } => MessageType::AuthRequest,
            ClientToServerMessage::ConnectRequest { .. } => MessageType::ConnectRequest,
            ClientToServerMessage::DisconnectRequest { .. } => MessageType::DisconnectRequest,
            ClientToServerMessage::SendMessage { .. } => MessageType::SendMessage,
            ClientToServerMessage::Ack { .. } => MessageType::Ack,
            ClientToServerMessage::Heartbeat { .. } => MessageType::Heartbeat,
            ClientToServerMessage::KeyExchange { .. } => MessageType::KeyExchange,
            ClientToServerMessage::RelayRequest { .. } => MessageType::RelayRequest,
            ClientToServerMessage::RawEcho { .. } => MessageType::RawEcho,
        }
    }

    /// The payload bytes of this message.
    pub fn encode(&self) -> (r: Vec<u8>)
        ensures
            r@ == client_message_wire(*self),
    {
        let mut buf: Vec<u8> = Vec::new();
        match self {
            ClientToServerMessage::AuthRequest { token, client_version } => {
                put_u16(&mut buf, token.len() as u16);
                put_slice(&mut buf, token.as_slice());
                put_u32(&mut buf, *client_version);
            },
            ClientToServerMessage::ConnectRequest { peer_id } => {
                put_slice(&mut buf, peer_id.as_slice());
            },
            ClientToServerMessage::DisconnectRequest { reason_code } => {
                put_u32(&mut buf, *reason_code);
            },
            ClientToServerMessage::SendMessage { recipient_id, data } => {
                put_slice(&mut buf, recipient_id.as_slice());
                put_slice(&mut buf, data.as_slice());
            },
            ClientToServerMessage::Ack { acknowledged_message_id } => {
                put_u64(&mut buf, *acknowledged_message_id);
            },
            ClientToServerMessage::Heartbeat { sequence } => {
                put_u64(&mut buf, *sequence);
            },
            ClientToServerMessage::KeyExchange { ephemeral_pubkey } => {
                put_slice(&mut buf, ephemeral_pubkey.as_slice());
            },
            ClientToServerMessage::RelayRequest { target_peer_id } => {
                put_slice(&mut buf, target_peer_id.as_slice());
            },
            ClientToServerMessage::RawEcho { payload } => {
                put_slice(&mut buf, payload.as_slice());
            },
        }
        assert(buf@ =~= client_message_wire(*self));
        buf
    }

    /// Decodes the payload of an envelope of type `msg_type`; server-to-client
    /// types are refused with `UnexpectedDirection`.
    pub fn decode(msg_type: MessageType, payload: &Vec<u8>) -> (r: Result<Self, ProtocolError>)
        ensures
            client_decoded(msg_type, payload@, r),
    {
        let slice = payload.as_slice();
        let n = slice.len();
        match msg_type {
            MessageType::AuthRequest => {
                if n < 2 {
                    return Err(ProtocolError::FrameTooShort { expected: 2, actual: n });
                }
                let token_len = get_u16(slice, 0) as usize;
                if n - 2 < token_len + 4 {
                    return Err(ProtocolError::FrameTooShort { expected: token_len + 4, actual: n - 2 });
                }
                let token = copy_range(slice, 2, 2 + token_len);
                let client_version = get_u32(slice, 2 + token_len);
                Ok(ClientToServerMessage::AuthRequest { token, client_version })
            },
            MessageType::ConnectRequest => {
                if n < 32 {
                    return Err(ProtocolError::FrameTooShort { expected: 32, actual: n });
                }
                Ok(ClientToServerMessage::ConnectRequest { peer_id: copy_array32(slice, 0) })
            },
            MessageType::DisconnectRequest => {
                if n < 4 {
                    return Err(ProtocolError::FrameTooShort { expected: 4, actual: n });
                }
                Ok(ClientToServerMessage::DisconnectRequest { reason_code: get_u32(slice, 0) })
            },
            MessageType::SendMessage => {
                if n < 32 {
                    return Err(ProtocolError::FrameTooShort { expected: 32, actual: n });
                }
                let recipient_id = copy_array32(slice, 0);
                let data = copy_range(slice, 32, n);
                Ok(ClientToServerMessage::SendMessage { recipient_id, data })
            },
            MessageType::Ack => {
                if n < 8 {
                    return Err(ProtocolError::FrameTooShort { expected: 8, actual: n });
                }
                Ok(ClientToServerMessage::Ack { acknowledged_message_id: get_u64(slice, 0) })
            },
            MessageType::Heartbeat => {
                if n < 8 {
                    return Err(ProtocolError::FrameTooShort { expected: 8, actual: n });
                }
                Ok(ClientToServerMessage::Heartbeat { sequence: get_u64(slice, 0) })
            },
            MessageType::KeyExchange => {
                if n < 32 {
                    return Err(ProtocolError::FrameTooShort { expected: 32, actual: n });
                }
                Ok(ClientToServerMessage::KeyExchange { ephemeral_pubkey: copy_array32(slice, 0) })
            },
            MessageType::RelayRequest => {
                if n < 32 {
                    return Err(ProtocolError::FrameTooShort { expected: 32, actual: n });
                }
                Ok(ClientToServerMessage::RelayRequest { target_peer_id: copy_array32(slice, 0) })
            },
            MessageType::RawEcho => {
                let copy = copy_range(slice, 0, n);
                assert(copy@ =~= payload@);
                Ok(ClientToServerMessage::RawEcho { payload: copy })
            },
            _ => Err(ProtocolError::UnexpectedDirection),
        }
    }
}

/// Decoding the payload bytes of a client message under its own type gives the
/// message back, provided an authentication token fits its 16-bit length field.
pub proof fn lemma_client_message_roundtrip(m: ClientToServerMessage)
    requires
        m matches ClientToServerMessage::AuthRequest { token, .. } ==> token@.len() <= 0xffff,
    ensures
        forall|r: Result<ClientToServerMessage, ProtocolError>|
            client_decoded(client_message_type(m), client_message_wire(m), r) <==> (r matches Ok(d)
                && same_client_message(d, m)),
{
    let b = client_message_wire(m);
    match m {
        ClientToServerMessage::AuthRequest { token, client_version } => {
            let tl: int = token@.len() as int;
            assert(b.subrange(0, 2) =~= be16_bytes(tl as u16));
            crate::protocol::wire::lemma_be16_roundtrip(tl as u16, b, 0);
            assert(b.subrange(2, 2 + tl) =~= token@);
            assert(b.subrange(2 + tl, 6 + tl) =~= be32_bytes(client_version));
            crate::protocol::wire::lemma_be32_roundtrip(client_version, b, 2 + tl);
        },
        ClientToServerMessage::ConnectRequest { peer_id } => {
            assert(b.subrange(0, 32) =~= peer_id@);
        },
        ClientToServerMessage::DisconnectRequest { reason_code } => {
            assert(b.subrange(0, 4) =~= be32_bytes(reason_code));
            crate::protocol::wire::lemma_be32_roundtrip(reason_code, b, 0);
        },
        ClientToServerMessage::SendMessage { recipient_id, data } => {
            assert(b.subrange(0, 32) =~= recipient_id@);
            assert(b.subrange(32, b.len() as int) =~= data@);
        },
        ClientToServerMessage::Ack { acknowledged_message_id } => {
            assert(b.subrange(0, 8) =~= be64_bytes(acknowledged_message_id));
            crate::protocol::wire::lemma_be64_roundtrip(acknowledged_message_id, b, 0);
        },
        ClientToServerMessage::Heartbeat { sequence } => {
            assert(b.subrange(0, 8) =~= be64_bytes(sequence));
            crate::protocol::wire::lemma_be64_roundtrip(sequence, b, 0);
        },
        ClientToServerMessage::KeyExchange { ephemeral_pubkey } => {
            assert(b.subrange(0, 32) =~= ephemeral_pubkey@);
        },
        ClientToServerMessage::RelayRequest { target_peer_id } => {
            assert(b.subrange(0, 32) =~= target_peer_id@);
        },
        ClientToServerMessage::RawEcho { payload } => {},
    }
}

/// The rendering of a client message for logs: tokens, keys and message data
/// are left out; peer ids appear in hexadecimal; payloads only by their length.
pub open spec fn client_message_debug_text(m: ClientToServerMessage) -> Seq<char> {
    match m {
        ClientToServerMessage::AuthRequest { client_version, .. } => "AuthRequest { token: \"[REDACTED]\", client_version: "@
            + decimal_text(client_version as nat) + " }"@,
        ClientToServerMessage::ConnectRequest { peer_id } => "ConnectRequest { peer_id: "@ + quoted(
            ascii_chars(hex_bytes(peer_id@)),
        ) + " }"@,
        ClientToServerMessage::DisconnectRequest { reason_code } => "DisconnectRequest { reason_code: "@ + decimal_text(
            reason_code as nat,
        ) + " }"@,
        ClientToServerMessage::SendMessage { recipient_id, data } => "SendMessage { recipient_id: "@ + quoted(
            ascii_chars(hex_bytes(recipient_id@)),
        ) + ", data_len: "@ + decimal_text(data@.len()) + ", data: \"[REDACTED]\" }"@,
        ClientToServerMessage::Ack { acknowledged_message_id } => "Ack { acknowledged_message_id: "@ + decimal_text(
            acknowledged_message_id as nat,
        ) + " }"@,
        ClientToServerMessage::Heartbeat { sequence } => "Heartbeat { sequence: "@ + decimal_text(sequence as nat) + " }"@,
        ClientToServerMessage::KeyExchange { .. } => "KeyExchange { ephemeral_pubkey: \"[REDACTED]\" }"@,
        ClientToServerMessage::RelayRequest { target_peer_id } => "RelayRequest { target_peer_id: "@ + quoted(
            ascii_chars(hex_bytes(target_peer_id@)),
        ) + " }"@,
        ClientToServerMessage::RawEcho { payload } => "RawEcho { payload_len: "@ + decimal_text(payload@.len()) + " }"@,
    }
}

/// `a`, then `b`, then `c`.
fn join3(a: &str, b: &str, c: &str) -> (r: String)
    ensures
        r@ == a@ + b@ + c@,
{
    let ab = concat_text(a, b);
    concat_text(ab.as_str(), c)
}

impl ClientToServerMessage {
    /// A rendering for logs that leaves tokens, keys and message data out.
    pub fn debug_text(&self) -> (r: String)
        ensures
            r@ == client_message_debug_text(*self),
    {
        let r = match self {
            ClientToServerMessage::AuthRequest { client_version, .. } => join3(
                "AuthRequest { token: \"[REDACTED]\", client_version: ",
                decimal_string(*client_version as u64).as_str(),
                " }",
            ),
            ClientToServerMessage::ConnectRequest { peer_id } => join3(
                "ConnectRequest { peer_id: ",
                quote_text(hex_encode(peer_id.as_slice()).as_str()).as_str(),
                " }",
            ),
            ClientToServerMessage::DisconnectRequest { reason_code } => join3(
                "DisconnectRequest { reason_code: ",
                decimal_string(*reason_code as u64).as_str(),
                " }",
            ),
            ClientToServerMessage::SendMessage { recipient_id, data } => {
                let a = join3(
                    "SendMessage { recipient_id: ",
                    quote_text(hex_encode(recipient_id.as_slice()).as_str()).as_str(),
                    ", data_len: ",
                );
                join3(a.as_str(), decimal_string(data.len() as u64).as_str(), ", data: \"[REDACTED]\" }")
            },
            ClientToServerMessage::Ack { acknowledged_message_id } => join3(
                "Ack { acknowledged_message_id: ",
                decimal_string(*acknowledged_message_id).as_str(),
                " }",
            ),
            ClientToServerMessage::Heartbeat { sequence } => join3(
                "Heartbeat { sequence: ",
                decimal_string(*sequence).as_str(),
                " }",
            ),
            ClientToServerMessage::KeyExchange { .. } => "KeyExchange { ephemeral_pubkey: \"[REDACTED]\" }".to_string(),
            ClientToServerMessage::RelayRequest { target_peer_id } => join3(
                "RelayRequest { target_peer_id: ",
                quote_text(hex_encode(target_peer_id.as_slice()).as_str()).as_str(),
                " }",
            ),
            ClientToServerMessage::RawEcho { payload } => join3(
                "RawEcho { payload_len: ",
                decimal_string(payload.len() as u64).as_str(),
                " }",
            ),
        };
        proof {
            assert(r@ =~= client_message_debug_text(*self));
        }
        r
    }
}

/// Whether two client messages agree on what their renderings show: the same
/// variant, with equal fields apart from the token and the ephemeral key, and
/// message data or payloads of equal length.
pub open spec fn client_visible_fields_agree(a: ClientToServerMessage, b: ClientToServerMessage) -> bool {
    match (a, b) {
        (
            ClientToServerMessage::AuthRequest { client_version: v, .. },
            ClientToServerMessage::AuthRequest { client_version: w, .. },
        ) => v == w,
        (
            ClientToServerMessage::SendMessage { recipient_id: r, data: d },
            ClientToServerMessage::SendMessage { recipient_id: q, data: e },
        ) => r == q && d@.len() == e@.len(),
        (ClientToServerMessage::KeyExchange { .. }, ClientToServerMessage::KeyExchange { .. }) => true,
        (ClientToServerMessage::RawEcho { payload: p }, ClientToServerMessage::RawEcho { payload: q }) => p@.len()
            == q@.len(),
        _ => a == b,
    }
}

/// The rendering of a client message never shows a token, an ephemeral key
/// or message data: messages that differ only there render alike.
pub proof fn lemma_client_debug_hides_secrets(a: ClientToServerMessage, b: ClientToServerMessage)
    requires
        client_visible_fields_agree(a, b),
    ensures
        client_message_debug_text(a) == client_message_debug_text(b),
{
}

} // verus!
