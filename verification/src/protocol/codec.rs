//! Encoding and decoding of typed messages inside protocol envelopes.
use vstd::prelude::*;

use crate::error::ProtocolError;
use crate::protocol::envelope::{
    envelope_bytes, envelope_decoded, envelope_ok, envelope_payload_of, envelope_type_of,
    MessageEnvelope, MAX_ENVELOPE_PAYLOAD_SIZE,
};
use crate::protocol::messages::client_to_server::{
    client_decoded, client_message_type, client_message_wire, ClientToServerMessage,
};
use crate::protocol::messages::server_to_client::{
    server_decoded, server_message_type, server_message_wire, ServerToClientMessage,
};
use crate::protocol::versioning::ProtocolVersion;

verus! {

/// Codec for encoding and decoding protocol envelopes and typed messages.
pub struct EnvelopeCodec;

/// What wrapping a message payload into a version-1, flag-free envelope gives.
pub open spec fn wrapped(
    t: crate::protocol::envelope::MessageType,
    payload: Seq<u8>,
    message_id: u64,
    correlation_id: u64,
    timestamp: u64,
    r: Result<MessageEnvelope, ProtocolError>,
) -> bool {
    if payload.len() > MAX_ENVELOPE_PAYLOAD_SIZE {
        r == Err::<MessageEnvelope, ProtocolError>(
            ProtocolError::PayloadTooLarge { actual: payload.len() as usize, max: MAX_ENVELOPE_PAYLOAD_SIZE },
        )
    } else {
        r matches Ok(e) && e.version == ProtocolVersion::V1 && e.message_type == t && e.flags == 0
            && e.message_id == message_id && e.correlation_id == correlation_id && e.timestamp == timestamp
            && e.payload@ == payload
    }
}

/// What encoding a message payload into the wire bytes of such an envelope gives.
pub open spec fn wrapped_bytes(
    t: crate::protocol::envelope::MessageType,
    payload: Seq<u8>,
    message_id: u64,
    correlation_id: u64,
    timestamp: u64,
    r: Result<Vec<u8>, ProtocolError>,
) -> bool {
    if payload.len() > MAX_ENVELOPE_PAYLOAD_SIZE {
        r == Err::<Vec<u8>, ProtocolError>(
            ProtocolError::PayloadTooLarge { actual: payload.len() as usize, max: MAX_ENVELOPE_PAYLOAD_SIZE },
        )
    } else {
        r matches Ok(b) && b@ == envelope_bytes(1, t, 0, message_id, correlation_id, timestamp, payload)
    }
}

impl EnvelopeCodec {
    /// Wraps a client message into an envelope and returns its wire bytes.
    pub fn encode_client_message(
        msg: &ClientToServerMessage,
        message_id: u64,
        correlation_id: u64,
        timestamp: u64,
    ) -> (r: Result<Vec<u8>, ProtocolError>)
        ensures
            wrapped_bytes(client_message_type(*msg), client_message_wire(*msg), message_id, correlation_id, timestamp, r),
    {
        let envelope = match Self::wrap_client_message(msg, message_id, correlation_id, timestamp) {
            Ok(e) => e,
            Err(e) => return Err(e),
        };
        envelope.to_bytes()
    }

    /// Decodes an envelope and the client message it carries.
    pub fn decode_client_message(bytes: &[u8]) -> (r: Result<(MessageEnvelope, ClientToServerMessage), ProtocolError>)
        ensures
            r matches Ok((e, m)) ==> envelope_decoded(bytes@, Ok(e)) && client_decoded(e.message_type, e.payload@, Ok(m)),
            r matches Err(err) ==> envelope_decoded(bytes@, Err(err)) || (envelope_ok(bytes@) && client_decoded(
                envelope_type_of(bytes@),
                envelope_payload_of(bytes@),
                Err(err),
            )),
    {
        let envelope = match MessageEnvelope::decode(bytes) {
            Ok(e) => e,
            Err(e) => return Err(e),
        };
        let msg = match ClientToServerMessage::decode(envelope.message_type, &envelope.payload) {
            Ok(m) => m,
            Err(e) => return Err(e),
        };
        Ok((envelope, msg))
    }

    /// Wraps a server message into an envelope and returns its wire bytes.
    pub fn encode_server_message(
        msg: &ServerToClientMessage,
        message_id: u64,
        correlation_id: u64,
        timestamp: u64,
    ) -> (r: Result<Vec<u8>, ProtocolError>)
        ensures
            wrapped_bytes(server_message_type(*msg), server_message_wire(*msg), message_id, correlation_id, timestamp, r),
    {
        let envelope = match Self::wrap_server_message(msg, message_id, correlation_id, timestamp) {
            Ok(e) => e,
            Err(e) => return Err(e),
        };
        envelope.to_bytes()
    }

    /// Decodes an envelope and the server message it carries.
    pub fn decode_server_message(bytes: &[u8]) -> (r: Result<(MessageEnvelope, ServerToClientMessage), ProtocolError>)
        ensures
            r matches Ok((e, m)) ==> envelope_decoded(bytes@, Ok(e)) && server_decoded(e.message_type, e.payload@, Ok(m)),
            r matches Err(err) ==> envelope_decoded(bytes@, Err(err)) || (envelope_ok(bytes@) && server_decoded(
                envelope_type_of(bytes@),
                envelope_payload_of(bytes@),
                Err(err),
            )),
    {
        let envelope = match MessageEnvelope::decode(bytes) {
            Ok(e) => e,
            Err(e) => return Err(e),
        };
        let msg = match ServerToClientMessage::decode(envelope.message_type, &envelope.payload) {
            Ok(m) => m,
            Err(e) => return Err(e),
        };
        Ok((envelope, msg))
    }

    /// Wraps a client message into an envelope.
    pub fn wrap_client_message(
        msg: &ClientToServerMessage,
        message_id: u64,
        correlation_id: u64,
        timestamp: u64,
    ) -> (r: Result<MessageEnvelope, ProtocolError>)
        ensures
            wrapped(client_message_type(*msg), client_message_wire(*msg), message_id, correlation_id, timestamp, r),
    {
        let payload = msg.encode();
        MessageEnvelope::new(msg.message_type(), message_id, correlation_id, timestamp, payload)
    }

    /// Wraps a server response or event into an envelope.
    pub fn wrap_server_message(
        msg: &ServerToClientMessage,
        message_id: u64,
        correlation_id: u64,
        timestamp: u64,
    ) -> (r: Result<MessageEnvelope, ProtocolError>)
        ensures
            wrapped(server_message_type(*msg), server_message_wire(*msg), message_id, correlation_id, timestamp, r),
    {
        let payload = msg.encode();
        MessageEnvelope::new(msg.message_type(), message_id, correlation_id, timestamp, payload)
    }
}

} // verus!
