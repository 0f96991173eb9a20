//! What the client does with an incoming server message: a response that
//! answers a request wakes the request; everything else is an event for the
//! registered handlers. A frame that holds no envelope is taken as a raw
//! echo response.
use vstd::prelude::*;

use crate::protocol::envelope::{MessageEnvelope, MessageType, MAX_ENVELOPE_PAYLOAD_SIZE};
use crate::protocol::messages::server_to_client::{server_message_type, ServerToClientMessage};
use crate::protocol::envelope::is_response_code;
use crate::protocol::envelope::message_type_code;
use crate::protocol::versioning::ProtocolVersion;
use crate::protocol::wire::put_slice;

verus! {

/// The request a server message answers: its correlation id, when the
/// message is a response and the id is not 0; `None` for events and
/// uncorrelated messages.
pub fn correlation_target(envelope: &MessageEnvelope, message: &ServerToClientMessage) -> (r: Option<u64>)
    ensures
        r == (if is_response_code(message_type_code(server_message_type(*message))) && envelope.correlation_id != 0 {
            Some(envelope.correlation_id)
        } else {
            None
        }),
{
    if message.is_response() && envelope.correlation_id != 0 {
        Some(envelope.correlation_id)
    } else {
        None
    }
}

/// The envelope and message a frame payload without an envelope stands for:
/// a raw echo response carrying the payload, in a version-1 envelope with no
/// ids and no timestamp.
pub fn synthetic_echo(payload: &[u8]) -> (r: (MessageEnvelope, ServerToClientMessage))
    requires
        payload@.len() <= MAX_ENVELOPE_PAYLOAD_SIZE,
    ensures
        r.0.version == ProtocolVersion::V1,
        r.0.message_type == MessageType::RawEchoResponse,
        r.0.flags == 0 && r.0.message_id == 0 && r.0.correlation_id == 0 && r.0.timestamp == 0,
        r.0.payload@ == payload@,
        r.1 matches ServerToClientMessage::RawEchoResponse { payload: p } && p@ == payload@,
{
    let mut message_payload: Vec<u8> = Vec::new();
    put_slice(&mut message_payload, payload);
    let mut envelope_payload: Vec<u8> = Vec::new();
    put_slice(&mut envelope_payload, payload);
    let message = ServerToClientMessage::RawEchoResponse { payload: message_payload };
    match MessageEnvelope::new(message.message_type(), 0, 0, 0, envelope_payload) {
        Ok(envelope) => (envelope, message),
        Err(_) => {
            assert(false);
            (
                MessageEnvelope {
                    version: ProtocolVersion::V1,
                    message_type: MessageType::RawEchoResponse,
                    flags: 0,
                    message_id: 0,
                    correlation_id: 0,
                    timestamp: 0,
                    payload: Vec::new(),
                },
                message,
            )
        },
    }
}

} // verus!
