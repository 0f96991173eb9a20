//! Framing of server messages: each goes in a version-1 envelope under a
//! fresh message id, inside a frame for the client's session.
use vstd::prelude::*;

use crate::clock::unix_time_secs;
use crate::error::{protocol_error_text, ProtocolError, RoutingError};
use crate::protocol::codec::EnvelopeCodec;
use crate::protocol::envelope::{envelope_bytes, MAX_ENVELOPE_PAYLOAD_SIZE};
use crate::protocol::frame::{Frame, Nonce, SessionId, MAX_PAYLOAD_SIZE};
use crate::protocol::messages::server_to_client::{server_message_type, server_message_wire, ServerToClientMessage};
use crate::server::routed_listener::zero_nonce;

verus! {

/// The frame that carries `message` for `session_id`: a version-1,
/// flag-free envelope with this message id, correlation id and timestamp,
/// under the all-zero nonce. A message too large for an envelope is refused
/// as a failed handler, with the protocol error's message.
pub fn build_server_frame(
    session_id: SessionId,
    correlation_id: u64,
    message: &ServerToClientMessage,
    message_id: u64,
    timestamp: u64,
) -> (r: Result<Frame, RoutingError>)
    ensures
        server_message_wire(*message).len() <= MAX_ENVELOPE_PAYLOAD_SIZE ==> (r matches Ok(f) && f.session_id
            == session_id && f.nonce@ == zero_nonce() && f.payload@ == envelope_bytes(
            1,
            server_message_type(*message),
            0,
            message_id,
            correlation_id,
            timestamp,
            server_message_wire(*message),
        )),
        server_message_wire(*message).len() > MAX_ENVELOPE_PAYLOAD_SIZE ==> (r matches Err(RoutingError::HandlerFailed(m))
            && m@ == protocol_error_text(
            ProtocolError::PayloadTooLarge {
                actual: server_message_wire(*message).len() as usize,
                max: MAX_ENVELOPE_PAYLOAD_SIZE,
            },
        )),
{
    let encoded = match EnvelopeCodec::encode_server_message(message, message_id, correlation_id, timestamp) {
        Ok(b) => b,
        Err(e) => return Err(RoutingError::HandlerFailed(e.describe())),
    };
    let nonce: Nonce = [0u8, 0u8, 0u8, 0u8, 0u8, 0u8, 0u8, 0u8];
    assert(nonce@ =~= zero_nonce());
    match Frame::new(session_id, nonce, encoded) {
        Ok(f) => Ok(f),
        Err(e) => Err(RoutingError::HandlerFailed(e.describe())),
    }
}

/// Outbound router: frames SERVER → CLIENT messages and events, numbering
/// them from a counter shared by its clones; `connection_manager` is what
/// sends them.
#[derive(Clone)]
pub struct ServerOutboundRouter<M> {
    connection_manager: M,
    msg_id_counter: std::sync::Arc<std::sync::atomic::AtomicU64>,
}

impl<M> ServerOutboundRouter<M> {
    /// The connections the framed messages go to.
    pub closed spec fn connections(&self) -> M {
        self.connection_manager
    }

    /// A router over `connection_manager` whose message ids start at 1.
    pub fn new(connection_manager: M) -> (r: Self)
        ensures
            r.connections() == connection_manager,
    {
        ServerOutboundRouter {
            connection_manager,
            msg_id_counter: std::sync::Arc::new(std::sync::atomic::AtomicU64::new(1)),
        }
    }

    /// The connections the framed messages go to.
    pub fn connection_manager(&self) -> (r: &M)
        ensures
            *r == self.connections(),
    {
        &self.connection_manager
    }

    /// Takes the next message id from the shared counter.
    fn next_message_id(&self) -> (r: u64) {
        self.msg_id_counter.fetch_add(1, std::sync::atomic::Ordering::Relaxed)
    }

    /// Frames `message` for `session_id` under the next message id and the
    /// current time: `build_server_frame` with those two values.
    pub fn build_frame(&self, session_id: SessionId, correlation_id: u64, message: &ServerToClientMessage) -> (r: Result<
        Frame,
        RoutingError,
    >)
        ensures
            server_message_wire(*message).len() <= MAX_ENVELOPE_PAYLOAD_SIZE ==> (r matches Ok(f) && f.session_id
                == session_id && f.nonce@ == zero_nonce() && exists|message_id: u64, timestamp: u64|
                f.payload@ == #[trigger] envelope_bytes(
                1,
                server_message_type(*message),
                0,
                message_id,
                correlation_id,
                timestamp,
                server_message_wire(*message),
            )),
            server_message_wire(*message).len() > MAX_ENVELOPE_PAYLOAD_SIZE ==> (r matches Err(
                RoutingError::HandlerFailed(m),
            ) && m@ == protocol_error_text(
                ProtocolError::PayloadTooLarge {
                    actual: server_message_wire(*message).len() as usize,
                    max: MAX_ENVELOPE_PAYLOAD_SIZE,
                },
            )),
    {
        let message_id = self.next_message_id();
        let timestamp = unix_time_secs();
        build_server_frame(session_id, correlation_id, message, message_id, timestamp)
    }
}

} // verus!
