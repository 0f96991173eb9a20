//! Framing of client messages: each goes in a version-1 envelope under a
//! fresh message id, inside a frame for the client's session.
use vstd::prelude::*;

use tokio::sync::mpsc::Sender;

use crate::clock::unix_time_secs;
use crate::error::{protocol_error_text, ProtocolError, RoutingError};
use crate::protocol::codec::EnvelopeCodec;
use crate::protocol::envelope::{envelope_bytes, MAX_ENVELOPE_PAYLOAD_SIZE};
use crate::protocol::frame::{Frame, Nonce, SessionId};
use crate::protocol::messages::client_to_server::{client_message_type, client_message_wire, ClientToServerMessage};
use crate::server::routed_listener::zero_nonce;

verus! {

/// The frame that carries `message` for `session_id`: a version-1,
/// flag-free envelope with this message id, no correlation id and this
/// timestamp, under the all-zero nonce. A message too large for an envelope
/// is refused as a failed handler, with the protocol error's message.
pub fn build_client_frame(session_id: SessionId, message: &ClientToServerMessage, message_id: u64, timestamp: u64) -> (r:
    Result<Frame, RoutingError>)
    ensures
        client_message_wire(*message).len() <= MAX_ENVELOPE_PAYLOAD_SIZE ==> (r matches Ok(f) && f.session_id
            == session_id && f.nonce@ == zero_nonce() && f.payload@ == envelope_bytes(
            1,
            client_message_type(*message),
            0,
            message_id,
            0,
            timestamp,
            client_message_wire(*message),
        )),
        client_message_wire(*message).len() > MAX_ENVELOPE_PAYLOAD_SIZE ==> (r matches Err(RoutingError::HandlerFailed(m))
            && m@ == protocol_error_text(
            ProtocolError::PayloadTooLarge {
                actual: client_message_wire(*message).len() as usize,
                max: MAX_ENVELOPE_PAYLOAD_SIZE,
            },
        )),
{
    let encoded = match EnvelopeCodec::encode_client_message(message, message_id, 0, timestamp) {
        Ok(b) => b,
        Err(e) => return Err(RoutingError::HandlerFailed(e.describe())),
    };
    let nonce: Nonce = [0u8, 0u8, 0u8, 0u8, 0u8, 0u8, 0u8, 0u8];
    assert(nonce@ =~= zero_nonce());
    match Frame::new(session_id, nonce, encoded) {
        Ok(f) => Ok(f),
        Err(e) => Err(RoutingError::HandlerFailed(e.describe())),
    }
}

/// Client outbound router: numbers outgoing requests from a counter shared
/// by its clones, frames them, and holds the channel they are queued on.
#[derive(Clone)]
pub struct ClientOutboundRouter {
    outbound_tx: Sender<Frame>,
    counter: std::sync::Arc<std::sync::atomic::AtomicU64>,
}

impl ClientOutboundRouter {
    /// The channel outgoing frames are queued on.
    pub closed spec fn channel(&self) -> Sender<Frame> {
        self.outbound_tx
    }

    /// A router over `outbound_tx` whose message ids start at 1.
    pub fn new(outbound_tx: Sender<Frame>) -> (r: Self)
        ensures
            r.channel() == outbound_tx,
    {
        ClientOutboundRouter { outbound_tx, counter: std::sync::Arc::new(std::sync::atomic::AtomicU64::new(1)) }
    }

    /// Next available unique message ID.
    pub fn next_message_id(&self) -> (r: u64) {
        self.counter.fetch_add(1, std::sync::atomic::Ordering::Relaxed)
    }

    /// The channel outgoing frames are queued on.
    pub fn outbound_channel(&self) -> (r: Sender<Frame>)
        ensures
            r == self.channel(),
    {
        self.outbound_tx.clone()
    }

    /// Frames `message` for `session_id` under the next message id and the
    /// current time, and gives back that id with the frame.
    pub fn prepare_message(&self, session_id: SessionId, message: &ClientToServerMessage) -> (r: Result<
        (u64, Frame),
        RoutingError,
    >)
        ensures
            client_message_wire(*message).len() <= MAX_ENVELOPE_PAYLOAD_SIZE ==> (r matches Ok((id, f)) && f.session_id
                == session_id && f.nonce@ == zero_nonce() && exists|timestamp: u64|
                f.payload@ == #[trigger] envelope_bytes(
                1,
                client_message_type(*message),
                0,
                id,
                0,
                timestamp,
                client_message_wire(*message),
            )),
            client_message_wire(*message).len() > MAX_ENVELOPE_PAYLOAD_SIZE ==> (r matches Err(
                RoutingError::HandlerFailed(m),
            ) && m@ == protocol_error_text(
                ProtocolError::PayloadTooLarge {
                    actual: client_message_wire(*message).len() as usize,
                    max: MAX_ENVELOPE_PAYLOAD_SIZE,
                },
            )),
    {
        let message_id = self.next_message_id();
        let timestamp = unix_time_secs();
        match build_client_frame(session_id, message, message_id, timestamp) {
            Ok(f) => {
                assert(f.payload@ == envelope_bytes(
                    1,
                    client_message_type(*message),
                    0,
                    message_id,
                    0,
                    timestamp,
                    client_message_wire(*message),
                ));
                let r: Result<(u64, Frame), RoutingError> = Ok((message_id, f));
                assert(r matches Ok((id, g)) && id == message_id && g == f);
                r
            },
            Err(e) => Err(e),
        }
    }
}

} // verus!
