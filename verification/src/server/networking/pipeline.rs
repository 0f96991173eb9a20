//! What the server pipeline does with an incoming frame: frames for neither
//! the echo service nor the connection's session are dropped silently;
//! structured messages go to their handler, whose answer (or a generic error)
//! goes back; raw payloads sent to the echo service are echoed.
use vstd::prelude::*;

use crate::config::ECHO_SERVICE_PEER_ID;
use crate::error::{ProtocolError, RoutingError};
use crate::protocol::codec::EnvelopeCodec;
use crate::protocol::envelope::{envelope_decoded, MessageEnvelope, MessageType, MAX_ENVELOPE_PAYLOAD_SIZE};
use crate::protocol::frame::{constant_time_eq, frame_new_result, Frame, Nonce, SessionId};
use crate::protocol::messages::client_to_server::{client_decoded, ClientToServerMessage};
use crate::protocol::messages::server_to_client::ServerToClientMessage;
use crate::protocol::wire::put_slice;
use crate::protocol::versioning::ProtocolVersion;

verus! {

/// What the pipeline does with an incoming frame.
pub enum FrameDisposition {
    /// Drop silently: the frame is for neither the echo service nor this session.
    Ignore,
    /// Refresh the session, then dispatch this structured message.
    Dispatch { envelope: MessageEnvelope, message: ClientToServerMessage },
    /// Refresh the session, then dispatch this raw echo request and answer
    /// with the echoed payload.
    Echo { envelope: MessageEnvelope, message: ClientToServerMessage },
    /// Refresh the session and drop the frame, which holds no message.
    Discard,
}

/// The session id of the echo service: the first 16 bytes of its peer id.
pub open spec fn echo_session_id() -> Seq<u8> {
    ECHO_SERVICE_PEER_ID@.subrange(0, 16)
}

/// `b` decodes to this envelope and this client message.
pub open spec fn decodes_to(b: Seq<u8>, e: MessageEnvelope, m: ClientToServerMessage) -> bool {
    envelope_decoded(b, Ok(e)) && client_decoded(e.message_type, e.payload@, Ok(m))
}

/// Decides what to do with `frame` on a connection whose session is `session_id`.
pub fn frame_disposition(frame: &Frame, session_id: &SessionId) -> (r: Result<FrameDisposition, ProtocolError>)
    ensures
        frame.session_id@ != echo_session_id() && frame.session_id@ != session_id@ ==> (r matches Ok(
            FrameDisposition::Ignore,
        )),
        frame.session_id@ == echo_session_id() || frame.session_id@ == session_id@ ==> {
            &&& r matches Ok(FrameDisposition::Dispatch { envelope, message }) ==> decodes_to(frame.payload@, envelope, message)
            &&& !(r matches Ok(FrameDisposition::Dispatch { .. })) ==> forall|e: MessageEnvelope, m: ClientToServerMessage|
                !decodes_to(frame.payload@, e, m)
            &&& !(r matches Ok(FrameDisposition::Dispatch { .. })) && frame.session_id@ != echo_session_id() ==> (r matches Ok(
                FrameDisposition::Discard,
            ))
            &&& !(r matches Ok(FrameDisposition::Dispatch { .. })) && frame.session_id@ == echo_session_id() ==> {
                &&& frame.payload@.len() > MAX_ENVELOPE_PAYLOAD_SIZE ==> r == Err::<FrameDisposition, ProtocolError>(
                    ProtocolError::PayloadTooLarge { actual: frame.payload@.len() as usize, max: MAX_ENVELOPE_PAYLOAD_SIZE },
                )
                &&& frame.payload@.len() <= MAX_ENVELOPE_PAYLOAD_SIZE ==> (r matches Ok(
                    FrameDisposition::Echo { envelope, message: ClientToServerMessage::RawEcho { payload } },
                ) && envelope.version == ProtocolVersion::V1 && envelope.message_type == MessageType::RawEcho
                    && envelope.flags == 0 && envelope.message_id == 0 && envelope.correlation_id == 0
                    && envelope.timestamp == 0 && envelope.payload@ == frame.payload@ && payload@ == frame.payload@)
            }
        },
{
    let echo_id = ECHO_SERVICE_PEER_ID;
    let is_echo_service = constant_time_eq(frame.session_id.as_slice(), crate::protocol::wire::copy_range(echo_id.as_slice(), 0, 16).as_slice());
    let is_current_session = constant_time_eq(frame.session_id.as_slice(), session_id.as_slice());
    if !is_echo_service && !is_current_session {
        return Ok(FrameDisposition::Ignore);
    }
    let ghost b = frame.payload@;
    match EnvelopeCodec::decode_client_message(frame.payload.as_slice()) {
        Ok((envelope, message)) => {
            return Ok(FrameDisposition::Dispatch { envelope, message });
        },
        Err(err) => {
            proof {
                assert forall|e: MessageEnvelope, m: ClientToServerMessage| !decodes_to(b, e, m) by {
                    if envelope_decoded(b, Ok(e)) && envelope_decoded(b, Err(err)) {
                    }
                }
            }
        },
    }
    if is_echo_service {
        let mut request_payload: Vec<u8> = Vec::new();
        put_slice(&mut request_payload, frame.payload.as_slice());
        let mut envelope_payload: Vec<u8> = Vec::new();
        put_slice(&mut envelope_payload, frame.payload.as_slice());
        let message = ClientToServerMessage::RawEcho { payload: request_payload };
        let envelope = match MessageEnvelope::new(message.message_type(), 0, 0, 0, envelope_payload) {
            Ok(e) => e,
            Err(e) => return Err(e),
        };
        Ok(FrameDisposition::Echo { envelope, message })
    } else {
        Ok(FrameDisposition::Discard)
    }
}

/// The answer to a dispatched structured message: the handler's response;
/// error 500 "internal processing error" when the handler failed; nothing
/// when the handler had nothing to say.
pub fn structured_response(outcome: Result<Option<ServerToClientMessage>, RoutingError>) -> (r: Option<ServerToClientMessage>)
    ensures
        outcome matches Ok(o) ==> r == o,
        outcome is Err ==> (r matches Some(ServerToClientMessage::ErrorResponse { code, message }) && code == 500
            && message@ == "internal processing error"@),
{
    match outcome {
        Ok(o) => o,
        Err(_) => {
            let message = "internal processing error".to_string();
            Some(ServerToClientMessage::ErrorResponse { code: 500, message })
        },
    }
}

/// The reply to a raw echo request: when the handler answered with an echo
/// response, a frame with the request's session id and nonce carrying the
/// echoed payload (refused when it does not fit in a frame); nothing for any
/// other outcome.
pub fn echo_reply(
    session_id: SessionId,
    nonce: Nonce,
    outcome: Result<Option<ServerToClientMessage>, RoutingError>,
) -> (r: Result<Option<Frame>, ProtocolError>)
    ensures
        outcome matches Ok(Some(ServerToClientMessage::RawEchoResponse { payload })) ==> (match r {
            Ok(Some(f)) => frame_new_result(session_id, nonce, payload@, Ok(f)),
            Ok(None) => false,
            Err(e) => frame_new_result(session_id, nonce, payload@, Err(e)),
        }),
        !(outcome matches Ok(Some(ServerToClientMessage::RawEchoResponse { .. }))) ==> r == Ok::<Option<Frame>, ProtocolError>(None),
{
    match outcome {
        Ok(Some(ServerToClientMessage::RawEchoResponse { payload })) => match Frame::new(session_id, nonce, payload) {
            Ok(f) => Ok(Some(f)),
            Err(e) => Err(e),
        },
        _ => Ok(None),
    }
}

} // verus!
