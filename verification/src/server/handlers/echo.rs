//! Echo requests.
use vstd::prelude::*;

use crate::error::RoutingError;
use crate::protocol::envelope::{message_type_code, MessageEnvelope};
use crate::protocol::messages::client_to_server::{client_message_type, ClientToServerMessage};
use crate::protocol::messages::server_to_client::ServerToClientMessage;
use crate::protocol::wire::put_slice;
use crate::server::services::EchoService;
use crate::server::sessions::session::Session;

verus! {

/// Handler for echo service requests.
pub struct EchoHandler {
    service: EchoService,
}

/// A fresh vector with the same bytes.
fn copy_bytes(b: &Vec<u8>) -> (r: Vec<u8>)
    ensures
        r@ == b@,
{
    let mut out: Vec<u8> = Vec::new();
    put_slice(&mut out, b.as_slice());
    out
}

/// Whether `r` is the echo handler's answer to `message`: a raw echo
/// request, and the data of a send request, come back in a raw echo
/// response; any other message is refused as unhandled.
pub open spec fn echo_answers(message: ClientToServerMessage, r: Result<Option<ServerToClientMessage>, RoutingError>) -> bool {
    match message {
        ClientToServerMessage::RawEcho { payload } => (r matches Ok(Some(ServerToClientMessage::RawEchoResponse { payload: echoed })) && echoed@ == payload@),
        ClientToServerMessage::SendMessage { data, .. } => (r matches Ok(Some(ServerToClientMessage::RawEchoResponse { payload: echoed })) && echoed@ == data@),
        _ => r == Err::<Option<ServerToClientMessage>, RoutingError>(RoutingError::UnhandledMessageType(message_type_code(client_message_type(message)))),
    }
}

impl EchoHandler {
    pub fn new(service: EchoService) -> (r: Self) {
        EchoHandler { service }
    }

    /// A raw echo request, and the data of a send request, are echoed back
    /// in a raw echo response; any other message is refused as unhandled.
    pub fn handle(&self, envelope: &MessageEnvelope, message: &ClientToServerMessage, session: &Session) -> (r: Result<
        Option<ServerToClientMessage>,
        RoutingError,
    >)
        ensures
            echo_answers(*message, r),
    {
        match message {
            ClientToServerMessage::RawEcho { payload } => {
                let echoed = self.service.process_echo(copy_bytes(payload));
                Ok(Some(ServerToClientMessage::RawEchoResponse { payload: echoed }))
            },
            ClientToServerMessage::SendMessage { data, .. } => {
                let echoed = self.service.process_echo(copy_bytes(data));
                Ok(Some(ServerToClientMessage::RawEchoResponse { payload: echoed }))
            },
            _ => Err(RoutingError::UnhandledMessageType(message.message_type().to_u8())),
        }
    }
}

} // verus!
