//! The client-side session context.
use vstd::prelude::*;

use crate::config::ECHO_SERVICE_PEER_ID;
use crate::protocol::frame::SessionId;
use crate::protocol::wire::copy_array16;

verus! {

/// The client-side session context; `A` is the type of the server's network address.
#[derive(Clone)]
pub struct ClientSession<A> {
    pub session_id: SessionId,
    pub server_addr: A,
    pub is_authenticated: bool,
}

impl<A> ClientSession<A> {
    /// A session with the echo service's session id, not yet authenticated.
    pub fn new(server_addr: A) -> (r: Self)
        ensures
            r.session_id@ == ECHO_SERVICE_PEER_ID@.subrange(0, 16),
            r.server_addr == server_addr,
            !r.is_authenticated,
    {
        let echo_id = ECHO_SERVICE_PEER_ID;
        let session_id = copy_array16(echo_id.as_slice(), 0);
        ClientSession { session_id, server_addr, is_authenticated: false }
    }

    /// The same session under another session id.
    pub fn with_session_id(self, session_id: SessionId) -> (r: Self)
        ensures
            r.session_id == session_id,
            r.server_addr == self.server_addr,
            r.is_authenticated == self.is_authenticated,
    {
        ClientSession { session_id, server_addr: self.server_addr, is_authenticated: self.is_authenticated }
    }
}

} // verus!
