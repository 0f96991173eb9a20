//! An authenticated logical communication session.
use vstd::prelude::*;

use crate::clock::instant_now;
use crate::protocol::frame::SessionId;

verus! {

/// Represents an authenticated logical communication session.
#[derive(Clone, Copy)]
pub struct Session {
    pub session_id: SessionId,
    pub peer_id: Option<[u8; 32]>,
    pub authenticated_at: std::time::Instant,
    pub last_seen: std::time::Instant,
}

impl Session {
    /// A session authenticated now and last seen at the same moment.
    pub fn new(session_id: SessionId, peer_id: Option<[u8; 32]>) -> (r: Self)
        ensures
            r.session_id == session_id,
            r.peer_id == peer_id,
            r.last_seen == r.authenticated_at,
    {
        let now = instant_now();
        Session { session_id, peer_id, authenticated_at: now, last_seen: now }
    }

    /// Records that the session was seen now; nothing else changes.
    pub fn touch(&mut self)
        ensures
            final(self).session_id == old(self).session_id,
            final(self).peer_id == old(self).peer_id,
            final(self).authenticated_at == old(self).authenticated_at,
    {
        self.last_seen = instant_now();
    }
}

} // verus!
