//! A physical network connection and its identifier.
use vstd::prelude::*;

use tokio::sync::mpsc::Sender;

use crate::clock::instant_now;
use crate::protocol::frame::Frame;
use crate::text::{concat_text, decimal_string, decimal_text};

verus! {

/// Unique identifier for a physical network connection.
#[derive(Debug, Clone, Copy, PartialEq, Eq, PartialOrd, Ord, Hash)]
pub struct ConnectionId(pub u64);

/// The text of a connection identifier: `conn#` and its number.
pub open spec fn connection_id_text(id: ConnectionId) -> Seq<char> {
    "conn#"@ + decimal_text(id.0 as nat)
}

impl ConnectionId {
    /// The text of this identifier, `conn#` and its number.
    pub fn to_text(&self) -> (r: String)
        ensures
            r@ == connection_id_text(*self),
    {
        concat_text("conn#", decimal_string(self.0).as_str())
    }
}

/// Represents an active physical connection channel; `A` is the type of the
/// peer's network address.
pub struct Connection<A> {
    pub id: ConnectionId,
    pub peer_addr: A,
    pub connected_at: std::time::Instant,
    pub outbound_tx: Sender<Frame>,
}

impl<A> Connection<A> {
    /// A connection accepted now.
    pub fn new(id: ConnectionId, peer_addr: A, outbound_tx: Sender<Frame>) -> (r: Self)
        ensures
            r.id == id,
            r.peer_addr == peer_addr,
            r.outbound_tx == outbound_tx,
    {
        Connection { id, peer_addr, connected_at: instant_now(), outbound_tx }
    }
}

} // verus!
