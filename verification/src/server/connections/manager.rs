//! The table of active connections, with the sessions and peers bound to them.
use vstd::prelude::*;

use std::collections::HashMap;

use tokio::sync::mpsc::Sender;

use crate::error::RoutingError;
use crate::protocol::frame::{constant_time_eq, Frame, SessionId};
use crate::server::connections::connection::{connection_id_text, Connection, ConnectionId};
use crate::table::{
    distinct_keys, lemma_table_at, lemma_table_dom, lemma_table_push, lemma_table_remove, table_map,
};
use crate::transport::obfuscation::{hex_bytes, hex_encode};
use crate::text::ascii_chars;

verus! {

/// The key of an identifier binding.
pub open spec fn binding_key<const N: usize>(e: ([u8; N], ConnectionId)) -> Seq<u8> {
    e.0@
}

/// The connection number of an identifier binding.
pub open spec fn binding_value<const N: usize>(e: ([u8; N], ConnectionId)) -> u64 {
    e.1.0
}

/// A table binding N-byte identifiers to connections, one binding per identifier.
struct Bindings<const N: usize> {
    entries: Vec<([u8; N], ConnectionId)>,
}

impl<const N: usize> Bindings<N> {
    spec fn wf(&self) -> bool {
        distinct_keys(self.entries@, |e: ([u8; N], ConnectionId)| binding_key(e))
    }

    spec fn map(&self) -> Map<Seq<u8>, u64> {
        table_map(
            self.entries@,
            |e: ([u8; N], ConnectionId)| binding_key(e),
            |e: ([u8; N], ConnectionId)| binding_value(e),
        )
    }

    fn new() -> (r: Self)
        ensures
            r.wf(),
            r.map() == Map::<Seq<u8>, u64>::empty(),
    {
        Bindings { entries: Vec::new() }
    }

    fn find(&self, id: &[u8; N]) -> (r: Option<usize>)
        ensures
            match r {
                Some(i) => i < self.entries@.len() && self.entries@[i as int].0@ == id@,
                None => forall|i: int| 0 <= i < self.entries@.len() ==> (#[trigger] self.entries@[i]).0@ != id@,
            },
    {
        let n = self.entries.len();
        let mut i: usize = 0;
        while i < n
            invariant
                n == self.entries@.len(),
                i <= n,
                forall|j: int| 0 <= j < i ==> (#[trigger] self.entries@[j]).0@ != id@,
            decreases n - i,
        {
            if constant_time_eq(self.entries[i].0.as_slice(), id.as_slice()) {
                return Some(i);
            }
            i = i + 1;
        }
        None
    }

    fn get(&self, id: &[u8; N]) -> (r: Option<ConnectionId>)
        requires
            self.wf(),
        ensures
            match r {
                Some(c) => self.map().dom().contains(id@) && self.map()[id@] == c.0,
                None => !self.map().dom().contains(id@),
            },
    {
        let ghost key = |e: ([u8; N], ConnectionId)| binding_key(e);
        let ghost val = |e: ([u8; N], ConnectionId)| binding_value(e);
        proof {
            lemma_table_dom(self.entries@, key, val, id@);
        }
        match self.find(id) {
            Some(i) => {
                proof {
                    lemma_table_at(self.entries@, key, val, i as int);
                }
                Some(self.entries[i].1)
            },
            None => None,
        }
    }

    fn put(&mut self, id: [u8; N], conn: ConnectionId)
        requires
            old(self).wf(),
        ensures
            final(self).wf(),
            final(self).map() == old(self).map().insert(id@, conn.0),
    {
        let ghost key = |e: ([u8; N], ConnectionId)| binding_key(e);
        let ghost val = |e: ([u8; N], ConnectionId)| binding_value(e);
        let ghost s0 = self.entries@;
        match self.find(&id) {
            Some(i) => {
                proof {
                    lemma_table_remove(s0, key, val, i as int);
                }
                let _ = self.entries.remove(i);
            },
            None => {
                proof {
                    lemma_table_dom(s0, key, val, id@);
                    assert(table_map(s0, key, val).remove(id@) =~= table_map(s0, key, val));
                }
            },
        }
        let ghost s1 = self.entries@;
        proof {
            lemma_table_dom(s1, key, val, id@);
        }
        self.entries.push((id, conn));
        proof {
            lemma_table_push(s1, key, val, (id, conn));
            assert(self.map() =~= table_map(s0, key, val).insert(id@, conn.0));
        }
    }

    /// Removes every binding to `conn`.
    fn unbind(&mut self, conn: ConnectionId)
        requires
            old(self).wf(),
        ensures
            final(self).wf(),
            final(self).map() == old(self).map().restrict(
                old(self).map().dom().filter(|k: Seq<u8>| old(self).map()[k] != conn.0),
            ),
    {
        let ghost key = |e: ([u8; N], ConnectionId)| binding_key(e);
        let ghost val = |e: ([u8; N], ConnectionId)| binding_value(e);
        let ghost orig = self.map();
        let mut i: usize = 0;
        while i < self.entries.len()
            invariant
                self.wf(),
                i <= self.entries@.len(),
                forall|k: Seq<u8>| #[trigger]
                    self.map().dom().contains(k) ==> orig.dom().contains(k) && self.map()[k] == orig[k],
                forall|k: Seq<u8>| #[trigger]
                    orig.dom().contains(k) && orig[k] != conn.0 ==> self.map().dom().contains(k),
                forall|j: int| 0 <= j < i ==> (#[trigger] self.entries@[j]).1.0 != conn.0,
            decreases self.entries@.len() - i,
        {
            if self.entries[i].1.0 == conn.0 {
                let ghost key = |e: ([u8; N], ConnectionId)| binding_key(e);
                let ghost val = |e: ([u8; N], ConnectionId)| binding_value(e);
                let ghost s0 = self.entries@;
                proof {
                    lemma_table_at(s0, key, val, i as int);
                    lemma_table_remove(s0, key, val, i as int);
                }
                let ghost m0 = table_map(s0, key, val);
                proof {
                    assert(self.map() == m0);
                    assert forall|k: Seq<u8>| m0.dom().contains(k) implies orig.dom().contains(k) && m0[k] == orig[k] by {
                        assert(self.map().dom().contains(k));
                    }
                }
                let _ = self.entries.remove(i);
                proof {
                    assert(self.map() == m0.remove(key(s0[i as int])));
                    assert forall|k: Seq<u8>| #[trigger] self.map().dom().contains(k) implies orig.dom().contains(k)
                        && self.map()[k] == orig[k] by {
                        assert(m0.dom().contains(k));
                    }
                    assert forall|j: int| 0 <= j < i implies (#[trigger] self.entries@[j]).1.0 != conn.0 by {
                        assert(self.entries@[j] == s0[j]);
                    }
                }
            } else {
                i = i + 1;
            }
        }
        proof {
            let kept = orig.restrict(orig.dom().filter(|k: Seq<u8>| orig[k] != conn.0));
            assert forall|k: Seq<u8>| self.map().dom().contains(k) implies orig[k] != conn.0 by {
                lemma_table_dom(self.entries@, key, val, k);
                let j = choose|j: int| 0 <= j < self.entries@.len() && key(#[trigger] self.entries@[j]) == k;
                lemma_table_at(self.entries@, key, val, j);
            }
            assert(self.map() =~= kept);
        }
    }
}

/// Manager for active physical connections and the sessions and peers bound
/// to them; `A` is the type of a peer's network address.
pub struct ConnectionManager<A> {
    connections: HashMap<u64, Connection<A>>,
    session_to_conn: Bindings<16>,
    peer_to_conn: Bindings<32>,
}

/// What the table records of a connection: its peer's address and its
/// outbound channel.
pub open spec fn connection_value<A>(c: Connection<A>) -> (A, Sender<Frame>) {
    (c.peer_addr, c.outbound_tx)
}

impl<A> ConnectionManager<A> {
    #[verifier::type_invariant]
    spec fn tables_keyed(self) -> bool {
        &&& self.session_to_conn.wf()
        &&& self.peer_to_conn.wf()
    }

    /// The active connections: connection number → (peer address, outbound channel).
    pub closed spec fn connections(&self) -> Map<u64, (A, Sender<Frame>)> {
        self.connections@.map_values(|c: Connection<A>| connection_value(c))
    }

    /// Which connection each session id is bound to.
    pub closed spec fn sessions(&self) -> Map<Seq<u8>, u64> {
        self.session_to_conn.map()
    }

    /// Which connection each peer id is bound to.
    pub closed spec fn peers(&self) -> Map<Seq<u8>, u64> {
        self.peer_to_conn.map()
    }

    /// An empty manager.
    pub fn new() -> (r: Self)
        ensures
            r.connections() == Map::<u64, (A, Sender<Frame>)>::empty(),
            r.sessions() == Map::<Seq<u8>, u64>::empty(),
            r.peers() == Map::<Seq<u8>, u64>::empty(),
    {
        let r = ConnectionManager {
            connections: HashMap::new(),
            session_to_conn: Bindings::new(),
            peer_to_conn: Bindings::new(),
        };
        assert(r.connections() =~= Map::<u64, (A, Sender<Frame>)>::empty());
        r
    }

    /// Registers a newly accepted connection under `conn_id` (replacing any
    /// connection under that number) and returns the identifier.
    pub fn register(&mut self, conn_id: ConnectionId, peer_addr: A, outbound_tx: Sender<Frame>) -> (r: ConnectionId)
        ensures
            r == conn_id,
            final(self).connections() == old(self).connections().insert(conn_id.0, (peer_addr, outbound_tx)),
            final(self).sessions() == old(self).sessions(),
            final(self).peers() == old(self).peers(),
    {
        broadcast use vstd::std_specs::hash::group_hash_axioms;

        proof {
            use_type_invariant(&*self);
        }
        let conn = Connection::new(conn_id, peer_addr, outbound_tx);
        let mut table = HashMap::new();
        std::mem::swap(&mut table, &mut self.connections);
        let ghost t0 = table@;
        let _ = table.insert(conn_id.0, conn);
        self.connections = table;
        assert(self.connections() =~= old(self).connections().insert(conn_id.0, (peer_addr, outbound_tx))) by {
            assert(self.connections@ == t0.insert(conn_id.0, conn));
        }
        conn_id
    }

    /// Removes a connection and every session and peer bound to it.
    pub fn unregister(&mut self, conn_id: ConnectionId)
        ensures
            final(self).connections() == old(self).connections().remove(conn_id.0),
            final(self).sessions() == old(self).sessions().restrict(
                old(self).sessions().dom().filter(|k: Seq<u8>| old(self).sessions()[k] != conn_id.0),
            ),
            final(self).peers() == old(self).peers().restrict(
                old(self).peers().dom().filter(|k: Seq<u8>| old(self).peers()[k] != conn_id.0),
            ),
    {
        broadcast use vstd::std_specs::hash::group_hash_axioms;

        proof {
            use_type_invariant(&*self);
        }
        let mut table = HashMap::new();
        std::mem::swap(&mut table, &mut self.connections);
        let ghost t0 = table@;
        let _ = table.remove(&conn_id.0);
        assert(table@ == t0.remove(conn_id.0));
        let mut sessions = Bindings::new();
        std::mem::swap(&mut sessions, &mut self.session_to_conn);
        sessions.unbind(conn_id);
        let mut peers = Bindings::new();
        std::mem::swap(&mut peers, &mut self.peer_to_conn);
        peers.unbind(conn_id);
        *self = ConnectionManager { connections: table, session_to_conn: sessions, peer_to_conn: peers };
        assert(self.connections() =~= old(self).connections().remove(conn_id.0));
    }

    /// Binds a session, and a peer when one is given, to a connection.
    pub fn bind_session(&mut self, conn_id: ConnectionId, session_id: SessionId, peer_id: Option<[u8; 32]>)
        ensures
            final(self).connections() == old(self).connections(),
            final(self).sessions() == old(self).sessions().insert(session_id@, conn_id.0),
            final(self).peers() == match peer_id {
                Some(p) => old(self).peers().insert(p@, conn_id.0),
                None => old(self).peers(),
            },
    {
        proof {
            use_type_invariant(&*self);
        }
        let mut sessions = Bindings::new();
        std::mem::swap(&mut sessions, &mut self.session_to_conn);
        sessions.put(session_id, conn_id);
        let mut peers = Bindings::new();
        std::mem::swap(&mut peers, &mut self.peer_to_conn);
        match peer_id {
            Some(pid) => peers.put(pid, conn_id),
            None => {},
        }
        let mut table = HashMap::new();
        std::mem::swap(&mut table, &mut self.connections);
        *self = ConnectionManager { connections: table, session_to_conn: sessions, peer_to_conn: peers };
    }

    /// The outbound channel of the connection `conn_id`, or
    /// `DestinationNotFound` with the connection's text.
    pub fn connection_sender(&self, conn_id: ConnectionId) -> (r: Result<Sender<Frame>, RoutingError>)
        ensures
            self.connections().dom().contains(conn_id.0) <==> r is Ok,
            r matches Ok(tx) ==> tx == self.connections()[conn_id.0].1,
            r matches Err(e) ==> (e matches RoutingError::DestinationNotFound(t) && t@ == connection_id_text(conn_id)),
    {
        broadcast use vstd::std_specs::hash::group_hash_axioms;

        match self.connections.get(&conn_id.0) {
            Some(c) => Ok(c.outbound_tx.clone()),
            None => Err(RoutingError::DestinationNotFound(conn_id.to_text())),
        }
    }

    /// The connection a peer is bound to, or `DestinationNotFound` with the
    /// peer id in hexadecimal.
    pub fn peer_connection(&self, peer_id: &[u8; 32]) -> (r: Result<ConnectionId, RoutingError>)
        ensures
            match r {
                Ok(c) => self.peers().dom().contains(peer_id@) && self.peers()[peer_id@] == c.0,
                Err(e) => !self.peers().dom().contains(peer_id@) && (e matches RoutingError::DestinationNotFound(t)
                    && t@ == ascii_chars(hex_bytes(peer_id@))),
            },
    {
        proof {
            use_type_invariant(self);
        }
        match self.peer_to_conn.get(peer_id) {
            Some(c) => Ok(c),
            None => Err(RoutingError::DestinationNotFound(hex_encode(peer_id.as_slice()))),
        }
    }

    /// The number of active connections.
    pub fn active_connections(&self) -> (r: usize)
        ensures
            r == self.connections().len(),
    {
        broadcast use vstd::std_specs::hash::group_hash_axioms;

        assert(self.connections().dom() =~= self.connections@.dom());
        self.connections.len()
    }
}

} // verus!
