//! The route registry of the routed relay: which connection serves each
//! registered peer, found by its full 32-byte identifier or by the 16-byte
//! prefix that frames carry in their session-id field.
use vstd::prelude::*;

use tokio::sync::mpsc::Sender;

use crate::protocol::codec::EnvelopeCodec;
use crate::error::ProtocolError;
use crate::protocol::envelope::{
    envelope_bytes, envelope_decoded, envelope_ok, envelope_payload_of, envelope_type_of, MessageEnvelope,
    MessageType, MAX_ENVELOPE_PAYLOAD_SIZE,
};
use crate::protocol::frame::{constant_time_eq, Frame, Nonce, MAX_PAYLOAD_SIZE};
use crate::protocol::messages::client_to_server::{client_decoded, ClientToServerMessage};
use crate::protocol::messages::server_to_client::{
    delivery_status_code, server_message_type, server_message_wire, DeliveryStatus, ServerToClientMessage,
};
use crate::protocol::wire::{be16_at, be64_at, be64_bytes, copy_array16, copy_array32, copy_range, get_u16};
use crate::transport::obfuscation::{
    hello_spec, parse_client_hello, ClientHelloStatus, HelloSpec, TokenValidator, MAX_CLIENT_HELLO_SIZE,
    TLS_HANDSHAKE_CONTENT_TYPE,
};

verus! {

/// The session-id value that marks a route registration frame.
pub const ROUTE_REGISTRATION_ID: [u8; 16] = [
    0xF0, 0xF0, 0xF0, 0xF0, 0xF0, 0xF0, 0xF0, 0xF0, 0xF0, 0xF0, 0xF0, 0xF0, 0xF0, 0xF0, 0xF0, 0xF0,
];

/// The session-id value of the (disabled) echo route.
pub const ECHO_ROUTE_ID: [u8; 16] = [
    0xEE, 0xEE, 0xEE, 0xEE, 0xEE, 0xEE, 0xEE, 0xEE, 0xEE, 0xEE, 0xEE, 0xEE, 0xEE, 0xEE, 0xEE, 0xEE,
];

/// A 16-byte route identifier (the session-id field of a frame).
pub type RouteId = [u8; 16];

/// A 32-byte peer identifier.
pub type PeerId = [u8; 32];

/// A registered route: the connection that serves a peer and its outbound channel.
pub struct RouteEntry {
    pub connection_id: u64,
    pub peer_id: PeerId,
    pub tx: Sender<Frame>,
}

/// What the registry records of a route: the connection that serves it, the
/// peer it serves, and the outbound channel that reaches that connection.
pub type RouteInfo = (u64, Seq<u8>, Sender<Frame>);

/// What the registry records of an entry: its connection, its peer and its channel.
pub open spec fn route_info(e: RouteEntry) -> RouteInfo {
    (e.connection_id, e.peer_id@, e.tx)
}

/// The 16-byte route prefix of a peer identifier.
pub open spec fn peer_prefix(peer_id: Seq<u8>) -> Seq<u8> {
    peer_id.subrange(0, 16)
}

/// The key under which a table files an entry: the full peer identifier, or its prefix.
pub open spec fn route_key(e: RouteEntry, by_prefix: bool) -> Seq<u8> {
    if by_prefix {
        peer_prefix(e.peer_id@)
    } else {
        e.peer_id@
    }
}

/// The map from keys to entries that a table of entries stands for; a later
/// entry wins over an earlier one with the same key.
pub open spec fn route_map(s: Seq<RouteEntry>, by_prefix: bool) -> Map<Seq<u8>, RouteInfo>
    decreases s.len(),
{
    if s.len() == 0 {
        Map::empty()
    } else {
        route_map(s.drop_last(), by_prefix).insert(route_key(s.last(), by_prefix), route_info(s.last()))
    }
}

/// No key occurs twice in the table.
pub open spec fn keys_distinct(s: Seq<RouteEntry>, by_prefix: bool) -> bool {
    forall|i: int, j: int|
        0 <= i < j < s.len() ==> route_key(#[trigger] s[i], by_prefix) != route_key(#[trigger] s[j], by_prefix)
}

proof fn lemma_route_map_dom(s: Seq<RouteEntry>, by_prefix: bool, k: Seq<u8>)
    ensures
        route_map(s, by_prefix).dom().contains(k) <==> exists|i: int|
            0 <= i < s.len() && route_key(#[trigger] s[i], by_prefix) == k,
    decreases s.len(),
{
    if s.len() > 0 {
        let d = s.drop_last();
        lemma_route_map_dom(d, by_prefix, k);
        if route_map(s, by_prefix).dom().contains(k) {
            if route_key(s.last(), by_prefix) == k {
                assert(route_key(s[s.len() - 1], by_prefix) == k);
            } else {
                let i = choose|i: int| 0 <= i < d.len() && route_key(#[trigger] d[i], by_prefix) == k;
                assert(s[i] == d[i]);
            }
        } else {
            assert forall|i: int| 0 <= i < s.len() implies route_key(#[trigger] s[i], by_prefix) != k by {
                if i < d.len() {
                    assert(s[i] == d[i]);
                }
            }
        }
    }
}

proof fn lemma_route_map_at(s: Seq<RouteEntry>, by_prefix: bool, i: int)
    requires
        keys_distinct(s, by_prefix),
        0 <= i < s.len(),
    ensures
        route_map(s, by_prefix).dom().contains(route_key(s[i], by_prefix)),
        route_map(s, by_prefix)[route_key(s[i], by_prefix)] == route_info(s[i]),
    decreases s.len(),
{
    if i < s.len() - 1 {
        let d = s.drop_last();
        assert(d[i] == s[i]);
        assert(keys_distinct(d, by_prefix)) by {
            assert forall|a: int, b: int| 0 <= a < b < d.len() implies route_key(#[trigger] d[a], by_prefix)
                != route_key(#[trigger] d[b], by_prefix) by {
                assert(d[a] == s[a] && d[b] == s[b]);
            }
        }
        lemma_route_map_at(d, by_prefix, i);
        assert(route_key(s[i], by_prefix) != route_key(s[s.len() - 1], by_prefix));
    }
}

proof fn lemma_distinct_drop_last(s: Seq<RouteEntry>, by_prefix: bool)
    requires
        keys_distinct(s, by_prefix),
        s.len() > 0,
    ensures
        keys_distinct(s.drop_last(), by_prefix),
        !route_map(s.drop_last(), by_prefix).dom().contains(route_key(s.last(), by_prefix)),
{
    let d = s.drop_last();
    assert forall|a: int, b: int| 0 <= a < b < d.len() implies route_key(#[trigger] d[a], by_prefix)
        != route_key(#[trigger] d[b], by_prefix) by {
        assert(d[a] == s[a] && d[b] == s[b]);
    }
    lemma_route_map_dom(d, by_prefix, route_key(s.last(), by_prefix));
    assert forall|i: int| 0 <= i < d.len() implies route_key(#[trigger] d[i], by_prefix) != route_key(
        s.last(),
        by_prefix,
    ) by {
        assert(d[i] == s[i]);
        assert(s.last() == s[s.len() - 1]);
    }
}

proof fn lemma_route_map_len(s: Seq<RouteEntry>, by_prefix: bool)
    requires
        keys_distinct(s, by_prefix),
    ensures
        route_map(s, by_prefix).dom().finite(),
        route_map(s, by_prefix).len() == s.len(),
    decreases s.len(),
{
    if s.len() > 0 {
        lemma_distinct_drop_last(s, by_prefix);
        lemma_route_map_len(s.drop_last(), by_prefix);
    }
}

proof fn lemma_route_map_remove(s: Seq<RouteEntry>, by_prefix: bool, i: int)
    requires
        keys_distinct(s, by_prefix),
        0 <= i < s.len(),
    ensures
        keys_distinct(s.remove(i), by_prefix),
        route_map(s.remove(i), by_prefix) == route_map(s, by_prefix).remove(route_key(s[i], by_prefix)),
    decreases s.len(),
{
    let r = s.remove(i);
    assert forall|a: int, b: int| 0 <= a < b < r.len() implies route_key(#[trigger] r[a], by_prefix)
        != route_key(#[trigger] r[b], by_prefix) by {
        let a2 = if a < i { a } else { a + 1 };
        let b2 = if b < i { b } else { b + 1 };
        assert(r[a] == s[a2] && r[b] == s[b2]);
    }
    lemma_distinct_drop_last(s, by_prefix);
    let d = s.drop_last();
    if i == s.len() - 1 {
        assert(r =~= d);
        assert(route_map(s, by_prefix).remove(route_key(s[i], by_prefix)) =~= route_map(d, by_prefix));
    } else {
        assert(d[i] == s[i]);
        lemma_route_map_remove(d, by_prefix, i);
        assert(r =~= d.remove(i).push(s.last()));
        assert(r.drop_last() =~= d.remove(i));
        assert(r.last() == s.last());
        assert(route_key(s[i], by_prefix) != route_key(s[s.len() - 1], by_prefix));
        assert(route_map(r, by_prefix) =~= route_map(s, by_prefix).remove(route_key(s[i], by_prefix)));
    }
}

impl RouteEntry {
    /// A second entry for the same connection and peer, over another handle to its channel.
    pub fn duplicate(&self) -> (r: RouteEntry)
        ensures
            r.connection_id == self.connection_id,
            r.peer_id == self.peer_id,
            r.tx == self.tx,
    {
        RouteEntry { connection_id: self.connection_id, peer_id: self.peer_id, tx: self.tx.clone() }
    }
}

/// The 16-byte prefix of a peer identifier.
pub fn route_prefix(peer_id: &PeerId) -> (r: RouteId)
    ensures
        r@ == peer_prefix(peer_id@),
{
    copy_array16(peer_id.as_slice(), 0)
}

/// Whether the entry is filed under `key` in the table keyed as given.
fn entry_has_key(e: &RouteEntry, key: &[u8], by_prefix: bool) -> (r: bool)
    ensures
        r == (route_key(*e, by_prefix) == key@),
{
    if by_prefix {
        let p = route_prefix(&e.peer_id);
        constant_time_eq(p.as_slice(), key)
    } else {
        constant_time_eq(e.peer_id.as_slice(), key)
    }
}

/// The position of the entry filed under `key`, if any.
fn find_route(table: &Vec<RouteEntry>, key: &[u8], by_prefix: bool) -> (r: Option<usize>)
    ensures
        match r {
            Some(i) => i < table@.len() && route_key(table@[i as int], by_prefix) == key@,
            None => forall|i: int| 0 <= i < table@.len() ==> route_key(#[trigger] table@[i], by_prefix) != key@,
        },
{
    let n = table.len();
    let mut i: usize = 0;
    while i < n
        invariant
            n == table@.len(),
            i <= n,
            forall|j: int| 0 <= j < i ==> route_key(#[trigger] table@[j], by_prefix) != key@,
        decreases n - i,
    {
        if entry_has_key(&table[i], key, by_prefix) {
            return Some(i);
        }
        i = i + 1;
    }
    None
}

/// Files `e` under its key, replacing (and handing back) the entry it displaces.
fn table_put(table: &mut Vec<RouteEntry>, e: RouteEntry, key: &[u8], by_prefix: bool) -> (r: Option<RouteEntry>)
    requires
        keys_distinct(old(table)@, by_prefix),
        route_key(e, by_prefix) == key@,
    ensures
        keys_distinct(final(table)@, by_prefix),
        route_map(final(table)@, by_prefix) == route_map(old(table)@, by_prefix).insert(key@, route_info(e)),
        match r {
            Some(p) => route_map(old(table)@, by_prefix).dom().contains(key@) && route_map(old(table)@, by_prefix)[key@]
                == route_info(p),
            None => !route_map(old(table)@, by_prefix).dom().contains(key@),
        },
{
    let ghost s0 = table@;
    match find_route(table, key, by_prefix) {
        Some(i) => {
            proof {
                lemma_route_map_at(s0, by_prefix, i as int);
                lemma_route_map_remove(s0, by_prefix, i as int);
            }
            let previous = table.remove(i);
            let ghost s1 = table@;
            table.push(e);
            proof {
                assert(table@.drop_last() =~= s1);
                lemma_route_map_dom(s1, by_prefix, key@);
                assert forall|a: int, b: int| 0 <= a < b < table@.len() implies route_key(#[trigger] table@[a], by_prefix)
                    != route_key(#[trigger] table@[b], by_prefix) by {
                    if b == table@.len() - 1 {
                        assert(table@[a] == s1[a]);
                        if route_key(s1[a], by_prefix) == key@ {
                            assert(route_map(s1, by_prefix).dom().contains(key@));
                        }
                    } else {
                        assert(table@[a] == s1[a] && table@[b] == s1[b]);
                    }
                }
                assert(route_map(table@, by_prefix) =~= route_map(s0, by_prefix).insert(key@, route_info(e)));
            }
            Some(previous)
        },
        None => {
            proof {
                lemma_route_map_dom(s0, by_prefix, key@);
            }
            table.push(e);
            proof {
                assert(table@.drop_last() =~= s0);
                assert forall|a: int, b: int| 0 <= a < b < table@.len() implies route_key(#[trigger] table@[a], by_prefix)
                    != route_key(#[trigger] table@[b], by_prefix) by {
                    assert(table@[a] == s0[a]);
                    if b < table@.len() - 1 {
                        assert(table@[b] == s0[b]);
                    }
                }
            }
            None
        },
    }
}

/// The registry of routes, by full peer identifier and by route prefix. Each
/// table files at most one entry under a key; registering a peer replaces
/// the previous entry under its identifier and under its prefix.
pub struct RouteRegistryInner {
    by_peer_id: Vec<RouteEntry>,
    by_prefix: Vec<RouteEntry>,
}

impl RouteRegistryInner {
    #[verifier::type_invariant]
    spec fn well_formed(self) -> bool {
        keys_distinct(self.by_peer_id@, false) && keys_distinct(self.by_prefix@, true)
    }

    /// The routes by full peer identifier: peer → (connection, peer, channel).
    pub closed spec fn peers(&self) -> Map<Seq<u8>, RouteInfo> {
        route_map(self.by_peer_id@, false)
    }

    /// The routes by 16-byte prefix: prefix → (connection, peer, channel).
    pub closed spec fn prefixes(&self) -> Map<Seq<u8>, RouteInfo> {
        route_map(self.by_prefix@, true)
    }

    /// An empty registry.
    pub fn new() -> (r: Self)
        ensures
            r.peers() == Map::<Seq<u8>, RouteInfo>::empty(),
            r.prefixes() == Map::<Seq<u8>, RouteInfo>::empty(),
    {
        RouteRegistryInner { by_peer_id: Vec::new(), by_prefix: Vec::new() }
    }

    /// Registers `peer_id` on `connection_id`, under its identifier and its
    /// prefix, and hands back the entry it replaces under its identifier.
    pub fn insert(&mut self, peer_id: PeerId, connection_id: u64, tx: Sender<Frame>) -> (r: Option<RouteEntry>)
        ensures
            final(self).peers() == old(self).peers().insert(peer_id@, (connection_id, peer_id@, tx)),
            final(self).prefixes() == old(self).prefixes().insert(peer_prefix(peer_id@), (connection_id, peer_id@, tx)),
            match r {
                Some(e) => old(self).peers().dom().contains(peer_id@) && old(self).peers()[peer_id@] == route_info(e),
                None => !old(self).peers().dom().contains(peer_id@),
            },
    {
        proof {
            use_type_invariant(&*self);
        }
        let prefix = route_prefix(&peer_id);
        let entry = RouteEntry { connection_id, peer_id, tx };
        let prefix_entry = entry.duplicate();
        let mut by_prefix = Vec::new();
        std::mem::swap(&mut by_prefix, &mut self.by_prefix);
        let _ = table_put(&mut by_prefix, prefix_entry, prefix.as_slice(), true);
        let mut by_peer_id = Vec::new();
        std::mem::swap(&mut by_peer_id, &mut self.by_peer_id);
        let previous = table_put(&mut by_peer_id, entry, peer_id.as_slice(), false);
        *self = RouteRegistryInner { by_peer_id, by_prefix };
        previous
    }

    /// Unregisters `peer_id` when `connection_id` is the connection currently
    /// registered for it, removing both its identifier route and its prefix
    /// route; a stale connection leaves the registry unchanged. Tells whether
    /// it removed anything.
    pub fn remove_connection(&mut self, peer_id: &PeerId, connection_id: u64) -> (r: bool)
        ensures
            r == (old(self).peers().dom().contains(peer_id@) && old(self).peers()[peer_id@].0 == connection_id),
            r ==> final(self).peers() == old(self).peers().remove(peer_id@),
            r ==> final(self).prefixes() == old(self).prefixes().remove(peer_prefix(peer_id@)),
            !r ==> final(self).peers() == old(self).peers() && final(self).prefixes() == old(self).prefixes(),
    {
        proof {
            use_type_invariant(&*self);
        }
        let ghost s0 = self.by_peer_id@;
        let found = find_route(&self.by_peer_id, peer_id.as_slice(), false);
        proof {
            lemma_route_map_dom(s0, false, peer_id@);
        }
        let i = match found {
            Some(i) => i,
            None => return false,
        };
        proof {
            lemma_route_map_at(s0, false, i as int);
        }
        if self.by_peer_id[i].connection_id != connection_id {
            return false;
        }
        let prefix = route_prefix(peer_id);
        let mut by_peer_id = Vec::new();
        std::mem::swap(&mut by_peer_id, &mut self.by_peer_id);
        proof {
            lemma_route_map_remove(s0, false, i as int);
        }
        let _ = by_peer_id.remove(i);
        let mut by_prefix = Vec::new();
        std::mem::swap(&mut by_prefix, &mut self.by_prefix);
        let ghost p0 = by_prefix@;
        match find_route(&by_prefix, prefix.as_slice(), true) {
            Some(j) => {
                proof {
                    lemma_route_map_remove(p0, true, j as int);
                }
                let _ = by_prefix.remove(j);
            },
            None => {
                proof {
                    lemma_route_map_dom(p0, true, prefix@);
                    assert(route_map(p0, true).remove(prefix@) =~= route_map(p0, true));
                }
            },
        }
        *self = RouteRegistryInner { by_peer_id, by_prefix };
        true
    }

    /// The entry registered for `peer_id`, if any.
    pub fn get_by_peer_id(&self, peer_id: &PeerId) -> (r: Option<RouteEntry>)
        ensures
            match r {
                Some(e) => self.peers().dom().contains(peer_id@) && self.peers()[peer_id@] == route_info(e),
                None => !self.peers().dom().contains(peer_id@),
            },
    {
        proof {
            use_type_invariant(self);
            lemma_route_map_dom(self.by_peer_id@, false, peer_id@);
        }
        match find_route(&self.by_peer_id, peer_id.as_slice(), false) {
            Some(i) => {
                proof {
                    lemma_route_map_at(self.by_peer_id@, false, i as int);
                }
                Some(self.by_peer_id[i].duplicate())
            },
            None => None,
        }
    }

    /// The entry registered under the route prefix `prefix`, if any.
    pub fn get_by_prefix(&self, prefix: &RouteId) -> (r: Option<RouteEntry>)
        ensures
            match r {
                Some(e) => self.prefixes().dom().contains(prefix@) && self.prefixes()[prefix@] == route_info(e),
                None => !self.prefixes().dom().contains(prefix@),
            },
    {
        proof {
            use_type_invariant(self);
            lemma_route_map_dom(self.by_prefix@, true, prefix@);
        }
        match find_route(&self.by_prefix, prefix.as_slice(), true) {
            Some(i) => {
                proof {
                    lemma_route_map_at(self.by_prefix@, true, i as int);
                }
                Some(self.by_prefix[i].duplicate())
            },
            None => None,
        }
    }

    /// The number of registered peers.
    pub fn active_count(&self) -> (r: usize)
        ensures
            r == self.peers().len(),
    {
        proof {
            use_type_invariant(self);
            lemma_route_map_len(self.by_peer_id@, false);
        }
        self.by_peer_id.len()
    }
}

impl Default for RouteRegistryInner {
    fn default() -> (r: Self)
        ensures
            r.peers() == Map::<Seq<u8>, RouteInfo>::empty(),
            r.prefixes() == Map::<Seq<u8>, RouteInfo>::empty(),
    {
        RouteRegistryInner::new()
    }
}

/// A frame that a decision sends: to this connection's own channel when
/// `route` is `None`, else to the channel registered for `route`
/// (connection, peer, channel), unregistering that route when the send fails and
/// `unroute_on_failure` holds.
pub struct PlannedSend {
    pub route: Option<RouteInfo>,
    pub unroute_on_failure: bool,
    pub session_id: Seq<u8>,
    pub nonce: Seq<u8>,
    pub payload: Seq<u8>,
}

/// What the connection task does with a frame it decided on.
pub enum RoutedAction {
    /// Queue the frame on this connection's own outbound channel.
    Reply(Frame),
    /// Queue the frame on the channel of a registered route; when that fails
    /// and `unroute_on_failure` holds, unregister the route.
    Deliver { entry: RouteEntry, frame: Frame, unroute_on_failure: bool },
}

/// The action sends what the step plans.
pub open spec fn action_matches(a: RoutedAction, p: PlannedSend) -> bool {
    match a {
        RoutedAction::Reply(f) => p.route is None && f.session_id@ == p.session_id && f.nonce@ == p.nonce
            && f.payload@ == p.payload,
        RoutedAction::Deliver { entry, frame, unroute_on_failure } => p.route == Some(route_info(entry))
            && unroute_on_failure == p.unroute_on_failure && frame.session_id@ == p.session_id
            && frame.nonce@ == p.nonce && frame.payload@ == p.payload,
    }
}

/// The actions carry out the plan, step by step and in order.
pub open spec fn follows_plan(acts: Seq<RoutedAction>, plan: Seq<PlannedSend>) -> bool {
    acts.len() == plan.len() && forall|i: int| 0 <= i < acts.len() ==> action_matches(#[trigger] acts[i], plan[i])
}

/// The all-zero nonce of relay-built frames.
pub open spec fn zero_nonce() -> Seq<u8> {
    seq![0u8, 0u8, 0u8, 0u8, 0u8, 0u8, 0u8, 0u8]
}

/// Sending one message of type `t` and payload `wire` in a version-1,
/// flag-free envelope: one step when it fits in an envelope, none otherwise.
pub open spec fn message_plan(
    route: Option<RouteInfo>,
    unroute_on_failure: bool,
    session_id: Seq<u8>,
    nonce: Seq<u8>,
    t: MessageType,
    wire: Seq<u8>,
    message_id: u64,
    correlation_id: u64,
    timestamp: u64,
) -> Seq<PlannedSend> {
    if wire.len() <= MAX_ENVELOPE_PAYLOAD_SIZE {
        seq![
            PlannedSend {
                route,
                unroute_on_failure,
                session_id,
                nonce,
                payload: envelope_bytes(1, t, 0, message_id, correlation_id, timestamp, wire),
            },
        ]
    } else {
        seq![]
    }
}

/// A frame for `session_id` and `nonce` that carries `msg` in a version-1,
/// flag-free envelope; `None` when the message does not fit in an envelope.
pub fn message_frame(
    session_id: RouteId,
    nonce: Nonce,
    msg: &ServerToClientMessage,
    message_id: u64,
    correlation_id: u64,
    timestamp: u64,
) -> (r: Option<Frame>)
    ensures
        match r {
            Some(f) => server_message_wire(*msg).len() <= MAX_ENVELOPE_PAYLOAD_SIZE && f.session_id == session_id
                && f.nonce == nonce && f.payload@ == envelope_bytes(
                1,
                server_message_type(*msg),
                0,
                message_id,
                correlation_id,
                timestamp,
                server_message_wire(*msg),
            ),
            None => server_message_wire(*msg).len() > MAX_ENVELOPE_PAYLOAD_SIZE,
        },
{
    let envelope = match MessageEnvelope::new(msg.message_type(), message_id, correlation_id, timestamp, msg.encode()) {
        Ok(e) => e,
        Err(_) => return None,
    };
    let bytes = match envelope.to_bytes() {
        Ok(b) => b,
        Err(_) => return None,
    };
    match Frame::new(session_id, nonce, bytes) {
        Ok(f) => Some(f),
        Err(_) => None,
    }
}

/// The frame payload `b` holds a well-formed envelope of type `t` whose
/// payload has at least `min_len` bytes.
pub open spec fn carries_request(b: Seq<u8>, t: MessageType, min_len: int) -> bool {
    envelope_ok(b) && envelope_type_of(b) == t && envelope_payload_of(b).len() >= min_len
}

/// The answer to a send request: its message id, and whether the relay took it.
pub open spec fn send_response_wire(message_id: u64, accepted: bool) -> Seq<u8> {
    be64_bytes(message_id) + seq![if accepted { 1u8 } else { 0u8 }]
}

/// What a registered peer's raw frame leads to: it goes, with its session id
/// rewritten to the sender's prefix, to the route filed under its session id,
/// unless it is addressed to the sender itself or to no registered prefix.
pub open spec fn raw_plan(
    source_prefix: Seq<u8>,
    prefixes: Map<Seq<u8>, RouteInfo>,
    session_id: Seq<u8>,
    nonce: Seq<u8>,
    payload: Seq<u8>,
) -> Seq<PlannedSend> {
    if source_prefix == session_id || !prefixes.dom().contains(session_id) {
        seq![]
    } else {
        seq![
            PlannedSend {
                route: Some(prefixes[session_id]),
                unroute_on_failure: true,
                session_id: source_prefix,
                nonce,
                payload,
            },
        ]
    }
}

/// What a frame from registered peer `source` leads to, given the routes.
/// An envelope with a send request is answered to the sender (accepted only
/// when the recipient is registered and is not the sender) and, when
/// accepted, delivered to the recipient as an incoming-message event; an
/// acknowledgement becomes a delivery-status event for the route filed under
/// the frame's session id; a heartbeat is answered; anything else is routed
/// as a raw frame.
pub open spec fn frame_plan(
    source: Seq<u8>,
    peers: Map<Seq<u8>, RouteInfo>,
    prefixes: Map<Seq<u8>, RouteInfo>,
    session_id: Seq<u8>,
    nonce: Seq<u8>,
    b: Seq<u8>,
) -> Seq<PlannedSend> {
    let sp = peer_prefix(source);
    let pl = envelope_payload_of(b);
    let mid = be64_at(b, 4);
    let ts = be64_at(b, 20);
    if carries_request(b, MessageType::SendMessage, 32) {
        let recipient = pl.subrange(0, 32);
        let data = pl.subrange(32, pl.len() as int);
        if source != recipient && peers.dom().contains(recipient) {
            message_plan(None, false, sp, zero_nonce(), MessageType::SendMessageResponse, send_response_wire(mid, true), mid, mid, ts)
                + message_plan(
                Some(peers[recipient]),
                true,
                sp,
                nonce,
                MessageType::IncomingMessageEvent,
                source + data,
                mid,
                0,
                ts,
            )
        } else {
            message_plan(None, false, sp, zero_nonce(), MessageType::SendMessageResponse, send_response_wire(mid, false), mid, mid, ts)
        }
    } else if carries_request(b, MessageType::Ack, 8) {
        let ack = be64_at(pl, 0);
        if prefixes.dom().contains(session_id) {
            message_plan(
                Some(prefixes[session_id]),
                false,
                sp,
                zero_nonce(),
                MessageType::DeliveryStatusEvent,
                be64_bytes(ack) + seq![delivery_status_code(DeliveryStatus::Delivered)],
                ack,
                ack,
                ts,
            )
        } else {
            seq![]
        }
    } else if carries_request(b, MessageType::Heartbeat, 8) {
        message_plan(None, false, sp, zero_nonce(), MessageType::HeartbeatResponse, be64_bytes(be64_at(pl, 0)), mid, mid, ts)
    } else {
        raw_plan(sp, prefixes, session_id, nonce, b)
    }
}

/// Appends the action for `msg`, when it fits, to `acts`.
fn push_message(
    acts: &mut Vec<RoutedAction>,
    entry: Option<RouteEntry>,
    unroute_on_failure: bool,
    session_id: RouteId,
    nonce: Nonce,
    msg: &ServerToClientMessage,
    message_id: u64,
    correlation_id: u64,
    timestamp: u64,
)
    ensures
        follows_plan(
            final(acts)@.subrange(old(acts)@.len() as int, final(acts)@.len() as int),
            message_plan(
                match entry {
                    Some(e) => Some(route_info(e)),
                    None => None,
                },
                unroute_on_failure,
                session_id@,
                nonce@,
                server_message_type(*msg),
                server_message_wire(*msg),
                message_id,
                correlation_id,
                timestamp,
            ),
        ),
        final(acts)@.subrange(0, old(acts)@.len() as int) == old(acts)@,
        final(acts)@.len() >= old(acts)@.len(),
{
    let ghost n0 = acts@.len();
    match message_frame(session_id, nonce, msg, message_id, correlation_id, timestamp) {
        Some(frame) => {
            match entry {
                Some(e) => acts.push(RoutedAction::Deliver { entry: e, frame, unroute_on_failure }),
                None => acts.push(RoutedAction::Reply(frame)),
            }
            proof {
                let tail = acts@.subrange(n0 as int, acts@.len() as int);
                assert(tail.len() == 1);
                assert(tail[0] == acts@[n0 as int]);
            }
        },
        None => {
            assert(acts@.subrange(n0 as int, acts@.len() as int) =~= Seq::<RoutedAction>::empty());
        },
    }
    assert(acts@.subrange(0, n0 as int) =~= old(acts)@);
}

/// Actions that follow two plans one after the other follow their concatenation.
proof fn lemma_follows_concat(acts: Seq<RoutedAction>, n: int, p1: Seq<PlannedSend>, p2: Seq<PlannedSend>)
    requires
        0 <= n <= acts.len(),
        follows_plan(acts.subrange(0, n), p1),
        follows_plan(acts.subrange(n, acts.len() as int), p2),
    ensures
        follows_plan(acts, p1 + p2),
{
    assert forall|i: int| 0 <= i < acts.len() implies action_matches(#[trigger] acts[i], (p1 + p2)[i]) by {
        if i < n {
            assert(acts.subrange(0, n)[i] == acts[i]);
        } else {
            assert(acts.subrange(n, acts.len() as int)[i - n] == acts[i]);
        }
    }
}

/// The actions for a frame from registered peer `source`, by `frame_plan`.
fn frame_actions(source: &PeerId, routes: &RouteRegistryInner, frame: Frame) -> (r: Vec<RoutedAction>)
    ensures
        follows_plan(
            r@,
            frame_plan(source@, routes.peers(), routes.prefixes(), frame.session_id@, frame.nonce@, frame.payload@),
        ),
{
    let ghost b = frame.payload@;
    let source_prefix = route_prefix(source);
    let zeros: Nonce = [0u8, 0u8, 0u8, 0u8, 0u8, 0u8, 0u8, 0u8];
    assert(zeros@ =~= zero_nonce());
    let mut acts: Vec<RoutedAction> = Vec::new();
    let decoded = EnvelopeCodec::decode_client_message(frame.payload.as_slice());
    proof {
        if decoded is Ok {
            crate::protocol::envelope::lemma_envelope_decoded_ok(b, Ok(decoded->Ok_0.0));
        } else if envelope_decoded(b, Err(decoded->Err_0)) {
            crate::protocol::envelope::lemma_envelope_decoded_ok(b, Err(decoded->Err_0));
        }
    }
    match decoded {
        Ok((envelope, ClientToServerMessage::SendMessage { recipient_id, data })) => {
            let msg_id = envelope.message_id;
            let ts = envelope.timestamp;
            let refused = ServerToClientMessage::SendMessageResponse { message_id: msg_id, accepted: false };
            if constant_time_eq(source.as_slice(), recipient_id.as_slice()) {
                push_message(&mut acts, None, false, source_prefix, zeros, &refused, msg_id, msg_id, ts);
                assert(acts@.subrange(0, acts@.len() as int) =~= acts@);
                return acts;
            }
            match routes.get_by_peer_id(&recipient_id) {
                Some(entry) => {
                    let accepted = ServerToClientMessage::SendMessageResponse { message_id: msg_id, accepted: true };
                    push_message(&mut acts, None, false, source_prefix, zeros, &accepted, msg_id, msg_id, ts);
                    let ghost n = acts@.len();
                    let event = ServerToClientMessage::IncomingMessageEvent { sender_id: *source, data };
                    push_message(&mut acts, Some(entry), true, source_prefix, frame.nonce, &event, msg_id, 0, ts);
                    proof {
                        assert(acts@.subrange(0, n as int).subrange(0, 0) =~= Seq::<RoutedAction>::empty());
                        assert(acts@.subrange(0, n as int) =~= acts@.subrange(0, n as int).subrange(0, n as int));
                        lemma_follows_concat(
                            acts@,
                            n as int,
                            message_plan(None, false, source_prefix@, zeros@, MessageType::SendMessageResponse,
                                send_response_wire(msg_id, true), msg_id, msg_id, ts),
                            message_plan(Some(route_info(entry)), true, source_prefix@, frame.nonce@,
                                MessageType::IncomingMessageEvent, source@ + data@, msg_id, 0, ts),
                        );
                    }
                },
                None => {
                    push_message(&mut acts, None, false, source_prefix, zeros, &refused, msg_id, msg_id, ts);
                    assert(acts@.subrange(0, acts@.len() as int) =~= acts@);
                },
            }
            return acts;
        },
        Ok((envelope, ClientToServerMessage::Ack { acknowledged_message_id })) => {
            match routes.get_by_prefix(&frame.session_id) {
                Some(entry) => {
                    let event = ServerToClientMessage::DeliveryStatusEvent {
                        message_id: acknowledged_message_id,
                        status: DeliveryStatus::Delivered,
                    };
                    push_message(
                        &mut acts,
                        Some(entry),
                        false,
                        source_prefix,
                        zeros,
                        &event,
                        acknowledged_message_id,
                        acknowledged_message_id,
                        envelope.timestamp,
                    );
                    assert(acts@.subrange(0, acts@.len() as int) =~= acts@);
                },
                None => {},
            }
            return acts;
        },
        Ok((envelope, ClientToServerMessage::Heartbeat { sequence })) => {
            let answer = ServerToClientMessage::HeartbeatResponse { sequence };
            push_message(
                &mut acts,
                None,
                false,
                source_prefix,
                zeros,
                &answer,
                envelope.message_id,
                envelope.message_id,
                envelope.timestamp,
            );
            assert(acts@.subrange(0, acts@.len() as int) =~= acts@);
            return acts;
        },
        _ => {},
    }
    if constant_time_eq(source_prefix.as_slice(), frame.session_id.as_slice()) {
        return acts;
    }
    match routes.get_by_prefix(&frame.session_id) {
        Some(entry) => {
            let mut routed = frame;
            routed.session_id = source_prefix;
            acts.push(RoutedAction::Deliver { entry, frame: routed, unroute_on_failure: true });
        },
        None => {},
    }
    acts
}

/// Whether a routed connection accepts an encrypted frame announced with this
/// length: neither empty nor longer than an encrypted frame.
pub fn accepts_frame_length(len: usize) -> (r: bool)
    ensures
        r == (0 < len && len <= crate::transport::noise::ENCRYPTED_FRAME_SIZE),
{
    len != 0 && len <= crate::transport::noise::ENCRYPTED_FRAME_SIZE
}

/// The state of one routed connection: its connection number and the peer
/// it registered, if it registered one.
pub struct RoutedConnection {
    pub connection_id: u64,
    pub registered_peer: Option<PeerId>,
}

impl RoutedConnection {
    /// A connection that has not registered a peer yet.
    pub fn new(connection_id: u64) -> (r: Self)
        ensures
            r.connection_id == connection_id,
            r.registered_peer is None,
    {
        RoutedConnection { connection_id, registered_peer: None }
    }

    /// Decides what one decrypted frame leads to. A registration frame
    /// (session id `ROUTE_REGISTRATION_ID`) with a 32-byte payload registers
    /// that peer on this connection, replacing any earlier route for it; one
    /// with another payload length is ignored. A frame for the echo route,
    /// and any frame before a registration, is dropped. Any other frame is
    /// decided by `frame_plan` for the registered peer, without touching the
    /// registry; the actions come back in the order they are to be taken.
    pub fn handle_frame(&mut self, routes: &mut RouteRegistryInner, own_tx: &Sender<Frame>, frame: Frame) -> (r: Vec<
        RoutedAction,
    >)
        ensures
            final(self).connection_id == old(self).connection_id,
            frame.session_id@ == ROUTE_REGISTRATION_ID@ ==> r@.len() == 0 && if frame.payload@.len() == 32 {
                &&& final(self).registered_peer matches Some(p) && p@ == frame.payload@
                &&& final(routes).peers() == old(routes).peers().insert(
                    frame.payload@,
                    (old(self).connection_id, frame.payload@, *own_tx),
                )
                &&& final(routes).prefixes() == old(routes).prefixes().insert(
                    peer_prefix(frame.payload@),
                    (old(self).connection_id, frame.payload@, *own_tx),
                )
            } else {
                &&& final(self).registered_peer == old(self).registered_peer
                &&& final(routes).peers() == old(routes).peers()
                &&& final(routes).prefixes() == old(routes).prefixes()
            },
            frame.session_id@ != ROUTE_REGISTRATION_ID@ ==> {
                &&& final(self).registered_peer == old(self).registered_peer
                &&& final(routes).peers() == old(routes).peers()
                &&& final(routes).prefixes() == old(routes).prefixes()
                &&& if frame.session_id@ == ECHO_ROUTE_ID@ || old(self).registered_peer is None {
                    r@.len() == 0
                } else {
                    follows_plan(
                        r@,
                        frame_plan(
                            old(self).registered_peer->Some_0@,
                            old(routes).peers(),
                            old(routes).prefixes(),
                            frame.session_id@,
                            frame.nonce@,
                            frame.payload@,
                        ),
                    )
                }
            },
    {
        let registration = ROUTE_REGISTRATION_ID;
        if constant_time_eq(frame.session_id.as_slice(), registration.as_slice()) {
            if frame.payload.len() != 32 {
                return Vec::new();
            }
            let peer_id = copy_array32(frame.payload.as_slice(), 0);
            assert(peer_id@ =~= frame.payload@);
            let _ = routes.insert(peer_id, self.connection_id, own_tx.clone());
            self.registered_peer = Some(peer_id);
            return Vec::new();
        }
        let echo = ECHO_ROUTE_ID;
        if constant_time_eq(frame.session_id.as_slice(), echo.as_slice()) {
            return Vec::new();
        }
        match self.registered_peer {
            Some(source) => frame_actions(&source, routes, frame),
            None => Vec::new(),
        }
    }

    /// Unregisters this connection's peer when the connection ends, unless a
    /// newer connection has registered that peer since; tells whether a
    /// route was removed.
    pub fn finish(&self, routes: &mut RouteRegistryInner) -> (r: bool)
        ensures
            match self.registered_peer {
                Some(p) => {
                    &&& r == (old(routes).peers().dom().contains(p@) && old(routes).peers()[p@].0
                        == self.connection_id)
                    &&& r ==> final(routes).peers() == old(routes).peers().remove(p@)
                        && final(routes).prefixes() == old(routes).prefixes().remove(peer_prefix(p@))
                    &&& !r ==> final(routes).peers() == old(routes).peers() && final(routes).prefixes()
                        == old(routes).prefixes()
                },
                None => !r && final(routes).peers() == old(routes).peers() && final(routes).prefixes()
                    == old(routes).prefixes(),
            },
    {
        match self.registered_peer {
            Some(peer_id) => routes.remove_connection(&peer_id, self.connection_id),
            None => false,
        }
    }
}

/// A send request from registered peer `source` (the frame payload decodes
/// to envelope `q`, a SendMessage whose payload is the recipient's 32-byte
/// id then the data) to another registered peer is first answered to the
/// sender, then delivered on the recipient's route. Both frames name the
/// sender by its prefix. The answer is a SendMessageResponse accepting
/// message `q.message_id`, correlated with it and stamped with `q`'s
/// timestamp; the delivery keeps the client's nonce and is an
/// IncomingMessageEvent with `q`'s message id, correlation id 0 and `q`'s
/// timestamp, carrying the sender's id then the data.
pub proof fn lemma_send_request_delivered_with_its_fields(
    source: Seq<u8>,
    peers: Map<Seq<u8>, RouteInfo>,
    prefixes: Map<Seq<u8>, RouteInfo>,
    session_id: Seq<u8>,
    nonce: Seq<u8>,
    b: Seq<u8>,
    q: MessageEnvelope,
)
    requires
        source.len() == 32,
        envelope_decoded(b, Ok(q)),
        q.message_type == MessageType::SendMessage,
        q.payload@.len() >= 32,
        q.payload@.subrange(0, 32) != source,
        peers.dom().contains(q.payload@.subrange(0, 32)),
    ensures
        ({
            let plan = frame_plan(source, peers, prefixes, session_id, nonce, b);
            &&& plan.len() == 2
            &&& plan[0].route is None
            &&& plan[0].session_id == peer_prefix(source)
            &&& forall|r: Result<MessageEnvelope, ProtocolError>|
                envelope_decoded(plan[0].payload, r) ==> (r matches Ok(d) && d.message_type
                    == MessageType::SendMessageResponse && d.message_id == q.message_id && d.correlation_id
                    == q.message_id && d.timestamp == q.timestamp && d.payload@ == be64_bytes(q.message_id) + seq![1u8])
            &&& plan[1].route == Some(peers[q.payload@.subrange(0, 32)])
            &&& plan[1].unroute_on_failure
            &&& plan[1].session_id == peer_prefix(source)
            &&& plan[1].nonce == nonce
            &&& forall|r: Result<MessageEnvelope, ProtocolError>|
                envelope_decoded(plan[1].payload, r) ==> (r matches Ok(d) && d.message_type
                    == MessageType::IncomingMessageEvent && d.message_id == q.message_id && d.correlation_id == 0
                    && d.timestamp == q.timestamp && d.payload@ == source + q.payload@.subrange(
                    32,
                    q.payload@.len() as int,
                ))
        }),
{
    crate::protocol::envelope::lemma_envelope_decoded_ok(b, Ok(q));
    let pl = envelope_payload_of(b);
    let mid = be64_at(b, 4);
    let ts = be64_at(b, 20);
    let data = pl.subrange(32, pl.len() as int);
    assert(send_response_wire(mid, true) =~= be64_bytes(mid) + seq![1u8]);
    crate::protocol::envelope::lemma_envelope_bytes_decode(
        MessageType::SendMessageResponse,
        0,
        mid,
        mid,
        ts,
        send_response_wire(mid, true),
    );
    crate::protocol::envelope::lemma_envelope_bytes_decode(
        MessageType::IncomingMessageEvent,
        0,
        mid,
        0,
        ts,
        source + data,
    );
}

/// A newer registration of a peer outlives the older connection: after the
/// peer registers on `stale` and then again on `current`, unregistering
/// `stale` (which removes only the route of the connection currently
/// registered) removes nothing, and the peer still routes to `current`.
pub proof fn lemma_stale_unregister_keeps_replacement(
    peers: Map<Seq<u8>, RouteInfo>,
    peer: Seq<u8>,
    stale: u64,
    stale_tx: Sender<Frame>,
    current: u64,
    current_tx: Sender<Frame>,
)
    requires
        stale != current,
    ensures
        ({
            let after = peers.insert(peer, (stale, peer, stale_tx)).insert(peer, (current, peer, current_tx));
            &&& !(after.dom().contains(peer) && after[peer].0 == stale)
            &&& after.dom().contains(peer)
            &&& after[peer] == (current, peer, current_tx)
        }),
{
}

/// Every frame the relay sends on behalf of a registered peer carries that
/// peer's route prefix as its session id, whatever the client put there: a
/// recipient never relies on sender metadata chosen by the client.
pub proof fn lemma_sent_frames_name_their_sender(
    source: Seq<u8>,
    peers: Map<Seq<u8>, RouteInfo>,
    prefixes: Map<Seq<u8>, RouteInfo>,
    session_id: Seq<u8>,
    nonce: Seq<u8>,
    b: Seq<u8>,
)
    ensures
        forall|i: int|
            0 <= i < frame_plan(source, peers, prefixes, session_id, nonce, b).len() ==> (#[trigger] frame_plan(
                source,
                peers,
                prefixes,
                session_id,
                nonce,
                b,
            )[i]).session_id == peer_prefix(source),
{
}

/// What to do next with a new connection, decided from the bytes read so far.
pub enum ConnectionStep {
    /// Read exactly this many more bytes, append them, and decide again.
    ReadMore(usize),
    /// Authenticated: run the Noise session, replaying these bytes first.
    Session(Vec<u8>),
    /// Not a relay client: proxy the connection to the fallback site,
    /// replaying the bytes read so far.
    Fallback,
    /// Nothing was read: close the connection.
    Close,
}

/// A connection step over mathematical values.
pub enum StepSpec {
    ReadMore(int),
    Session(Seq<u8>),
    Fallback,
    Close,
}

/// A connection step over mathematical values.
pub open spec fn step_view(s: ConnectionStep) -> StepSpec {
    match s {
        ConnectionStep::ReadMore(n) => StepSpec::ReadMore(n as int),
        ConnectionStep::Session(b) => StepSpec::Session(b@),
        ConnectionStep::Fallback => StepSpec::Fallback,
        ConnectionStep::Close => StepSpec::Close,
    }
}

/// The bytes after a complete ClientHello record, which belong to the Noise session.
pub open spec fn after_record(initial: Seq<u8>) -> Seq<u8> {
    let consumed = if initial.len() >= 5 { 5 + be16_at(initial, 3) } else { 0 };
    if initial.len() > consumed {
        initial.subrange(consumed, initial.len() as int)
    } else {
        Seq::empty()
    }
}

/// The first two bytes as a big-endian length, or 0 when there are fewer.
pub open spec fn leading_length(initial: Seq<u8>) -> int {
    if initial.len() >= 2 {
        be16_at(initial, 0) as int
    } else {
        0
    }
}

/// How the routed relay treats a connection that sent `initial`. A TLS
/// record must hold a ClientHello whose cover proof the validator accepts
/// (or `dev_mode` holds); a record still arriving asks for the rest when it
/// is longer than what was read and at most `MAX_CLIENT_HELLO_SIZE`. Without
/// a TLS record, a leading length of 32 to 128 starts a direct Noise
/// handshake, but only when `insecure_no_token` holds. Everything else goes
/// to the fallback site.
pub open spec fn routed_step(initial: Seq<u8>, v: TokenValidator, dev_mode: bool, insecure_no_token: bool) -> StepSpec {
    if initial.len() == 0 {
        StepSpec::Close
    } else if initial[0] == TLS_HANDSHAKE_CONTENT_TYPE {
        match hello_spec(initial) {
            HelloSpec::Complete { random, session_id, sni, .. } => if dev_mode || v.accepts_fields(random, session_id, sni) {
                StepSpec::Session(after_record(initial))
            } else {
                StepSpec::Fallback
            },
            HelloSpec::NeedMoreData { expected_record_len } => if expected_record_len > MAX_CLIENT_HELLO_SIZE
                || expected_record_len <= initial.len() {
                StepSpec::Fallback
            } else {
                StepSpec::ReadMore(expected_record_len - initial.len())
            },
            HelloSpec::Invalid(_) => StepSpec::Fallback,
        }
    } else if insecure_no_token && 32 <= leading_length(initial) <= 128 {
        StepSpec::Session(initial)
    } else {
        StepSpec::Fallback
    }
}

/// The bytes after the ClientHello record at the start of `initial`.
pub fn bytes_after_record(initial: &[u8]) -> (r: Vec<u8>)
    ensures
        r@ == after_record(initial@),
{
    let mut consumed: usize = 0;
    if initial.len() >= 5 {
        consumed = 5 + get_u16(initial, 3) as usize;
    }
    if initial.len() > consumed {
        copy_range(initial, consumed, initial.len())
    } else {
        Vec::new()
    }
}

/// The first two bytes as a big-endian length, or 0 when there are fewer.
pub fn initial_length(initial: &[u8]) -> (r: usize)
    ensures
        r == leading_length(initial@),
{
    if initial.len() >= 2 {
        get_u16(initial, 0) as usize
    } else {
        0
    }
}

/// Decides how the routed relay treats a new connection from the bytes it
/// has sent so far; `dev_mode` is the operator's switch that accepts every
/// well-formed ClientHello.
pub fn classify_routed_connection(
    initial: &[u8],
    validator: &TokenValidator,
    dev_mode: bool,
    insecure_no_token: bool,
) -> (r: ConnectionStep)
    ensures
        step_view(r) == routed_step(initial@, *validator, dev_mode, insecure_no_token),
{
    if initial.len() == 0 {
        return ConnectionStep::Close;
    }
    if initial[0] == TLS_HANDSHAKE_CONTENT_TYPE {
        let status = parse_client_hello(initial);
        match status {
            ClientHelloStatus::Complete(parsed) => {
                let authenticated = validator.is_insecure_no_token() || dev_mode || validator.validate(&parsed);
                if authenticated {
                    ConnectionStep::Session(bytes_after_record(initial))
                } else {
                    ConnectionStep::Fallback
                }
            },
            ClientHelloStatus::NeedMoreData { expected_record_len } => {
                if expected_record_len > MAX_CLIENT_HELLO_SIZE || expected_record_len <= initial.len() {
                    ConnectionStep::Fallback
                } else {
                    ConnectionStep::ReadMore(expected_record_len - initial.len())
                }
            },
            ClientHelloStatus::Invalid(_) => ConnectionStep::Fallback,
        }
    } else {
        let msg_len = initial_length(initial);
        if insecure_no_token && 32 <= msg_len && msg_len <= 128 {
            let mut all: Vec<u8> = Vec::new();
            crate::protocol::wire::put_slice(&mut all, initial);
            ConnectionStep::Session(all)
        } else {
            ConnectionStep::Fallback
        }
    }
}

/// How many of `available` bytes one read with room for `room` hands out.
pub open spec fn chunk_len(available: nat, room: nat) -> nat {
    if available < room {
        available
    } else {
        room
    }
}

/// What successive reads of a prefixed stream deliver, in order: read `i`
/// has room for `rooms[i]` bytes; while prefix bytes are pending it hands
/// out the next of them (`read_prefix`), and only then is the stream itself
/// asked, which hands over its next bytes, `takes[i]` of them at most (fewer
/// at its end).
pub open spec fn replayed(pending: Seq<u8>, rest: Seq<u8>, rooms: Seq<nat>, takes: Seq<nat>) -> Seq<u8>
    decreases rooms.len(),
{
    if rooms.len() == 0 || takes.len() == 0 {
        Seq::empty()
    } else if pending.len() > 0 {
        let n = chunk_len(pending.len(), rooms[0]);
        pending.subrange(0, n as int) + replayed(
            pending.subrange(n as int, pending.len() as int),
            rest,
            rooms.drop_first(),
            takes.drop_first(),
        )
    } else {
        let n = chunk_len(rest.len(), takes[0]);
        rest.subrange(0, n as int) + replayed(
            pending,
            rest.subrange(n as int, rest.len() as int),
            rooms.drop_first(),
            takes.drop_first(),
        )
    }
}

/// Successive reads of a prefixed stream replay it faithfully: what they
/// deliver together is always a beginning of the prefix followed by the
/// stream's own bytes, and when every read has room for at least one byte,
/// `k` reads deliver at least the first `k` prefix bytes, so the whole
/// prefix comes out before anything of the stream.
pub proof fn lemma_prefixed_reads_replay(pending: Seq<u8>, rest: Seq<u8>, rooms: Seq<nat>, takes: Seq<nat>)
    ensures
        replayed(pending, rest, rooms, takes).len() <= pending.len() + rest.len(),
        replayed(pending, rest, rooms, takes) == (pending + rest).subrange(
            0,
            replayed(pending, rest, rooms, takes).len() as int,
        ),
        (forall|i: int| 0 <= i < rooms.len() ==> #[trigger] rooms[i] > 0) && takes.len() >= rooms.len()
            ==> replayed(pending, rest, rooms, takes).len() >= (if rooms.len() < pending.len() {
            rooms.len()
        } else {
            pending.len()
        }),
    decreases rooms.len(),
{
    if rooms.len() == 0 || takes.len() == 0 {
        assert((pending + rest).subrange(0, 0) =~= Seq::<u8>::empty());
    } else if pending.len() > 0 {
        let n = chunk_len(pending.len(), rooms[0]);
        let p2 = pending.subrange(n as int, pending.len() as int);
        lemma_prefixed_reads_replay(p2, rest, rooms.drop_first(), takes.drop_first());
        let tail = replayed(p2, rest, rooms.drop_first(), takes.drop_first());
        assert(pending + rest =~= pending.subrange(0, n as int) + (p2 + rest));
        assert(pending.subrange(0, n as int) + tail =~= (pending + rest).subrange(0, (n + tail.len()) as int));
        if (forall|i: int| 0 <= i < rooms.len() ==> #[trigger] rooms[i] > 0) && takes.len() >= rooms.len() {
            assert(rooms[0] > 0);
            assert forall|i: int| 0 <= i < rooms.drop_first().len() implies #[trigger] rooms.drop_first()[i] > 0 by {
                assert(rooms.drop_first()[i] == rooms[i + 1]);
            }
        }
    } else {
        let n = chunk_len(rest.len(), takes[0]);
        let r2 = rest.subrange(n as int, rest.len() as int);
        lemma_prefixed_reads_replay(pending, r2, rooms.drop_first(), takes.drop_first());
        let tail = replayed(pending, r2, rooms.drop_first(), takes.drop_first());
        assert(pending + rest =~= rest);
        assert(pending + r2 =~= r2);
        assert(rest.subrange(0, n as int) + tail =~= (pending + rest).subrange(0, (n + tail.len()) as int));
    }
}

/// A stream that first yields a buffer of bytes already read from it (the
/// prefix), then reads from the stream itself.
pub struct PrefixedStream<S> {
    prefix: Vec<u8>,
    position: usize,
    stream: S,
}

impl<S> PrefixedStream<S> {
    /// The prefix bytes not yet handed out.
    pub closed spec fn pending(&self) -> Seq<u8> {
        if self.position <= self.prefix@.len() {
            self.prefix@.subrange(self.position as int, self.prefix@.len() as int)
        } else {
            Seq::empty()
        }
    }

    /// The underlying stream.
    pub closed spec fn stream_view(&self) -> S {
        self.stream
    }

    /// Creates a stream that yields `prefix` before reading from `stream`.
    pub fn new(prefix: Vec<u8>, stream: S) -> (r: Self)
        ensures
            r.pending() == prefix@,
            r.stream_view() == stream,
    {
        let r = PrefixedStream { prefix, position: 0, stream };
        assert(r.prefix@.subrange(0, r.prefix@.len() as int) =~= r.prefix@);
        r
    }

    /// Returns a reference to the underlying stream.
    pub fn get_ref(&self) -> (r: &S)
        ensures
            *r == self.stream_view(),
    {
        &self.stream
    }

    /// Returns a mutable reference to the underlying stream.
    pub fn get_mut(&mut self) -> (r: &mut S)
        ensures
            *r == old(self).stream_view(),
            final(self).stream_view() == *final(r),
            final(self).pending() == old(self).pending(),
    {
        &mut self.stream
    }

    /// Whether prefix bytes remain to be handed out before the stream is read.
    pub fn has_pending(&self) -> (r: bool)
        ensures
            r == (self.pending().len() > 0),
    {
        self.position < self.prefix.len()
    }

    /// Hands out the next prefix bytes, at most `max` of them.
    pub fn read_prefix(&mut self, max: usize) -> (r: Vec<u8>)
        ensures
            r@.len() == chunk_len(old(self).pending().len(), max as nat),
            r@ == old(self).pending().subrange(0, r@.len() as int),
            final(self).pending() == old(self).pending().subrange(r@.len() as int, old(self).pending().len() as int),
            final(self).stream_view() == old(self).stream_view(),
    {
        if self.position >= self.prefix.len() {
            return Vec::new();
        }
        let available = self.prefix.len() - self.position;
        let n = if available < max { available } else { max };
        let out = copy_range(self.prefix.as_slice(), self.position, self.position + n);
        self.position = self.position + n;
        proof {
            assert(out@ =~= old(self).pending().subrange(0, n as int));
            assert(self.pending() =~= old(self).pending().subrange(n as int, old(self).pending().len() as int));
        }
        out
    }
}

} // verus!
