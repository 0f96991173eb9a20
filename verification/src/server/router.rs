//! The routing table of the route-id relay: opaque 16-byte route ids of
//! connected clients, route registration control frames, and the delivery of
//! frames between routes.
use vstd::prelude::*;

use tokio::sync::mpsc::Sender;

use crate::protocol::frame::{constant_time_eq, Frame, SessionId};
use crate::protocol::wire::{copy_array16, put_slice};
use crate::server::channel::{try_send_frame, OfferLog, SendOutcome};
use crate::table::{
    distinct_keys, lemma_table_at, lemma_table_dom, lemma_table_len, lemma_table_push, lemma_table_remove, table_map,
};

verus! {

/// A route identifier: the session-id field of a frame.
pub type RouteId = SessionId;

/// Reserved outer-frame route used for relay control messages.
pub const ROUTER_CONTROL_ID: RouteId = [
    0xEC, 0xEC, 0xEC, 0xEC, 0xEC, 0xEC, 0xEC, 0xEC, 0xEC, 0xEC, 0xEC, 0xEC, 0xEC, 0xEC, 0xEC, 0xEC,
];

/// Client -> relay route registration payload prefix, `EMR1`.
pub const ROUTE_REGISTER_MAGIC: [u8; 4] = [0x45, 0x4D, 0x52, 0x31];

/// Relay -> client route registration acknowledgement payload prefix, `EMA1`.
pub const ROUTE_REGISTERED_MAGIC: [u8; 4] = [0x45, 0x4D, 0x41, 0x31];

/// What became of a routed frame.
#[derive(Debug, Clone, Copy, PartialEq, Eq)]
pub enum RouteResult {
    Delivered,
    RecipientOffline,
    Backpressure,
}

/// An active route: the connection generation that holds it and its channel.
pub struct RelayRoute {
    pub route_id: RouteId,
    pub connection_id: u64,
    pub tx: Sender<Frame>,
}

/// The key of a route.
pub open spec fn relay_route_key(r: RelayRoute) -> Seq<u8> {
    r.route_id@
}

/// What the table records of a route: its connection generation and its channel.
pub open spec fn relay_route_value(r: RelayRoute) -> (u64, Sender<Frame>) {
    (r.connection_id, r.tx)
}

/// Routing table for active client connections, keyed by opaque 16-byte
/// route ids; one route per id.
pub struct RelayRouter {
    routes: Vec<RelayRoute>,
    next_connection_id: u64,
    offers: OfferLog,
}

/// The position of the route under `route_id`, if any.
fn find_route(table: &Vec<RelayRoute>, route_id: &RouteId) -> (r: Option<usize>)
    ensures
        match r {
            Some(i) => i < table@.len() && table@[i as int].route_id@ == route_id@,
            None => forall|i: int| 0 <= i < table@.len() ==> (#[trigger] table@[i]).route_id@ != route_id@,
        },
{
    let n = table.len();
    let mut i: usize = 0;
    while i < n
        invariant
            n == table@.len(),
            i <= n,
            forall|j: int| 0 <= j < i ==> (#[trigger] table@[j]).route_id@ != route_id@,
        decreases n - i,
    {
        if constant_time_eq(table[i].route_id.as_slice(), route_id.as_slice()) {
            return Some(i);
        }
        i = i + 1;
    }
    None
}

/// The route result for what became of the offered frame.
pub fn route_result(outcome: SendOutcome) -> (r: RouteResult)
    ensures
        outcome == SendOutcome::Queued ==> r == RouteResult::Delivered,
        outcome == SendOutcome::Full ==> r == RouteResult::Backpressure,
        outcome == SendOutcome::Closed ==> r == RouteResult::RecipientOffline,
{
    match outcome {
        SendOutcome::Queued => RouteResult::Delivered,
        SendOutcome::Full => RouteResult::Backpressure,
        SendOutcome::Closed => RouteResult::RecipientOffline,
    }
}

impl RelayRouter {
    #[verifier::type_invariant]
    spec fn one_route_per_id(self) -> bool {
        distinct_keys(self.routes@, |r: RelayRoute| relay_route_key(r))
    }

    /// The active routes: route id → (connection generation, channel).
    pub closed spec fn routes(&self) -> Map<Seq<u8>, (u64, Sender<Frame>)> {
        table_map(self.routes@, |r: RelayRoute| relay_route_key(r), |r: RelayRoute| relay_route_value(r))
    }

    /// The generation the last registration was given (0 before any).
    pub closed spec fn last_generation(&self) -> u64 {
        self.next_connection_id
    }

    /// The frames the router has offered to route channels, oldest first,
    /// each with the channel it went to.
    pub closed spec fn offered(&self) -> Seq<(Sender<Frame>, Frame)> {
        self.offers.offers()
    }

    /// An empty table.
    pub fn new() -> (r: Self)
        ensures
            r.routes() == Map::<Seq<u8>, (u64, Sender<Frame>)>::empty(),
            r.last_generation() == 0,
            r.offered() == Seq::<(Sender<Frame>, Frame)>::empty(),
    {
        RelayRouter { routes: Vec::new(), next_connection_id: 0, offers: OfferLog::new() }
    }

    /// Registers (or replaces) the route `route_id` and returns the new
    /// connection generation, one more than the last (wrapping), which a
    /// later `unregister` must present.
    pub fn register(&mut self, route_id: RouteId, tx: Sender<Frame>) -> (r: u64)
        ensures
            r == (if old(self).last_generation() == u64::MAX { 0 } else { old(self).last_generation() + 1 }),
            final(self).last_generation() == r,
            final(self).routes() == old(self).routes().insert(route_id@, (r, tx)),
            final(self).offered() == old(self).offered(),
    {
        proof {
            use_type_invariant(&*self);
        }
        let connection_id = self.next_connection_id.wrapping_add(1);
        let ghost key = |r: RelayRoute| relay_route_key(r);
        let ghost val = |r: RelayRoute| relay_route_value(r);
        let mut table = Vec::new();
        std::mem::swap(&mut table, &mut self.routes);
        let ghost s0 = table@;
        match find_route(&table, &route_id) {
            Some(i) => {
                proof {
                    lemma_table_remove(s0, key, val, i as int);
                }
                let _ = table.remove(i);
            },
            None => {
                proof {
                    lemma_table_dom(s0, key, val, route_id@);
                    assert(table_map(s0, key, val).remove(route_id@) =~= table_map(s0, key, val));
                }
            },
        }
        let ghost s1 = table@;
        proof {
            lemma_table_dom(s1, key, val, route_id@);
        }
        let entry = RelayRoute { route_id, connection_id, tx };
        table.push(entry);
        proof {
            lemma_table_push(s1, key, val, entry);
            assert(table_map(table@, key, val) =~= table_map(s0, key, val).insert(route_id@, (connection_id, entry.tx)));
        }
        self.routes = table;
        self.next_connection_id = connection_id;
        connection_id
    }

    /// Removes the route `route_id` when `connection_id` is its current
    /// generation; a stale generation leaves the table unchanged.
    pub fn unregister(&mut self, route_id: RouteId, connection_id: u64)
        ensures
            final(self).last_generation() == old(self).last_generation(),
            old(self).routes().dom().contains(route_id@) && old(self).routes()[route_id@].0 == connection_id
                ==> final(self).routes() == old(self).routes().remove(route_id@),
            !(old(self).routes().dom().contains(route_id@) && old(self).routes()[route_id@].0 == connection_id)
                ==> final(self).routes() == old(self).routes(),
            final(self).offered() == old(self).offered(),
    {
        proof {
            use_type_invariant(&*self);
        }
        let ghost key = |r: RelayRoute| relay_route_key(r);
        let ghost val = |r: RelayRoute| relay_route_value(r);
        let ghost s0 = self.routes@;
        proof {
            lemma_table_dom(s0, key, val, route_id@);
        }
        let i = match find_route(&self.routes, &route_id) {
            Some(i) => i,
            None => return,
        };
        proof {
            lemma_table_at(s0, key, val, i as int);
        }
        if self.routes[i].connection_id != connection_id {
            return;
        }
        proof {
            lemma_table_remove(s0, key, val, i as int);
        }
        let mut table = Vec::new();
        std::mem::swap(&mut table, &mut self.routes);
        let _ = table.remove(i);
        self.routes = table;
    }

    /// Where a frame from `sender` goes: the channel of the route filed under
    /// the frame's session id, with the session id rewritten to `sender`;
    /// `None` when no route is filed there.
    pub fn route_plan(&self, sender: RouteId, frame: Frame) -> (r: Option<(Sender<Frame>, Frame)>)
        ensures
            r is None <==> !self.routes().dom().contains(frame.session_id@),
            r matches Some((tx, f)) ==> tx == self.routes()[frame.session_id@].1 && f.session_id == sender
                && f.nonce == frame.nonce && f.payload@ == frame.payload@,
    {
        proof {
            use_type_invariant(self);
            lemma_table_dom(self.routes@, |r: RelayRoute| relay_route_key(r), |r: RelayRoute| relay_route_value(r), frame.session_id@);
        }
        match find_route(&self.routes, &frame.session_id) {
            Some(i) => {
                proof {
                    lemma_table_at(
                        self.routes@,
                        |r: RelayRoute| relay_route_key(r),
                        |r: RelayRoute| relay_route_value(r),
                        i as int,
                    );
                }
                let tx = self.routes[i].tx.clone();
                let mut routed = frame;
                routed.session_id = sender;
                Some((tx, routed))
            },
            None => None,
        }
    }

    /// Routes one already-authenticated frame to an active recipient, with
    /// its session id rewritten to the sender's route so that the recipient
    /// never has to trust sender metadata chosen by the client. An
    /// unregistered recipient is offline; otherwise the frame of `route_plan`
    /// is offered to the channel registered for the recipient, and the result
    /// (`route_result`) tells whether that channel took it, was full, or is
    /// closed, which depends on the channel's state alone.
    pub fn route(&mut self, sender: RouteId, frame: Frame) -> (r: RouteResult)
        ensures
            !old(self).routes().dom().contains(frame.session_id@) ==> r == RouteResult::RecipientOffline,
            final(self).routes() == old(self).routes(),
            final(self).last_generation() == old(self).last_generation(),
            !old(self).routes().dom().contains(frame.session_id@) ==> final(self).offered() == old(self).offered(),
            old(self).routes().dom().contains(frame.session_id@) ==> {
                &&& final(self).offered().len() == old(self).offered().len() + 1
                &&& final(self).offered().subrange(0, old(self).offered().len() as int) == old(self).offered()
                &&& final(self).offered().last().0 == old(self).routes()[frame.session_id@].1
                &&& final(self).offered().last().1.session_id == sender
                &&& final(self).offered().last().1.nonce == frame.nonce
                &&& final(self).offered().last().1.payload@ == frame.payload@
            },
    {
        proof {
            use_type_invariant(&*self);
        }
        match self.route_plan(sender, frame) {
            Some((tx, routed)) => {
                let mut log = OfferLog::new();
                std::mem::swap(&mut log, &mut self.offers);
                let outcome = try_send_frame(&tx, routed, &mut log);
                self.offers = log;
                route_result(outcome)
            },
            None => RouteResult::RecipientOffline,
        }
    }

    /// The number of active routes.
    pub fn active_routes(&self) -> (r: usize)
        ensures
            r == self.routes().len(),
    {
        proof {
            use_type_invariant(self);
            lemma_table_len(self.routes@, |r: RelayRoute| relay_route_key(r), |r: RelayRoute| relay_route_value(r));
        }
        self.routes.len()
    }
}

/// The control frame with this payload: the route control id, a zero nonce.
pub open spec fn control_frame(f: Frame, magic: Seq<u8>, route_id: Seq<u8>) -> bool {
    f.session_id == ROUTER_CONTROL_ID && f.nonce@ == seq![0u8, 0u8, 0u8, 0u8, 0u8, 0u8, 0u8, 0u8] && f.payload@
        == magic + route_id
}

/// A control frame whose payload is `magic` followed by `route_id`.
fn control_frame_with(magic: [u8; 4], route_id: RouteId) -> (r: Frame)
    ensures
        control_frame(r, magic@, route_id@),
{
    let mut payload: Vec<u8> = Vec::new();
    put_slice(&mut payload, magic.as_slice());
    put_slice(&mut payload, route_id.as_slice());
    let nonce = [0u8, 0u8, 0u8, 0u8, 0u8, 0u8, 0u8, 0u8];
    assert(nonce@ =~= seq![0u8, 0u8, 0u8, 0u8, 0u8, 0u8, 0u8, 0u8]);
    Frame { session_id: ROUTER_CONTROL_ID, nonce, payload }
}

/// The client's route registration frame for `route_id`: `EMR1` then the id.
pub fn registration_frame(route_id: RouteId) -> (r: Frame)
    ensures
        control_frame(r, ROUTE_REGISTER_MAGIC@, route_id@),
{
    control_frame_with(ROUTE_REGISTER_MAGIC, route_id)
}

/// The relay's acknowledgement of a registration of `route_id`: `EMA1` then the id.
pub fn registration_ack_frame(route_id: RouteId) -> (r: Frame)
    ensures
        control_frame(r, ROUTE_REGISTERED_MAGIC@, route_id@),
{
    control_frame_with(ROUTE_REGISTERED_MAGIC, route_id)
}

/// The route id a registration frame asks for: a control frame whose 20-byte
/// payload is `EMR1` then the id; `None` for any other frame.
pub fn parse_registration(frame: &Frame) -> (r: Option<RouteId>)
    ensures
        match r {
            Some(id) => frame.session_id@ == ROUTER_CONTROL_ID@ && frame.payload@.len() == 20
                && frame.payload@.subrange(0, 4) == ROUTE_REGISTER_MAGIC@ && id@ == frame.payload@.subrange(4, 20),
            None => !(frame.session_id@ == ROUTER_CONTROL_ID@ && frame.payload@.len() == 20
                && frame.payload@.subrange(0, 4) == ROUTE_REGISTER_MAGIC@),
        },
{
    let control = ROUTER_CONTROL_ID;
    let magic = ROUTE_REGISTER_MAGIC;
    if !constant_time_eq(frame.session_id.as_slice(), control.as_slice()) || frame.payload.len() != 20 {
        return None;
    }
    let head = crate::protocol::wire::copy_range(frame.payload.as_slice(), 0, 4);
    if !constant_time_eq(head.as_slice(), magic.as_slice()) {
        return None;
    }
    Some(copy_array16(frame.payload.as_slice(), 4))
}

/// Parsing a registration frame gives back the route id it was built for.
pub proof fn lemma_registration_round_trip(f: Frame, route_id: Seq<u8>)
    requires
        route_id.len() == 16,
        control_frame(f, ROUTE_REGISTER_MAGIC@, route_id),
    ensures
        f.session_id@ == ROUTER_CONTROL_ID@,
        f.payload@.len() == 20,
        f.payload@.subrange(0, 4) == ROUTE_REGISTER_MAGIC@,
        f.payload@.subrange(4, 20) == route_id,
{
    assert(f.payload@.subrange(0, 4) =~= ROUTE_REGISTER_MAGIC@);
    assert(f.payload@.subrange(4, 20) =~= route_id);
}

/// A registration is what routing reads back: once `route_id` is registered
/// with channel `tx` under any generation, a frame addressed to `route_id`
/// is planned onto `tx`, whatever was registered there before.
pub proof fn lemma_registered_route_reaches_its_channel(
    routes: Map<Seq<u8>, (u64, Sender<Frame>)>,
    route_id: Seq<u8>,
    generation: u64,
    tx: Sender<Frame>,
)
    ensures
        routes.insert(route_id, (generation, tx)).dom().contains(route_id),
        routes.insert(route_id, (generation, tx))[route_id].1 == tx,
{
}

/// A newer registration of a route outlives the older connection: after
/// generations `stale` and then `current` register the same route,
/// unregistering `stale` changes nothing and the route stays with `current`.
pub proof fn lemma_stale_unregister_keeps_route(
    routes: Map<Seq<u8>, (u64, Sender<Frame>)>,
    route_id: Seq<u8>,
    stale: u64,
    stale_tx: Sender<Frame>,
    current: u64,
    current_tx: Sender<Frame>,
)
    requires
        stale != current,
    ensures
        ({
            let after = routes.insert(route_id, (stale, stale_tx)).insert(route_id, (current, current_tx));
            &&& !(after.dom().contains(route_id) && after[route_id].0 == stale)
            &&& after.dom().contains(route_id) && after[route_id] == (current, current_tx)
        }),
{
}

} // verus!
