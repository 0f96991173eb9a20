use echomesh_relay::protocol::codec::EnvelopeCodec;
use echomesh_relay::protocol::frame::Frame;
use echomesh_relay::protocol::messages::client_to_server::ClientToServerMessage;
use echomesh_relay::protocol::messages::server_to_client::{DeliveryStatus, ServerToClientMessage};
use echomesh_relay::server::routed_listener::{
    classify_routed_connection, route_prefix, ConnectionStep, PrefixedStream, RouteRegistryInner, RoutedAction,
    RoutedConnection, ECHO_ROUTE_ID, ROUTE_REGISTRATION_ID,
};
use echomesh_relay::transport::obfuscation::{PseudoTlsBuilder, TokenValidator};
use tokio::sync::mpsc;

fn channel() -> (mpsc::Sender<Frame>, mpsc::Receiver<Frame>) {
    mpsc::channel(8)
}

fn registration(peer: [u8; 32]) -> Frame {
    Frame::new(ROUTE_REGISTRATION_ID, [0; 8], peer.to_vec()).unwrap()
}

fn registered(peer: [u8; 32], connection_id: u64, routes: &mut RouteRegistryInner) -> RoutedConnection {
    let (tx, _rx) = channel();
    let mut conn = RoutedConnection::new(connection_id);
    let acts = conn.handle_frame(routes, &tx, registration(peer));
    assert!(acts.is_empty());
    conn
}

fn envelope_frame(session_id: [u8; 16], nonce: [u8; 8], msg: &ClientToServerMessage, id: u64) -> Frame {
    let bytes = EnvelopeCodec::encode_client_message(msg, id, 0, 1234).unwrap();
    Frame::new(session_id, nonce, bytes).unwrap()
}

#[test]
fn registry_insert_lookup_and_remove() {
    let mut routes = RouteRegistryInner::new();
    let (tx, _rx) = channel();
    let peer = [0x11; 32];
    assert!(routes.insert(peer, 1, tx.clone()).is_none());
    assert!(routes.active_count() == 1);
    assert!(routes.get_by_peer_id(&peer).unwrap().connection_id == 1);
    assert!(routes.get_by_prefix(&route_prefix(&peer)).unwrap().peer_id == peer);
    let previous = routes.insert(peer, 2, tx.clone()).unwrap();
    assert!(previous.connection_id == 1);
    assert!(routes.active_count() == 1);
    assert!(!routes.remove_connection(&peer, 1));
    assert!(routes.get_by_peer_id(&peer).unwrap().connection_id == 2);
    assert!(routes.remove_connection(&peer, 2));
    assert!(routes.active_count() == 0);
    assert!(routes.get_by_prefix(&route_prefix(&peer)).is_none());
}

#[test]
fn registration_needs_a_32_byte_peer_id() {
    let mut routes = RouteRegistryInner::new();
    let (tx, _rx) = channel();
    let mut conn = RoutedConnection::new(5);
    let short = Frame::new(ROUTE_REGISTRATION_ID, [0; 8], vec![1; 31]).unwrap();
    assert!(conn.handle_frame(&mut routes, &tx, short).is_empty());
    assert!(conn.registered_peer.is_none());
    assert!(routes.active_count() == 0);
    assert!(conn.handle_frame(&mut routes, &tx, registration([2; 32])).is_empty());
    assert!(conn.registered_peer == Some([2; 32]));
    assert!(routes.get_by_peer_id(&[2; 32]).unwrap().connection_id == 5);
}

#[test]
fn frames_before_registration_and_echo_route_are_dropped() {
    let mut routes = RouteRegistryInner::new();
    let (tx, _rx) = channel();
    let mut conn = RoutedConnection::new(1);
    let hb = envelope_frame([0; 16], [0; 8], &ClientToServerMessage::Heartbeat { sequence: 1 }, 1);
    assert!(conn.handle_frame(&mut routes, &tx, hb).is_empty());
    let mut conn = registered([3; 32], 1, &mut routes);
    let echo = Frame::new(ECHO_ROUTE_ID, [0; 8], b"hi".to_vec()).unwrap();
    assert!(conn.handle_frame(&mut routes, &tx, echo).is_empty());
}

#[test]
fn send_to_registered_peer_is_acknowledged_and_delivered() {
    let mut routes = RouteRegistryInner::new();
    let alice = [0xA1; 32];
    let bob = [0xB2; 32];
    let mut a = registered(alice, 1, &mut routes);
    let _b = registered(bob, 2, &mut routes);
    let (tx, _rx) = channel();
    let msg = ClientToServerMessage::SendMessage { recipient_id: bob, data: b"hello bob".to_vec() };
    let acts = a.handle_frame(&mut routes, &tx, envelope_frame([9; 16], [4; 8], &msg, 77));
    assert!(acts.len() == 2);
    match &acts[0] {
        RoutedAction::Reply(f) => {
            assert!(f.session_id == route_prefix(&alice));
            assert!(f.nonce == [0; 8]);
            let (env, m) = EnvelopeCodec::decode_server_message(&f.payload).unwrap();
            assert!(m == ServerToClientMessage::SendMessageResponse { message_id: 77, accepted: true });
            assert!((env.message_id, env.correlation_id, env.timestamp) == (77, 77, 1234));
        },
        _ => panic!("expected a reply"),
    }
    match &acts[1] {
        RoutedAction::Deliver { entry, frame, unroute_on_failure } => {
            assert!(entry.connection_id == 2);
            assert!(entry.peer_id == bob);
            assert!(*unroute_on_failure);
            assert!(frame.session_id == route_prefix(&alice));
            assert!(frame.nonce == [4; 8]);
            let (env, m) = EnvelopeCodec::decode_server_message(&frame.payload).unwrap();
            assert!(m == ServerToClientMessage::IncomingMessageEvent { sender_id: alice, data: b"hello bob".to_vec() });
            assert!((env.message_id, env.correlation_id) == (77, 0));
        },
        _ => panic!("expected a delivery"),
    }
}

#[test]
fn send_to_self_or_offline_peer_is_refused() {
    let mut routes = RouteRegistryInner::new();
    let alice = [0xA1; 32];
    let mut a = registered(alice, 1, &mut routes);
    let (tx, _rx) = channel();
    for recipient in [alice, [0xC3; 32]] {
        let msg = ClientToServerMessage::SendMessage { recipient_id: recipient, data: b"x".to_vec() };
        let acts = a.handle_frame(&mut routes, &tx, envelope_frame([0; 16], [1; 8], &msg, 5));
        assert!(acts.len() == 1);
        match &acts[0] {
            RoutedAction::Reply(f) => {
                let (_, m) = EnvelopeCodec::decode_server_message(&f.payload).unwrap();
                assert!(m == ServerToClientMessage::SendMessageResponse { message_id: 5, accepted: false });
            },
            _ => panic!("expected a refusal"),
        }
    }
}

#[test]
fn ack_becomes_delivery_status_for_the_prefix_route() {
    let mut routes = RouteRegistryInner::new();
    let alice = [0xA1; 32];
    let bob = [0xB2; 32];
    let mut a = registered(alice, 1, &mut routes);
    let _b = registered(bob, 2, &mut routes);
    let (tx, _rx) = channel();
    let ack = ClientToServerMessage::Ack { acknowledged_message_id: 99 };
    let acts = a.handle_frame(&mut routes, &tx, envelope_frame(route_prefix(&bob), [0; 8], &ack, 3));
    assert!(acts.len() == 1);
    match &acts[0] {
        RoutedAction::Deliver { entry, frame, unroute_on_failure } => {
            assert!(entry.peer_id == bob);
            assert!(!*unroute_on_failure);
            assert!(frame.session_id == route_prefix(&alice));
            let (env, m) = EnvelopeCodec::decode_server_message(&frame.payload).unwrap();
            assert!(m == ServerToClientMessage::DeliveryStatusEvent { message_id: 99, status: DeliveryStatus::Delivered });
            assert!((env.message_id, env.correlation_id) == (99, 99));
        },
        _ => panic!("expected a delivery"),
    }
    let nobody = a.handle_frame(&mut routes, &tx, envelope_frame([0x77; 16], [0; 8], &ack, 3));
    assert!(nobody.is_empty());
}

#[test]
fn heartbeat_is_answered() {
    let mut routes = RouteRegistryInner::new();
    let mut a = registered([1; 32], 1, &mut routes);
    let (tx, _rx) = channel();
    let acts = a.handle_frame(&mut routes, &tx, envelope_frame([0; 16], [0; 8], &ClientToServerMessage::Heartbeat { sequence: 42 }, 8));
    assert!(acts.len() == 1);
    match &acts[0] {
        RoutedAction::Reply(f) => {
            let (env, m) = EnvelopeCodec::decode_server_message(&f.payload).unwrap();
            assert!(m == ServerToClientMessage::HeartbeatResponse { sequence: 42 });
            assert!((env.message_id, env.correlation_id) == (8, 8));
        },
        _ => panic!("expected a reply"),
    }
}

#[test]
fn raw_frames_are_routed_by_prefix_with_the_sender_named() {
    let mut routes = RouteRegistryInner::new();
    let alice = [0xA1; 32];
    let bob = [0xB2; 32];
    let mut a = registered(alice, 1, &mut routes);
    let _b = registered(bob, 2, &mut routes);
    let (tx, _rx) = channel();
    let raw = Frame::new(route_prefix(&bob), [6; 8], b"opaque ciphertext".to_vec()).unwrap();
    let acts = a.handle_frame(&mut routes, &tx, raw);
    assert!(acts.len() == 1);
    match &acts[0] {
        RoutedAction::Deliver { entry, frame, unroute_on_failure } => {
            assert!(entry.peer_id == bob);
            assert!(*unroute_on_failure);
            assert!(frame.session_id == route_prefix(&alice));
            assert!(frame.nonce == [6; 8]);
            assert!(frame.payload == b"opaque ciphertext".to_vec());
        },
        _ => panic!("expected a delivery"),
    }
    let to_self = Frame::new(route_prefix(&alice), [6; 8], b"loop".to_vec()).unwrap();
    assert!(a.handle_frame(&mut routes, &tx, to_self).is_empty());
    let offline = Frame::new([0x55; 16], [6; 8], b"lost".to_vec()).unwrap();
    assert!(a.handle_frame(&mut routes, &tx, offline).is_empty());
}

#[test]
fn finishing_a_replaced_connection_keeps_the_new_route() {
    let mut routes = RouteRegistryInner::new();
    let peer = [0x42; 32];
    let old = registered(peer, 1, &mut routes);
    let new = registered(peer, 2, &mut routes);
    assert!(!old.finish(&mut routes));
    assert!(routes.get_by_peer_id(&peer).unwrap().connection_id == 2);
    assert!(new.finish(&mut routes));
    assert!(routes.active_count() == 0);
    assert!(!RoutedConnection::new(3).finish(&mut routes));
}

#[test]
fn routed_connection_classification() {
    let secret = b"relay-secret".to_vec();
    let validator = TokenValidator::new(secret.clone());
    let mut hello = PseudoTlsBuilder::new(secret.clone(), "cloudflare.com".to_string()).build();
    let record_len = hello.len();
    hello.extend_from_slice(&[0, 48, 1, 2, 3]);
    match classify_routed_connection(&hello, &validator, false, false) {
        ConnectionStep::Session(rest) => assert!(rest == vec![0, 48, 1, 2, 3]),
        _ => panic!("expected a session"),
    }
    let wrong = TokenValidator::new(b"other".to_vec());
    assert!(matches!(classify_routed_connection(&hello, &wrong, false, false), ConnectionStep::Fallback));
    assert!(matches!(classify_routed_connection(&hello, &wrong, true, false), ConnectionStep::Session(_)));
    match classify_routed_connection(&hello[..100], &validator, false, false) {
        ConnectionStep::ReadMore(n) => assert!(n == record_len - 100),
        _ => panic!("expected a read"),
    }
    let mut direct = vec![0u8, 48];
    direct.extend_from_slice(&[7u8; 48]);
    assert!(matches!(classify_routed_connection(&direct, &validator, false, false), ConnectionStep::Fallback));
    match classify_routed_connection(&direct, &validator, false, true) {
        ConnectionStep::Session(bytes) => assert!(bytes == direct),
        _ => panic!("expected a session"),
    }
    assert!(matches!(classify_routed_connection(b"GET / HTTP/1.1\r\n", &validator, false, true), ConnectionStep::Fallback));
    assert!(matches!(classify_routed_connection(&[], &validator, false, true), ConnectionStep::Close));
}

#[test]
fn prefixed_stream_hands_out_its_prefix_first() {
    let mut s = PrefixedStream::new(vec![1, 2, 3, 4, 5], 7u32);
    assert!(s.has_pending());
    assert!(s.read_prefix(2) == vec![1, 2]);
    assert!(s.read_prefix(10) == vec![3, 4, 5]);
    assert!(!s.has_pending());
    assert!(s.read_prefix(10).is_empty());
    assert!(*s.get_ref() == 7);
    *s.get_mut() = 8;
    assert!(*s.get_ref() == 8);
}

#[test]
fn routes_reach_the_channel_of_the_registering_connection() {
    let mut routes = RouteRegistryInner::new();
    let alice = [0xA1; 32];
    let bob = [0xB2; 32];
    let (alice_tx, _alice_rx) = channel();
    let (bob_tx, _bob_rx) = channel();
    let mut a = RoutedConnection::new(1);
    assert!(a.handle_frame(&mut routes, &alice_tx, registration(alice)).is_empty());
    let mut b = RoutedConnection::new(2);
    assert!(b.handle_frame(&mut routes, &bob_tx, registration(bob)).is_empty());
    assert!(routes.get_by_peer_id(&bob).unwrap().tx.same_channel(&bob_tx));
    assert!(routes.get_by_prefix(&route_prefix(&alice)).unwrap().tx.same_channel(&alice_tx));
    let msg = ClientToServerMessage::SendMessage { recipient_id: bob, data: b"hi".to_vec() };
    let acts = a.handle_frame(&mut routes, &alice_tx, envelope_frame([0; 16], [0; 8], &msg, 5));
    assert!(acts.len() == 2);
    match &acts[1] {
        RoutedAction::Deliver { entry, .. } => {
            assert!(entry.tx.same_channel(&bob_tx));
            assert!(!entry.tx.same_channel(&alice_tx));
        },
        _ => panic!("expected a delivery"),
    }
}

#[test]
fn successive_prefix_reads_replay_the_prefix_in_order() {
    let prefix: Vec<u8> = (1..=10).collect();
    let mut s = PrefixedStream::new(prefix.clone(), ());
    let mut delivered = Vec::new();
    for room in [3usize, 1, 4, 5] {
        assert!(s.has_pending());
        let chunk = s.read_prefix(room);
        assert!(chunk.len() == room.min(prefix.len() - delivered.len()));
        delivered.extend_from_slice(&chunk);
    }
    assert!(delivered == prefix);
    assert!(!s.has_pending());
}
