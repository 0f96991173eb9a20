use echomesh_relay::protocol::frame::Frame;
use echomesh_relay::server::router::{
    parse_registration, registration_ack_frame, registration_frame, RelayRouter, RouteResult, ROUTER_CONTROL_ID,
};
use tokio::sync::mpsc;

#[test]
fn registration_round_trip() {
    let route = [0x42; 16];
    let frame = registration_frame(route);
    assert!(parse_registration(&frame) == Some(route));
}

#[test]
fn route_rewrites_destination_to_sender() {
    let mut router = RelayRouter::new();
    let sender = [0x11; 16];
    let recipient = [0x22; 16];
    let (tx, mut rx) = mpsc::channel(1);
    router.register(recipient, tx);

    let frame = Frame::new(recipient, [7u8; 8], b"ciphertext".to_vec()).unwrap();
    assert!(router.route(sender, frame) == RouteResult::Delivered);

    let delivered = rx.try_recv().unwrap();
    assert!(delivered.session_id == sender);
    assert!((&delivered.payload[..]) == b"ciphertext");
}

#[test]
fn stale_unregister_does_not_remove_replacement() {
    let mut router = RelayRouter::new();
    let route = [0x44; 16];
    let (tx1, _rx1) = mpsc::channel(1);
    let (tx2, _rx2) = mpsc::channel(1);
    let id1 = router.register(route, tx1);
    let _id2 = router.register(route, tx2);
    router.unregister(route, id1);
    assert!(router.active_routes() == 1);
}

#[test]
fn routing_reports_offline_full_and_closed_recipients() {
    let mut router = RelayRouter::new();
    let frame = || Frame::new([0x22; 16], [0; 8], b"x".to_vec()).unwrap();
    assert!(router.route([1; 16], frame()) == RouteResult::RecipientOffline);
    let (tx, rx) = mpsc::channel(1);
    let id = router.register([0x22; 16], tx);
    assert!(id == 1);
    assert!(router.route([1; 16], frame()) == RouteResult::Delivered);
    assert!(router.route([1; 16], frame()) == RouteResult::Backpressure);
    drop(rx);
    assert!(router.route([1; 16], frame()) == RouteResult::RecipientOffline);
    router.unregister([0x22; 16], id);
    assert!(router.active_routes() == 0);
}

#[test]
fn registration_frames_and_their_parsing() {
    let ack = registration_ack_frame([3; 16]);
    assert!(ack.session_id == ROUTER_CONTROL_ID);
    assert!((&ack.payload[..4]) == b"EMA1");
    assert!(parse_registration(&ack) == None);
    let frame = registration_frame([3; 16]);
    assert!((&frame.payload[..4]) == b"EMR1");
    let wrong_session = Frame::new([0; 16], [0; 8], frame.payload.clone()).unwrap();
    assert!(parse_registration(&wrong_session) == None);
    let short = Frame::new(ROUTER_CONTROL_ID, [0; 8], b"EMR1".to_vec()).unwrap();
    assert!(parse_registration(&short) == None);
}

#[test]
fn route_plan_uses_the_channel_registered_last() {
    let mut router = RelayRouter::new();
    let route = [0x55; 16];
    let (tx1, _rx1) = mpsc::channel(1);
    let (tx2, _rx2) = mpsc::channel(1);
    let frame = || Frame::new(route, [1; 8], b"abc".to_vec()).unwrap();
    assert!(router.route_plan([9; 16], frame()).is_none());
    router.register(route, tx1.clone());
    let (planned, routed) = router.route_plan([9; 16], frame()).unwrap();
    assert!(planned.same_channel(&tx1));
    assert!(!planned.same_channel(&tx2));
    assert!(routed.session_id == [9; 16]);
    router.register(route, tx2.clone());
    let (planned, _) = router.route_plan([9; 16], frame()).unwrap();
    assert!(planned.same_channel(&tx2));
    assert!(!planned.same_channel(&tx1));
}
