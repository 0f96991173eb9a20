use echomesh_relay::cli::{command_of, env_flag_enabled, insecure_mode, resolve_secret_token, Command};
use echomesh_relay::client::routing::inbound_router::{correlation_target, synthetic_echo};
use echomesh_relay::client::routing::outbound_router::build_client_frame;
use echomesh_relay::client::{ClientEventHandler, ClientOutboundRouter, ClientSession, ClientState, NoopClientEventHandler};
use echomesh_relay::error::RoutingError;
use echomesh_relay::protocol::codec::EnvelopeCodec;
use echomesh_relay::protocol::envelope::{MessageEnvelope, MessageType};
use echomesh_relay::protocol::messages::client_to_server::ClientToServerMessage;
use echomesh_relay::protocol::messages::server_to_client::{DeliveryStatus, ServerToClientMessage};

fn args(list: &[&str]) -> Vec<String> {
    list.iter().map(|s| s.to_string()).collect()
}

#[test]
fn client_session_defaults() {
    let s = ClientSession::new("relay:443");
    assert!(s.session_id == [0xEE; 16]);
    assert!(!s.is_authenticated);
    let t = s.with_session_id([1; 16]);
    assert!(t.session_id == [1; 16]);
    assert!(t.server_addr == "relay:443");
    assert!(ClientState::Connected != ClientState::Closed);
    NoopClientEventHandler.on_delivery_status(1, DeliveryStatus::Queued);
}

#[test]
fn client_frames_and_correlation() {
    let msg = ClientToServerMessage::Heartbeat { sequence: 42 };
    let f = build_client_frame([0xEE; 16], &msg, 3, 4).unwrap();
    let (env, back) = EnvelopeCodec::decode_client_message(&f.payload).unwrap();
    assert!(back == msg);
    assert!((env.message_id, env.correlation_id, env.timestamp) == (3, 0, 4));
    let too_big = ClientToServerMessage::RawEcho { payload: vec![0; 1365] };
    assert!(build_client_frame([0; 16], &too_big, 1, 1) == Err(RoutingError::HandlerFailed("payload length 1365 exceeds maximum allowed size of 1364 bytes".to_string())));
    let (tx, mut rx) = tokio::sync::mpsc::channel(2);
    let router = ClientOutboundRouter::new(tx);
    let (id1, _) = router.prepare_message([0; 16], &msg).unwrap();
    let (id2, frame) = router.prepare_message([0; 16], &msg).unwrap();
    assert!((id1, id2) == (1, 2));
    router.outbound_channel().try_send(frame.clone()).unwrap();
    assert!(rx.try_recv().unwrap() == frame);

    let resp = ServerToClientMessage::HeartbeatResponse { sequence: 1 };
    let env = MessageEnvelope::new(MessageType::HeartbeatResponse, 9, 2, 0, vec![]).unwrap();
    assert!(correlation_target(&env, &resp) == Some(2));
    let uncorrelated = MessageEnvelope::new(MessageType::HeartbeatResponse, 9, 0, 0, vec![]).unwrap();
    assert!(correlation_target(&uncorrelated, &resp) == None);
    let event = ServerToClientMessage::DeliveryStatusEvent { message_id: 1, status: DeliveryStatus::Delivered };
    assert!(correlation_target(&env, &event) == None);
    let (senv, smsg) = synthetic_echo(b"raw");
    assert!(senv.message_type == MessageType::RawEchoResponse);
    assert!(smsg == ServerToClientMessage::RawEchoResponse { payload: b"raw".to_vec() });
}

#[test]
fn command_line() {
    assert!(command_of(&args(&["relay", "show-key"])) == Command::ShowPublicKey);
    assert!(command_of(&args(&["relay", "--show-credentials"])) == Command::ShowCredentials);
    assert!(command_of(&args(&["relay"])) == Command::Run);
    assert!(resolve_secret_token(&args(&["relay", "--secret", "abc"]), Some("env")) == Some(b"abc".to_vec()));
    assert!(resolve_secret_token(&args(&["relay", "--secret-token=xyz"]), None) == Some(b"xyz".to_vec()));
    assert!(resolve_secret_token(&args(&["relay", "--secret"]), Some("env")) == Some(b"env".to_vec()));
    assert!(resolve_secret_token(&args(&["relay"]), Some("   ")) == None);
    assert!(env_flag_enabled("TRUE"));
    assert!(env_flag_enabled("1"));
    assert!(!env_flag_enabled("yes"));
    assert!(insecure_mode(&args(&["relay", "--dev-mode"]), None, None));
    assert!(insecure_mode(&args(&["relay"]), None, Some("true")));
    assert!(!insecure_mode(&args(&["relay"]), Some("0"), None));
}
