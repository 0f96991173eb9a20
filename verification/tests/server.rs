use echomesh_relay::crypto::keys::{base64_encode, KeyPair};
use echomesh_relay::error::RoutingError;
use echomesh_relay::protocol::codec::EnvelopeCodec;
use echomesh_relay::protocol::envelope::{MessageEnvelope, MessageType};
use echomesh_relay::protocol::frame::Frame;
use echomesh_relay::protocol::messages::client_to_server::ClientToServerMessage;
use echomesh_relay::protocol::messages::server_to_client::ServerToClientMessage;
use echomesh_relay::server::config::{read_saved_token, ListenerConfig, RelaySecrets};
use echomesh_relay::server::connections::{ConnectionId, ConnectionManager};
use echomesh_relay::server::handlers::{AuthHandler, EchoHandler, HeartbeatHandler, MessageHandler};
use echomesh_relay::server::listener::classify_connection;
use echomesh_relay::server::networking::pipeline::{echo_reply, frame_disposition, structured_response, FrameDisposition};
use echomesh_relay::server::routed_listener::{accepts_frame_length, ConnectionStep};
use echomesh_relay::server::routing::inbound_router::{standard_handler, StandardHandler};
use echomesh_relay::server::routing::outbound_router::{build_server_frame, ServerOutboundRouter};
use echomesh_relay::server::services::EchoService;
use echomesh_relay::server::sessions::{Session, SessionManager};
use echomesh_relay::transport::obfuscation::{hex_encode, PseudoTlsBuilder, TokenValidator};

#[test]
fn debug_and_display_redact_credentials() {
    let secrets = RelaySecrets::new(vec![0xAA; 32], vec![1; 32], vec![2; 32], "https://127.0.0.1:1".to_string());
    let token_hex = hex_encode(&[0xAA; 32]);
    assert!(!secrets.debug_text().contains(&token_hex));
    assert!(!secrets.display_text().contains(&token_hex));
    assert!(!secrets.debug_text().contains(&hex_encode(&[2; 32])));
}

#[test]
fn credential_texts() {
    let secrets = RelaySecrets::new(vec![0xAA; 2], vec![1; 3], vec![2; 1], "https://h:1".to_string());
    assert!(secrets.secret_token_hex == "aaaa");
    assert!(secrets.public_key_hex == "010101");
    assert!(secrets.private_key_hex == "02");
    assert!(secrets.public_key_base64 == base64_encode(&[1, 1, 1]));
    assert!(secrets.display_text() == format!("EchoMesh Relay: https://h:1 (public key: {})", base64_encode(&[1, 1, 1])));
    assert!(secrets.debug_text() == format!(
            "RelaySecrets {{ url: \"https://h:1\", public_key_hex: \"010101\", public_key_base64: \"{}\", secret_token: \"[REDACTED]\", private_key: \"[REDACTED]\", key_file: None }}",
            base64_encode(&[1, 1, 1])
        ));
}

#[test]
fn credentials_from_a_key_pair() {
    let kp = KeyPair {
        private_key: vec![3; 32],
        public_key: vec![4; 32],
        public_key_base64: "B64".to_string(),
        key_path: "/k/relay.key".to_string(),
        pub_path: "/k/relay.pub".to_string(),
    };
    let s = RelaySecrets::from_keypair("0.0.0.0:8443", kp.clone(), Some(b"tok".to_vec())).unwrap();
    assert!(s.url == "https://0.0.0.0:8443");
    assert!(s.secret_token == b"tok".to_vec());
    assert!(s.public_key_base64 == "B64");
    assert!(s.key_file == Some("/k/relay.key".to_string()));
    let r = RelaySecrets::from_keypair("h:1", kp, Some(Vec::new())).unwrap();
    assert!(r.secret_token.len() == 32);
    let g = RelaySecrets::generate("h:2", None).unwrap();
    assert!(g.private_key.len() == 32);
    assert!(g.secret_token.len() == 32);
    assert!(g.secret_token != g.public_key);
}

#[test]
fn listener_settings() {
    let secrets = RelaySecrets::new(vec![5; 4], vec![1; 32], vec![2; 32], "u".to_string());
    let c = ListenerConfig::new_with_secrets("addr", secrets.clone());
    assert!(c.max_connections == 1024);
    assert!(c.fallback_target == "cloudflare.com:443");
    assert!(c.secret_token == vec![5; 4]);
    assert!(c.handshake_timeout == std::time::Duration::from_secs(5));
    assert!(!c.insecure_no_token);
    let c = c.with_max_connections(0).with_insecure_no_auth(true).with_fallback_target("x:1".to_string());
    assert!(c.max_connections == 1);
    assert!(c.insecure_no_token);
    assert!(c.fallback_target == "x:1");
}

#[test]
fn saved_token_in_relay_json() {
    let json = "{\n  \"public_key_base64\": \"P\",\n  \"secret_token_hex\": \"0a0b\"\n}\n";
    assert!(read_saved_token(Some(json), None) == Some(Some(vec![0x0a, 0x0b])));
    assert!(read_saved_token(Some("{\"secret_token_hex\": \"zz\"}"), Some(b"abcd\n")) == Some(Some(vec![0xab, 0xcd])));
    assert!(read_saved_token(None, Some(b"  plain  ")) == Some(Some(b"plain".to_vec())));
    assert!(read_saved_token(None, Some(b"   ")) == Some(None));
    assert!(read_saved_token(None, None) == Some(None));
}

#[test]
fn listener_classification() {
    let secret = b"relay-secret".to_vec();
    let validator = TokenValidator::new(secret.clone());
    let hello = PseudoTlsBuilder::new(secret.clone(), "cloudflare.com".to_string()).build();
    assert!(matches!(classify_connection(&hello, &validator, false, false), ConnectionStep::Session(_)));
    match classify_connection(&hello[..50], &validator, false, false) {
        ConnectionStep::ReadMore(n) => assert!(n == hello.len() - 50),
        _ => panic!("expected a read"),
    }
    assert!(matches!(classify_connection(&hello[..50], &validator, false, true), ConnectionStep::Fallback));
    let mut direct = vec![0u8, 48];
    direct.extend_from_slice(&[7u8; 48]);
    assert!(matches!(classify_connection(&direct, &validator, false, false), ConnectionStep::Session(_)));
    assert!(matches!(classify_connection(&[0u8, 200, 1], &validator, false, false), ConnectionStep::Fallback));
    assert!(matches!(classify_connection(&[], &validator, false, false), ConnectionStep::Close));
}

fn session() -> Session {
    Session::new([0x33; 16], None)
}

#[test]
fn handlers_answer_their_messages() {
    let env = MessageEnvelope::new(MessageType::SendMessage, 12, 0, 0, Vec::new()).unwrap();
    let s = session();
    let auth = AuthHandler;
    assert!(auth.handle(&env, &ClientToServerMessage::AuthRequest { token: vec![], client_version: 1 }, &s) == Ok(Some(ServerToClientMessage::AuthResponse { success: true, session_id: [0x33; 16] })));
    assert!(auth.handle(&env, &ClientToServerMessage::ConnectRequest { peer_id: [9; 32] }, &s) == Ok(Some(ServerToClientMessage::ConnectionAccepted { session_id: [0x33; 16], assigned_peer_id: [9; 32] })));
    assert!(auth.handle(&env, &ClientToServerMessage::Heartbeat { sequence: 1 }, &s) == Err(RoutingError::UnhandledMessageType(MessageType::Heartbeat.to_u8())));
    assert!(HeartbeatHandler.handle(&env, &ClientToServerMessage::Heartbeat { sequence: 4 }, &s) == Ok(Some(ServerToClientMessage::HeartbeatResponse { sequence: 4 })));
    assert!(MessageHandler.handle(&env, &ClientToServerMessage::SendMessage { recipient_id: [0; 32], data: vec![] }, &s) == Ok(Some(ServerToClientMessage::SendMessageResponse { message_id: 12, accepted: true })));
    let echo = EchoHandler::new(EchoService::new());
    assert!(echo.handle(&env, &ClientToServerMessage::RawEcho { payload: b"ping".to_vec() }, &s) == Ok(Some(ServerToClientMessage::RawEchoResponse { payload: b"ping".to_vec() })));
    assert!(echo.handle(&env, &ClientToServerMessage::Ack { acknowledged_message_id: 1 }, &s) == Err(RoutingError::UnhandledMessageType(MessageType::Ack.to_u8())));
    assert!(EchoService::new().process_echo(vec![1, 2]) == vec![1, 2]);
}

#[test]
fn pipeline_dispositions() {
    let session_id = [0x33; 16];
    let other = Frame::new([0x01; 16], [0; 8], b"x".to_vec()).unwrap();
    assert!(matches!(frame_disposition(&other, &session_id), Ok(FrameDisposition::Ignore)));
    let bytes = EnvelopeCodec::encode_client_message(&ClientToServerMessage::Heartbeat { sequence: 3 }, 1, 0, 0).unwrap();
    let mine = Frame::new(session_id, [0; 8], bytes).unwrap();
    match frame_disposition(&mine, &session_id) {
        Ok(FrameDisposition::Dispatch { message, .. }) => {
            assert!(message == ClientToServerMessage::Heartbeat { sequence: 3 })
        },
        _ => panic!("expected a dispatch"),
    }
    let garbage = Frame::new(session_id, [0; 8], b"garbage".to_vec()).unwrap();
    assert!(matches!(frame_disposition(&garbage, &session_id), Ok(FrameDisposition::Discard)));
    let echo_id = [0xEE; 16];
    let raw = Frame::new(echo_id, [5; 8], b"raw bytes".to_vec()).unwrap();
    match frame_disposition(&raw, &session_id) {
        Ok(FrameDisposition::Echo { envelope, message }) => {
            assert!(envelope.message_type == MessageType::RawEcho);
            assert!(message == ClientToServerMessage::RawEcho { payload: b"raw bytes".to_vec() });
        },
        _ => panic!("expected an echo"),
    }
    let big = Frame::new(echo_id, [5; 8], vec![1; 1390]).unwrap();
    assert!(frame_disposition(&big, &session_id).is_err());
}

#[test]
fn pipeline_answers() {
    assert!(structured_response(Err(RoutingError::ChannelClosed)) == Some(ServerToClientMessage::ErrorResponse { code: 500, message: "internal processing error".to_string() }));
    assert!(structured_response(Ok(None)) == None);
    let reply = echo_reply([1; 16], [2; 8], Ok(Some(ServerToClientMessage::RawEchoResponse { payload: b"e".to_vec() })));
    assert!(reply == Ok(Some(Frame::new([1; 16], [2; 8], b"e".to_vec()).unwrap())));
    assert!(echo_reply([1; 16], [2; 8], Ok(None)) == Ok(None));
}

#[test]
fn server_frames_carry_envelopes() {
    let msg = ServerToClientMessage::HeartbeatResponse { sequence: 9 };
    let f = build_server_frame([4; 16], 5, &msg, 6, 7).unwrap();
    assert!(f.session_id == [4; 16]);
    assert!(f.nonce == [0; 8]);
    let (env, m) = EnvelopeCodec::decode_server_message(&f.payload).unwrap();
    assert!(m == msg);
    assert!((env.message_id, env.correlation_id, env.timestamp) == (6, 5, 7));
    let too_big = ServerToClientMessage::RawEchoResponse { payload: vec![0; 1365] };
    assert!(build_server_frame([4; 16], 5, &too_big, 6, 7) == Err(RoutingError::HandlerFailed("payload length 1365 exceeds maximum allowed size of 1364 bytes".to_string())));
    let router = ServerOutboundRouter::new(());
    let a = router.build_frame([4; 16], 5, &msg).unwrap();
    let b = router.build_frame([4; 16], 5, &msg).unwrap();
    let (ea, _) = EnvelopeCodec::decode_server_message(&a.payload).unwrap();
    let (eb, _) = EnvelopeCodec::decode_server_message(&b.payload).unwrap();
    assert!((ea.message_id, eb.message_id) == (1, 2));
}

#[test]
fn session_table() {
    let mut sessions = SessionManager::new();
    let s = sessions.create_session([1; 16], Some([2; 32]));
    assert!(s.peer_id == Some([2; 32]));
    assert!(sessions.count() == 1);
    let t = sessions.touch_session(&[1; 16]).unwrap();
    assert!(t.authenticated_at == s.authenticated_at);
    assert!(t.last_seen >= s.last_seen);
    assert!(sessions.touch_session(&[9; 16]).is_none());
    sessions.create_session([1; 16], None);
    assert!(sessions.count() == 1);
    assert!(sessions.remove_session(&[1; 16]).unwrap().peer_id == None);
    assert!(sessions.count() == 0);
}

#[test]
fn connection_table() {
    let mut conns: ConnectionManager<&str> = ConnectionManager::new();
    let (tx, mut rx) = tokio::sync::mpsc::channel(4);
    let id = conns.register(ConnectionId(7), "peer", tx);
    assert!(conns.active_connections() == 1);
    conns.bind_session(id, [1; 16], Some([2; 32]));
    assert!(conns.peer_connection(&[2; 32]) == Ok(ConnectionId(7)));
    let (other_tx, _other_rx) = tokio::sync::mpsc::channel::<Frame>(4);
    let sender = conns.connection_sender(id).unwrap();
    assert!(!sender.same_channel(&other_tx));
    sender.try_send(Frame::new([0; 16], [0; 8], vec![]).unwrap()).unwrap();
    assert!(rx.try_recv().is_ok());
    match conns.connection_sender(ConnectionId(8)) {
        Err(e) => assert!(e == RoutingError::DestinationNotFound("conn#8".to_string())),
        Ok(_) => panic!("expected no connection"),
    }
    conns.unregister(id);
    assert!(conns.active_connections() == 0);
    assert!(conns.peer_connection(&[2; 32]) == Err(RoutingError::DestinationNotFound(hex_encode(&[2; 32]))));
    assert!(ConnectionId(3).to_text() == "conn#3");
}

#[test]
fn standard_relay_handler_table() {
    assert!(standard_handler(MessageType::RawEcho) == Some(StandardHandler::Echo));
    assert!(standard_handler(MessageType::SendMessage) == Some(StandardHandler::Message));
    assert!(standard_handler(MessageType::Heartbeat) == Some(StandardHandler::Heartbeat));
    assert!(standard_handler(MessageType::AuthRequest) == Some(StandardHandler::Auth));
    assert!(standard_handler(MessageType::ConnectRequest) == Some(StandardHandler::Auth));
    assert!(standard_handler(MessageType::Ack) == None);
    assert!(standard_handler(MessageType::KeyExchange) == None);

    let s = session();
    let env = MessageEnvelope::new(MessageType::Heartbeat, 11, 0, 0, Vec::new()).unwrap();
    let beat = ClientToServerMessage::Heartbeat { sequence: 5 };
    assert!(
        StandardHandler::Heartbeat.handle(&env, &beat, &s)
            == Ok(Some(ServerToClientMessage::HeartbeatResponse { sequence: 5 }))
    );
    let send = ClientToServerMessage::SendMessage { recipient_id: [1; 32], data: b"hi".to_vec() };
    assert!(
        StandardHandler::Message.handle(&env, &send, &s)
            == Ok(Some(ServerToClientMessage::SendMessageResponse { message_id: 11, accepted: true }))
    );
    assert!(
        StandardHandler::Echo.handle(&env, &send, &s)
            == Ok(Some(ServerToClientMessage::RawEchoResponse { payload: b"hi".to_vec() }))
    );
    assert!(StandardHandler::Auth.handle(&env, &beat, &s) == Err(RoutingError::UnhandledMessageType(0x06)));
}

#[test]
fn routed_frame_lengths() {
    assert!(!accepts_frame_length(0));
    assert!(accepts_frame_length(1));
    assert!(accepts_frame_length(1436));
    assert!(!accepts_frame_length(1437));
}
