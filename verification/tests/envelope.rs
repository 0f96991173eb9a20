use echomesh_relay::error::ProtocolError;
use echomesh_relay::protocol::codec::EnvelopeCodec;
use echomesh_relay::protocol::envelope::{MessageEnvelope, MessageType, ENVELOPE_HEADER_SIZE, MAX_ENVELOPE_PAYLOAD_SIZE};
use echomesh_relay::protocol::messages::client_to_server::ClientToServerMessage;
use echomesh_relay::protocol::messages::server_to_client::{DeliveryStatus, PeerStatus, ServerToClientMessage};
use echomesh_relay::protocol::validation::validate_timestamp;
use echomesh_relay::protocol::versioning::ProtocolVersion;

#[test]
fn test_envelope_roundtrip() {
    let payload = b"Hello Structured Protocol!".to_vec();
    let envelope = MessageEnvelope::new(MessageType::SendMessage, 42, 0, 1710000000, payload.clone())
        .expect("valid envelope");

    let encoded = envelope.to_bytes().expect("encode ok");
    assert!(encoded.len() == ENVELOPE_HEADER_SIZE + payload.len());

    let decoded = MessageEnvelope::decode(&encoded).expect("decode ok");
    assert!(decoded.version == ProtocolVersion::V1);
    assert!(decoded.message_type == MessageType::SendMessage);
    assert!(decoded.message_id == 42);
    assert!(decoded.correlation_id == 0);
    assert!(decoded.timestamp == 1710000000);
    assert!(decoded.payload == payload);
}

#[test]
fn test_envelope_oversized_payload() {
    let oversized = vec![0xAA; MAX_ENVELOPE_PAYLOAD_SIZE + 1];
    let err = MessageEnvelope::new(MessageType::SendMessage, 1, 0, 0, oversized).err().unwrap();
    assert!(err == ProtocolError::PayloadTooLarge { actual: MAX_ENVELOPE_PAYLOAD_SIZE + 1, max: MAX_ENVELOPE_PAYLOAD_SIZE });
}

#[test]
fn test_envelope_redaction() {
    let secret = b"SUPER_SECRET_PAYLOAD".to_vec();
    let envelope = MessageEnvelope::new(MessageType::AuthRequest, 1, 0, 0, secret).unwrap();
    let debug_str = envelope.debug_text();
    assert!(debug_str.contains("[REDACTED]"));
    assert!(!debug_str.contains("SUPER_SECRET_PAYLOAD"));
}

#[test]
fn envelope_debug_text_exact() {
    let envelope = MessageEnvelope::new(MessageType::Heartbeat, 7, 3, 99, vec![1, 2]).unwrap().with_flags(5);
    assert!(envelope.debug_text() == "MessageEnvelope { version: V1, message_type: Heartbeat, flags: 5, message_id: 7, correlation_id: 3, timestamp: 99, payload_len: 2, payload: \"[REDACTED]\" }");
}

#[test]
fn envelope_decode_errors() {
    assert!(MessageEnvelope::decode(&[1, 2, 3]).err().unwrap() == ProtocolError::FrameTooShort { expected: ENVELOPE_HEADER_SIZE, actual: 3 });
    let mut bytes = MessageEnvelope::new(MessageType::Ack, 1, 2, 3, vec![0; 8]).unwrap().to_bytes().unwrap();
    bytes[0] = 2;
    assert!(MessageEnvelope::decode(&bytes).err().unwrap() == ProtocolError::UnsupportedVersion { expected: 1, actual: 2 });
    bytes[0] = 1;
    bytes[1] = 0x7f;
    assert!(MessageEnvelope::decode(&bytes).err().unwrap() == ProtocolError::UnknownMessageType(0x7f));
    bytes[1] = MessageType::Ack.to_u8();
    bytes.truncate(ENVELOPE_HEADER_SIZE + 4);
    assert!(MessageEnvelope::decode(&bytes).err().unwrap() == ProtocolError::FrameTooShort { expected: 8, actual: 4 });
}

#[test]
fn message_type_codes_round_trip() {
    for v in 0u8..=255 {
        if let Ok(t) = MessageType::from_u8(v) {
            assert!(t.to_u8() == v);
        }
    }
    assert!(MessageType::from_u8(0) == Err(ProtocolError::UnknownMessageType(0)));
    assert!(MessageType::SendMessageResponse.is_response());
    assert!(MessageType::PeerEvent.is_event());
    assert!(MessageType::Heartbeat.is_client_to_server());
    assert!(MessageType::RelayEvent.is_server_to_client());
}

#[test]
fn client_messages_round_trip_through_envelopes() {
    let messages = vec![
        ClientToServerMessage::AuthRequest { token: b"tok".to_vec(), client_version: 3 },
        ClientToServerMessage::ConnectRequest { peer_id: [4; 32] },
        ClientToServerMessage::DisconnectRequest { reason_code: 9 },
        ClientToServerMessage::SendMessage { recipient_id: [5; 32], data: b"hello".to_vec() },
        ClientToServerMessage::Ack { acknowledged_message_id: 77 },
        ClientToServerMessage::Heartbeat { sequence: 42 },
        ClientToServerMessage::KeyExchange { ephemeral_pubkey: [6; 32] },
        ClientToServerMessage::RelayRequest { target_peer_id: [7; 32] },
        ClientToServerMessage::RawEcho { payload: b"echo".to_vec() },
    ];
    for m in messages {
        let bytes = EnvelopeCodec::encode_client_message(&m, 10, 11, 12).unwrap();
        let (env, back) = EnvelopeCodec::decode_client_message(&bytes).unwrap();
        assert!(back == m);
        assert!((env.message_id, env.correlation_id, env.timestamp) == (10, 11, 12));
        assert!(env.message_type == m.message_type());
    }
}

#[test]
fn server_messages_round_trip_through_envelopes() {
    let messages = vec![
        ServerToClientMessage::AuthResponse { success: true, session_id: [1; 16] },
        ServerToClientMessage::ConnectionAccepted { session_id: [2; 16], assigned_peer_id: [3; 32] },
        ServerToClientMessage::ConnectionRejected { reason_code: 4, message: "no".to_string() },
        ServerToClientMessage::HeartbeatResponse { sequence: 5 },
        ServerToClientMessage::ErrorResponse { code: 500, message: "internal processing error".to_string() },
        ServerToClientMessage::SendMessageResponse { message_id: 6, accepted: false },
        ServerToClientMessage::RawEchoResponse { payload: b"x".to_vec() },
        ServerToClientMessage::IncomingMessageEvent { sender_id: [7; 32], data: b"data".to_vec() },
        ServerToClientMessage::DeliveryStatusEvent { message_id: 8, status: DeliveryStatus::Delivered },
        ServerToClientMessage::PeerEvent { peer_id: [9; 32], status: PeerStatus::Online },
        ServerToClientMessage::RelayEvent { session_id: [10; 16], status: 11 },
    ];
    for m in messages {
        let bytes = EnvelopeCodec::encode_server_message(&m, 1, 2, 3).unwrap();
        let (env, back) = EnvelopeCodec::decode_server_message(&bytes).unwrap();
        assert!(back == m);
        assert!(env.message_type == m.message_type());
    }
}

#[test]
fn message_decode_refuses_short_payloads_and_wrong_direction() {
    assert!(ClientToServerMessage::decode(MessageType::SendMessage, &vec![0; 31]).err().unwrap() == ProtocolError::FrameTooShort { expected: 32, actual: 31 });
    assert!(ClientToServerMessage::decode(MessageType::AuthResponse, &vec![0; 40]).err().unwrap() == ProtocolError::UnexpectedDirection);
    assert!(ServerToClientMessage::decode(MessageType::HeartbeatResponse, &vec![0; 7]).err().unwrap() == ProtocolError::FrameTooShort { expected: 8, actual: 7 });
}

#[test]
fn timestamp_window() {
    assert!(validate_timestamp(100, 110, 10).is_ok());
    assert!(validate_timestamp(110, 100, 10).is_ok());
    assert!(validate_timestamp(100, 111, 10).is_err());
}

#[test]
fn protocol_error_messages() {
    assert!(ProtocolError::PayloadTooLarge { actual: 1395, max: 1394 }.describe() == "payload length 1395 exceeds maximum allowed size of 1394 bytes");
    assert!(ProtocolError::FrameTooShort { expected: 30, actual: 3 }.describe() == "frame too short: expected 30 bytes, got 3");
    assert!(ProtocolError::UnknownMessageType(7).describe() == "unknown or invalid message type ID: 7");
    assert!(ProtocolError::Io.describe() == "general I/O protocol error");
}

#[test]
fn client_message_debug_text_redacts() {
    let auth = ClientToServerMessage::AuthRequest { token: b"hunter2".to_vec(), client_version: 3 };
    assert!(auth.debug_text() == "AuthRequest { token: \"[REDACTED]\", client_version: 3 }");
    let send = ClientToServerMessage::SendMessage { recipient_id: [0xab; 32], data: b"secret".to_vec() };
    assert!(send.debug_text() == format!("SendMessage {{ recipient_id: \"{}\", data_len: 6, data: \"[REDACTED]\" }}", "ab".repeat(32)));
    let key = ClientToServerMessage::KeyExchange { ephemeral_pubkey: [9; 32] };
    assert!(key.debug_text() == "KeyExchange { ephemeral_pubkey: \"[REDACTED]\" }");
    let raw = ClientToServerMessage::RawEcho { payload: vec![1, 2, 3, 4] };
    assert!(raw.debug_text() == "RawEcho { payload_len: 4 }");
}

#[test]
fn server_message_debug_text_redacts() {
    let auth = ServerToClientMessage::AuthResponse { success: true, session_id: [7; 16] };
    assert!(auth.debug_text() == "AuthResponse { success: true, session_id: \"[REDACTED]\" }");
    let accepted = ServerToClientMessage::ConnectionAccepted { session_id: [1; 16], assigned_peer_id: [2; 32] };
    assert!(accepted.debug_text() == "ConnectionAccepted { session_id: \"[REDACTED]\", assigned_peer_id: \"[REDACTED]\" }");
    let rejected = ServerToClientMessage::ConnectionRejected { reason_code: 4, message: "busy \"now\"".to_string() };
    assert!(rejected.debug_text() == "ConnectionRejected { reason_code: 4, message: \"busy \\\"now\\\"\" }");
    let status = ServerToClientMessage::DeliveryStatusEvent { message_id: 8, status: DeliveryStatus::Queued };
    assert!(status.debug_text() == "DeliveryStatusEvent { message_id: 8, status: Queued }");
    let peer = ServerToClientMessage::PeerEvent { peer_id: [0x0f; 32], status: PeerStatus::RelayActive };
    assert!(peer.debug_text() == format!("PeerEvent {{ peer_id: \"{}\", status: RelayActive }}", "0f".repeat(32)));
    let relay = ServerToClientMessage::RelayEvent { session_id: [3; 16], status: 2 };
    assert!(relay.debug_text() == "RelayEvent { session_id: \"[REDACTED]\", status: 2 }");
}
