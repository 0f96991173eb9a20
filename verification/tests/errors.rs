use echomesh_relay::crypto::keys::KeyError;
use echomesh_relay::error::{
    ApplicationError, AuthenticationError, AuthorizationError, CryptoError, EchoMeshError, ProtocolError, RoutingError,
    TransportError, ValidationError,
};
use echomesh_relay::transport::noise::NoiseError;

#[test]
fn validation_and_routing_messages() {
    assert!(
        ValidationError::InvalidField { field: "recipient", reason: "empty" }.describe()
            == "field 'recipient' is invalid: empty"
    );
    assert!(ValidationError::PayloadTooLarge { actual: 9, max: 8 }.describe() == "payload exceeds maximum size: 9 > 8");
    assert!(
        ValidationError::TimestampSkew { timestamp: 1, now: 400 }.describe()
            == "message timestamp is out of acceptable time window: timestamp=1, now=400"
    );
    assert!(ValidationError::DuplicateMessageId(77).describe() == "duplicate message ID detected: 77");
    assert!(ValidationError::MissingCorrelationId.describe() == "missing required correlation ID for response");
    assert!(RoutingError::UnhandledMessageType(9).describe() == "unhandled message type: 9");
    assert!(RoutingError::DestinationNotFound("ab".to_string()).describe() == "no route found for destination peer: ab");
    assert!(RoutingError::CorrelationNotFound(12).describe() == "pending request not found for correlation ID: 12");
    assert!(RoutingError::HandlerFailed("boom".to_string()).describe() == "handler execution failed: boom");
    assert!(RoutingError::ChannelClosed.describe() == "outbound channel is closed or full");
}

#[test]
fn authentication_authorization_and_application_messages() {
    assert!(AuthenticationError::InvalidToken.describe() == "invalid secret token");
    assert!(AuthenticationError::HandshakeTimeout.describe() == "handshake timed out");
    assert!(
        AuthorizationError::PermissionDenied { action: "send", target: "peer".to_string() }.describe()
            == "permission denied for action 'send' on target 'peer'"
    );
    assert!(AuthorizationError::UnauthorizedPeer.describe() == "unauthorized peer identity");
    assert!(ApplicationError::ServiceUnavailable("echo").describe() == "service unavailable: echo");
    assert!(ApplicationError::Internal("db").describe() == "internal service failure: db");
    assert!(
        ApplicationError::Custom { code: 42, message: "nope".to_string() }.describe()
            == "service-specific error: code=42, message=nope"
    );
}

#[test]
fn layered_messages() {
    assert!(
        TransportError::Oversized { actual: 70000, max: 65535 }.describe()
            == "buffer overflow or oversized frame: 70000 bytes > maximum 65535 bytes"
    );
    assert!(TransportError::Timeout.describe() == "operation timed out");
    let io = TransportError::Io(std::io::Error::new(std::io::ErrorKind::Other, "disk gone")).describe();
    assert!(io == "underlying I/O error: disk gone");
    assert!(CryptoError::Key("short".to_string()).describe() == "key error: short");
    assert!(CryptoError::DecryptionFailed.describe() == "decryption failed");
    assert!(
        EchoMeshError::Protocol(ProtocolError::UnknownMessageType(3)).describe()
            == "protocol error: unknown or invalid message type ID: 3"
    );
    assert!(
        EchoMeshError::Transport(TransportError::ConnectionClosed).describe()
            == "transport error: transport connection closed unexpectedly"
    );
    assert!(
        EchoMeshError::Crypto(CryptoError::MacMismatch).describe()
            == "crypto error: MAC or authentication tag verification failed"
    );
    assert!(EchoMeshError::Routing(RoutingError::ChannelClosed).describe() == "routing error: outbound channel is closed or full");
}

#[test]
fn key_and_noise_messages() {
    assert!(KeyError::InvalidKey("bad".to_string()).describe() == "Invalid key: bad");
    let io = KeyError::Io(std::io::Error::new(std::io::ErrorKind::NotFound, "missing")).describe();
    assert!(io == "I/O error: missing");
    assert!(
        NoiseError::BadMessageSize { expected: 1436, actual: 1437 }.describe()
            == "Unexpected message size: expected 1436, got 1437"
    );
    assert!(
        NoiseError::Protocol(ProtocolError::Io).describe() == "Protocol frame error: general I/O protocol error"
    );
    assert!(NoiseError::StreamClosed.describe() == "Stream closed unexpectedly");
    let snow = NoiseError::Snow(snow::Error::Decrypt).describe();
    assert!(snow.starts_with("Noise cryptographic error: "));
}

#[test]
fn io_failures_become_protocol_io_errors() {
    let e = ProtocolError::from(std::io::Error::new(std::io::ErrorKind::BrokenPipe, "pipe"));
    assert!(e == ProtocolError::Io);
}
