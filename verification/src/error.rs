//! Error kinds of the relay: transport, protocol, validation, authentication,
//! authorization, routing and application failures.
use vstd::prelude::*;

use crate::text::{concat_text, decimal_string, decimal_text};

verus! {

/// I/O failures of the standard library travel through the transport errors unchanged.
#[verifier::external_type_specification]
#[verifier::external_body]
pub struct ExIoError(std::io::Error);

/// Failures of the Noise protocol library travel through the crypto and key errors unchanged.
#[verifier::external_type_specification]
#[verifier::external_body]
pub struct ExSnowError(snow::Error);

/// Top-level unified error enum for the EchoMesh system.
#[derive(Debug)]
pub enum EchoMeshError {
    Transport(TransportError),
    Protocol(ProtocolError),
    Validation(ValidationError),
    Authentication(AuthenticationError),
    Authorization(AuthorizationError),
    Routing(RoutingError),
    Crypto(CryptoError),
    Application(ApplicationError),
}

/// Errors originating from cryptographic operations (Noise, keys, ciphers).
#[derive(Debug)]
pub enum CryptoError {
    Snow(snow::Error),
    Key(String),
    MacMismatch,
    DecryptionFailed,
}

/// Errors originating at the physical or logical network transport layer.
#[derive(Debug)]
pub enum TransportError {
    Io(std::io::Error),
    ConnectionClosed,
    Timeout,
    Oversized { actual: usize, max: usize },
    MalformedHeader(String),
    NotConnected,
}

/// Errors related to wire protocol parsing, envelopes, framing, and versioning.
#[allow(inconsistent_fields)]
#[derive(Debug, Clone, Copy, PartialEq, Eq)]
pub enum ProtocolError {
    FrameTooShort { expected: usize, actual: usize },
    PayloadTooLarge { actual: usize, max: usize },
    UnsupportedVersion { expected: u8, actual: u8 },
    UnknownMessageType(u8),
    MalformedEnvelope(&'static str),
    UnexpectedDirection,
    Io,
}

/// Errors related to validation of message fields, bounds, and parameters.
#[allow(inconsistent_fields)]
#[derive(Debug, Clone, PartialEq, Eq)]
pub enum ValidationError {
    InvalidField { field: &'static str, reason: &'static str },
    PayloadTooLarge { actual: usize, max: usize },
    TimestampSkew { timestamp: u64, now: u64 },
    DuplicateMessageId(u64),
    MissingCorrelationId,
}

/// Errors encountered during authentication or pseudo-TLS camouflage verification.
#[derive(Debug, Clone, PartialEq, Eq)]
pub enum AuthenticationError {
    InvalidToken,
    Unauthenticated,
    HandshakeTimeout,
    SessionExpired,
}

/// Errors related to permissions or forbidden operations.
#[derive(Debug, Clone, PartialEq, Eq)]
pub enum AuthorizationError {
    PermissionDenied { action: &'static str, target: String },
    UnauthorizedPeer,
}

/// Errors encountered while routing messages across inbound and outbound pipelines.
#[derive(Debug, Clone, PartialEq, Eq)]
pub enum RoutingError {
    DestinationNotFound(String),
    UnhandledMessageType(u8),
    CorrelationNotFound(u64),
    HandlerFailed(String),
    ChannelClosed,
}

/// Domain / service-level application errors.
#[derive(Debug, Clone, PartialEq, Eq)]
pub enum ApplicationError {
    ServiceUnavailable(&'static str),
    Internal(&'static str),
    Custom { code: u32, message: String },
}

/// Safe protocol error payload returned to clients across the network wire.
/// Internal diagnostic strings remain in server logs and are never leaked here.
#[derive(Debug, Clone, PartialEq, Eq)]
pub struct ErrorResponsePayload {
    pub code: u32,
    pub correlation_id: u64,
    pub message: String,
}

impl ErrorResponsePayload {
    pub fn new(code: u32, correlation_id: u64, message: String) -> (r: Self)
        ensures
            r.code == code,
            r.correlation_id == correlation_id,
            r.message@ == message@,
    {
        ErrorResponsePayload { code, correlation_id, message }
    }
}

/// The message of a protocol error.
pub open spec fn protocol_error_text(e: ProtocolError) -> Seq<char> {
    match e {
        ProtocolError::FrameTooShort { expected, actual } => "frame too short: expected "@ + decimal_text(
            expected as nat,
        ) + " bytes, got "@ + decimal_text(actual as nat),
        ProtocolError::PayloadTooLarge { actual, max } => "payload length "@ + decimal_text(actual as nat)
            + " exceeds maximum allowed size of "@ + decimal_text(max as nat) + " bytes"@,
        ProtocolError::UnsupportedVersion { expected, actual } => "unsupported protocol version: expected "@
            + decimal_text(expected as nat) + ", got "@ + decimal_text(actual as nat),
        ProtocolError::UnknownMessageType(v) => "unknown or invalid message type ID: "@ + decimal_text(v as nat),
        ProtocolError::MalformedEnvelope(m) => "malformed message envelope: "@ + m@,
        ProtocolError::UnexpectedDirection => "unexpected message direction or role"@,
        ProtocolError::Io => "general I/O protocol error"@,
    }
}

impl ProtocolError {
    /// The message of this error.
    pub fn describe(&self) -> (r: String)
        ensures
            r@ == protocol_error_text(*self),
    {
        match *self {
            ProtocolError::FrameTooShort { expected, actual } => {
                let a = concat_text("frame too short: expected ", decimal_string(expected as u64).as_str());
                let b = concat_text(a.as_str(), " bytes, got ");
                concat_text(b.as_str(), decimal_string(actual as u64).as_str())
            },
            ProtocolError::PayloadTooLarge { actual, max } => {
                let a = concat_text("payload length ", decimal_string(actual as u64).as_str());
                let b = concat_text(a.as_str(), " exceeds maximum allowed size of ");
                let c = concat_text(b.as_str(), decimal_string(max as u64).as_str());
                concat_text(c.as_str(), " bytes")
            },
            ProtocolError::UnsupportedVersion { expected, actual } => {
                let a = concat_text("unsupported protocol version: expected ", decimal_string(expected as u64).as_str());
                let b = concat_text(a.as_str(), ", got ");
                concat_text(b.as_str(), decimal_string(actual as u64).as_str())
            },
            ProtocolError::UnknownMessageType(v) => concat_text(
                "unknown or invalid message type ID: ",
                decimal_string(v as u64).as_str(),
            ),
            ProtocolError::MalformedEnvelope(m) => concat_text("malformed message envelope: ", m),
            ProtocolError::UnexpectedDirection => "unexpected message direction or role".to_string(),
            ProtocolError::Io => "general I/O protocol error".to_string(),
        }
    }
}

/// Any I/O failure met while reading the protocol is a general I/O protocol error.
impl From<std::io::Error> for ProtocolError {
    fn from(e: std::io::Error) -> (r: Self) {
        ProtocolError::Io
    }
}

impl vstd::std_specs::convert::FromSpecImpl<std::io::Error> for ProtocolError {
    open spec fn obeys_from_spec() -> bool {
        true
    }

    open spec fn from_spec(v: std::io::Error) -> Self {
        ProtocolError::Io
    }
}

/// `t` begins with `p`.
pub open spec fn begins_with(t: Seq<char>, p: Seq<char>) -> bool {
    t.len() >= p.len() && t.subrange(0, p.len() as int) == p
}

/// `t` is `p` followed by a text that `inner` accepts.
pub open spec fn prefixed(t: Seq<char>, p: Seq<char>, inner: spec_fn(Seq<char>) -> bool) -> bool {
    begins_with(t, p) && inner(t.subrange(p.len() as int, t.len() as int))
}

/// `e.to_string()` for an I/O error: its message, which comes from the
/// operating system or the error's constructor and is not stated.
#[verifier::external_body]
pub(crate) fn io_error_text(e: &std::io::Error) -> (r: String) {
    e.to_string()
}

/// `e.to_string()` for a snow error: the description of its kind, which is
/// not stated.
#[verifier::external_body]
pub(crate) fn snow_error_text(e: &snow::Error) -> (r: String) {
    e.to_string()
}

/// The message of a validation error.
pub open spec fn validation_error_text(e: ValidationError) -> Seq<char> {
    match e {
        ValidationError::InvalidField { field, reason } => "field '"@ + field@ + "' is invalid: "@ + reason@,
        ValidationError::PayloadTooLarge { actual, max } => "payload exceeds maximum size: "@ + decimal_text(actual as nat)
            + " > "@ + decimal_text(max as nat),
        ValidationError::TimestampSkew { timestamp, now } => "message timestamp is out of acceptable time window: timestamp="@
            + decimal_text(timestamp as nat) + ", now="@ + decimal_text(now as nat),
        ValidationError::DuplicateMessageId(id) => "duplicate message ID detected: "@ + decimal_text(id as nat),
        ValidationError::MissingCorrelationId => "missing required correlation ID for response"@,
    }
}

impl ValidationError {
    /// The message of this error.
    pub fn describe(&self) -> (r: String)
        ensures
            r@ == validation_error_text(*self),
    {
        match self {
            ValidationError::InvalidField { field, reason } => {
                let a = concat_text("field '", field);
                let b = concat_text(a.as_str(), "' is invalid: ");
                concat_text(b.as_str(), reason)
            },
            ValidationError::PayloadTooLarge { actual, max } => {
                let a = concat_text("payload exceeds maximum size: ", decimal_string(*actual as u64).as_str());
                let b = concat_text(a.as_str(), " > ");
                concat_text(b.as_str(), decimal_string(*max as u64).as_str())
            },
            ValidationError::TimestampSkew { timestamp, now } => {
                let a = concat_text(
                    "message timestamp is out of acceptable time window: timestamp=",
                    decimal_string(*timestamp).as_str(),
                );
                let b = concat_text(a.as_str(), ", now=");
                concat_text(b.as_str(), decimal_string(*now).as_str())
            },
            ValidationError::DuplicateMessageId(id) => concat_text(
                "duplicate message ID detected: ",
                decimal_string(*id).as_str(),
            ),
            ValidationError::MissingCorrelationId => "missing required correlation ID for response".to_string(),
        }
    }
}

/// The message of an authentication error.
pub open spec fn authentication_error_text(e: AuthenticationError) -> Seq<char> {
    match e {
        AuthenticationError::InvalidToken => "invalid secret token"@,
        AuthenticationError::Unauthenticated => "unauthenticated handshake attempt"@,
        AuthenticationError::HandshakeTimeout => "handshake timed out"@,
        AuthenticationError::SessionExpired => "session expired or revoked"@,
    }
}

impl AuthenticationError {
    /// The message of this error.
    pub fn describe(&self) -> (r: String)
        ensures
            r@ == authentication_error_text(*self),
    {
        match self {
            AuthenticationError::InvalidToken => "invalid secret token".to_string(),
            AuthenticationError::Unauthenticated => "unauthenticated handshake attempt".to_string(),
            AuthenticationError::HandshakeTimeout => "handshake timed out".to_string(),
            AuthenticationError::SessionExpired => "session expired or revoked".to_string(),
        }
    }
}

/// The message of an authorization error.
pub open spec fn authorization_error_text(e: AuthorizationError) -> Seq<char> {
    match e {
        AuthorizationError::PermissionDenied { action, target } => "permission denied for action '"@ + action@
            + "' on target '"@ + target@ + "'"@,
        AuthorizationError::UnauthorizedPeer => "unauthorized peer identity"@,
    }
}

impl AuthorizationError {
    /// The message of this error.
    pub fn describe(&self) -> (r: String)
        ensures
            r@ == authorization_error_text(*self),
    {
        match self {
            AuthorizationError::PermissionDenied { action, target } => {
                let a = concat_text("permission denied for action '", action);
                let b = concat_text(a.as_str(), "' on target '");
                let c = concat_text(b.as_str(), target.as_str());
                concat_text(c.as_str(), "'")
            },
            AuthorizationError::UnauthorizedPeer => "unauthorized peer identity".to_string(),
        }
    }
}

/// The message of a routing error.
pub open spec fn routing_error_text(e: RoutingError) -> Seq<char> {
    match e {
        RoutingError::DestinationNotFound(p) => "no route found for destination peer: "@ + p@,
        RoutingError::UnhandledMessageType(t) => "unhandled message type: "@ + decimal_text(t as nat),
        RoutingError::CorrelationNotFound(id) => "pending request not found for correlation ID: "@ + decimal_text(id as nat),
        RoutingError::HandlerFailed(m) => "handler execution failed: "@ + m@,
        RoutingError::ChannelClosed => "outbound channel is closed or full"@,
    }
}

impl RoutingError {
    /// The message of this error.
    pub fn describe(&self) -> (r: String)
        ensures
            r@ == routing_error_text(*self),
    {
        match self {
            RoutingError::DestinationNotFound(p) => concat_text("no route found for destination peer: ", p.as_str()),
            RoutingError::UnhandledMessageType(t) => concat_text(
                "unhandled message type: ",
                decimal_string(*t as u64).as_str(),
            ),
            RoutingError::CorrelationNotFound(id) => concat_text(
                "pending request not found for correlation ID: ",
                decimal_string(*id).as_str(),
            ),
            RoutingError::HandlerFailed(m) => concat_text("handler execution failed: ", m.as_str()),
            RoutingError::ChannelClosed => "outbound channel is closed or full".to_string(),
        }
    }
}

/// The message of an application error.
pub open spec fn application_error_text(e: ApplicationError) -> Seq<char> {
    match e {
        ApplicationError::ServiceUnavailable(s) => "service unavailable: "@ + s@,
        ApplicationError::Internal(s) => "internal service failure: "@ + s@,
        ApplicationError::Custom { code, message } => "service-specific error: code="@ + decimal_text(code as nat)
            + ", message="@ + message@,
    }
}

impl ApplicationError {
    /// The message of this error.
    pub fn describe(&self) -> (r: String)
        ensures
            r@ == application_error_text(*self),
    {
        match self {
            ApplicationError::ServiceUnavailable(s) => concat_text("service unavailable: ", s),
            ApplicationError::Internal(s) => concat_text("internal service failure: ", s),
            ApplicationError::Custom { code, message } => {
                let a = concat_text("service-specific error: code=", decimal_string(*code as u64).as_str());
                let b = concat_text(a.as_str(), ", message=");
                concat_text(b.as_str(), message.as_str())
            },
        }
    }
}

/// Whether `t` is the message of a transport error: exact but for the
/// message of an I/O error, which only opens with its label.
pub open spec fn transport_error_describes(e: TransportError, t: Seq<char>) -> bool {
    match e {
        TransportError::Io(_) => begins_with(t, "underlying I/O error: "@),
        TransportError::ConnectionClosed => t == "transport connection closed unexpectedly"@,
        TransportError::Timeout => t == "operation timed out"@,
        TransportError::Oversized { actual, max } => t == "buffer overflow or oversized frame: "@ + decimal_text(
            actual as nat,
        ) + " bytes > maximum "@ + decimal_text(max as nat) + " bytes"@,
        TransportError::MalformedHeader(m) => t == "malformed transport header: "@ + m@,
        TransportError::NotConnected => t == "transport not connected"@,
    }
}

impl TransportError {
    /// The message of this error.
    pub fn describe(&self) -> (r: String)
        ensures
            transport_error_describes(*self, r@),
    {
        match self {
            TransportError::Io(e) => {
                let r = concat_text("underlying I/O error: ", io_error_text(e).as_str());
                assert(r@.subrange(0, "underlying I/O error: "@.len() as int) =~= "underlying I/O error: "@);
                r
            },
            TransportError::ConnectionClosed => "transport connection closed unexpectedly".to_string(),
            TransportError::Timeout => "operation timed out".to_string(),
            TransportError::Oversized { actual, max } => {
                let a = concat_text("buffer overflow or oversized frame: ", decimal_string(*actual as u64).as_str());
                let b = concat_text(a.as_str(), " bytes > maximum ");
                let c = concat_text(b.as_str(), decimal_string(*max as u64).as_str());
                concat_text(c.as_str(), " bytes")
            },
            TransportError::MalformedHeader(m) => concat_text("malformed transport header: ", m.as_str()),
            TransportError::NotConnected => "transport not connected".to_string(),
        }
    }
}

/// Whether `t` is the message of a cryptographic error: exact but for the
/// message of a snow error, which only opens with its label.
pub open spec fn crypto_error_describes(e: CryptoError, t: Seq<char>) -> bool {
    match e {
        CryptoError::Snow(_) => begins_with(t, "Noise cryptographic failure: "@),
        CryptoError::Key(m) => t == "key error: "@ + m@,
        CryptoError::MacMismatch => t == "MAC or authentication tag verification failed"@,
        CryptoError::DecryptionFailed => t == "decryption failed"@,
    }
}

impl CryptoError {
    /// The message of this error.
    pub fn describe(&self) -> (r: String)
        ensures
            crypto_error_describes(*self, r@),
    {
        match self {
            CryptoError::Snow(e) => {
                let r = concat_text("Noise cryptographic failure: ", snow_error_text(e).as_str());
                assert(r@.subrange(0, "Noise cryptographic failure: "@.len() as int) =~= "Noise cryptographic failure: "@);
                r
            },
            CryptoError::Key(m) => concat_text("key error: ", m.as_str()),
            CryptoError::MacMismatch => "MAC or authentication tag verification failed".to_string(),
            CryptoError::DecryptionFailed => "decryption failed".to_string(),
        }
    }
}

/// Whether `t` is the message of an error of the system: the label of its
/// layer, then the message of the error of that layer.
pub open spec fn echomesh_error_describes(e: EchoMeshError, t: Seq<char>) -> bool {
    match e {
        EchoMeshError::Transport(x) => prefixed(t, "transport error: "@, |m: Seq<char>| transport_error_describes(x, m)),
        EchoMeshError::Protocol(x) => t == "protocol error: "@ + protocol_error_text(x),
        EchoMeshError::Validation(x) => t == "validation error: "@ + validation_error_text(x),
        EchoMeshError::Authentication(x) => t == "authentication error: "@ + authentication_error_text(x),
        EchoMeshError::Authorization(x) => t == "authorization error: "@ + authorization_error_text(x),
        EchoMeshError::Routing(x) => t == "routing error: "@ + routing_error_text(x),
        EchoMeshError::Crypto(x) => prefixed(t, "crypto error: "@, |m: Seq<char>| crypto_error_describes(x, m)),
        EchoMeshError::Application(x) => t == "application error: "@ + application_error_text(x),
    }
}

impl EchoMeshError {
    /// The message of this error.
    pub fn describe(&self) -> (r: String)
        ensures
            echomesh_error_describes(*self, r@),
    {
        match self {
            EchoMeshError::Transport(x) => {
                let inner = x.describe();
                let r = concat_text("transport error: ", inner.as_str());
                assert(r@.subrange(0, "transport error: "@.len() as int) =~= "transport error: "@);
                assert(r@.subrange("transport error: "@.len() as int, r@.len() as int) =~= inner@);
                r
            },
            EchoMeshError::Protocol(x) => concat_text("protocol error: ", x.describe().as_str()),
            EchoMeshError::Validation(x) => concat_text("validation error: ", x.describe().as_str()),
            EchoMeshError::Authentication(x) => concat_text("authentication error: ", x.describe().as_str()),
            EchoMeshError::Authorization(x) => concat_text("authorization error: ", x.describe().as_str()),
            EchoMeshError::Routing(x) => concat_text("routing error: ", x.describe().as_str()),
            EchoMeshError::Crypto(x) => {
                let inner = x.describe();
                let r = concat_text("crypto error: ", inner.as_str());
                assert(r@.subrange(0, "crypto error: "@.len() as int) =~= "crypto error: "@);
                assert(r@.subrange("crypto error: "@.len() as int, r@.len() as int) =~= inner@);
                r
            },
            EchoMeshError::Application(x) => concat_text("application error: ", x.describe().as_str()),
        }
    }
}

} // verus!
