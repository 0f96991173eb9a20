//! Transports of the relay: pseudo-TLS camouflage, the Noise session and
//! the framing of packets on streams.
pub mod cover_proof;
pub mod noise;
pub mod obfuscation;
pub mod secure;
pub mod tcp;

pub use noise::{
    client_handshake_finish, client_handshake_start, server_handshake_reply, NoiseError, NoiseHandshake, NoiseSession,
    ENCRYPTED_FRAME_SIZE, NOISE_PATTERN,
};
pub use obfuscation::{
    hex_decode, hex_encode, parse_client_hello, ClientHelloStatus, ObfuscationError, ParsedClientHello,
    PseudoTlsBuilder, TokenValidator,
};
pub use secure::SecureTransport;
pub use tcp::TcpTransport;
