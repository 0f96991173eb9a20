//! EchoMesh stateless relay: wire formats, pseudo-TLS camouflage, routing
//! decisions and the other logic of the relay, with their contracts.

pub mod cli;
pub mod client;
pub mod clock;
pub mod config;
pub mod crypto;
pub mod error;
pub mod protocol;
pub mod server;
pub mod table;
pub mod text;
pub mod transport;

pub use config::{DEFAULT_SECRET_TOKEN, ECHO_PEER_ID, ECHO_SERVICE_PEER_ID};
pub use crypto::{
    base64_decode, base64_encode, default_key_path, derive_pubkey_path, derive_public_key, generate_keypair,
    parse_key_file_arg, resolve_key_file_path, KeyError, KeyPair, DEFAULT_KEY_FILE, FALLBACK_KEY_FILE,
};
pub use protocol::{Frame, FrameCodec, ProtocolError, FRAME_SIZE, MAX_PAYLOAD_SIZE};
pub use server::{ListenerConfig, PrefixedStream, RelaySecrets};
pub use transport::{
    client_handshake_finish, client_handshake_start, hex_decode, hex_encode, server_handshake_reply,
    ClientHelloStatus, NoiseSession, ParsedClientHello, PseudoTlsBuilder, TokenValidator,
};
