//! Key material of the relay: Base64, key files and their paths, and the
//! stored authentication token.
pub mod keys;

pub use keys::{
    base64_decode, base64_encode, default_key_path, derive_pubkey_path, derive_public_key, generate_keypair,
    parse_key_file_arg, resolve_key_file_path, KeyError, KeyPair, DEFAULT_KEY_FILE, FALLBACK_KEY_FILE,
};
