use echomesh_relay::crypto::keys::{
    base64_decode, base64_encode, default_key_path, derive_pubkey_path, derive_public_key, derive_relay_json_path,
    derive_token_path, existing_auth_token, generate_keypair, keypair_from_key_file, parse_key_file_arg,
    parse_private_key_bytes, relay_json_content, resolve_key_file_path, token_from_relay_json, KeyError, KeyPair,
    DEFAULT_KEY_FILE, FALLBACK_KEY_FILE,
};
use echomesh_relay::transport::obfuscation::hex_encode;

#[test]
fn test_base64_encode_decode_roundtrip() {
    let vectors: &[&[u8]] = &[
        b"", b"f", b"fo", b"foo", b"foob", b"fooba", b"foobar",
        &[0u8; 32], &[0xff; 32], b"EchoMesh Stateless Relay Key Persistence!",
    ];
    for &vec in vectors {
        let encoded = base64_encode(vec);
        let decoded = base64_decode(&encoded).expect("decode valid base64");
        assert_eq!(decoded, vec, "Failed roundtrip for vector: {:?}", vec);
    }
}

#[test]
fn test_derive_public_key_matches_generated() {
    let (private_key, expected_public) = generate_keypair().expect("generate keypair");
    let derived_public = derive_public_key(&private_key).expect("derive public key");
    assert_eq!(derived_public, expected_public);
}

#[test]
fn test_parse_key_file_arg_variants() {
    let args1 = vec![
        "echomesh-relay".to_string(),
        "--key-file".to_string(),
        "/path/to/relay.key".to_string(),
    ];
    assert_eq!(parse_key_file_arg(&args1), Some("/path/to/relay.key".to_string()));
    let args2 = vec![
        "echomesh-relay".to_string(),
        "--key-file=/custom/relay.key".to_string(),
    ];
    assert_eq!(parse_key_file_arg(&args2), Some("/custom/relay.key".to_string()));
    let args3 = vec!["echomesh-relay".to_string(), "--show-secrets".to_string()];
    assert_eq!(parse_key_file_arg(&args3), None);
}

#[test]
fn base64_known_values() {
    assert_eq!(base64_encode(b"foobar"), "Zm9vYmFy");
    assert_eq!(base64_encode(b"fo"), "Zm8=");
    assert_eq!(base64_encode(b"f"), "Zg==");
    assert_eq!(base64_decode("  Zm9v\nYmFy  "), Some(b"foobar".to_vec()));
    assert_eq!(base64_decode(""), Some(Vec::new()));
    assert_eq!(base64_decode("Zm9v*"), None);
}

#[test]
fn derive_public_key_refuses_wrong_length() {
    let expected = snow::Error::Init(snow::error::InitStage::GetDhImpl);
    assert_eq!(derive_public_key(&[1u8; 31]), Err(expected));
    assert_eq!(derive_public_key(&[1u8; 33]), Err(snow::Error::Init(snow::error::InitStage::GetDhImpl)));
    let a = derive_public_key(&[7u8; 32]).expect("32-byte key");
    let b = derive_public_key(&[7u8; 32]).expect("32-byte key");
    assert_eq!(a, b);
    assert_eq!(a.len(), 32);
    assert_ne!(a, vec![7u8; 32]);
}

#[test]
fn private_key_forms() {
    let raw = [5u8; 32];
    assert_eq!(parse_private_key_bytes(&raw).unwrap(), raw.to_vec());
    let hex = format!("  {}\n", hex_encode(&raw));
    assert_eq!(parse_private_key_bytes(hex.as_bytes()).unwrap(), raw.to_vec());
    let b64 = format!("{}\n", base64_encode(&raw));
    assert_eq!(parse_private_key_bytes(b64.as_bytes()).unwrap(), raw.to_vec());
    match parse_private_key_bytes(b"too short") {
        Err(KeyError::InvalidKey(m)) => {
            assert_eq!(m, "expected 32 bytes (raw, 64-char hex, or base64), got 9 bytes")
        },
        _ => panic!("expected an invalid key"),
    }
}

#[test]
fn key_file_paths() {
    assert_eq!(default_key_path(true, false), DEFAULT_KEY_FILE);
    assert_eq!(default_key_path(false, true), DEFAULT_KEY_FILE);
    assert_eq!(default_key_path(false, false), FALLBACK_KEY_FILE);
    assert_eq!(derive_pubkey_path("/etc/echomesh/relay.key"), "/etc/echomesh/relay.pub");
    assert_eq!(derive_pubkey_path("relay.key"), "relay.pub");
    assert_eq!(derive_token_path("/etc/echomesh/relay.key"), "/etc/echomesh/relay.token");
    assert_eq!(derive_relay_json_path("/tmp/x/relay.key"), "/tmp/x/relay.json");
    assert_eq!(derive_token_path("/tmp/x/relay.token"), "/tmp/x/relay.token");
}

#[test]
fn key_file_resolution_order() {
    let args = vec!["relay".to_string(), "--key-file".to_string(), "/a.key".to_string()];
    assert_eq!(resolve_key_file_path(&args, Some("/env.key"), "/d.key".to_string()), "/a.key");
    let none = vec!["relay".to_string()];
    assert_eq!(resolve_key_file_path(&none, Some("  /env.key "), "/d.key".to_string()), "/env.key");
    assert_eq!(resolve_key_file_path(&none, Some("   "), "/d.key".to_string()), "/d.key");
    assert_eq!(resolve_key_file_path(&none, None, "/d.key".to_string()), "/d.key");
}

#[test]
fn keypair_from_stored_key() {
    let raw = [9u8; 32];
    let kp = keypair_from_key_file(&raw, "/srv/relay.key").expect("valid key");
    assert_eq!(kp.private_key, raw.to_vec());
    assert_eq!(kp.public_key, derive_public_key(&raw).unwrap());
    assert_eq!(kp.public_key_base64, base64_encode(&kp.public_key));
    assert_eq!(kp.pub_path, "/srv/relay.pub");
    assert!(keypair_from_key_file(b"nope", "/srv/relay.key").is_err());
}

#[test]
fn saved_token_sources() {
    let token = [0xABu8; 32];
    let json = relay_json_content("PUB", &hex_encode(&token));
    assert_eq!(
        json,
        format!("{{\n  \"public_key_base64\": \"PUB\",\n  \"secret_token_hex\": \"{}\"\n}}\n", hex_encode(&token))
    );
    assert_eq!(token_from_relay_json(&json), Some(Some(token.to_vec())));
    assert_eq!(token_from_relay_json("{\"secret_token\": \"plain\"}"), Some(Some(b"plain".to_vec())));
    assert_eq!(token_from_relay_json("{\"secret_token_hex\": broken"), None);
    assert_eq!(token_from_relay_json("{}"), Some(None));
    assert_eq!(existing_auth_token(Some(&json), None), Some(Some(token.to_vec())));
    assert_eq!(existing_auth_token(Some("{}"), Some(&token)), Some(Some(token.to_vec())));
    assert_eq!(existing_auth_token(None, Some(b"  6869 \n")), Some(Some(b"hi".to_vec())));
    assert_eq!(existing_auth_token(None, Some(&[0u8; 32])), Some(Some(vec![0u8; 32])));
    assert_eq!(existing_auth_token(None, Some(b"  \n")), Some(None));
    assert_eq!(existing_auth_token(None, None), Some(None));
}

#[test]
fn keypair_debug_text_hides_private_key() {
    let kp = KeyPair {
        private_key: vec![0xab; 32],
        public_key: vec![1; 32],
        public_key_base64: "AQE=".to_string(),
        key_path: "/srv/relay.key".to_string(),
        pub_path: "/srv/relay.pub".to_string(),
    };
    assert!(
        kp.debug_text()
            == "KeyPair { public_key_base64: \"AQE=\", key_path: \"/srv/relay.key\", pub_path: \"/srv/relay.pub\", private_key: \"[REDACTED]\" }"
    );
    assert!(!kp.debug_text().contains("abab"));
}

#[test]
fn recorded_token_reads_back() {
    let token: Vec<u8> = (1u8..=32).collect();
    let public_key_base64 = base64_encode(&[7u8; 32]);
    let json = relay_json_content(&public_key_base64, &hex_encode(&token));
    assert_eq!(existing_auth_token(Some(&json), Some(b"ignored")), Some(Some(token.clone())));
    let line = format!("{}\n", hex_encode(&token));
    assert_eq!(existing_auth_token(None, Some(line.as_bytes())), Some(Some(token.clone())));
    assert_eq!(
        echomesh_relay::server::config::read_saved_token(Some(&json), Some(b"ignored")),
        Some(Some(token.clone()))
    );
    assert_eq!(echomesh_relay::server::config::read_saved_token(None, Some(line.as_bytes())), Some(Some(token)));
}

#[test]
fn invalid_utf8_token_file_is_read_lossily() {
    // One invalid byte becomes U+FFFD, which is not hexadecimal: the raw text is the token.
    assert_eq!(existing_auth_token(None, Some(&[0xff])), Some(Some(vec![0xef, 0xbf, 0xbd])));
    // Decoding "\u{FFFD}A" pair by pair would cut the replacement character.
    assert_eq!(existing_auth_token(None, Some(&[0xff, 0x41])), None);
}
