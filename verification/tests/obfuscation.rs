use echomesh_relay::transport::obfuscation::{
    hex_decode, hex_encode, hex_text_is_safe, parse_client_hello, ClientHelloStatus, ObfuscationError, PseudoTlsBuilder, TokenValidator,
    TLS_HANDSHAKE_CONTENT_TYPE,
};

#[test]
fn hmac_cover_auth_round_trip_without_wire_secret() {
    let secret = b"my_secret_token_1234";
    let bytes = PseudoTlsBuilder::new(secret.to_vec(), "cloudflare.com".to_string()).build();
    assert!(bytes[0] == TLS_HANDSHAKE_CONTENT_TYPE);
    assert!(!bytes.windows(secret.len()).any(|window| window == secret));

    let parsed = match parse_client_hello(&bytes) {
        ClientHelloStatus::Complete(parsed) => parsed,
        _ => panic!("expected a complete ClientHello"),
    };
    assert!(parsed.sni.as_deref() == Some("cloudflare.com"));
    assert!(parsed.is_tls13);
    assert!(parsed.session_id.len() == 32);
    assert!(TokenValidator::new(secret.to_vec()).validate(&parsed));
    assert!(!TokenValidator::new(b"wrong_token".to_vec()).validate(&parsed));
}

#[test]
fn cover_proof_is_fresh_and_legacy_sni_mode_never_leaks_secret() {
    let secret = b"supersecret";
    let first = PseudoTlsBuilder::new(secret.to_vec(), "microsoft.com".to_string())
        .embed_in_sni(true)
        .build();
    let second = PseudoTlsBuilder::new(secret.to_vec(), "microsoft.com".to_string()).build();
    assert!(first != second);
    assert!(!first.windows(secret.len()).any(|window| window == secret));
    assert!(!second.windows(secret.len()).any(|window| window == secret));
    for bytes in [&first, &second] {
        let parsed = match parse_client_hello(bytes) {
            ClientHelloStatus::Complete(parsed) => parsed,
            _ => panic!("expected a complete ClientHello"),
        };
        assert!(parsed.sni.as_deref() == Some("microsoft.com"));
        assert!(TokenValidator::new(secret.to_vec()).validate(&parsed));
    }
}

#[test]
fn tampered_challenge_or_proof_is_rejected() {
    let secret = b"server-token";
    let bytes = PseudoTlsBuilder::new(secret.to_vec(), "cloudflare.com".to_string()).build();
    let mut parsed = match parse_client_hello(&bytes) {
        ClientHelloStatus::Complete(parsed) => parsed,
        _ => panic!("expected a complete ClientHello"),
    };
    let validator = TokenValidator::new(secret.to_vec());
    assert!(validator.validate(&parsed));
    parsed.random[0] ^= 1;
    assert!(!validator.validate(&parsed));
}

#[test]
fn non_tls_and_short_packets() {
    let http_probe = b"GET / HTTP/1.1\r\nHost: example.com\r\n\r\n";
    assert!(parse_client_hello(http_probe) == ClientHelloStatus::Invalid(ObfuscationError::NotTlsHandshake));
    assert!(parse_client_hello(&[0x16, 0x03, 0x01]) == ClientHelloStatus::NeedMoreData { expected_record_len: 5 });
}

#[test]
fn insecure_bypass_remains_explicit() {
    let parsed = match parse_client_hello(
        &PseudoTlsBuilder::new(b"attacker".to_vec(), "cloudflare.com".to_string()).build(),
    ) {
        ClientHelloStatus::Complete(parsed) => parsed,
        _ => panic!("expected a complete ClientHello"),
    };
    let validator = TokenValidator::new(b"expected".to_vec());
    assert!(!validator.validate(&parsed));
    assert!(validator.with_insecure_no_token(true).validate(&parsed));
}

#[test]
fn hello_status_edges() {
    assert!(parse_client_hello(&[]) == ClientHelloStatus::NeedMoreData { expected_record_len: 5 });
    assert!(parse_client_hello(&[0x16, 0x03, 0x01, 0x00, 0x10, 0x01]) == ClientHelloStatus::NeedMoreData { expected_record_len: 21 });
    assert!(parse_client_hello(&[0x16, 0x03, 0x01, 0xff, 0xff]) == ClientHelloStatus::Invalid(ObfuscationError::PacketTooLarge));
    assert!(parse_client_hello(&[0x16, 0x03, 0x01, 0x00, 0x01, 0x02]) == ClientHelloStatus::Invalid(ObfuscationError::NotClientHello));
}

#[test]
fn expected_sni_is_checked_case_insensitively() {
    let secret = b"tok";
    let bytes = PseudoTlsBuilder::new(secret.to_vec(), "CloudFlare.com".to_string()).build();
    let parsed = match parse_client_hello(&bytes) {
        ClientHelloStatus::Complete(parsed) => parsed,
        _ => panic!("expected a complete ClientHello"),
    };
    assert!(parsed.sni.as_deref() == Some("cloudflare.com"));
    let v = TokenValidator::new(secret.to_vec()).with_expected_sni("CLOUDFLARE.COM".to_string());
    assert!(v.validate(&parsed));
    let w = TokenValidator::new(secret.to_vec()).with_expected_sni("example.com".to_string());
    assert!(!w.validate(&parsed));
    assert!(!TokenValidator::new(Vec::new()).validate(&parsed));
}

#[test]
fn hex_round_trip_and_refusals() {
    assert!(hex_encode(&[0x00, 0xab, 0x10]) == "00ab10");
    assert!(hex_decode(" 00ab10 ") == Some(vec![0x00, 0xab, 0x10]));
    assert!(hex_decode("abc") == None);
    assert!(hex_decode("zz") == None);
    assert!(hex_decode("+f") == Some(vec![0x0f]));
}

#[test]
fn token_validator_debug_text_hides_secret() {
    let validator = TokenValidator::new(b"top-secret".to_vec()).with_expected_sni("Example.COM".to_string());
    assert!(
        validator.debug_text()
            == "TokenValidator { secret: \"[REDACTED]\", expected_sni: Some(\"example.com\"), insecure_no_token: false }"
    );
    let open = TokenValidator::new(Vec::new()).with_insecure_no_auth(true);
    assert!(open.debug_text() == "TokenValidator { secret: \"[REDACTED]\", expected_sni: None, insecure_no_token: true }");
    assert!(!validator.debug_text().contains("top-secret"));
}

#[test]
fn parsed_client_hello_debug_text_hides_random_and_session_id() {
    let bytes = PseudoTlsBuilder::new(b"k".to_vec(), "cloudflare.com".to_string()).build();
    let parsed = match parse_client_hello(&bytes) {
        ClientHelloStatus::Complete(parsed) => parsed,
        _ => panic!("expected a complete ClientHello"),
    };
    let expected = format!(
        "ParsedClientHello {{ legacy_version: 0x0303, random: \"[REDACTED]\", session_id: \"[REDACTED]\", cipher_suites_count: {}, sni: Some(\"cloudflare.com\"), is_tls13: true }}",
        parsed.cipher_suites.len()
    );
    assert!(parsed.debug_text() == expected);
    assert!(!parsed.debug_text().contains(&hex_encode(&parsed.session_id)));
}

#[test]
fn bytes_after_the_hello_record_do_not_change_the_parse() {
    let bytes = PseudoTlsBuilder::new(b"token".to_vec(), "example.org".to_string()).build();
    let alone = parse_client_hello(&bytes);
    assert!(matches!(alone, ClientHelloStatus::Complete(_)));
    let mut followed = bytes.clone();
    followed.extend_from_slice(&[0x00, 0x10, 0xde, 0xad, 0xbe, 0xef]);
    assert!(parse_client_hello(&followed) == alone);
    let short = [0x16, 0x03, 0x01, 0x00, 0x01, 0x02];
    let mut short_followed = short.to_vec();
    short_followed.extend_from_slice(&[0x01, 0x00, 0x00]);
    assert!(parse_client_hello(&short_followed) == parse_client_hello(&short));
}

#[test]
fn hex_decoding_stops_before_a_piece_it_cannot_reach() {
    assert!(hex_text_is_safe("zza\u{e9}a"));
    assert!(hex_decode("zza\u{e9}a") == None);
    assert!(!hex_text_is_safe("a\u{e9}a"));
    assert!(!hex_text_is_safe("00a\u{20ac}"));
    assert!(hex_text_is_safe("\u{e9}00"));
    assert!(hex_decode("\u{e9}00") == None);
    assert!(hex_text_is_safe("0a1b"));
}
