use echomesh_relay::error::{CryptoError, TransportError};
use echomesh_relay::protocol::frame::{Frame, FRAME_SIZE, MAX_PAYLOAD_SIZE};
use echomesh_relay::crypto::keys::generate_keypair;
use echomesh_relay::transport::noise::{
    check_frame_length, client_handshake_finish, client_handshake_start, server_handshake_reply, NoiseError, NoiseSession,
    ENCRYPTED_FRAME_SIZE,
};
use echomesh_relay::transport::secure::SecureTransport;
use echomesh_relay::transport::tcp::TcpTransport;

fn session_pair() -> (NoiseSession, NoiseSession) {
    let (server_private, server_public) = generate_keypair().unwrap();
    let (state, message1) = client_handshake_start(&server_public).unwrap();
    assert!(message1.len() == 2 + 48);
    assert!((&message1[..2]) == (&[0u8, 48]));
    let (message2, server) = server_handshake_reply(&server_private, &message1[2..]).unwrap();
    assert!(message2.len() == 2 + 48);
    let client = client_handshake_finish(state, &message2[2..]).unwrap();
    (client, server)
}

#[test]
fn handshake_refuses_a_tampered_reply() {
    let (server_private, server_public) = generate_keypair().unwrap();
    let (state, message1) = client_handshake_start(&server_public).unwrap();
    let (mut message2, _) = server_handshake_reply(&server_private, &message1[2..]).unwrap();
    let last = message2.len() - 1;
    message2[last] ^= 0x01;
    assert!(matches!(client_handshake_finish(state, &message2[2..]), Err(NoiseError::Snow(_))));
    assert!(matches!(server_handshake_reply(&server_private, &[1, 2, 3]), Err(NoiseError::Snow(_))));
}

#[test]
fn noise_frames_round_trip() {
    let (mut client, mut server) = session_pair();
    let frame = Frame::new([0x42; 16], [1, 2, 3, 4, 5, 6, 7, 8], b"Hello Noise Security!".to_vec()).unwrap();
    let packet = client.encrypt_frame(&frame).unwrap();
    assert!(packet.len() == 2 + ENCRYPTED_FRAME_SIZE);
    assert!((&packet[..2]) == (&(ENCRYPTED_FRAME_SIZE as u16).to_be_bytes()));
    let received = server.decrypt_frame(&packet[2..]).unwrap();
    assert!(received == frame);
    let reply = Frame::new(received.session_id, [8, 7, 6, 5, 4, 3, 2, 1], b"Noise Echo Response".to_vec()).unwrap();
    let back = server.encrypt_frame(&reply).unwrap();
    assert!(client.decrypt_frame(&back[2..]).unwrap() == reply);
}

#[test]
fn noise_refusals() {
    let (mut client, mut server) = session_pair();
    let oversized = Frame { session_id: [0; 16], nonce: [0; 8], payload: vec![0; MAX_PAYLOAD_SIZE + 1] };
    assert!(matches!(client.encrypt_frame(&oversized), Err(NoiseError::Protocol(_))));
    assert!(matches!(server.decrypt_frame(&[0u8; 10]), Err(NoiseError::Snow(_))));
    let mut out = [0u8; 64];
    let n = client.encrypt(b"short", &mut out).unwrap();
    assert!(n == 5 + 16);
    let mut plain = [0u8; 64];
    assert!(server.decrypt(&out[..n], &mut plain).unwrap() == 5);
    assert!((&plain[..5]) == b"short");
    let m = client.encrypt(b"tiny frame", &mut out).unwrap();
    assert!(matches!(server.decrypt_frame(&out[..m]), Err(NoiseError::Protocol(_))));
    let mut small = [0u8; 8];
    assert!(client.encrypt(b"does not fit", &mut small).is_err());
    assert!(matches!(check_frame_length(ENCRYPTED_FRAME_SIZE + 1), Err(NoiseError::BadMessageSize { expected: 1436, actual: 1437 })));
    assert!(check_frame_length(ENCRYPTED_FRAME_SIZE).unwrap() == 1436);
    assert!(FRAME_SIZE + 16 == ENCRYPTED_FRAME_SIZE);
}

#[test]
fn length_prefixed_framing() {
    let t = TcpTransport::new(()).with_max_frame_size(4);
    assert!(t.frame_packet(b"abcd").unwrap() == vec![0, 4, b'a', b'b', b'c', b'd']);
    assert!(matches!(t.frame_packet(b"abcde"), Err(TransportError::Oversized { actual: 5, max: 4 })));
    assert!(t.incoming_length([0, 3]).unwrap() == 3);
    assert!(matches!(t.incoming_length([1, 0]), Err(TransportError::Oversized { actual: 256, max: 4 })));
    let big = TcpTransport::new(5u8);
    assert!(matches!(big.frame_packet(&vec![0u8; 70000]), Err(TransportError::Oversized { actual: 70000, max: 65535 })));
    assert!(big.into_inner() == 5u8);
}

#[test]
fn secure_transport_seals_and_opens_frames() {
    let (client, server) = session_pair();
    let mut a = SecureTransport::new("a", client);
    let mut b = SecureTransport::new("b", server);
    let frame = Frame::new([9; 16], [3; 8], b"secure".to_vec()).unwrap();
    let packet = a.seal_frame(&frame).unwrap();
    assert!(packet.len() == ENCRYPTED_FRAME_SIZE);
    assert!(b.open_frame(&packet).unwrap() == frame);
    assert!(matches!(b.open_frame(&[1, 2, 3]), Err(CryptoError::Snow(_))));
    let oversized = Frame { session_id: [0; 16], nonce: [0; 8], payload: vec![0; MAX_PAYLOAD_SIZE + 1] };
    match a.seal_frame(&oversized) {
        Err(CryptoError::Key(m)) => assert!(m == "frame encoding failed"),
        _ => panic!("expected a key error"),
    }
    assert!(*a.transport() == "a");
    let (t, _session) = b.into_parts();
    assert!(t == "b");
}

#[test]
fn noise_session_debug_text_hides_state() {
    let (client, _) = session_pair();
    assert!(client.debug_text() == "NoiseSession { pattern: \"Noise_NK_25519_ChaChaPoly_BLAKE2s\", state: \"[ENCRYPTED]\" }");
}

#[test]
fn test_noise_handshake_and_frame_exchange() {
    let (server_private, server_public) = generate_keypair().unwrap();

    // Client: first handshake message, length-prefixed for the stream.
    let (state, client_packet) = client_handshake_start(&server_public).unwrap();
    let msg1_len = u16::from_be_bytes([client_packet[0], client_packet[1]]) as usize;
    // Server: reads message 1 and answers.
    let (server_packet, mut server) = server_handshake_reply(&server_private, &client_packet[2..2 + msg1_len]).unwrap();
    let msg2_len = u16::from_be_bytes([server_packet[0], server_packet[1]]) as usize;
    let mut client = client_handshake_finish(state, &server_packet[2..2 + msg2_len]).unwrap();

    let frame = Frame::new([0x42; 16], [1, 2, 3, 4, 5, 6, 7, 8], b"Hello Noise Security!".to_vec()).unwrap();
    let packet = client.encrypt_frame(&frame).unwrap();
    let len = check_frame_length(u16::from_be_bytes([packet[0], packet[1]]) as usize).unwrap();
    let received = server.decrypt_frame(&packet[2..2 + len]).unwrap();
    assert!(received.payload == b"Hello Noise Security!".to_vec());

    let reply = Frame::new(received.session_id, [8, 7, 6, 5, 4, 3, 2, 1], b"Noise Echo Response".to_vec()).unwrap();
    let back = server.encrypt_frame(&reply).unwrap();
    let len = check_frame_length(u16::from_be_bytes([back[0], back[1]]) as usize).unwrap();
    let response = client.decrypt_frame(&back[2..2 + len]).unwrap();
    assert!(response.payload == b"Noise Echo Response".to_vec());
}
