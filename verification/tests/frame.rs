use echomesh_relay::error::ProtocolError;
use echomesh_relay::protocol::frame::{
    constant_time_eq, session_id_eq, Frame, FrameCodec, Nonce, SessionId, FRAME_SIZE, MAX_PAYLOAD_SIZE, NONCE_SIZE,
    SESSION_ID_SIZE,
};

#[test]
fn test_encode_decode_valid_frame() {
    let mut codec = FrameCodec::new();
    let session_id: SessionId = [42u8; SESSION_ID_SIZE];
    let nonce: Nonce = [1, 2, 3, 4, 5, 6, 7, 8];
    let payload = b"Hello, EchoMesh Relay Protocol!".to_vec();

    let frame = Frame::new(session_id, nonce, payload.clone()).expect("valid frame");

    let mut buffer: Vec<u8> = Vec::new();
    codec.encode(frame.clone(), &mut buffer).expect("encode succeeds");

    assert!(buffer.len() == FRAME_SIZE);

    assert!((&buffer[..16]) == (&session_id));
    assert!((&buffer[16..24]) == (&nonce));
    assert!((&buffer[24..26]) == (&(payload.len() as u16).to_be_bytes()));

    let decoded = codec.decode(&mut buffer).expect("decode succeeds");
    assert!(decoded == Some(frame));
    assert!(buffer.is_empty());
}

#[test]
fn test_encode_decode_empty_payload() {
    let mut codec = FrameCodec::new();
    let session_id: SessionId = [1u8; SESSION_ID_SIZE];
    let nonce: Nonce = [0u8; NONCE_SIZE];
    let frame = Frame::new(session_id, nonce, Vec::new()).expect("empty payload frame");

    let mut buffer: Vec<u8> = Vec::new();
    codec.encode(frame.clone(), &mut buffer).expect("encode succeeds");
    assert!(buffer.len() == FRAME_SIZE);

    let decoded = codec.decode(&mut buffer).expect("decode succeeds");
    assert!(decoded == Some(frame));
    assert!(buffer.is_empty());
}

#[test]
fn test_encode_decode_max_payload() {
    let mut codec = FrameCodec::new();
    let session_id: SessionId = [7u8; SESSION_ID_SIZE];
    let nonce: Nonce = [9u8; NONCE_SIZE];
    let payload = vec![0xAA; MAX_PAYLOAD_SIZE];
    let frame = Frame::new(session_id, nonce, payload.clone()).expect("max payload frame");

    let mut buffer: Vec<u8> = Vec::new();
    codec.encode(frame.clone(), &mut buffer).expect("encode succeeds");
    assert!(buffer.len() == FRAME_SIZE);

    let decoded = codec.decode(&mut buffer).expect("decode succeeds");
    assert!(decoded == Some(frame));
    assert!(buffer.is_empty());
}

#[test]
fn test_fragmented_packet_handling() {
    let mut codec = FrameCodec::new();
    let session_id: SessionId = [0xAB; SESSION_ID_SIZE];
    let nonce: Nonce = [0xCD; NONCE_SIZE];
    let payload = b"Fragmented packet test data stream".to_vec();
    let original_frame = Frame::new(session_id, nonce, payload).expect("valid frame");

    let mut full_buffer: Vec<u8> = Vec::new();
    codec.encode(original_frame.clone(), &mut full_buffer).expect("encode succeeds");
    assert!(full_buffer.len() == FRAME_SIZE);

    let mut stream_buffer: Vec<u8> = Vec::new();

    stream_buffer.extend_from_slice(&full_buffer[..300]);
    let res = codec.decode(&mut stream_buffer).expect("decode ok");
    assert!(res == None, "Incomplete buffer must return Ok(None)");
    assert!(stream_buffer.len() == 300);

    stream_buffer.extend_from_slice(&full_buffer[300..800]);
    let res = codec.decode(&mut stream_buffer).expect("decode ok");
    assert!(res == None, "Incomplete buffer must return Ok(None)");
    assert!(stream_buffer.len() == 800);

    stream_buffer.extend_from_slice(&full_buffer[800..FRAME_SIZE]);
    let res = codec.decode(&mut stream_buffer).expect("decode ok");
    assert!(res == Some(original_frame));
    assert!(stream_buffer.is_empty(), "Buffer must be consumed after frame decoded");
}

#[test]
fn test_payload_overflow_protection() {
    let mut codec = FrameCodec::new();
    let session_id: SessionId = [1u8; SESSION_ID_SIZE];
    let nonce: Nonce = [2u8; NONCE_SIZE];

    let oversized_payload = vec![0xFF; MAX_PAYLOAD_SIZE + 1];

    let new_err = Frame::new(session_id, nonce, oversized_payload.clone()).err().unwrap();
    assert!(new_err == ProtocolError::PayloadTooLarge { actual: 1395, max: MAX_PAYLOAD_SIZE });

    let frame = Frame { session_id, nonce, payload: oversized_payload };
    let mut buf: Vec<u8> = Vec::new();
    let encode_err = codec.encode(frame, &mut buf).err().unwrap();
    assert!(encode_err == ProtocolError::PayloadTooLarge { actual: 1395, max: MAX_PAYLOAD_SIZE });

    let mut wire_buffer = vec![0u8; FRAME_SIZE];
    wire_buffer[..16].copy_from_slice(&session_id);
    wire_buffer[16..24].copy_from_slice(&nonce);
    wire_buffer[24..26].copy_from_slice(&1395u16.to_be_bytes());

    let decode_err = codec.decode(&mut wire_buffer).err().unwrap();
    assert!(decode_err == ProtocolError::PayloadTooLarge { actual: 1395, max: MAX_PAYLOAD_SIZE });

    let mut wire_buffer_max = vec![0u8; FRAME_SIZE];
    wire_buffer_max[24..26].copy_from_slice(&u16::MAX.to_be_bytes());
    let decode_max_err = codec.decode(&mut wire_buffer_max).err().unwrap();
    assert!(decode_max_err == ProtocolError::PayloadTooLarge { actual: 65535, max: MAX_PAYLOAD_SIZE });
}

#[test]
fn test_frame_too_short_detection() {
    let mut codec = FrameCodec::new();

    let short_data = vec![0u8; 1000];
    let err = Frame::from_slice(&short_data).err().unwrap();
    assert!(err == ProtocolError::FrameTooShort { expected: FRAME_SIZE, actual: 1000 });

    let mut short_buf = short_data.clone();
    let err = Frame::parse(&mut short_buf).err().unwrap();
    assert!(err == ProtocolError::FrameTooShort { expected: FRAME_SIZE, actual: 1000 });

    let mut short_buf2 = short_data.clone();
    let err = codec.decode_exact(&mut short_buf2).err().unwrap();
    assert!(err == ProtocolError::FrameTooShort { expected: FRAME_SIZE, actual: 1000 });

    let mut eof_buf = short_data.clone();
    let err = codec.decode_eof(&mut eof_buf).err().unwrap();
    assert!(err == ProtocolError::FrameTooShort { expected: FRAME_SIZE, actual: 1000 });

    let mut empty_buf: Vec<u8> = Vec::new();
    let res = codec.decode_eof(&mut empty_buf).expect("empty eof ok");
    assert!(res == None);
}

#[test]
fn test_zero_allocation_errors() {
    fn assert_copy<T: Copy>() {}
    assert_copy::<ProtocolError>();

    let err = ProtocolError::PayloadTooLarge { actual: 2000, max: MAX_PAYLOAD_SIZE };
    let err_copy = err;
    assert!(err == err_copy);
}

#[test]
fn test_security_invariants_and_redaction() {
    let session_id: SessionId = [0x55; SESSION_ID_SIZE];
    let nonce: Nonce = [0x77; NONCE_SIZE];
    let payload = b"SECRET_PAYLOAD_DATA".to_vec();

    let frame = Frame::new(session_id, nonce, payload).expect("valid frame");
    let debug_str = frame.debug_text();

    assert!(debug_str.contains("[REDACTED]"));
    assert!(!debug_str.contains("SECRET_PAYLOAD_DATA"));
    assert!(debug_str.contains("payload_len: 19"));

    let same_id: SessionId = [0x55; SESSION_ID_SIZE];
    let diff_id: SessionId = [0x56; SESSION_ID_SIZE];
    assert!(session_id_eq(&session_id, &same_id));
    assert!(!session_id_eq(&session_id, &diff_id));
}

#[test]
fn frame_debug_text_exact() {
    let frame = Frame::new([1; 16], [1, 2, 3, 4, 5, 6, 7, 255], b"abc".to_vec()).unwrap();
    assert!(frame.debug_text() == "Frame { session_id: \"[REDACTED]\", nonce: [1, 2, 3, 4, 5, 6, 7, 255], payload_len: 3 }");
}

#[test]
fn frame_round_trip_leaves_following_bytes() {
    let frame = Frame::new([3; 16], [4; 8], b"payload".to_vec()).unwrap();
    let mut codec = FrameCodec::new();
    let mut buf: Vec<u8> = Vec::new();
    codec.encode(frame.clone(), &mut buf).unwrap();
    buf.extend_from_slice(b"next");
    let parsed = Frame::parse(&mut buf).unwrap();
    assert!(parsed == frame);
    assert!(buf == b"next".to_vec());
    assert!(Frame::from_slice(&[0u8; FRAME_SIZE]).unwrap().payload.len() == 0);
}

#[test]
fn decode_exact_and_eof_with_a_whole_frame() {
    let frame = Frame::new([8; 16], [9; 8], vec![1, 2, 3]).unwrap();
    let mut codec = FrameCodec::new();
    let mut buf: Vec<u8> = Vec::new();
    codec.encode(frame.clone(), &mut buf).unwrap();
    let mut copy = buf.clone();
    assert!(codec.decode_exact(&mut buf).unwrap() == frame);
    assert!(buf.is_empty());
    assert!(codec.decode_eof(&mut copy).unwrap() == Some(frame));
}

#[test]
fn constant_time_comparison() {
    assert!(constant_time_eq(b"abc", b"abc"));
    assert!(!constant_time_eq(b"abc", b"abd"));
    assert!(!constant_time_eq(b"abc", b"ab"));
    assert!(constant_time_eq(b"", b""));
}
