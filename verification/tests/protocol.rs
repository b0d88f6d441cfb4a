use chatbot::speech::doubao::protocol::{
    decode, encode, gunzip, gzip, COMP_GZIP, COMP_NONE, FLAG_HAS_SEQ, MSG_ERROR, MSG_FULL_SERVER,
    SER_JSON,
};

#[test]
fn encode_then_decode_roundtrip_with_gzip() {
    let payload = r#"{"result":{"text":"你好"}}"#.as_bytes();
    let mut frame = encode(MSG_FULL_SERVER, FLAG_HAS_SEQ, SER_JSON, COMP_GZIP, payload).unwrap();
    frame.splice(4..4, 7_i32.to_be_bytes());
    let f = decode(&frame).unwrap();
    assert_eq!(f.msg_type, MSG_FULL_SERVER);
    assert_eq!(f.sequence, Some(7));
    assert!(!f.is_last());
    assert_eq!(f.payload, payload);
}

#[test]
fn negative_sequence_marks_last() {
    let mut frame = encode(MSG_FULL_SERVER, 0b0011, SER_JSON, COMP_NONE, b"{}").unwrap();
    frame.splice(4..4, (-1_i32).to_be_bytes());
    assert!(decode(&frame).unwrap().is_last());
}

#[test]
fn error_frame_becomes_err() {
    let mut frame = vec![0x11, (MSG_ERROR << 4), 0x10, 0x00];
    frame.extend_from_slice(&45000001_u32.to_be_bytes());
    let msg = b"invalid param";
    frame.extend_from_slice(&(msg.len() as u32).to_be_bytes());
    frame.extend_from_slice(msg);
    let err = decode(&frame).unwrap_err().to_string();
    assert!(err.contains("45000001") && err.contains("invalid param"));
}

#[test]
fn truncated_frame_does_not_panic() {
    let f = decode(&[0x11, MSG_FULL_SERVER << 4, 0x10, 0x00, 0, 0]).unwrap();
    assert!(f.payload.is_empty());
}

#[test]
fn gzip_roundtrip_and_is_not_identity() {
    let data = b"hello hello hello hello".to_vec();
    let packed = gzip(&data).unwrap();
    assert_ne!(packed, data);
    assert_eq!(gunzip(&packed).unwrap(), data);
}

#[test]
fn uncompressed_frame_layout() {
    let frame = encode(MSG_FULL_SERVER, 0, SER_JSON, COMP_NONE, b"ab").unwrap();
    assert_eq!(frame, vec![0x11, 0x90, 0x10, 0x00, 0, 0, 0, 2, b'a', b'b']);
}

#[test]
fn short_buffer_is_an_error() {
    assert!(decode(&[0x11, 0x90]).is_err());
}

#[test]
fn gzip_frames_always_encode_and_round_trip() {
    for payload in [&b""[..], &b"x"[..], &[0u8; 70_000][..]] {
        let frame = encode(1, 0, SER_JSON, COMP_GZIP, payload).unwrap();
        assert_eq!(&frame[0..4], &[0x11, 0x10, 0x11, 0x00]);
        let n = u32::from_be_bytes([frame[4], frame[5], frame[6], frame[7]]) as usize;
        assert_eq!(n, frame.len() - 8);
        assert!(n > 0);
        assert_eq!(gunzip(&frame[8..]).unwrap(), payload.to_vec());
        assert!(gzip(payload).is_ok());
    }
}
