use native_messaging_proxy::codec::{decode, encode, encode_diagnostic, CodecError, Decoded};
use native_messaging_proxy::handshake::{decode_handshake, encode_handshake, DecodedHandshake};

#[test]
fn round_trip_all_tags_small_payloads() {
    for tag in 0u8..3u8 {
        for len in [0usize, 1, 5, 32, 255] {
            let payload: Vec<u8> = (0..len).map(|i| (i % 251) as u8).collect();
            let frame = encode(tag, &payload).unwrap();
            assert_eq!(frame.len(), 2 + len);
            assert_eq!(frame[0] as usize, len);
            assert_eq!(frame[1], tag);
            match decode(&frame, 0) {
                Decoded::Frame { tag: t, payload: p, next } => {
                    assert_eq!(t, tag);
                    assert_eq!(p, payload);
                    assert_eq!(next, 2 + len);
                },
                _ => panic!("expected a frame"),
            }
        }
    }
}

#[test]
fn round_trip_with_trailing_bytes() {
    let payload = b"hello".to_vec();
    let mut stream = encode(1, &payload).unwrap();
    stream.extend_from_slice(&[9, 9, 9]);
    match decode(&stream, 0) {
        Decoded::Frame { tag, payload: p, next } => {
            assert_eq!(tag, 1);
            assert_eq!(p, payload);
            assert_eq!(next, 7);
        },
        _ => panic!("expected a frame"),
    }
}

#[test]
fn encode_rejects_oversized_payload() {
    let payload: Vec<u8> = vec![7u8; 256];
    assert!(matches!(encode(0, &payload), Err(CodecError::PayloadTooLarge)));
    let payload: Vec<u8> = vec![7u8; 4096];
    assert!(matches!(encode(2, &payload), Err(CodecError::PayloadTooLarge)));
    // The largest size that fits is encoded whole, never cut down.
    let payload: Vec<u8> = vec![7u8; 255];
    let frame = encode(0, &payload).unwrap();
    assert_eq!(frame.len(), 257);
    assert_eq!(&frame[2..], &payload[..]);
}

#[test]
fn decode_empty_stream_is_eof() {
    let buf: Vec<u8> = Vec::new();
    assert!(matches!(decode(&buf, 0), Decoded::Eof));
}

#[test]
fn decode_mid_header_is_truncated() {
    let buf: Vec<u8> = vec![5];
    assert!(matches!(decode(&buf, 0), Decoded::Truncated));
}

#[test]
fn decode_mid_payload_is_truncated() {
    let buf: Vec<u8> = vec![5, 0, b'h', b'e'];
    assert!(matches!(decode(&buf, 0), Decoded::Truncated));
}

#[test]
fn size_zero_decodes_as_sentinel_not_error() {
    let buf: Vec<u8> = vec![0, 1];
    match decode(&buf, 0) {
        Decoded::Frame { tag, payload, next } => {
            assert_eq!(tag, 1);
            assert!(payload.is_empty());
            assert_eq!(next, 2);
        },
        _ => panic!("a size-0 header is the sentinel frame, never an error"),
    }
}

#[test]
fn decode_at_offset_reads_second_frame() {
    let mut stream = encode(0, &b"ab".to_vec()).unwrap();
    stream.extend_from_slice(&encode(1, &b"cde".to_vec()).unwrap());
    match decode(&stream, 4) {
        Decoded::Frame { tag, payload, next } => {
            assert_eq!(tag, 1);
            assert_eq!(payload, b"cde".to_vec());
            assert_eq!(next, stream.len());
        },
        _ => panic!("expected a frame"),
    }
}

#[test]
fn diagnostic_frame_carries_tag_two() {
    let frame = encode_diagnostic("boom").unwrap();
    assert_eq!(frame, vec![4, 2, b'b', b'o', b'o', b'm']);
}

#[test]
fn handshake_round_trip() {
    let payload = b"{\"host_extension_name\":\"echo\",\"args\":[]}".to_vec();
    let framed = encode_handshake(&payload).unwrap();
    assert_eq!(framed[0] as usize, payload.len());
    assert_eq!(framed[1], 0);
    match decode_handshake(&framed, 0) {
        DecodedHandshake::Payload { payload: p, next } => {
            assert_eq!(p, payload);
            assert_eq!(next, framed.len());
        },
        _ => panic!("expected the handshake payload"),
    }
}

#[test]
fn handshake_two_byte_length_low_byte_first() {
    let payload: Vec<u8> = vec![1u8; 0x0102];
    let framed = encode_handshake(&payload).unwrap();
    assert_eq!(framed[0], 0x02);
    assert_eq!(framed[1], 0x01);
    assert_eq!(framed.len(), 2 + 0x0102);
}

#[test]
fn handshake_rejects_oversized_payload() {
    let payload: Vec<u8> = vec![0u8; 0x1_0000];
    assert!(matches!(
        encode_handshake(&payload),
        Err(CodecError::PayloadTooLarge)
    ));
}

#[test]
fn handshake_truncated_stream() {
    let buf: Vec<u8> = vec![5];
    assert!(matches!(decode_handshake(&buf, 0), DecodedHandshake::Truncated));
    let buf: Vec<u8> = vec![5, 0, b'a'];
    assert!(matches!(decode_handshake(&buf, 0), DecodedHandshake::Truncated));
}
