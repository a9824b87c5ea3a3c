//! Byte-level codec behaviour: VarInt and frame round trips, limits, and
//! the compressed frame format's threshold rule.

use mine_search::codec::{
    decode_compressed_frame, decode_frame, decode_string_bytes, encode_be,
    encode_compressed_frame, encode_frame, encode_string_bytes,
};
use mine_search::varint::{decode_varint, decode_varint_u32, encode_varint, encode_varint_u32};

#[test]
fn varint_round_trip_reference_values() {
    let cases: Vec<i32> = vec![
        0,
        1,
        127,
        128,
        255,
        16383,
        2097151,
        268435455,
        -1,
        i32::MIN,
        i32::MAX,
    ];
    for &x in &cases {
        let bytes = encode_varint(x);
        assert!(bytes.len() >= 1 && bytes.len() <= 5, "length out of range for {}", x);
        let (back, used) = decode_varint(&bytes, 0).expect("decodes");
        assert_eq!(back, x);
        assert_eq!(used, bytes.len());
    }
}

#[test]
fn varint_known_encodings() {
    assert_eq!(encode_varint(0), vec![0x00]);
    assert_eq!(encode_varint(1), vec![0x01]);
    assert_eq!(encode_varint(127), vec![0x7f]);
    assert_eq!(encode_varint(128), vec![0x80, 0x01]);
    assert_eq!(encode_varint(255), vec![0xff, 0x01]);
    assert_eq!(encode_varint(25565), vec![0xdd, 0xc7, 0x01]);
    assert_eq!(encode_varint(2097151), vec![0xff, 0xff, 0x7f]);
    assert_eq!(encode_varint(-1), vec![0xff, 0xff, 0xff, 0xff, 0x0f]);
    assert_eq!(encode_varint(i32::MIN), vec![0x80, 0x80, 0x80, 0x80, 0x08]);
}

#[test]
fn varint_decode_rejects_bad_input() {
    // truncated: continuation bit set but nothing follows
    assert!(decode_varint_u32(&[0x80], 0).is_none());
    // over-long: six continuation bytes
    assert!(decode_varint_u32(&[0x80, 0x80, 0x80, 0x80, 0x80, 0x01], 0).is_none());
    // five bytes encoding more than 32 bits
    assert!(decode_varint_u32(&[0xff, 0xff, 0xff, 0xff, 0x7f], 0).is_none());
    // empty input
    assert!(decode_varint_u32(&[], 0).is_none());
}

#[test]
fn varint_decode_with_trailing_bytes() {
    let mut bytes = encode_varint_u32(300);
    bytes.push(0xAB);
    bytes.push(0xCD);
    let (x, used) = decode_varint_u32(&bytes, 0).expect("decodes");
    assert_eq!(x, 300);
    assert_eq!(used, 2);
}

#[test]
fn big_endian_bytes() {
    assert_eq!(encode_be(25565, 2), vec![0x63, 0xdd]);
    assert_eq!(encode_be(1, 8), vec![0, 0, 0, 0, 0, 0, 0, 1]);
    assert_eq!(
        encode_be(0x0102030405060708090a0b0c0d0e0f10u128, 16),
        vec![1, 2, 3, 4, 5, 6, 7, 8, 9, 10, 11, 12, 13, 14, 15, 16]
    );
}

#[test]
fn string_bytes_round_trip() {
    let data = b"hello status";
    let encoded = encode_string_bytes(data);
    assert_eq!(encoded[0], 12);
    let (back, used) = decode_string_bytes(&encoded, 0).expect("decodes");
    assert_eq!(back, data.to_vec());
    assert_eq!(used, encoded.len());
}

#[test]
fn frame_round_trip() {
    let payload: Vec<u8> = vec![1, 2, 3, 250, 251, 252];
    let frame = encode_frame(0x42, &payload);
    let (id, body, used) = decode_frame(&frame, 0).expect("decodes");
    assert_eq!(id, 0x42);
    assert_eq!(body, payload);
    assert_eq!(used, frame.len());
}

#[test]
fn frame_round_trip_empty_payload() {
    let frame = encode_frame(0x00, &[]);
    assert_eq!(frame, vec![0x01, 0x00]);
    let (id, body, used) = decode_frame(&frame, 0).expect("decodes");
    assert_eq!(id, 0x00);
    assert!(body.is_empty());
    assert_eq!(used, 2);
}

#[test]
fn frame_decode_rejects_truncation() {
    let payload: Vec<u8> = vec![9, 9, 9, 9];
    let frame = encode_frame(0x01, &payload);
    // chop the last byte off
    assert!(decode_frame(&frame[..frame.len() - 1], 0).is_none());
    assert!(decode_frame(&[], 0).is_none());
}

#[test]
fn compressed_frame_zero_threshold_always_compresses() {
    let payload: Vec<u8> = vec![7; 40];
    let frame = encode_compressed_frame(0x00, &payload, 0).expect("encodes");
    // after the total-length VarInt, the data-length VarInt must be nonzero
    let (_total, used) = decode_varint_u32(&frame, 0).expect("total length");
    let (data_len, _) = decode_varint_u32(&frame, used).expect("data length");
    assert!(data_len > 0, "threshold 0 must compress");
    let (id, body, consumed) = decode_compressed_frame(&frame, 0).expect("decodes");
    assert_eq!(id, 0x00);
    assert_eq!(body, payload);
    assert_eq!(consumed, frame.len());
}

#[test]
fn compressed_frame_threshold_rule() {
    // raw = VarInt(id) + payload = 1 + 10 bytes
    let payload: Vec<u8> = vec![3; 10];
    // |raw| = 11 < 12: stored uncompressed, marker zero
    let stored = encode_compressed_frame(0x05, &payload, 12).expect("encodes");
    let (_total, used) = decode_varint_u32(&stored, 0).expect("total length");
    let (marker, _) = decode_varint_u32(&stored, used).expect("marker");
    assert_eq!(marker, 0, "below threshold must stay raw");
    let (id, body, _) = decode_compressed_frame(&stored, 0).expect("decodes");
    assert_eq!(id, 0x05);
    assert_eq!(body, payload);

    // |raw| = 11 >= 11: compressed
    let compressed = encode_compressed_frame(0x05, &payload, 11).expect("encodes");
    let (_total, used2) = decode_varint_u32(&compressed, 0).expect("total length");
    let (marker2, _) = decode_varint_u32(&compressed, used2).expect("marker");
    assert_eq!(marker2, 11, "at threshold must compress, recording |raw|");
    let (id2, body2, _) = decode_compressed_frame(&compressed, 0).expect("decodes");
    assert_eq!(id2, 0x05);
    assert_eq!(body2, payload);
}

#[test]
fn compressed_frame_decode_rejects_garbage_stream() {
    // claims 5 bytes of compressed data, but they are not a zlib stream
    let mut frame: Vec<u8> = Vec::new();
    frame.push(6); // total length
    frame.push(5); // data length (nonzero: compressed)
    frame.extend_from_slice(&[0x01, 0x02, 0x03, 0x04, 0x05]);
    assert!(decode_compressed_frame(&frame, 0).is_none());
}
