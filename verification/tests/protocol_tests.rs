//! Packet layouts and the login classification: the login-start dialect
//! table against golden fixtures, the handshake and ping frames, and the
//! end-to-end login exchanges, compression included.

use mine_search::codec::{encode_compressed_frame, encode_frame};
use mine_search::login::{classify_login, login_step, LoginState, LoginStep};
use mine_search::packets::{
    build_ping_request, build_status_request, Handshake, LoginStart, PingRequest, SetCompression,
    StatusRequest, StatusResponse, PROBE_UUID,
};

fn probe_identity() -> LoginStart {
    LoginStart { name: String::from("LookupPlayer"), uuid: PROBE_UUID }
}

fn name_bytes() -> Vec<u8> {
    let mut v: Vec<u8> = vec![12];
    v.extend_from_slice(b"LookupPlayer");
    v
}

fn uuid_bytes() -> Vec<u8> {
    vec![
        0x01, 0xf6, 0x96, 0x99, 0x63, 0xda, 0xce, 0x46, 0x43, 0xbf, 0xa0, 0xc9, 0x9a, 0x4d, 0xb5,
        0x49,
    ]
}

#[test]
fn login_start_dialects_golden() {
    let ls = probe_identity();

    // modern: name + uuid
    for protocol in [764, 765] {
        let mut expected = name_bytes();
        expected.extend_from_slice(&uuid_bytes());
        assert_eq!(ls.raw_by_protocol(protocol), expected, "protocol {}", protocol);
    }

    // 761-763: name + has_uuid(true) + uuid
    for protocol in [761, 763] {
        let mut expected = name_bytes();
        expected.push(1);
        expected.extend_from_slice(&uuid_bytes());
        assert_eq!(ls.raw_by_protocol(protocol), expected, "protocol {}", protocol);
    }

    // 760: name + has_sig_data(false) + has_uuid(true) + uuid
    let mut expected760 = name_bytes();
    expected760.push(0);
    expected760.push(1);
    expected760.extend_from_slice(&uuid_bytes());
    assert_eq!(ls.raw_by_protocol(760), expected760);

    // 759: name + has_uuid(false), no uuid
    let mut expected759 = name_bytes();
    expected759.push(0);
    assert_eq!(ls.raw_by_protocol(759), expected759);

    // older: name only
    for protocol in [47, 758] {
        assert_eq!(ls.raw_by_protocol(protocol), name_bytes(), "protocol {}", protocol);
    }
}

#[test]
fn handshake_frame_layout() {
    let hs = Handshake {
        protocol_version: 765,
        server_address: String::from("10.0.0.1"),
        server_port: 25565,
        intent: 1,
    };
    let frame = hs.serialize();
    // payload: VarInt(765)=fd 05, str "10.0.0.1" (len 8), port 25565=63 dd, VarInt(1)
    let mut payload: Vec<u8> = vec![0xfd, 0x05, 0x08];
    payload.extend_from_slice(b"10.0.0.1");
    payload.extend_from_slice(&[0x63, 0xdd, 0x01]);
    let mut expected: Vec<u8> = vec![(payload.len() + 1) as u8, 0x00];
    expected.extend_from_slice(&payload);
    assert_eq!(frame, expected);
}

#[test]
fn status_request_frame_is_minimal() {
    assert_eq!((StatusRequest {}).serialize(), vec![0x01, 0x00]);
}

#[test]
fn status_flow_request_bytes() {
    let bytes = build_status_request("10.0.0.1", 25565, 765);
    let hs = Handshake {
        protocol_version: 765,
        server_address: String::from("10.0.0.1"),
        server_port: 25565,
        intent: 1,
    };
    let mut expected = hs.serialize();
    expected.extend_from_slice(&[0x01, 0x00]);
    assert_eq!(bytes, expected);
}

#[test]
fn ping_request_frame_layout() {
    let t: i64 = 0x0102030405060708;
    let frame = build_ping_request(t);
    let expected: Vec<u8> = vec![9, 0x01, 1, 2, 3, 4, 5, 6, 7, 8];
    assert_eq!(frame, expected);
    assert_eq!((PingRequest { timestamp: t }).serialize(), expected);
}

#[test]
fn ping_millis_behaviour() {
    assert_eq!(mine_search::packets::ping_millis(100, 150), 50);
    assert_eq!(mine_search::packets::ping_millis(150, 100), 0);
    assert_eq!(mine_search::packets::ping_millis(-5, 10), 15);
}

#[test]
fn status_response_round_trip() {
    let json = String::from("{\"version\":{\"name\":\"x\",\"protocol\":5}}");
    let frame = (StatusResponse { response: json.clone() }).serialize();
    // strip frame header (length, id) to get the payload
    let payload = &frame[2..];
    let back = StatusResponse::deserialize(payload).expect("decodes");
    assert_eq!(back.response, json);
}

#[test]
fn status_response_rejects_invalid_utf8() {
    // a string payload whose bytes are not UTF-8
    let payload: Vec<u8> = vec![2, 0xff, 0xfe];
    assert!(StatusResponse::deserialize(&payload).is_none());
}

#[test]
fn set_compression_deserialize() {
    let payload = mine_search::varint::encode_varint(256);
    let packet = SetCompression::deserialize(&payload).expect("decodes");
    assert_eq!(packet.threshold, 256);
    assert!(SetCompression::deserialize(&[0x80]).is_none());
}

#[test]
fn login_step_transitions() {
    // EncryptionRequest: online mode, terminal
    match login_step(&LoginState::AwaitFirst, 0x01, &[]) {
        LoginStep::Done(e) => {
            assert!(e.is_online_mode);
            assert!(e.disconnect_reason.is_none());
        },
        other => panic!("unexpected step: {:?}", other),
    }
    // LoginFinished: offline mode, terminal
    match login_step(&LoginState::AwaitFirst, 0x02, &[]) {
        LoginStep::Done(e) => {
            assert!(!e.is_online_mode);
            assert!(e.disconnect_reason.is_none());
        },
        other => panic!("unexpected step: {:?}", other),
    }
    // SetCompression: records the threshold and continues
    let thr = mine_search::varint::encode_varint(256);
    match login_step(&LoginState::AwaitFirst, 0x03, &thr) {
        LoginStep::Continue(LoginState::Decompressing { threshold }) => {
            assert_eq!(threshold, 256);
        },
        other => panic!("unexpected step: {:?}", other),
    }
    // a second SetCompression is a classification failure
    assert!(matches!(
        login_step(&LoginState::Decompressing { threshold: 256 }, 0x03, &thr),
        LoginStep::Failed
    ));
    // an unknown packet id is a classification failure
    assert!(matches!(login_step(&LoginState::AwaitFirst, 0x07, &[]), LoginStep::Failed));
}

#[test]
fn classify_login_encryption_request() {
    // E2: online-mode Vanilla answers with EncryptionRequest (0x01)
    let buf = encode_frame(0x01, &[1, 2, 3]);
    let extra = classify_login(&buf).expect("classifies");
    assert!(extra.is_online_mode);
    assert!(extra.disconnect_reason.is_none());
}

#[test]
fn classify_login_login_finished() {
    // E1's login half: offline-mode Paper answers with LoginFinished (0x02)
    let buf = encode_frame(0x02, &[]);
    let extra = classify_login(&buf).expect("classifies");
    assert!(!extra.is_online_mode);
    assert!(extra.disconnect_reason.is_none());
}

#[test]
fn classify_login_whitelist_disconnect() {
    // E3: LoginDisconnect with a JSON reason; the reason is stored parsed
    let reason = "{\"text\":\"You are not whitelisted on this server!\"}";
    let mut payload: Vec<u8> = vec![reason.len() as u8];
    payload.extend_from_slice(reason.as_bytes());
    let buf = encode_frame(0x00, &payload);
    let extra = classify_login(&buf).expect("classifies");
    assert!(!extra.is_online_mode);
    let stored = extra.disconnect_reason.expect("reason kept");
    let text = stored.get("text").expect("parsed as an object");
    assert_eq!(
        text.as_str().expect("text is a string").as_str(),
        "You are not whitelisted on this server!"
    );
}

#[test]
fn classify_login_non_json_reason_falls_back_to_string() {
    let reason = "kicked";
    let mut payload: Vec<u8> = vec![reason.len() as u8];
    payload.extend_from_slice(reason.as_bytes());
    let buf = encode_frame(0x00, &payload);
    let extra = classify_login(&buf).expect("classifies");
    let stored = extra.disconnect_reason.expect("reason kept");
    assert_eq!(stored.as_str().expect("stored as a JSON string").as_str(), "kicked");
}

#[test]
fn classify_login_compression_midway() {
    // E5: SetCompression {threshold: 256} then EncryptionRequest; the second
    // frame arrives in the compressed format (stored raw: below threshold)
    let mut buf = encode_frame(0x03, &mine_search::varint::encode_varint(256));
    let second = encode_compressed_frame(0x01, &[], 256).expect("encodes");
    buf.extend_from_slice(&second);
    let extra = classify_login(&buf).expect("classifies");
    assert!(extra.is_online_mode);
}

#[test]
fn classify_login_compression_with_real_deflate() {
    // threshold 0: the second frame is genuinely zlib-compressed
    let reason = "{\"text\":\"full\"}";
    let mut payload: Vec<u8> = vec![reason.len() as u8];
    payload.extend_from_slice(reason.as_bytes());
    let mut buf = encode_frame(0x03, &mine_search::varint::encode_varint(0));
    let second = encode_compressed_frame(0x00, &payload, 0).expect("encodes");
    buf.extend_from_slice(&second);
    let extra = classify_login(&buf).expect("classifies");
    assert!(!extra.is_online_mode);
    let stored = extra.disconnect_reason.expect("reason kept");
    let text = stored.get("text").expect("object");
    assert_eq!(text.as_str().expect("string").as_str(), "full");
}

#[test]
fn classify_login_rejects_unknown_packet() {
    let buf = encode_frame(0x09, &[]);
    assert!(classify_login(&buf).is_none());
    assert!(classify_login(&[]).is_none());
}
