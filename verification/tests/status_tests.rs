//! Status parsing and the chat model: the fixture document decodes with no
//! data loss, both description shapes display their text, and malformed
//! documents are rejected.

use mine_search::chat::{description_to_str, ChatObject};
use mine_search::json::{parse_json, Json};
use mine_search::status::{parse_status, status_from_json};

fn fixture() -> String {
    let mut s = String::from("{\"version\":{\"name\":\"Paper 1.20.2\",\"protocol\":764},");
    s.push_str("\"players\":{\"online\":3,\"max\":20,\"sample\":[");
    s.push_str("{\"id\":\"069a79f4-44e9-4726-a5be-fca90e38aaf5\",\"name\":\"alice\"},");
    s.push_str("{\"id\":\"00000000-0000-0000-0000-000000000001\",\"name\":\"bob\"}]},");
    s.push_str("\"description\":{\"text\":\"Hello\"},");
    s.push_str("\"forgeData\":{\"fmlNetworkVersion\":3},");
    s.push_str("\"favicon\":\"data:image/png;base64,AAAA\"}");
    s
}

#[test]
fn status_fixture_parses_without_loss() {
    let st = parse_status(fixture().as_str()).expect("parses");
    assert_eq!(st.version.name, "Paper 1.20.2");
    assert_eq!(st.version.protocol, 764);
    assert_eq!(st.players.online, 3);
    assert_eq!(st.players.max, 20);
    let sample = st.players.sample.as_ref().expect("sample kept");
    assert_eq!(sample.len(), 2);
    assert_eq!(sample[0].id, "069a79f4-44e9-4726-a5be-fca90e38aaf5");
    assert_eq!(sample[0].name, "alice");
    assert_eq!(sample[1].name, "bob");
    let text = st.description.get("text").expect("description kept raw");
    assert_eq!(text.as_str().expect("string").as_str(), "Hello");
    assert!(st.forge_data.is_some());
    assert!(st.modinfo.is_none());
    assert!(st.is_forge());
    assert_eq!(st.favicon.as_deref(), Some("data:image/png;base64,AAAA"));
}

#[test]
fn status_string_description_form() {
    let mut raw = String::from("{\"version\":{\"name\":\"Vanilla\",\"protocol\":764},");
    raw.push_str("\"players\":{\"online\":0,\"max\":10},");
    raw.push_str("\"description\":\"A Minecraft Server\"}");
    let st = parse_status(raw.as_str()).expect("parses");
    assert!(st.players.sample.is_none());
    assert!(!st.is_forge());
    assert!(st.favicon.is_none());
    assert_eq!(description_to_str(&st.description), "A Minecraft Server");
}

#[test]
fn status_modinfo_marks_forge() {
    let mut raw = String::from("{\"version\":{\"name\":\"Forge\",\"protocol\":340},");
    raw.push_str("\"players\":{\"online\":1,\"max\":8},");
    raw.push_str("\"description\":\"modded\",\"modinfo\":{\"type\":\"FML\"}}");
    let st = parse_status(raw.as_str()).expect("parses");
    assert!(st.is_forge());
}

#[test]
fn status_rejects_malformed_documents() {
    // not JSON at all
    assert!(parse_status("not json").is_none());
    // missing version
    assert!(parse_status("{\"players\":{\"online\":0,\"max\":0},\"description\":\"d\"}").is_none());
    // missing description
    assert!(parse_status(
        "{\"version\":{\"name\":\"x\",\"protocol\":1},\"players\":{\"online\":0,\"max\":0}}"
    )
    .is_none());
    // protocol is not an integer
    assert!(parse_status(
        "{\"version\":{\"name\":\"x\",\"protocol\":\"x\"},\"players\":{\"online\":0,\"max\":0},\"description\":\"d\"}"
    )
    .is_none());
    // a sample entry without a name
    assert!(parse_status(
        "{\"version\":{\"name\":\"x\",\"protocol\":1},\"players\":{\"online\":0,\"max\":0,\"sample\":[{\"id\":\"i\"}]},\"description\":\"d\"}"
    )
    .is_none());
    // favicon of the wrong type
    assert!(parse_status(
        "{\"version\":{\"name\":\"x\",\"protocol\":1},\"players\":{\"online\":0,\"max\":0},\"description\":\"d\",\"favicon\":7}"
    )
    .is_none());
}

#[test]
fn status_from_json_accepts_prebuilt_document() {
    let j = Json::Obj(vec![
        (
            String::from("version"),
            Json::Obj(vec![
                (String::from("name"), Json::Str(String::from("x"))),
                (String::from("protocol"), Json::Int(5)),
            ]),
        ),
        (
            String::from("players"),
            Json::Obj(vec![
                (String::from("online"), Json::Int(1)),
                (String::from("max"), Json::Int(2)),
            ]),
        ),
        (String::from("description"), Json::Str(String::from("d"))),
    ]);
    let st = status_from_json(&j).expect("decodes");
    assert_eq!(st.version.protocol, 5);
    assert_eq!(st.players.online, 1);
    assert_eq!(st.players.max, 2);
}

#[test]
fn json_get_takes_first_binding() {
    let j = Json::Obj(vec![
        (String::from("k"), Json::Int(1)),
        (String::from("k"), Json::Int(2)),
    ]);
    assert_eq!(j.get("k").expect("bound").as_int(), Some(1));
    assert!(j.get("missing").is_none());
    assert!(j.has("k"));
    assert!(!j.has("missing"));
}

#[test]
fn parse_json_shapes() {
    let j = parse_json("[1,true,\"x\",null,{\"a\":2}]").expect("parses");
    match &j {
        Json::Arr(items) => {
            assert_eq!(items.len(), 5);
            assert_eq!(items[0].as_int(), Some(1));
            assert_eq!(items[1].as_bool(), Some(true));
            assert_eq!(items[2].as_str().expect("str").as_str(), "x");
            assert!(matches!(items[3], Json::Null));
            assert_eq!(items[4].get("a").expect("bound").as_int(), Some(2));
        },
        other => panic!("unexpected shape: {:?}", other),
    }
    assert!(parse_json("{broken").is_none());
}

#[test]
fn motd_of_component_object() {
    let j = parse_json(
        "{\"text\":\"Hello\",\"extra\":[{\"text\":\" cruel\"},{\"text\":\" world\"}],\"color\":\"red\"}",
    )
    .expect("parses");
    assert_eq!(description_to_str(&j), "Hello cruel world");
    let chat = mine_search::chat::chat_from_json(&j);
    assert_eq!(chat.get_motd(), "Hello cruel world");
    match &chat {
        ChatObject::Object(c) => {
            assert_eq!(c.text.as_deref(), Some("Hello"));
            assert_eq!(c.color.as_deref(), Some("red"));
            assert_eq!(c.extra.as_ref().expect("extras").len(), 2);
        },
        other => panic!("unexpected shape: {:?}", other),
    }
}

#[test]
fn motd_of_list_and_primitive() {
    let list = parse_json("[{\"text\":\"a\"},\"b\",{\"text\":\"c\"}]").expect("parses");
    assert_eq!(description_to_str(&list), "abc");
    let prim = parse_json("\"plain\"").expect("parses");
    assert_eq!(description_to_str(&prim), "plain");
    let num = parse_json("17").expect("parses");
    assert_eq!(description_to_str(&num), "");
}

#[test]
fn motd_descends_nested_extras() {
    let j = parse_json(
        "{\"text\":\"a\",\"extra\":[{\"text\":\"b\",\"extra\":[{\"text\":\"c\"}]}]}",
    )
    .expect("parses");
    assert_eq!(description_to_str(&j), "abc");
}

#[test]
fn chat_events_survive_conversion() {
    let mut raw = String::from("{\"text\":\"t\",\"bold\":true,");
    raw.push_str("\"clickEvent\":{\"open_url\":\"https://example.invalid\"},");
    raw.push_str("\"hoverEvent\":{\"show_text\":{\"text\":\"tip\"}}}");
    let j = parse_json(raw.as_str()).expect("parses");
    match mine_search::chat::chat_from_json(&j) {
        ChatObject::Object(c) => {
            assert_eq!(c.bold, Some(true));
            let click = c.click_event.expect("click event kept");
            assert_eq!(click.open_url.as_deref(), Some("https://example.invalid"));
            let hover = c.hover_event.expect("hover event kept");
            let tip = hover.show_text.expect("tip kept");
            assert_eq!(tip.get_motd(), "tip");
        },
        other => panic!("unexpected shape: {:?}", other),
    }
}

#[test]
fn reason_json_fallback() {
    let parsed = mine_search::json::reason_json(String::from("{\"text\":\"no\"}"));
    assert_eq!(parsed.get("text").expect("object").as_str().expect("str").as_str(), "no");
    let fallback = mine_search::json::reason_json(String::from("plain kick"));
    assert_eq!(fallback.as_str().expect("string").as_str(), "plain kick");
}

#[test]
fn read_status_response_full_frame() {
    // a whole status-response frame: packet id 0, VarInt-prefixed JSON text
    let json = "{\"version\":{\"name\":\"x\",\"protocol\":764},\"players\":{\"online\":1,\"max\":2},\"description\":\"d\"}";
    let mut payload: Vec<u8> = vec![json.len() as u8];
    payload.extend_from_slice(json.as_bytes());
    let frame = mine_search::codec::encode_frame(0x00, &payload);
    let st = mine_search::status::read_status_response(&frame).expect("decodes");
    assert_eq!(st.version.protocol, 764);
    assert_eq!(st.players.online, 1);

    // a wrong packet id is refused
    let bad_id = mine_search::codec::encode_frame(0x01, &payload);
    assert!(mine_search::status::read_status_response(&bad_id).is_none());

    // a frame whose text is not a status document is refused
    let other = "{\"motd\":\"hi\"}";
    let mut bad_payload: Vec<u8> = vec![other.len() as u8];
    bad_payload.extend_from_slice(other.as_bytes());
    let bad_doc = mine_search::codec::encode_frame(0x00, &bad_payload);
    assert!(mine_search::status::read_status_response(&bad_doc).is_none());
}

#[test]
fn deep_copy_preserves_shape() {
    let j = parse_json("{\"a\":[1,{\"b\":\"c\"}],\"d\":null}").expect("parses");
    let copy = j.deep_copy();
    assert_eq!(format!("{:?}", copy), format!("{:?}", j));
}
