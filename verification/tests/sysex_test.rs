use cubase_ecs_api::json::{Json, JsonNumber, Member};
use cubase_ecs_api::json_text::to_json_text;
use cubase_ecs_api::midi::sysex::{decode, encode, frame_payload, unframe, DecodeError, FrameError};
use serde_json::Value;

fn object(pairs: Vec<(&str, Json)>) -> Json {
    Json::Object(pairs.into_iter().map(|(k, v)| Member::new(k, v)).collect())
}

fn text(t: &str) -> Json {
    Json::text(t)
}

fn to_value(j: &Json) -> Value {
    match j {
        Json::Null => Value::Null,
        Json::Bool(b) => Value::Bool(*b),
        Json::Number(JsonNumber::Unsigned(u)) => Value::from(*u),
        Json::Number(JsonNumber::Signed(i)) => Value::from(*i),
        Json::Number(JsonNumber::Float(t)) => Value::Number(t.parse::<serde_json::Number>().unwrap()),
        Json::Str(s) => Value::String(s.clone()),
        Json::Array(items) => Value::Array(items.iter().map(to_value).collect()),
        Json::Object(members) => {
            let mut m = serde_json::Map::new();
            for mem in members {
                m.entry(mem.key.clone()).or_insert(to_value(&mem.value));
            }
            Value::Object(m)
        }
    }
}

#[test]
fn roundtrip_ascii_json() {
    let v = object(vec![
        ("id", Json::Number(JsonNumber::Unsigned(3))),
        ("jsonrpc", text("2.0")),
        ("method", text("command.exec")),
        ("params", object(vec![("id", text("Transport_Play"))])),
    ]);
    let enc = encode(&v).unwrap();
    assert_eq!(enc[0], 0xF0);
    assert_eq!(*enc.last().unwrap(), 0xF7);
    let dec = decode(&enc).unwrap();
    assert_eq!(dec, v);
}

#[test]
fn rejects_non_7bit() {
    let v = object(vec![
        ("method", text("mixer.set")),
        ("params", object(vec![("track", text("ボーカル"))])),
    ]);
    assert!(encode(&v).is_err());
}

#[test]
fn non_7bit_error_names_the_reason() {
    let v = object(vec![("track", text("é"))]);
    assert_eq!(encode(&v), Err(FrameError::NonSevenBit));
    assert_eq!(
        FrameError::NonSevenBit.message(),
        "JSON contains non-7bit bytes; base64 or escaping is required for SysEx"
    );
}

#[test]
fn encode_frames_the_compact_json_text() {
    let v = object(vec![("a", Json::Number(JsonNumber::Unsigned(1)))]);
    let enc = encode(&v).unwrap();
    let mut expected = vec![0xF0u8, 0x7D];
    expected.extend_from_slice(b"{\"a\":1}");
    expected.push(0xF7);
    assert_eq!(enc, expected);
    assert_eq!(encode(&Json::Number(JsonNumber::Unsigned(1))).unwrap(), vec![0xF0, 0x7D, 0x31, 0xF7]);
    assert!(encode(&text("é")).is_err());
}

#[test]
fn json_text_matches_serde_json() {
    let v = object(vec![
        ("id", Json::Number(JsonNumber::Unsigned(3))),
        ("jsonrpc", text("2.0")),
        ("method", text("command.exec")),
        ("params", object(vec![("id", text("Transport_Play"))])),
    ]);
    let t = to_json_text(&v);
    assert_eq!(t, serde_json::to_vec(&to_value(&v)).unwrap());
    assert_eq!(t.len(), 81);
    let w = Json::Array(vec![
        Json::Null,
        Json::Bool(true),
        Json::Bool(false),
        Json::Number(JsonNumber::Signed(-42)),
        Json::Number(JsonNumber::Float("-6.5".to_string())),
        text("quote \" back \\ tab \t"),
        object(vec![]),
        Json::Array(vec![]),
    ]);
    assert_eq!(to_json_text(&w), serde_json::to_vec(&to_value(&w)).unwrap());
}

#[test]
fn frame_payload_wraps_bytes() {
    assert_eq!(frame_payload(b"{}").unwrap(), vec![0xF0, 0x7D, b'{', b'}', 0xF7]);
    assert_eq!(frame_payload(b"").unwrap(), vec![0xF0, 0x7D, 0xF7]);
    assert_eq!(frame_payload(&[0x41, 0x80]), Err(FrameError::NonSevenBit));
    assert_eq!(frame_payload(&[0x7F]).unwrap(), vec![0xF0, 0x7D, 0x7F, 0xF7]);
}

#[test]
fn unframe_checks_each_rule() {
    assert_eq!(unframe(&[0xF0, 0x7D]), Err(FrameError::TooShort));
    assert_eq!(unframe(&[]), Err(FrameError::TooShort));
    assert_eq!(unframe(&[0xF1, 0x7D, 0xF7]), Err(FrameError::InvalidFraming));
    assert_eq!(unframe(&[0xF0, 0x7D, 0x00]), Err(FrameError::InvalidFraming));
    assert_eq!(unframe(&[0xF0, 0x7E, 0xF7]), Err(FrameError::UnexpectedManufacturer));
    assert_eq!(unframe(&[0xF0, 0x7D, 0xF7]).unwrap(), Vec::<u8>::new());
    assert_eq!(unframe(&[0xF0, 0x7D, 1, 2, 0xF7]).unwrap(), vec![1, 2]);
    assert_eq!(FrameError::InvalidFraming.message(), "Invalid SysEx framing");
    assert_eq!(FrameError::TooShort.message(), "SysEx too short");
    assert_eq!(FrameError::UnexpectedManufacturer.message(), "Unexpected manufacturer ID");
}

#[test]
fn decode_reads_the_payload_as_json() {
    assert_eq!(decode(&[0xF0, 0x7D, 0x31, 0xF7]), Ok(Json::Number(JsonNumber::Unsigned(1))));
    assert_eq!(decode(&[0xF0, 0x7E, 0x31, 0xF7]), Err(DecodeError::Frame(FrameError::UnexpectedManufacturer)));
    assert_eq!(decode(&[0xF0, 0x7D, 0xF7]), Err(DecodeError::InvalidJson));
    assert_eq!(decode(&[0xF0, 0x7D]), Err(DecodeError::Frame(FrameError::TooShort)));
    assert_eq!(decode(&[0xF0, 0x7D, 0x31, 0xF0]), Err(DecodeError::Frame(FrameError::InvalidFraming)));
    assert_eq!(decode(&[0xF0, 0x7D, b'{', 0xF7]), Err(DecodeError::InvalidJson));
    assert_eq!(decode(&[0xF0, 0x7D, b'1', b' ', b'x', 0xF7]), Err(DecodeError::InvalidJson));
    assert_eq!(DecodeError::Frame(FrameError::TooShort).message(), "SysEx too short");
    assert_eq!(DecodeError::InvalidJson.message(), "SysEx payload is not valid JSON");
}

#[test]
fn decode_keeps_each_kind_of_value() {
    let f = frame_payload(b"{\"b\":[null,true,-7,1.5,\"x\\n\"],\"a\":{}}").unwrap();
    let v = decode(&f).unwrap();
    assert_eq!(
        v,
        object(vec![
            ("a", object(vec![])),
            (
                "b",
                Json::Array(vec![
                    Json::Null,
                    Json::Bool(true),
                    Json::Number(JsonNumber::Signed(-7)),
                    Json::Number(JsonNumber::Float("1.5".to_string())),
                    text("x\n"),
                ])
            ),
        ])
    );
}

#[test]
fn unframe_undoes_frame_payload() {
    let p = b"{\"jsonrpc\":\"2.0\",\"id\":7}".to_vec();
    let f = frame_payload(&p).unwrap();
    assert_eq!(f.len(), p.len() + 3);
    assert_eq!(unframe(&f).unwrap(), p);
}

#[test]
fn unframe_gives_back_the_json_text() {
    let v = object(vec![("ok", Json::Bool(true))]);
    let f = encode(&v).unwrap();
    assert_eq!(unframe(&f).unwrap(), b"{\"ok\":true}".to_vec());
    assert_eq!(decode(&f).unwrap(), v);
}

#[test]
fn frame_payload_rebuilds_a_well_framed_message() {
    let d = vec![0xF0, 0x7D, b'{', b'}', 0xF7];
    let p = unframe(&d).unwrap();
    assert_eq!(frame_payload(&p).unwrap(), d);
}
