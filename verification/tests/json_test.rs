use cubase_ecs_api::json::{Json, JsonNumber, Member};
use cubase_ecs_api::rpc::types::{CommandExecParams, JsonRpcRequest, MixerSetParams, PluginSetParamParams};

fn object(pairs: Vec<(&str, Json)>) -> Json {
    Json::Object(pairs.into_iter().map(|(k, v)| Member::new(k, v)).collect())
}

#[test]
fn get_takes_the_first_member_with_the_key() {
    let j = object(vec![("a", Json::Bool(true)), ("b", Json::Null), ("a", Json::Bool(false))]);
    assert_eq!(j.get("a"), Some(&Json::Bool(true)));
    assert_eq!(j.get("b"), Some(&Json::Null));
    assert_eq!(j.get("c"), None);
    assert_eq!(Json::Array(vec![Json::Null]).get("a"), None);
}

#[test]
fn part_reads_objects_by_key_and_arrays_by_position() {
    let a = Json::Array(vec![Json::text("x"), Json::text("y")]);
    assert_eq!(a.part("track", 1), Some(&Json::text("y")));
    assert_eq!(a.part("track", 2), None);
    let o = object(vec![("track", Json::text("x"))]);
    assert_eq!(o.part("track", 5), Some(&Json::text("x")));
    assert_eq!(Json::Null.part("track", 0), None);
}

#[test]
fn deep_clone_copies_nested_values() {
    let j = object(vec![
        ("list", Json::Array(vec![Json::Number(JsonNumber::Float("1.5".to_string())), Json::Null])),
        ("inner", object(vec![("k", Json::text("v"))])),
    ]);
    assert_eq!(j.deep_clone(), j);
}

#[test]
fn integer_numbers_are_unsigned_unless_negative() {
    assert_eq!(Json::integer(5), Json::Number(JsonNumber::Unsigned(5)));
    assert_eq!(Json::integer(-5), Json::Number(JsonNumber::Signed(-5)));
}

#[test]
fn mixer_params_read_and_write() {
    let p = object(vec![
        ("value", Json::Number(JsonNumber::Signed(-6))),
        ("track", Json::text("Vocal")),
        ("param", Json::text("volume")),
        ("unused", Json::Null),
    ]);
    let m = MixerSetParams::from_json(&p).unwrap();
    assert_eq!(m.track, "Vocal");
    assert_eq!(m.param, "volume");
    assert_eq!(m.value, JsonNumber::Float("-6.0".to_string()));
    assert_eq!(
        m.to_json(),
        object(vec![
            ("param", Json::text("volume")),
            ("track", Json::text("Vocal")),
            ("value", Json::Number(JsonNumber::Float("-6.0".to_string()))),
        ])
    );
    assert_eq!(
        MixerSetParams::from_json(&object(vec![("track", Json::Bool(true))])).err(),
        Some("invalid type: boolean `true`, expected a string".to_string())
    );
    assert_eq!(
        MixerSetParams::from_json(&object(vec![])).err(),
        Some("missing field `track`".to_string())
    );
    assert_eq!(
        MixerSetParams::from_json(&Json::text("x")).err(),
        Some("invalid type: string \"x\", expected struct MixerSetParams".to_string())
    );
    assert_eq!(
        MixerSetParams::from_json(&object(vec![("value", Json::Null), ("track", Json::Bool(false))])).err(),
        Some("invalid type: null, expected f64".to_string())
    );
    assert_eq!(
        MixerSetParams::from_json(&object(vec![("track", Json::text("a")), ("track", Json::text("b"))])).err(),
        Some("duplicate field `track`".to_string())
    );
}

#[test]
fn plugin_params_read_and_write() {
    let p = Json::Array(vec![
        Json::text("Vocal"),
        Json::Number(JsonNumber::Signed(2)),
        Json::text("Compressor"),
        Json::text("Threshold"),
        Json::Number(JsonNumber::Float("-18.0".to_string())),
    ]);
    let m = PluginSetParamParams::from_json(&p).unwrap();
    assert_eq!(m.slot, 2);
    assert_eq!(m.plugin, "Compressor");
    let j = m.to_json();
    assert_eq!(j.get("slot"), Some(&Json::Number(JsonNumber::Unsigned(2))));
    assert_eq!(j.get("value"), Some(&Json::Number(JsonNumber::Float("-18.0".to_string()))));
    let again = PluginSetParamParams::from_json(&j).unwrap();
    assert_eq!(again.track, "Vocal");
    assert_eq!(again.slot, 2);
    assert_eq!(again.plugin, "Compressor");
    assert_eq!(again.param, "Threshold");
    assert_eq!(again.to_json(), j);
}

#[test]
fn command_params_read_and_write() {
    let c = CommandExecParams::from_json(&object(vec![("id", Json::text("Transport_Play"))])).unwrap();
    assert_eq!(c.id, "Transport_Play");
    assert_eq!(c.to_json(), object(vec![("id", Json::text("Transport_Play"))]));
    assert_eq!(
        CommandExecParams::from_json(&Json::Array(vec![])).err(),
        Some("invalid length 0, expected struct CommandExecParams with 1 elements".to_string())
    );
    assert_eq!(
        CommandExecParams::from_json(&object(vec![("id", Json::Array(vec![]))])).err(),
        Some("invalid type: sequence, expected a string".to_string())
    );
    assert_eq!(
        CommandExecParams::from_json(&object(vec![("id", object(vec![]))])).err(),
        Some("invalid type: map, expected a string".to_string())
    );
}

#[test]
fn requests_read_with_defaults() {
    let r = JsonRpcRequest::from_json(&object(vec![
        ("jsonrpc", Json::text("2.0")),
        ("method", Json::text("session.status")),
    ]))
    .unwrap();
    assert_eq!(r.jsonrpc, "2.0");
    assert_eq!(r.method, "session.status");
    assert_eq!(r.params, Json::Null);
    assert_eq!(r.id, Json::Null);
    let r = JsonRpcRequest::from_json(&Json::Array(vec![
        Json::text("2.0"),
        Json::text("command.exec"),
        object(vec![("id", Json::text("Transport_Play"))]),
        Json::Number(JsonNumber::Unsigned(3)),
    ]))
    .unwrap();
    assert_eq!(r.id, Json::Number(JsonNumber::Unsigned(3)));
    assert_eq!(
        JsonRpcRequest::from_json(&object(vec![("jsonrpc", Json::text("2.0"))])).err(),
        Some("missing field `method`".to_string())
    );
    let short = JsonRpcRequest::from_json(&Json::Array(vec![Json::text("2.0"), Json::text("x")])).unwrap();
    assert_eq!(short.params, Json::Null);
    assert_eq!(
        JsonRpcRequest::from_json(&Json::Array(vec![Json::text("2.0")])).err(),
        Some("invalid length 1, expected struct JsonRpcRequest with 4 elements".to_string())
    );
}

#[test]
fn field_messages_match_serde() {
    let big = object(vec![
        ("track", Json::text("Vocal")),
        ("slot", Json::Number(JsonNumber::Unsigned(4294967296))),
        ("plugin", Json::text("Compressor")),
        ("param", Json::text("Threshold")),
        ("value", Json::Number(JsonNumber::Unsigned(0))),
    ]);
    let serde_msg = serde_json::from_value::<u32>(serde_json::Value::from(4294967296u64)).unwrap_err().to_string();
    assert_eq!(PluginSetParamParams::from_json(&big).err(), Some(serde_msg));
    let wrong = object(vec![("id", Json::Number(JsonNumber::Unsigned(1)))]);
    let serde_msg = serde_json::from_value::<String>(serde_json::Value::from(1)).unwrap_err().to_string();
    assert_eq!(CommandExecParams::from_json(&wrong).err(), Some(serde_msg));
    let quoted = object(vec![("id", Json::Bool(false))]);
    let serde_msg = serde_json::from_value::<String>(serde_json::Value::Bool(false)).unwrap_err().to_string();
    assert_eq!(CommandExecParams::from_json(&quoted).err(), Some(serde_msg));
    let null_value = object(vec![
        ("track", Json::text("Vocal")),
        ("param", Json::text("volume")),
        ("value", Json::Null),
    ]);
    let serde_msg = serde_json::from_value::<f64>(serde_json::Value::Null).unwrap_err().to_string();
    assert_eq!(MixerSetParams::from_json(&null_value).err(), Some(serde_msg));
    let text_slot = object(vec![
        ("track", Json::text("Vocal")),
        ("slot", Json::text("two")),
    ]);
    let serde_msg = serde_json::from_value::<u32>(serde_json::Value::String("two".to_string())).unwrap_err().to_string();
    assert_eq!(PluginSetParamParams::from_json(&text_slot).err(), Some(serde_msg));
}

fn value_as_float(n: JsonNumber) -> JsonNumber {
    let p = object(vec![("track", Json::text("t")), ("param", Json::text("p")), ("value", Json::Number(n))]);
    MixerSetParams::from_json(&p).unwrap().value
}

fn serde_f64_text(x: f64) -> JsonNumber {
    JsonNumber::Float(serde_json::to_string(&x).unwrap())
}

#[test]
fn values_are_read_as_f64() {
    assert_eq!(value_as_float(JsonNumber::Signed(-6)), JsonNumber::Float("-6.0".to_string()));
    assert_eq!(value_as_float(JsonNumber::Unsigned(0)), JsonNumber::Float("0.0".to_string()));
    assert_eq!(value_as_float(JsonNumber::Unsigned(1000)), JsonNumber::Float("1000.0".to_string()));
    assert_eq!(value_as_float(JsonNumber::Unsigned(1 << 53)), JsonNumber::Float("9007199254740992.0".to_string()));
    assert_eq!(value_as_float(JsonNumber::Unsigned(u64::MAX)), serde_f64_text(u64::MAX as f64));
    assert_eq!(value_as_float(JsonNumber::Signed(i64::MIN)), serde_f64_text(i64::MIN as f64));
    assert_eq!(value_as_float(JsonNumber::Float("-18.0".to_string())), JsonNumber::Float("-18.0".to_string()));
    assert_eq!(value_as_float(JsonNumber::Float("1.50".to_string())), JsonNumber::Float("1.5".to_string()));
    assert_eq!(value_as_float(JsonNumber::Float("1e2".to_string())), JsonNumber::Float("100.0".to_string()));
    let serde_params: serde_json::Value = serde_json::from_str("{\"track\":\"t\",\"param\":\"p\",\"value\":-6}").unwrap();
    let x = serde_params["value"].as_f64().unwrap();
    assert_eq!(serde_json::to_string(&x).unwrap(), "-6.0");
}
