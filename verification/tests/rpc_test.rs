use cubase_ecs_api::cubase::dispatcher::{DispatchStep, Dispatcher, SessionInfo};
use cubase_ecs_api::json::{Json, JsonNumber, Member};
use cubase_ecs_api::midi::port::{MidiPort, MockPort};
use cubase_ecs_api::rpc::handler::{handle_rpc, RpcStep};
use serde_json::Value;

fn to_value(j: &Json) -> Value {
    match j {
        Json::Null => Value::Null,
        Json::Bool(b) => Value::Bool(*b),
        Json::Number(JsonNumber::Unsigned(u)) => Value::from(*u),
        Json::Number(JsonNumber::Signed(i)) => Value::from(*i),
        Json::Number(JsonNumber::Float(t)) => Value::Number(t.parse::<serde_json::Number>().unwrap()),
        Json::Str(s) => Value::String(s.clone()),
        Json::Array(items) => Value::Array(items.iter().map(to_value).collect()),
        Json::Object(members) => {
            let mut m = serde_json::Map::new();
            for mem in members {
                m.entry(mem.key.clone()).or_insert(to_value(&mem.value));
            }
            Value::Object(m)
        }
    }
}

fn text(s: &str) -> Json {
    Json::text(s)
}

fn float(t: &str) -> Json {
    Json::Number(JsonNumber::Float(t.to_string()))
}

fn uint(u: u64) -> Json {
    Json::Number(JsonNumber::Unsigned(u))
}

fn object(pairs: Vec<(&str, Json)>) -> Json {
    Json::Object(pairs.into_iter().map(|(k, v)| Member::new(k, v)).collect())
}

fn request(method: &str, params: Json, id: u64) -> Json {
    object(vec![
        ("jsonrpc", text("2.0")),
        ("method", text(method)),
        ("params", params),
        ("id", uint(id)),
    ])
}

/// Runs a request through the handler and the mock dispatcher.
fn handle(req: Json) -> Result<Value, (u16, Value)> {
    let d = Dispatcher::mock();
    match handle_rpc(&req) {
        RpcStep::Respond(Ok(j)) => Ok(to_value(&j)),
        RpcStep::Respond(Err((status, j))) => Err((status, to_value(&j))),
        RpcStep::Dispatch(call) => {
            let info = SessionInfo { version: "0.1.0".to_string(), uptime_secs: 5 };
            match d.dispatch(&call.method, &call.params, &call.id, MockPort.name(), &info) {
                DispatchStep::Reply(result) => Ok(to_value(&call.respond(result))),
                DispatchStep::Send(_) => panic!("a mock dispatcher sends nothing"),
            }
        }
    }
}

#[test]
fn mixer_set_ok() {
    let req = request(
        "mixer.set",
        object(vec![("track", text("Vocal")), ("param", text("volume")), ("value", float("-6.0"))]),
        1,
    );
    let resp = handle(req).unwrap();
    assert_eq!(resp["result"]["ok"], true);
    assert_eq!(resp["result"]["method"], "mixer.set");
    assert_eq!(resp["id"], 1);
}

#[test]
fn plugin_set_param_ok() {
    let req = request(
        "plugin.set_param",
        object(vec![
            ("track", text("Vocal")),
            ("slot", uint(2)),
            ("plugin", text("Compressor")),
            ("param", text("Threshold")),
            ("value", float("-18.0")),
        ]),
        2,
    );
    let resp = handle(req).unwrap();
    assert_eq!(resp["result"]["ok"], true);
    assert_eq!(resp["id"], 2);
}

#[test]
fn command_exec_ok() {
    let req = request("command.exec", object(vec![("id", text("Transport_Play"))]), 3);
    let resp = handle(req).unwrap();
    assert_eq!(resp["result"]["ok"], true);
}

#[test]
fn session_status_ok() {
    let req = request("session.status", object(vec![]), 4);
    let resp = handle(req).unwrap();
    assert_eq!(resp["result"]["ok"], true);
}

#[test]
fn unknown_method_returns_method_not_found() {
    let req = request("nope", object(vec![]), 9);
    let resp = handle(req).unwrap();
    assert_eq!(resp["error"]["code"], -32601);
}

#[test]
fn invalid_params_returns_invalid_params() {
    let req = request(
        "mixer.set",
        object(vec![("track", text("Vocal")), ("param", text("volume"))]),
        10,
    );
    let err = handle(req).unwrap_err();
    assert_eq!(err.1["error"]["code"], -32602);
}

#[test]
fn invalid_params_reports_status_200_and_detail() {
    let req = request(
        "mixer.set",
        object(vec![("track", text("Vocal")), ("param", text("volume"))]),
        10,
    );
    let (status, body) = handle(req).unwrap_err();
    assert_eq!(status, 200);
    assert_eq!(body["error"]["message"], "Invalid params");
    assert_eq!(body["error"]["data"]["detail"], "missing field `value`");
    assert_eq!(body["id"], 10);
    assert_eq!(body["jsonrpc"], "2.0");
    assert!(body.get("result").is_none());
}

#[test]
fn unknown_method_message_names_it() {
    let resp = handle(request("transport.play", object(vec![]), 11)).unwrap();
    assert_eq!(resp["error"]["message"], "Method not found: transport.play");
    assert_eq!(resp["id"], 11);
    assert!(resp.get("result").is_none());
    assert!(resp["error"].get("data").is_none());
}

#[test]
fn wrong_version_is_invalid_request() {
    let req = object(vec![
        ("jsonrpc", text("1.0")),
        ("method", text("session.status")),
        ("id", text("abc")),
    ]);
    let resp = handle(req).unwrap();
    assert_eq!(resp["error"]["code"], -32600);
    assert_eq!(resp["error"]["message"], "Invalid Request: jsonrpc must be \"2.0\"");
    assert_eq!(resp["id"], "abc");
}

#[test]
fn missing_version_is_invalid_request_even_for_unknown_methods() {
    let req = object(vec![("method", text("nope")), ("id", uint(5))]);
    let resp = handle(req).unwrap();
    assert_eq!(resp["error"]["code"], -32600);
}

#[test]
fn missing_method_is_invalid_request() {
    let req = object(vec![("jsonrpc", text("2.0")), ("id", uint(6))]);
    let resp = handle(req).unwrap();
    assert_eq!(resp["error"]["code"], -32600);
    assert_eq!(resp["error"]["message"], "Invalid Request: missing method");
}

#[test]
fn missing_id_is_answered_with_null() {
    let req = object(vec![("jsonrpc", text("2.0")), ("method", text("session.status"))]);
    let resp = handle(req).unwrap();
    assert_eq!(resp["id"], Value::Null);
    assert_eq!(resp["result"]["service"], "cubase-ecs-api");
    assert_eq!(resp["result"]["version"], "0.1.0");
    assert_eq!(resp["result"]["uptime_secs"], 5);
}

#[test]
fn mock_result_reports_mode_and_size() {
    let req = request("command.exec", object(vec![("id", text("Transport_Play"))]), 3);
    let resp = handle(req).unwrap();
    assert_eq!(resp["result"]["mode"], "mock");
    assert_eq!(resp["result"]["method"], "command.exec");
    let envelope = "{\"id\":3,\"jsonrpc\":\"2.0\",\"method\":\"command.exec\",\"params\":{\"id\":\"Transport_Play\"}}";
    assert_eq!(resp["result"]["sysex_bytes"], envelope.len() as u64 + 3);
    assert_eq!(resp["result"]["sysex_bytes"], 84);
    assert!(resp["result"].get("service").is_none());
}

#[test]
fn non_ascii_track_fails_the_call() {
    let req = request(
        "mixer.set",
        object(vec![("track", text("ボーカル")), ("param", text("volume")), ("value", uint(0))]),
        12,
    );
    let resp = handle(req).unwrap();
    assert_eq!(resp["result"]["ok"], false);
    assert_eq!(
        resp["result"]["error"],
        "JSON contains non-7bit bytes; base64 or escaping is required for SysEx"
    );
    assert_eq!(resp["id"], 12);
}

#[test]
fn params_may_be_positional() {
    let params = Json::Array(vec![text("Vocal"), text("volume"), float("-3.5")]);
    let resp = handle(request("mixer.set", params, 13)).unwrap();
    assert_eq!(resp["result"]["ok"], true);
    let too_many = Json::Array(vec![text("Vocal"), text("volume"), uint(1), uint(2)]);
    let (_, body) = handle(request("mixer.set", too_many, 14)).unwrap_err();
    assert_eq!(body["error"]["data"]["detail"], "invalid length 4, expected fewer elements in array");
    let too_few = Json::Array(vec![text("Vocal")]);
    let (_, body) = handle(request("mixer.set", too_few, 15)).unwrap_err();
    assert_eq!(body["error"]["data"]["detail"], "invalid length 1, expected struct MixerSetParams with 3 elements");
}

#[test]
fn slot_must_fit_u32() {
    let params = |slot: Json| {
        object(vec![
            ("track", text("Vocal")),
            ("slot", slot),
            ("plugin", text("Compressor")),
            ("param", text("Threshold")),
            ("value", uint(0)),
        ])
    };
    let (_, body) = handle(request("plugin.set_param", params(uint(1u64 << 32)), 16)).unwrap_err();
    assert_eq!(body["error"]["data"]["detail"], "invalid value: integer `4294967296`, expected u32");
    let (_, body) = handle(request("plugin.set_param", params(Json::Number(JsonNumber::Signed(-1))), 17)).unwrap_err();
    assert_eq!(body["error"]["data"]["detail"], "invalid value: integer `-1`, expected u32");
    let (_, body) = handle(request("plugin.set_param", params(float("2.5")), 18)).unwrap_err();
    assert_eq!(body["error"]["data"]["detail"], "invalid type: floating point `2.5`, expected u32");
    let resp = handle(request("plugin.set_param", params(uint(4294967295)), 19)).unwrap();
    assert_eq!(resp["result"]["ok"], true);
}

#[test]
fn params_of_the_wrong_kind_are_refused() {
    let (_, body) = handle(request("command.exec", Json::Null, 20)).unwrap_err();
    assert_eq!(body["error"]["data"]["detail"], "invalid type: null, expected struct CommandExecParams");
    let (_, body) = handle(request("command.exec", object(vec![("id", uint(1))]), 21)).unwrap_err();
    assert_eq!(body["error"]["data"]["detail"], "invalid type: integer `1`, expected a string");
}

#[test]
fn dispatched_params_are_normalized() {
    let req = request(
        "command.exec",
        object(vec![("id", text("Transport_Stop")), ("extra", uint(1))]),
        22,
    );
    match handle_rpc(&req) {
        RpcStep::Dispatch(call) => {
            assert_eq!(call.method, "command.exec");
            assert_eq!(to_value(&call.params), serde_json::from_str::<Value>("{\"id\":\"Transport_Stop\"}").unwrap());
            assert_eq!(call.id, uint(22));
            let env = to_value(&call.envelope());
            assert_eq!(env["jsonrpc"], "2.0");
            assert_eq!(env["method"], "command.exec");
            assert_eq!(env["id"], 22);
        }
        RpcStep::Respond(_) => panic!("a valid call is dispatched"),
    }
}

#[test]
fn integer_values_are_sent_as_floats() {
    let req = request(
        "mixer.set",
        object(vec![("track", text("Vocal")), ("param", text("volume")), ("value", Json::Number(JsonNumber::Signed(-6)))]),
        1,
    );
    match handle_rpc(&req) {
        RpcStep::Dispatch(call) => {
            assert_eq!(call.params, object(vec![("param", text("volume")), ("track", text("Vocal")), ("value", float("-6.0"))]));
        }
        RpcStep::Respond(_) => panic!("a valid call is dispatched"),
    }
    let resp = handle(req).unwrap();
    let envelope = "{\"id\":1,\"jsonrpc\":\"2.0\",\"method\":\"mixer.set\",\"params\":{\"param\":\"volume\",\"track\":\"Vocal\",\"value\":-6.0}}";
    assert_eq!(resp["result"]["sysex_bytes"], envelope.len() as u64 + 3);
}
