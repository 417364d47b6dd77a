use cubase_ecs_api::cubase::dispatcher::{host_result, DispatchStep, Dispatcher, SessionInfo};
use cubase_ecs_api::json::{Json, JsonNumber, Member};
use cubase_ecs_api::midi::port::{uses_host_port, wanted_port_name, HostMidiPort, MidiPort, MockPort};
use cubase_ecs_api::midi::responder::{
    delivery_parts, id_key, is_sysex_message, response_timeout_ms, select_port,
};
use cubase_ecs_api::midi::sysex::frame_payload;
use cubase_ecs_api::rpc::types::JsonRpcResponse;

fn object(pairs: Vec<(&str, Json)>) -> Json {
    Json::Object(pairs.into_iter().map(|(k, v)| Member::new(k, v)).collect())
}

fn uint(u: u64) -> Json {
    Json::Number(JsonNumber::Unsigned(u))
}

fn member<'a>(j: &'a Json, key: &str) -> &'a Json {
    j.get(key).unwrap()
}

#[test]
fn timeout_defaults_to_2000_ms() {
    assert_eq!(response_timeout_ms(None), 2000);
    assert_eq!(response_timeout_ms(Some("abc")), 2000);
    assert_eq!(response_timeout_ms(Some("")), 2000);
    assert_eq!(response_timeout_ms(Some("-1")), 2000);
    assert_eq!(response_timeout_ms(Some(" 5")), 2000);
    assert_eq!(response_timeout_ms(Some("18446744073709551616")), 2000);
}

#[test]
fn timeout_setting_is_used_when_it_parses() {
    assert_eq!(response_timeout_ms(Some("5000")), 5000);
    assert_eq!(response_timeout_ms(Some("+7")), 7);
    assert_eq!(response_timeout_ms(Some("0")), 0);
    assert_eq!(response_timeout_ms(Some("18446744073709551615")), u64::MAX);
}

#[test]
fn id_keys_follow_json_text() {
    assert_eq!(id_key(&Json::Null), b"null".to_vec());
    assert_eq!(id_key(&Json::Bool(true)), b"true".to_vec());
    assert_eq!(id_key(&Json::Bool(false)), b"false".to_vec());
    assert_eq!(id_key(&uint(9001)), b"9001".to_vec());
    assert_eq!(id_key(&uint(0)), b"0".to_vec());
    assert_eq!(id_key(&Json::Number(JsonNumber::Signed(-42))), b"-42".to_vec());
    assert_eq!(id_key(&Json::Number(JsonNumber::Float("1.5".to_string()))), b"1.5".to_vec());
    assert_eq!(id_key(&Json::text("no-such-response")), b"no-such-response".to_vec());
    assert_eq!(id_key(&Json::text("ボ")), "ボ".as_bytes().to_vec());
    assert_eq!(id_key(&Json::Array(vec![uint(1), uint(2)])), b"[1,2]".to_vec());
    assert_eq!(id_key(&object(vec![("a", Json::text("b"))])), b"{\"a\":\"b\"}".to_vec());
}

#[test]
fn delivery_takes_id_and_result() {
    let msg = object(vec![
        ("jsonrpc", Json::text("2.0")),
        ("id", uint(9001)),
        ("result", object(vec![("ok", Json::Bool(true))])),
    ]);
    let (id, result) = delivery_parts(&msg);
    assert_eq!(id, uint(9001));
    assert_eq!(result, object(vec![("ok", Json::Bool(true))]));
    let (id, result) = delivery_parts(&object(vec![]));
    assert_eq!(id, Json::Null);
    assert_eq!(result, Json::Null);
}

#[test]
fn reply_reaches_the_request_with_the_same_id() {
    let id = Json::text("req-7");
    let reply = JsonRpcResponse::ok(id.deep_clone(), object(vec![("ok", Json::Bool(true))])).to_json();
    let (reply_id, result) = delivery_parts(&reply);
    assert_eq!(id_key(&reply_id), id_key(&id));
    assert_eq!(result, object(vec![("ok", Json::Bool(true))]));
}

#[test]
fn input_port_is_chosen_by_name() {
    let names = vec![
        Some("Microsoft GS Wavetable Synth".to_string()),
        None,
        Some("loopMIDI Port 1".to_string()),
        Some("loopMIDI Port".to_string()),
    ];
    assert_eq!(select_port(&names, "loopMIDI Port"), Some(2));
    assert_eq!(select_port(&names, "nothing like it"), Some(0));
    assert_eq!(select_port(&vec![None, Some("x".to_string())], "x"), Some(1));
    assert_eq!(select_port(&vec![], "loopMIDI Port"), None);
}

#[test]
fn only_sysex_messages_are_replies() {
    assert!(is_sysex_message(&[0xF0, 0x7D, 0xF7]));
    assert!(!is_sysex_message(&[0x90, 0x40, 0x7F]));
    assert!(!is_sysex_message(&[]));
}

#[test]
fn ports_report_their_kind() {
    assert_eq!(MockPort.name(), "mock");
    assert!(MockPort.send_sysex(&[0xF0, 0xF7]).is_ok());
    let host = HostMidiPort::new(None);
    assert_eq!(host.port_name, "loopMIDI Port");
    assert_eq!(host.name(), "host-midi");
    assert_eq!(HostMidiPort::new(Some("CubaseECS".to_string())).port_name, "CubaseECS");
    assert_eq!(wanted_port_name(None), "loopMIDI Port");
}

#[test]
fn host_port_only_in_host_mode() {
    assert!(uses_host_port(&Some("host".to_string())));
    assert!(!uses_host_port(&Some("mock".to_string())));
    assert!(!uses_host_port(&Some("HOST".to_string())));
    assert!(!uses_host_port(&None));
}

#[test]
fn dispatcher_mode_defaults_to_mock() {
    assert_eq!(Dispatcher::with_mode(None).midi_mode, "mock");
    assert_eq!(Dispatcher::mock().midi_mode, "mock");
    assert!(Dispatcher::with_mode(Some("host".to_string())).is_host());
    assert!(!Dispatcher::with_mode(Some("other".to_string())).is_host());
}

#[test]
fn host_mode_sends_the_frame() {
    let d = Dispatcher::with_mode(Some("host".to_string()));
    let info = SessionInfo { version: "0.1.0".to_string(), uptime_secs: 0 };
    let params = object(vec![]);
    match d.dispatch("session.status", &params, &uint(4), "host-midi", &info) {
        DispatchStep::Send(f) => {
            let text = b"{\"id\":4,\"jsonrpc\":\"2.0\",\"method\":\"session.status\",\"params\":{}}";
            assert_eq!(f, frame_payload(text).unwrap());
        }
        DispatchStep::Reply(_) => panic!("host mode sends"),
    }
}

#[test]
fn non_ascii_call_ends_with_an_error() {
    let d = Dispatcher::with_mode(Some("host".to_string()));
    let info = SessionInfo { version: "0.1.0".to_string(), uptime_secs: 0 };
    let params = object(vec![("track", Json::text("ボーカル"))]);
    match d.dispatch("mixer.set", &params, &uint(1), "mock", &info) {
        DispatchStep::Reply(r) => {
            assert_eq!(member(&r, "ok"), &Json::Bool(false));
            assert_eq!(
                member(&r, "error"),
                &Json::text("JSON contains non-7bit bytes; base64 or escaping is required for SysEx")
            );
            assert!(r.get("mode").is_none());
        }
        DispatchStep::Send(_) => panic!("nothing to send"),
    }
}

#[test]
fn host_results() {
    let failed = host_result("host-midi", Err("port gone".to_string()), None, 2000);
    assert_eq!(member(&failed, "ok"), &Json::Bool(false));
    assert_eq!(member(&failed, "mode"), &Json::text("host-midi"));
    assert_eq!(member(&failed, "error"), &Json::text("port gone"));
    let answered = host_result("host-midi", Ok(()), Some(object(vec![("ok", Json::Bool(true))])), 2000);
    assert_eq!(answered, object(vec![("ok", Json::Bool(true))]));
    let timed_out = host_result("host-midi", Ok(()), None, 2000);
    assert_eq!(member(&timed_out, "error"), &Json::text("timeout waiting for Cubase response (2000 ms)"));
    assert_eq!(member(&timed_out, "mode"), &Json::text("host-midi"));
}

#[test]
fn responses_have_result_or_error() {
    let ok = JsonRpcResponse::ok(uint(1), Json::Bool(true)).to_json();
    assert_eq!(member(&ok, "jsonrpc"), &Json::text("2.0"));
    assert_eq!(member(&ok, "result"), &Json::Bool(true));
    assert!(ok.get("error").is_none());
    let err = JsonRpcResponse::err(Json::Null, -32700, "Parse error".to_string(), Some(Json::text("x"))).to_json();
    assert!(err.get("result").is_none());
    let e = member(&err, "error");
    assert_eq!(member(e, "code"), &Json::Number(JsonNumber::Signed(-32700)));
    assert_eq!(member(e, "message"), &Json::text("Parse error"));
    assert_eq!(member(e, "data"), &Json::text("x"));
    assert_eq!(member(&err, "id"), &Json::Null);
    let positive = JsonRpcResponse::err(Json::Null, 7, "m".to_string(), None).to_json();
    assert_eq!(member(member(&positive, "error"), "code"), &uint(7));
}
