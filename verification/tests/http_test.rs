use cubase_ecs_api::http::{health_report, listen_port, parse_error_reply};
use cubase_ecs_api::json::{Json, JsonNumber};

fn member<'a>(j: &'a Json, key: &str) -> &'a Json {
    j.get(key).unwrap()
}

#[test]
fn health_report_names_service_and_version() {
    let r = health_report("0.1.0", None);
    assert_eq!(member(&r, "status"), &Json::text("ok"));
    assert_eq!(member(&r, "service"), &Json::text("cubase-ecs-api"));
    assert_eq!(member(&r, "version"), &Json::text("0.1.0"));
    assert_eq!(member(&r, "midi_mode"), &Json::text("mock"));
    let host = health_report("0.1.0", Some("host".to_string()));
    assert_eq!(member(&host, "midi_mode"), &Json::text("host"));
}

#[test]
fn parse_error_reply_has_code_and_detail() {
    let r = parse_error_reply("expected value".to_string());
    assert_eq!(member(&r, "id"), &Json::Null);
    assert_eq!(member(&r, "jsonrpc"), &Json::text("2.0"));
    let e = member(&r, "error");
    assert_eq!(member(e, "code"), &Json::Number(JsonNumber::Signed(-32700)));
    assert_eq!(member(e, "message"), &Json::text("Parse error"));
    assert_eq!(member(member(e, "data"), "detail"), &Json::text("expected value"));
    assert!(r.get("result").is_none());
}

#[test]
fn listen_port_defaults_to_3001() {
    assert_eq!(listen_port(None), 3001);
    assert_eq!(listen_port(Some("8080")), 8080);
    assert_eq!(listen_port(Some("65535")), 65535);
    assert_eq!(listen_port(Some("65536")), 3001);
    assert_eq!(listen_port(Some("port")), 3001);
}
