//! What the HTTP front end answers: the parse-error reply, the health
//! report and the listening port.
use vstd::prelude::*;
use crate::json::{Json, JsonView, Member, NumberView, field, lookup, push_member, view_members};
use crate::rpc::handler::{PARSE_ERROR, lemma_response_members};
use crate::rpc::types::{JsonRpcResponse, err_response, response_json};
use crate::text::{decimal, lemma_parse_decimal, parse_u64, parse_u64_text};

verus! {

/// The port the server listens on when no `PORT` setting is given.
pub const DEFAULT_LISTEN_PORT: u16 = 3001;

/// The port for a `PORT` setting: the setting when it parses as a `u16`
/// (a `u64` no larger than 65535), else 3001.
pub open spec fn spec_listen_port(setting: Option<Seq<char>>) -> u16 {
    match setting {
        Some(s) => match parse_u64(s) {
            Some(v) => if v <= 65535 {
                v as u16
            } else {
                DEFAULT_LISTEN_PORT
            },
            None => DEFAULT_LISTEN_PORT,
        },
        None => DEFAULT_LISTEN_PORT,
    }
}

/// The port to listen on for the `PORT` setting (`None` when unset).
pub fn listen_port(setting: Option<&str>) -> (r: u16)
    ensures
        r == spec_listen_port(match setting {
            Some(s) => Some(s@),
            None => None,
        }),
{
    match setting {
        Some(s) => match parse_u64_text(s) {
            Some(v) => if v <= 65535 {
                v as u16
            } else {
                DEFAULT_LISTEN_PORT
            },
            None => DEFAULT_LISTEN_PORT,
        },
        None => DEFAULT_LISTEN_PORT,
    }
}

/// The reply to a body that could not be read as JSON: a parse error with
/// `id` null and the reason as `detail`.
pub open spec fn spec_parse_error_reply(detail: Seq<char>) -> JsonView {
    response_json(err_response(
        JsonView::Null,
        PARSE_ERROR,
        "Parse error"@,
        Some(JsonView::Object(seq![("detail"@, JsonView::Str(detail))])),
    ))
}

/// The reply to a body that could not be read as JSON.
pub fn parse_error_reply(detail: String) -> (r: Json)
    ensures
        r@ == spec_parse_error_reply(detail@),
{
    let mut ms: Vec<Member> = Vec::new();
    push_member(&mut ms, "detail", Json::Str(detail));
    assert(view_members(ms@) =~= seq![("detail"@, JsonView::Str(detail@))]);
    JsonRpcResponse::err(Json::Null, PARSE_ERROR, "Parse error".to_owned(), Some(Json::Object(ms))).to_json()
}

/// The health report: status `ok`, the service's name and version, and
/// the MIDI mode (`mock` when no `MIDI_MODE` setting is given).
pub open spec fn spec_health_report(version: Seq<char>, midi_mode: Option<Seq<char>>) -> JsonView {
    JsonView::Object(seq![
        ("status"@, JsonView::Str("ok"@)),
        ("service"@, JsonView::Str("cubase-ecs-api"@)),
        ("version"@, JsonView::Str(version)),
        ("midi_mode"@, JsonView::Str(match midi_mode {
            Some(m) => m,
            None => "mock"@,
        })),
    ])
}

/// The health report for this version and `MIDI_MODE` setting.
pub fn health_report(version: &str, midi_mode: Option<String>) -> (r: Json)
    ensures
        r@ == spec_health_report(version@, match midi_mode {
            Some(m) => Some(m@),
            None => None,
        }),
{
    let ghost mode_view = match &midi_mode {
        Some(m) => Some(m@),
        None => None,
    };
    let mode = match midi_mode {
        Some(m) => m,
        None => "mock".to_owned(),
    };
    let mut ms: Vec<Member> = Vec::new();
    push_member(&mut ms, "status", Json::text("ok"));
    push_member(&mut ms, "service", Json::text("cubase-ecs-api"));
    push_member(&mut ms, "version", Json::text(version));
    push_member(&mut ms, "midi_mode", Json::Str(mode));
    assert(view_members(ms@) =~= spec_health_report(version@, mode_view)->Object_0);
    Json::Object(ms)
}

/// The server listens on exactly the port that the `PORT` setting reads
/// as, whenever it reads as a `u16`; on 3001 only when the setting is
/// absent or does not read as one. In particular the decimal text of any
/// `u16` `n` makes it listen on `n`.
pub proof fn law_port_follows_the_setting(s: Seq<char>, n: u16)
    ensures
        parse_u64(s) matches Some(v) ==> (v <= 65535 ==> spec_listen_port(Some(s)) == v),
        parse_u64(s) matches Some(v) ==> (v > 65535 ==> spec_listen_port(Some(s)) == 3001),
        parse_u64(s) is None ==> spec_listen_port(Some(s)) == 3001,
        spec_listen_port(None) == 3001,
        spec_listen_port(Some(decimal(n as nat))) == n,
{
    lemma_parse_decimal(n as u64);
}

/// The reply to an unreadable body has `id` null and an error with code
/// -32700, the message "Parse error", and the reason as `data.detail`.
pub proof fn law_parse_error_reply_reports_the_reason(detail: Seq<char>)
    ensures
        field(spec_parse_error_reply(detail), "id"@) == Some(JsonView::Null),
        field(spec_parse_error_reply(detail), "error"@) matches Some(e) && {
            &&& field(e, "code"@) == Some(JsonView::Number(NumberView::Signed(-32700i64)))
            &&& field(e, "message"@) == Some(JsonView::Str("Parse error"@))
            &&& field(e, "data"@) matches Some(d) && field(d, "detail"@) == Some(JsonView::Str(detail))
        },
{
    let data = JsonView::Object(seq![("detail"@, JsonView::Str(detail))]);
    lemma_response_members(err_response(JsonView::Null, PARSE_ERROR, "Parse error"@, Some(data)));
    reveal_strlit("code");
    reveal_strlit("message");
    reveal_strlit("data");
    reveal_with_fuel(lookup, 4);
    assert("code"@[0] != "message"@[0] && "code"@[0] != "data"@[0] && "message"@[0] != "data"@[0]);
}

/// The health report says the service is `ok`, names it
/// `cubase-ecs-api` with its version, and gives the MIDI mode, `mock` when
/// no setting is given.
pub proof fn law_health_report_fields(version: Seq<char>, midi_mode: Option<Seq<char>>)
    ensures
        field(spec_health_report(version, midi_mode), "status"@) == Some(JsonView::Str("ok"@)),
        field(spec_health_report(version, midi_mode), "service"@) == Some(JsonView::Str("cubase-ecs-api"@)),
        field(spec_health_report(version, midi_mode), "version"@) == Some(JsonView::Str(version)),
        field(spec_health_report(version, midi_mode), "midi_mode"@)
            == Some(JsonView::Str(if midi_mode is Some { midi_mode->Some_0 } else { "mock"@ })),
{
    reveal_strlit("status");
    reveal_strlit("service");
    reveal_strlit("version");
    reveal_strlit("midi_mode");
    reveal_with_fuel(lookup, 5);
    assert("status"@[1] != "service"@[1]);
    assert("status"@[0] != "version"@[0] && "status"@[0] != "midi_mode"@[0]);
    assert("service"@[0] != "version"@[0] && "service"@[0] != "midi_mode"@[0] && "version"@[0] != "midi_mode"@[0]);
    let ms = spec_health_report(version, midi_mode)->Object_0;
    assert(ms.drop_first()[0] == ms[1]);
    assert(ms.drop_first().drop_first()[0] == ms[2]);
    assert(ms.drop_first().drop_first().drop_first()[0] == ms[3]);
}

} // verus!
