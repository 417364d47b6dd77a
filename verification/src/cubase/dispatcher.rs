//! The dispatcher: wraps a call in a JSON-RPC envelope, sends it to Cubase
//! as SysEx, and turns what happens into the call's `result`.
//!
//! In mock mode nothing is sent: the result reports the call and the size
//! of the SysEx message that would have gone out. In host mode the message
//! is sent through the host port and the result is Cubase's reply, matched
//! by `id`, or a timeout error.
use vstd::prelude::*;
use crate::json::{Json, JsonNumber, JsonView, Member, NumberView, field, lookup, push_member, str_eq, view_members};
use crate::json_text::{ascii_json, ascii_members, ascii_text, json_text, seven_bit};
use crate::midi::sysex::{FrameError, encode, frame, frame_error_text};
use crate::text::{concat, decimal, push_text, u64_text};

verus! {

/// Chooses between mock and host operation by its MIDI mode.
pub struct Dispatcher {
    pub midi_mode: String,
}

/// What `session.status` reports about the running service.
pub struct SessionInfo {
    /// The service's version.
    pub version: String,
    /// Seconds since the service started.
    pub uptime_secs: u64,
}

/// The model of a [`SessionInfo`].
pub struct SessionInfoView {
    pub version: Seq<char>,
    pub uptime_secs: u64,
}

impl View for SessionInfo {
    type V = SessionInfoView;

    open spec fn view(&self) -> SessionInfoView {
        SessionInfoView { version: self.version@, uptime_secs: self.uptime_secs }
    }
}

/// What the dispatcher does next with an encoded call.
pub enum DispatchStep {
    /// The call is finished with this result.
    Reply(Json),
    /// This SysEx message is to be sent through the host port; the result
    /// then comes from [`host_result`].
    Send(Vec<u8>),
}

/// The note that mock results carry.
pub open spec fn mock_note() -> Seq<char> {
    "mock mode: set MIDI_MODE=host with --features host-midi for real Cubase"@
}

/// The name the service reports for itself.
pub open spec fn service_name() -> Seq<char> {
    "cubase-ecs-api"@
}

/// The JSON-RPC envelope of a call, as it is sent to Cubase; its members
/// are in key order, as JSON maps keep them.
pub open spec fn spec_envelope(method: Seq<char>, params: JsonView, id: JsonView) -> JsonView {
    JsonView::Object(seq![
        ("id"@, id),
        ("jsonrpc"@, JsonView::Str("2.0"@)),
        ("method"@, JsonView::Str(method)),
        ("params"@, params),
    ])
}

/// The result of a call in mock mode: it reports the call, the port mode
/// and the size in bytes of the SysEx message; `session.status` adds the
/// service's name, version and uptime.
pub open spec fn spec_mock_result(method: Seq<char>, port: Seq<char>, sysex_bytes: nat, info: SessionInfoView) -> JsonView {
    let base = seq![
        ("ok"@, JsonView::Bool(true)),
        ("mode"@, JsonView::Str(port)),
        ("method"@, JsonView::Str(method)),
        ("sysex_bytes"@, JsonView::Number(NumberView::Unsigned(sysex_bytes as u64))),
        ("note"@, JsonView::Str(mock_note())),
    ];
    JsonView::Object(
        if method == "session.status"@ {
            base + seq![
                ("service"@, JsonView::Str(service_name())),
                ("version"@, JsonView::Str(info.version)),
                ("uptime_secs"@, JsonView::Number(NumberView::Unsigned(info.uptime_secs))),
            ]
        } else {
            base
        },
    )
}

/// A failed call: `ok` is false, with the reason, and the port mode where
/// one is given.
pub open spec fn failure(mode: Option<Seq<char>>, reason: Seq<char>) -> JsonView {
    let base = seq![("ok"@, JsonView::Bool(false))];
    let with_mode = match mode {
        Some(m) => base.push(("mode"@, JsonView::Str(m))),
        None => base,
    };
    JsonView::Object(with_mode.push(("error"@, JsonView::Str(reason))))
}

/// The reason given when no reply came within the timeout.
pub open spec fn timeout_text(timeout_ms: u64) -> Seq<char> {
    "timeout waiting for Cubase response ("@ + decimal(timeout_ms as nat) + " ms)"@
}

/// The result of a call in host mode, given how sending went and the reply
/// (if one came in time).
pub open spec fn spec_host_result(port: Seq<char>, sent: Result<(), Seq<char>>, reply: Option<JsonView>, timeout_ms: u64) -> JsonView {
    match sent {
        Err(reason) => failure(Some(port), reason),
        Ok(()) => match reply {
            Some(r) => r,
            None => failure(Some("host-midi"@), timeout_text(timeout_ms)),
        },
    }
}

/// Builds a failure result (see [`failure`]).
fn failure_json(mode: Option<&str>, reason: String) -> (r: Json)
    ensures
        r@ == failure(
            match mode {
                Some(m) => Some(m@),
                None => None,
            },
            reason@,
        ),
{
    let mut ms: Vec<Member> = Vec::new();
    push_member(&mut ms, "ok", Json::Bool(false));
    match mode {
        Some(m) => {
            push_member(&mut ms, "mode", Json::text(m));
        },
        None => {},
    }
    push_member(&mut ms, "error", Json::Str(reason));
    proof {
        let mv = match mode {
            Some(m) => Some(m@),
            None => None,
        };
        assert(view_members(ms@) =~= failure(mv, reason@)->Object_0);
    }
    Json::Object(ms)
}

/// The envelope of a call (see [`spec_envelope`]).
pub fn envelope(method: &str, params: &Json, id: &Json) -> (r: Json)
    ensures
        r@ == spec_envelope(method@, params@, id@),
{
    let mut ms: Vec<Member> = Vec::new();
    push_member(&mut ms, "id", id.deep_clone());
    push_member(&mut ms, "jsonrpc", Json::text("2.0"));
    push_member(&mut ms, "method", Json::text(method));
    push_member(&mut ms, "params", params.deep_clone());
    assert(view_members(ms@) =~= spec_envelope(method@, params@, id@)->Object_0);
    Json::Object(ms)
}

/// The result of a call in mock mode (see [`spec_mock_result`]).
pub fn mock_result(method: &str, port: &str, sysex_bytes: usize, info: &SessionInfo) -> (r: Json)
    ensures
        r@ == spec_mock_result(method@, port@, sysex_bytes as nat, info@),
{
    let mut ms: Vec<Member> = Vec::new();
    push_member(&mut ms, "ok", Json::Bool(true));
    push_member(&mut ms, "mode", Json::text(port));
    push_member(&mut ms, "method", Json::text(method));
    push_member(&mut ms, "sysex_bytes", Json::Number(JsonNumber::Unsigned(sysex_bytes as u64)));
    push_member(&mut ms, "note", Json::text("mock mode: set MIDI_MODE=host with --features host-midi for real Cubase"));
    let ghost base = view_members(ms@);
    if str_eq(method, "session.status") {
        push_member(&mut ms, "service", Json::text("cubase-ecs-api"));
        push_member(&mut ms, "version", Json::Str(info.version.clone()));
        push_member(&mut ms, "uptime_secs", Json::Number(JsonNumber::Unsigned(info.uptime_secs)));
    }
    assert(view_members(ms@) =~= spec_mock_result(method@, port@, sysex_bytes as nat, info@)->Object_0);
    Json::Object(ms)
}

/// The result of a call in host mode (see [`spec_host_result`]).
pub fn host_result(port: &str, sent: Result<(), String>, reply: Option<Json>, timeout_ms: u64) -> (r: Json)
    ensures
        r@ == spec_host_result(
            port@,
            match sent {
                Ok(()) => Ok(()),
                Err(m) => Err(m@),
            },
            match reply {
                Some(x) => Some(x@),
                None => None,
            },
            timeout_ms,
        ),
{
    match sent {
        Err(reason) => failure_json(Some(port), reason),
        Ok(()) => match reply {
            Some(r) => r,
            None => {
                let mut reason = concat("timeout waiting for Cubase response (", u64_text(timeout_ms).as_str());
                push_text(&mut reason, " ms)");
                failure_json(Some("host-midi"), reason)
            },
        },
    }
}

/// A mock result reports success, the port mode, the method called and
/// the size of the SysEx message.
pub proof fn law_mock_result_reports_the_call(method: Seq<char>, port: Seq<char>, sysex_bytes: nat, info: SessionInfoView)
    ensures
        field(spec_mock_result(method, port, sysex_bytes, info), "ok"@) == Some(JsonView::Bool(true)),
        field(spec_mock_result(method, port, sysex_bytes, info), "mode"@) == Some(JsonView::Str(port)),
        field(spec_mock_result(method, port, sysex_bytes, info), "method"@) == Some(JsonView::Str(method)),
        field(spec_mock_result(method, port, sysex_bytes, info), "sysex_bytes"@)
            == Some(JsonView::Number(NumberView::Unsigned(sysex_bytes as u64))),
{
    reveal_strlit("ok");
    reveal_strlit("mode");
    reveal_strlit("method");
    reveal_strlit("sysex_bytes");
    reveal_with_fuel(lookup, 5);
    assert("ok"@.len() == 2);
    assert("mode"@.len() == 4);
    assert("method"@.len() == 6);
    assert("sysex_bytes"@.len() == 11);
    assert("mode"@ != "method"@);
    let ms = spec_mock_result(method, port, sysex_bytes, info)->Object_0;
    assert(ms.len() >= 5);
    assert(ms.drop_first()[0] == ms[1]);
    assert(ms.drop_first().drop_first()[0] == ms[2]);
    assert(ms.drop_first().drop_first().drop_first()[0] == ms[3]);
}

/// The envelope of a call is ASCII JSON exactly when its method name, its
/// parameters and its `id` are.
pub proof fn law_envelope_is_ascii(method: Seq<char>, params: JsonView, id: JsonView)
    ensures
        ascii_json(spec_envelope(method, params, id)) <==> ascii_text(method) && ascii_json(params) && ascii_json(id),
{
    reveal_strlit("id");
    reveal_strlit("jsonrpc");
    reveal_strlit("method");
    reveal_strlit("params");
    reveal_strlit("2.0");
    let ms = spec_envelope(method, params, id)->Object_0;
    let m3 = ms.drop_last();
    let m2 = m3.drop_last();
    let m1 = m2.drop_last();
    let m0 = m1.drop_last();
    assert(m0 =~= Seq::<(Seq<char>, JsonView)>::empty());
    assert(m1.last() == ms[0] && m2.last() == ms[1] && m3.last() == ms[2] && ms.last() == ms[3]);
    assert(ascii_members(m0));
    assert(ascii_members(m1) == (ascii_text(ms[0].0) && ascii_json(ms[0].1)));
    assert(ascii_members(m2) == (ascii_members(m1) && ascii_text(ms[1].0) && ascii_json(ms[1].1)));
    assert(ascii_members(m3) == (ascii_members(m2) && ascii_text(ms[2].0) && ascii_json(ms[2].1)));
    assert(ascii_members(ms) == (ascii_members(m3) && ascii_text(ms[3].0) && ascii_json(ms[3].1)));
    assert(ascii_json(JsonView::Str("2.0"@)) == ascii_text("2.0"@));
    assert(ascii_text("id"@));
    assert(ascii_text("jsonrpc"@));
    assert(ascii_text("method"@));
    assert(ascii_text("params"@));
    assert(ascii_text("2.0"@));
}

/// The envelope of a call carries the call's `id`, the version `"2.0"`,
/// the method name and the parameters, each under its own name.
pub proof fn law_envelope_carries_the_call(method: Seq<char>, params: JsonView, id: JsonView)
    ensures
        field(spec_envelope(method, params, id), "id"@) == Some(id),
        field(spec_envelope(method, params, id), "jsonrpc"@) == Some(JsonView::Str("2.0"@)),
        field(spec_envelope(method, params, id), "method"@) == Some(JsonView::Str(method)),
        field(spec_envelope(method, params, id), "params"@) == Some(params),
{
    reveal_strlit("id");
    reveal_strlit("jsonrpc");
    reveal_strlit("method");
    reveal_strlit("params");
    reveal_with_fuel(lookup, 5);
    assert("id"@[0] != "jsonrpc"@[0] && "id"@[0] != "method"@[0] && "id"@[0] != "params"@[0]);
    assert("jsonrpc"@[0] != "method"@[0] && "jsonrpc"@[0] != "params"@[0] && "method"@[0] != "params"@[0]);
    let ms = spec_envelope(method, params, id)->Object_0;
    assert(ms.drop_first()[0] == ms[1]);
    assert(ms.drop_first().drop_first()[0] == ms[2]);
    assert(ms.drop_first().drop_first().drop_first()[0] == ms[3]);
}

/// In host mode, a call whose message was sent and answered in time ends
/// with Cubase's reply unchanged; a call whose message could not be sent
/// ends with `ok: false`, the port mode and the reason; a call with no
/// reply in time ends with `ok: false` and a reason naming the timeout.
pub proof fn law_host_result_follows_what_happened(port: Seq<char>, reason: Seq<char>, reply: JsonView, timeout_ms: u64)
    ensures
        spec_host_result(port, Ok(()), Some(reply), timeout_ms) == reply,
        field(spec_host_result(port, Err(reason), Some(reply), timeout_ms), "ok"@) == Some(JsonView::Bool(false)),
        field(spec_host_result(port, Err(reason), Some(reply), timeout_ms), "mode"@) == Some(JsonView::Str(port)),
        field(spec_host_result(port, Err(reason), Some(reply), timeout_ms), "error"@) == Some(JsonView::Str(reason)),
        field(spec_host_result(port, Ok(()), None, timeout_ms), "ok"@) == Some(JsonView::Bool(false)),
        field(spec_host_result(port, Ok(()), None, timeout_ms), "error"@)
            == Some(JsonView::Str("timeout waiting for Cubase response ("@ + decimal(timeout_ms as nat) + " ms)"@)),
{
    reveal_strlit("ok");
    reveal_strlit("mode");
    reveal_strlit("error");
    reveal_with_fuel(lookup, 4);
    assert("ok"@[0] != "mode"@[0] && "ok"@[0] != "error"@[0] && "mode"@[0] != "error"@[0]);
    let a = failure(Some(port), reason)->Object_0;
    assert(a.drop_first()[0] == a[1]);
    assert(a.drop_first().drop_first()[0] == a[2]);
    let b = failure(Some("host-midi"@), timeout_text(timeout_ms))->Object_0;
    assert(b.drop_first()[0] == b[1]);
    assert(b.drop_first().drop_first()[0] == b[2]);
}

/// A mock result of `session.status` also reports the service's name,
/// version and uptime; the mock result of any other method has none of
/// these.
pub proof fn law_mock_status_reports_the_service(method: Seq<char>, port: Seq<char>, sysex_bytes: nat, info: SessionInfoView)
    ensures
        method == "session.status"@ ==> {
            &&& field(spec_mock_result(method, port, sysex_bytes, info), "service"@) == Some(JsonView::Str("cubase-ecs-api"@))
            &&& field(spec_mock_result(method, port, sysex_bytes, info), "version"@) == Some(JsonView::Str(info.version))
            &&& field(spec_mock_result(method, port, sysex_bytes, info), "uptime_secs"@)
                == Some(JsonView::Number(NumberView::Unsigned(info.uptime_secs)))
        },
        method != "session.status"@ ==> {
            &&& field(spec_mock_result(method, port, sysex_bytes, info), "service"@) is None
            &&& field(spec_mock_result(method, port, sysex_bytes, info), "version"@) is None
            &&& field(spec_mock_result(method, port, sysex_bytes, info), "uptime_secs"@) is None
        },
{
    reveal_strlit("ok");
    reveal_strlit("mode");
    reveal_strlit("method");
    reveal_strlit("sysex_bytes");
    reveal_strlit("note");
    reveal_strlit("service");
    reveal_strlit("version");
    reveal_strlit("uptime_secs");
    reveal_with_fuel(lookup, 9);
    assert("service"@[0] != "ok"@[0] && "service"@[0] != "mode"@[0] && "service"@[0] != "method"@[0] && "service"@[0] != "note"@[0]);
    assert("service"@[1] != "sysex_bytes"@[1]);
    assert("version"@[0] != "ok"@[0] && "version"@[0] != "mode"@[0] && "version"@[0] != "method"@[0] && "version"@[0] != "note"@[0]);
    assert("version"@[0] != "sysex_bytes"@[0] && "version"@[0] != "service"@[0]);
    assert("uptime_secs"@[0] != "ok"@[0] && "uptime_secs"@[0] != "mode"@[0] && "uptime_secs"@[0] != "method"@[0]);
    assert("uptime_secs"@[0] != "note"@[0] && "uptime_secs"@[0] != "sysex_bytes"@[0] && "uptime_secs"@[0] != "service"@[0]);
    assert("uptime_secs"@[0] != "version"@[0]);
    let ms = spec_mock_result(method, port, sysex_bytes, info)->Object_0;
    assert(ms.drop_first()[0] == ms[1]);
    assert(ms.drop_first().drop_first()[0] == ms[2]);
    assert(ms.drop_first().drop_first().drop_first()[0] == ms[3]);
    assert(ms.drop_first().drop_first().drop_first().drop_first()[0] == ms[4]);
    if method == "session.status"@ {
        assert(ms.drop_first().drop_first().drop_first().drop_first().drop_first()[0] == ms[5]);
        assert(ms.drop_first().drop_first().drop_first().drop_first().drop_first().drop_first()[0] == ms[6]);
        assert(ms.drop_first().drop_first().drop_first().drop_first().drop_first().drop_first().drop_first()[0] == ms[7]);
    } else {
        assert(ms.drop_first().drop_first().drop_first().drop_first().drop_first().len() == 0);
    }
}

impl Dispatcher {
    /// A dispatcher in mock mode.
    pub fn mock() -> (d: Dispatcher)
        ensures
            d.midi_mode@ == "mock"@,
    {
        Dispatcher { midi_mode: "mock".to_owned() }
    }

    /// A dispatcher for the `MIDI_MODE` setting; without one it is in mock mode.
    pub fn with_mode(setting: Option<String>) -> (d: Dispatcher)
        ensures
            d.midi_mode@ == match setting {
                Some(s) => s@,
                None => "mock"@,
            },
    {
        match setting {
            Some(s) => Dispatcher { midi_mode: s },
            None => Dispatcher::mock(),
        }
    }

    /// Whether calls go to the host port: exactly in mode `"host"`; every
    /// other mode is mock.
    pub fn is_host(&self) -> (r: bool)
        ensures
            r == (self.midi_mode@ == "host"@),
    {
        str_eq(self.midi_mode.as_str(), "host")
    }

    /// Dispatches a call: its envelope is written as JSON and framed as
    /// SysEx. A text with a byte at or above `0x80` ends the call with
    /// `ok: false` and the framing error's message; in mock mode the call
    /// ends with the mock result for the frame's size (the text's length
    /// plus 3); in host mode the frame is to be sent.
    pub fn dispatch(&self, method: &str, params: &Json, id: &Json, port: &str, info: &SessionInfo) -> (step: DispatchStep)
        ensures
            ({
                let text = json_text(spec_envelope(method@, params@, id@));
                &&& seven_bit(text) <==> ascii_json(spec_envelope(method@, params@, id@))
                &&& if !seven_bit(text) {
                    step matches DispatchStep::Reply(j) && j@ == failure(None, frame_error_text(FrameError::NonSevenBit))
                } else if self.midi_mode@ == "host"@ {
                    step matches DispatchStep::Send(f) && f@ == frame(text)
                } else {
                    step matches DispatchStep::Reply(j) && j@ == spec_mock_result(method@, port@, text.len() + 3, info@)
                }
            }),
    {
        let env = envelope(method, params, id);
        match encode(&env) {
            Err(e) => DispatchStep::Reply(failure_json(None, e.message())),
            Ok(f) => if self.is_host() {
                DispatchStep::Send(f)
            } else {
                DispatchStep::Reply(mock_result(method, port, f.len(), info))
            },
        }
    }
}

} // verus!
