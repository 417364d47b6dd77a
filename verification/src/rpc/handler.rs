//! Handling of one JSON-RPC request: the version check, the choice by
//! method, and the checking of each method's parameters.
//!
//! A request that can be answered at once gets its response here; one
//! that must go to Cubase becomes a [`DispatchCall`], whose result is
//! wrapped into the response by [`DispatchCall::respond`].
use vstd::prelude::*;
use crate::json::{Json, JsonView, Member, as_text, field, field_or_null, lookup, push_member, str_eq, view_members};
use crate::json::NumberView;
use crate::rpc::types::{
    CommandExecParams, JsonRpcResponse, MixerSetParams, PluginSetParamParams,
    ResponseView, command_json, err_response, error_json, mixer_json, ok_response, plugin_json,
    response_json, spec_command_params, spec_mixer_params, spec_plugin_params, MixerView, PluginView,
    law_command_is_the_member, law_mixer_params_are_the_members, law_plugin_params_are_the_members,
};
use crate::text::concat;

verus! {

/// The HTTP status of every JSON-RPC reply, errors included.
pub const HTTP_OK: u16 = 200;

/// JSON-RPC error code: the request is not a valid request.
pub const INVALID_REQUEST: i32 = -32600;

/// JSON-RPC error code: there is no such method.
pub const METHOD_NOT_FOUND: i32 = -32601;

/// JSON-RPC error code: the method's parameters are invalid.
pub const INVALID_PARAMS: i32 = -32602;

/// JSON-RPC error code: the request body is not JSON.
pub const PARSE_ERROR: i32 = -32700;

/// A call that is to be sent to Cubase.
pub struct DispatchCall {
    /// The method, one of the four supported.
    pub method: String,
    /// The method's parameters, as checked and normalized.
    pub params: Json,
    /// The request's `id`.
    pub id: Json,
}

/// What handling a request comes to.
pub enum RpcStep {
    /// The request is answered at once: `Ok` with a response, or `Err` with
    /// an HTTP status and an error response (for invalid parameters).
    Respond(Result<Json, (u16, Json)>),
    /// The request is a call to send to Cubase.
    Dispatch(DispatchCall),
}

/// The model of an [`RpcStep`].
pub enum RpcStepView {
    Respond(Result<JsonView, (u16, JsonView)>),
    Dispatch(Seq<char>, JsonView, JsonView),
}

impl View for RpcStep {
    type V = RpcStepView;

    open spec fn view(&self) -> RpcStepView {
        match self {
            RpcStep::Respond(Ok(j)) => RpcStepView::Respond(Ok(j@)),
            RpcStep::Respond(Err((s, j))) => RpcStepView::Respond(Err((*s, j@))),
            RpcStep::Dispatch(c) => RpcStepView::Dispatch(c.method@, c.params@, c.id@),
        }
    }
}

/// The message of the error for a wrong or missing `jsonrpc` version.
pub open spec fn bad_version_text() -> Seq<char> {
    "Invalid Request: jsonrpc must be \"2.0\""@
}

/// The message of the error for a missing method.
pub open spec fn missing_method_text() -> Seq<char> {
    "Invalid Request: missing method"@
}

/// The request's method: its `method` member when that is a string, else
/// the empty string.
pub open spec fn request_method(req: JsonView) -> Seq<char> {
    match as_text(field(req, "method"@)) {
        Some(m) => m,
        None => ""@,
    }
}

/// The `data` of an invalid-params error: the reason, as `detail`.
pub open spec fn detail_json(e: Seq<char>) -> JsonView {
    JsonView::Object(seq![("detail"@, JsonView::Str(e))])
}

/// The error response for invalid parameters, with the reason as `detail`.
pub open spec fn invalid_params_response(id: JsonView, e: Seq<char>) -> JsonView {
    response_json(err_response(id, INVALID_PARAMS, "Invalid params"@, Some(detail_json(e))))
}

/// An error response without `data`.
pub open spec fn error_reply(id: JsonView, code: i32, message: Seq<char>) -> JsonView {
    response_json(err_response(id, code, message, None))
}

/// How a request is handled.
///
/// A request whose `jsonrpc` member is not the string `"2.0"` is refused as
/// an invalid request, whatever its method. Otherwise the method decides:
/// `mixer.set`, `plugin.set_param` and `command.exec` are sent to Cubase
/// with their parameters when these are valid, and refused with HTTP 200
/// and an invalid-params error when not; `session.status` is sent to Cubase
/// with empty parameters; a missing method is an invalid request; any other
/// method is not found. Every response carries the request's `id`
/// (`null` when it has none).
pub open spec fn spec_handle_rpc(req: JsonView) -> RpcStepView {
    let method = request_method(req);
    let params = field_or_null(req, "params"@);
    let id = field_or_null(req, "id"@);
    if as_text(field(req, "jsonrpc"@)) != Some("2.0"@) {
        RpcStepView::Respond(Ok(error_reply(id, INVALID_REQUEST, bad_version_text())))
    } else if method == "mixer.set"@ {
        match spec_mixer_params(params) {
            Ok(m) => RpcStepView::Dispatch(method, mixer_json(m), id),
            Err(e) => RpcStepView::Respond(Err((HTTP_OK, invalid_params_response(id, e)))),
        }
    } else if method == "plugin.set_param"@ {
        match spec_plugin_params(params) {
            Ok(m) => RpcStepView::Dispatch(method, plugin_json(m), id),
            Err(e) => RpcStepView::Respond(Err((HTTP_OK, invalid_params_response(id, e)))),
        }
    } else if method == "command.exec"@ {
        match spec_command_params(params) {
            Ok(c) => RpcStepView::Dispatch(method, command_json(c), id),
            Err(e) => RpcStepView::Respond(Err((HTTP_OK, invalid_params_response(id, e)))),
        }
    } else if method == "session.status"@ {
        RpcStepView::Dispatch(method, JsonView::Object(Seq::empty()), id)
    } else if method == ""@ {
        RpcStepView::Respond(Ok(error_reply(id, INVALID_REQUEST, missing_method_text())))
    } else {
        RpcStepView::Respond(Ok(error_reply(id, METHOD_NOT_FOUND, "Method not found: "@ + method)))
    }
}

/// The member `key` of `req`, or `null`.
fn member_or_null(req: &Json, key: &str) -> (r: Json)
    ensures
        r@ == field_or_null(req@, key@),
{
    match req.get(key) {
        Some(x) => x.deep_clone(),
        None => Json::Null,
    }
}

fn error_reply_json(id: Json, code: i32, message: String) -> (r: Json)
    ensures
        r@ == error_reply(id@, code, message@),
{
    JsonRpcResponse::err(id, code, message, None).to_json()
}

fn invalid_params_json(id: Json, e: String) -> (r: Json)
    ensures
        r@ == invalid_params_response(id@, e@),
{
    let ghost ev = e@;
    let mut ms: Vec<Member> = Vec::new();
    push_member(&mut ms, "detail", Json::Str(e));
    assert(view_members(ms@) =~= seq![("detail"@, JsonView::Str(ev))]);
    JsonRpcResponse::err(id, INVALID_PARAMS, "Invalid params".to_owned(), Some(Json::Object(ms))).to_json()
}

/// Handles one request (see [`spec_handle_rpc`]).
pub fn handle_rpc(req: &Json) -> (step: RpcStep)
    ensures
        step@ == spec_handle_rpc(req@),
{
    let method: String = match req.get("method") {
        Some(Json::Str(m)) => m.clone(),
        _ => "".to_owned(),
    };
    let params = member_or_null(req, "params");
    let id = member_or_null(req, "id");
    let version_ok = match req.get("jsonrpc") {
        Some(Json::Str(v)) => str_eq(v.as_str(), "2.0"),
        _ => false,
    };
    if !version_ok {
        return RpcStep::Respond(Ok(error_reply_json(id, INVALID_REQUEST, "Invalid Request: jsonrpc must be \"2.0\"".to_owned())));
    }
    if str_eq(method.as_str(), "mixer.set") {
        match MixerSetParams::from_json(&params) {
            Ok(p) => RpcStep::Dispatch(DispatchCall { method, params: p.to_json(), id }),
            Err(e) => RpcStep::Respond(Err((HTTP_OK, invalid_params_json(id, e)))),
        }
    } else if str_eq(method.as_str(), "plugin.set_param") {
        match PluginSetParamParams::from_json(&params) {
            Ok(p) => RpcStep::Dispatch(DispatchCall { method, params: p.to_json(), id }),
            Err(e) => RpcStep::Respond(Err((HTTP_OK, invalid_params_json(id, e)))),
        }
    } else if str_eq(method.as_str(), "command.exec") {
        match CommandExecParams::from_json(&params) {
            Ok(p) => RpcStep::Dispatch(DispatchCall { method, params: p.to_json(), id }),
            Err(e) => RpcStep::Respond(Err((HTTP_OK, invalid_params_json(id, e)))),
        }
    } else if str_eq(method.as_str(), "session.status") {
        let empty: Vec<Member> = Vec::new();
        assert(view_members(empty@) =~= Seq::<(Seq<char>, JsonView)>::empty());
        RpcStep::Dispatch(DispatchCall { method, params: Json::Object(empty), id })
    } else if str_eq(method.as_str(), "") {
        RpcStep::Respond(Ok(error_reply_json(id, INVALID_REQUEST, "Invalid Request: missing method".to_owned())))
    } else {
        RpcStep::Respond(Ok(error_reply_json(id, METHOD_NOT_FOUND, concat("Method not found: ", method.as_str()))))
    }
}

impl DispatchCall {
    /// The envelope of this call, as it is sent to Cubase.
    pub fn envelope(&self) -> (r: Json)
        ensures
            r@ == crate::cubase::dispatcher::spec_envelope(self.method@, self.params@, self.id@),
    {
        crate::cubase::dispatcher::envelope(self.method.as_str(), &self.params, &self.id)
    }

    /// The response to this call, once Cubase (or the mock) gave `result`.
    pub fn respond(self, result: Json) -> (r: Json)
        ensures
            r@ == response_json(ok_response(self.id@, result@)),
    {
        JsonRpcResponse::ok(self.id, result).to_json()
    }
}

/// The members of a response's JSON form, read back by key.
pub proof fn lemma_response_members(r: ResponseView)
    ensures
        field(response_json(r), "jsonrpc"@) == Some(JsonView::Str(r.jsonrpc)),
        field(response_json(r), "result"@) == r.result,
        field(response_json(r), "error"@) == match r.error {
            Some(e) => Some(error_json(e)),
            None => None::<JsonView>,
        },
        field(response_json(r), "id"@) == Some(r.id),
{
    reveal_strlit("jsonrpc");
    reveal_strlit("result");
    reveal_strlit("error");
    reveal_strlit("id");
    reveal_with_fuel(lookup, 5);
    let ms = response_json(r)->Object_0;
    assert("jsonrpc"@.len() == 7);
    assert("result"@.len() == 6);
    assert("id"@.len() == 2);
    assert("jsonrpc"@ != "id"@);
    assert("result"@ != "id"@);
    assert("error"@ != "id"@);
    assert("jsonrpc"@ != "result"@);
    assert("jsonrpc"@ != "error"@);
    assert("result"@ != "error"@);
}

/// Every response, immediate or after a call to Cubase, carries the
/// request's `id` (`null` when the request has none); invalid parameters
/// are reported with HTTP status 200.
pub proof fn law_response_carries_request_id(req: JsonView, result: JsonView)
    ensures
        match spec_handle_rpc(req) {
            RpcStepView::Respond(Ok(j)) => field(j, "id"@) == Some(field_or_null(req, "id"@)),
            RpcStepView::Respond(Err((status, j))) => {
                &&& status == HTTP_OK
                &&& field(j, "id"@) == Some(field_or_null(req, "id"@))
            },
            RpcStepView::Dispatch(m, p, id) => {
                &&& id == field_or_null(req, "id"@)
                &&& field(response_json(ok_response(id, result)), "id"@) == Some(id)
            },
        },
{
    let id = field_or_null(req, "id"@);
    lemma_response_members(ok_response(id, result));
    lemma_response_members(err_response(id, INVALID_REQUEST, bad_version_text(), None));
    lemma_response_members(err_response(id, INVALID_REQUEST, missing_method_text(), None));
    lemma_response_members(err_response(id, METHOD_NOT_FOUND, "Method not found: "@ + request_method(req), None));
    let params = field_or_null(req, "params"@);
    if let Err(e) = spec_mixer_params(params) {
        lemma_response_members(err_response(id, INVALID_PARAMS, "Invalid params"@, Some(detail_json(e))));
    }
    if let Err(e) = spec_plugin_params(params) {
        lemma_response_members(err_response(id, INVALID_PARAMS, "Invalid params"@, Some(detail_json(e))));
    }
    if let Err(e) = spec_command_params(params) {
        lemma_response_members(err_response(id, INVALID_PARAMS, "Invalid params"@, Some(detail_json(e))));
    }
}

/// Every response is a JSON-RPC 2.0 response: its `jsonrpc` member is
/// `"2.0"`, and it has a `result` or an `error`, never both.
pub proof fn law_responses_are_well_formed(id: JsonView, result: JsonView, code: i32, message: Seq<char>, data: Option<JsonView>)
    ensures
        field(response_json(ok_response(id, result)), "jsonrpc"@) == Some(JsonView::Str("2.0"@)),
        field(response_json(ok_response(id, result)), "result"@) == Some(result),
        field(response_json(ok_response(id, result)), "error"@) is None,
        field(response_json(err_response(id, code, message, data)), "jsonrpc"@) == Some(JsonView::Str("2.0"@)),
        field(response_json(err_response(id, code, message, data)), "result"@) is None,
        field(response_json(err_response(id, code, message, data)), "error"@) is Some,
{
    lemma_response_members(ok_response(id, result));
    lemma_response_members(err_response(id, code, message, data));
}

/// A request whose `jsonrpc` member is not the string `"2.0"` is refused
/// as an invalid request, whatever its method and parameters.
pub proof fn law_version_is_checked_first(req: JsonView)
    requires
        as_text(field(req, "jsonrpc"@)) != Some("2.0"@),
    ensures
        spec_handle_rpc(req) == RpcStepView::Respond(Ok(error_reply(field_or_null(req, "id"@), INVALID_REQUEST, bad_version_text()))),
{
}

/// Only the four supported methods are ever sent to Cubase, and they are
/// sent under the request's own method name.
pub proof fn law_only_supported_methods_are_dispatched(req: JsonView)
    ensures
        spec_handle_rpc(req) matches RpcStepView::Dispatch(m, p, id) ==> {
            &&& m == request_method(req)
            &&& (m == "mixer.set"@ || m == "plugin.set_param"@ || m == "command.exec"@ || m == "session.status"@)
        },
{
}

/// A request with a method other than the supported ones (and not empty)
/// is answered with "method not found", naming the method.
pub proof fn law_unknown_method_is_not_found(req: JsonView)
    requires
        as_text(field(req, "jsonrpc"@)) == Some("2.0"@),
        request_method(req) != "mixer.set"@,
        request_method(req) != "plugin.set_param"@,
        request_method(req) != "command.exec"@,
        request_method(req) != "session.status"@,
        request_method(req) != ""@,
    ensures
        spec_handle_rpc(req) == RpcStepView::Respond(Ok(error_reply(
            field_or_null(req, "id"@),
            METHOD_NOT_FOUND,
            "Method not found: "@ + request_method(req),
        ))),
{
}

/// The members of the JSON form of `plugin.set_param` parameters, read
/// back by key.
pub proof fn lemma_plugin_json_fields(m: PluginView)
    ensures
        field(plugin_json(m), "track"@) == Some(JsonView::Str(m.track)),
        field(plugin_json(m), "slot"@) == Some(JsonView::Number(NumberView::Unsigned(m.slot as u64))),
        field(plugin_json(m), "plugin"@) == Some(JsonView::Str(m.plugin)),
        field(plugin_json(m), "param"@) == Some(JsonView::Str(m.param)),
        field(plugin_json(m), "value"@) == Some(JsonView::Number(m.value)),
{
    reveal_strlit("track");
    reveal_strlit("slot");
    reveal_strlit("plugin");
    reveal_strlit("param");
    reveal_strlit("value");
    reveal_with_fuel(lookup, 6);
    assert("param"@[1] != "plugin"@[1]);
    assert("param"@[0] != "slot"@[0] && "param"@[0] != "track"@[0] && "param"@[0] != "value"@[0]);
    assert("plugin"@[0] != "slot"@[0] && "plugin"@[0] != "track"@[0] && "plugin"@[0] != "value"@[0]);
    assert("slot"@[0] != "track"@[0] && "slot"@[0] != "value"@[0] && "track"@[0] != "value"@[0]);
    let ms = plugin_json(m)->Object_0;
    assert(ms.drop_first()[0] == ms[1]);
    assert(ms.drop_first().drop_first()[0] == ms[2]);
    assert(ms.drop_first().drop_first().drop_first()[0] == ms[3]);
    assert(ms.drop_first().drop_first().drop_first().drop_first()[0] == ms[4]);
}

/// The members of the JSON form of `mixer.set` parameters, read back by key.
pub proof fn lemma_mixer_json_fields(m: MixerView)
    ensures
        field(mixer_json(m), "track"@) == Some(JsonView::Str(m.track)),
        field(mixer_json(m), "param"@) == Some(JsonView::Str(m.param)),
        field(mixer_json(m), "value"@) == Some(JsonView::Number(m.value)),
{
    reveal_strlit("track");
    reveal_strlit("param");
    reveal_strlit("value");
    reveal_with_fuel(lookup, 4);
    assert("param"@[0] != "track"@[0] && "param"@[0] != "value"@[0] && "track"@[0] != "value"@[0]);
    let ms = mixer_json(m)->Object_0;
    assert(ms.drop_first()[0] == ms[1]);
    assert(ms.drop_first().drop_first()[0] == ms[2]);
}

/// A valid `plugin.set_param` call is sent to Cubase with exactly the
/// parameters read from the request: each of `track`, `slot`, `plugin`,
/// `param` and `value` is found in the sent parameters under its own name,
/// with the value read for it.
pub proof fn law_plugin_call_carries_its_params(req: JsonView, m: PluginView)
    requires
        as_text(field(req, "jsonrpc"@)) == Some("2.0"@),
        request_method(req) == "plugin.set_param"@,
        spec_plugin_params(field_or_null(req, "params"@)) == Ok::<PluginView, Seq<char>>(m),
    ensures
        spec_handle_rpc(req) matches RpcStepView::Dispatch(method, p, id) && {
            &&& method == "plugin.set_param"@
            &&& id == field_or_null(req, "id"@)
            &&& field(p, "track"@) == Some(JsonView::Str(m.track))
            &&& field(p, "slot"@) == Some(JsonView::Number(NumberView::Unsigned(m.slot as u64)))
            &&& field(p, "plugin"@) == Some(JsonView::Str(m.plugin))
            &&& field(p, "param"@) == Some(JsonView::Str(m.param))
            &&& field(p, "value"@) == Some(JsonView::Number(m.value))
        },
{
    reveal_strlit("mixer.set");
    reveal_strlit("plugin.set_param");
    assert("mixer.set"@ != "plugin.set_param"@) by {
        assert("mixer.set"@.len() != "plugin.set_param"@.len());
    }
    lemma_plugin_json_fields(m);
}

/// A valid `mixer.set` call is sent to Cubase with exactly the parameters
/// read from the request: `track`, `param` and `value`, each under its own
/// name.
pub proof fn law_mixer_call_carries_its_params(req: JsonView, m: MixerView)
    requires
        as_text(field(req, "jsonrpc"@)) == Some("2.0"@),
        request_method(req) == "mixer.set"@,
        spec_mixer_params(field_or_null(req, "params"@)) == Ok::<MixerView, Seq<char>>(m),
    ensures
        spec_handle_rpc(req) matches RpcStepView::Dispatch(method, p, id) && {
            &&& method == "mixer.set"@
            &&& id == field_or_null(req, "id"@)
            &&& field(p, "track"@) == Some(JsonView::Str(m.track))
            &&& field(p, "param"@) == Some(JsonView::Str(m.param))
            &&& field(p, "value"@) == Some(JsonView::Number(m.value))
        },
{
    lemma_mixer_json_fields(m);
}

/// A valid `command.exec` call is sent to Cubase with the command `id`
/// read from the request.
pub proof fn law_command_call_carries_its_id(req: JsonView, c: Seq<char>)
    requires
        as_text(field(req, "jsonrpc"@)) == Some("2.0"@),
        request_method(req) == "command.exec"@,
        spec_command_params(field_or_null(req, "params"@)) == Ok::<Seq<char>, Seq<char>>(c),
    ensures
        spec_handle_rpc(req) matches RpcStepView::Dispatch(method, p, id) && {
            &&& method == "command.exec"@
            &&& id == field_or_null(req, "id"@)
            &&& field(p, "id"@) == Some(JsonView::Str(c))
        },
{
    reveal_strlit("mixer.set");
    reveal_strlit("plugin.set_param");
    reveal_strlit("command.exec");
    assert("mixer.set"@ != "command.exec"@) by {
        assert("mixer.set"@.len() != "command.exec"@.len());
    }
    assert("plugin.set_param"@ != "command.exec"@) by {
        assert("plugin.set_param"@.len() != "command.exec"@.len());
    }
    reveal_with_fuel(lookup, 2);
}

/// `session.status` is sent to Cubase with an empty parameter object,
/// whatever parameters the request carries (or none): two such requests
/// with the same `id` are sent identically.
pub proof fn law_status_call_has_no_params(req: JsonView, other: JsonView)
    requires
        as_text(field(req, "jsonrpc"@)) == Some("2.0"@),
        request_method(req) == "session.status"@,
        as_text(field(other, "jsonrpc"@)) == Some("2.0"@),
        request_method(other) == "session.status"@,
        field_or_null(other, "id"@) == field_or_null(req, "id"@),
    ensures
        spec_handle_rpc(req) matches RpcStepView::Dispatch(method, p, id) && {
            &&& method == "session.status"@
            &&& id == field_or_null(req, "id"@)
            &&& p == JsonView::Object(Seq::empty())
        },
        spec_handle_rpc(req) == spec_handle_rpc(other),
{
    reveal_strlit("mixer.set");
    reveal_strlit("plugin.set_param");
    reveal_strlit("command.exec");
    reveal_strlit("session.status");
    assert("mixer.set"@ != "session.status"@) by {
        assert("mixer.set"@.len() != "session.status"@.len());
    }
    assert("plugin.set_param"@ != "session.status"@) by {
        assert("plugin.set_param"@.len() != "session.status"@.len());
    }
    assert("command.exec"@ != "session.status"@) by {
        assert("command.exec"@[0] != "session.status"@[0]);
    }
}

/// A valid `plugin.set_param` call whose parameters are an object is sent
/// with the request's own `track`, `plugin` and `param` members, each under
/// its own name: reading a name from the sent parameters gives what
/// reading it from the request gives.
pub proof fn law_plugin_call_forwards_the_request_members(req: JsonView)
    requires
        as_text(field(req, "jsonrpc"@)) == Some("2.0"@),
        request_method(req) == "plugin.set_param"@,
        field_or_null(req, "params"@) is Object,
        spec_plugin_params(field_or_null(req, "params"@)) is Ok,
    ensures
        spec_handle_rpc(req) matches RpcStepView::Dispatch(method, p, id) && {
            &&& field(p, "track"@) == field(field_or_null(req, "params"@), "track"@)
            &&& field(p, "plugin"@) == field(field_or_null(req, "params"@), "plugin"@)
            &&& field(p, "param"@) == field(field_or_null(req, "params"@), "param"@)
        },
{
    let params = field_or_null(req, "params"@);
    let m = spec_plugin_params(params)->Ok_0;
    law_plugin_params_are_the_members(params, m);
    law_plugin_call_carries_its_params(req, m);
}

/// A valid `mixer.set` call whose parameters are an object is sent with
/// the request's own `track` and `param` members, each under its own name.
pub proof fn law_mixer_call_forwards_the_request_members(req: JsonView)
    requires
        as_text(field(req, "jsonrpc"@)) == Some("2.0"@),
        request_method(req) == "mixer.set"@,
        field_or_null(req, "params"@) is Object,
        spec_mixer_params(field_or_null(req, "params"@)) is Ok,
    ensures
        spec_handle_rpc(req) matches RpcStepView::Dispatch(method, p, id) && {
            &&& field(p, "track"@) == field(field_or_null(req, "params"@), "track"@)
            &&& field(p, "param"@) == field(field_or_null(req, "params"@), "param"@)
        },
{
    let params = field_or_null(req, "params"@);
    let m = spec_mixer_params(params)->Ok_0;
    law_mixer_params_are_the_members(params, m);
    law_mixer_call_carries_its_params(req, m);
}

/// A valid `command.exec` call whose parameters are an object is sent with
/// the request's own `id` member as the command.
pub proof fn law_command_call_forwards_the_request_id(req: JsonView)
    requires
        as_text(field(req, "jsonrpc"@)) == Some("2.0"@),
        request_method(req) == "command.exec"@,
        field_or_null(req, "params"@) is Object,
        spec_command_params(field_or_null(req, "params"@)) is Ok,
    ensures
        spec_handle_rpc(req) matches RpcStepView::Dispatch(method, p, id) &&
            field(p, "id"@) == field(field_or_null(req, "params"@), "id"@),
{
    let params = field_or_null(req, "params"@);
    let c = spec_command_params(params)->Ok_0;
    law_command_is_the_member(params, c);
    law_command_call_carries_its_id(req, c);
}

} // verus!
