//! Reading JSON text into the library's model, with serde_json's parser.
use vstd::prelude::*;
use crate::json::{Json, JsonNumber, JsonView, Member, NumberView, view_opt};
use crate::json_text::json_text;
use serde_json::Value;

verus! {

#[verifier::external_type_specification]
#[verifier::external_body]
pub struct ExParsedValue(serde_json::Value);

/// `a` sorts before `b`, character by character (by code point), a proper
/// prefix first: the order in which serde_json's map keeps its keys.
pub open spec fn text_less(a: Seq<char>, b: Seq<char>) -> bool
    decreases a.len(),
{
    if a.len() == 0 {
        b.len() > 0
    } else if b.len() == 0 {
        false
    } else if a[0] != b[0] {
        (a[0] as u32) < (b[0] as u32)
    } else {
        text_less(a.drop_first(), b.drop_first())
    }
}

/// `v` is a value that reading its own compact text gives back unchanged:
/// no float, no non-negative `Signed` integer (which reads back as
/// `Unsigned`), object keys in strictly increasing order (serde_json's map
/// sorts its keys and keeps one value per key), and arrays and objects
/// nested at most `depth` deep.
pub open spec fn plain_within(v: JsonView, depth: nat) -> bool
    decreases v,
{
    match v {
        JsonView::Null => true,
        JsonView::Bool(_) => true,
        JsonView::Number(n) => match n {
            NumberView::Unsigned(_) => true,
            NumberView::Signed(i) => i < 0,
            NumberView::Float(_) => false,
        },
        JsonView::Str(_) => true,
        JsonView::Array(items) => depth > 0 && plain_items(items, (depth - 1) as nat),
        JsonView::Object(members) => depth > 0 && keys_increasing(members) && plain_members(members, (depth - 1) as nat),
    }
}

/// Every element is plain within `depth`.
pub open spec fn plain_items(s: Seq<JsonView>, depth: nat) -> bool
    decreases s,
{
    if s.len() == 0 {
        true
    } else {
        plain_items(s.drop_last(), depth) && plain_within(s.last(), depth)
    }
}

/// Every member value is plain within `depth`.
pub open spec fn plain_members(s: Seq<(Seq<char>, JsonView)>, depth: nat) -> bool
    decreases s,
{
    if s.len() == 0 {
        true
    } else {
        plain_members(s.drop_last(), depth) && plain_within(s.last().1, depth)
    }
}

/// Each member's key sorts before the next one's.
pub open spec fn keys_increasing(s: Seq<(Seq<char>, JsonView)>) -> bool {
    forall|i: int| 0 <= i < s.len() - 1 ==> text_less(#[trigger] s[i].0, s[i + 1].0)
}

/// `v` reads back from its own compact text: plain, and nested at most 127
/// deep (serde_json refuses the 128th level).
pub open spec fn plain_json(v: JsonView) -> bool {
    plain_within(v, 127)
}

/// `r` is what reading `b` gives wherever `b` is the compact text of a
/// plain value: that value.
pub open spec fn reads_back(b: Seq<u8>, r: Option<JsonView>) -> bool {
    forall|v: JsonView| plain_json(v) && b == #[trigger] json_text(v) ==> r == Some(v)
}

/// The value that serde_json reads from the bytes `b`, where they hold
/// exactly one JSON value.
pub uninterp spec fn parsed_json(b: Seq<u8>) -> Option<JsonView>;

/// Turns a value that serde_json has read into the library's model, one
/// arm per variant: an integer that fits `u64` as `Unsigned`, another
/// integer as `Signed`, a float as serde_json's text of it, object members
/// in the map's order.
#[verifier::external_body]
fn model_of_value(v: &Value) -> Json {
    match v {
        Value::Null => Json::Null,
        Value::Bool(b) => Json::Bool(*b),
        Value::Number(n) => Json::Number(match (n.as_u64(), n.as_i64()) {
            (Some(u), _) => JsonNumber::Unsigned(u),
            (None, Some(i)) => JsonNumber::Signed(i),
            (None, None) => JsonNumber::Float(n.to_string()),
        }),
        Value::String(s) => Json::Str(s.clone()),
        Value::Array(a) => Json::Array(a.iter().map(model_of_value).collect()),
        Value::Object(m) => Json::Object(m.iter().map(|(k, x)| Member { key: k.clone(), value: model_of_value(x) }).collect()),
    }
}

/// Reads one JSON value from `b` with `serde_json::from_slice::<Value>`
/// (surrounding whitespace allowed, anything else after the value refused)
/// and gives its model. Claims: the result is what [`parsed_json`] names;
/// empty input is refused (serde_json reports the end of input); and the
/// compact text of a plain value reads back as that value, since JSON text
/// denotes exactly the value it was written from, serde_json's map keeps
/// keys sorted, and integers are read as `u64` when non-negative and as
/// `i64` otherwise.
#[verifier::external_body]
pub(crate) fn parse_json_bytes(b: &[u8]) -> (r: Option<Json>)
    ensures
        r matches Some(j) ==> parsed_json(b@) == Some(j@),
        r is None ==> parsed_json(b@) is None,
        b@.len() == 0 ==> r is None,
        reads_back(b@, view_opt(r)),
{
    match serde_json::from_slice::<Value>(b) {
        Ok(v) => Some(model_of_value(&v)),
        Err(_) => None,
    }
}

} // verus!
