//! Correlating Cubase's SysEx replies with the requests that wait for them.
//!
//! A request waits under the key of its JSON-RPC `id`; a reply
//! `{"jsonrpc":"2.0","id":N,"result":{...}}` is delivered to the waiter with
//! the same key, which receives the reply's `result`.
use vstd::prelude::*;
use crate::json::{Json, JsonView, field_or_null};
use crate::rpc::handler::lemma_response_members;
use crate::rpc::types::{ok_response, response_json};
use crate::json_text::{json_text, to_json_text};
use crate::text::{contains_text, decimal, lemma_parse_decimal, parse_u64, parse_u64_text, text_contains};
use vstd::utf8::encode_utf8;

verus! {

/// How long a request waits for its reply when no setting is given.
pub const DEFAULT_RESPONSE_TIMEOUT_MS: u64 = 2000;

/// The reply timeout in milliseconds for a `MIDI_RESPONSE_TIMEOUT_MS`
/// setting: the setting when it parses as a `u64`, else 2000.
pub open spec fn spec_response_timeout_ms(setting: Option<Seq<char>>) -> u64 {
    match setting {
        Some(s) => match parse_u64(s) {
            Some(v) => v,
            None => DEFAULT_RESPONSE_TIMEOUT_MS,
        },
        None => DEFAULT_RESPONSE_TIMEOUT_MS,
    }
}

/// The reply timeout in milliseconds for the `MIDI_RESPONSE_TIMEOUT_MS`
/// setting (`None` when it is not set).
pub fn response_timeout_ms(setting: Option<&str>) -> (r: u64)
    ensures
        r == spec_response_timeout_ms(match setting {
            Some(s) => Some(s@),
            None => None,
        }),
{
    match setting {
        Some(s) => match parse_u64_text(s) {
            Some(v) => v,
            None => DEFAULT_RESPONSE_TIMEOUT_MS,
        },
        None => DEFAULT_RESPONSE_TIMEOUT_MS,
    }
}

/// The key a request waits under, for its `id`: the UTF-8 bytes of a
/// string's own text, and the compact JSON text of any other value.
pub open spec fn spec_id_key(id: JsonView) -> Seq<u8> {
    match id {
        JsonView::Str(s) => encode_utf8(s),
        _ => json_text(id),
    }
}

/// The key that a request with this `id` waits under (see [`spec_id_key`]).
pub fn id_key(id: &Json) -> (r: Vec<u8>)
    ensures
        r@ == spec_id_key(id@),
{
    match id {
        Json::Str(s) => {
            let b = s.as_str().as_bytes();
            let mut out: Vec<u8> = Vec::new();
            out.extend_from_slice(b);
            assert(out@ =~= b@);
            out
        },
        _ => to_json_text(id),
    }
}

/// What a reply delivers: the `id` it answers (`null` when absent) and its
/// `result` (`null` when absent).
pub fn delivery_parts(msg: &Json) -> (r: (Json, Json))
    ensures
        r.0@ == field_or_null(msg@, "id"@),
        r.1@ == field_or_null(msg@, "result"@),
{
    let id = match msg.get("id") {
        Some(x) => x.deep_clone(),
        None => Json::Null,
    };
    let result = match msg.get("result") {
        Some(x) => x.deep_clone(),
        None => Json::Null,
    };
    (id, result)
}

/// Only messages that start with the SysEx start byte are taken as replies.
pub fn is_sysex_message(data: &[u8]) -> (r: bool)
    ensures
        r == (data@.len() > 0 && data@[0] == 0xF0u8),
{
    data.len() > 0 && data[0] == 0xF0u8
}

/// A port whose name could be read and contains `want`.
pub open spec fn port_matches(name: Option<Seq<char>>, want: Seq<char>) -> bool {
    match name {
        Some(n) => contains_text(n, want),
        None => false,
    }
}

/// `i` is the first matching port.
pub open spec fn is_first_match(names: Seq<Option<Seq<char>>>, want: Seq<char>, i: int) -> bool {
    &&& 0 <= i < names.len()
    &&& port_matches(names[i], want)
    &&& forall|j: int| 0 <= j < i ==> !port_matches(#[trigger] names[j], want)
}

/// The MIDI port to use, among ports whose names could be read
/// (`Some`) or not (`None`): the first whose name contains `want`, else the
/// first port, else none.
pub open spec fn spec_select_port(names: Seq<Option<Seq<char>>>, want: Seq<char>) -> Option<int> {
    if exists|i: int| is_first_match(names, want, i) {
        Some(choose|i: int| is_first_match(names, want, i))
    } else if names.len() > 0 {
        Some(0)
    } else {
        None
    }
}

/// The model of a list of port names.
pub open spec fn names_view(names: Seq<Option<String>>) -> Seq<Option<Seq<char>>> {
    names.map_values(|o: Option<String>| match o {
        Some(s) => Some(s@),
        None => None,
    })
}

/// Picks the MIDI port to use, input or output (see [`spec_select_port`]).
pub fn select_port(names: &Vec<Option<String>>, want: &str) -> (r: Option<usize>)
    ensures
        match r {
            Some(i) => spec_select_port(names_view(names@), want@) == Some(i as int),
            None => spec_select_port(names_view(names@), want@) is None,
        },
{
    let ghost nv = names_view(names@);
    let mut i: usize = 0;
    while i < names.len()
        invariant
            0 <= i <= names.len(),
            nv == names_view(names@),
            nv.len() == names.len(),
            forall|j: int| 0 <= j < i ==> !port_matches(#[trigger] nv[j], want@),
        decreases names.len() - i,
    {
        let hit = match &names[i] {
            Some(n) => text_contains(n.as_str(), want),
            None => false,
        };
        if hit {
            proof {
                assert(port_matches(nv[i as int], want@));
                assert(is_first_match(nv, want@, i as int));
                let w = choose|k: int| is_first_match(nv, want@, k);
                if w < i {
                    assert(port_matches(nv[w], want@));
                } else if w > i {
                    assert(!port_matches(nv[i as int], want@));
                }
            }
            return Some(i);
        }
        i = i + 1;
    }
    proof {
        assert forall|k: int| !is_first_match(nv, want@, k) by {
            if 0 <= k < nv.len() {
                assert(!port_matches(nv[k], want@));
            }
        }
    }
    if names.len() > 0 {
        Some(0)
    } else {
        None
    }
}

/// A reply in the form Cubase sends, `{"jsonrpc":"2.0","id":id,"result":result}`,
/// delivers `result` to the request that waits under the key of `id`.
pub proof fn law_reply_reaches_its_request(id: JsonView, result: JsonView)
    ensures
        field_or_null(response_json(ok_response(id, result)), "id"@) == id,
        field_or_null(response_json(ok_response(id, result)), "result"@) == result,
        spec_id_key(field_or_null(response_json(ok_response(id, result)), "id"@)) == spec_id_key(id),
{
    lemma_response_members(ok_response(id, result));
}

/// The reply timeout is exactly the number that the setting reads as,
/// whenever it reads as a `u64`; 2000 ms only when the setting is absent
/// or does not read as one. In particular the decimal text of any `n`
/// sets a timeout of `n` ms.
pub proof fn law_timeout_follows_the_setting(s: Seq<char>, n: u64)
    ensures
        parse_u64(s) matches Some(v) ==> spec_response_timeout_ms(Some(s)) == v,
        parse_u64(s) is None ==> spec_response_timeout_ms(Some(s)) == 2000,
        spec_response_timeout_ms(None) == 2000,
        spec_response_timeout_ms(Some(decimal(n as nat))) == n,
{
    lemma_parse_decimal(n);
}

/// The port chosen is a port whose name contains the wanted text, the
/// first such one, whenever there is one; otherwise the first port, and
/// none only when there are no ports.
pub proof fn law_first_matching_port_is_chosen(names: Seq<Option<Seq<char>>>, want: Seq<char>)
    ensures
        (exists|j: int| 0 <= j < names.len() && port_matches(#[trigger] names[j], want)) ==> {
            spec_select_port(names, want) matches Some(i) && {
                &&& 0 <= i < names.len()
                &&& port_matches(names[i], want)
                &&& forall|j: int| 0 <= j < i ==> !port_matches(#[trigger] names[j], want)
            }
        },
        !(exists|j: int| 0 <= j < names.len() && port_matches(#[trigger] names[j], want)) ==> {
            spec_select_port(names, want) == if names.len() > 0 { Some(0int) } else { None::<int> }
        },
{
    if exists|j: int| 0 <= j < names.len() && port_matches(#[trigger] names[j], want) {
        let j = choose|j: int| 0 <= j < names.len() && port_matches(#[trigger] names[j], want);
        lemma_first_match_exists(names, want, j);
    } else {
        assert forall|k: int| !is_first_match(names, want, k) by {
            if 0 <= k < names.len() {
                assert(!port_matches(names[k], want));
            }
        }
    }
}

proof fn lemma_first_match_exists(names: Seq<Option<Seq<char>>>, want: Seq<char>, j: int)
    requires
        0 <= j < names.len(),
        port_matches(names[j], want),
    ensures
        exists|i: int| is_first_match(names, want, i),
    decreases j,
{
    if forall|k: int| 0 <= k < j ==> !port_matches(#[trigger] names[k], want) {
        assert(is_first_match(names, want, j));
    } else {
        let k = choose|k: int| 0 <= k < j && port_matches(#[trigger] names[k], want);
        lemma_first_match_exists(names, want, k);
    }
}

} // verus!
