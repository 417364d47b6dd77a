//! Reading structs from JSON values the way serde's derived `Deserialize`
//! reads them from a `serde_json::Value`: from an object, member by member
//! in the object's order, with unknown members ignored; or from an array,
//! element by element; and with serde's error messages.
use vstd::prelude::*;
use crate::json::{Json, JsonNumber, JsonView, NumberView, lookup, lemma_view_items, lemma_view_members, view_items, view_members, str_eq};
use crate::json_text::plain_ascii;
use crate::text::{concat, decimal, i64_text, push_text, signed_decimal, u64_text};

verus! {

/// What a field holds.
#[derive(Debug, Clone, Copy, PartialEq, Eq, Structural)]
pub enum Kind {
    /// A string.
    Text,
    /// Any JSON number (an `f64` field).
    Number,
    /// An integer from 0 to `u32::MAX`.
    Small,
    /// Any JSON value.
    Any,
}

/// One field of a struct: its key, what it holds, and whether it may be
/// absent (and then is `null`).
pub struct FieldSpec {
    pub key: &'static str,
    pub kind: Kind,
    pub optional: bool,
}

/// The model of a [`FieldSpec`].
pub open spec fn spec_of(f: FieldSpec) -> (Seq<char>, Kind, bool) {
    (f.key@, f.kind, f.optional)
}

/// The models of a list of fields.
pub open spec fn schema_view(s: Seq<FieldSpec>) -> Seq<(Seq<char>, Kind, bool)> {
    s.map_values(|f: FieldSpec| spec_of(f))
}

/// A field's value as read.
pub enum FieldValue {
    Text(String),
    Number(JsonNumber),
    Small(u32),
    Any(Json),
}

/// The model of a [`FieldValue`].
pub enum ValueView {
    Text(Seq<char>),
    Number(NumberView),
    Small(u32),
    Any(JsonView),
}

impl View for FieldValue {
    type V = ValueView;

    open spec fn view(&self) -> ValueView {
        match self {
            FieldValue::Text(s) => ValueView::Text(s@),
            FieldValue::Number(n) => ValueView::Number(n@),
            FieldValue::Small(u) => ValueView::Small(*u),
            FieldValue::Any(j) => ValueView::Any(j@),
        }
    }
}

/// The models of a list of read values.
pub open spec fn values_view(s: Seq<FieldValue>) -> Seq<ValueView> {
    s.map_values(|v: FieldValue| v@)
}

/// The models of a list of slots.
pub open spec fn slots_view(s: Seq<Option<FieldValue>>) -> Seq<Option<ValueView>> {
    s.map_values(|v: Option<FieldValue>| match v {
        Some(x) => Some(x@),
        None => None,
    })
}

/// Rust's `Debug` text of a string: quoted, with escapes.
pub uninterp spec fn debug_quoted(s: Seq<char>) -> Seq<char>;

/// Renders a string with std's `Debug` (`format!("{:?}", s)`), which
/// quotes it and escapes `"`, `\` and non-printable characters; plain
/// printable ASCII text appears between the quotes unchanged.
#[verifier::external_body]
fn debug_text(s: &str) -> (r: String)
    ensures
        r@ == debug_quoted(s@),
        plain_ascii(s@) ==> r@ == seq!['"'] + s@ + seq!['"'],
{
    format!("{:?}", s)
}

/// How an unexpected value is named in an error message.
pub open spec fn unexpected_text(v: JsonView) -> Seq<char> {
    match v {
        JsonView::Null => "null"@,
        JsonView::Bool(b) => "boolean `"@ + (if b { "true"@ } else { "false"@ }) + "`"@,
        JsonView::Number(NumberView::Unsigned(u)) => "integer `"@ + decimal(u as nat) + "`"@,
        JsonView::Number(NumberView::Signed(i)) => "integer `"@ + signed_decimal(i as int) + "`"@,
        JsonView::Number(NumberView::Float(t)) => "floating point `"@ + t + "`"@,
        JsonView::Str(s) => "string "@ + debug_quoted(s),
        JsonView::Array(_) => "sequence"@,
        JsonView::Object(_) => "map"@,
    }
}

/// "invalid type: ..., expected ...".
pub open spec fn type_error(v: JsonView, expected: Seq<char>) -> Seq<char> {
    "invalid type: "@ + unexpected_text(v) + ", expected "@ + expected
}

/// "invalid value: ..., expected u32".
pub open spec fn range_error(v: JsonView) -> Seq<char> {
    "invalid value: "@ + unexpected_text(v) + ", expected u32"@
}

/// What each kind of field is expected to be, in error messages.
pub open spec fn expected_text(k: Kind) -> Seq<char> {
    match k {
        Kind::Text => "a string"@,
        Kind::Number => "f64"@,
        Kind::Small => "u32"@,
        Kind::Any => "any valid JSON value"@,
    }
}

/// Reading one field's value.
pub open spec fn read_value(k: Kind, v: JsonView) -> Result<ValueView, Seq<char>> {
    match k {
        Kind::Text => match v {
            JsonView::Str(s) => Ok(ValueView::Text(s)),
            _ => Err(type_error(v, expected_text(k))),
        },
        Kind::Number => match v {
            JsonView::Number(n) => Ok(ValueView::Number(n)),
            _ => Err(type_error(v, expected_text(k))),
        },
        Kind::Small => match v {
            JsonView::Number(NumberView::Unsigned(u)) => if u <= u32::MAX {
                Ok(ValueView::Small(u as u32))
            } else {
                Err(range_error(v))
            },
            JsonView::Number(NumberView::Signed(i)) => if 0 <= i <= u32::MAX {
                Ok(ValueView::Small(i as u32))
            } else {
                Err(range_error(v))
            },
            _ => Err(type_error(v, expected_text(k))),
        },
        Kind::Any => Ok(ValueView::Any(v)),
    }
}

/// The position of the first field named `key`, if any.
pub open spec fn field_index(schema: Seq<(Seq<char>, Kind, bool)>, key: Seq<char>) -> Option<int>
    decreases schema.len(),
{
    if schema.len() == 0 {
        None
    } else {
        match field_index(schema.drop_last(), key) {
            Some(j) => Some(j),
            None => if schema.last().0 == key {
                Some(schema.len() - 1)
            } else {
                None
            },
        }
    }
}

/// Reading the members of an object in order: unknown keys are skipped, a
/// key seen twice is an error, and the first bad value stops the reading.
pub open spec fn scan(ms: Seq<(Seq<char>, JsonView)>, schema: Seq<(Seq<char>, Kind, bool)>) -> Result<Seq<Option<ValueView>>, Seq<char>>
    decreases ms.len(),
{
    if ms.len() == 0 {
        Ok(Seq::new(schema.len(), |j: int| None::<ValueView>))
    } else {
        match scan(ms.drop_last(), schema) {
            Err(e) => Err(e),
            Ok(slots) => {
                let (key, v) = ms.last();
                match field_index(schema, key) {
                    None => Ok(slots),
                    Some(j) => if slots[j] is Some {
                        Err("duplicate field `"@ + key + "`"@)
                    } else {
                        match read_value(schema[j].1, v) {
                            Ok(x) => Ok(slots.update(j, Some(x))),
                            Err(e) => Err(e),
                        }
                    },
                }
            },
        }
    }
}

/// After the members are read, the fields in order: an absent optional
/// field is `null`; the first absent required field is an error.
pub open spec fn finish(slots: Seq<Option<ValueView>>, schema: Seq<(Seq<char>, Kind, bool)>, n: nat) -> Result<Seq<ValueView>, Seq<char>>
    decreases n,
{
    if n == 0 {
        Ok(Seq::empty())
    } else {
        match finish(slots, schema, (n - 1) as nat) {
            Err(e) => Err(e),
            Ok(vs) => match slots[n - 1] {
                Some(x) => Ok(vs.push(x)),
                None => if schema[n - 1].2 {
                    Ok(vs.push(ValueView::Any(JsonView::Null)))
                } else {
                    Err("missing field `"@ + schema[n - 1].0 + "`"@)
                },
            },
        }
    }
}

/// Reading the first `n` fields from the elements of an array.
pub open spec fn read_elements(items: Seq<JsonView>, name: Seq<char>, schema: Seq<(Seq<char>, Kind, bool)>, n: nat) -> Result<Seq<ValueView>, Seq<char>>
    decreases n,
{
    if n == 0 {
        Ok(Seq::empty())
    } else {
        match read_elements(items, name, schema, (n - 1) as nat) {
            Err(e) => Err(e),
            Ok(vs) => if n - 1 >= items.len() {
                if schema[n - 1].2 {
                    Ok(vs.push(ValueView::Any(JsonView::Null)))
                } else {
                    Err("invalid length "@ + decimal((n - 1) as nat) + ", expected struct "@ + name + " with "@
                        + decimal(schema.len()) + " elements"@)
                }
            } else {
                match read_value(schema[n - 1].1, items[n - 1]) {
                    Ok(x) => Ok(vs.push(x)),
                    Err(e) => Err(e),
                }
            },
        }
    }
}

/// Reading the struct `name` with fields `schema` from `p`.
pub open spec fn read_struct(p: JsonView, name: Seq<char>, schema: Seq<(Seq<char>, Kind, bool)>) -> Result<Seq<ValueView>, Seq<char>> {
    match p {
        JsonView::Object(ms) => match scan(ms, schema) {
            Err(e) => Err(e),
            Ok(slots) => finish(slots, schema, schema.len()),
        },
        JsonView::Array(items) => match read_elements(items, name, schema, schema.len()) {
            Err(e) => Err(e),
            Ok(vs) => if items.len() > schema.len() {
                Err("invalid length "@ + decimal(items.len()) + ", expected fewer elements in array"@)
            } else {
                Ok(vs)
            },
        },
        _ => Err(type_error(p, "struct "@ + name)),
    }
}

/// `x` is a value of kind `k`.
pub open spec fn kind_ok(k: Kind, x: ValueView) -> bool {
    match k {
        Kind::Text => x is Text,
        Kind::Number => x is Number,
        Kind::Small => x is Small,
        Kind::Any => x is Any,
    }
}

/// Only fields of kind `Any` are optional.
pub open spec fn optional_any(schema: Seq<(Seq<char>, Kind, bool)>) -> bool {
    forall|j: int| 0 <= j < schema.len() && #[trigger] schema[j].2 ==> schema[j].1 == Kind::Any
}

proof fn lemma_scan_kinds(ms: Seq<(Seq<char>, JsonView)>, schema: Seq<(Seq<char>, Kind, bool)>)
    ensures
        scan(ms, schema) matches Ok(slots) ==> {
            &&& slots.len() == schema.len()
            &&& forall|j: int| 0 <= j < slots.len() ==> (#[trigger] slots[j] matches Some(x) ==> kind_ok(schema[j].1, x))
        },
    decreases ms.len(),
{
    if ms.len() > 0 {
        lemma_scan_kinds(ms.drop_last(), schema);
        lemma_field_index(schema, ms.last().0);
        if let Ok(slots) = scan(ms.drop_last(), schema) {
            if let Some(j) = field_index(schema, ms.last().0) {
                if let Ok(x) = read_value(schema[j].1, ms.last().1) {
                    let s2 = slots.update(j, Some(x));
                    assert forall|m: int| 0 <= m < s2.len() implies (#[trigger] s2[m] matches Some(y) ==> kind_ok(schema[m].1, y)) by {
                        if m == j {
                        } else {
                            assert(s2[m] == slots[m]);
                        }
                    }
                }
            }
        }
    }
}

proof fn lemma_finish_kinds(slots: Seq<Option<ValueView>>, schema: Seq<(Seq<char>, Kind, bool)>, n: nat)
    requires
        n <= schema.len(),
        slots.len() == schema.len(),
        optional_any(schema),
        forall|j: int| 0 <= j < slots.len() ==> (#[trigger] slots[j] matches Some(x) ==> kind_ok(schema[j].1, x)),
    ensures
        finish(slots, schema, n) matches Ok(vs) ==> {
            &&& vs.len() == n
            &&& forall|j: int| 0 <= j < n ==> kind_ok(schema[j].1, #[trigger] vs[j])
        },
    decreases n,
{
    if n > 0 {
        lemma_finish_kinds(slots, schema, (n - 1) as nat);
        if let Ok(vs) = finish(slots, schema, n) {
            let prev = finish(slots, schema, (n - 1) as nat)->Ok_0;
            assert(vs == prev.push(vs.last()));
            assert forall|j: int| 0 <= j < n implies kind_ok(schema[j].1, #[trigger] vs[j]) by {
                if j < n - 1 {
                    assert(vs[j] == prev[j]);
                } else {
                    assert(schema[j].2 ==> schema[j].1 == Kind::Any);
                }
            }
        }
    }
}

proof fn lemma_elements_kinds(items: Seq<JsonView>, name: Seq<char>, schema: Seq<(Seq<char>, Kind, bool)>, n: nat)
    requires
        n <= schema.len(),
        optional_any(schema),
    ensures
        read_elements(items, name, schema, n) matches Ok(vs) ==> {
            &&& vs.len() == n
            &&& forall|j: int| 0 <= j < n ==> kind_ok(schema[j].1, #[trigger] vs[j])
        },
    decreases n,
{
    if n > 0 {
        lemma_elements_kinds(items, name, schema, (n - 1) as nat);
        if let Ok(vs) = read_elements(items, name, schema, n) {
            let prev = read_elements(items, name, schema, (n - 1) as nat)->Ok_0;
            assert forall|j: int| 0 <= j < n implies kind_ok(schema[j].1, #[trigger] vs[j]) by {
                if j < n - 1 {
                    assert(vs[j] == prev[j]);
                } else {
                    assert(schema[j].2 ==> schema[j].1 == Kind::Any);
                }
            }
        }
    }
}

/// A struct read successfully has one value per field, each of the
/// field's kind.
pub proof fn lemma_read_struct_kinds(p: JsonView, name: Seq<char>, schema: Seq<(Seq<char>, Kind, bool)>)
    requires
        optional_any(schema),
    ensures
        read_struct(p, name, schema) matches Ok(vs) ==> {
            &&& vs.len() == schema.len()
            &&& forall|j: int| 0 <= j < schema.len() ==> kind_ok(schema[j].1, #[trigger] vs[j])
        },
{
    match p {
        JsonView::Object(ms) => {
            lemma_scan_kinds(ms, schema);
            if let Ok(slots) = scan(ms, schema) {
                lemma_finish_kinds(slots, schema, schema.len());
            }
        },
        JsonView::Array(items) => {
            lemma_elements_kinds(items, name, schema, schema.len());
        },
        _ => {},
    }
}

/// `r` is the executable form of the model result `s`.
pub open spec fn read_result_is(r: Result<Vec<FieldValue>, String>, s: Result<Seq<ValueView>, Seq<char>>) -> bool {
    match (r, s) {
        (Ok(v), Ok(w)) => values_view(v@) == w,
        (Err(m), Err(e)) => m@ == e,
        _ => false,
    }
}

impl FieldValue {
    /// A copy of this value.
    pub fn duplicate(&self) -> (r: FieldValue)
        ensures
            r@ == self@,
    {
        match self {
            FieldValue::Text(s) => FieldValue::Text(s.clone()),
            FieldValue::Number(n) => FieldValue::Number(n.duplicate()),
            FieldValue::Small(u) => FieldValue::Small(*u),
            FieldValue::Any(j) => FieldValue::Any(j.deep_clone()),
        }
    }
}

fn join3(a: &str, b: &str, c: &str) -> (r: String)
    ensures
        r@ == a@ + b@ + c@,
{
    let mut s = concat(a, b);
    push_text(&mut s, c);
    s
}

/// How an unexpected value is named (see [`unexpected_text`]).
fn unexpected(v: &Json) -> (r: String)
    ensures
        r@ == unexpected_text(v@),
{
    match v {
        Json::Null => "null".to_owned(),
        Json::Bool(b) => join3("boolean `", if *b { "true" } else { "false" }, "`"),
        Json::Number(JsonNumber::Unsigned(u)) => join3("integer `", u64_text(*u).as_str(), "`"),
        Json::Number(JsonNumber::Signed(i)) => join3("integer `", i64_text(*i).as_str(), "`"),
        Json::Number(JsonNumber::Float(t)) => join3("floating point `", t.as_str(), "`"),
        Json::Str(s) => concat("string ", debug_text(s.as_str()).as_str()),
        Json::Array(_) => "sequence".to_owned(),
        Json::Object(_) => "map".to_owned(),
    }
}

fn type_error_text(v: &Json, expected: &str) -> (r: String)
    ensures
        r@ == type_error(v@, expected@),
{
    let mut s = join3("invalid type: ", unexpected(v).as_str(), ", expected ");
    push_text(&mut s, expected);
    s
}

fn expected_name(k: Kind) -> (r: &'static str)
    ensures
        r@ == expected_text(k),
{
    match k {
        Kind::Text => "a string",
        Kind::Number => "f64",
        Kind::Small => "u32",
        Kind::Any => "any valid JSON value",
    }
}

/// Reads one field's value (see [`read_value`]).
fn read_one(k: Kind, v: &Json) -> (r: Result<FieldValue, String>)
    ensures
        match r {
            Ok(x) => read_value(k, v@) == Ok::<ValueView, Seq<char>>(x@),
            Err(m) => read_value(k, v@) == Err::<ValueView, Seq<char>>(m@),
        },
{
    match k {
        Kind::Text => match v {
            Json::Str(s) => Ok(FieldValue::Text(s.clone())),
            _ => Err(type_error_text(v, expected_name(k))),
        },
        Kind::Number => match v {
            Json::Number(n) => Ok(FieldValue::Number(n.duplicate())),
            _ => Err(type_error_text(v, expected_name(k))),
        },
        Kind::Small => match v {
            Json::Number(JsonNumber::Unsigned(u)) => if *u <= 0xffff_ffffu64 {
                Ok(FieldValue::Small(*u as u32))
            } else {
                Err(join3("invalid value: ", unexpected(v).as_str(), ", expected u32"))
            },
            Json::Number(JsonNumber::Signed(i)) => if 0 <= *i && *i <= 0xffff_ffffi64 {
                Ok(FieldValue::Small(*i as u32))
            } else {
                Err(join3("invalid value: ", unexpected(v).as_str(), ", expected u32"))
            },
            _ => Err(type_error_text(v, expected_name(k))),
        },
        Kind::Any => Ok(FieldValue::Any(v.deep_clone())),
    }
}

proof fn lemma_field_index_found(schema: Seq<(Seq<char>, Kind, bool)>, key: Seq<char>, j: int, k: int)
    requires
        0 <= j < k <= schema.len(),
        field_index(schema.subrange(0, j + 1), key) == Some(j),
    ensures
        field_index(schema.subrange(0, k), key) == Some(j),
    decreases k - j,
{
    if k > j + 1 {
        lemma_field_index_found(schema, key, j, k - 1);
        assert(schema.subrange(0, k).drop_last() =~= schema.subrange(0, k - 1));
    }
}

/// The position of the field named `key` (see [`field_index`]).
fn field_position(schema: &Vec<FieldSpec>, key: &str) -> (r: Option<usize>)
    ensures
        match r {
            Some(j) => field_index(schema_view(schema@), key@) == Some(j as int),
            None => field_index(schema_view(schema@), key@) is None,
        },
{
    let ghost sv = schema_view(schema@);
    let mut j: usize = 0;
    proof {
        assert(sv.subrange(0, 0) =~= Seq::<(Seq<char>, Kind, bool)>::empty());
    }
    while j < schema.len()
        invariant
            0 <= j <= schema.len(),
            sv == schema_view(schema@),
            sv.len() == schema.len(),
            field_index(sv.subrange(0, j as int), key@) is None,
        decreases schema.len() - j,
    {
        proof {
            assert(sv.subrange(0, j + 1).drop_last() =~= sv.subrange(0, j as int));
        }
        if str_eq(schema[j].key, key) {
            proof {
                assert(sv.subrange(0, j + 1).last() == sv[j as int]);
                lemma_field_index_found(sv, key@, j as int, sv.len() as int);
                assert(sv.subrange(0, sv.len() as int) =~= sv);
            }
            return Some(j);
        }
        j = j + 1;
    }
    proof {
        assert(sv.subrange(0, sv.len() as int) =~= sv);
    }
    None
}

proof fn lemma_field_index(schema: Seq<(Seq<char>, Kind, bool)>, key: Seq<char>)
    ensures
        field_index(schema, key) matches Some(j) ==> 0 <= j < schema.len() && schema[j].0 == key,
    decreases schema.len(),
{
    if schema.len() > 0 {
        lemma_field_index(schema.drop_last(), key);
    }
}

/// An error in the members read so far is the error of the whole object.
proof fn lemma_scan_error_stays(ms: Seq<(Seq<char>, JsonView)>, schema: Seq<(Seq<char>, Kind, bool)>, i: int, k: int)
    requires
        0 <= i <= k <= ms.len(),
        scan(ms.subrange(0, i), schema) is Err,
    ensures
        scan(ms.subrange(0, k), schema) == scan(ms.subrange(0, i), schema),
    decreases k - i,
{
    if k > i {
        lemma_scan_error_stays(ms, schema, i, k - 1);
        assert(ms.subrange(0, k).drop_last() =~= ms.subrange(0, k - 1));
    }
}

proof fn lemma_finish_error_stays(slots: Seq<Option<ValueView>>, schema: Seq<(Seq<char>, Kind, bool)>, i: nat, k: nat)
    requires
        i <= k,
        finish(slots, schema, i) is Err,
    ensures
        finish(slots, schema, k) == finish(slots, schema, i),
    decreases k - i,
{
    if k > i {
        lemma_finish_error_stays(slots, schema, i, (k - 1) as nat);
    }
}

proof fn lemma_elements_error_stays(items: Seq<JsonView>, name: Seq<char>, schema: Seq<(Seq<char>, Kind, bool)>, i: nat, k: nat)
    requires
        i <= k,
        read_elements(items, name, schema, i) is Err,
    ensures
        read_elements(items, name, schema, k) == read_elements(items, name, schema, i),
    decreases k - i,
{
    if k > i {
        lemma_elements_error_stays(items, name, schema, i, (k - 1) as nat);
    }
}

/// Reads the struct `name` with fields `schema` from a JSON value (see
/// [`read_struct`]); the values come in the order of the fields.
#[verifier::rlimit(40)]
pub fn read_fields(p: &Json, name: &str, schema: &Vec<FieldSpec>) -> (r: Result<Vec<FieldValue>, String>)
    ensures
        read_result_is(r, read_struct(p@, name@, schema_view(schema@))),
{
    let ghost sv = schema_view(schema@);
    let n = schema.len();
    match p {
        Json::Object(members) => {
            let ghost ms = view_members(members@);
            proof {
                lemma_view_members(members@);
            }
            let mut slots: Vec<Option<FieldValue>> = Vec::new();
            let mut j: usize = 0;
            while j < n
                invariant
                    n == schema.len(),
                    0 <= j <= n,
                    slots.len() == j,
                    forall|k: int| 0 <= k < j ==> #[trigger] slots@[k] is None,
                decreases n - j,
            {
                slots.push(None);
                j = j + 1;
            }
            proof {
                assert(slots_view(slots@) =~= Seq::new(sv.len(), |j: int| None::<ValueView>));
                assert(ms.subrange(0, 0) =~= Seq::<(Seq<char>, JsonView)>::empty());
            }
            let mut i: usize = 0;
            while i < members.len()
                invariant
                    *p == Json::Object(*members),
                    n == schema.len(),
                    sv == schema_view(schema@),
                    sv.len() == n,
                    ms == view_members(members@),
                    ms.len() == members.len(),
                    forall|k: int| 0 <= k < members.len() ==> #[trigger] ms[k] == (members@[k].key@, members@[k].value@),
                    0 <= i <= members.len(),
                    slots.len() == n,
                    scan(ms.subrange(0, i as int), sv) == Ok::<Seq<Option<ValueView>>, Seq<char>>(slots_view(slots@)),
                decreases members.len() - i,
            {
                proof {
                    assert(ms.subrange(0, i + 1).drop_last() =~= ms.subrange(0, i as int));
                    assert(ms.subrange(0, i + 1).last() == ms[i as int]);
                    assert(ms.subrange(0, ms.len() as int) =~= ms);
                }
                let pos = field_position(schema, members[i].key.as_str());
                proof {
                    lemma_field_index(sv, members@[i as int].key@);
                }
                match pos {
                    None => {},
                    Some(jj) => {
                        if slots[jj].is_some() {
                            let msg = join3("duplicate field `", members[i].key.as_str(), "`");
                            proof {
                                assert(slots_view(slots@)[jj as int] is Some);
                                assert(scan(ms.subrange(0, i + 1), sv) is Err);
                                lemma_scan_error_stays(ms, sv, i + 1, ms.len() as int);
                            }
                            return Err(msg);
                        }
                        match read_one(schema[jj].kind, &members[i].value) {
                            Ok(x) => {
                                let ghost before = slots@;
                                let ghost xv = x@;
                                slots[jj] = Some(x);
                                proof {
                                    assert(slots_view(slots@) =~= slots_view(before).update(jj as int, Some(xv)));
                                }
                            },
                            Err(m) => {
                                proof {
                                    assert(slots_view(slots@)[jj as int] is None);
                                    assert(scan(ms.subrange(0, i + 1), sv) == Err::<Seq<Option<ValueView>>, Seq<char>>(m@));
                                    lemma_scan_error_stays(ms, sv, i + 1, ms.len() as int);
                                }
                                return Err(m);
                            },
                        }
                    },
                }
                i = i + 1;
            }
            proof {
                assert(ms.subrange(0, members.len() as int) =~= ms);
            }
            let ghost slv = slots_view(slots@);
            let mut out: Vec<FieldValue> = Vec::new();
            assert(values_view(out@) =~= Seq::<ValueView>::empty());
            let mut k: usize = 0;
            while k < n
                invariant
                    n == schema.len(),
                    sv == schema_view(schema@),
                    sv.len() == n,
                    slots.len() == n,
                    slv == slots_view(slots@),
                    *p == Json::Object(*members),
                    ms == view_members(members@),
                    scan(ms, sv) == Ok::<Seq<Option<ValueView>>, Seq<char>>(slv),
                    0 <= k <= n,
                    finish(slv, sv, k as nat) == Ok::<Seq<ValueView>, Seq<char>>(values_view(out@)),
                decreases n - k,
            {
                match &slots[k] {
                    Some(x) => {
                        proof {
                            assert(slv[k as int] == Some(x@));
                        }
                        let c = x.duplicate();
                        let ghost before = out@;
                        out.push(c);
                        proof {
                            assert(values_view(out@) =~= values_view(before).push(c@));
                        }
                    },
                    None => {
                        if schema[k].optional {
                            let ghost before = out@;
                            out.push(FieldValue::Any(Json::Null));
                            proof {
                                assert(values_view(out@) =~= values_view(before).push(ValueView::Any(JsonView::Null)));
                            }
                        } else {
                            let msg = join3("missing field `", schema[k].key, "`");
                            proof {
                                assert(slv[k as int] is None);
                                assert(sv[k as int].2 == schema@[k as int].optional);
                                assert(finish(slv, sv, (k + 1) as nat) == Err::<Seq<ValueView>, Seq<char>>(msg@));
                                lemma_finish_error_stays(slv, sv, (k + 1) as nat, n as nat);
                            }
                            return Err(msg);
                        }
                    },
                }
                k = k + 1;
            }
            Ok(out)
        },
        Json::Array(items) => {
            let ghost vs = view_items(items@);
            proof {
                lemma_view_items(items@);
            }
            let mut out: Vec<FieldValue> = Vec::new();
            assert(values_view(out@) =~= Seq::<ValueView>::empty());
            let mut k: usize = 0;
            while k < n
                invariant
                    *p == Json::Array(*items),
                    n == schema.len(),
                    sv == schema_view(schema@),
                    sv.len() == n,
                    vs == view_items(items@),
                    vs.len() == items.len(),
                    forall|m: int| 0 <= m < items.len() ==> #[trigger] vs[m] == items@[m]@,
                    0 <= k <= n,
                    read_elements(vs, name@, sv, k as nat) == Ok::<Seq<ValueView>, Seq<char>>(values_view(out@)),
                decreases n - k,
            {
                if k >= items.len() {
                    if schema[k].optional {
                        let ghost before = out@;
                        out.push(FieldValue::Any(Json::Null));
                        proof {
                            assert(values_view(out@) =~= values_view(before).push(ValueView::Any(JsonView::Null)));
                        }
                    } else {
                        let mut msg = join3("invalid length ", u64_text(k as u64).as_str(), ", expected struct ");
                        push_text(&mut msg, name);
                        push_text(&mut msg, " with ");
                        push_text(&mut msg, u64_text(n as u64).as_str());
                        push_text(&mut msg, " elements");
                        proof {
                            assert(sv[k as int].2 == schema@[k as int].optional);
                            assert(read_elements(vs, name@, sv, (k + 1) as nat) == Err::<Seq<ValueView>, Seq<char>>(msg@));
                            lemma_elements_error_stays(vs, name@, sv, (k + 1) as nat, n as nat);
                        }
                        return Err(msg);
                    }
                } else {
                    match read_one(schema[k].kind, &items[k]) {
                        Ok(x) => {
                            let ghost before = out@;
                            let ghost xv = x@;
                            out.push(x);
                            proof {
                                assert(values_view(out@) =~= values_view(before).push(xv));
                            }
                        },
                        Err(m) => {
                            proof {
                                lemma_elements_error_stays(vs, name@, sv, (k + 1) as nat, n as nat);
                            }
                            return Err(m);
                        },
                    }
                }
                k = k + 1;
            }
            if items.len() > n {
                let msg = join3("invalid length ", u64_text(items.len() as u64).as_str(), ", expected fewer elements in array");
                return Err(msg);
            }
            Ok(out)
        },
        _ => {
            let expected = concat("struct ", name);
            Err(type_error_text(p, expected.as_str()))
        },
    }
}

proof fn lemma_field_index_absent(schema: Seq<(Seq<char>, Kind, bool)>, key: Seq<char>)
    ensures
        field_index(schema, key) is None ==> forall|j: int| 0 <= j < schema.len() ==> #[trigger] schema[j].0 != key,
    decreases schema.len(),
{
    if schema.len() > 0 {
        lemma_field_index_absent(schema.drop_last(), key);
        if field_index(schema, key) is None {
            assert forall|j: int| 0 <= j < schema.len() implies #[trigger] schema[j].0 != key by {
                if j < schema.len() - 1 {
                    assert(schema[j] == schema.drop_last()[j]);
                }
            }
        }
    }
}

/// Looking a key up after a member is appended: the earlier members come
/// first.
proof fn lemma_lookup_push(ms: Seq<(Seq<char>, JsonView)>, m: (Seq<char>, JsonView), key: Seq<char>)
    ensures
        lookup(ms.push(m), key) == match lookup(ms, key) {
            Some(v) => Some(v),
            None => if m.0 == key { Some(m.1) } else { None::<JsonView> },
        },
    decreases ms.len(),
{
    if ms.len() > 0 {
        assert(ms.push(m).drop_first() =~= ms.drop_first().push(m));
        assert(ms.push(m)[0] == ms[0]);
        lemma_lookup_push(ms.drop_first(), m, key);
        assert(lookup(ms.push(m), key) == if ms[0].0 == key { Some(ms[0].1) } else { lookup(ms.drop_first().push(m), key) });
        assert(lookup(ms, key) == if ms[0].0 == key { Some(ms[0].1) } else { lookup(ms.drop_first(), key) });
    } else {
        assert(ms.push(m).drop_first() =~= Seq::<(Seq<char>, JsonView)>::empty());
        assert(ms.push(m)[0] == m);
        assert(lookup(ms.push(m).drop_first(), key) is None);
        assert(lookup(ms, key) is None);
    }
}

/// No two fields of `schema` share a key.
pub open spec fn keys_distinct(schema: Seq<(Seq<char>, Kind, bool)>) -> bool {
    forall|i: int, j: int| 0 <= i < schema.len() && 0 <= j < schema.len() && i != j ==> #[trigger] schema[i].0 != #[trigger] schema[j].0
}

/// Scanning an object's members fills the slot of each field with the
/// value read from the object's member of that name, and leaves it empty
/// exactly when the object has no such member.
proof fn lemma_scan_members(ms: Seq<(Seq<char>, JsonView)>, schema: Seq<(Seq<char>, Kind, bool)>)
    requires
        keys_distinct(schema),
    ensures
        scan(ms, schema) matches Ok(slots) ==> {
            &&& slots.len() == schema.len()
            &&& forall|j: int| 0 <= j < schema.len() ==> match #[trigger] slots[j] {
                Some(x) => lookup(ms, schema[j].0) matches Some(v) && read_value(schema[j].1, v) == Ok::<ValueView, Seq<char>>(x),
                None => lookup(ms, schema[j].0) is None,
            }
        },
    decreases ms.len(),
{
    if ms.len() == 0 {
        assert forall|j: int| 0 <= j < schema.len() implies lookup(ms, schema[j].0) is None by {}
    } else {
        let init = ms.drop_last();
        let last = ms.last();
        assert(init.push(last) =~= ms);
        lemma_scan_members(init, schema);
        lemma_field_index(schema, last.0);
        lemma_field_index_absent(schema, last.0);
        if let Ok(slots) = scan(ms, schema) {
            let slots0 = scan(init, schema)->Ok_0;
            assert forall|j: int| 0 <= j < schema.len() implies match #[trigger] slots[j] {
                Some(x) => lookup(ms, schema[j].0) matches Some(v) && read_value(schema[j].1, v) == Ok::<ValueView, Seq<char>>(x),
                None => lookup(ms, schema[j].0) is None,
            } by {
                lemma_lookup_push(init, last, schema[j].0);
                match field_index(schema, last.0) {
                    None => {
                        assert(schema[j].0 != last.0);
                        assert(slots[j] == slots0[j]);
                    },
                    Some(k) => {
                        if j == k {
                            assert(slots0[k] is None);
                        } else {
                            assert(schema[j].0 != schema[k].0);
                            assert(slots[j] == slots0[j]);
                        }
                    },
                }
            }
        }
    }
}

/// Finishing gives each filled slot's value, and `null` for an empty slot
/// of an optional field.
proof fn lemma_finish_values(slots: Seq<Option<ValueView>>, schema: Seq<(Seq<char>, Kind, bool)>, n: nat)
    requires
        n <= schema.len(),
        slots.len() == schema.len(),
    ensures
        finish(slots, schema, n) matches Ok(vs) ==> {
            &&& vs.len() == n
            &&& forall|j: int| 0 <= j < n ==> match slots[j] {
                Some(x) => #[trigger] vs[j] == x,
                None => schema[j].2 && vs[j] == ValueView::Any(JsonView::Null),
            }
        },
    decreases n,
{
    if n > 0 {
        lemma_finish_values(slots, schema, (n - 1) as nat);
        if let Ok(vs) = finish(slots, schema, n) {
            let prev = finish(slots, schema, (n - 1) as nat)->Ok_0;
            assert forall|j: int| 0 <= j < n implies match slots[j] {
                Some(x) => #[trigger] vs[j] == x,
                None => schema[j].2 && vs[j] == ValueView::Any(JsonView::Null),
            } by {
                if j < n - 1 {
                    assert(vs[j] == prev[j]);
                }
            }
        }
    }
}

/// A struct read from an object holds, for each field, the value read from
/// the object's first member of that name; a field without a member is an
/// optional one, and holds `null`.
pub proof fn lemma_read_object_fields(ms: Seq<(Seq<char>, JsonView)>, name: Seq<char>, schema: Seq<(Seq<char>, Kind, bool)>)
    requires
        keys_distinct(schema),
    ensures
        read_struct(JsonView::Object(ms), name, schema) matches Ok(vs) ==> {
            &&& vs.len() == schema.len()
            &&& forall|j: int| 0 <= j < schema.len() ==> match lookup(ms, schema[j].0) {
                Some(v) => read_value(schema[j].1, v) == Ok::<ValueView, Seq<char>>(#[trigger] vs[j]),
                None => schema[j].2 && vs[j] == ValueView::Any(JsonView::Null),
            }
        },
{
    lemma_scan_members(ms, schema);
    if let Ok(slots) = scan(ms, schema) {
        lemma_finish_values(slots, schema, schema.len());
        if let Ok(vs) = finish(slots, schema, schema.len()) {
            assert forall|j: int| 0 <= j < schema.len() implies match lookup(ms, schema[j].0) {
                Some(v) => read_value(schema[j].1, v) == Ok::<ValueView, Seq<char>>(#[trigger] vs[j]),
                None => schema[j].2 && vs[j] == ValueView::Any(JsonView::Null),
            } by {
                assert(match slots[j] {
                    Some(x) => lookup(ms, schema[j].0) matches Some(v) && read_value(schema[j].1, v) == Ok::<ValueView, Seq<char>>(x),
                    None => lookup(ms, schema[j].0) is None,
                });
            }
        }
    }
}

} // verus!
