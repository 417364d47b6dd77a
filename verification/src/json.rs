//! A JSON value model that the request-handling logic reads and builds.
use vstd::prelude::*;
use crate::text::{decimal, signed_decimal};

verus! {

broadcast use vstd::std_specs::vec::group_vec_axioms;

/// A JSON number, kept in the three forms that JSON parsers distinguish.
#[derive(Debug, PartialEq, Eq)]
pub enum JsonNumber {
    /// A non-negative integer.
    Unsigned(u64),
    /// A (normally negative) integer.
    Signed(i64),
    /// A number with a fraction or exponent, held by its canonical text.
    Float(String),
}

/// The mathematical model of a [`JsonNumber`].
pub enum NumberView {
    Unsigned(u64),
    Signed(i64),
    Float(Seq<char>),
}

impl View for JsonNumber {
    type V = NumberView;

    open spec fn view(&self) -> NumberView {
        match self {
            JsonNumber::Unsigned(u) => NumberView::Unsigned(*u),
            JsonNumber::Signed(i) => NumberView::Signed(*i),
            JsonNumber::Float(t) => NumberView::Float(t@),
        }
    }
}

/// A JSON value. Objects keep their members in a vector; lookups take the
/// first member with the wanted key.
#[derive(Debug, PartialEq, Eq)]
pub enum Json {
    Null,
    Bool(bool),
    Number(JsonNumber),
    Str(String),
    Array(Vec<Json>),
    Object(Vec<Member>),
}

/// One `key: value` member of a JSON object.
#[derive(Debug, PartialEq, Eq)]
pub struct Member {
    pub key: String,
    pub value: Json,
}

/// The mathematical model of a [`Json`] value.
pub enum JsonView {
    Null,
    Bool(bool),
    Number(NumberView),
    Str(Seq<char>),
    Array(Seq<JsonView>),
    Object(Seq<(Seq<char>, JsonView)>),
}

/// The models of a sequence of values, element by element.
pub open spec fn view_items(s: Seq<Json>) -> Seq<JsonView>
    decreases s,
{
    if s.len() == 0 {
        Seq::empty()
    } else {
        view_items(s.drop_last()).push(s.last().view_json())
    }
}

/// The models of a sequence of object members, member by member.
pub open spec fn view_members(s: Seq<Member>) -> Seq<(Seq<char>, JsonView)>
    decreases s,
{
    if s.len() == 0 {
        Seq::empty()
    } else {
        view_members(s.drop_last()).push((s.last().key@, s.last().value.view_json()))
    }
}

impl Json {
    /// The model of this value.
    pub open spec fn view_json(&self) -> JsonView
        decreases *self,
    {
        match self {
            Json::Null => JsonView::Null,
            Json::Bool(b) => JsonView::Bool(*b),
            Json::Number(n) => JsonView::Number(n@),
            Json::Str(s) => JsonView::Str(s@),
            Json::Array(items) => JsonView::Array(view_items(items@)),
            Json::Object(members) => JsonView::Object(view_members(members@)),
        }
    }
}

impl View for Json {
    type V = JsonView;

    open spec fn view(&self) -> JsonView {
        self.view_json()
    }
}


/// The first value stored under `key` among `members`, if any.
pub open spec fn lookup(members: Seq<(Seq<char>, JsonView)>, key: Seq<char>) -> Option<JsonView>
    decreases members.len(),
{
    if members.len() == 0 {
        None
    } else if members[0].0 == key {
        Some(members[0].1)
    } else {
        lookup(members.drop_first(), key)
    }
}

/// The member `key` of `v` when `v` is an object that has one.
pub open spec fn field(v: JsonView, key: Seq<char>) -> Option<JsonView> {
    match v {
        JsonView::Object(members) => lookup(members, key),
        _ => None,
    }
}

/// The element at position `k` of an array, or the member `key` of an
/// object: where a struct is read from either form.
pub open spec fn part(v: JsonView, key: Seq<char>, k: nat) -> Option<JsonView> {
    match v {
        JsonView::Object(members) => lookup(members, key),
        JsonView::Array(items) => if k < items.len() {
            Some(items[k as int])
        } else {
            None
        },
        _ => None,
    }
}

/// The member `key` of `v`, or `null` where there is none.
pub open spec fn field_or_null(v: JsonView, key: Seq<char>) -> JsonView {
    match field(v, key) {
        Some(x) => x,
        None => JsonView::Null,
    }
}

/// The text of `v` when `v` is a string.
pub open spec fn as_text(v: Option<JsonView>) -> Option<Seq<char>> {
    match v {
        Some(JsonView::Str(s)) => Some(s),
        _ => None,
    }
}

pub proof fn lemma_view_items(s: Seq<Json>)
    ensures
        view_items(s).len() == s.len(),
        forall|i: int| 0 <= i < s.len() ==> #[trigger] view_items(s)[i] == s[i]@,
    decreases s.len(),
{
    if s.len() > 0 {
        lemma_view_items(s.drop_last());
    }
}

pub proof fn lemma_view_members(s: Seq<Member>)
    ensures
        view_members(s).len() == s.len(),
        forall|i: int|
            0 <= i < s.len() ==> #[trigger] view_members(s)[i] == (s[i].key@, s[i].value@),
    decreases s.len(),
{
    if s.len() > 0 {
        lemma_view_members(s.drop_last());
    }
}

/// `lookup` finds the first member whose key matches.
pub proof fn lemma_lookup_skip(members: Seq<(Seq<char>, JsonView)>, key: Seq<char>, i: int)
    requires
        0 <= i < members.len(),
        forall|j: int| 0 <= j < i ==> #[trigger] members[j].0 != key,
    ensures
        lookup(members, key) == lookup(members.skip(i), key),
    decreases i,
{
    if i > 0 {
        assert(members.drop_first().skip(i - 1) =~= members.skip(i));
        assert(members[0].0 != key);
        lemma_lookup_skip(members.drop_first(), key, i - 1);
    } else {
        assert(members.skip(0) =~= members);
    }
}

pub proof fn lemma_lookup_absent(members: Seq<(Seq<char>, JsonView)>, key: Seq<char>)
    requires
        forall|j: int| 0 <= j < members.len() ==> #[trigger] members[j].0 != key,
    ensures
        lookup(members, key) is None,
    decreases members.len(),
{
    if members.len() > 0 {
        lemma_lookup_absent(members.drop_first(), key);
    }
}

pub proof fn lemma_view_members_push(s: Seq<Member>, m: Member)
    ensures
        view_members(s.push(m)) == view_members(s).push((m.key@, m.value@)),
{
    assert(s.push(m).drop_last() =~= s);
}

/// The model of an optional borrowed value.
pub open spec fn view_ref(o: Option<&Json>) -> Option<JsonView> {
    match o {
        Some(x) => Some(x@),
        None => None,
    }
}

/// The model of an optional value.
pub open spec fn view_opt(o: Option<Json>) -> Option<JsonView> {
    match o {
        Some(x) => Some(x@),
        None => None,
    }
}

/// The JSON number that serializing the integer `i` produces: unsigned when
/// it is not negative.
pub open spec fn int_number(i: int) -> NumberView {
    if i >= 0 {
        NumberView::Unsigned(i as u64)
    } else {
        NumberView::Signed(i as i64)
    }
}

/// Appends the member `key: value` to a list of object members.
pub fn push_member(members: &mut Vec<Member>, key: &str, value: Json)
    ensures
        view_members(final(members)@) == view_members(old(members)@).push((key@, value@)),
{
    let m = Member::new(key, value);
    let ghost m0 = m;
    let ghost before = members@;
    members.push(m);
    proof {
        lemma_view_members_push(before, m0);
    }
}

/// Equality of two string slices by content.
#[verifier::external_body]
pub(crate) fn str_eq(a: &str, b: &str) -> (r: bool)
    ensures
        r == (a@ == b@),
{
    a == b
}

impl JsonNumber {
    /// A copy of this number.
    pub fn duplicate(&self) -> (r: JsonNumber)
        ensures
            r@ == self@,
    {
        match self {
            JsonNumber::Unsigned(u) => JsonNumber::Unsigned(*u),
            JsonNumber::Signed(i) => JsonNumber::Signed(*i),
            JsonNumber::Float(t) => JsonNumber::Float(t.clone()),
        }
    }
}

impl Member {
    /// The member `key: value`.
    pub fn new(key: &str, value: Json) -> (r: Member)
        ensures
            r.key@ == key@,
            r.value@ == value@,
    {
        Member { key: key.to_owned(), value }
    }
}

impl Json {
    /// A JSON number holding the integer `i`, unsigned when not negative.
    pub fn integer(i: i64) -> (r: Json)
        ensures
            r@ == JsonView::Number(int_number(i as int)),
    {
        if i >= 0 {
            Json::Number(JsonNumber::Unsigned(i as u64))
        } else {
            Json::Number(JsonNumber::Signed(i))
        }
    }

    /// The element at position `k` of an array, or the member `key` of an
    /// object.
    pub fn part(&self, key: &str, k: usize) -> (r: Option<&Json>)
        ensures
            view_ref(r) == part(self@, key@, k as nat),
    {
        match self {
            Json::Array(items) => {
                proof {
                    lemma_view_items(items@);
                }
                if k < items.len() {
                    Some(&items[k])
                } else {
                    None
                }
            },
            Json::Object(_) => self.get(key),
            _ => None,
        }
    }

    /// A JSON string holding the text `s`.
    pub fn text(s: &str) -> (r: Json)
        ensures
            r@ == JsonView::Str(s@),
    {
        Json::Str(s.to_owned())
    }

    /// The member `key` of this value, when it is an object that has one.
    pub fn get(&self, key: &str) -> (r: Option<&Json>)
        ensures
            match r {
                Some(x) => field(self@, key@) == Some(x@),
                None => field(self@, key@) is None,
            },
    {
        match self {
            Json::Object(members) => {
                proof {
                    lemma_view_members(members@);
                }
                let ghost ms = view_members(members@);
                let mut i: usize = 0;
                while i < members.len()
                    invariant
                        0 <= i <= members.len(),
                        ms == view_members(members@),
                        *self == Json::Object(*members),
                        ms.len() == members.len(),
                        forall|j: int| 0 <= j < members.len() ==> #[trigger] ms[j] == (members@[j].key@, members@[j].value@),
                        forall|j: int| 0 <= j < i ==> #[trigger] ms[j].0 != key@,
                    decreases members.len() - i,
                {
                    if str_eq(members[i].key.as_str(), key) {
                        proof {
                            lemma_lookup_skip(ms, key@, i as int);
                            assert(ms.skip(i as int)[0] == ms[i as int]);
                            assert(ms[i as int].0 == key@);
                            assert(lookup(ms.skip(i as int), key@) == Some(ms[i as int].1));
                            assert(self@ == JsonView::Object(ms));
                        }
                        return Some(&members[i].value);
                    }
                    i = i + 1;
                }
                proof {
                    lemma_lookup_absent(ms, key@);
                }
                None
            },
            _ => None,
        }
    }

    /// A copy of this value with the same model.
    pub fn deep_clone(&self) -> (r: Json)
        ensures
            r@ == self@,
        decreases self,
    {
        match self {
            Json::Null => Json::Null,
            Json::Bool(b) => Json::Bool(*b),
            Json::Number(JsonNumber::Unsigned(u)) => Json::Number(JsonNumber::Unsigned(*u)),
            Json::Number(JsonNumber::Signed(i)) => Json::Number(JsonNumber::Signed(*i)),
            Json::Number(JsonNumber::Float(t)) => Json::Number(JsonNumber::Float(t.clone())),
            Json::Str(s) => Json::Str(s.clone()),
            Json::Array(items) => {
                let mut out: Vec<Json> = Vec::new();
                let mut i: usize = 0;
                proof {
                    lemma_view_items(items@);
                }
                while i < items.len()
                    invariant
                        0 <= i <= items.len(),
                        out.len() == i,
                        *self == Json::Array(*items),
                        view_items(items@).len() == items.len(),
                        forall|j: int| 0 <= j < items.len() ==> #[trigger] view_items(items@)[j] == items@[j]@,
                        forall|j: int| 0 <= j < i ==> #[trigger] out@[j]@ == items@[j]@,
                    decreases items.len() - i,
                {
                    proof {
                        assert(decreases_to!(*self => self->Array_0));
                        assert(decreases_to!(*items => items[i as int]));
                        assert(decreases_to!(*self => items[i as int]));
                    }
                    let c = items[i].deep_clone();
                    out.push(c);
                    i = i + 1;
                }
                proof {
                    lemma_view_items(out@);
                    assert(view_items(out@) =~= view_items(items@));
                }
                Json::Array(out)
            },
            Json::Object(members) => {
                let mut out: Vec<Member> = Vec::new();
                let mut i: usize = 0;
                proof {
                    lemma_view_members(members@);
                }
                while i < members.len()
                    invariant
                        0 <= i <= members.len(),
                        out.len() == i,
                        *self == Json::Object(*members),
                        view_members(members@).len() == members.len(),
                        forall|j: int| 0 <= j < members.len() ==> #[trigger] view_members(members@)[j] == (members@[j].key@, members@[j].value@),
                        forall|j: int| 0 <= j < i ==> #[trigger] out@[j].key@ == members@[j].key@ && out@[j].value@ == members@[j].value@,
                    decreases members.len() - i,
                {
                    proof {
                        assert(decreases_to!(*self => self->Object_0));
                        assert(decreases_to!(*members => members[i as int]));
                        assert(decreases_to!(members[i as int] => members[i as int].value));
                    }
                    let k = members[i].key.clone();
                    let v = members[i].value.deep_clone();
                    out.push(Member { key: k, value: v });
                    i = i + 1;
                }
                proof {
                    lemma_view_members(out@);
                    assert(view_members(out@) =~= view_members(members@));
                }
                Json::Object(out)
            },
        }
    }
}

/// The text of the number that serde_json gives for `n` read as an `f64`
/// and written again (an integer becomes a float; a float keeps the value
/// that serde_json's parser reads from its text).
pub uninterp spec fn f64_text(n: NumberView) -> Seq<char>;

/// The largest integer up to which every integer is an exact `f64`.
pub open spec fn exact_float_bound() -> int {
    0x20_0000_0000_0000
}

/// `n` is an integer of magnitude at most 2^53, exact as an `f64`.
pub open spec fn exact_integer(n: NumberView) -> bool {
    match n {
        NumberView::Unsigned(u) => u <= exact_float_bound(),
        NumberView::Signed(i) => -exact_float_bound() <= i <= exact_float_bound(),
        NumberView::Float(_) => false,
    }
}

/// The text of `n` read as an `f64` and written again: an exact integer
/// is written as its decimal digits followed by `.0`; any other number as
/// [`f64_text`] names it.
pub open spec fn f64_form(n: NumberView) -> Seq<char> {
    match n {
        NumberView::Unsigned(u) => if exact_integer(n) {
            decimal(u as nat) + ".0"@
        } else {
            f64_text(n)
        },
        NumberView::Signed(i) => if exact_integer(n) {
            signed_decimal(i as int) + ".0"@
        } else {
            f64_text(n)
        },
        NumberView::Float(_) => f64_text(n),
    }
}

/// Reads `n` as an `f64`, as serde reads an `f64` field from any JSON
/// number (`Number::as_f64`; a float's text is read with `Number`'s
/// `FromStr`), and writes it as serde_json writes an `f64`. Claims: the
/// result is what [`f64_form`] says, that is, an integer of magnitude at
/// most 2^53 is written as its decimal digits followed by `.0` (serde_json's
/// float writer prints values below 10^16 in fixed notation with at least
/// one fractional digit, and such integers are exact), and any other number
/// as [`f64_text`] names it. A float text that does not read as a number is
/// given back unchanged.
#[verifier::external_body]
pub(crate) fn float_text(n: &JsonNumber) -> (r: String)
    ensures
        r@ == f64_form(n@),
        !exact_integer(n@) ==> r@ == f64_text(n@),
{
    let num = match n {
        JsonNumber::Unsigned(u) => serde_json::Number::from(*u),
        JsonNumber::Signed(i) => serde_json::Number::from(*i),
        JsonNumber::Float(t) => match t.parse::<serde_json::Number>() {
            Ok(x) => x,
            Err(_) => return t.clone(),
        },
    };
    match serde_json::to_string(&num.as_f64()) {
        Ok(s) => s,
        Err(_) => num.to_string(),
    }
}

} // verus!
