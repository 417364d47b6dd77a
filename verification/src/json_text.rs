//! The compact JSON text of a value, as serde_json writes it: no spaces,
//! members in the value's own order, strings quoted and escaped by
//! serde_json itself.
use vstd::prelude::*;
use vstd::utf8::encode_utf8;
use crate::json::{Json, JsonNumber, JsonView, NumberView, lemma_view_items, lemma_view_members, view_items, view_members};
use crate::text::{decimal, i64_text, signed_decimal, u64_text};

verus! {

/// Every character is ASCII (below `0x80`).
pub open spec fn ascii_text(s: Seq<char>) -> bool {
    forall|i: int| 0 <= i < s.len() ==> (#[trigger] s[i] as u32) <= 0x7F
}

/// Every byte is below `0x80` (7-bit clean).
pub open spec fn seven_bit(b: Seq<u8>) -> bool {
    forall|i: int| 0 <= i < b.len() ==> #[trigger] b[i] < 0x80
}

/// The lowercase hexadecimal digit of `d` (for `d < 16`).
pub open spec fn hex_digit(d: u32) -> u8 {
    if d < 10 {
        (48 + d) as u8
    } else {
        (87 + d) as u8
    }
}

/// The bytes that serde_json writes for the character `c` inside a JSON
/// string: `\"` and `\\` for the quote and the backslash, the short escapes
/// `\b \t \n \f \r`, `\u00` and two lowercase hex digits for any other
/// control character below `0x20`, and the UTF-8 bytes of every other
/// character.
pub open spec fn escaped_char(c: char) -> Seq<u8> {
    let u = c as u32;
    if c == '"' {
        seq![92u8, 34u8]
    } else if c == '\\' {
        seq![92u8, 92u8]
    } else if u == 8 {
        seq![92u8, 98u8]
    } else if u == 9 {
        seq![92u8, 116u8]
    } else if u == 10 {
        seq![92u8, 110u8]
    } else if u == 12 {
        seq![92u8, 102u8]
    } else if u == 13 {
        seq![92u8, 114u8]
    } else if u < 0x20 {
        seq![92u8, 117u8, 48u8, 48u8, hex_digit(u / 16), hex_digit(u % 16)]
    } else {
        encode_utf8(seq![c])
    }
}

/// The escaped characters of `s`, one after another.
pub open spec fn escaped(s: Seq<char>) -> Seq<u8>
    decreases s.len(),
{
    if s.len() == 0 {
        Seq::empty()
    } else {
        escaped(s.drop_last()) + escaped_char(s.last())
    }
}

/// The quoted, escaped JSON string that `serde_json::to_vec` writes for
/// the text `s`.
pub open spec fn quoted(s: Seq<char>) -> Seq<u8> {
    seq![34u8] + escaped(s) + seq![34u8]
}

/// Printable ASCII text without `"` or `\`: characters that JSON strings
/// hold unescaped.
pub open spec fn plain_ascii(s: Seq<char>) -> bool {
    forall|i: int| 0 <= i < s.len() ==> ' ' <= #[trigger] s[i] <= '~' && s[i] != '"' && s[i] != '\\'
}

/// The bytes of ASCII text, one per character.
pub open spec fn ascii_bytes(s: Seq<char>) -> Seq<u8> {
    s.map_values(|c: char| c as u8)
}

/// Writes a string as JSON with `serde_json::to_vec::<str>`, which quotes
/// it and escapes each character as [`escaped_char`] says (the escape table
/// and `write_char_escape` of serde_json's compact formatter). Serializing
/// a `str` into a vector cannot fail; the error arm is never taken.
#[verifier::external_body]
fn quote_text(s: &str) -> (r: Vec<u8>)
    ensures
        r@ == quoted(s@),
{
    match serde_json::to_vec(s) {
        Ok(b) => b,
        Err(_) => Vec::new(),
    }
}

/// An escaped character is 7-bit exactly when the character is ASCII.
pub proof fn lemma_escaped_char_seven_bit(c: char)
    ensures
        seven_bit(escaped_char(c)) <==> (c as u32) <= 0x7F,
{
    let u = c as u32;
    if c == '"' || c == '\\' || u == 8 || u == 9 || u == 10 || u == 12 || u == 13 {
        assert(seven_bit(escaped_char(c)));
    } else if u < 0x20 {
        assert(hex_digit(u / 16) < 0x80 && hex_digit(u % 16) < 0x80);
        assert(seven_bit(escaped_char(c)));
    } else {
        lemma_utf8_seven_bit(seq![c]);
        assert(ascii_text(seq![c]) <==> u <= 0x7F) by {
            assert(seq![c][0] == c);
        }
    }
}

/// The escaped text is 7-bit exactly when the text is ASCII.
pub proof fn lemma_escaped_seven_bit(s: Seq<char>)
    ensures
        seven_bit(escaped(s)) <==> ascii_text(s),
    decreases s.len(),
{
    if s.len() > 0 {
        lemma_escaped_seven_bit(s.drop_last());
        lemma_escaped_char_seven_bit(s.last());
        lemma_seven_bit_concat(escaped(s.drop_last()), escaped_char(s.last()));
        if ascii_text(s) {
            assert forall|i: int| 0 <= i < s.drop_last().len() implies (#[trigger] s.drop_last()[i] as u32) <= 0x7F by {
                assert(s.drop_last()[i] == s[i]);
            }
            assert((s[s.len() - 1] as u32) <= 0x7F);
        }
        if ascii_text(s.drop_last()) && (s.last() as u32) <= 0x7F {
            assert forall|i: int| 0 <= i < s.len() implies (#[trigger] s[i] as u32) <= 0x7F by {
                if i < s.len() - 1 {
                    assert(s[i] == s.drop_last()[i]);
                }
            }
        }
    }
}

/// A quoted text is 7-bit exactly when the text is ASCII.
pub proof fn lemma_quoted_seven_bit(s: Seq<char>)
    ensures
        seven_bit(quoted(s)) <==> ascii_text(s),
{
    lemma_escaped_seven_bit(s);
    lemma_seven_bit_concat(seq![34u8], escaped(s));
    lemma_seven_bit_concat(seq![34u8] + escaped(s), seq![34u8]);
    assert(seven_bit(seq![34u8]));
}

/// Plain printable ASCII text is quoted unchanged, one byte per character.
pub proof fn lemma_quoted_plain(s: Seq<char>)
    requires
        plain_ascii(s),
    ensures
        quoted(s) == seq![34u8] + ascii_bytes(s) + seq![34u8],
    decreases s.len(),
{
    lemma_escaped_plain(s);
}

proof fn lemma_escaped_plain(s: Seq<char>)
    requires
        plain_ascii(s),
    ensures
        escaped(s) == ascii_bytes(s),
    decreases s.len(),
{
    if s.len() == 0 {
        assert(ascii_bytes(s) =~= Seq::<u8>::empty());
    } else {
        let t = s.drop_last();
        assert forall|i: int| 0 <= i < t.len() implies ' ' <= #[trigger] t[i] <= '~' && t[i] != '"' && t[i] != '\\' by {
            assert(t[i] == s[i]);
        }
        lemma_escaped_plain(t);
        let c = s.last();
        assert(' ' <= s[s.len() - 1] <= '~');
        let u = c as u32;
        assert(32 <= u <= 126);
        assert((u & 0x7F) as u8 == u as u8) by (bit_vector)
            requires 32 <= u <= 126;
        assert(encode_utf8(seq![c]) =~= seq![c as u8]) by {
            assert(seq![c].drop_first() =~= Seq::<char>::empty());
            assert(seq![c][0] == c);
            assert(encode_utf8(Seq::<char>::empty()) =~= Seq::<u8>::empty());
            assert(vstd::utf8::encode_scalar(u) == seq![(u & 0x7F) as u8]);
            assert(c as u8 == u as u8);
        }
        assert(ascii_bytes(s) =~= ascii_bytes(t) + seq![c as u8]);
    }
}

/// The text of a JSON number: the decimal digits of an integer (with `-`
/// when negative), or the held text of a float.
pub open spec fn number_text(n: NumberView) -> Seq<char> {
    match n {
        NumberView::Unsigned(u) => decimal(u as nat),
        NumberView::Signed(i) => signed_decimal(i as int),
        NumberView::Float(t) => t,
    }
}

/// The compact JSON text of `v`.
pub open spec fn json_text(v: JsonView) -> Seq<u8>
    decreases v,
{
    match v {
        JsonView::Null => encode_utf8("null"@),
        JsonView::Bool(b) => if b {
            encode_utf8("true"@)
        } else {
            encode_utf8("false"@)
        },
        JsonView::Number(n) => encode_utf8(number_text(n)),
        JsonView::Str(s) => quoted(s),
        JsonView::Array(items) => seq![91u8] + items_text(items) + seq![93u8],
        JsonView::Object(members) => seq![123u8] + members_text(members) + seq![125u8],
    }
}

/// The texts of array elements, separated by commas.
pub open spec fn items_text(s: Seq<JsonView>) -> Seq<u8>
    decreases s,
{
    if s.len() == 0 {
        Seq::empty()
    } else {
        items_text(s.drop_last()) + (if s.len() > 1 { seq![44u8] } else { Seq::empty() }) + json_text(s.last())
    }
}

/// The texts of object members, `"key":value`, separated by commas.
pub open spec fn members_text(s: Seq<(Seq<char>, JsonView)>) -> Seq<u8>
    decreases s,
{
    if s.len() == 0 {
        Seq::empty()
    } else {
        members_text(s.drop_last()) + (if s.len() > 1 { seq![44u8] } else { Seq::empty() }) + quoted(s.last().0)
            + seq![58u8] + json_text(s.last().1)
    }
}

/// Every string in `v` (member names included) and every number's text is
/// ASCII.
pub open spec fn ascii_json(v: JsonView) -> bool
    decreases v,
{
    match v {
        JsonView::Null => true,
        JsonView::Bool(_) => true,
        JsonView::Number(n) => ascii_text(number_text(n)),
        JsonView::Str(s) => ascii_text(s),
        JsonView::Array(items) => ascii_items(items),
        JsonView::Object(members) => ascii_members(members),
    }
}

/// Every element is ASCII JSON.
pub open spec fn ascii_items(s: Seq<JsonView>) -> bool
    decreases s,
{
    if s.len() == 0 {
        true
    } else {
        ascii_items(s.drop_last()) && ascii_json(s.last())
    }
}

/// Every member name is ASCII and every member value ASCII JSON.
pub open spec fn ascii_members(s: Seq<(Seq<char>, JsonView)>) -> bool
    decreases s,
{
    if s.len() == 0 {
        true
    } else {
        ascii_members(s.drop_last()) && ascii_text(s.last().0) && ascii_json(s.last().1)
    }
}

pub proof fn lemma_seven_bit_concat(a: Seq<u8>, b: Seq<u8>)
    ensures
        seven_bit(a + b) <==> seven_bit(a) && seven_bit(b),
{
    if seven_bit(a + b) {
        assert forall|i: int| 0 <= i < b.len() implies #[trigger] b[i] < 0x80 by {
            assert((a + b)[a.len() + i] == b[i]);
        }
        assert forall|i: int| 0 <= i < a.len() implies #[trigger] a[i] < 0x80 by {
            assert((a + b)[i] == a[i]);
        }
    }
}

/// The UTF-8 bytes of a text are 7-bit exactly when the text is ASCII.
pub proof fn lemma_utf8_seven_bit(t: Seq<char>)
    ensures
        seven_bit(encode_utf8(t)) <==> ascii_text(t),
    decreases t.len(),
{
    if t.len() > 0 {
        lemma_utf8_seven_bit(t.drop_first());
        let c = t[0] as u32;
        vstd::utf8::char_is_scalar(t[0]);
        let first = vstd::utf8::encode_scalar(c);
        assert(encode_utf8(t) == first + encode_utf8(t.drop_first()));
        lemma_seven_bit_concat(first, encode_utf8(t.drop_first()));
        assert(ascii_text(t) <==> (c <= 0x7F && ascii_text(t.drop_first()))) by {
            if ascii_text(t) {
                assert forall|i: int| 0 <= i < t.drop_first().len() implies (#[trigger] t.drop_first()[i] as u32) <= 0x7F by {
                    assert(t.drop_first()[i] == t[i + 1]);
                }
            }
            if c <= 0x7F && ascii_text(t.drop_first()) {
                assert forall|i: int| 0 <= i < t.len() implies (#[trigger] t[i] as u32) <= 0x7F by {
                    if i > 0 {
                        assert(t[i] == t.drop_first()[i - 1]);
                    } else {
                        assert(t[i] == t[0]);
                    }
                }
            }
        }
        if c <= 0x7F {
            assert((c & 0x7F) as u8 == c as u8 && (c as u8) < 0x80) by (bit_vector)
                requires c <= 0x7F;
            assert(seven_bit(first));
        } else if c <= 0x7FF {
            assert(0xC0u8 | ((c >> 6) & 0x1F) as u8 >= 0x80) by (bit_vector);
            assert(!seven_bit(first));
        } else if vstd::utf8::has_width_3_encoding(c) {
            assert(0xE0u8 | ((c >> 12) & 0x0F) as u8 >= 0x80) by (bit_vector);
            assert(!seven_bit(first));
        } else {
            assert(0xF0u8 | ((c >> 18) & 0x7) as u8 >= 0x80) by (bit_vector);
            assert(!seven_bit(first));
        }
    }
}

fn push_bytes(out: &mut Vec<u8>, b: &[u8])
    ensures
        final(out)@ == old(out)@ + b@,
{
    let ghost before = out@;
    out.extend_from_slice(b);
    assert(out@ =~= before + b@);
}

/// Appends the compact JSON text of `v` to `out`. The text is 7-bit
/// exactly when `v` is ASCII JSON.
pub fn write_json(v: &Json, out: &mut Vec<u8>)
    ensures
        final(out)@ == old(out)@ + json_text(v@),
        seven_bit(json_text(v@)) <==> ascii_json(v@),
    decreases v,
{
    match v {
        Json::Null => {
            proof {
                reveal_strlit("null");
                lemma_utf8_seven_bit("null"@);
            }
            push_bytes(out, "null".as_bytes())
        },
        Json::Bool(b) => if *b {
            proof {
                reveal_strlit("true");
                lemma_utf8_seven_bit("true"@);
            }
            push_bytes(out, "true".as_bytes())
        } else {
            proof {
                reveal_strlit("false");
                lemma_utf8_seven_bit("false"@);
            }
            push_bytes(out, "false".as_bytes())
        },
        Json::Number(JsonNumber::Unsigned(u)) => {
            let t = u64_text(*u);
            proof {
                lemma_utf8_seven_bit(t@);
            }
            push_bytes(out, t.as_str().as_bytes());
        },
        Json::Number(JsonNumber::Signed(i)) => {
            let t = i64_text(*i);
            proof {
                lemma_utf8_seven_bit(t@);
            }
            push_bytes(out, t.as_str().as_bytes());
        },
        Json::Number(JsonNumber::Float(t)) => {
            proof {
                lemma_utf8_seven_bit(t@);
            }
            push_bytes(out, t.as_str().as_bytes())
        },
        Json::Str(s) => {
            let q = quote_text(s.as_str());
            proof {
                lemma_quoted_seven_bit(s@);
            }
            push_bytes(out, q.as_slice());
        },
        Json::Array(items) => {
            let ghost start = old(out)@;
            out.push(91u8);
            let ghost vs = view_items(items@);
            proof {
                lemma_view_items(items@);
            }
            let mut i: usize = 0;
            while i < items.len()
                invariant
                    *v == Json::Array(*items),
                    0 <= i <= items.len(),
                    vs == view_items(items@),
                    vs.len() == items.len(),
                    forall|j: int| 0 <= j < items.len() ==> #[trigger] vs[j] == items@[j]@,
                    out@ == start + seq![91u8] + items_text(vs.subrange(0, i as int)),
                    seven_bit(items_text(vs.subrange(0, i as int))) <==> ascii_items(vs.subrange(0, i as int)),
                decreases items.len() - i,
            {
                proof {
                    assert(decreases_to!(*v => v->Array_0));
                    assert(decreases_to!(*items => items[i as int]));
                    assert(decreases_to!(*v => items[i as int]));
                    assert(vs.subrange(0, i + 1).drop_last() =~= vs.subrange(0, i as int));
                    assert(vs.subrange(0, i + 1).last() == vs[i as int]);
                }
                if i > 0 {
                    out.push(44u8);
                }
                write_json(&items[i], out);
                proof {
                    let prev = items_text(vs.subrange(0, i as int));
                    let sep: Seq<u8> = if i > 0 { seq![44u8] } else { Seq::empty() };
                    assert(items_text(vs.subrange(0, i + 1)) == prev + sep + json_text(vs[i as int]));
                    assert(out@ =~= start + seq![91u8] + items_text(vs.subrange(0, i + 1)));
                    assert(ascii_items(vs.subrange(0, i + 1)) == (ascii_items(vs.subrange(0, i as int)) && ascii_json(vs[i as int])));
                    lemma_seven_bit_concat(prev, sep);
                    lemma_seven_bit_concat(prev + sep, json_text(vs[i as int]));
                    assert(seven_bit(sep));
                }
                i = i + 1;
            }
            out.push(93u8);
            proof {
                assert(vs.subrange(0, items.len() as int) =~= vs);
                assert(out@ =~= start + json_text(v@));
                lemma_seven_bit_concat(seq![91u8], items_text(vs));
                lemma_seven_bit_concat(seq![91u8] + items_text(vs), seq![93u8]);
                assert(seven_bit(seq![91u8]));
                assert(seven_bit(seq![93u8]));
            }
        },
        Json::Object(members) => {
            let ghost start = old(out)@;
            out.push(123u8);
            let ghost ms = view_members(members@);
            proof {
                lemma_view_members(members@);
            }
            let mut i: usize = 0;
            while i < members.len()
                invariant
                    *v == Json::Object(*members),
                    0 <= i <= members.len(),
                    ms == view_members(members@),
                    ms.len() == members.len(),
                    forall|j: int| 0 <= j < members.len() ==> #[trigger] ms[j] == (members@[j].key@, members@[j].value@),
                    out@ == start + seq![123u8] + members_text(ms.subrange(0, i as int)),
                    seven_bit(members_text(ms.subrange(0, i as int))) <==> ascii_members(ms.subrange(0, i as int)),
                decreases members.len() - i,
            {
                proof {
                    assert(decreases_to!(*v => v->Object_0));
                    assert(decreases_to!(*members => members[i as int]));
                    assert(decreases_to!(members[i as int] => members[i as int].value));
                    assert(ms.subrange(0, i + 1).drop_last() =~= ms.subrange(0, i as int));
                    assert(ms.subrange(0, i + 1).last() == ms[i as int]);
                }
                if i > 0 {
                    out.push(44u8);
                }
                let q = quote_text(members[i].key.as_str());
                proof {
                    lemma_quoted_seven_bit(members@[i as int].key@);
                }
                push_bytes(out, q.as_slice());
                out.push(58u8);
                write_json(&members[i].value, out);
                proof {
                    let prev = members_text(ms.subrange(0, i as int));
                    let sep: Seq<u8> = if i > 0 { seq![44u8] } else { Seq::empty() };
                    assert(members_text(ms.subrange(0, i + 1)) == prev + sep + quoted(ms[i as int].0) + seq![58u8] + json_text(ms[i as int].1));
                    assert(out@ =~= start + seq![123u8] + members_text(ms.subrange(0, i + 1)));
                    assert(ascii_members(ms.subrange(0, i + 1)) == (ascii_members(ms.subrange(0, i as int)) && ascii_text(ms[i as int].0) && ascii_json(ms[i as int].1)));
                    lemma_seven_bit_concat(prev, sep);
                    lemma_seven_bit_concat(prev + sep, quoted(ms[i as int].0));
                    lemma_seven_bit_concat(prev + sep + quoted(ms[i as int].0), seq![58u8]);
                    lemma_seven_bit_concat(prev + sep + quoted(ms[i as int].0) + seq![58u8], json_text(ms[i as int].1));
                    assert(seven_bit(sep));
                    assert(seven_bit(seq![58u8]));
                }
                i = i + 1;
            }
            out.push(125u8);
            proof {
                assert(ms.subrange(0, members.len() as int) =~= ms);
                assert(out@ =~= start + json_text(v@));
                lemma_seven_bit_concat(seq![123u8], members_text(ms));
                lemma_seven_bit_concat(seq![123u8] + members_text(ms), seq![125u8]);
                assert(seven_bit(seq![123u8]));
                assert(seven_bit(seq![125u8]));
            }
        },
    }
}

/// The compact JSON text of `v`; it is 7-bit exactly when `v` is ASCII JSON.
pub fn to_json_text(v: &Json) -> (r: Vec<u8>)
    ensures
        r@ == json_text(v@),
        seven_bit(r@) <==> ascii_json(v@),
{
    let mut out: Vec<u8> = Vec::new();
    write_json(v, &mut out);
    assert(out@ =~= json_text(v@));
    out
}

} // verus!
