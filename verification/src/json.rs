//! JSON documents as plain values. Parsing is left to `serde_json`; reading
//! fields out of a parsed document is done here.

use vstd::prelude::*;
use crate::text::text_equals;

verus! {

/// `serde_json::Value`, only handed from the parser to its conversion.
#[verifier::external_type_specification]
#[verifier::external_body]
pub struct ExJsonValue(serde_json::Value);

/// A JSON number, told apart as `serde_json` tells it apart: an integer that
/// fits `u64`, a negative integer that fits `i64`, or any other number.
#[derive(Clone, Copy, Debug, PartialEq, Eq)]
pub enum JsonNumber {
    PosInt(u64),
    NegInt(i64),
    Float,
}

/// A JSON document. Object members are listed in order; a member lookup
/// reads the first member with the key. Documents from `parse_json` list
/// members in the order `serde_json` keeps them (sorted by key, each key once).
#[derive(Debug)]
pub enum JsonValue {
    Null,
    Bool(bool),
    Number(JsonNumber),
    Str(String),
    Array(Vec<JsonValue>),
    Object(Vec<(String, JsonValue)>),
}

/// A JSON document with its texts as character sequences.
pub enum SpecJson {
    Null,
    Bool(bool),
    Number(JsonNumber),
    Str(Seq<char>),
    Array(Seq<SpecJson>),
    Object(Seq<(Seq<char>, SpecJson)>),
}

/// A parsed document as a plain value.
pub open spec fn json_view(v: JsonValue) -> SpecJson
    decreases v,
{
    match v {
        JsonValue::Null => SpecJson::Null,
        JsonValue::Bool(b) => SpecJson::Bool(b),
        JsonValue::Number(n) => SpecJson::Number(n),
        JsonValue::Str(s) => SpecJson::Str(s@),
        JsonValue::Array(items) => SpecJson::Array(
            Seq::new(
                items@.len(),
                |i: int|
                    if 0 <= i < items@.len() {
                        json_view(items@[i])
                    } else {
                        SpecJson::Null
                    },
            ),
        ),
        JsonValue::Object(members) => SpecJson::Object(
            Seq::new(
                members@.len(),
                |i: int|
                    if 0 <= i < members@.len() {
                        (members@[i].0@, json_view(members@[i].1))
                    } else {
                        (Seq::empty(), SpecJson::Null)
                    },
            ),
        ),
    }
}

/// What `serde_json::from_str` makes of a text: the document, or the text of
/// the error it rejects the input with.
pub uninterp spec fn json_parse(body: Seq<char>) -> Result<SpecJson, Seq<char>>;

/// A parse result as a plain value.
pub open spec fn json_result_view(r: Result<JsonValue, String>) -> Result<SpecJson, Seq<char>> {
    match r {
        Ok(v) => Ok(json_view(v)),
        Err(e) => Err(e@),
    }
}

/// Parses a text with `serde_json::from_str::<serde_json::Value>` and
/// converts the value variant for variant (the error to its `Display` text).
/// Claimed: the result is what `json_parse` names for the text.
#[verifier::external_body]
pub(crate) fn parse_json(body: &str) -> (r: Result<JsonValue, String>)
    ensures
        json_result_view(r) == json_parse(body@),
{
    match serde_json::from_str::<serde_json::Value>(body) {
        Ok(v) => Ok(json_from_serde(&v)),
        Err(e) => Err(e.to_string()),
    }
}

/// The variant-for-variant conversion of a `serde_json::Value` used by
/// `parse_json`; numbers are told apart with `as_u64` and `as_i64`. It
/// promises nothing by itself: `parse_json` states the result.
#[verifier::external_body]
fn json_from_serde(v: &serde_json::Value) -> JsonValue {
    match v {
        serde_json::Value::Null => JsonValue::Null,
        serde_json::Value::Bool(b) => JsonValue::Bool(*b),
        serde_json::Value::Number(n) => JsonValue::Number(match (n.as_u64(), n.as_i64()) {
            (Some(u), _) => JsonNumber::PosInt(u),
            (None, Some(i)) => JsonNumber::NegInt(i),
            _ => JsonNumber::Float,
        }),
        serde_json::Value::String(s) => JsonValue::Str(s.clone()),
        serde_json::Value::Array(a) => JsonValue::Array(a.iter().map(json_from_serde).collect()),
        serde_json::Value::Object(m) => JsonValue::Object(m.iter().map(|(k, x)| (k.clone(), json_from_serde(x))).collect()),
    }
}

/// The value of the first member named `key`.
pub open spec fn member(members: Seq<(Seq<char>, SpecJson)>, key: Seq<char>) -> Option<SpecJson>
    decreases members.len(),
{
    if members.len() == 0 {
        None
    } else if members[0].0 == key {
        Some(members[0].1)
    } else {
        member(members.drop_first(), key)
    }
}

/// The member `key` of an object; nothing for other values.
pub open spec fn json_field(v: SpecJson, key: Seq<char>) -> Option<SpecJson> {
    match v {
        SpecJson::Object(members) => member(members, key),
        _ => None,
    }
}

/// The member `key` when it is a string.
pub open spec fn str_field(v: SpecJson, key: Seq<char>) -> Option<Seq<char>> {
    match json_field(v, key) {
        Some(SpecJson::Str(s)) => Some(s),
        _ => None,
    }
}

/// The member `key` when it is an integer that fits `u64`.
pub open spec fn u64_field(v: SpecJson, key: Seq<char>) -> Option<u64> {
    match json_field(v, key) {
        Some(SpecJson::Number(JsonNumber::PosInt(u))) => Some(u),
        _ => None,
    }
}

/// The member named `key` of an object, if any.
pub fn field<'a>(v: &'a JsonValue, key: &str) -> (r: Option<&'a JsonValue>)
    ensures
        match r {
            Some(x) => json_field(json_view(*v), key@) == Some(json_view(*x)),
            None => json_field(json_view(*v), key@) is None,
        },
{
    match v {
        JsonValue::Object(members) => {
            let ghost all = json_view(*v)->Object_0;
            assert(json_view(*v) is Object);
            let mut i: usize = 0;
            assert(all.skip(0) =~= all);
            while i < members.len()
                invariant
                    i <= members@.len(),
                    all.len() == members@.len(),
                    forall|j: int|
                        0 <= j < members@.len() ==> #[trigger] all[j] == (
                            members@[j].0@,
                            json_view(members@[j].1),
                        ),
                    member(all, key@) == member(all.skip(i as int), key@),
                    json_view(*v) == SpecJson::Object(all),
                decreases members@.len() - i,
            {
                assert(all.skip(i as int).drop_first() =~= all.skip(i + 1));
                assert(all.skip(i as int)[0] == all[i as int]);
                let ghost entry = all[i as int];
                if text_equals(members[i].0.as_str(), key) {
                    assert(entry.0 == key@);
                    assert(all.skip(i as int)[0] == entry);
                    assert(member(all.skip(i as int), key@) == Some(entry.1));
                    return Some(&members[i].1);
                }
                i = i + 1;
            }
            assert(all.skip(i as int) =~= Seq::<(Seq<char>, SpecJson)>::empty());
            None
        },
        _ => None,
    }
}

/// The member `key` when it is a string.
pub fn str_field_of(v: &JsonValue, key: &str) -> (r: Option<String>)
    ensures
        r.deep_view() == str_field(json_view(*v), key@),
{
    match field(v, key) {
        Some(JsonValue::Str(s)) => Some(s.clone()),
        _ => None,
    }
}

/// The member `key` when it is an integer that fits `u64`.
pub fn u64_field_of(v: &JsonValue, key: &str) -> (r: Option<u64>)
    ensures
        r == u64_field(json_view(*v), key@),
{
    match field(v, key) {
        Some(JsonValue::Number(JsonNumber::PosInt(u))) => Some(*u),
        _ => None,
    }
}

/// A member lookup finds the first member with the key, and nothing when no
/// member has it.
pub proof fn law_member_is_first_match(members: Seq<(Seq<char>, SpecJson)>, key: Seq<char>)
    ensures
        forall|i: int|
            0 <= i < members.len() && members[i].0 == key && (forall|j: int|
                0 <= j < i ==> members[j].0 != key) ==> member(members, key) == Some(
                members[i].1,
            ),
        (forall|j: int| 0 <= j < members.len() ==> members[j].0 != key) ==> member(members, key)
            is None,
    decreases members.len(),
{
    if members.len() > 0 {
        let rest = members.drop_first();
        law_member_is_first_match(rest, key);
        assert forall|i: int|
            0 <= i < members.len() && members[i].0 == key && (forall|j: int|
                0 <= j < i ==> members[j].0 != key) implies member(members, key) == Some(
            members[i].1,
        ) by {
            if i > 0 {
                assert(members[0].0 != key);
                assert(rest[i - 1] == members[i]);
                assert forall|j: int| 0 <= j < i - 1 implies rest[j].0 != key by {
                    assert(rest[j] == members[j + 1]);
                }
            }
        }
        if forall|j: int| 0 <= j < members.len() ==> members[j].0 != key {
            assert(members[0].0 != key);
            assert forall|j: int| 0 <= j < rest.len() implies rest[j].0 != key by {
                assert(rest[j] == members[j + 1]);
            }
        }
    }
}

/// An array or object keeps its elements: as many as the value holds, each
/// seen as itself, in order.
pub proof fn law_json_view_keeps_elements(v: JsonValue)
    ensures
        v matches JsonValue::Array(items) ==> json_view(v) matches SpecJson::Array(s) && s.len()
            == items@.len() && forall|i: int|
            0 <= i < items@.len() ==> #[trigger] s[i] == json_view(items@[i]),
        v matches JsonValue::Object(members) ==> json_view(v) matches SpecJson::Object(s)
            && s.len() == members@.len() && forall|i: int|
            0 <= i < members@.len() ==> #[trigger] s[i] == (
                members@[i].0@,
                json_view(members@[i].1),
            ),
        v matches JsonValue::Str(t) ==> json_view(v) == SpecJson::Str(t@),
        v matches JsonValue::Number(n) ==> json_view(v) == SpecJson::Number(n),
{
}

/// A string member reads as its text exactly when the member is a string; an
/// integer member reads as its value exactly when it is an integer fitting
/// `u64`.
pub proof fn law_typed_fields(v: SpecJson, key: Seq<char>, t: Seq<char>, u: u64)
    ensures
        str_field(v, key) == Some(t) <==> json_field(v, key) == Some(SpecJson::Str(t)),
        u64_field(v, key) == Some(u) <==> json_field(v, key) == Some(
            SpecJson::Number(JsonNumber::PosInt(u)),
        ),
        !(json_field(v, key) matches Some(SpecJson::Str(_))) ==> str_field(v, key) is None,
        !(json_field(v, key) matches Some(SpecJson::Number(JsonNumber::PosInt(_)))) ==> u64_field(
            v,
            key,
        ) is None,
{
}

} // verus!
