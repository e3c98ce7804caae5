//! A JSON document as the decoder reads it. Parsing JSON text is serde_json's
//! work; this module holds the tree it produces.
use vstd::prelude::*;

verus! {

broadcast use vstd::std_specs::vec::axiom_vec_index_decreases;

#[verifier::external_type_specification]
#[verifier::external_body]
pub struct ExValue(serde_json::Value);

#[verifier::external_type_specification]
#[verifier::external_body]
pub struct ExJsonError(serde_json::Error);

/// A JSON number as serde_json holds it.
#[derive(Clone, Debug, PartialEq)]
pub enum JsonNumber {
    PosInt(u64),
    NegInt(i64),
    /// A number with a fraction or an exponent, as serde_json writes it.
    Float(String),
}

#[derive(Debug, PartialEq)]
pub enum Json {
    Null,
    Bool(bool),
    Number(JsonNumber),
    Str(String),
    Array(Vec<Json>),
    Object(Vec<(String, Json)>),
}

pub enum NumberValue {
    PosInt(u64),
    NegInt(i64),
    Float(Seq<char>),
}

/// The mathematical value of a JSON document.
pub enum JsonValue {
    Null,
    Bool(bool),
    Number(NumberValue),
    Str(Seq<char>),
    Array(Seq<JsonValue>),
    Object(Seq<(Seq<char>, JsonValue)>),
}

impl View for JsonNumber {
    type V = NumberValue;

    open spec fn view(&self) -> NumberValue {
        match self {
            JsonNumber::PosInt(n) => NumberValue::PosInt(*n),
            JsonNumber::NegInt(n) => NumberValue::NegInt(*n),
            JsonNumber::Float(t) => NumberValue::Float(t@),
        }
    }
}

pub open spec fn json_value(j: Json) -> JsonValue
    decreases j,
{
    match j {
        Json::Null => JsonValue::Null,
        Json::Bool(b) => JsonValue::Bool(b),
        Json::Number(n) => JsonValue::Number(n@),
        Json::Str(s) => JsonValue::Str(s@),
        Json::Array(items) => JsonValue::Array(
            Seq::new(
                items.len() as nat,
                |i: int|
                    if 0 <= i < items.len() {
                        json_value(items[i])
                    } else {
                        JsonValue::Null
                    },
            ),
        ),
        Json::Object(fields) => JsonValue::Object(
            Seq::new(
                fields.len() as nat,
                |i: int|
                    if 0 <= i < fields.len() {
                        (fields[i].0@, json_value(fields[i].1))
                    } else {
                        (Seq::empty(), JsonValue::Null)
                    },
            ),
        ),
    }
}

/// The document that serde_json reads from a JSON text, if it accepts it.
pub uninterp spec fn json_parse(text: Seq<u8>) -> Option<JsonValue>;

/// Relies on serde_json's `from_slice` into a `Value`, converted node for node.
#[verifier::external_body]
fn parse_value(text: &[u8]) -> (r: Result<Json, serde_json::Error>)
    ensures
        r is Ok <==> json_parse(text@) is Some,
        r is Ok ==> json_parse(text@) == Some(json_value(r->Ok_0)),
{
    serde_json::from_slice::<serde_json::Value>(text).map(from_value)
}

/// Relies on serde_json's `Value` variants and `Number::as_u64`, `as_i64` and
/// `to_string`: one node of ours for each node of theirs, objects in the
/// order serde_json keeps their keys.
#[verifier::external_body]
fn from_value(v: serde_json::Value) -> Json {
    match v {
        serde_json::Value::Null => Json::Null,
        serde_json::Value::Bool(b) => Json::Bool(b),
        serde_json::Value::Number(n) => Json::Number(match (n.as_u64(), n.as_i64()) {
            (Some(u), _) => JsonNumber::PosInt(u),
            (None, Some(i)) => JsonNumber::NegInt(i),
            (None, None) => JsonNumber::Float(n.to_string()),
        }),
        serde_json::Value::String(s) => Json::Str(s),
        serde_json::Value::Array(a) => Json::Array(a.into_iter().map(from_value).collect()),
        serde_json::Value::Object(m) => Json::Object(m.into_iter().map(|(k, x)| (k, from_value(x))).collect()),
    }
}

impl Json {
    /// Reads a JSON text; `None` where serde_json rejects it.
    pub fn parse(text: &[u8]) -> (r: Option<Json>)
        ensures
            r is Some <==> json_parse(text@) is Some,
            r is Some ==> json_parse(text@) == Some(json_value(r->0)),
    {
        match parse_value(text) {
            Ok(j) => Some(j),
            Err(_) => None,
        }
    }
}

/// The value under `key` in the members of an object: the first member
/// with that key.
pub open spec fn field(members: Seq<(Seq<char>, JsonValue)>, key: Seq<char>) -> Option<JsonValue>
    decreases members.len(),
{
    if members.len() == 0 {
        None
    } else if members[0].0 == key {
        Some(members[0].1)
    } else {
        field(members.drop_first(), key)
    }
}

/// The value under `key` when `v` is an object.
pub open spec fn member(v: JsonValue, key: Seq<char>) -> Option<JsonValue> {
    match v {
        JsonValue::Object(members) => field(members, key),
        _ => None,
    }
}

/// The member `key` of the object `j`.
pub fn get_member<'a>(j: &'a Json, key: &str) -> (r: Option<&'a Json>)
    ensures
        r is None <==> member(json_value(*j), key@) is None,
        r is Some ==> member(json_value(*j), key@) == Some(json_value(*r->0)),
{
    match j {
        Json::Object(fields) => {
            let ghost members = match json_value(*j) {
                JsonValue::Object(m) => m,
                _ => Seq::empty(),
            };
            assert(members.len() == fields.len());
            assert(members.skip(0) =~= members);
            let mut i: usize = 0;
            while i < fields.len()
                invariant
                    i <= fields.len(),
                    members.len() == fields.len(),
                    forall|k: int|
                        0 <= k < fields.len() ==> #[trigger] members[k] == (
                            fields[k].0@,
                            json_value(fields[k].1),
                        ),
                    field(members, key@) == field(members.skip(i as int), key@),
                    member(json_value(*j), key@) == field(members, key@),
                decreases fields.len() - i,
            {
                let ghost rest = members.skip(i as int);
                assert(rest[0] == members[i as int]);
                assert(rest.drop_first() =~= members.skip(i + 1));
                if crate::text::str_eq(fields[i].0.as_str(), key) {
                    assert(field(rest, key@) == Some(rest[0].1));
                    return Some(&fields[i].1);
                }
                i = i + 1;
            }
            assert(members.skip(i as int).len() == 0);
            None
        },
        _ => None,
    }
}

/// A copy of a number.
pub fn copy_number(n: &JsonNumber) -> (r: JsonNumber)
    ensures
        r@ == n@,
{
    match n {
        JsonNumber::PosInt(u) => JsonNumber::PosInt(*u),
        JsonNumber::NegInt(i) => JsonNumber::NegInt(*i),
        JsonNumber::Float(t) => JsonNumber::Float(t.clone()),
    }
}

/// A copy of a document.
pub fn copy_json(j: &Json) -> (r: Json)
    ensures
        json_value(r) == json_value(*j),
    decreases j,
{
    match j {
        Json::Null => Json::Null,
        Json::Bool(b) => Json::Bool(*b),
        Json::Number(n) => Json::Number(copy_number(n)),
        Json::Str(s) => Json::Str(s.clone()),
        Json::Array(items) => {
            let mut out: Vec<Json> = Vec::new();
            let mut i: usize = 0;
            while i < items.len()
                invariant
                    i <= items.len(),
                    out.len() == i,
                    *j == Json::Array(*items),
                    forall|k: int| 0 <= k < i ==> json_value(#[trigger] out[k]) == json_value(items[k]),
                decreases items.len() - i,
            {
                proof {
                    assert(decreases_to!(*j => (*j)->Array_0));
                    assert(decreases_to!(*items => items[i as int]));
                }
                out.push(copy_json(&items[i]));
                i = i + 1;
            }
            let r = Json::Array(out);
            assert(json_value(r) == json_value(*j)) by {
                if let (JsonValue::Array(a), JsonValue::Array(b)) = (json_value(r), json_value(*j)) {
                    assert(a =~= b);
                }
            }
            r
        },
        Json::Object(fields) => {
            let mut out: Vec<(String, Json)> = Vec::new();
            let mut i: usize = 0;
            while i < fields.len()
                invariant
                    i <= fields.len(),
                    out.len() == i,
                    *j == Json::Object(*fields),
                    forall|k: int|
                        0 <= k < i ==> (#[trigger] out[k]).0@ == fields[k].0@ && json_value(out[k].1)
                            == json_value(fields[k].1),
                decreases fields.len() - i,
            {
                proof {
                    assert(decreases_to!(*j => (*j)->Object_0));
                    assert(decreases_to!(*fields => fields[i as int]));
                    assert(decreases_to!(fields[i as int] => fields[i as int].1));
                }
                out.push((fields[i].0.clone(), copy_json(&fields[i].1)));
                i = i + 1;
            }
            let r = Json::Object(out);
            assert(json_value(r) == json_value(*j)) by {
                if let (JsonValue::Object(a), JsonValue::Object(b)) = (json_value(r), json_value(*j)) {
                    assert(a =~= b);
                }
            }
            r
        },
    }
}

} // verus!
