//! A JSON document as plain values, and the lookups that the forecast reader
//! makes in one. Looking up a missing member, or indexing past the end of an
//! array, or looking into a value of the wrong kind, gives `Null`.
use crate::text::same_text;
use vstd::prelude::*;

verus! {

/// A JSON value. A number keeps the text that the JSON library prints for it;
/// an object keeps its members in order, each key once.
#[derive(Debug)]
pub enum JsonValue {
    Null,
    Bool(bool),
    Number(String),
    Str(String),
    Array(Vec<JsonValue>),
    Object(Vec<(String, JsonValue)>),
}

/// The members of a JSON object.
pub type JsonObject = Vec<(String, JsonValue)>;

/// The value of the first member named `key`, if there is one.
pub open spec fn object_member(members: Seq<(String, JsonValue)>, key: Seq<char>) -> Option<JsonValue>
    decreases members.len(),
{
    if members.len() == 0 {
        None
    } else if members[0].0@ == key {
        Some(members[0].1)
    } else {
        object_member(members.drop_first(), key)
    }
}

/// `v[key]`: the member named `key` of an object, `Null` otherwise.
pub open spec fn value_member(v: JsonValue, key: Seq<char>) -> JsonValue {
    match v {
        JsonValue::Object(members) => match object_member(members@, key) {
            Some(x) => x,
            None => JsonValue::Null,
        },
        _ => JsonValue::Null,
    }
}

/// `v[i]`: the element at `i` of an array, `Null` otherwise.
pub open spec fn value_element(v: JsonValue, i: int) -> JsonValue {
    match v {
        JsonValue::Array(items) => if 0 <= i < items@.len() {
            items@[i]
        } else {
            JsonValue::Null
        },
        _ => JsonValue::Null,
    }
}

proof fn lemma_object_member_skip(members: Seq<(String, JsonValue)>, key: Seq<char>, i: int)
    requires
        0 <= i <= members.len(),
        forall|j: int| 0 <= j < i ==> (#[trigger] members[j]).0@ != key,
    ensures
        object_member(members, key) == object_member(members.skip(i), key),
    decreases i,
{
    if i > 0 {
        let rest = members.drop_first();
        assert forall|j: int| 0 <= j < i - 1 implies (#[trigger] rest[j]).0@ != key by {
            assert(rest[j] == members[j + 1]);
        }
        lemma_object_member_skip(rest, key, i - 1);
        assert(rest.skip(i - 1) =~= members.skip(i));
        assert(members[0].0@ != key);
    } else {
        assert(members.skip(0) =~= members);
    }
}

/// Looks up the first member named `key`.
pub fn object_get<'a>(members: &'a Vec<(String, JsonValue)>, key: &str) -> (r: Option<&'a JsonValue>)
    ensures
        r.is_some() == object_member(members@, key@).is_some(),
        r.is_some() ==> *r.unwrap() == object_member(members@, key@).unwrap(),
{
    let n = members.len();
    let mut i: usize = 0;
    while i < n
        invariant
            n == members@.len(),
            i <= n,
            forall|j: int| 0 <= j < i ==> (#[trigger] members@[j]).0@ != key@,
        decreases n - i,
    {
        if same_text(members[i].0.as_str(), key) {
            proof {
                lemma_object_member_skip(members@, key@, i as int);
                assert(members@.skip(i as int)[0] == members@[i as int]);
            }
            return Some(&members[i].1);
        }
        i = i + 1;
    }
    proof {
        lemma_object_member_skip(members@, key@, n as int);
        assert(members@.skip(n as int).len() == 0);
    }
    None
}

/// `v[key]`, as a JSON library indexes a value by a key.
pub fn member<'a>(v: &'a JsonValue, key: &str, null: &'a JsonValue) -> (r: &'a JsonValue)
    requires
        *null == JsonValue::Null,
    ensures
        *r == value_member(*v, key@),
{
    match v {
        JsonValue::Object(members) => match object_get(members, key) {
            Some(x) => x,
            None => null,
        },
        _ => null,
    }
}

/// `v[i]`, as a JSON library indexes a value by a position.
pub fn element<'a>(v: &'a JsonValue, i: usize, null: &'a JsonValue) -> (r: &'a JsonValue)
    requires
        *null == JsonValue::Null,
    ensures
        *r == value_element(*v, i as int),
{
    match v {
        JsonValue::Array(items) => if i < items.len() {
            &items[i]
        } else {
            null
        },
        _ => null,
    }
}


#[verifier::external_type_specification]
#[verifier::external_body]
pub struct ExJsonValue(serde_json::Value);

/// What `serde_json` parses `text` into, written as a `JsonValue`; `None`
/// when `text` is not JSON.
pub uninterp spec fn json_parse(text: Seq<char>) -> Option<JsonValue>;

/// Writes a `serde_json::Value` as a `JsonValue`, variant for variant; a
/// number keeps the text that `serde_json` prints for it. Claims nothing.
#[verifier::external_body]
fn json_value_of(v: &serde_json::Value) -> JsonValue {
    match v {
        serde_json::Value::Null => JsonValue::Null,
        serde_json::Value::Bool(b) => JsonValue::Bool(*b),
        serde_json::Value::Number(n) => JsonValue::Number(n.to_string()),
        serde_json::Value::String(x) => JsonValue::Str(x.clone()),
        serde_json::Value::Array(items) => JsonValue::Array(items.iter().map(json_value_of).collect()),
        serde_json::Value::Object(members) => JsonValue::Object(
            members.iter().map(|(k, x)| (k.clone(), json_value_of(x))).collect(),
        ),
    }
}

/// `serde_json::from_str::<serde_json::Value>(text)`, written as a
/// `JsonValue`. Claimed: the result is `json_parse(text)`, a function of the
/// text alone (`None` when `serde_json` reports an error).
#[verifier::external_body]
pub(crate) fn parse_json(text: &str) -> (r: Option<JsonValue>)
    ensures
        r == json_parse(text@),
{
    match serde_json::from_str::<serde_json::Value>(text) {
        Ok(v) => Some(json_value_of(&v)),
        Err(_) => None,
    }
}

/// `text` is a JSON object.
pub open spec fn is_object_text(text: Seq<char>) -> bool {
    json_parse(text) matches Some(JsonValue::Object(_))
}

/// The members of the JSON object that `text` is.
pub open spec fn object_members_of(text: Seq<char>) -> Seq<(String, JsonValue)> {
    match json_parse(text) {
        Some(JsonValue::Object(m)) => m@,
        _ => Seq::empty(),
    }
}

} // verus!
