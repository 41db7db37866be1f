//! The top-level fields of a JSON object, as plain values.
use vstd::prelude::*;

verus! {

/// One field value of a JSON object. A number carries its exact `i64` value
/// where it is an integer in that range, and always its decimal text.
#[derive(Clone, Debug, PartialEq)]
pub enum JsonField {
    Null,
    Bool(bool),
    Number { int: Option<i64>, text: Vec<u8> },
    Text(String),
    Nested,
}

/// What `serde_json::from_slice` reads from a payload that holds a JSON
/// object: its fields in the order the map yields them; `None` for any
/// other payload.
pub uninterp spec fn json_object_of(b: Seq<u8>) -> Option<Vec<(String, JsonField)>>;

/// Relies on `serde_json::from_slice` to read a JSON object, and on
/// `serde_json::Number::as_i64` and its `Display` for each number.
#[verifier::external_body]
pub(crate) fn decode_object(b: &[u8]) -> (r: Option<Vec<(String, JsonField)>>)
    ensures
        r == json_object_of(b@),
{
    let map: serde_json::Map<String, serde_json::Value> = serde_json::from_slice(b).ok()?;
    Some(map.into_iter().map(|(k, v)| (k, match v {
        serde_json::Value::Null => JsonField::Null,
        serde_json::Value::Bool(x) => JsonField::Bool(x),
        serde_json::Value::Number(n) => JsonField::Number { int: n.as_i64(), text: n.to_string().into_bytes() },
        serde_json::Value::String(s) => JsonField::Text(s),
        serde_json::Value::Array(_) | serde_json::Value::Object(_) => JsonField::Nested,
    })).collect())
}

/// The value of the first field named `key`.
pub open spec fn find_field(f: Seq<(String, JsonField)>, key: Seq<char>) -> Option<JsonField>
    decreases f.len(),
{
    if f.len() == 0 {
        None
    } else if f[0].0@ == key {
        Some(f[0].1)
    } else {
        find_field(f.drop_first(), key)
    }
}

/// The position of the first field named `key`.
pub fn find(fields: &Vec<(String, JsonField)>, key: &String) -> (r: Option<usize>)
    ensures
        match r {
            Some(i) => i < fields@.len() && find_field(fields@, key@) == Some(fields@[i as int].1),
            None => find_field(fields@, key@) is None,
        },
{
    let mut i: usize = 0;
    proof {
        assert(fields@.subrange(0, fields@.len() as int) =~= fields@);
    }
    while i < fields.len()
        invariant
            i <= fields@.len(),
            find_field(fields@, key@) == find_field(fields@.subrange(i as int, fields@.len() as int), key@),
        decreases fields@.len() - i,
    {
        let rest = Ghost(fields@.subrange(i as int, fields@.len() as int));
        if fields[i].0 == *key {
            return Some(i);
        }
        proof {
            assert(rest@.drop_first() =~= fields@.subrange(i + 1, fields@.len() as int));
        }
        i = i + 1;
    }
    None
}

} // verus!
