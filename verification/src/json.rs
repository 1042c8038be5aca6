use vstd::prelude::*;

use crate::status::Status;
use crate::text::text_eq;

verus! {

/// A JSON document as a request body carries it.
///
/// A number holds the value that it has as an `i64`, where it is an
/// integer in that range, and `None` otherwise (a fraction, or an
/// integer beyond `i64`). An object holds its members in the order in
/// which the body's map yields them, each key once.
#[derive(Debug)]
pub enum JsonValue {
    Null,
    Bool(bool),
    Number(Option<i64>),
    String(String),
    Array(Vec<JsonValue>),
    Object(Vec<(String, JsonValue)>),
}

/// The text of a JSON string, and nothing for any other value.
pub open spec fn json_str(v: JsonValue) -> Option<String> {
    match v {
        JsonValue::String(s) => Some(s),
        _ => None,
    }
}

/// The `i64` value of an integral JSON number, and nothing otherwise.
pub open spec fn json_i64(v: JsonValue) -> Option<i64> {
    match v {
        JsonValue::Number(n) => n,
        _ => None,
    }
}

/// The value of a JSON boolean, and nothing for any other value.
pub open spec fn json_bool(v: JsonValue) -> Option<bool> {
    match v {
        JsonValue::Bool(b) => Some(b),
        _ => None,
    }
}

/// The members of `entries` whose key is not `key`, in their order.
pub open spec fn without_key(entries: Seq<(String, JsonValue)>, key: Seq<char>) -> Seq<
    (String, JsonValue),
>
    decreases entries.len(),
{
    if entries.len() == 0 {
        entries
    } else {
        let rest = without_key(entries.drop_last(), key);
        if entries.last().0@ == key {
            rest
        } else {
            rest.push(entries.last())
        }
    }
}

/// No member of `without_key(entries, key)` has the key `key`.
pub proof fn lemma_without_key_drops_key(entries: Seq<(String, JsonValue)>, key: Seq<char>)
    ensures
        forall|i: int|
            0 <= i < without_key(entries, key).len() ==> #[trigger] without_key(
                entries,
                key,
            )[i].0@ != key,
    decreases entries.len(),
{
    if entries.len() > 0 {
        lemma_without_key_drops_key(entries.drop_last(), key);
        let rest = without_key(entries.drop_last(), key);
        if entries.last().0@ != key {
            assert forall|i: int| 0 <= i < rest.len() implies #[trigger] rest.push(
                entries.last(),
            )[i] == rest[i] by {}
        }
    }
}

impl JsonValue {
    /// Whether the value is a JSON object.
    pub fn is_object(&self) -> (r: bool)
        ensures
            r == (*self is Object),
    {
        match self {
            JsonValue::Object(_) => true,
            _ => false,
        }
    }

    /// The text of a string value, as `Value::as_str` gives it.
    pub fn as_str(&self) -> (r: Option<String>)
        ensures
            r == json_str(*self),
    {
        match self {
            JsonValue::String(s) => Some(s.clone()),
            _ => None,
        }
    }

    /// The value of an integral number, as `Value::as_i64` gives it.
    pub fn as_i64(&self) -> (r: Option<i64>)
        ensures
            r == json_i64(*self),
    {
        match self {
            JsonValue::Number(n) => *n,
            _ => None,
        }
    }

    /// The value of a boolean, as `Value::as_bool` gives it.
    pub fn as_bool(&self) -> (r: Option<bool>)
        ensures
            r == json_bool(*self),
    {
        match self {
            JsonValue::Bool(b) => Some(*b),
            _ => None,
        }
    }
}

/// The members of a patch body, without its `id`: a body that is not a
/// JSON object is refused with `BadRequest`.
pub fn patch_entries(body: JsonValue) -> (r: Result<Vec<(String, JsonValue)>, Status>)
    ensures
        match body {
            JsonValue::Object(es) => r matches Ok(v) && v@ == without_key(es@, "id"@),
            _ => r == Err::<Vec<(String, JsonValue)>, Status>(Status::BadRequest),
        },
{
    match body {
        JsonValue::Object(es) => {
            let ghost orig = es@;
            let n = es.len();
            let mut rest = es;
            let mut out: Vec<(String, JsonValue)> = Vec::new();
            let mut k: usize = 0;
            while rest.len() > 0
                invariant
                    k + rest@.len() == orig.len(),
                    orig.len() == n,
                    rest@ == orig.skip(k as int),
                    out@ == without_key(orig.take(k as int), "id"@),
                decreases rest@.len(),
            {
                let e = rest.remove(0);
                assert(orig.take(k + 1).drop_last() =~= orig.take(k as int));
                assert(orig.take(k + 1).last() == e);
                let is_id = text_eq(e.0.as_str(), "id");
                if !is_id {
                    out.push(e);
                }
                k = k + 1;
                assert(rest@ =~= orig.skip(k as int));
            }
            assert(orig.take(k as int) =~= orig);
            Ok(out)
        },
        _ => Err(Status::BadRequest),
    }
}

} // verus!
