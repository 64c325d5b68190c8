//! A plain model of JSON-shaped payloads.
//!
//! Raw remote payloads reach the engine as values of this type; callers
//! convert whatever their JSON reader produced into it. Numbers that are not
//! integers in `i64` range are carried as [`JsonValue::OtherNum`]: no schema
//! rule of this crate reads such a number's value.
use vstd::prelude::*;

use crate::strutil::str_eq;

verus! {

/// One JSON-shaped value. Object fields keep their order; keys are expected
/// to be unique, as they are in a JSON object.
#[derive(Debug)]
pub enum JsonValue {
    Null,
    Bool { b: bool },
    Int { i: i64 },
    /// A number that is not an integer representable in `i64`.
    OtherNum,
    Str { s: String },
    Arr { items: Vec<JsonValue> },
    Obj { fields: Vec<(String, JsonValue)> },
}

/// The value under the first occurrence of `key`.
pub open spec fn spec_obj_get(fields: Seq<(String, JsonValue)>, key: Seq<char>) -> Option<
    JsonValue,
>
    decreases fields.len(),
{
    if fields.len() == 0 {
        None
    } else if fields[0].0@ == key {
        Some(fields[0].1)
    } else {
        spec_obj_get(fields.subrange(1, fields.len() as int), key)
    }
}

/// Field lookup on an object's field list.
pub fn obj_get<'a>(fields: &'a Vec<(String, JsonValue)>, key: &str) -> (r: Option<&'a JsonValue>)
    ensures
        match r {
            Some(v) => spec_obj_get(fields@, key@) == Some(*v),
            None => spec_obj_get(fields@, key@) is None,
        },
{
    let n = fields.len();
    let mut i: usize = 0;
    proof {
        assert(fields@.subrange(0, n as int) =~= fields@);
    }
    while i < n
        invariant
            n == fields@.len(),
            0 <= i <= n,
            spec_obj_get(fields@, key@) == spec_obj_get(fields@.subrange(i as int, n as int), key@),
        decreases n - i,
    {
        proof {
            assert(fields@.subrange(i as int, n as int).subrange(
                1,
                (n - i) as int,
            ) =~= fields@.subrange(i as int + 1, n as int));
        }
        if str_eq(fields[i].0.as_str(), key) {
            return Some(&fields[i].1);
        }
        i += 1;
    }
    proof {
        assert(fields@.subrange(n as int, n as int) =~= Seq::<(String, JsonValue)>::empty());
    }
    None
}

/// The field lookup applied to a whole value: `None` unless it is an object
/// holding the key.
pub open spec fn spec_get(v: JsonValue, key: Seq<char>) -> Option<JsonValue> {
    match v {
        JsonValue::Obj { fields } => spec_obj_get(fields@, key),
        _ => None,
    }
}

/// Field lookup on any value: `None` when the value is not an object or the
/// key is absent.
pub fn get<'a>(v: &'a JsonValue, key: &str) -> (r: Option<&'a JsonValue>)
    ensures
        match r {
            Some(w) => spec_get(*v, key@) == Some(*w),
            None => spec_get(*v, key@) is None,
        },
{
    match v {
        JsonValue::Obj { fields } => obj_get(fields, key),
        _ => None,
    }
}

} // verus!
