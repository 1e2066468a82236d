//! The JSON value model the gateway works on.
//!
//! A value parsed from a request body (or from a row returned by the
//! database) is held in this closed tree.  Numbers keep the distinction the
//! wire format forces: signed integers, unsigned integers too large for
//! `i64`, and floating-point numbers, the last carried by their exact
//! source text so that no float arithmetic is ever done here.

use vstd::prelude::*;

verus! {

/// A JSON value.  Object members keep the order in which they were handed
/// over (values built by the parser arrive with members ordered by key);
/// a lookup takes the first member with the wanted key.
#[derive(Debug, PartialEq)]
pub enum JsonVal {
    Null,
    Bool(bool),
    Int(i64),
    Uint(u64),
    Float(String),
    Str(String),
    Arr(Vec<JsonVal>),
    Obj(Vec<(String, JsonVal)>),
}

impl JsonVal {
    /// True of a boolean value.
    pub fn is_boolean(&self) -> (r: bool)
        ensures
            r == (self is Bool),
    {
        match self {
            JsonVal::Bool(_) => true,
            _ => false,
        }
    }

    /// The boolean payload, if the value is a boolean.
    pub fn as_bool(&self) -> (r: Option<bool>)
        ensures
            r == (match *self {
                JsonVal::Bool(b) => Some(b),
                _ => None::<bool>,
            }),
    {
        match self {
            JsonVal::Bool(b) => Some(*b),
            _ => None,
        }
    }

    /// True of a number that is representable as `i64`.
    pub fn is_i64(&self) -> (r: bool)
        ensures
            r == (self is Int),
    {
        match self {
            JsonVal::Int(_) => true,
            _ => false,
        }
    }

    /// The number as `i64`, when it is representable there.
    pub fn as_i64(&self) -> (r: Option<i64>)
        ensures
            r == (match *self {
                JsonVal::Int(i) => Some(i),
                _ => None::<i64>,
            }),
    {
        match self {
            JsonVal::Int(i) => Some(*i),
            _ => None,
        }
    }

    /// The number as `u64`: unsigned numbers directly, signed ones when
    /// they are not negative.
    pub fn as_u64(&self) -> (r: Option<u64>)
        ensures
            r == spec_as_u64(*self),
    {
        match self {
            JsonVal::Uint(u) => Some(*u),
            JsonVal::Int(i) => if *i >= 0 {
                Some(*i as u64)
            } else {
                None
            },
            _ => None,
        }
    }

    /// True of a floating-point number.
    pub fn is_f64(&self) -> (r: bool)
        ensures
            r == (self is Float),
    {
        match self {
            JsonVal::Float(_) => true,
            _ => false,
        }
    }

    /// True of any number.
    pub fn is_number(&self) -> (r: bool)
        ensures
            r == (self is Int || self is Uint || self is Float),
    {
        match self {
            JsonVal::Int(_) => true,
            JsonVal::Uint(_) => true,
            JsonVal::Float(_) => true,
            _ => false,
        }
    }

    /// True of the null value.
    pub fn is_null(&self) -> (r: bool)
        ensures
            r == (self is Null),
    {
        match self {
            JsonVal::Null => true,
            _ => false,
        }
    }

    /// True of a string.
    pub fn is_string(&self) -> (r: bool)
        ensures
            r == (self is Str),
    {
        match self {
            JsonVal::Str(_) => true,
            _ => false,
        }
    }

    /// The string payload, if the value is a string.
    pub fn as_str(&self) -> (r: Option<&String>)
        ensures
            (match *self {
                JsonVal::Str(_) => r is Some && *r->0 == self->Str_0,
                _ => r is None,
            }),
    {
        match self {
            JsonVal::Str(s) => Some(s),
            _ => None,
        }
    }

    /// True of an array.
    pub fn is_array(&self) -> (r: bool)
        ensures
            r == (self is Arr),
    {
        match self {
            JsonVal::Arr(_) => true,
            _ => false,
        }
    }

    /// The element vector, if the value is an array.
    pub fn as_array(&self) -> (r: Option<&Vec<JsonVal>>)
        ensures
            (match *self {
                JsonVal::Arr(_) => r is Some && *r->0 == self->Arr_0,
                _ => r is None,
            }),
    {
        match self {
            JsonVal::Arr(a) => Some(a),
            _ => None,
        }
    }

    /// True of an object.
    pub fn is_object(&self) -> (r: bool)
        ensures
            r == (self is Obj),
    {
        match self {
            JsonVal::Obj(_) => true,
            _ => false,
        }
    }

    /// True when the value is an object with a member named `key`.
    pub fn has_key(&self, key: &str) -> (r: bool)
        ensures
            r == (self is Obj && spec_obj_get(self->Obj_0@, key@) is Some),
    {
        match self {
            JsonVal::Obj(entries) => obj_lookup(entries, key).is_some(),
            _ => false,
        }
    }

    /// The first member with the wanted key, if the value is an object
    /// holding one.
    pub fn get<'a>(&'a self, key: &str) -> (r: Option<&'a JsonVal>)
        ensures
            (match *self {
                JsonVal::Obj(entries) => (match spec_obj_get(entries@, key@) {
                    Some(v) => r is Some && *r->0 == v,
                    None => r is None,
                }),
                _ => r is None,
            }),
    {
        match self {
            JsonVal::Obj(entries) => obj_lookup(entries, key),
            _ => None,
        }
    }
}

/// What `as_u64` answers: the value as an unsigned 64-bit number, where it
/// has one.
pub open spec fn spec_as_u64(v: JsonVal) -> Option<u64> {
    match v {
        JsonVal::Uint(u) => Some(u),
        JsonVal::Int(i) => if i >= 0 {
            Some(i as u64)
        } else {
            None
        },
        _ => None,
    }
}

/// The first member of `entries` whose key reads `key`, scanned from the
/// front.
pub open spec fn spec_obj_get(entries: Seq<(String, JsonVal)>, key: Seq<char>) -> Option<JsonVal>
    decreases entries.len(),
{
    if entries.len() == 0 {
        None
    } else if entries[0].0@ == key {
        Some(entries[0].1)
    } else {
        spec_obj_get(entries.drop_first(), key)
    }
}

#[verifier::external_type_specification]
#[verifier::external_body]
pub struct ExValue(serde_json::Value);

/// Names what `serde_json::from_str` answers for a piece of text: the
/// value it reads, or the rendering of its parse error.
pub uninterp spec fn json_of(s: Seq<char>) -> Result<JsonVal, Seq<char>>;

/// Relies on the variant accessors of `serde_json::Value`: each arm moves
/// one variant's payload into the model, numbers by their narrowest
/// reading and other floating-point numbers by their own writing.
#[verifier::external_body]
fn from_json_value(v: &serde_json::Value) -> JsonVal {
    match v {
        serde_json::Value::Null => JsonVal::Null,
        serde_json::Value::Bool(b) => JsonVal::Bool(*b),
        serde_json::Value::Number(n) => match (n.as_i64(), n.as_u64()) {
            (Some(i), _) => JsonVal::Int(i),
            (None, Some(u)) => JsonVal::Uint(u),
            _ => JsonVal::Float(n.to_string()),
        },
        serde_json::Value::String(s) => JsonVal::Str(s.clone()),
        serde_json::Value::Array(a) => JsonVal::Arr(a.iter().map(from_json_value).collect()),
        serde_json::Value::Object(m) => JsonVal::Obj(
            m.iter().map(|(k, w)| (k.clone(), from_json_value(w))).collect(),
        ),
    }
}

/// Relies on `serde_json::from_str`: what a piece of text reads as, or
/// what its parse error says, is a function of the text alone.
#[verifier::external_body]
pub(crate) fn parse_json_text(s: &str) -> (r: Result<JsonVal, String>)
    ensures
        (r matches Ok(v) ==> json_of(s@) == Ok::<JsonVal, Seq<char>>(v)),
        (r matches Err(e) ==> json_of(s@) == Err::<JsonVal, Seq<char>>(e@)),
{
    match serde_json::from_str::<serde_json::Value>(s) {
        Ok(v) => Ok(from_json_value(&v)),
        Err(e) => Err(e.to_string()),
    }
}

/// Scan for the first member with the wanted key.
fn obj_lookup<'a>(entries: &'a Vec<(String, JsonVal)>, key: &str) -> (r: Option<&'a JsonVal>)
    ensures
        (match spec_obj_get(entries@, key@) {
            Some(v) => r is Some && *r->0 == v,
            None => r is None,
        }),
{
    let owned: String = key.to_owned();
    let n = entries.len();
    proof {
        assert(entries@.skip(0) =~= entries@);
    }
    for i in 0..n
        invariant
            n == entries@.len(),
            owned@ == key@,
            spec_obj_get(entries@, key@) == spec_obj_get(entries@.skip(i as int), key@),
    {
        proof {
            assert(entries@.skip(i as int)[0] == entries@[i as int]);
        }
        if entries[i].0 == owned {
            return Some(&entries[i].1);
        }
        proof {
            assert(entries@.skip(i as int).drop_first() =~= entries@.skip(i as int + 1));
        }
    }
    proof {
        assert(entries@.skip(n as int) =~= Seq::<(String, JsonVal)>::empty());
    }
    None
}

} // verus!
