//! A structured-value model for upstream payloads.
//!
//! Upstream responses arrive as arbitrarily-shaped JSON. The engine's logic
//! only ever reads object fields, strings, integers, and arrays, so the
//! library models a payload with its own value type holding those as plain
//! data. Non-integral numbers are carried as their decimal text: the engine
//! never computes with them, it only passes them along.
use vstd::prelude::*;

verus! {

/// A structured value: the shape of an upstream JSON payload as the engine
/// reads it.
pub enum JsonVal {
    Null,
    Bool(bool),
    /// A number with an integral value that fits `i64`.
    Int(i64),
    /// Any other number, carried as its decimal text.
    Num(String),
    Str(String),
    Arr(Vec<JsonVal>),
    /// An object: field names with values. Field names are unique.
    Obj(Vec<(String, JsonVal)>),
}

/// The value of the first field named `key`, if any.
pub open spec fn obj_lookup(fields: Seq<(String, JsonVal)>, key: Seq<char>) -> Option<JsonVal>
    decreases fields.len(),
{
    if fields.len() == 0 {
        None
    } else if fields[0].0@ == key {
        Some(fields[0].1)
    } else {
        obj_lookup(fields.drop_first(), key)
    }
}

/// Field lookup on a value: `None` on anything but an object with that field.
pub open spec fn json_get(v: JsonVal, key: Seq<char>) -> Option<JsonVal> {
    match v {
        JsonVal::Obj(fields) => obj_lookup(fields@, key),
        _ => None,
    }
}

/// Whether the value is a number (integral or not).
pub open spec fn spec_is_number(v: JsonVal) -> bool {
    match v {
        JsonVal::Int(_) => true,
        JsonVal::Num(_) => true,
        _ => false,
    }
}

pub(crate) proof fn lemma_obj_lookup_skip(fields: Seq<(String, JsonVal)>, key: Seq<char>, j: int)
    requires
        0 <= j <= fields.len(),
        forall|k: int| 0 <= k < j ==> (#[trigger] fields[k].0)@ != key,
    ensures
        obj_lookup(fields, key) == obj_lookup(fields.skip(j), key),
    decreases j,
{
    if j > 0 {
        assert(fields[0].0@ != key);
        assert(fields.drop_first() =~= fields.skip(1));
        lemma_obj_lookup_skip(fields.skip(1), key, j - 1);
        assert(fields.skip(1).skip(j - 1) =~= fields.skip(j));
    } else {
        assert(fields.skip(0) =~= fields);
    }
}

impl JsonVal {
    /// The value of the field named `key`, when this is an object holding it.
    pub fn get<'a>(&'a self, key: &String) -> (r: Option<&'a JsonVal>)
        ensures
            match r {
                Some(v) => json_get(*self, key@) == Some(*v),
                None => json_get(*self, key@) is None,
            },
    {
        match self {
            JsonVal::Obj(fields) => {
                let ghost fs = fields@;
                let mut j: usize = 0;
                while j < fields.len()
                    invariant
                        *self == JsonVal::Obj(*fields),
                        j <= fs.len(),
                        fs == fields@,
                        forall|k: int| 0 <= k < j ==> (#[trigger] fs[k].0)@ != key@,
                    decreases fs.len() - j,
                {
                    if fields[j].0.eq(key) {
                        proof {
                            lemma_obj_lookup_skip(fs, key@, j as int);
                            assert(fs.skip(j as int)[0] == fs[j as int]);
                            assert(fs.skip(j as int).len() > 0);
                        }
                        return Some(&fields[j].1);
                    }
                    j = j + 1;
                }
                proof {
                    lemma_obj_lookup_skip(fs, key@, fs.len() as int);
                    assert(fs.skip(fs.len() as int).len() == 0);
                }
                None
            },
            _ => None,
        }
    }

    /// The string content, when this is a string value.
    pub fn as_str<'a>(&'a self) -> (r: Option<&'a String>)
        ensures
            match r {
                Some(s) => *self == JsonVal::Str(*s),
                None => !(self is Str),
            },
    {
        match self {
            JsonVal::Str(s) => Some(s),
            _ => None,
        }
    }

    /// The integral value, when this is a number with one.
    pub fn as_i64(&self) -> (r: Option<i64>)
        ensures
            match r {
                Some(n) => *self == JsonVal::Int(n),
                None => !(self is Int),
            },
    {
        match self {
            JsonVal::Int(n) => Some(*n),
            _ => None,
        }
    }

    /// Whether this is a number.
    pub fn is_number(&self) -> (r: bool)
        ensures
            r == spec_is_number(*self),
    {
        match self {
            JsonVal::Int(_) => true,
            JsonVal::Num(_) => true,
            _ => false,
        }
    }

    /// The elements, when this is an array.
    pub fn as_array<'a>(&'a self) -> (r: Option<&'a Vec<JsonVal>>)
        ensures
            match r {
                Some(a) => *self == JsonVal::Arr(*a),
                None => !(self is Arr),
            },
    {
        match self {
            JsonVal::Arr(a) => Some(a),
            _ => None,
        }
    }

}

} // verus!
