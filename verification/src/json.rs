//! A JSON document modelled with plain values.
//!
//! The upstream service answers with JSON whose field typing is inconsistent:
//! numbers sometimes arrive as strings, optional fields come and go. The
//! decoding rules in this crate work over this model; the caller converts a
//! parsed document into it at the boundary.

use vstd::prelude::*;
use crate::strutil::parse_u32;
use crate::strutil::parse_u64;
use crate::strutil::spec_parse_u32;
use crate::strutil::spec_parse_u64;
use crate::strutil::str_eq;

verus! {

broadcast use vstd::seq::axiom_seq_index_decreases, vstd::std_specs::vec::axiom_vec_decreases_to_view;

/// A JSON value.
///
/// Numbers carry exactly the cases the decoding rules distinguish: a
/// nonnegative integer, a negative integer, or some other number (fractional
/// or out of range), whose exact value the rules never read.
#[derive(Debug)]
pub enum JsonValue {
    /// JSON `null`.
    Null,
    /// A boolean.
    Bool(bool),
    /// A nonnegative integer.
    UInt(u64),
    /// A negative integer.
    NegInt(i64),
    /// A number that is neither a nonnegative nor a negative integer.
    OtherNumber,
    /// A string.
    Str(String),
    /// An array of values.
    Array(Vec<JsonValue>),
    /// An object: a list of key-value pairs with distinct keys.
    Object(Vec<(String, JsonValue)>),
}

/// The mathematical shape of a JSON value: strings as character sequences,
/// arrays and objects as sequences.
#[verifier::ext_equal]
pub enum JsonModel {
    Null,
    Bool(bool),
    UInt(u64),
    NegInt(i64),
    OtherNumber,
    Str(Seq<char>),
    Array(Seq<JsonModel>),
    Object(Seq<(Seq<char>, JsonModel)>),
}

/// The model of an array's elements. The range test keeps the recursion
/// inside the sequence, where it is decreasing.
pub open spec fn arr_model(elems: Seq<JsonValue>) -> Seq<JsonModel>
    decreases elems,
{
    Seq::new(
        elems.len(),
        |i: int|
            if 0 <= i < elems.len() {
                json_model(elems[i])
            } else {
                JsonModel::Null
            },
    )
}

/// The model of an object's entries. The range test keeps the recursion
/// inside the sequence, where it is decreasing.
pub open spec fn obj_model(entries: Seq<(String, JsonValue)>) -> Seq<(Seq<char>, JsonModel)>
    decreases entries,
{
    Seq::new(
        entries.len(),
        |i: int|
            if 0 <= i < entries.len() {
                (entries[i].0@, json_model(entries[i].1))
            } else {
                (Seq::empty(), JsonModel::Null)
            },
    )
}

/// The model of a JSON value.
pub open spec fn json_model(v: JsonValue) -> JsonModel
    decreases v,
{
    match v {
        JsonValue::Null => JsonModel::Null,
        JsonValue::Bool(b) => JsonModel::Bool(b),
        JsonValue::UInt(n) => JsonModel::UInt(n),
        JsonValue::NegInt(n) => JsonModel::NegInt(n),
        JsonValue::OtherNumber => JsonModel::OtherNumber,
        JsonValue::Str(s) => JsonModel::Str(s@),
        JsonValue::Array(elems) => JsonModel::Array(arr_model(elems@)),
        JsonValue::Object(entries) => JsonModel::Object(obj_model(entries@)),
    }
}

impl View for JsonValue {
    type V = JsonModel;

    open spec fn view(&self) -> JsonModel {
        json_model(*self)
    }
}

/// The first value bound to `key` in an object's entry list.
pub open spec fn spec_obj_get(entries: Seq<(Seq<char>, JsonModel)>, key: Seq<char>) -> Option<
    JsonModel,
>
    decreases entries.len(),
{
    if entries.len() == 0 {
        None
    } else if entries[0].0 == key {
        Some(entries[0].1)
    } else {
        spec_obj_get(entries.skip(1), key)
    }
}

/// Field lookup: the value bound to `key` when `m` is an object holding it.
pub open spec fn spec_json_get(m: JsonModel, key: Seq<char>) -> Option<JsonModel> {
    match m {
        JsonModel::Object(entries) => spec_obj_get(entries, key),
        _ => None,
    }
}

/// The string content of `m`, when `m` is a string.
pub open spec fn spec_as_str(m: JsonModel) -> Option<Seq<char>> {
    match m {
        JsonModel::Str(s) => Some(s),
        _ => None,
    }
}

/// What lenient decoding of `m` as a `u64` yields: a nonnegative integer is
/// taken as is, a string is parsed as a decimal number, and every other shape
/// (including a negative or fractional number) decodes to nothing.
pub open spec fn spec_lenient_u64(m: JsonModel) -> Option<u64> {
    match m {
        JsonModel::UInt(n) => Some(n),
        JsonModel::Str(s) => spec_parse_u64(s),
        _ => None,
    }
}

/// As `spec_lenient_u64`, for `u32`; a nonnegative integer above `u32::MAX`
/// decodes to nothing.
pub open spec fn spec_lenient_u32(m: JsonModel) -> Option<u32> {
    match m {
        JsonModel::UInt(n) => if n <= u32::MAX {
            Some(n as u32)
        } else {
            None
        },
        JsonModel::Str(s) => spec_parse_u32(s),
        _ => None,
    }
}

/// Entries before the first match do not change what lookup finds.
proof fn lemma_obj_get_skip(entries: Seq<(Seq<char>, JsonModel)>, key: Seq<char>, i: int)
    requires
        0 <= i <= entries.len(),
        forall|k: int| 0 <= k < i ==> #[trigger] entries[k].0 != key,
    ensures
        spec_obj_get(entries, key) == spec_obj_get(entries.skip(i), key),
    decreases i,
{
    if i > 0 {
        assert(entries[0].0 != key);
        assert(forall|k: int|
            0 <= k < i - 1 ==> #[trigger] entries.skip(1)[k].0 == entries[k + 1].0);
        lemma_obj_get_skip(entries.skip(1), key, i - 1);
        assert(entries.skip(1).skip(i - 1) =~= entries.skip(i));
    } else {
        assert(entries.skip(0) =~= entries);
    }
}

impl JsonValue {
    /// Looks up a field of an object; anything that is not an object holding
    /// the key yields `None`.
    pub fn get<'a>(&'a self, key: &str) -> (r: Option<&'a JsonValue>)
        ensures
            match r {
                Some(v) => spec_json_get(self@, key@) == Some(v@),
                None => spec_json_get(self@, key@) is None,
            },
    {
        match self {
            JsonValue::Object(entries) => {
                let ghost ments = obj_model(entries@);
                let mut i: usize = 0;
                while i < entries.len()
                    invariant
                        0 <= i <= ments.len(),
                        ments == obj_model(entries@),
                        ments.len() == entries@.len(),
                        self@ == JsonModel::Object(ments),
                        forall|k: int| 0 <= k < i ==> #[trigger] ments[k].0 != key@,
                    decreases entries@.len() - i,
                {
                    if str_eq(entries[i].0.as_str(), key) {
                        proof {
                            assert(ments[i as int].0 == key@);
                            lemma_obj_get_skip(ments, key@, i as int);
                            assert(ments.skip(i as int)[0] == ments[i as int]);
                            assert(spec_obj_get(ments, key@) == Some(ments[i as int].1));
                            assert(ments[i as int].1 == entries@[i as int].1@);
                        }
                        return Some(&entries[i].1);
                    }
                    proof {
                        assert(ments[i as int].0 == entries@[i as int].0@);
                    }
                    i += 1;
                }
                proof {
                    lemma_obj_get_skip(ments, key@, ments.len() as int);
                }
                None
            },
            _ => None,
        }
    }

    /// The string behind `self`, when `self` is a string.
    pub fn as_str<'a>(&'a self) -> (r: Option<&'a String>)
        ensures
            match r {
                Some(s) => spec_as_str(self@) == Some(s@),
                None => spec_as_str(self@) is None,
            },
    {
        match self {
            JsonValue::Str(s) => Some(s),
            _ => None,
        }
    }

    /// The number behind `self`, when `self` is a nonnegative integer.
    pub fn as_u64(&self) -> (r: Option<u64>)
        ensures
            match self@ {
                JsonModel::UInt(n) => r == Some(n),
                _ => r is None,
            },
    {
        match self {
            JsonValue::UInt(n) => Some(*n),
            _ => None,
        }
    }

    /// Whether `self` is JSON `null`.
    pub fn is_null(&self) -> (r: bool)
        ensures
            r == (self@ is Null),
    {
        match self {
            JsonValue::Null => true,
            _ => false,
        }
    }

    /// Whether `self` is an array.
    pub fn is_array(&self) -> (r: bool)
        ensures
            r == (self@ is Array),
    {
        match self {
            JsonValue::Array(_) => true,
            _ => false,
        }
    }

    /// Whether `self` is an object.
    pub fn is_object(&self) -> (r: bool)
        ensures
            r == (self@ is Object),
    {
        match self {
            JsonValue::Object(_) => true,
            _ => false,
        }
    }

    /// The elements behind `self`, when `self` is an array.
    pub fn as_array<'a>(&'a self) -> (r: Option<&'a Vec<JsonValue>>)
        ensures
            match r {
                Some(elems) => self@ is Array && self@->Array_0 == arr_model(elems@),
                None => !(self@ is Array),
            },
    {
        match self {
            JsonValue::Array(elems) => Some(elems),
            _ => None,
        }
    }

    /// The entries behind `self`, when `self` is an object.
    pub fn as_object<'a>(&'a self) -> (r: Option<&'a Vec<(String, JsonValue)>>)
        ensures
            match r {
                Some(entries) => self@ is Object && self@->Object_0 == obj_model(entries@),
                None => !(self@ is Object),
            },
    {
        match self {
            JsonValue::Object(entries) => Some(entries),
            _ => None,
        }
    }

    /// A deep copy whose model is the original's.
    pub fn duplicate(&self) -> (r: JsonValue)
        ensures
            r@ == self@,
        decreases *self,
    {
        match self {
            JsonValue::Null => JsonValue::Null,
            JsonValue::Bool(b) => JsonValue::Bool(*b),
            JsonValue::UInt(n) => JsonValue::UInt(*n),
            JsonValue::NegInt(n) => JsonValue::NegInt(*n),
            JsonValue::OtherNumber => JsonValue::OtherNumber,
            JsonValue::Str(s) => JsonValue::Str(s.clone()),
            JsonValue::Array(elems) => {
                let mut out: Vec<JsonValue> = Vec::new();
                let mut i: usize = 0;
                while i < elems.len()
                    invariant
                        0 <= i <= elems@.len(),
                        out@.len() == i,
                        forall|k: int| 0 <= k < i ==> #[trigger] out@[k]@ == elems@[k]@,
                        *self is Array && self->Array_0 == *elems,
                    decreases elems@.len() - i,
                {
                    out.push(elems[i].duplicate());
                    i += 1;
                }
                proof {
                    assert forall|k: int| 0 <= k < elems@.len() implies arr_model(out@)[k]
                        == arr_model(elems@)[k] by {
                        assert(out@[k]@ == elems@[k]@);
                    }
                    assert(arr_model(out@) =~= arr_model(elems@));
                }
                JsonValue::Array(out)
            },
            JsonValue::Object(entries) => {
                let mut out: Vec<(String, JsonValue)> = Vec::new();
                let mut i: usize = 0;
                while i < entries.len()
                    invariant
                        0 <= i <= entries@.len(),
                        out@.len() == i,
                        forall|k: int|
                            0 <= k < i ==> (#[trigger] out@[k]).0@ == entries@[k].0@ && out@[k].1@
                                == entries@[k].1@,
                        *self is Object && self->Object_0 == *entries,
                    decreases entries@.len() - i,
                {
                    out.push((entries[i].0.clone(), entries[i].1.duplicate()));
                    i += 1;
                }
                proof {
                    assert forall|k: int| 0 <= k < entries@.len() implies obj_model(out@)[k]
                        == obj_model(entries@)[k] by {
                        assert(out@[k].0@ == entries@[k].0@ && out@[k].1@ == entries@[k].1@);
                    }
                    assert(obj_model(out@) =~= obj_model(entries@));
                }
                JsonValue::Object(out)
            },
        }
    }
}

/// Lenient decoding of a value as a `u64`: a nonnegative integer is taken as
/// is, a decimal string is parsed, everything else yields `None`.
pub fn lenient_u64(v: &JsonValue) -> (r: Option<u64>)
    ensures
        r == spec_lenient_u64(v@),
{
    match v {
        JsonValue::UInt(n) => Some(*n),
        JsonValue::Str(s) => parse_u64(s.as_str()),
        _ => None,
    }
}

/// Lenient decoding of a value as a `u32`: a nonnegative integer in range is
/// taken as is, a decimal string is parsed, everything else yields `None`.
pub fn lenient_u32(v: &JsonValue) -> (r: Option<u32>)
    ensures
        r == spec_lenient_u32(v@),
{
    match v {
        JsonValue::UInt(n) => {
            if *n <= u32::MAX as u64 {
                Some(*n as u32)
            } else {
                None
            }
        },
        JsonValue::Str(s) => parse_u32(s.as_str()),
        _ => None,
    }
}

} // verus!
