use vstd::prelude::*;

use crate::text::text_eq;

verus! {

broadcast use vstd::std_specs::vec::axiom_vec_index_decreases;

/// A JSON document as the protocol carries it.
///
/// Numbers are kept as unsigned or signed 64-bit integers where they fit;
/// any other number keeps its decimal text. Object members keep the order
/// in which they were written.
#[derive(Debug, PartialEq)]
pub enum Json {
    Null,
    Bool(bool),
    UInt(u64),
    Int(i64),
    Decimal(String),
    Str(String),
    Array(Vec<Json>),
    Object(Vec<(String, Json)>),
}

/// The mathematical value of a [`Json`] document.
pub ghost enum JsonValue {
    Null,
    Bool(bool),
    Num(int),
    Decimal(Seq<char>),
    Str(Seq<char>),
    Array(Seq<JsonValue>),
    Object(Seq<Seq<char>>, Seq<JsonValue>),
}

impl View for Json {
    type V = JsonValue;

    open spec fn view(&self) -> JsonValue
        decreases self,
    {
        match self {
            Json::Null => JsonValue::Null,
            Json::Bool(b) => JsonValue::Bool(*b),
            Json::UInt(n) => JsonValue::Num(*n as int),
            Json::Int(n) => JsonValue::Num(*n as int),
            Json::Decimal(s) => JsonValue::Decimal(s@),
            Json::Str(s) => JsonValue::Str(s@),
            Json::Array(items) => JsonValue::Array(
                Seq::new(
                    items.len() as nat,
                    |i: int|
                        if 0 <= i < items.len() {
                            proof {
                                assert(decreases_to!(items => items[i]));
                            }
                            items[i]@
                        } else {
                            JsonValue::Null
                        },
                ),
            ),
            Json::Object(members) => JsonValue::Object(
                Seq::new(
                    members.len() as nat,
                    |i: int|
                        if 0 <= i < members.len() {
                            members[i].0@
                        } else {
                            Seq::empty()
                        },
                ),
                Seq::new(
                    members.len() as nat,
                    |i: int|
                        if 0 <= i < members.len() {
                            proof {
                                assert(decreases_to!(members => members[i]));
                            }
                            members[i].1@
                        } else {
                            JsonValue::Null
                        },
                ),
            ),
        }
    }
}

/// The value of the first member at or after `i` named `key`, for an
/// object with member names `keys` and values `values`.
pub open spec fn member_from(keys: Seq<Seq<char>>, values: Seq<JsonValue>, key: Seq<char>, i: int) -> Option<
    JsonValue,
>
    decreases keys.len() - i,
{
    if i < 0 || i >= keys.len() {
        None
    } else if keys[i] == key {
        Some(values[i])
    } else {
        member_from(keys, values, key, i + 1)
    }
}

/// The value of member `key` of `v`: the first one of that name, if `v` is
/// an object that has one.
pub open spec fn field(v: JsonValue, key: Seq<char>) -> Option<JsonValue> {
    match v {
        JsonValue::Object(keys, values) => member_from(keys, values, key, 0),
        _ => None,
    }
}

impl Json {
    /// The value of member `key`, if this is an object that has one.
    pub fn get(&self, key: &str) -> (r: Option<&Json>)
        ensures
            match field(self@, key@) {
                None => r is None,
                Some(v) => r matches Some(x) && x@ == v,
            },
    {
        match self {
            Json::Object(members) => {
                let ghost keys = self@->Object_0;
                let ghost values = self@->Object_1;
                let mut i: usize = 0;
                while i < members.len()
                    invariant
                        keys.len() == values.len() == members.len(),
                        forall|k: int| 0 <= k < members.len() ==> #[trigger] keys[k] == members[k].0@,
                        forall|k: int| 0 <= k < members.len() ==> #[trigger] values[k] == members[k].1@,
                        i <= members.len(),
                        field(self@, key@) == member_from(keys, values, key@, i as int),
                    decreases members.len() - i,
                {
                    if text_eq(members[i].0.as_str(), key) {
                        return Some(&members[i].1);
                    }
                    i = i + 1;
                }
                None
            },
            _ => None,
        }
    }

    /// A copy of this document.
    pub fn deep_copy(&self) -> (r: Json)
        ensures
            r@ == self@,
        decreases self,
    {
        match self {
            Json::Null => Json::Null,
            Json::Bool(b) => Json::Bool(*b),
            Json::UInt(n) => Json::UInt(*n),
            Json::Int(n) => Json::Int(*n),
            Json::Decimal(s) => Json::Decimal(s.clone()),
            Json::Str(s) => Json::Str(s.clone()),
            Json::Array(items) => {
                let mut out: Vec<Json> = Vec::new();
                let mut i: usize = 0;
                while i < items.len()
                    invariant
                        *self == Json::Array(*items),
                        i <= items.len(),
                        out.len() == i,
                        forall|k: int| 0 <= k < i ==> (#[trigger] out[k])@ == items[k]@,
                    decreases items.len() - i,
                {
                    proof {
                        assert(decreases_to!(items => items[i as int]));
                        assert(decreases_to!(*self => (*self)->Array_0));
                        assert(decreases_to!(*self => items[i as int]));
                    }
                    let item = items[i].deep_copy();
                    out.push(item);
                    i = i + 1;
                }
                let r = Json::Array(out);
                assert(r@->Array_0 =~= self@->Array_0);
                r
            },
            Json::Object(members) => {
                let mut out: Vec<(String, Json)> = Vec::new();
                let mut i: usize = 0;
                while i < members.len()
                    invariant
                        *self == Json::Object(*members),
                        i <= members.len(),
                        out.len() == i,
                        forall|k: int|
                            0 <= k < i ==> (#[trigger] out[k]).0@ == members[k].0@ && out[k].1@
                                == members[k].1@,
                    decreases members.len() - i,
                {
                    proof {
                        assert(decreases_to!(members => members[i as int]));
                        assert(decreases_to!(*self => (*self)->Object_0));
                        assert(decreases_to!(*self => members[i as int]));
                        assert(decreases_to!(*self => members[i as int].1));
                    }
                    let value = members[i].1.deep_copy();
                    out.push((members[i].0.clone(), value));
                    i = i + 1;
                }
                let r = Json::Object(out);
                assert(r@->Object_0 =~= self@->Object_0);
                assert(r@->Object_1 =~= self@->Object_1);
                r
            },
        }
    }
}

} // verus!
