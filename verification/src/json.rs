//! A JSON document as plain values, with the lookups that the RPC replies
//! need (`get`, `as_u64`, `as_str`, and reading an array of `u64`).
use vstd::prelude::*;
use vstd::string::*;
use crate::text::str_eq;

verus! {

/// A JSON number as the parser stores it: non-negative integers, negative
/// integers, and everything else (kept without its value: nothing here reads
/// a fractional number).
#[derive(Debug, Clone, Copy, PartialEq, Eq, Structural)]
pub enum JsonNumber {
    PosInt(u64),
    NegInt(i64),
    Float,
}

/// A JSON value. An object keeps its members in order, each key once.
#[derive(Debug)]
pub enum JsonValue {
    Null,
    Bool(bool),
    Number(JsonNumber),
    Str(String),
    Array(Vec<JsonValue>),
    Object(Vec<(String, JsonValue)>),
}

/// The value of the first member named `key`.
pub open spec fn member_value(members: Seq<(String, JsonValue)>, key: Seq<char>) -> Option<JsonValue>
    decreases members.len(),
{
    if members.len() == 0 {
        None
    } else if members[0].0@ == key {
        Some(members[0].1)
    } else {
        member_value(members.drop_first(), key)
    }
}

/// Member `key` of an object; nothing for any other kind of value.
pub open spec fn json_get(v: JsonValue, key: Seq<char>) -> Option<JsonValue> {
    match v {
        JsonValue::Object(members) => member_value(members@, key),
        _ => None,
    }
}

/// The value of a non-negative integer; nothing for anything else.
pub open spec fn json_u64(v: JsonValue) -> Option<u64> {
    match v {
        JsonValue::Number(JsonNumber::PosInt(n)) => Some(n),
        _ => None,
    }
}

/// The characters of a string value; nothing for anything else.
pub open spec fn json_text(v: JsonValue) -> Option<Seq<char>> {
    match v {
        JsonValue::Str(s) => Some(s@),
        _ => None,
    }
}

/// Reading a value as a list of `u64`: an array whose every element is a
/// non-negative integer.
pub open spec fn json_u64_list(v: JsonValue) -> Option<Seq<u64>> {
    match v {
        JsonValue::Array(items) => if forall|i: int|
            0 <= i < items@.len() ==> (#[trigger] json_u64(items@[i])) is Some {
            Some(Seq::new(items@.len(), |i: int| json_u64(items@[i])->0))
        } else {
            None
        },
        _ => None,
    }
}

proof fn lemma_member_value_index(members: Seq<(String, JsonValue)>, key: Seq<char>, k: int)
    requires
        0 <= k <= members.len(),
        forall|j: int| 0 <= j < k ==> (#[trigger] members[j]).0@ != key,
    ensures
        k < members.len() && members[k].0@ == key ==> member_value(members, key) == Some(
            members[k].1,
        ),
        k == members.len() ==> member_value(members, key) is None,
    decreases k,
{
    if k > 0 {
        lemma_member_value_index(members.drop_first(), key, k - 1);
        assert forall|j: int| 0 <= j < k - 1 implies (#[trigger] members.drop_first()[j]).0@
            != key by {
            assert(members.drop_first()[j] == members[j + 1]);
        }
    }
}

impl JsonValue {
    /// Member `key` of an object (`serde_json::Value::get` with a string key).
    pub fn get(&self, key: &str) -> (r: Option<&JsonValue>)
        ensures
            match r {
                Some(v) => json_get(*self, key@) == Some(*v),
                None => json_get(*self, key@) is None,
            },
    {
        match self {
            JsonValue::Object(members) => {
                let mut i: usize = 0;
                while i < members.len()
                    invariant
                        *self == JsonValue::Object(*members),
                        i <= members@.len(),
                        forall|j: int| 0 <= j < i ==> (#[trigger] members@[j]).0@ != key@,
                    decreases members.len() - i,
                {
                    if str_eq(members[i].0.as_str(), key) {
                        assert(members@[i as int].0@ == key@);
                        proof {
                            lemma_member_value_index(members@, key@, i as int);
                        }
                        return Some(&members[i].1);
                    }
                    i = i + 1;
                }
                proof {
                    lemma_member_value_index(members@, key@, i as int);
                }
                None
            },
            _ => None,
        }
    }

    /// The value of a non-negative integer (`serde_json::Value::as_u64`).
    pub fn as_u64(&self) -> (r: Option<u64>)
        ensures
            r == json_u64(*self),
    {
        match self {
            JsonValue::Number(JsonNumber::PosInt(n)) => Some(*n),
            _ => None,
        }
    }

    /// The text of a string value (`serde_json::Value::as_str`).
    pub fn as_str(&self) -> (r: Option<&str>)
        ensures
            match r {
                Some(s) => json_text(*self) == Some(s@),
                None => json_text(*self) is None,
            },
    {
        match self {
            JsonValue::Str(s) => Some(s.as_str()),
            _ => None,
        }
    }

    /// Reads the value as a list of `u64`, as deserializing it into a
    /// `Vec<u64>` does.
    pub fn as_u64_list(&self) -> (r: Option<Vec<u64>>)
        ensures
            match r {
                Some(v) => json_u64_list(*self) == Some(v@),
                None => json_u64_list(*self) is None,
            },
    {
        match self {
            JsonValue::Array(items) => {
                let mut out: Vec<u64> = Vec::new();
                let mut i: usize = 0;
                while i < items.len()
                    invariant
                        *self == JsonValue::Array(*items),
                        i <= items@.len(),
                        out@.len() == i,
                        forall|j: int| 0 <= j < i ==> (#[trigger] json_u64(items@[j])) == Some(
                            out@[j],
                        ),
                    decreases items.len() - i,
                {
                    match items[i].as_u64() {
                        Some(n) => out.push(n),
                        None => {
                            assert(json_u64(items@[i as int]) is None);
                            return None;
                        },
                    }
                    i = i + 1;
                }
                assert(out@ =~= Seq::new(items@.len(), |i: int| json_u64(items@[i])->0));
                Some(out)
            },
            _ => None,
        }
    }
}

} // verus!
