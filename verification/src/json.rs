//! A JSON document as plain library values, with verified accessors.
//!
//! The upstream payloads arrive as text; `parse_json` turns the text into a
//! `JsonValue` tree by calling serde_json, and every walk over the tree after
//! that point is verified library code.

use vstd::prelude::*;

verus! {

/// A decoded JSON document. Object entries keep unique keys in the order
/// serde_json's map iterates them; a number outside the unsigned 64-bit
/// range is kept only as `NumOther`, since the library never reads one.
#[derive(Debug)]
pub enum JsonValue {
    Null,
    Bool(bool),
    Num(u64),
    NumOther,
    Str(String),
    Arr(Vec<JsonValue>),
    Obj(Vec<(String, JsonValue)>),
}

/// The value under `key` in an object entry list: first match wins.
pub open spec fn obj_lookup(entries: Seq<(String, JsonValue)>, key: Seq<char>) -> Option<
    JsonValue,
>
    decreases entries.len(),
{
    if entries.len() == 0 {
        None
    } else if entries[0].0@ == key {
        Some(entries[0].1)
    } else {
        obj_lookup(entries.drop_first(), key)
    }
}

/// The member of `j` under `key`, when `j` is an object that has it.
pub open spec fn json_get(j: JsonValue, key: Seq<char>) -> Option<JsonValue> {
    match j {
        JsonValue::Obj(entries) => obj_lookup(entries@, key),
        _ => None,
    }
}

pub open spec fn json_str(j: JsonValue) -> Option<Seq<char>> {
    match j {
        JsonValue::Str(s) => Some(s@),
        _ => None,
    }
}

pub open spec fn json_arr(j: JsonValue) -> Option<Seq<JsonValue>> {
    match j {
        JsonValue::Arr(items) => Some(items@),
        _ => None,
    }
}

pub open spec fn json_u64(j: JsonValue) -> Option<u64> {
    match j {
        JsonValue::Num(n) => Some(n),
        _ => None,
    }
}

/// The string member of `j` under `key`, when there is one.
pub open spec fn json_get_str(j: JsonValue, key: Seq<char>) -> Option<Seq<char>> {
    match json_get(j, key) {
        Some(v) => json_str(v),
        None => None,
    }
}

/// Character-for-character string equality.
pub fn str_eq(a: &str, b: &str) -> (r: bool)
    ensures
        r == (a@ == b@),
{
    let na = a.unicode_len();
    let nb = b.unicode_len();
    if na != nb {
        return false;
    }
    let mut i: usize = 0;
    while i < na
        invariant
            i <= na,
            na == a@.len(),
            na == b@.len(),
            forall|k: int| 0 <= k < i ==> a@[k] == b@[k],
        decreases na - i,
    {
        if a.get_char(i) != b.get_char(i) {
            return false;
        }
        i = i + 1;
    }
    proof {
        assert(a@ =~= b@);
    }
    true
}

impl JsonValue {
    /// Object member access; `None` for a missing key or a non-object.
    pub fn get<'a>(&'a self, key: &str) -> (r: Option<&'a JsonValue>)
        ensures
            match r {
                Some(v) => json_get(*self, key@) == Some(*v),
                None => json_get(*self, key@) is None,
            },
    {
        match self {
            JsonValue::Obj(entries) => {
                let n = entries.len();
                let mut i: usize = 0;
                proof {
                    assert(entries@.skip(0) =~= entries@);
                }
                while i < n
                    invariant
                        i <= n,
                        n == entries@.len(),
                        json_get(*self, key@) == obj_lookup(entries@, key@),
                        forall|k: int| 0 <= k < i ==> entries@[k].0@ != key@,
                        obj_lookup(entries@, key@) == obj_lookup(entries@.skip(i as int), key@),
                    decreases n - i,
                {
                    if str_eq(entries[i].0.as_str(), key) {
                        proof {
                            assert(entries@.skip(i as int)[0] == entries@[i as int]);
                            assert(obj_lookup(entries@.skip(i as int), key@) == Some(
                                entries@.skip(i as int)[0].1,
                            ));
                        }
                        return Some(&entries[i].1);
                    }
                    proof {
                        assert(entries@.skip(i as int)[0] == entries@[i as int]);
                        assert(entries@.skip(i as int).drop_first() =~= entries@.skip(i + 1));
                    }
                    i = i + 1;
                }
                proof {
                    assert(entries@.skip(n as int).len() == 0);
                }
                None
            },
            _ => None,
        }
    }

    pub fn str_value<'a>(&'a self) -> (r: Option<&'a String>)
        ensures
            match r {
                Some(s) => json_str(*self) == Some(s@),
                None => json_str(*self) is None,
            },
    {
        match self {
            JsonValue::Str(s) => Some(s),
            _ => None,
        }
    }

    pub fn array_value<'a>(&'a self) -> (r: Option<&'a Vec<JsonValue>>)
        ensures
            match r {
                Some(items) => json_arr(*self) == Some(items@),
                None => json_arr(*self) is None,
            },
    {
        match self {
            JsonValue::Arr(items) => Some(items),
            _ => None,
        }
    }

    pub fn u64_value(&self) -> (r: Option<u64>)
        ensures
            r == json_u64(*self),
    {
        match self {
            JsonValue::Num(n) => Some(*n),
            _ => None,
        }
    }

    /// Object member access that hands the member out by value.
    pub fn into_member(self, key: &str) -> (r: Option<JsonValue>)
        ensures
            match r {
                Some(v) => json_get(self, key@) == Some(v),
                None => json_get(self, key@) is None,
            },
    {
        match self {
            JsonValue::Obj(mut entries) => {
                let n = entries.len();
                let mut i: usize = 0;
                proof {
                    assert(entries@.skip(0) =~= entries@);
                }
                while i < n
                    invariant
                        i <= n,
                        n == entries@.len(),
                        json_get(self, key@) == obj_lookup(entries@.skip(i as int), key@),
                        forall|k: int| 0 <= k < i ==> entries@[k].0@ != key@,
                    decreases n - i,
                {
                    if str_eq(entries[i].0.as_str(), key) {
                        proof {
                            assert(entries@.skip(i as int)[0] == entries@[i as int]);
                            assert(obj_lookup(entries@.skip(i as int), key@) == Some(
                                entries@.skip(i as int)[0].1,
                            ));
                        }
                        let pair = entries.remove(i);
                        return Some(pair.1);
                    }
                    proof {
                        assert(entries@.skip(i as int)[0] == entries@[i as int]);
                        assert(entries@.skip(i as int).drop_first() =~= entries@.skip(i + 1));
                    }
                    i = i + 1;
                }
                proof {
                    assert(entries@.skip(n as int).len() == 0);
                }
                None
            },
            _ => None,
        }
    }

    /// The string member of an object under `key`, cloned out.
    pub fn get_string(&self, key: &str) -> (r: Option<String>)
        ensures
            match r {
                Some(s) => json_get_str(*self, key@) == Some(s@),
                None => json_get_str(*self, key@) is None,
            },
    {
        match self.get(key) {
            Some(v) => match v.str_value() {
                Some(s) => Some(s.clone()),
                None => None,
            },
            None => None,
        }
    }
}

#[verifier::external_type_specification]
#[verifier::external_body]
pub struct ExSerdeValue(serde_json::Value);

/// The `JsonValue` tree that `parse_json` decodes from a given text, or
/// `None` where the text is not valid JSON. serde_json's parse depends on
/// its input alone, so the mapping deserves a name; nothing further is
/// assumed of it.
pub uninterp spec fn json_of(s: Seq<char>) -> Option<JsonValue>;

/// Relies on the variant structure of serde_json::Value: each arm moves one
/// variant's content into the library's tree, descending through arrays and
/// objects. serde_json's map keeps one entry per key.
#[verifier::external_body]
fn from_value(v: &serde_json::Value) -> JsonValue {
    match v {
        serde_json::Value::Null => JsonValue::Null,
        serde_json::Value::Bool(b) => JsonValue::Bool(*b),
        serde_json::Value::Number(n) => match n.as_u64() {
            Some(u) => JsonValue::Num(u),
            None => JsonValue::NumOther,
        },
        serde_json::Value::String(s) => JsonValue::Str(s.clone()),
        serde_json::Value::Array(items) => JsonValue::Arr(items.iter().map(from_value).collect()),
        serde_json::Value::Object(entries) => JsonValue::Obj(
            entries.iter().map(|(k, x)| (k.clone(), from_value(x))).collect(),
        ),
    }
}

/// Relies on serde_json::from_str::<serde_json::Value>: parsing is a
/// function of the text alone, failing exactly on malformed JSON; the
/// parsed tree is converted one variant at a time by `from_value`.
#[verifier::external_body]
pub(crate) fn parse_json(s: &str) -> (r: Option<JsonValue>)
    ensures
        r == json_of(s@),
{
    match serde_json::from_str::<serde_json::Value>(s) {
        Ok(v) => Some(from_value(&v)),
        Err(_) => None,
    }
}

} // verus!
