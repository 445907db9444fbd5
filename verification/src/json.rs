//! A plain model of JSON documents.
//!
//! Upstream events arrive as JSON text. Parsing is delegated to
//! `serde_json`; the parsed document is converted into [`JsonValue`], a
//! recursive enum of plain values that all event-interpretation logic is
//! verified against. Numbers are carried as their decimal rendering: the
//! stream logic never reads a numeric value, it only passes them through.

use vstd::prelude::*;

use crate::text::str_eq;

verus! {

/// A JSON document as plain values. Object entries keep the order the
/// parser delivered them in.
#[derive(Debug, PartialEq)]
pub enum JsonValue {
    Null,
    Bool(bool),
    /// A number, as its decimal rendering.
    Num(String),
    Str(String),
    Arr(Vec<JsonValue>),
    Obj(Vec<(String, JsonValue)>),
}

/// First value bound to `key` in an entry list, if any.
pub open spec fn entries_get(entries: Seq<(String, JsonValue)>, key: Seq<char>) -> Option<
    JsonValue,
>
    decreases entries.len(),
{
    if entries.len() == 0 {
        None
    } else if entries[0].0@ == key {
        Some(entries[0].1)
    } else {
        entries_get(entries.drop_first(), key)
    }
}

/// The value bound to `key` when the document is an object holding it.
pub open spec fn spec_get(v: JsonValue, key: Seq<char>) -> Option<JsonValue> {
    match v {
        JsonValue::Obj(entries) => entries_get(entries@, key),
        _ => None,
    }
}

/// The lookup finds the first entry whose key matches.
proof fn lemma_entries_get_at(m: Seq<(String, JsonValue)>, key: Seq<char>, i: int)
    requires
        0 <= i < m.len(),
        forall|k: int| 0 <= k < i ==> #[trigger] m[k].0@ != key,
        m[i].0@ == key,
    ensures
        entries_get(m, key) == Some(m[i].1),
    decreases i,
{
    if i > 0 {
        lemma_entries_get_at(m.drop_first(), key, i - 1);
    }
}

/// The lookup fails when no entry's key matches.
proof fn lemma_entries_get_none(m: Seq<(String, JsonValue)>, key: Seq<char>)
    requires
        forall|k: int| 0 <= k < m.len() ==> #[trigger] m[k].0@ != key,
    ensures
        entries_get(m, key) is None,
    decreases m.len(),
{
    if m.len() > 0 {
        lemma_entries_get_none(m.drop_first(), key);
    }
}

impl JsonValue {
    /// Looks `key` up in an object document; `None` for other documents and
    /// absent keys.
    pub fn get<'a>(&'a self, key: &str) -> (r: Option<&'a JsonValue>)
        ensures
            r matches Some(x) ==> spec_get(*self, key@) == Some(*x),
            r is None ==> spec_get(*self, key@) is None,
    {
        match self {
            JsonValue::Obj(entries) => {
                let n = entries.len();
                let mut i: usize = 0;
                while i < n
                    invariant
                        n == entries@.len(),
                        i <= n,
                        spec_get(*self, key@) == entries_get(entries@, key@),
                        forall|k: int| 0 <= k < i ==> #[trigger] entries@[k].0@ != key@,
                    decreases n - i,
                {
                    if str_eq(entries[i].0.as_str(), key) {
                        proof {
                            lemma_entries_get_at(entries@, key@, i as int);
                        }
                        return Some(&entries[i].1);
                    }
                    i += 1;
                }
                proof {
                    lemma_entries_get_none(entries@, key@);
                }
                None
            },
            _ => None,
        }
    }

    /// The string slice of a string document.
    pub fn as_str_opt<'a>(&'a self) -> (r: Option<&'a str>)
        ensures
            r matches Some(s) ==> (self matches JsonValue::Str(x) && x@ == s@),
            r is None ==> !(self is Str),
    {
        match self {
            JsonValue::Str(s) => Some(s.as_str()),
            _ => None,
        }
    }

    /// Takes the value bound to `key` out of an object document, consuming
    /// the document.
    pub fn take_field(self, key: &str) -> (r: Option<JsonValue>)
        ensures
            r == spec_get(self, key@),
    {
        match self {
            JsonValue::Obj(mut entries) => {
                let ghost m = entries@;
                let n = entries.len();
                let mut i: usize = 0;
                while i < n
                    invariant
                        n == entries@.len(),
                        m == entries@,
                        i <= n,
                        spec_get(self, key@) == entries_get(entries@, key@),
                        forall|k: int| 0 <= k < i ==> #[trigger] entries@[k].0@ != key@,
                    decreases n - i,
                {
                    if str_eq(entries[i].0.as_str(), key) {
                        proof {
                            lemma_entries_get_at(entries@, key@, i as int);
                        }
                        let entry = entries.remove(i);
                        return Some(entry.1);
                    }
                    i += 1;
                }
                proof {
                    lemma_entries_get_none(entries@, key@);
                }
                None
            },
            _ => None,
        }
    }
}

#[verifier::external_type_specification]
#[verifier::external_body]
pub struct ExSerdeValue(serde_json::Value);

/// The model that `serde_json` parses from the given text, or `None` when
/// the text is not valid JSON. Parsing depends on the text alone.
pub uninterp spec fn json_parse_of(s: Seq<char>) -> Option<JsonValue>;

/// Relies on the shape of `serde_json::Value`: rebuilds a parsed
/// document as the library's model, one arm per variant, keys and
/// values moved over unchanged and numbers rendered in decimal.
#[verifier::external_body]
fn of_serde(v: &serde_json::Value) -> JsonValue {
    match v {
        serde_json::Value::Null => JsonValue::Null,
        serde_json::Value::Bool(b) => JsonValue::Bool(*b),
        serde_json::Value::Number(n) => JsonValue::Num(n.to_string()),
        serde_json::Value::String(s) => JsonValue::Str(s.clone()),
        serde_json::Value::Array(a) => JsonValue::Arr(a.iter().map(of_serde).collect()),
        serde_json::Value::Object(o) => JsonValue::Obj(
            o.iter().map(|(k, x)| (k.clone(), of_serde(x))).collect(),
        ),
    }
}

/// Relies on `serde_json::from_str`: parses a JSON document; the result
/// is a function of the text alone, named by [`json_parse_of`].
#[verifier::external_body]
pub fn parse_json(s: &str) -> (r: Option<JsonValue>)
    ensures
        r == json_parse_of(s@),
{
    match serde_json::from_str::<serde_json::Value>(s) {
        Ok(v) => Some(of_serde(&v)),
        Err(_) => None,
    }
}

} // verus!
