//! JSON documents as plain trees, with parsing and printing done by `serde_json`.

use vstd::prelude::*;
use crate::text::same_text;

verus! {

/// A JSON document held as a tree: what the fact, metadata and result
/// documents are to the pipeline. A number is held by its numeral, the text
/// that `serde_json` prints for it.
#[derive(Debug, PartialEq)]
pub enum JsonValue {
    Null,
    Bool(bool),
    Number(String),
    String(String),
    Array(Vec<JsonValue>),
    Object(Vec<(String, JsonValue)>),
}

/// The mathematical value of a JSON document.
pub enum Json {
    Null,
    Bool(bool),
    Number(Seq<char>),
    String(Seq<char>),
    Array(Seq<Json>),
    Object(Seq<(Seq<char>, Json)>),
}

/// The mathematical value of a document tree.
pub open spec fn json_of(v: JsonValue) -> Json
    decreases v,
{
    match v {
        JsonValue::Null => Json::Null,
        JsonValue::Bool(b) => Json::Bool(b),
        JsonValue::Number(n) => Json::Number(n@),
        JsonValue::String(s) => Json::String(s@),
        JsonValue::Array(items) => Json::Array(
            Seq::new(
                items@.len(),
                |i: int|
                    if 0 <= i < items@.len() {
                        json_of(items@[i])
                    } else {
                        Json::Null
                    },
            ),
        ),
        JsonValue::Object(entries) => Json::Object(
            Seq::new(
                entries@.len(),
                |i: int|
                    if 0 <= i < entries@.len() {
                        (entries@[i].0@, json_of(entries@[i].1))
                    } else {
                        (Seq::empty(), Json::Null)
                    },
            ),
        ),
    }
}

impl View for JsonValue {
    type V = Json;

    open spec fn view(&self) -> Json {
        json_of(*self)
    }
}

/// The `serde_json` document tree.
#[verifier::external_type_specification]
#[verifier::external_body]
pub struct ExValue(serde_json::Value);

/// What `serde_json` reads from a text: the document it holds, or nothing
/// where the text is not exactly one JSON document.
pub uninterp spec fn parsed_json(text: Seq<char>) -> Option<Json>;

/// The compact text that `serde_json` prints for a document.
pub uninterp spec fn printed_json(doc: Json) -> Seq<char>;

/// Copies a `serde_json::Value` into a tree of this library, variant by
/// variant; a number becomes the numeral that `serde_json` prints for it.
#[verifier::external_body]
fn lift(v: &serde_json::Value) -> (doc: JsonValue) {
    match v {
        serde_json::Value::Null => JsonValue::Null,
        serde_json::Value::Bool(b) => JsonValue::Bool(*b),
        serde_json::Value::Number(n) => JsonValue::Number(n.to_string()),
        serde_json::Value::String(s) => JsonValue::String(s.clone()),
        serde_json::Value::Array(a) => JsonValue::Array(a.iter().map(lift).collect()),
        serde_json::Value::Object(o) => JsonValue::Object(
            o.iter().map(|(k, x)| (k.clone(), lift(x))).collect(),
        ),
    }
}

/// Copies a tree of this library into a `serde_json::Value`, variant by
/// variant. A numeral that `serde_json` cannot read as a number becomes
/// `null`; among entries with one key its map keeps the last.
#[verifier::external_body]
fn lower(doc: &JsonValue) -> (v: serde_json::Value) {
    match doc {
        JsonValue::Null => serde_json::Value::Null,
        JsonValue::Bool(b) => serde_json::Value::Bool(*b),
        JsonValue::Number(n) => n.parse().map_or(serde_json::Value::Null, serde_json::Value::Number),
        JsonValue::String(s) => serde_json::Value::String(s.clone()),
        JsonValue::Array(items) => serde_json::Value::Array(items.iter().map(lower).collect()),
        JsonValue::Object(entries) => serde_json::Value::Object(
            entries.iter().map(|(k, x)| (k.clone(), lower(x))).collect(),
        ),
    }
}

/// `serde_json::from_str` for a `Value`: the result is the document that the
/// text holds, and the text holds none exactly when an error comes back.
#[verifier::external_body]
fn read_document(text: &str) -> (r: Result<JsonValue, String>)
    ensures
        match r {
            Ok(doc) => parsed_json(text@) == Some(doc@),
            Err(_) => parsed_json(text@) is None,
        },
{
    serde_json::from_str::<serde_json::Value>(text).map(|v| lift(&v)).map_err(|e| e.to_string())
}

/// `serde_json::to_string` for a `Value`: the compact text of the document.
#[verifier::external_body]
fn print_document(doc: &JsonValue) -> (text: String)
    ensures
        text@ == printed_json(doc@),
{
    serde_json::to_string(&lower(doc)).unwrap_or_default()
}

/// The value that an object's entries bind to `key`: that of the last entry
/// with that key, as a later entry supersedes an earlier one.
pub open spec fn lookup(entries: Seq<(Seq<char>, Json)>, key: Seq<char>) -> Option<Json>
    decreases entries.len(),
{
    if entries.len() == 0 {
        None
    } else if entries.last().0 == key {
        Some(entries.last().1)
    } else {
        lookup(entries.drop_last(), key)
    }
}

impl Json {
    /// The member `key` of an object; `None` for a missing member and for
    /// anything that is not an object.
    pub open spec fn member(self, key: Seq<char>) -> Option<Json> {
        match self {
            Json::Object(entries) => lookup(entries, key),
            _ => None,
        }
    }
}

impl Clone for JsonValue {
    fn clone(&self) -> (r: Self)
        ensures
            r@ == self@,
        decreases self,
    {
        match self {
            JsonValue::Null => JsonValue::Null,
            JsonValue::Bool(b) => JsonValue::Bool(*b),
            JsonValue::Number(n) => JsonValue::Number(n.clone()),
            JsonValue::String(s) => JsonValue::String(s.clone()),
            JsonValue::Array(items) => {
                let mut out: Vec<JsonValue> = Vec::new();
                let mut i: usize = 0;
                while i < items.len()
                    invariant
                        *self == JsonValue::Array(*items),
                        i <= items.len(),
                        out.len() == i,
                        forall|j: int| 0 <= j < i ==> (#[trigger] out@[j])@ == items@[j]@,
                    decreases items.len() - i,
                {
                    proof {
                        vstd::std_specs::vec::axiom_vec_index_decreases(*items, i as int);
                        assert(decreases_to!(*self => self->Array_0));
                    }
                    out.push(items[i].clone());
                    i = i + 1;
                }
                let r = JsonValue::Array(out);
                proof {
                    let a = r@->Array_0;
                    let b = self@->Array_0;
                    assert(a.len() == b.len());
                    assert forall|j: int| 0 <= j < a.len() implies a[j] == b[j] by {
                        assert(out@[j]@ == items@[j]@);
                    }
                    assert(a =~= b);
                }
                r
            },
            JsonValue::Object(entries) => {
                let mut out: Vec<(String, JsonValue)> = Vec::new();
                let mut i: usize = 0;
                while i < entries.len()
                    invariant
                        *self == JsonValue::Object(*entries),
                        i <= entries.len(),
                        out.len() == i,
                        forall|j: int|
                            0 <= j < i ==> (#[trigger] out@[j]).0@ == entries@[j].0@ && out@[j].1@
                                == entries@[j].1@,
                    decreases entries.len() - i,
                {
                    proof {
                        vstd::std_specs::vec::axiom_vec_index_decreases(*entries, i as int);
                        assert(decreases_to!(*self => self->Object_0));
                    }
                    out.push((entries[i].0.clone(), entries[i].1.clone()));
                    i = i + 1;
                }
                let r = JsonValue::Object(out);
                proof {
                    let a = r@->Object_0;
                    let b = self@->Object_0;
                    assert(a.len() == b.len());
                    assert forall|j: int| 0 <= j < a.len() implies a[j] == b[j] by {
                        assert(out@[j].0@ == entries@[j].0@);
                    }
                    assert(a =~= b);
                }
                r
            },
        }
    }
}

impl JsonValue {
    /// Reads one JSON document from `text`.
    pub fn parse(text: &str) -> (r: Result<JsonValue, String>)
        ensures
            match r {
                Ok(doc) => parsed_json(text@) == Some(doc@),
                Err(_) => parsed_json(text@) is None,
            },
    {
        read_document(text)
    }

    /// The document as compact JSON text.
    pub fn to_text(&self) -> (text: String)
        ensures
            text@ == printed_json(self@),
    {
        print_document(self)
    }

    /// Looks up the member `key` of an object.
    pub fn get(&self, key: &str) -> (r: Option<&JsonValue>)
        ensures
            match r {
                Some(v) => self@.member(key@) == Some(v@),
                None => self@.member(key@) is None,
            },
    {
        match self {
            JsonValue::Object(entries) => {
                let mut i: usize = entries.len();
                proof {
                    let all = self@->Object_0;
                    assert(all.take(all.len() as int) == all);
                }
                while i > 0
                    invariant
                        i <= entries.len(),
                        self@ matches Json::Object(all) && all.len() == entries.len() && lookup(
                            all,
                            key@,
                        ) == lookup(all.take(i as int), key@) && (forall|j: int|
                            0 <= j < entries.len() ==> #[trigger] all[j] == (
                                entries@[j].0@,
                                entries@[j].1@,
                            )),
                    decreases i,
                {
                    proof {
                        let all = self@->Object_0;
                        assert(all.take(i as int).drop_last() == all.take(i - 1));
                        assert(all.take(i as int).last() == all[i - 1]);
                    }
                    if same_text(entries[i - 1].0.as_str(), key) {
                        return Some(&entries[i - 1].1);
                    }
                    i = i - 1;
                }
                None
            },
            _ => None,
        }
    }

    /// The value as text, if it is a JSON string.
    pub fn as_str(&self) -> (r: Option<&str>)
        ensures
            match r {
                Some(s) => self@ == Json::String(s@),
                None => !(self@ is String),
            },
    {
        match self {
            JsonValue::String(s) => Some(s.as_str()),
            _ => None,
        }
    }
}

} // verus!
