//! JSON values as the proxy filter and the health check read them.
//!
//! Parsing and printing are serde_json's work; this module holds the
//! library's own value type, its mathematical model, and the lookups that the
//! protocol logic makes on it (`get` with a string key, `as_str`, indexing).

use vstd::prelude::*;

verus! {

#[verifier::external_type_specification]
#[verifier::external_body]
pub struct ExJsonNumber(serde_json::Number);

#[verifier::external_type_specification]
#[verifier::external_body]
pub struct ExJsonValue(serde_json::Value);

/// The mathematical model of a JSON value. Numbers are carried as they are.
pub enum Json {
    Null,
    Bool(bool),
    Number(serde_json::Number),
    Str(Seq<char>),
    Array(Seq<Json>),
    Object(Seq<(Seq<char>, Json)>),
}

/// A JSON value: the library's own form of `serde_json::Value`, variant for
/// variant, with an object's members in the order serde_json keeps them.
#[derive(Debug)]
pub enum JsonValue {
    Null,
    Bool(bool),
    Number(serde_json::Number),
    Str(String),
    Array(Vec<JsonValue>),
    Object(Vec<(String, JsonValue)>),
}

impl JsonValue {
    /// The model of this value.
    pub open spec fn model(&self) -> Json
        decreases self,
    {
        match self {
            JsonValue::Null => Json::Null,
            JsonValue::Bool(b) => Json::Bool(*b),
            JsonValue::Number(n) => Json::Number(*n),
            JsonValue::Str(s) => Json::Str(s@),
            JsonValue::Array(items) => Json::Array(
                Seq::new(
                    items@.len(),
                    |i: int|
                        if 0 <= i < items@.len() {
                            items@[i].model()
                        } else {
                            Json::Null
                        },
                ),
            ),
            JsonValue::Object(entries) => Json::Object(
                Seq::new(
                    entries@.len(),
                    |i: int|
                        if 0 <= i < entries@.len() {
                            (entries@[i].0@, entries@[i].1.model())
                        } else {
                            (Seq::empty(), Json::Null)
                        },
                ),
            ),
        }
    }
}

/// The value that `serde_json::from_str::<serde_json::Value>` reads from
/// `text`, or `None` where it reports an error.
pub uninterp spec fn spec_parse_json(text: Seq<char>) -> Option<Json>;

/// The text that `to_string` writes for the `serde_json::Value` of `value`.
pub uninterp spec fn spec_json_text(value: Json) -> Seq<char>;

/// The number that `serde_json::Number::from` makes of `n`.
pub uninterp spec fn spec_json_number(n: i64) -> serde_json::Number;

/// Moves a `serde_json::Value` into the library's form, variant for variant.
#[verifier::external_body]
fn value_from_serde(v: serde_json::Value) -> JsonValue {
    match v {
        serde_json::Value::Null => JsonValue::Null,
        serde_json::Value::Bool(b) => JsonValue::Bool(b),
        serde_json::Value::Number(n) => JsonValue::Number(n),
        serde_json::Value::String(s) => JsonValue::Str(s),
        serde_json::Value::Array(a) => JsonValue::Array(a.into_iter().map(value_from_serde).collect()),
        serde_json::Value::Object(m) => JsonValue::Object(
            m.into_iter().map(|(k, x)| (k, value_from_serde(x))).collect(),
        ),
    }
}

/// Copies a value of the library's form into a `serde_json::Value`, variant for variant.
#[verifier::external_body]
fn value_to_serde(v: &JsonValue) -> serde_json::Value {
    match v {
        JsonValue::Null => serde_json::Value::Null,
        JsonValue::Bool(b) => serde_json::Value::Bool(*b),
        JsonValue::Number(n) => serde_json::Value::Number(n.clone()),
        JsonValue::Str(s) => serde_json::Value::String(s.clone()),
        JsonValue::Array(a) => serde_json::Value::Array(a.iter().map(value_to_serde).collect()),
        JsonValue::Object(m) => serde_json::Value::Object(
            m.iter().map(|(k, x)| (k.clone(), value_to_serde(x))).collect(),
        ),
    }
}

/// Calls `serde_json::from_str::<serde_json::Value>`. The contract ties the
/// result to the name `spec_parse_json`; which texts are JSON is left unsaid.
#[verifier::external_body]
pub(crate) fn parse_json(text: &str) -> (r: Option<JsonValue>)
    ensures
        match r {
            Some(v) => spec_parse_json(text@) == Some(v.model()),
            None => spec_parse_json(text@) is None,
        },
{
    match serde_json::from_str::<serde_json::Value>(text) {
        Ok(v) => Some(value_from_serde(v)),
        Err(_) => None,
    }
}

/// Calls `to_string` on the `serde_json::Value` of `value`. The contract ties
/// the text to the name `spec_json_text`; the JSON syntax is left unsaid.
#[verifier::external_body]
pub(crate) fn json_text(value: &JsonValue) -> (r: String)
    ensures
        r@ == spec_json_text(value.model()),
{
    value_to_serde(value).to_string()
}

/// Calls `serde_json::Number::from(n)`, named by `spec_json_number`.
#[verifier::external_body]
pub(crate) fn json_number(n: i64) -> (r: serde_json::Number)
    ensures
        r == spec_json_number(n),
{
    serde_json::Number::from(n)
}

/// The value of the first member of `entries` named `key`.
pub open spec fn entry_lookup(entries: Seq<(Seq<char>, Json)>, key: Seq<char>) -> Option<Json>
    decreases entries.len(),
{
    if entries.len() == 0 {
        None
    } else if entries[0].0 == key {
        Some(entries[0].1)
    } else {
        entry_lookup(entries.drop_first(), key)
    }
}

/// `Value::get` with a string key: the member of an object, `None` for a
/// missing member or a value that is not an object.
pub open spec fn json_get(v: Json, key: Seq<char>) -> Option<Json> {
    match v {
        Json::Object(entries) => entry_lookup(entries, key),
        _ => None,
    }
}

/// `json_get` on a value that may be absent.
pub open spec fn json_get_opt(v: Option<Json>, key: Seq<char>) -> Option<Json> {
    match v {
        Some(x) => json_get(x, key),
        None => None,
    }
}

/// `Value::as_str`: the text of a string value.
pub open spec fn json_as_str(v: Json) -> Option<Seq<char>> {
    match v {
        Json::Str(s) => Some(s),
        _ => None,
    }
}

/// `json_as_str` on a value that may be absent.
pub open spec fn json_str_opt(v: Option<Json>) -> Option<Seq<char>> {
    match v {
        Some(x) => json_as_str(x),
        None => None,
    }
}

/// `value[key]`: the member, or `null` where `get` finds none.
pub open spec fn json_index(v: Json, key: Seq<char>) -> Json {
    match json_get(v, key) {
        Some(x) => x,
        None => Json::Null,
    }
}

proof fn lemma_lookup_skip(entries: Seq<(Seq<char>, Json)>, key: Seq<char>, i: int)
    requires
        0 <= i <= entries.len(),
        forall|j: int| 0 <= j < i ==> (#[trigger] entries[j]).0 != key,
    ensures
        entry_lookup(entries, key) == entry_lookup(entries.subrange(i, entries.len() as int), key),
    decreases i,
{
    if i == 0 {
        assert(entries.subrange(0, entries.len() as int) =~= entries);
    } else {
        let rest = entries.drop_first();
        assert forall|j: int| 0 <= j < i - 1 implies (#[trigger] rest[j]).0 != key by {
            assert(rest[j] == entries[j + 1]);
        }
        assert(entries[0].0 != key);
        lemma_lookup_skip(rest, key, i - 1);
        assert(rest.subrange(i - 1, rest.len() as int) =~= entries.subrange(i, entries.len() as int));
    }
}

/// The index of the first entry named `key`, if any.
fn find_entry(entries: &Vec<(String, JsonValue)>, key: &str) -> (r: Option<usize>)
    ensures
        match r {
            Some(i) => i < entries@.len() && entries@[i as int].0@ == key@ && forall|j: int|
                0 <= j < i ==> (#[trigger] entries@[j]).0@ != key@,
            None => forall|j: int| 0 <= j < entries@.len() ==> (#[trigger] entries@[j]).0@ != key@,
        },
{
    let k = key.to_owned();
    let mut i: usize = 0;
    while i < entries.len()
        invariant
            i <= entries@.len(),
            k@ == key@,
            forall|j: int| 0 <= j < i ==> (#[trigger] entries@[j]).0@ != key@,
        decreases entries@.len() - i,
    {
        if entries[i].0 == k {
            return Some(i);
        }
        i = i + 1;
    }
    None
}

proof fn lemma_lookup_found(entries: &Vec<(String, JsonValue)>, key: Seq<char>, i: int)
    requires
        0 <= i < entries@.len(),
        entries@[i].0@ == key,
        forall|j: int| 0 <= j < i ==> (#[trigger] entries@[j]).0@ != key,
    ensures
        json_get(JsonValue::Object(*entries).model(), key) == Some(entries@[i].1.model()),
{
    let es = JsonValue::Object(*entries).model()->Object_0;
    assert forall|j: int| 0 <= j < i implies (#[trigger] es[j]).0 != key by {
        assert(es[j].0 == entries@[j].0@);
    }
    lemma_lookup_skip(es, key, i);
    let rest = es.subrange(i, es.len() as int);
    assert(rest[0] == es[i]);
}

proof fn lemma_lookup_missing(entries: &Vec<(String, JsonValue)>, key: Seq<char>)
    requires
        forall|j: int| 0 <= j < entries@.len() ==> (#[trigger] entries@[j]).0@ != key,
    ensures
        json_get(JsonValue::Object(*entries).model(), key) is None,
{
    let es = JsonValue::Object(*entries).model()->Object_0;
    assert forall|j: int| 0 <= j < es.len() implies (#[trigger] es[j]).0 != key by {
        assert(es[j].0 == entries@[j].0@);
    }
    lemma_lookup_skip(es, key, es.len() as int);
    assert(es.subrange(es.len() as int, es.len() as int).len() == 0);
}

impl JsonValue {
    /// The member named `key` of an object, like `Value::get` with a string key.
    pub fn get(&self, key: &str) -> (r: Option<&JsonValue>)
        ensures
            match r {
                Some(x) => json_get(self.model(), key@) == Some(x.model()),
                None => json_get(self.model(), key@) is None,
            },
    {
        match self {
            JsonValue::Object(entries) => {
                match find_entry(entries, key) {
                    Some(i) => {
                        proof {
                            lemma_lookup_found(entries, key@, i as int);
                        }
                        Some(&entries[i].1)
                    },
                    None => {
                        proof {
                            lemma_lookup_missing(entries, key@);
                        }
                        None
                    },
                }
            },
            _ => None,
        }
    }

    /// The text of a string value, like `Value::as_str`.
    pub fn as_str(&self) -> (r: Option<&String>)
        ensures
            match r {
                Some(s) => json_as_str(self.model()) == Some(s@),
                None => json_as_str(self.model()) is None,
            },
    {
        match self {
            JsonValue::Str(s) => Some(s),
            _ => None,
        }
    }

    /// Takes the member named `key` out of the value, or `null` where there
    /// is none, like `value[key]`.
    pub fn into_member(self, key: &str) -> (r: JsonValue)
        ensures
            r.model() == json_index(self.model(), key@),
    {
        match self {
            JsonValue::Object(entries) => {
                match find_entry(&entries, key) {
                    Some(i) => {
                        proof {
                            lemma_lookup_found(&entries, key@, i as int);
                        }
                        let mut entries = entries;
                        let (_, member) = entries.remove(i);
                        member
                    },
                    None => {
                        proof {
                            lemma_lookup_missing(&entries, key@);
                        }
                        JsonValue::Null
                    },
                }
            },
            _ => JsonValue::Null,
        }
    }
}

/// A string member of a string member: `v.get(outer)?.get(inner)?.as_str()`.
pub open spec fn nested_str(v: Json, outer: Seq<char>, inner: Seq<char>) -> Option<Seq<char>> {
    json_str_opt(json_get_opt(json_get(v, outer), inner))
}

/// Reads `v.get(outer).and_then(|x| x.get(inner)).and_then(|x| x.as_str())`.
pub fn nested_str_of<'a>(v: &'a JsonValue, outer: &str, inner: &str) -> (r: Option<&'a String>)
    ensures
        match r {
            Some(s) => nested_str(v.model(), outer@, inner@) == Some(s@),
            None => nested_str(v.model(), outer@, inner@) is None,
        },
{
    match v.get(outer) {
        Some(x) => match x.get(inner) {
            Some(y) => y.as_str(),
            None => None,
        },
        None => None,
    }
}

/// `get` on an object finds the first member with the key, and nothing when
/// no member has it; on any other value it finds nothing.
pub proof fn lemma_json_get_first_member(entries: Seq<(Seq<char>, Json)>, key: Seq<char>, i: int)
    ensures
        0 <= i < entries.len() && entries[i].0 == key && (forall|j: int|
            0 <= j < i ==> (#[trigger] entries[j]).0 != key) ==> json_get(Json::Object(entries), key)
            == Some(entries[i].1),
        (forall|j: int| 0 <= j < entries.len() ==> (#[trigger] entries[j]).0 != key) ==> json_get(
            Json::Object(entries),
            key,
        ) is None,
        json_get(Json::Null, key) is None && json_get(Json::Str(key), key) is None,
{
    if 0 <= i < entries.len() && entries[i].0 == key && (forall|j: int|
        0 <= j < i ==> (#[trigger] entries[j]).0 != key) {
        lemma_lookup_skip(entries, key, i);
        assert(entries.subrange(i, entries.len() as int)[0] == entries[i]);
    }
    if forall|j: int| 0 <= j < entries.len() ==> (#[trigger] entries[j]).0 != key {
        lemma_lookup_skip(entries, key, entries.len() as int);
        assert(entries.subrange(entries.len() as int, entries.len() as int).len() == 0);
    }
}

} // verus!
