//! A plain model of JSON values, filled in by `serde_json`.

use vstd::prelude::*;

use crate::text::{join, join_strings};

verus! {

/// A JSON value as the logic of this library reads it.
#[derive(Debug)]
pub enum JsonValue {
    Null,
    Bool(bool),
    /// A number, held as the text that `serde_json` prints for it.
    Number(String),
    Str(String),
    Array(Vec<JsonValue>),
    /// An object's members in `serde_json`'s key order, and the object's compact JSON text.
    Object(Vec<JsonMember>, String),
}

/// One member of a JSON object.
#[derive(Debug)]
pub struct JsonMember {
    pub key: String,
    pub value: JsonValue,
}

/// The value of the first member of `members` named `key`.
pub open spec fn member_get(members: Seq<JsonMember>, key: Seq<char>) -> Option<JsonValue>
    decreases members.len(),
{
    if members.len() == 0 {
        None
    } else if members[0].key@ == key {
        Some(members[0].value)
    } else {
        member_get(members.drop_first(), key)
    }
}

/// The member `key` of `v`, where `v` is an object (`Value::get`).
pub open spec fn jget(v: JsonValue, key: Seq<char>) -> Option<JsonValue> {
    match v {
        JsonValue::Object(members, _) => member_get(members@, key),
        _ => None,
    }
}

/// The text of `v` where it is a JSON string (`Value::as_str`).
pub open spec fn jstr(v: Option<JsonValue>) -> Option<Seq<char>> {
    match v {
        Some(JsonValue::Str(s)) => Some(s@),
        _ => None,
    }
}

/// The string member `key` of `v` (`v.get(key).and_then(Value::as_str)`).
pub open spec fn str_field(v: JsonValue, key: Seq<char>) -> Option<Seq<char>> {
    jstr(jget(v, key))
}

/// The text of `v`, or the empty text where it is no string (`as_str().unwrap_or_default()`).
pub open spec fn str_or_empty(v: Option<Seq<char>>) -> Seq<char> {
    match v {
        Some(s) => s,
        None => Seq::empty(),
    }
}


/// The text that the logic reads out of a JSON value: a string as it is, the non-empty texts of
/// an array's items joined by line breaks, an object's `text` or `output` string member or else
/// its JSON text, a number or boolean as JSON prints it, and nothing for `null`.
pub open spec fn value_text(v: JsonValue) -> Seq<char>
    decreases v,
{
    match v {
        JsonValue::Null => Seq::empty(),
        JsonValue::Bool(b) => if b {
            "true"@
        } else {
            "false"@
        },
        JsonValue::Number(t) => t@,
        JsonValue::Str(s) => s@,
        JsonValue::Array(items) => join(nonempty_texts(items@), "\n"@),
        JsonValue::Object(members, text) => match jstr(member_get(members@, "text"@)) {
            Some(t) => t,
            None => match jstr(member_get(members@, "output"@)) {
                Some(t) => t,
                None => text@,
            },
        },
    }
}

/// The texts of `items` that are not empty, in order.
pub open spec fn nonempty_texts(items: Seq<JsonValue>) -> Seq<Seq<char>>
    decreases items,
{
    if items.len() == 0 {
        Seq::empty()
    } else {
        let prev = nonempty_texts(items.subrange(0, items.len() - 1));
        let t = value_text(items[items.len() - 1]);
        if t.len() == 0 {
            prev
        } else {
            prev.push(t)
        }
    }
}

proof fn lemma_member_get_skip(members: Seq<JsonMember>, key: Seq<char>, i: int)
    requires
        0 <= i < members.len(),
        members[i].key@ != key,
    ensures
        member_get(members.subrange(i, members.len() as int), key) == member_get(
            members.subrange(i + 1, members.len() as int),
            key,
        ),
{
    assert(members.subrange(i, members.len() as int).drop_first() =~= members.subrange(
        i + 1,
        members.len() as int,
    ));
}

impl JsonValue {
    /// The member `key` of this value, where it is an object.
    pub fn get(&self, key: &str) -> (r: Option<&JsonValue>)
        ensures
            match r {
                Some(x) => jget(*self, key@) == Some(*x),
                None => jget(*self, key@) is None,
            },
    {
        match self {
            JsonValue::Object(members, _) => {
                let wanted = String::from_str(key);
                let n: usize = members.len();
                let mut i: usize = 0;
                assert(members@ =~= members@.subrange(0, n as int));
                while i < n
                    invariant
                        i <= n == members@.len(),
                        wanted@ == key@,
                        jget(*self, key@) == member_get(members@, key@),
                        member_get(members@, key@) == member_get(
                            members@.subrange(i as int, n as int),
                            key@,
                        ),
                    decreases n - i,
                {
                    if members[i].key == wanted {
                        let ghost sub = members@.subrange(i as int, n as int);
                        assert(sub[0] == members@[i as int]);
                        assert(sub[0].key@ == key@);
                        assert(member_get(sub, key@) == Some(sub[0].value));
                        return Some(&members[i].value);
                    }
                    proof {
                        lemma_member_get_skip(members@, key@, i as int);
                    }
                    i = i + 1;
                }
                None
            },
            _ => None,
        }
    }

    /// The text of this value, where it is a string.
    pub fn as_str(&self) -> (r: Option<&String>)
        ensures
            match r {
                Some(s) => jstr(Some(*self)) == Some(s@),
                None => jstr(Some(*self)) is None,
            },
    {
        match self {
            JsonValue::Str(s) => Some(s),
            _ => None,
        }
    }

    /// The string member `key` of this value, copied.
    pub fn str_field(&self, key: &str) -> (r: Option<String>)
        ensures
            match r {
                Some(s) => str_field(*self, key@) == Some(s@),
                None => str_field(*self, key@) is None,
            },
    {
        match self.get(key) {
            Some(v) => match v.as_str() {
                Some(s) => Some(s.clone()),
                None => None,
            },
            None => None,
        }
    }
}


/// The text that the logic reads out of a JSON value (see [`value_text`]).
pub fn value_to_text(v: &JsonValue) -> (r: String)
    ensures
        r@ == value_text(*v),
    decreases v,
{
    match v {
        JsonValue::Null => String::new(),
        JsonValue::Bool(b) => if *b {
            String::from_str("true")
        } else {
            String::from_str("false")
        },
        JsonValue::Number(t) => t.clone(),
        JsonValue::Str(s) => s.clone(),
        JsonValue::Array(items) => {
            let mut texts: Vec<String> = Vec::new();
            let mut i: usize = 0;
            while i < items.len()
                invariant
                    i <= items@.len(),
                    *v == JsonValue::Array(*items),
                    texts@.map_values(|p: String| p@) == nonempty_texts(items@.subrange(0, i as int)),
                decreases items.len() - i,
            {
                proof {
                    assert(items@.subrange(0, i + 1).subrange(0, i as int) =~= items@.subrange(0, i as int));
                    assert(decreases_to!(*v => v->Array_0));
                    assert(v->Array_0 == *items);
                    assert(decreases_to!(*items => items@));
                    assert(decreases_to!(items@ => items@[i as int]));
                    assert(decreases_to!(*v => items@[i as int]));
                }
                let t = value_to_text(&items[i]);
                if !t.as_str().is_empty() {
                    texts.push(t);
                    assert(texts@.map_values(|p: String| p@) =~= nonempty_texts(items@.subrange(0, i as int)).push(t@));
                } else {
                    assert(t@.len() == 0);
                }
                i = i + 1;
            }
            assert(items@.subrange(0, items@.len() as int) =~= items@);
            join_strings(&texts, "\n")
        },
        JsonValue::Object(_, text) => {
            match v.get("text") {
                Some(JsonValue::Str(t)) => t.clone(),
                _ => match v.get("output") {
                    Some(JsonValue::Str(t)) => t.clone(),
                    _ => text.clone(),
                },
            }
        },
    }
}

#[verifier::external_type_specification]
#[verifier::external_body]
pub struct ExSerdeValue(serde_json::Value);

/// What `serde_json::from_str::<serde_json::Value>` gives for a text, as a [`JsonValue`],
/// or its error message.
pub uninterp spec fn json_parse_result(text: Seq<char>) -> Result<JsonValue, Seq<char>>;

/// What iterating `serde_json::Deserializer::from_str(text).into_iter::<Value>()` gives up to
/// its first error: the values, or that error's message.
pub uninterp spec fn json_stream_result(text: Seq<char>) -> Result<Seq<JsonValue>, Seq<char>>;

/// Moves a `serde_json::Value` into the plain model, member by member; numbers and objects
/// keep the text that `serde_json` prints for them. Nothing is stated of it: it is only
/// used by the two parsing wrappers below, whose results are named.
#[verifier::external_body]
fn from_serde(value: serde_json::Value) -> JsonValue {
    let text = if value.is_object() { value.to_string() } else { String::new() };
    match value {
        serde_json::Value::Null => JsonValue::Null,
        serde_json::Value::Bool(b) => JsonValue::Bool(b),
        serde_json::Value::Number(n) => JsonValue::Number(n.to_string()),
        serde_json::Value::String(s) => JsonValue::Str(s),
        serde_json::Value::Array(items) => JsonValue::Array(items.into_iter().map(from_serde).collect()),
        serde_json::Value::Object(map) => JsonValue::Object(
            map.into_iter().map(|(key, value)| JsonMember { key, value: from_serde(value) }).collect(),
            text,
        ),
    }
}

/// Parses one JSON text with `serde_json::from_str::<serde_json::Value>`. The result is the
/// named `json_parse_result` of the text; what it holds is not stated here.
#[verifier::external_body]
pub(crate) fn parse_json(text: &str) -> (r: Result<JsonValue, String>)
    ensures
        match r {
            Ok(v) => json_parse_result(text@) == Ok::<JsonValue, Seq<char>>(v),
            Err(e) => json_parse_result(text@) == Err::<JsonValue, Seq<char>>(e@),
        },
{
    match serde_json::from_str::<serde_json::Value>(text) {
        Ok(value) => Ok(from_serde(value)),
        Err(error) => Err(error.to_string()),
    }
}

/// Parses a stream of JSON values with `serde_json::Deserializer::from_str(..).into_iter()`,
/// stopping at the first error. The result is the named `json_stream_result` of the text.
#[verifier::external_body]
pub(crate) fn parse_json_stream(text: &str) -> (r: Result<Vec<JsonValue>, String>)
    ensures
        match r {
            Ok(v) => json_stream_result(text@) == Ok::<Seq<JsonValue>, Seq<char>>(v@),
            Err(e) => json_stream_result(text@) == Err::<Seq<JsonValue>, Seq<char>>(e@),
        },
{
    let mut values = Vec::new();
    for item in serde_json::Deserializer::from_str(text).into_iter::<serde_json::Value>() {
        match item {
            Ok(value) => values.push(from_serde(value)),
            Err(error) => return Err(error.to_string()),
        }
    }
    Ok(values)
}

/// Parses one JSON text into the model (see [`json_parse_result`]).
pub fn json_from_text(text: &str) -> (r: Result<JsonValue, String>)
    ensures
        match r {
            Ok(v) => json_parse_result(text@) == Ok::<JsonValue, Seq<char>>(v),
            Err(e) => json_parse_result(text@) == Err::<JsonValue, Seq<char>>(e@),
        },
{
    parse_json(text)
}

} // verus!
