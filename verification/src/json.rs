//! JSON values, each handled as its own compact text. Parsing and printing are done by
//! `serde_json`.
use crate::text::owned_view;
use vstd::prelude::*;

verus! {

/// The compact text of the one value that a text holds, as `serde_json::from_str` reads it.
pub uninterp spec fn json_value(raw: Seq<char>) -> Option<Seq<char>>;

/// The compact texts of the values that stand one after the other in a text, as
/// `serde_json::Deserializer::into_iter` reads them; `None` where it reports an error.
pub uninterp spec fn json_stream(raw: Seq<char>) -> Seq<Option<Seq<char>>>;

/// The elements of a value, as `serde_json::Value::as_array` gives them.
pub uninterp spec fn json_elements(value: Seq<char>) -> Option<Seq<Seq<char>>>;

/// The member `key` of a value, as `serde_json::Value::get` gives it.
pub uninterp spec fn json_member(value: Seq<char>, key: Seq<char>) -> Option<Seq<char>>;

/// The number that a value is, as `serde_json::Value::as_u64` gives it.
pub uninterp spec fn json_u64(value: Seq<char>) -> Option<u64>;

/// The string that a value is, as `serde_json::Value::as_str` gives it.
pub uninterp spec fn json_string(value: Seq<char>) -> Option<Seq<char>>;

/// The characters that may stand around a value.
pub open spec fn space(c: char) -> bool {
    c == ' ' || c == '\n' || c == '\t' || c == '\r'
}

/// Nothing but space.
pub open spec fn spaces(s: Seq<char>) -> bool {
    forall|i: int| 0 <= i < s.len() ==> space(#[trigger] s[i])
}

/// The text is this word, with space around it or not.
pub open spec fn is_word(text: Seq<char>, word: Seq<char>) -> bool {
    exists|a: Seq<char>, b: Seq<char>|
        #![trigger spaces(a), spaces(b)]
        spaces(a) && spaces(b) && text == a + word + b
}

/// The truth value that a value is.
pub open spec fn json_bool(value: Seq<char>) -> Option<bool> {
    if is_word(value, "true"@) {
        Some(true)
    } else if is_word(value, "false"@) {
        Some(false)
    } else {
        None
    }
}

/// The value is null.
pub open spec fn json_null(value: Seq<char>) -> bool {
    is_word(value, "null"@)
}

/// The value is an object: one that begins with a brace.
pub open spec fn json_object(value: Seq<char>) -> bool {
    json_value(value) is Some && exists|i: int|
        0 <= i < value.len() && #[trigger] value[i] == '{' && spaces(value.take(i))
}

/// The views of texts.
pub open spec fn texts(v: Seq<String>) -> Seq<Seq<char>> {
    v.map_values(|s: String| s@)
}

/// The views of texts that may be absent.
pub open spec fn optional_texts(v: Seq<Option<String>>) -> Seq<Option<Seq<char>>> {
    v.map_values(|s: Option<String>| owned_view(s))
}

/// The views of a list of texts that may be absent.
pub open spec fn texts_view(v: Option<Vec<String>>) -> Option<Seq<Seq<char>>> {
    match v {
        Some(v) => Some(texts(v@)),
        None => None,
    }
}

/// Calls `serde_json::from_str` and prints the value compactly. Claims only that the outcome
/// is a function of the text.
#[verifier::external_body]
fn read_value(raw: &str) -> (r: Option<String>)
    ensures
        owned_view(r) == json_value(raw@),
{
    serde_json::from_str::<serde_json::Value>(raw).ok().map(|value| value.to_string())
}

/// Calls `serde_json::Deserializer::from_str` and `into_iter`, and prints each value
/// compactly. Claims only that the outcome is a function of the text.
#[verifier::external_body]
fn read_stream(raw: &str) -> (r: Vec<Option<String>>)
    ensures
        optional_texts(r@) == json_stream(raw@),
{
    serde_json::Deserializer::from_str(raw)
        .into_iter::<serde_json::Value>()
        .map(|value| value.ok().map(|value| value.to_string()))
        .collect()
}

/// Calls `serde_json::Value::as_array` on the parsed text and prints each element compactly.
/// Claims only that the outcome is a function of the text.
#[verifier::external_body]
fn read_elements(value: &str) -> (r: Option<Vec<String>>)
    ensures
        texts_view(r) == json_elements(value@),
{
    let value = serde_json::from_str::<serde_json::Value>(value).ok()?;
    value.as_array().map(|elements| elements.iter().map(|element| element.to_string()).collect())
}

/// Calls `serde_json::Value::get` on the parsed text and prints the member compactly. Claims
/// only that the outcome is a function of the text and the key.
#[verifier::external_body]
fn read_member(value: &str, key: &str) -> (r: Option<String>)
    ensures
        owned_view(r) == json_member(value@, key@),
{
    let value = serde_json::from_str::<serde_json::Value>(value).ok()?;
    value.get(key).map(|member| member.to_string())
}

/// Calls `serde_json::Value::as_u64` on the parsed text. Claims only that the outcome is a
/// function of the text.
#[verifier::external_body]
fn read_u64(value: &str) -> (r: Option<u64>)
    ensures
        r == json_u64(value@),
{
    serde_json::from_str::<serde_json::Value>(value).ok()?.as_u64()
}

/// Calls `serde_json::Value::as_str` on the parsed text. Claims only that the outcome is a
/// function of the text.
#[verifier::external_body]
fn read_string(value: &str) -> (r: Option<String>)
    ensures
        owned_view(r) == json_string(value@),
{
    let value = serde_json::from_str::<serde_json::Value>(value).ok()?;
    value.as_str().map(|string| string.to_string())
}

/// Calls `serde_json::Value::as_bool` on the parsed text. Claims that it is the truth value
/// that the text spells.
#[verifier::external_body]
fn read_bool(value: &str) -> (r: Option<bool>)
    ensures
        r == json_bool(value@),
{
    serde_json::from_str::<serde_json::Value>(value).ok()?.as_bool()
}

/// Calls `serde_json::Value::is_null` on the parsed text. Claims that it says whether the text
/// spells null.
#[verifier::external_body]
fn read_null(value: &str) -> (r: bool)
    ensures
        r == json_null(value@),
{
    serde_json::from_str::<serde_json::Value>(value).is_ok_and(|value| value.is_null())
}

/// Calls `serde_json::Value::is_object` on the parsed text. Claims that it says whether the
/// text is a value that begins with a brace.
#[verifier::external_body]
fn read_object(value: &str) -> (r: bool)
    ensures
        r == json_object(value@),
{
    serde_json::from_str::<serde_json::Value>(value).is_ok_and(|value| value.is_object())
}

/// A JSON value.
#[derive(Debug)]
pub struct Json {
    text: String,
}

impl View for Json {
    type V = Seq<char>;

    closed spec fn view(&self) -> Seq<char> {
        self.text@
    }
}

/// The texts of values that may be absent.
pub open spec fn json_view(v: Option<Json>) -> Option<Seq<char>> {
    match v {
        Some(json) => Some(json@),
        None => None,
    }
}

impl Json {
    /// The one value that a text holds.
    pub fn parse(raw: &str) -> (r: Option<Json>)
        ensures
            json_view(r) == json_value(raw@),
    {
        match read_value(raw) {
            Some(text) => Some(Json { text }),
            None => None,
        }
    }

    /// The values that stand one after the other in a text; `None` where one is malformed.
    pub fn stream(raw: &str) -> (r: Vec<Option<Json>>)
        ensures
            r@.map_values(|v: Option<Json>| json_view(v)) == json_stream(raw@),
    {
        let list = read_stream(raw);
        let mut out: Vec<Option<Json>> = Vec::new();
        for i in 0..list.len()
            invariant
                out.len() == i,
                forall|j: int|
                    0 <= j < i ==> json_view(#[trigger] out@[j]) == owned_view(list@[j]),
        {
            match &list[i] {
                Some(text) => out.push(Some(Json { text: text.as_str().to_owned() })),
                None => out.push(None),
            }
        }
        assert(out@.map_values(|v: Option<Json>| json_view(v)) =~= optional_texts(list@));
        out
    }

    /// The elements, if this is an array.
    pub fn elements(&self) -> (r: Option<Vec<Json>>)
        ensures
            match r {
                Some(v) => json_elements(self@) == Some(v@.map_values(|j: Json| j@)),
                None => json_elements(self@) is None,
            },
    {
        let list = match read_elements(self.text.as_str()) {
            Some(list) => list,
            None => {
                return None;
            },
        };
        let mut out: Vec<Json> = Vec::new();
        for i in 0..list.len()
            invariant
                out.len() == i,
                forall|j: int| 0 <= j < i ==> (#[trigger] out@[j])@ == list@[j]@,
        {
            out.push(Json { text: list[i].as_str().to_owned() });
        }
        assert(out@.map_values(|j: Json| j@) =~= texts(list@));
        Some(out)
    }

    /// The member `key`, if this is an object that has one.
    pub fn member(&self, key: &str) -> (r: Option<Json>)
        ensures
            json_view(r) == json_member(self@, key@),
    {
        match read_member(self.text.as_str(), key) {
            Some(text) => Some(Json { text }),
            None => None,
        }
    }

    /// The number, if this is one that a machine integer holds.
    pub fn as_u64(&self) -> (r: Option<u64>)
        ensures
            r == json_u64(self@),
    {
        read_u64(self.text.as_str())
    }

    /// The string, if this is one.
    pub fn as_string(&self) -> (r: Option<String>)
        ensures
            owned_view(r) == json_string(self@),
    {
        read_string(self.text.as_str())
    }

    /// The truth value, if this is one.
    pub fn as_bool(&self) -> (r: Option<bool>)
        ensures
            r == json_bool(self@),
    {
        read_bool(self.text.as_str())
    }

    /// This is null.
    pub fn is_null(&self) -> (r: bool)
        ensures
            r == json_null(self@),
    {
        read_null(self.text.as_str())
    }

    /// This is an object.
    pub fn is_object(&self) -> (r: bool)
        ensures
            r == json_object(self@),
    {
        read_object(self.text.as_str())
    }
}

} // verus!
