use vstd::prelude::*;

use crate::text::same_text;

verus! {

/// A JSON document as plain values. Object members keep the order in which
/// the parser hands them out.
pub enum Json {
    Null,
    Bool(bool),
    /// The number as the parser prints it.
    Number(String),
    Str(String),
    Array(Vec<Json>),
    Object(Vec<(String, Json)>),
}

/// serde_json's value tree, opaque here; only `json_of_value` reads it.
#[verifier::external_type_specification]
#[verifier::external_body]
pub struct ExJsonValue(serde_json::Value);

/// The document that `text` parses to, or `None` where it is not valid JSON.
pub uninterp spec fn parsed_json(text: Seq<char>) -> Option<Json>;

/// Relies on serde_json::from_str into serde_json::Value: the value depends
/// on the text alone, and invalid text is an error.
#[verifier::external_body]
pub(crate) fn parse_json(text: &str) -> (r: Option<Json>)
    ensures
        r == parsed_json(text@),
{
    serde_json::from_str::<serde_json::Value>(text).ok().map(|v| json_of_value(&v))
}

/// Copies serde_json's value tree into `Json`, node for node; only
/// `parse_json` calls it.
#[verifier::external_body]
fn json_of_value(v: &serde_json::Value) -> Json {
    match v {
        serde_json::Value::Null => Json::Null,
        serde_json::Value::Bool(b) => Json::Bool(*b),
        serde_json::Value::Number(n) => Json::Number(n.to_string()),
        serde_json::Value::String(s) => Json::Str(s.clone()),
        serde_json::Value::Array(a) => Json::Array(a.iter().map(json_of_value).collect()),
        serde_json::Value::Object(m) => Json::Object(
            m.iter().map(|(k, x)| (k.clone(), json_of_value(x))).collect(),
        ),
    }
}

/// The value of the first member of `fields` named `key`.
pub open spec fn lookup(fields: Seq<(String, Json)>, key: Seq<char>) -> Option<Json>
    decreases fields.len(),
{
    if fields.len() == 0 {
        None
    } else if fields[0].0@ == key {
        Some(fields[0].1)
    } else {
        lookup(fields.drop_first(), key)
    }
}

/// The member `key` of an object; `None` for a non-object or a missing key.
pub open spec fn member(v: Json, key: Seq<char>) -> Option<Json> {
    match v {
        Json::Object(fields) => lookup(fields@, key),
        _ => None,
    }
}

/// The text of a string member `key`.
pub open spec fn str_member(v: Json, key: Seq<char>) -> Option<Seq<char>> {
    match member(v, key) {
        Some(Json::Str(s)) => Some(s@),
        _ => None,
    }
}

impl Json {
    /// The member `key` of an object.
    pub fn get(&self, key: &str) -> (r: Option<&Json>)
        ensures
            r matches Some(x) ==> member(*self, key@) == Some(*x),
            r is None ==> member(*self, key@) is None,
    {
        match self {
            Json::Object(fields) => {
                let mut i: usize = 0;
                assert(fields@.skip(0) =~= fields@);
                while i < fields.len()
                    invariant
                        i <= fields.len(),
                        lookup(fields@, key@) == lookup(fields@.skip(i as int), key@),
                        member(*self, key@) == lookup(fields@, key@),
                    decreases fields.len() - i,
                {
                    assert(fields@.skip(i as int).drop_first() =~= fields@.skip(i + 1));
                    assert(fields@.skip(i as int)[0] == fields@[i as int]);
                    if same_text(fields[i].0.as_str(), key) {
                        assert(lookup(fields@.skip(i as int), key@) == Some(fields@[i as int].1));
                        return Some(&fields[i].1);
                    }
                    i = i + 1;
                }
                None
            },
            _ => None,
        }
    }

    /// The text of a string.
    pub fn as_str(&self) -> (r: Option<&String>)
        ensures
            r matches Some(s) ==> *self == Json::Str(*s),
            r is None ==> !(*self is Str),
    {
        match self {
            Json::Str(s) => Some(s),
            _ => None,
        }
    }

    /// The text of the string member `key`.
    pub fn get_str(&self, key: &str) -> (r: Option<&String>)
        ensures
            r matches Some(s) ==> str_member(*self, key@) == Some(s@),
            r is None ==> str_member(*self, key@) is None,
    {
        match self.get(key) {
            Some(x) => x.as_str(),
            None => None,
        }
    }
}

} // verus!
