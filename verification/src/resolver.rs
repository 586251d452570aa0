//! Reading the active ctrace log out of `ctrace status`.
//!
//! The active session log must never be counted as summary debt: it is still
//! being written. `ctrace status` prints a JSON object whose `log` member is
//! the path of that log. Running `ctrace status` is the caller's part; this
//! module reads its output. When the output is not JSON, has no `log`
//! member, or the member is not a non-empty string, there is no active log.

use vstd::prelude::*;

verus! {

#[verifier::external_type_specification]
#[verifier::external_body]
pub struct ExJsonValue(serde_json::Value);

/// A JSON document, as the library reads it. Numbers are kept only as
/// numbers: their values are never read.
#[derive(Debug, PartialEq)]
pub enum JsonValue {
    Null,
    Bool(bool),
    Number,
    Str(String),
    Array(Vec<JsonValue>),
    /// Members of an object, each key once.
    Object(Vec<(String, JsonValue)>),
}

/// What `serde_json::from_str::<serde_json::Value>` makes of `text`, in the
/// library's terms: `None` when `text` is not one JSON document.
pub uninterp spec fn parsed_json(text: Seq<char>) -> Option<JsonValue>;

/// The library's form of a parsed JSON value: each variant of
/// `serde_json::Value` becomes the variant of the same name, member order
/// as the map yields it.
#[verifier::external_body]
fn json_value_from(v: serde_json::Value) -> JsonValue {
    match v {
        serde_json::Value::Null => JsonValue::Null,
        serde_json::Value::Bool(b) => JsonValue::Bool(b),
        serde_json::Value::Number(_) => JsonValue::Number,
        serde_json::Value::String(s) => JsonValue::Str(s),
        serde_json::Value::Array(a) => JsonValue::Array(a.into_iter().map(json_value_from).collect()),
        serde_json::Value::Object(m) => JsonValue::Object(
            m.into_iter().map(|(k, x)| (k, json_value_from(x))).collect(),
        ),
    }
}

/// Parse `text` as one JSON document.
///
/// Trusted: `serde_json::from_str::<serde_json::Value>(text)`, errors
/// dropped, the value converted to `JsonValue`. The contract claims only
/// that the result is `parsed_json(text)`: a function of the text alone.
#[verifier::external_body]
fn parse_json(text: &str) -> (r: Option<JsonValue>)
    ensures
        r == parsed_json(text@),
{
    serde_json::from_str::<serde_json::Value>(text).ok().map(json_value_from)
}

/// The value of the member `key` of an object's members, if there is one.
pub open spec fn member(members: Seq<(String, JsonValue)>, key: Seq<char>) -> Option<JsonValue>
    decreases members.len(),
{
    if members.len() == 0 {
        None
    } else if members[0].0@ == key {
        Some(members[0].1)
    } else {
        member(members.drop_first(), key)
    }
}

/// The active log that a `ctrace status` document names: the `log` member
/// of the top-level object, when it is a non-empty string.
pub open spec fn spec_status_log(doc: Option<JsonValue>) -> Option<Seq<char>> {
    match doc {
        Some(JsonValue::Object(members)) => match member(members@, "log"@) {
            Some(JsonValue::Str(s)) => if s@.len() > 0 {
                Some(s@)
            } else {
                None
            },
            _ => None,
        },
        _ => None,
    }
}

/// The `log` path a parsed `ctrace status` document names, if any.
pub fn status_log_path(doc: &Option<JsonValue>) -> (r: Option<String>)
    ensures
        match r {
            Some(p) => spec_status_log(*doc) == Some(p@),
            None => spec_status_log(*doc) is None,
        },
{
    match doc {
        Some(JsonValue::Object(members)) => {
            let key = String::from_str("log");
            let n = members.len();
            let mut i: usize = 0;
            assert(members@.skip(0) =~= members@);
            while i < n
                invariant
                    n == members@.len(),
                    i <= n,
                    *doc == Some(JsonValue::Object(*members)),
                    key@ == "log"@,
                    member(members@, "log"@) == member(members@.skip(i as int), "log"@),
                decreases n - i,
            {
                let (k, v) = &members[i];
                assert(members@.skip(i as int).drop_first() =~= members@.skip(i + 1));
                assert(members@.skip(i as int)[0] == members@[i as int]);
                assert(*k == members@[i as int].0 && *v == members@[i as int].1);
                if *k == key {
                    match v {
                        JsonValue::Str(s) => {
                            if s.unicode_len() > 0 {
                                return Some(s.clone());
                            } else {
                                return None;
                            }
                        },
                        _ => {
                            return None;
                        },
                    }
                }
                i = i + 1;
            }
            None
        },
        _ => None,
    }
}

/// Parse a `ctrace status` JSON string and return its `log` path, if
/// present, a string, and not empty.
pub fn parse_ctrace_status(json: &str) -> (r: Option<String>)
    ensures
        match r {
            Some(p) => spec_status_log(parsed_json(json@)) == Some(p@),
            None => spec_status_log(parsed_json(json@)) is None,
        },
{
    let doc = parse_json(json);
    status_log_path(&doc)
}

} // verus!
