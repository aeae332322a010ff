//! The JSON values that request and response bodies carry.
//!
//! A body that is JSON is held as a `serde_json::Value`. The library never
//! looks inside one: it obtains a value by parsing a text, and reads it back
//! only as the text of its compact serialisation. Verus therefore knows a
//! value by that text alone, and the functions below are the whole of what
//! is taken on trust about `serde_json`.

use vstd::prelude::*;

verus! {

/// `serde_json::Value`, a JSON value of any kind. It is carried through
/// and never taken apart.
#[verifier::external_type_specification]
#[verifier::external_body]
pub struct ExJsonValue(serde_json::Value);

/// `serde_json::Error`, the reason for which a text is no JSON. It is
/// dropped where it arises.
#[verifier::external_type_specification]
#[verifier::external_body]
pub struct ExJsonError(serde_json::Error);

/// What a JSON value holds, as the text of its compact serialisation: no
/// whitespace between tokens, the members of an object in the order in
/// which the value keeps them.
pub uninterp spec fn json_text(value: serde_json::Value) -> Seq<char>;

/// The compact serialisation of the value that `serde_json` parses `text`
/// to; `None` where it refuses the text.
pub uninterp spec fn json_compact(text: Seq<char>) -> Option<Seq<char>>;

/// `serde_json::from_str::<Value>`. Parsing is a function of the text alone:
/// whether it succeeds, and what the resulting value serialises to, are
/// named by `json_compact`. Nothing is claimed about the error.
#[verifier::external_body]
pub(crate) fn parse_json(text: &str) -> (parsed: Result<serde_json::Value, serde_json::Error>)
    ensures
        parsed is Ok <==> json_compact(text@) is Some,
        parsed is Ok ==> json_compact(text@) == Some(json_text(parsed->Ok_0)),
{
    serde_json::from_str::<serde_json::Value>(text)
}

/// `serde_json::to_string` on a `Value`. It cannot fail there: the writer is
/// a buffer in memory, the keys of every object are strings, and a number
/// that is not finite is written as `null`. The text it returns is what
/// `json_text` names.
#[verifier::external_body]
pub(crate) fn json_to_string(value: &serde_json::Value) -> (text: Result<String, serde_json::Error>)
    ensures
        text is Ok,
        text->Ok_0@ == json_text(*value),
{
    serde_json::to_string(value)
}

/// `Clone` for `Value` copies the whole tree, so that the copy is the same
/// value.
pub assume_specification[ <serde_json::Value as Clone>::clone ](
    value: &serde_json::Value,
) -> (copy: serde_json::Value)
    ensures
        copy == *value,
;

} // verus!
