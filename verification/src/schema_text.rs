//! Reading the JSON text of a batch schema, and turning bytes into text.

use vstd::prelude::*;
use vstd::utf8::*;

verus! {

/// `serde_json::Error`: why a text could not be parsed. The library only
/// hands it from the parser to the function that describes it.
#[verifier::external_type_specification]
#[verifier::external_body]
pub struct ExJsonError(serde_json::Error);

/// The field names, in order, of the batch schema that a JSON text holds, or
/// `None` where the text is no schema.
pub uninterp spec fn json_schema_fields(json: Seq<char>) -> Option<Seq<Seq<char>>>;

/// Parses `json` as an `arrow_schema::Schema` with `serde_json::from_str` and
/// hands out the names of its fields in order. Trusted: that the outcome is
/// a function of the text alone, which `json_schema_fields` names.
#[verifier::external_body]
pub(crate) fn parse_schema_fields(json: &str) -> (r: Result<Vec<String>, serde_json::Error>)
    ensures
        match json_schema_fields(json@) {
            Some(names) => r matches Ok(fields) && fields.deep_view() == names,
            None => r is Err,
        },
{
    serde_json::from_str::<arrow_schema::Schema>(json).map(
        |schema| schema.fields().iter().map(|field| field.name().clone()).collect(),
    )
}

/// The `Debug` text of a `serde_json::Error`. Trusted: nothing.
#[verifier::external_body]
pub(crate) fn describe_json_error(error: &serde_json::Error) -> String {
    format!("{:?}", error)
}

/// Checks with `core::str::from_utf8` that `bytes` are UTF-8 and copies them
/// into a string. Trusted: that the check accepts exactly the valid UTF-8
/// sequences and that the string then holds the characters they encode.
#[verifier::external_body]
pub(crate) fn utf8_to_string(bytes: &[u8]) -> (r: Option<String>)
    ensures
        match r {
            Some(text) => valid_utf8(bytes@) && text@ == decode_utf8(bytes@),
            None => !valid_utf8(bytes@),
        },
{
    core::str::from_utf8(bytes).ok().map(|text| text.to_owned())
}

} // verus!
