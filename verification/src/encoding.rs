//! The stored form of a challenge and of an answer key: a JSON array of
//! strings, written and read by `serde_json`.
//!
//! What `serde_json` makes of a list, and of a text, depends on that value
//! alone; the two names below stand for it. A failure to write is reported as
//! a failure of the store, a text that is no array of strings as corrupt data.

use vstd::prelude::*;
use crate::errors::ModelError;
use crate::text::texts;

verus! {

/// `serde_json::Error`: why a text could not be written or read.
#[verifier::external_type_specification]
#[verifier::external_body]
pub struct ExJsonError(serde_json::Error);

/// The JSON text that `serde_json` writes for a list of strings, if it writes
/// one.
pub uninterp spec fn encoded_strings(list: Seq<Seq<char>>) -> Option<Seq<char>>;

/// The list of strings that `serde_json` reads from a JSON text, if the text
/// is an array of strings.
pub uninterp spec fn decoded_strings(json: Seq<char>) -> Option<Seq<Seq<char>>>;

/// `serde_json::to_string` on a list of strings returns its JSON text or an
/// error; which, and what text, depends on the list alone.
#[verifier::external_body]
fn strings_to_json(list: &Vec<String>) -> (written: Result<String, serde_json::Error>)
    ensures
        match written {
            Ok(json) => encoded_strings(texts(list@)) == Some(json@),
            Err(_) => encoded_strings(texts(list@)) is None,
        },
{
    serde_json::to_string(list)
}

/// `serde_json::from_str`, asked for a list of strings, returns the list that
/// the text holds or an error; which, and what list, depends on the text
/// alone.
#[verifier::external_body]
fn strings_from_json(json: &str) -> (read: Result<Vec<String>, serde_json::Error>)
    ensures
        match read {
            Ok(list) => decoded_strings(json@) == Some(texts(list@)),
            Err(_) => decoded_strings(json@) is None,
        },
{
    serde_json::from_str(json)
}

/// Writes a list of strings as JSON. Where `serde_json` writes no text, the
/// list cannot be stored.
pub fn encode_strings(list: &Vec<String>) -> (written: Result<String, ModelError>)
    ensures
        match written {
            Ok(json) => encoded_strings(texts(list@)) == Some(json@),
            Err(error) => encoded_strings(texts(list@)) is None && error == ModelError::StorageError,
        },
{
    match strings_to_json(list) {
        Ok(json) => Ok(json),
        Err(_) => Err(ModelError::StorageError),
    }
}

/// Reads a stored list of strings. A text that is no JSON array of strings is
/// corrupt data.
pub fn decode_strings(json: &str) -> (read: Result<Vec<String>, ModelError>)
    ensures
        match read {
            Ok(list) => decoded_strings(json@) == Some(texts(list@)),
            Err(error) => decoded_strings(json@) is None && error
                == ModelError::DeserializeError,
        },
{
    match strings_from_json(json) {
        Ok(list) => Ok(list),
        Err(_) => Err(ModelError::DeserializeError),
    }
}

} // verus!
