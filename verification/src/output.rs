//! What the tool printed, as text.
//!
//! A process hands back bytes. The log is text, encoded in UTF-8; bytes that
//! are no UTF-8 cannot be a log, and count as a failure to run the tool.

use vstd::prelude::*;
use vstd::utf8::{decode_utf8, valid_utf8};
use crate::error::HistoryError;

verus! {

#[verifier::external_type_specification]
#[verifier::external_body]
pub struct ExNotUtf8(std::string::FromUtf8Error);

/// Calls `String::from_utf8`.
///
/// Trusted: it succeeds exactly on bytes that are valid UTF-8, and the string
/// is then the text that the bytes encode.
#[verifier::external_body]
pub(crate) fn string_of_bytes(bytes: Vec<u8>) -> (r: Result<String, std::string::FromUtf8Error>)
    ensures
        match r {
            Ok(text) => valid_utf8(bytes@) && text@ == decode_utf8(bytes@),
            Err(_) => !valid_utf8(bytes@),
        },
{
    String::from_utf8(bytes)
}

/// Turns what decoding the bytes gave into this crate's terms: text stays as
/// it is, bytes that were refused are reported as output that is no text.
pub fn text_or_failure(decoded: Result<String, std::string::FromUtf8Error>) -> (r: Result<
    String,
    HistoryError,
>)
    ensures
        match decoded {
            Ok(text) => r == Ok::<String, HistoryError>(text),
            Err(_) => r matches Err(e) && e.is_unreadable_output(),
        },
{
    match decoded {
        Ok(text) => Ok(text),
        Err(_) => Err(HistoryError::unreadable_output()),
    }
}

/// Reads the bytes that the tool printed as text.
pub fn text_of_output(stdout: Vec<u8>) -> (r: Result<String, HistoryError>)
    ensures
        match r {
            Ok(text) => valid_utf8(stdout@) && text@ == decode_utf8(stdout@),
            Err(e) => !valid_utf8(stdout@) && e.is_unreadable_output(),
        },
{
    text_or_failure(string_of_bytes(stdout))
}

} // verus!
