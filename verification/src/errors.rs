//! The errors of the outside parts, and the words in which they are
//! reported.

use tokio::sync::mpsc::error::SendError;
use tokio::task::JoinError;
use vstd::prelude::*;
use vstd::string::StringExecFns;

verus! {

/// The error of an HTTP request made with reqwest.
#[verifier::external_type_specification]
#[verifier::external_body]
pub struct ExReqwestError(reqwest::Error);

/// The error of the CSV reader.
#[verifier::external_type_specification]
#[verifier::external_body]
pub struct ExCsvError(csv_async::Error);

/// The error of the MongoDB driver.
#[verifier::external_type_specification]
#[verifier::external_body]
pub struct ExMongoError(mongodb::error::Error);

/// The error with which tokio reports a task that did not run to its end.
#[verifier::external_type_specification]
#[verifier::external_body]
pub struct ExJoinError(JoinError);

/// The error with which tokio's channel hands a message back. Its one
/// field is the message.
#[verifier::external_type_specification]
pub struct ExSendError<T>(SendError<T>);

/// The text that `Display` gives for a `reqwest::Error`. It depends on what is
/// inside the error, so nothing is claimed of it.
#[verifier::external_body]
pub(crate) fn reqwest_error_text(error: &reqwest::Error) -> (text: String) {
    format!("{}", error)
}

/// The text that `Display` gives for a `csv_async::Error`. Nothing is claimed
/// of it.
#[verifier::external_body]
pub(crate) fn csv_error_text(error: &csv_async::Error) -> (text: String) {
    format!("{}", error)
}

/// The text that `Display` gives for a `mongodb::error::Error`. Nothing is
/// claimed of it.
#[verifier::external_body]
pub(crate) fn mongo_error_text(error: &mongodb::error::Error) -> (text: String) {
    format!("{}", error)
}

/// The text that `Display` gives for a `tokio::task::JoinError`. Nothing is
/// claimed of it.
#[verifier::external_body]
pub(crate) fn join_error_text(error: &JoinError) -> (text: String) {
    format!("{}", error)
}

/// The text that `Display` gives for tokio's `SendError`: always the words
/// `channel closed`, whatever the message that came back.
#[verifier::external_body]
pub(crate) fn send_error_text<T>(error: &SendError<T>) -> (text: String)
    ensures
        text@ == "channel closed"@,
{
    format!("{}", error)
}

/// `text` begins with `label`.
pub open spec fn begins_with(text: Seq<char>, label: Seq<char>) -> bool {
    label.len() <= text.len() && text.subrange(0, label.len() as int) == label
}

/// Puts a label in front of a detail.
pub fn labelled(label: &str, detail: &str) -> (text: String)
    ensures
        text@ == label@ + detail@,
        begins_with(text@, label@),
{
    let mut text = String::from_str(label);
    text.append(detail);
    assert(text@.subrange(0, label@.len() as int) =~= label@);
    text
}

} // verus!
