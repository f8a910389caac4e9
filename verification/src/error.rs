//! The ways in which an operation of the store fails.

use vstd::prelude::*;
use vstd::string::*;

verus! {

/// Why an operation of the store failed.
#[derive(Debug, PartialEq, Eq)]
pub enum StoreError {
    /// The session handed to a save is no JSON object.
    InvalidFormat,
    /// The file of the session asked for could not be read.
    NotFound,
    /// The file system, or the writer of the document, refused; the message
    /// is the one it gave.
    IoFailure(String),
    /// The file was read but is no JSON document; the message is the
    /// parser's.
    ParseFailure(String),
}

/// The message of a save that was handed something else than an object.
pub open spec fn invalid_format_text() -> Seq<char> {
    "Invalid session format"@
}

/// The message of a load whose file could not be read. It is fixed: nothing
/// of the path or of the system's own error appears in it.
pub open spec fn not_found_text() -> Seq<char> {
    "Chat not found"@
}

impl StoreError {
    /// The text that the user is shown for this error.
    pub open spec fn message_text(self) -> Seq<char> {
        match self {
            StoreError::InvalidFormat => invalid_format_text(),
            StoreError::NotFound => not_found_text(),
            StoreError::IoFailure(detail) => detail@,
            StoreError::ParseFailure(detail) => detail@,
        }
    }

    /// The text that the user is shown for this error: a fixed sentence for
    /// the first two kinds, the underlying message for the other two.
    pub fn message(&self) -> (text: String)
        ensures
            text@ == self.message_text(),
    {
        match self {
            StoreError::InvalidFormat => String::from_str("Invalid session format"),
            StoreError::NotFound => String::from_str("Chat not found"),
            StoreError::IoFailure(detail) => detail.clone(),
            StoreError::ParseFailure(detail) => detail.clone(),
        }
    }
}

} // verus!
