//! Errors of the storage.
use crate::request::option_chars;
use vstd::prelude::*;

verus! {

/// `serde_json`'s error.
#[verifier::external_type_specification]
#[verifier::external_body]
pub struct ExJsonError(serde_json::Error);

/// The text of `StoreError::InconsistentLog`.
pub const ERR_INCONSISTENT_LOG: &'static str =
    "a query was received which was expecting data to be in place which does not exist in the log";

/// Error used to trigger Raft shutdown from storage.
#[derive(Clone, Copy, Debug, PartialEq, Eq, Structural)]
pub enum ShutdownError {
    UnsafeStorageError,
}

impl ShutdownError {
    /// The text of the error.
    pub fn message(&self) -> (text: String)
        ensures
            text@ == "unsafe storage error"@,
    {
        "unsafe storage error".to_string()
    }
}

/// Why a request to the store failed.
#[derive(Debug)]
pub enum StoreError {
    /// The log lacks the entry that the state machine has applied last.
    InconsistentLog,
    /// The state machine or the snapshot could not be encoded or decoded.
    Json(serde_json::Error),
}

impl StoreError {
    /// The text that the store gives the error; an error of `serde_json` has its own.
    pub open spec fn text(self) -> Option<Seq<char>> {
        match self {
            StoreError::InconsistentLog => Some(ERR_INCONSISTENT_LOG@),
            StoreError::Json(_) => None,
        }
    }

    /// The text that the store gives the error; an error of `serde_json` has its own.
    pub fn message(&self) -> (text: Option<String>)
        ensures
            option_chars(text) == self.text(),
    {
        match self {
            StoreError::InconsistentLog => Some(ERR_INCONSISTENT_LOG.to_string()),
            StoreError::Json(_) => None,
        }
    }
}

} // verus!
