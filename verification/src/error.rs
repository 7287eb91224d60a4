//! The errors of the transfer logic, with the messages that users see.

use vstd::prelude::*;
use vstd::string::*;

verus! {

/// Why a transfer step was refused.
#[derive(Clone, Debug, PartialEq, Eq)]
pub enum SendmeError {
    /// The path to send does not exist.
    PathNotFound(String),
    /// A send of several paths was asked for with none.
    NoPaths,
    /// A send of several in-memory files was asked for with none.
    NoFiles,
    /// Two files of one directory walk got the same collection name.
    DuplicateEntry(String),
    /// Two selected files have the same name.
    DuplicateFileName(String),
    /// The ticket text could not be read as a blob ticket.
    InvalidTicket,
}

/// The message of an error, as it is shown.
pub open spec fn error_message(e: SendmeError) -> Seq<char> {
    match e {
        SendmeError::PathNotFound(p) => "Path does not exist: "@ + p@,
        SendmeError::NoPaths => "No paths provided"@,
        SendmeError::NoFiles => "No files provided"@,
        SendmeError::DuplicateEntry(n) => "Duplicate entry in collection: "@ + n@,
        SendmeError::DuplicateFileName(n) => "Duplicate file name in selection: "@ + n@,
        SendmeError::InvalidTicket => "Invalid ticket format"@,
    }
}

impl SendmeError {
    /// The message of this error, as it is shown.
    pub fn message(&self) -> (m: String)
        ensures
            m@ == error_message(*self),
    {
        match self {
            SendmeError::PathNotFound(p) => String::from_str("Path does not exist: ").concat(p.as_str()),
            SendmeError::NoPaths => String::from_str("No paths provided"),
            SendmeError::NoFiles => String::from_str("No files provided"),
            SendmeError::DuplicateEntry(n) => String::from_str("Duplicate entry in collection: ").concat(n.as_str()),
            SendmeError::DuplicateFileName(n) => String::from_str("Duplicate file name in selection: ").concat(n.as_str()),
            SendmeError::InvalidTicket => String::from_str("Invalid ticket format"),
        }
    }
}

} // verus!
