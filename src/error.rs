//! The kinds of failure that callers can branch on.

use vstd::prelude::*;
use vstd::string::StringExecFns;

verus! {

/// What can go wrong while building or showing a tree.
pub enum NomadError {
    /// The match pattern does not compile; the text says why.
    RegexError(String),
    /// No entry was left to show.
    NothingFound,
    /// The version-control backend failed.
    GitError(String),
    /// Reading or writing a file failed.
    IoError(String),
    /// The terminal could not be set up or restored.
    TerminalError(String),
    /// A label or number does not name an entry of the last render.
    UnknownItem(String),
}

/// The text shown for an error.
pub open spec fn message_of(e: NomadError) -> Seq<char> {
    match e {
        NomadError::RegexError(m) => m@,
        NomadError::NothingFound => "No items were found"@,
        NomadError::GitError(m) => m@,
        NomadError::IoError(m) => m@,
        NomadError::TerminalError(m) => m@,
        NomadError::UnknownItem(m) => m@,
    }
}

impl NomadError {
    /// The text shown for the error.
    pub fn message(&self) -> (r: String)
        ensures
            r@ == message_of(*self),
    {
        match self {
            NomadError::RegexError(m) => m.clone(),
            NomadError::NothingFound => String::from_str("No items were found"),
            NomadError::GitError(m) => m.clone(),
            NomadError::IoError(m) => m.clone(),
            NomadError::TerminalError(m) => m.clone(),
            NomadError::UnknownItem(m) => m.clone(),
        }
    }
}

} // verus!
