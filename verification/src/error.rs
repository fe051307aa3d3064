//! The ways in which an operation of the tracker can fail.

use vstd::prelude::*;
use vstd::string::*;

verus! {

/// Why an operation could not be carried out.
#[derive(Clone, Copy, Debug, PartialEq, Eq, Structural)]
pub enum StoreError {
    /// No enclosing workspace was found above the starting directory.
    WorkspaceNotFound,
    /// A directory or file could not be created, read or written.
    Io,
    /// A record's text is not a valid record of its kind.
    MalformedRecord,
    /// No ticket or project carries the requested identifier.
    NotFound,
    /// A store already exists where a new one was to be set up.
    AlreadyInitialized,
    /// The greatest identifier has no successor in the fixed format.
    IdentifierOverflow,
    /// An answer matches none of the choices that were offered.
    InvalidChoice,
}

impl StoreError {
    /// The text shown to the user for this error.
    pub open spec fn message_spec(self) -> Seq<char> {
        match self {
            StoreError::WorkspaceNotFound => "Git root not found"@,
            StoreError::Io => "Could not read or write the record store."@,
            StoreError::MalformedRecord => "Malformed record."@,
            StoreError::NotFound => "Ticket not found."@,
            StoreError::AlreadyInitialized => "Repository already exists."@,
            StoreError::IdentifierOverflow => "No identifier is left after the last one."@,
            StoreError::InvalidChoice => "Invalid choice."@,
        }
    }

    /// Renders the error for display.
    pub fn message(&self) -> (text: String)
        ensures
            text@ == self.message_spec(),
    {
        match self {
            StoreError::WorkspaceNotFound => String::from_str("Git root not found"),
            StoreError::Io => String::from_str("Could not read or write the record store."),
            StoreError::MalformedRecord => String::from_str("Malformed record."),
            StoreError::NotFound => String::from_str("Ticket not found."),
            StoreError::AlreadyInitialized => String::from_str("Repository already exists."),
            StoreError::IdentifierOverflow => String::from_str(
                "No identifier is left after the last one.",
            ),
            StoreError::InvalidChoice => String::from_str("Invalid choice."),
        }
    }
}

} // verus!
