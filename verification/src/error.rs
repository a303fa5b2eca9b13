//! What a storage command reports when it cannot do its work.

use vstd::prelude::*;

verus! {

/// Why a storage command failed.
///
/// `what` and `rule` are fixed words of the command that failed. `reason` is
/// the message of the JSON reader or writer, passed on as it came.
#[derive(Debug, Clone, PartialEq, Eq)]
pub enum StorageError {
    /// A text handed to the command is no JSON document.
    InvalidJson { what: &'static str, reason: String },
    /// A document carries no string under the name that identifies it.
    MissingId { rule: &'static str },
    /// Nothing is stored under the identifier asked for.
    NotFound { what: &'static str, id: String },
    /// The JSON writer gave up on a document.
    Serialize { what: &'static str, reason: String },
}

/// A [`StorageError`] without the free text of the reader or writer: what
/// the contracts of the commands pin down.
pub enum Fault {
    InvalidJson { what: Seq<char> },
    MissingId { rule: Seq<char> },
    NotFound { what: Seq<char>, id: Seq<char> },
    Serialize { what: Seq<char> },
}

impl View for StorageError {
    type V = Fault;

    open spec fn view(&self) -> Fault {
        match self {
            StorageError::InvalidJson { what, reason } => Fault::InvalidJson { what: what@ },
            StorageError::MissingId { rule } => Fault::MissingId { rule: rule@ },
            StorageError::NotFound { what, id } => Fault::NotFound { what: what@, id: id@ },
            StorageError::Serialize { what, reason } => Fault::Serialize { what: what@ },
        }
    }
}

/// What a command hands back, seen as plain values: the text on success,
/// the fault on failure.
pub open spec fn outcome(result: Result<String, StorageError>) -> Result<Seq<char>, Fault> {
    match result {
        Ok(text) => Ok(text@),
        Err(error) => Err(error@),
    }
}

impl StorageError {
    /// The message as one line of text.
    pub open spec fn message_text(self) -> Seq<char> {
        match self {
            StorageError::InvalidJson { what, reason } => "Invalid "@ + what@ + " JSON: "@
                + reason@,
            StorageError::MissingId { rule } => rule@,
            StorageError::NotFound { what, id } => what@ + " not found: "@ + id@,
            StorageError::Serialize { what, reason } => "Failed to serialize "@ + what@ + ": "@
                + reason@,
        }
    }

    /// The message as one line of text.
    pub fn message(&self) -> (text: String)
        ensures
            text@ == self.message_text(),
    {
        match self {
            StorageError::InvalidJson { what, reason } => {
                let mut text = String::from_str("Invalid ");
                text.append(what);
                text.append(" JSON: ");
                text.append(reason.as_str());
                assert(text@ =~= self.message_text());
                text
            },
            StorageError::MissingId { rule } => String::from_str(rule),
            StorageError::NotFound { what, id } => {
                let mut text = String::from_str(what);
                text.append(" not found: ");
                text.append(id.as_str());
                assert(text@ =~= self.message_text());
                text
            },
            StorageError::Serialize { what, reason } => {
                let mut text = String::from_str("Failed to serialize ");
                text.append(what);
                text.append(": ");
                text.append(reason.as_str());
                assert(text@ =~= self.message_text());
                text
            },
        }
    }
}

} // verus!
