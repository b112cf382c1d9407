//! Faults reported by the driver and the errors the repository makes of them.

use vstd::prelude::*;
use vstd::string::StringExecFns;

use crate::ident::DocId;
use crate::kind::Kind;

verus! {

/// The kinds of filesystem fault that the repository tells apart.
#[derive(Debug, Clone, Copy, PartialEq, Eq, Hash)]
pub enum FaultKind {
    /// The path, or a directory on the way to it, does not exist.
    NotFound,
    /// Something already stands at the path.
    AlreadyExists,
    /// A directory that had to be empty holds entries.
    NotEmpty,
    /// Any other fault: permissions, the device, malformed data.
    Other,
}

/// A failed filesystem step, as the driver reports it.
#[derive(Debug, Clone, PartialEq, Eq, Hash)]
pub struct IoFault {
    pub kind: FaultKind,
    /// The storage layer's own words, kept verbatim.
    pub message: String,
}

/// Everything an operation of the repository can fail with.
#[derive(Debug, Clone, PartialEq, Eq)]
pub enum RepositoryError {
    /// A bundle that had to be there is gone.
    NotFound,
    /// A text is not the text of any identifier.
    InvalidIdentifier,
    /// The place a bundle was to move to is taken.
    Conflict,
    /// A typed accessor needs a fragment that the bundle does not hold.
    MissingFragment { kind: Kind, bundle: DocId },
    /// The storage layer failed; its fault is handed on unchanged.
    IoFailure(IoFault),
    /// The extraction engine ended with a status other than zero.
    ExtractionFailure(String),
}

impl RepositoryError {
    /// What the error says.
    pub open spec fn text(self) -> Seq<char> {
        match self {
            RepositoryError::NotFound => "Bundle not found"@,
            RepositoryError::InvalidIdentifier => "Invalid document ID"@,
            RepositoryError::Conflict => "Bundle already exists"@,
            RepositoryError::MissingFragment { kind, bundle } => (match kind {
                Kind::Plaintext => "Plaintext missing in bundle: "@,
                Kind::Metadata => "Metadata missing in bundle: "@,
                _ => "Fragment missing in bundle: "@,
            }) + bundle.text(),
            RepositoryError::IoFailure(fault) => fault.message@,
            RepositoryError::ExtractionFailure(message) => message@,
        }
    }

    /// What the error says. A fault of the storage layer speaks for itself.
    pub fn message(&self) -> (message: String)
        ensures
            message@ == self.text(),
    {
        match self {
            RepositoryError::NotFound => String::from_str("Bundle not found"),
            RepositoryError::InvalidIdentifier => String::from_str("Invalid document ID"),
            RepositoryError::Conflict => String::from_str("Bundle already exists"),
            RepositoryError::MissingFragment { kind, bundle } => {
                let id = bundle.to_base58();
                match kind {
                    Kind::Plaintext => String::from_str("Plaintext missing in bundle: ").concat(
                        id.as_str(),
                    ),
                    Kind::Metadata => String::from_str("Metadata missing in bundle: ").concat(
                        id.as_str(),
                    ),
                    _ => String::from_str("Fragment missing in bundle: ").concat(id.as_str()),
                }
            },
            RepositoryError::IoFailure(fault) => fault.message.clone(),
            RepositoryError::ExtractionFailure(message) => message.clone(),
        }
    }
}

} // verus!
