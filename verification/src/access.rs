//! Reading and writing the fragments of a bundle.
//!
//! A bundle in any state can be read. Only a staged bundle takes new
//! fragments, and only an inboxed bundle takes a new metadata record. What is
//! opened is handed through as the driver gives it: the repository never
//! looks into a fragment.

use vstd::prelude::*;

use crate::error::{FaultKind, IoFault, RepositoryError};
use crate::ident::DocId;
use crate::kind::{Kind, KindView};
use crate::repository::{Bundle, BundleState, Inboxed, Staging};
use crate::request::{OpenMode, Request, RequestView};

verus! {

/// A fragment about to be read, where it may well be missing.
pub struct Reading {
    request: Request,
}

/// A fragment about to be read by an accessor that needs it to be there.
pub struct Required {
    request: Request,
    kind: Kind,
    bundle: DocId,
}

/// A fragment about to be written.
pub struct Writing {
    request: Request,
}

impl Reading {
    /// The file that is read.
    pub closed spec fn path(&self) -> Seq<char> {
        self.request@->Open_path
    }

    #[verifier::type_invariant]
    spec fn opens(&self) -> bool {
        self.request@ == (RequestView::Open { path: self.path(), mode: OpenMode::Read })
    }

    /// What a read comes to: the opened file where there is one, nothing
    /// where there is none, and the fault where the file could not be opened
    /// for any other reason. A missing fragment is no error.
    pub open spec fn settled<F>(opened: Result<F, IoFault>) -> Result<Option<F>, RepositoryError> {
        match opened {
            Ok(file) => Ok(Some(file)),
            Err(fault) => if fault.kind == FaultKind::NotFound {
                Ok(None)
            } else {
                Err(RepositoryError::IoFailure(fault))
            },
        }
    }

    /// The step to take: open the file for reading.
    pub fn request(&self) -> (request: &Request)
        ensures
            request@ == (RequestView::Open { path: self.path(), mode: OpenMode::Read }),
    {
        proof {
            use_type_invariant(self);
        }
        &self.request
    }

    /// Ends the read with what the driver got when it opened the file.
    pub fn settle<F>(self, opened: Result<F, IoFault>) -> (result: Result<
        Option<F>,
        RepositoryError,
    >)
        ensures
            result == Reading::settled(opened),
    {
        match opened {
            Ok(file) => Ok(Some(file)),
            Err(fault) => match fault.kind {
                FaultKind::NotFound => Ok(None),
                _ => Err(RepositoryError::IoFailure(fault)),
            },
        }
    }
}

impl Required {
    /// The file that is read.
    pub closed spec fn path(&self) -> Seq<char> {
        self.request@->Open_path
    }

    /// The kind of the fragment.
    pub closed spec fn kind(&self) -> Kind {
        self.kind
    }

    /// The bundle that should hold it.
    pub closed spec fn bundle(&self) -> DocId {
        self.bundle
    }

    #[verifier::type_invariant]
    spec fn opens(&self) -> bool {
        self.request@ == (RequestView::Open { path: self.path(), mode: OpenMode::Read })
    }

    /// What a typed read comes to: the opened file where there is one, the
    /// error `MissingFragment` where there is none, and the fault where the
    /// file could not be opened for any other reason.
    pub open spec fn settled<F>(&self, opened: Result<F, IoFault>) -> Result<F, RepositoryError> {
        match opened {
            Ok(file) => Ok(file),
            Err(fault) => if fault.kind == FaultKind::NotFound {
                Err(RepositoryError::MissingFragment { kind: self.kind(), bundle: self.bundle() })
            } else {
                Err(RepositoryError::IoFailure(fault))
            },
        }
    }

    /// The step to take: open the file for reading.
    pub fn request(&self) -> (request: &Request)
        ensures
            request@ == (RequestView::Open { path: self.path(), mode: OpenMode::Read }),
    {
        proof {
            use_type_invariant(self);
        }
        &self.request
    }

    /// Ends the read with what the driver got when it opened the file.
    pub fn settle<F>(self, opened: Result<F, IoFault>) -> (result: Result<F, RepositoryError>)
        ensures
            result == self.settled(opened),
    {
        match opened {
            Ok(file) => Ok(file),
            Err(fault) => match fault.kind {
                FaultKind::NotFound => Err(
                    RepositoryError::MissingFragment { kind: self.kind, bundle: self.bundle },
                ),
                _ => Err(RepositoryError::IoFailure(fault)),
            },
        }
    }
}

impl Writing {
    /// The file that is written.
    pub closed spec fn path(&self) -> Seq<char> {
        self.request@->Open_path
    }

    /// How the file is opened: `Write`, or `ReadWrite` for a metadata record.
    pub closed spec fn mode(&self) -> OpenMode {
        self.request@->Open_mode
    }

    #[verifier::type_invariant]
    spec fn opens(&self) -> bool {
        &&& self.request@ == (RequestView::Open { path: self.path(), mode: self.mode() })
        &&& self.mode() != OpenMode::Read
    }

    /// What a write comes to: the opened file, emptied and ready to take the
    /// fragment, or the fault as it came.
    pub open spec fn settled<F>(opened: Result<F, IoFault>) -> Result<F, RepositoryError> {
        match opened {
            Ok(file) => Ok(file),
            Err(fault) => Err(RepositoryError::IoFailure(fault)),
        }
    }

    /// The step to take: open the file, creating or emptying it.
    pub fn request(&self) -> (request: &Request)
        ensures
            request@ == (RequestView::Open { path: self.path(), mode: self.mode() }),
            self.mode() != OpenMode::Read,
    {
        proof {
            use_type_invariant(self);
        }
        &self.request
    }

    /// Ends the write with what the driver got when it opened the file.
    pub fn settle<F>(self, opened: Result<F, IoFault>) -> (result: Result<F, RepositoryError>)
        ensures
            result == Writing::settled(opened),
    {
        match opened {
            Ok(file) => Ok(file),
            Err(fault) => Err(RepositoryError::IoFailure(fault)),
        }
    }
}

impl<'r, State: BundleState> Bundle<'r, State> {
    fn require(&self, kind: Kind) -> (required: Required)
        ensures
            required.path() == self@.path_of(kind@),
            required.kind() == kind,
            required.bundle()@ == self@.id,
    {
        let request = Request::Open { path: self.path_of(&kind), mode: OpenMode::Read };
        Required { request, kind, bundle: *self.id() }
    }

    /// Reads a fragment of the bundle. That the bundle holds no fragment of
    /// the kind is an answer, not an error.
    pub fn read(&self, kind: &Kind) -> (reading: Reading)
        ensures
            reading.path() == self@.path_of(kind@),
    {
        Reading { request: Request::Open { path: self.path_of(kind), mode: OpenMode::Read } }
    }

    /// Reads the plain text of the bundle, which has to be there.
    pub fn read_plaintext(&self) -> (required: Required)
        ensures
            required.path() == self@.path_of(KindView::Plaintext),
            required.kind() == Kind::Plaintext,
            required.bundle()@ == self@.id,
    {
        self.require(Kind::Plaintext)
    }

    /// Reads the metadata record of the bundle, which has to be there.
    pub fn read_metadata(&self) -> (required: Required)
        ensures
            required.path() == self@.path_of(KindView::Metadata),
            required.kind() == Kind::Metadata,
            required.bundle()@ == self@.id,
    {
        self.require(Kind::Metadata)
    }
}

impl<'r> Bundle<'r, Staging> {
    /// Writes a fragment into the staged bundle. What the bundle held of the
    /// kind before is overwritten.
    pub fn write(&self, kind: Kind) -> (writing: Writing)
        ensures
            writing.path() == self@.path_of(kind@),
            writing.mode() == OpenMode::Write,
    {
        Writing { request: Request::Open { path: self.path_of(&kind), mode: OpenMode::Write } }
    }
}

impl<'r> Bundle<'r, Inboxed> {
    /// Writes the metadata record of the inboxed bundle anew. The file is
    /// opened for reading too.
    pub fn write_metadata(&self) -> (writing: Writing)
        ensures
            writing.path() == self@.path_of(KindView::Metadata),
            writing.mode() == OpenMode::ReadWrite,
    {
        Writing {
            request: Request::Open {
                path: self.path_of(&Kind::Metadata),
                mode: OpenMode::ReadWrite,
            },
        }
    }
}

} // verus!
