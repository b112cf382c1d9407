//! What the repository asks of the filesystem, and how a pending operation
//! is settled with what came of it.

use vstd::prelude::*;

use crate::error::{FaultKind, IoFault, RepositoryError};

verus! {

/// How a fragment file is opened.
#[derive(Debug, Clone, Copy, PartialEq, Eq, Hash)]
pub enum OpenMode {
    /// For reading; the file must exist.
    Read,
    /// For writing; the file is created if it is missing and emptied if it is
    /// not.
    Write,
    /// As `Write`, and readable too.
    ReadWrite,
}

/// One step for the driver to carry out on the filesystem.
#[derive(Debug, Clone, PartialEq, Eq, Hash)]
pub enum Request {
    /// Create the directory and every missing directory above it; no fault if
    /// it is already there.
    CreateDirAll { path: String },
    /// Move a directory to a new path in one step. Nothing is replaced: the
    /// step fails with `NotFound` where the directory is not there, and with
    /// `AlreadyExists` where anything stands at the new path, be it an empty
    /// directory.
    Rename { from: String, to: String },
    /// Remove the directory with everything in it. The step fails with
    /// `NotFound` where the directory is not there.
    RemoveDirAll { path: String },
    /// Open a file.
    Open { path: String, mode: OpenMode },
    /// List the entries of a directory with their modification times.
    ReadDir { path: String },
    /// Look whether anything stands at the path.
    Probe { path: String },
}

/// A [`Request`] with its paths as sequences of characters.
pub enum RequestView {
    CreateDirAll { path: Seq<char> },
    Rename { from: Seq<char>, to: Seq<char> },
    RemoveDirAll { path: Seq<char> },
    Open { path: Seq<char>, mode: OpenMode },
    ReadDir { path: Seq<char> },
    Probe { path: Seq<char> },
}

impl View for Request {
    type V = RequestView;

    open spec fn view(&self) -> RequestView {
        match self {
            Request::CreateDirAll { path } => RequestView::CreateDirAll { path: path@ },
            Request::Rename { from, to } => RequestView::Rename { from: from@, to: to@ },
            Request::RemoveDirAll { path } => RequestView::RemoveDirAll { path: path@ },
            Request::Open { path, mode } => RequestView::Open { path: path@, mode: *mode },
            Request::ReadDir { path } => RequestView::ReadDir { path: path@ },
            Request::Probe { path } => RequestView::Probe { path: path@ },
        }
    }
}

/// The error that a failed step amounts to.
///
/// A move whose source is gone reports the bundle as not found, a move onto
/// something that is already there reports a conflict, and a removal of what
/// is gone reports not found. Every other fault is handed on as it came.
pub open spec fn failure(request: RequestView, fault: IoFault) -> RepositoryError {
    match request {
        RequestView::Rename { .. } => match fault.kind {
            FaultKind::NotFound => RepositoryError::NotFound,
            FaultKind::AlreadyExists => RepositoryError::Conflict,
            FaultKind::NotEmpty => RepositoryError::Conflict,
            FaultKind::Other => RepositoryError::IoFailure(fault),
        },
        RequestView::RemoveDirAll { .. } => match fault.kind {
            FaultKind::NotFound => RepositoryError::NotFound,
            _ => RepositoryError::IoFailure(fault),
        },
        _ => RepositoryError::IoFailure(fault),
    }
}

/// The error that a failed step amounts to.
pub fn fail(request: &Request, fault: IoFault) -> (error: RepositoryError)
    ensures
        error == failure(request@, fault),
{
    match request {
        Request::Rename { .. } => match fault.kind {
            FaultKind::NotFound => RepositoryError::NotFound,
            FaultKind::AlreadyExists => RepositoryError::Conflict,
            FaultKind::NotEmpty => RepositoryError::Conflict,
            FaultKind::Other => RepositoryError::IoFailure(fault),
        },
        Request::RemoveDirAll { .. } => match fault.kind {
            FaultKind::NotFound => RepositoryError::NotFound,
            _ => RepositoryError::IoFailure(fault),
        },
        _ => RepositoryError::IoFailure(fault),
    }
}

/// How the driver fared with the steps of a pending operation. It carries
/// them out in order and stops at the first that fails.
#[derive(Debug, Clone, PartialEq, Eq, Hash)]
pub enum Outcome {
    /// Every step succeeded.
    Completed,
    /// The step at this place failed; none after it was tried.
    Failed { step: usize, fault: IoFault },
}

/// An operation that is decided but not yet carried out: the steps to take,
/// and what the operation yields once all of them have succeeded. The value
/// cannot be had without settling.
pub struct Pending<T> {
    steps: Vec<Request>,
    value: T,
}

impl<T> Pending<T> {
    /// The steps of the operation, in order.
    pub closed spec fn steps(&self) -> Seq<RequestView> {
        Seq::new(self.steps@.len(), |i: int| self.steps@[i]@)
    }

    /// What the operation yields when it succeeds.
    pub closed spec fn value(&self) -> T {
        self.value
    }

    /// What the operation comes to under an outcome.
    pub open spec fn settled(&self, outcome: Outcome) -> Result<T, RepositoryError> {
        match outcome {
            Outcome::Completed => Ok(self.value()),
            Outcome::Failed { step, fault } => if step < self.steps().len() {
                Err(failure(self.steps()[step as int], fault))
            } else {
                Err(RepositoryError::IoFailure(fault))
            },
        }
    }

    pub(crate) fn new(steps: Vec<Request>, value: T) -> (pending: Pending<T>)
        ensures
            pending.steps() == Seq::new(steps@.len(), |i: int| steps@[i]@),
            pending.value() == value,
    {
        Pending { steps, value }
    }

    /// The steps of the operation, in order.
    pub fn requests(&self) -> (requests: &Vec<Request>)
        ensures
            requests@.len() == self.steps().len(),
            forall|i: int| 0 <= i < requests@.len() ==> (#[trigger] requests@[i])@ == self.steps()[i],
    {
        &self.steps
    }

    /// Ends the operation with what the driver reports.
    pub fn settle(self, outcome: Outcome) -> (result: Result<T, RepositoryError>)
        ensures
            result == self.settled(outcome),
    {
        match outcome {
            Outcome::Completed => Ok(self.value),
            Outcome::Failed { step, fault } => if step < self.steps.len() {
                Err(fail(&self.steps[step], fault))
            } else {
                Err(RepositoryError::IoFailure(fault))
            },
        }
    }
}

} // verus!
