//! Error taxonomy of the catalog core. Every externally visible failure
//! carries the offending index name or field name, so a request layer can
//! map it to a protocol response without re-deriving context.

use vstd::prelude::*;

verus! {

/// A typed failure of a catalog, handle, scheduler or router operation.
#[derive(Debug)]
pub enum Error {
    /// An operation targeted an index name that is not registered.
    NotFound(String),
    /// `create_index` was given a name that is already registered.
    AlreadyExists(String),
    /// A document field failed schema typing; carries the offending field name.
    SchemaValidationError(String),
    /// A write was attempted while the handle's writer is committing.
    WriterBusy,
    /// The underlying engine reported an I/O failure during a commit flush.
    CommitFailure,
    /// One index's persisted record was unreadable during startup loading;
    /// carries the name of the skipped index.
    StartupLoadError(String),
    /// A forced commit during shutdown did not finish within the grace period.
    ShutdownDrainTimeout,
}

impl Error {
    /// True when two errors are the same kind and carry the same name or field.
    pub open spec fn spec_same_error(self, other: Error) -> bool {
        match (self, other) {
            (Error::NotFound(a), Error::NotFound(b)) => a@ == b@,
            (Error::AlreadyExists(a), Error::AlreadyExists(b)) => a@ == b@,
            (Error::SchemaValidationError(a), Error::SchemaValidationError(b)) => a@ == b@,
            (Error::WriterBusy, Error::WriterBusy) => true,
            (Error::CommitFailure, Error::CommitFailure) => true,
            (Error::StartupLoadError(a), Error::StartupLoadError(b)) => a@ == b@,
            (Error::ShutdownDrainTimeout, Error::ShutdownDrainTimeout) => true,
            _ => false,
        }
    }
}

impl Clone for Error {
    fn clone(&self) -> (r: Error)
        ensures
            r.spec_same_error(*self),
    {
        match self {
            Error::NotFound(n) => Error::NotFound(n.clone()),
            Error::AlreadyExists(n) => Error::AlreadyExists(n.clone()),
            Error::SchemaValidationError(f) => Error::SchemaValidationError(f.clone()),
            Error::WriterBusy => Error::WriterBusy,
            Error::CommitFailure => Error::CommitFailure,
            Error::StartupLoadError(n) => Error::StartupLoadError(n.clone()),
            Error::ShutdownDrainTimeout => Error::ShutdownDrainTimeout,
        }
    }
}

impl PartialEq for Error {
    fn eq(&self, other: &Error) -> (r: bool) {
        match (self, other) {
            (Error::NotFound(a), Error::NotFound(b)) => *a == *b,
            (Error::AlreadyExists(a), Error::AlreadyExists(b)) => *a == *b,
            (Error::SchemaValidationError(a), Error::SchemaValidationError(b)) => *a == *b,
            (Error::WriterBusy, Error::WriterBusy) => true,
            (Error::CommitFailure, Error::CommitFailure) => true,
            (Error::StartupLoadError(a), Error::StartupLoadError(b)) => *a == *b,
            (Error::ShutdownDrainTimeout, Error::ShutdownDrainTimeout) => true,
            _ => false,
        }
    }
}

impl vstd::std_specs::cmp::PartialEqSpecImpl for Error {
    open spec fn obeys_eq_spec() -> bool {
        true
    }

    open spec fn eq_spec(&self, other: &Error) -> bool {
        self.spec_same_error(*other)
    }
}

} // verus!
