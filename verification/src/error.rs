use vstd::prelude::*;

verus! {

/// Every failure a storage backend can report, by kind.
///
/// Fallible operations return one of these rather than panicking; the
/// worker engine decides locally whether a kind is retryable
/// (`BackendUnavailable`, a transient `LeaseExpired`) or must surface to
/// the operator (`NotFound`, `InvalidArgument`, `SerializationFailure`).
#[derive(Clone, Copy, Debug, PartialEq, Eq, Structural)]
pub enum StorageError {
    /// The operation referenced a job id unknown to the backend.
    NotFound,
    /// A mutation was attempted by a caller that no longer holds the
    /// job's lease.
    LeaseExpired,
    /// Transient backend failure; the caller should retry after backoff.
    BackendUnavailable,
    /// The payload could not be encoded or decoded.
    SerializationFailure,
    /// A malformed argument, such as a page number below one.
    InvalidArgument,
}

impl StorageError {
    /// A short human-readable label for the error kind.
    pub fn describe(&self) -> (r: &'static str)
        ensures
            r@ =~= self.label(),
    {
        match self {
            StorageError::NotFound => "job id not found",
            StorageError::LeaseExpired => "lease no longer held",
            StorageError::BackendUnavailable => "backend unavailable",
            StorageError::SerializationFailure => "payload serialization failed",
            StorageError::InvalidArgument => "invalid argument",
        }
    }

    /// The label `describe` returns for each kind.
    pub open spec fn label(&self) -> Seq<char> {
        match self {
            StorageError::NotFound => "job id not found"@,
            StorageError::LeaseExpired => "lease no longer held"@,
            StorageError::BackendUnavailable => "backend unavailable"@,
            StorageError::SerializationFailure => "payload serialization failed"@,
            StorageError::InvalidArgument => "invalid argument"@,
        }
    }
}

} // verus!
