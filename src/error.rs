//! Errors of this crate, and their kind at the boundary with the host.

use vstd::prelude::*;

verus! {

/// Every failure of this crate.
#[derive(Debug)]
pub enum GCSError {
    /// Returned when a capability is not available.
    NotImplemented(String),
    /// Wraps a failure of the storage service.
    GCS(String),
}

/// What the message of a `NotImplemented` error starts with.
pub open spec fn not_implemented_lead() -> Seq<char> {
    seq!['N', 'o', 't', ' ', 'y', 'e', 't', ' ', 'i', 'm', 'p', 'l', 'e', 'm', 'e', 'n', 't', 'e', 'd', ':', ' ']
}

/// What the message of a `GCS` error starts with.
pub open spec fn store_lead() -> Seq<char> {
    seq!['A', 'W', 'S', ' ', 'e', 'r', 'r', 'o', 'r', ':', ' ']
}

/// The human-readable message of an error.
pub open spec fn message_of(e: GCSError) -> Seq<char> {
    match e {
        GCSError::NotImplemented(desc) => not_implemented_lead() + desc@,
        GCSError::GCS(desc) => store_lead() + desc@,
    }
}

impl GCSError {
    /// The human-readable message of this error.
    pub fn message(&self) -> (r: String)
        ensures
            r@ == message_of(*self),
    {
        proof {
            reveal_strlit("Not yet implemented: ");
            reveal_strlit("AWS error: ");
        }
        match self {
            GCSError::NotImplemented(desc) => {
                let lead = String::from_str("Not yet implemented: ");
                lead.concat(desc.as_str())
            },
            GCSError::GCS(desc) => {
                let lead = String::from_str("AWS error: ");
                lead.concat(desc.as_str())
            },
        }
    }
}

impl PartialEq for GCSError {
    fn eq(&self, other: &GCSError) -> (r: bool) {
        match self {
            GCSError::NotImplemented(a) => match other {
                GCSError::NotImplemented(b) => a.eq(b),
                GCSError::GCS(_) => false,
            },
            GCSError::GCS(a) => match other {
                GCSError::GCS(b) => a.eq(b),
                GCSError::NotImplemented(_) => false,
            },
        }
    }
}

impl vstd::std_specs::cmp::PartialEqSpecImpl for GCSError {
    open spec fn obeys_eq_spec() -> bool {
        true
    }

    open spec fn eq_spec(&self, other: &GCSError) -> bool {
        match (*self, *other) {
            (GCSError::NotImplemented(a), GCSError::NotImplemented(b)) => a@ == b@,
            (GCSError::GCS(a), GCSError::GCS(b)) => a@ == b@,
            _ => false,
        }
    }
}

/// The kind of an I/O error that a failure is reported with to the host.
#[derive(Debug, Clone, Copy, PartialEq, Eq, Structural)]
pub enum ErrorKind {
    /// Any failure of the storage service, or a capability that is missing.
    Other,
    /// A blocking read gave up waiting for its download.
    TimedOut,
}

/// A failure as the host sees it: a kind, and the error that caused it.
#[derive(Debug)]
pub struct StoreError {
    pub kind: ErrorKind,
    pub error: GCSError,
}

impl StoreError {
    /// A failure reported with kind `Other`.
    pub fn other(error: GCSError) -> (r: StoreError)
        ensures
            r.kind == ErrorKind::Other,
            r.error == error,
    {
        StoreError { kind: ErrorKind::Other, error }
    }

    /// A failure reported with kind `TimedOut`.
    pub fn timed_out(error: GCSError) -> (r: StoreError)
        ensures
            r.kind == ErrorKind::TimedOut,
            r.error == error,
    {
        StoreError { kind: ErrorKind::TimedOut, error }
    }

    /// A failure of the storage service with the given description, kind `Other`.
    pub fn remote(description: String) -> (r: StoreError)
        ensures
            r.kind == ErrorKind::Other,
            r.error == GCSError::GCS(description),
    {
        StoreError { kind: ErrorKind::Other, error: GCSError::GCS(description) }
    }

    /// The message the host shows for this failure.
    pub fn message(&self) -> (r: String)
        ensures
            r@ == message_of(self.error),
    {
        self.error.message()
    }
}

} // verus!
