//! How a failed read or write on the connection is classified.
use vstd::prelude::*;

verus! {

/// `std::io::Error`, carried as an opaque value.
#[verifier::external_type_specification]
#[verifier::external_body]
pub struct ExIoError(std::io::Error);

/// The outcome of a read or write call that did not succeed.
#[derive(Clone, Copy, Debug, PartialEq, Eq, Structural)]
pub enum IoFailure {
    /// The source had no data or capacity right now; try again on the next
    /// readiness notification.
    WouldBlock,
    /// Any other failure: the session cannot go on.
    Fatal,
}

/// `std::io::ErrorKind`, whose variants verified code tells apart.
#[verifier::external_type_specification]
pub struct ExErrorKind(std::io::ErrorKind);

/// What `std::io::Error::kind` returns for an error.
pub uninterp spec fn kind_of(e: std::io::Error) -> std::io::ErrorKind;

/// Relies on std::io::Error::kind: it returns the error's kind, a function of
/// the error alone.
pub assume_specification[ std::io::Error::kind ](e: &std::io::Error) -> (r: std::io::ErrorKind)
    ensures
        r == kind_of(*e),
;

impl IoFailure {
    /// Whether the failure only means "not ready yet".
    pub fn is_would_block(&self) -> (r: bool)
        ensures
            r == (*self is WouldBlock),
    {
        match self {
            IoFailure::WouldBlock => true,
            IoFailure::Fatal => false,
        }
    }
}

/// Classifies an error kind: `WouldBlock` means "not ready yet", and every
/// other kind is fatal to the session.
pub fn failure_of_kind(k: std::io::ErrorKind) -> (r: IoFailure)
    ensures
        (r is WouldBlock) == (k is WouldBlock),
{
    match k {
        std::io::ErrorKind::WouldBlock => IoFailure::WouldBlock,
        _ => IoFailure::Fatal,
    }
}

/// Whether an I/O error only means "not ready yet": its kind is `WouldBlock`.
pub fn would_block(err: &std::io::Error) -> (r: bool)
    ensures
        r == (kind_of(*err) is WouldBlock),
{
    failure_of_kind(err.kind()).is_would_block()
}

} // verus!
