use vstd::prelude::*;

verus! {

/// The error kinds of the protocol.
///
/// Structural and parse failures short-circuit; semantic verification
/// instead accumulates findings into a result and never raises these.
#[derive(Debug)]
pub enum AppError {
    /// Malformed or out-of-policy input: a bad DID, a bad predicate, a
    /// missing attribute.
    ValidationError(String),
    /// The signature primitive or another cryptographic step failed.
    CryptoError(String),
    /// A malformed token: wrong segment count, undecodable segment,
    /// missing required claim.
    ProtocolError(String),
    /// The token signature does not verify against the embedded key.
    InvalidSignature,
    /// The token expiry lies in the past.
    Expired,
    /// The token not-before time lies in the future.
    NotYetValid,
    /// The token header names an algorithm other than the supported one.
    UnsupportedAlgorithm,
    /// The acting identity does not own the record.
    AccessDenied(String),
    /// No record with the given identifier.
    NotFound(String),
    /// The revocation registry rejected the call or knows no such entry.
    RegistryError(String),
    /// The storage collaborator failed.
    StorageError(String),
}

} // verus!
