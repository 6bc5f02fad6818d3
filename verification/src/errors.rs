//! The error taxonomy: every rejected operation surfaces exactly one of these
//! kinds, and a rejection never leaves a partial state change behind.

use vstd::prelude::*;

verus! {

/// Why an operation was rejected.
#[derive(Clone, Copy, PartialEq, Eq, Structural, Debug)]
pub enum ErrorKind {
    /// A required signature is missing, or the signer is not the authority
    /// the operation demands.
    Unauthorized,
    /// A sigma-protocol or equality sub-check failed, or a proof context was
    /// presented whose recorded public inputs do not match the state the
    /// operation runs against.
    ProofVerificationFailed,
    /// The proof context outlived its expiry slot before being consumed.
    ProofContextExpired,
    /// The proof context was already consumed by an earlier operation.
    ProofContextAlreadyConsumed,
    /// The range sub-check shows the remaining balance would be negative.
    InsufficientAvailableBalance,
    /// The caller's pending-counter snapshot is stale: a credit landed after
    /// it was taken.
    PendingCounterMismatch,
    /// The destination account does not accept confidential credits.
    ConfidentialCreditsDisabled,
    /// A ciphertext-validity sub-check failed.
    MalformedCiphertext,
    /// The mint's confidential-transfer configuration does not exist yet, or
    /// would be initialized twice.
    MintNotInitialized,
    /// The named account identifier is not in the ledger.
    AccountNotFound,
    /// The named proof context does not exist.
    ContextNotFound,
    /// The proof context is not in the state the transition asks for.
    InvalidContextState,
    /// A counter or the total supply would overflow its machine bound.
    LimitExceeded,
    /// Key generation found no usable entropy source; reported by clients,
    /// never by the core, whose key derivation is a pure function of its
    /// seed.
    WeakRandomness,
}

} // verus!
