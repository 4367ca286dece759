use vstd::prelude::*;

verus! {

/// The ways a run can fail. Every failure is a deterministic input-validation
/// failure, reported to the caller as a distinct, inspectable value; none is
/// silently swallowed and none is worth retrying.
#[derive(Debug, PartialEq, Eq)]
pub enum CrackError {
    /// The textual hash-function selector names no supported algorithm.
    /// Carries the offending selector. Raised before any hashing starts.
    UnsupportedHashFunction(String),
    /// The credential source holds a different number of logins than stored
    /// digests. Carries both counts. Raised before any lookups.
    CredentialCountMismatch(usize, usize),
    /// A source (wordlist or credentials) failed to produce data; the core
    /// performs no partial work.
    SourceUnavailable,
}

} // verus!
