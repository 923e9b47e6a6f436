//! Error taxonomy of the pipeline.
//!
//! `LocalMiss` and `RemoteTransientFailure` are recoverable and handled
//! inside the fetch path; `FetchExhausted` is terminal for a digest and
//! propagates to every waiter; `MalformedCertificate` is a consensus
//! invariant violation, surfaced rather than skipped;
//! `RecoveryCursorRegression` marks a rejected non-monotonic cursor advance,
//! which never corrupts the stored cursor.

use vstd::prelude::*;

verus! {

/// Outcome classes of a single fetch path, as recorded by the fetch
/// counters.
#[derive(Clone, Copy, Debug, PartialEq, Eq, Structural)]
pub enum FetchError {
    /// The digest is absent from local worker storage; the fetch falls
    /// through to the remote path.
    LocalMiss,
    /// One remote attempt failed; retried until the attempt limit.
    RemoteTransientFailure,
    /// Every configured remote attempt failed: terminal for the digest.
    FetchExhausted,
}

/// Errors that the pipeline surfaces to its caller.
#[derive(Clone, Copy, Debug, PartialEq, Eq, Structural)]
pub enum ExecutorError {
    /// All remote attempts for this digest were consumed; the sub-DAG that
    /// references it must not be delivered with the batch missing.
    FetchExhausted { digest: u64 },
    /// A certificate claims a round later than its sub-DAG's commit round.
    MalformedCertificate { subdag_round: u64 },
    /// An attempt to move the recovery cursor backwards or in place; the
    /// cursor is left untouched.
    RecoveryCursorRegression { attempted: u64, current: u64 },
}

} // verus!
