//! `RecoveryTracker`: the monotonic cursor of executed rounds.
//!
//! The cursor marks the round of the last sub-DAG whose delivery was
//! confirmed. It is read once at startup — the persisted value is handed in
//! by the embedding — and advanced after each successful delivery. `advance`
//! rejects any round at or below the stored one, so replays after a restart
//! are no-ops and the cursor never regresses.

use vstd::prelude::*;

use crate::errors::ExecutorError;

verus! {

/// Marker of the last successfully executed round.
#[derive(Clone, Copy, Debug, PartialEq, Eq, Structural)]
pub struct RecoveryTracker {
    pub round: u64,
}

impl RecoveryTracker {
    /// Adopts the externally persisted cursor value, read once at startup
    /// before streaming begins.
    pub fn load(round: u64) -> (r: Self)
        ensures
            r.round == round,
    {
        RecoveryTracker { round }
    }

    /// Moves the cursor forward to `round`. A round at or below the stored
    /// value is a regression: it is rejected, reported, and leaves the
    /// cursor untouched — an idempotent replay, not a corruption. In every
    /// case the cursor is monotonic.
    pub fn advance(&mut self, round: u64) -> (r: Result<(), ExecutorError>)
        ensures
            round > old(self).round ==> r is Ok && final(self).round == round,
            round <= old(self).round ==> r == Err::<(), ExecutorError>(
                ExecutorError::RecoveryCursorRegression {
                    attempted: round,
                    current: old(self).round,
                },
            ) && final(self).round == old(self).round,
            final(self).round >= old(self).round,
    {
        if round > self.round {
            self.round = round;
            Ok(())
        } else {
            Err(ExecutorError::RecoveryCursorRegression { attempted: round, current: self.round })
        }
    }
}

/// The cursor never regresses: whatever `advance` is asked, the stored
/// round afterwards is at least the stored round before, and a second
/// advance to the same round leaves it exactly where it was.
pub proof fn lemma_cursor_monotonic(before: RecoveryTracker, round: u64, after: RecoveryTracker)
    requires
        after.round == (if round > before.round {
            round
        } else {
            before.round
        }),
    ensures
        after.round >= before.round,
        round <= before.round ==> after == before,
{
}

} // verus!
