//! `BatchSource`: resolves one digest to its batch.
//!
//! The source first probes local worker storage (no network hop); on a miss
//! it turns to the peer that broadcast the batch, retrying up to a configured
//! attempt limit. The remote replies are handed in as a sequence — entry `k`
//! is what the peer returned on attempt `k` (`None` for a transient failure)
//! — so the whole decision is deterministic and verified; the transport that
//! produces the replies lives outside the crate. Outcome counters move
//! exactly once per physical attempt, never once per logical waiter.

use vstd::prelude::*;

use crate::errors::FetchError;
use crate::metrics::{sat_add, ExecutorMetrics, FetchOutcomeCounters};
use crate::store::BatchStore;
use crate::types::{Batch, BatchDigest};

verus! {

/// Two batches with the same digest and the same bytes.
pub open spec fn same_batch(a: Batch, b: Batch) -> bool {
    a.digest == b.digest && a.payload@ == b.payload@
}

/// A usable remote reply: a batch whose digest is the one asked for. A reply
/// carrying any other digest is treated as a failed attempt.
pub open spec fn good_reply(r: Option<Batch>, d: BatchDigest) -> bool {
    match r {
        Some(b) => b.digest == d,
        None => false,
    }
}

/// Index of the first good reply among attempts `k..limit`, if any.
pub open spec fn first_success_from(
    replies: Seq<Option<Batch>>,
    d: BatchDigest,
    k: int,
    limit: int,
) -> Option<int>
    decreases limit - k,
{
    if k < 0 || k >= limit {
        None
    } else if good_reply(replies[k], d) {
        Some(k)
    } else {
        first_success_from(replies, d, k + 1, limit)
    }
}

/// Index of the first good reply among the first `limit` attempts, if any.
pub open spec fn first_success(replies: Seq<Option<Batch>>, d: BatchDigest, limit: int) -> Option<
    int,
> {
    first_success_from(replies, d, 0, limit)
}

/// Probes local storage for `d`. A hit is counted as a local hit and returns
/// the stored batch; a miss is counted and reported as the recoverable
/// `LocalMiss`, on which the caller falls through to the remote path.
pub fn probe_local(d: BatchDigest, local: &BatchStore, metrics: &mut ExecutorMetrics) -> (r:
    Result<Batch, FetchError>)
    requires
        local.wf(),
    ensures
        local.has_digest(d) ==> (r matches Ok(b) && same_batch(b, local.batch_for(d)) && b.digest
            == d) && *final(metrics) == old(metrics).with_fetch_counters(
            FetchOutcomeCounters {
                local_hit: sat_add(old(metrics).subscriber_batch_fetch.local_hit, 1),
                ..old(metrics).subscriber_batch_fetch
            },
        ),
        !local.has_digest(d) ==> r == Err::<Batch, FetchError>(FetchError::LocalMiss) && *final(metrics) == old(metrics).with_fetch_counters(
            FetchOutcomeCounters {
                local_miss: sat_add(old(metrics).subscriber_batch_fetch.local_miss, 1),
                ..old(metrics).subscriber_batch_fetch
            },
        ),
{
    match local.get(d) {
        Some(b) => {
            metrics.record_local_hit();
            Ok(b.duplicate())
        },
        None => {
            metrics.record_local_miss();
            Err(FetchError::LocalMiss)
        },
    }
}

/// Examines one remote reply for `d`. A good reply is the fetched batch; a
/// missing or mismatched one is the recoverable `RemoteTransientFailure`.
/// Counters are not touched here: the caller attributes attempts in bulk.
pub fn check_reply(d: BatchDigest, reply: &Option<Batch>) -> (r: Result<Batch, FetchError>)
    ensures
        good_reply(*reply, d) ==> (r matches Ok(b) && same_batch(b, reply->Some_0) && b.digest
            == d),
        !good_reply(*reply, d) ==> r == Err::<Batch, FetchError>(
            FetchError::RemoteTransientFailure,
        ),
{
    match reply {
        Some(b) => {
            if b.digest == d {
                Ok(b.duplicate())
            } else {
                Err(FetchError::RemoteTransientFailure)
            }
        },
        None => Err(FetchError::RemoteTransientFailure),
    }
}

/// Fetches the batch for `d`: local storage first, then up to `max_attempts`
/// remote attempts, whose replies are `replies[0..max_attempts]`.
///
/// - A local hit never consumes a remote attempt and counts one local hit.
/// - On a local miss, attempts are consumed in order until the first good
///   reply; `k` failed attempts and one success are counted.
/// - When all `max_attempts` replies are bad, every attempt is counted as a
///   failure and the terminal `FetchExhausted` is returned: it propagates to
///   every waiter on `d`.
pub fn fetch(
    d: BatchDigest,
    local: &BatchStore,
    replies: &Vec<Option<Batch>>,
    max_attempts: usize,
    metrics: &mut ExecutorMetrics,
) -> (r: Result<Batch, FetchError>)
    requires
        local.wf(),
        max_attempts >= 1,
        replies@.len() >= max_attempts,
    ensures
        r matches Ok(b) ==> b.digest == d,
        (r is Ok) == (local.has_digest(d) || first_success(replies@, d, max_attempts as int)
            is Some),
        r is Err ==> r == Err::<Batch, FetchError>(FetchError::FetchExhausted),
        local.has_digest(d) ==> (r matches Ok(b) && same_batch(b, local.batch_for(d))) && *final(metrics) == old(metrics).with_fetch_counters(
            FetchOutcomeCounters {
                local_hit: sat_add(old(metrics).subscriber_batch_fetch.local_hit, 1),
                ..old(metrics).subscriber_batch_fetch
            },
        ),
        first_success(replies@, d, max_attempts as int) matches Some(k) ==> !local.has_digest(d)
            ==> (r matches Ok(b) && same_batch(b, replies@[k]->Some_0)) && *final(metrics) == old(metrics).with_fetch_counters(
            FetchOutcomeCounters {
                local_miss: sat_add(old(metrics).subscriber_batch_fetch.local_miss, 1),
                remote_failure: sat_add(
                    old(metrics).subscriber_batch_fetch.remote_failure,
                    k as u64,
                ),
                remote_success: sat_add(old(metrics).subscriber_batch_fetch.remote_success, 1),
                ..old(metrics).subscriber_batch_fetch
            },
        ),
        !local.has_digest(d) && first_success(replies@, d, max_attempts as int) is None ==> r
            == Err::<Batch, FetchError>(FetchError::FetchExhausted) && *final(metrics) == old(metrics).with_fetch_counters(
            FetchOutcomeCounters {
                local_miss: sat_add(old(metrics).subscriber_batch_fetch.local_miss, 1),
                remote_failure: sat_add(
                    old(metrics).subscriber_batch_fetch.remote_failure,
                    max_attempts as u64,
                ),
                ..old(metrics).subscriber_batch_fetch
            },
        ),
{
    match probe_local(d, local, metrics) {
        Ok(b) => Ok(b),
        Err(_) => {
            let ghost limit = max_attempts as int;
            let mut k: usize = 0;
            while k < max_attempts
                invariant
                    local.wf(),
                    !local.has_digest(d),
                    *metrics == old(metrics).with_fetch_counters(
                        FetchOutcomeCounters {
                            local_miss: sat_add(
                                old(metrics).subscriber_batch_fetch.local_miss,
                                1,
                            ),
                            ..old(metrics).subscriber_batch_fetch
                        },
                    ),
                    max_attempts >= 1,
                    replies@.len() >= max_attempts,
                    0 <= k <= max_attempts,
                    forall|j: int| 0 <= j < k ==> !good_reply(replies@[j], d),
                    first_success(replies@, d, limit) == first_success_from(
                        replies@,
                        d,
                        k as int,
                        limit,
                    ),
                    limit == max_attempts as int,
                decreases max_attempts - k,
            {
                let attempt = check_reply(d, &replies[k]);
                match attempt {
                    Ok(b) => {
                        proof {
                            assert(first_success_from(replies@, d, k as int, limit) == Some(
                                k as int,
                            ));
                        }
                        metrics.record_remote_failures(k as u64);
                        metrics.record_remote_success();
                        return Ok(b);
                    },
                    Err(_) => {
                        proof {
                            assert(first_success_from(replies@, d, k as int, limit)
                                == first_success_from(replies@, d, k as int + 1, limit));
                        }
                        k += 1;
                    },
                }
            }
            metrics.record_remote_failures(max_attempts as u64);
            Err(FetchError::FetchExhausted)
        },
    }
}


/// The batch that a fetch for `d` resolves to: the locally stored one when
/// local storage has it, else the first good remote reply within the
/// attempt limit.
pub open spec fn resolution(
    d: BatchDigest,
    local: BatchStore,
    replies: Seq<Option<Batch>>,
    limit: int,
) -> Batch {
    if local.has_digest(d) {
        local.batch_for(d)
    } else {
        replies[first_success(replies, d, limit)->Some_0]->Some_0
    }
}

/// The remote replies for one digest, attempt by attempt.
#[derive(Debug)]
pub struct ReplyRow {
    pub digest: BatchDigest,
    pub replies: Vec<Option<Batch>>,
}

/// What the transport would answer for each digest: one row per digest.
/// This stands for the remote peers in the deterministic model; the
/// embedding fills it from actual RPC traffic.
#[derive(Debug)]
pub struct ReplyTable {
    pub rows: Vec<ReplyRow>,
}

impl ReplyTable {
    /// At most one row per digest.
    pub open spec fn wf(self) -> bool {
        forall|i: int, j: int|
            0 <= i < j < self.rows@.len() ==> self.rows@[i].digest != self.rows@[j].digest
    }

    /// Whether a row for `d` exists.
    pub open spec fn has_row(self, d: BatchDigest) -> bool {
        exists|i: int| 0 <= i < self.rows@.len() && self.rows@[i].digest == d
    }

    /// The replies for `d` (meaningful when `has_row(d)`).
    pub open spec fn row_for(self, d: BatchDigest) -> Seq<Option<Batch>> {
        self.rows@[choose|i: int|
            0 <= i < self.rows@.len() && self.rows@[i].digest == d].replies@
    }

    /// In a well-formed table, any row holding `d` is the one `row_for`
    /// reads.
    pub proof fn lemma_row_for(self, d: BatchDigest, i: int)
        requires
            self.wf(),
            0 <= i < self.rows@.len(),
            self.rows@[i].digest == d,
        ensures
            self.has_row(d),
            self.row_for(d) == self.rows@[i].replies@,
    {
        let w = choose|k: int| 0 <= k < self.rows@.len() && self.rows@[k].digest == d;
        assert(self.rows@[w].digest == d);
    }

    /// An empty table.
    pub fn new() -> (r: Self)
        ensures
            r.wf(),
            forall|d: BatchDigest| !r.has_row(d),
    {
        ReplyTable { rows: Vec::new() }
    }

    /// Appends a row for a digest not yet present.
    pub fn push_row(&mut self, digest: BatchDigest, replies: Vec<Option<Batch>>)
        requires
            old(self).wf(),
            !old(self).has_row(digest),
        ensures
            final(self).wf(),
            final(self).has_row(digest),
            final(self).row_for(digest) == replies@,
            forall|d2: BatchDigest|
                d2 != digest ==> #[trigger] final(self).has_row(d2) == old(self).has_row(d2),
            forall|d2: BatchDigest|
                old(self).has_row(d2) ==> #[trigger] final(self).row_for(d2) == old(
                    self,
                ).row_for(d2),
    {
        let ghost pre = *self;
        let ghost row = ReplyRow { digest, replies: replies };
        self.rows.push(ReplyRow { digest, replies });
        proof {
            let n = pre.rows@.len() as int;
            assert(self.rows@ =~= pre.rows@.push(row));
            assert(self.rows@[n].digest == digest);
            assert(forall|k: int| 0 <= k < n ==> self.rows@[k] == pre.rows@[k]);
            assert(forall|k: int| 0 <= k < n ==> (#[trigger] pre.rows@[k]).digest != digest);
            self.lemma_row_for(digest, n);
            assert forall|d2: BatchDigest| d2 != digest implies #[trigger] self.has_row(d2)
                == pre.has_row(d2) by {
                if pre.has_row(d2) {
                    let k = choose|k: int| 0 <= k < n && pre.rows@[k].digest == d2;
                    assert(self.rows@[k].digest == d2);
                } else if self.has_row(d2) {
                    let k = choose|k: int|
                        0 <= k < self.rows@.len() && self.rows@[k].digest == d2;
                    assert(pre.rows@[k].digest == d2);
                }
            }
            assert forall|d2: BatchDigest| pre.has_row(d2) implies #[trigger] self.row_for(d2)
                == pre.row_for(d2) by {
                let k = choose|k: int| 0 <= k < n && pre.rows@[k].digest == d2;
                pre.lemma_row_for(d2, k);
                self.lemma_row_for(d2, k);
            }
        }
    }

    /// The replies for `d`, by reference.
    pub fn row(&self, d: BatchDigest) -> (r: Option<&Vec<Option<Batch>>>)
        requires
            self.wf(),
        ensures
            match r {
                Some(row) => self.has_row(d) && row@ == self.row_for(d),
                None => !self.has_row(d),
            },
    {
        let mut i: usize = 0;
        while i < self.rows.len()
            invariant
                0 <= i <= self.rows@.len(),
                self.wf(),
                forall|k: int| 0 <= k < i ==> (#[trigger] self.rows@[k]).digest != d,
            decreases self.rows@.len() - i,
        {
            if self.rows[i].digest == d {
                proof {
                    self.lemma_row_for(d, i as int);
                }
                return Some(&self.rows[i].replies);
            }
            i += 1;
        }
        None
    }
}

} // verus!
