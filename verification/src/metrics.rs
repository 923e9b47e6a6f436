//! Observability surface of the pipeline, modeled as plain integers.
//!
//! Counters and gauges are held here as machine integers so that every update
//! the pipeline makes is verified: counters move exactly once per physical
//! event, never once per logical waiter. Histograms keep the sample count and
//! the sum of observed values (durations in milliseconds, or sizes); the
//! bucketing that a metrics registry adds on top is presentation, kept
//! outside the verified core.

use vstd::prelude::*;

verus! {

/// Saturating addition on `u64`: observability counters are monotonic and
/// must never wrap.
pub open spec fn sat_add(a: u64, b: u64) -> u64 {
    if a + b <= u64::MAX {
        (a + b) as u64
    } else {
        u64::MAX
    }
}

/// Executable counterpart of [`sat_add`].
pub fn saturating_add(a: u64, b: u64) -> (r: u64)
    ensures
        r == sat_add(a, b),
{
    if a <= u64::MAX - b {
        a + b
    } else {
        u64::MAX
    }
}

/// A histogram reduced to what correctness-adjacent code reads: how many
/// values were observed and their saturating sum.
#[derive(Clone, Copy, Debug, PartialEq, Eq, Structural)]
pub struct HistogramStats {
    pub samples: u64,
    pub total: u64,
}

impl HistogramStats {
    pub fn empty() -> (r: Self)
        ensures
            r.samples == 0,
            r.total == 0,
    {
        HistogramStats { samples: 0, total: 0 }
    }

    /// Records one observation.
    pub fn observe(&mut self, value: u64)
        ensures
            final(self).samples == sat_add(old(self).samples, 1),
            final(self).total == sat_add(old(self).total, value),
    {
        self.samples = saturating_add(self.samples, 1);
        self.total = saturating_add(self.total, value);
    }
}

/// Counter of local/remote batch fetch outcomes, one cell per
/// (source, status) pair.
#[derive(Clone, Copy, Debug, PartialEq, Eq, Structural)]
pub struct FetchOutcomeCounters {
    pub local_hit: u64,
    pub local_miss: u64,
    pub remote_success: u64,
    pub remote_failure: u64,
}

impl FetchOutcomeCounters {
    pub fn zero() -> (r: Self)
        ensures
            r.local_hit == 0,
            r.local_miss == 0,
            r.remote_success == 0,
            r.remote_failure == 0,
    {
        FetchOutcomeCounters { local_hit: 0, local_miss: 0, remote_success: 0, remote_failure: 0 }
    }
}

/// The executor's metrics, one field per instrument. Gauges are set, counters
/// only grow (saturating), histograms accumulate count and sum.
#[derive(Clone, Copy, Debug, PartialEq, Eq, Structural)]
pub struct ExecutorMetrics {
    /// Occupancy of the channel from the subscriber to the notifier.
    pub tx_notifier: u64,
    /// Time taken to download a payload from local worker storage.
    pub subscriber_local_fetch_latency: HistogramStats,
    /// Time taken to download a payload from a remote worker peer.
    pub subscriber_remote_fetch_latency: HistogramStats,
    /// Number of batches processed by the subscriber.
    pub subscriber_processed_batches: u64,
    /// Round of the last sub-DAG seen by the subscriber.
    pub subscriber_current_round: u64,
    /// Latency between certificate creation and executor receipt.
    pub subscriber_certificate_latency: HistogramStats,
    /// Certificates replayed by the subscriber during recovery.
    pub subscriber_recovered_certificates_count: u64,
    /// Number of pending remote batch requests.
    pub pending_remote_request_batch: u64,
    /// Number of pending payload downloads (all pending fetches).
    pub waiting_elements_subscriber: u64,
    /// Latency between batch creation and its fetch for execution.
    pub batch_execution_latency: HistogramStats,
    /// Batches per committed sub-DAG.
    pub committed_subdag_batch_count: HistogramStats,
    /// Time taken to fetch all batches of a committed sub-DAG.
    pub batch_fetch_for_committed_subdag_total_latency: HistogramStats,
    /// Local/remote batch fetch outcomes.
    pub subscriber_batch_fetch: FetchOutcomeCounters,
}

impl ExecutorMetrics {
    /// Fresh metrics, every instrument at zero.
    pub fn new() -> (r: Self)
        ensures
            r == Self::initial(),
    {
        ExecutorMetrics {
            tx_notifier: 0,
            subscriber_local_fetch_latency: HistogramStats::empty(),
            subscriber_remote_fetch_latency: HistogramStats::empty(),
            subscriber_processed_batches: 0,
            subscriber_current_round: 0,
            subscriber_certificate_latency: HistogramStats::empty(),
            subscriber_recovered_certificates_count: 0,
            pending_remote_request_batch: 0,
            waiting_elements_subscriber: 0,
            batch_execution_latency: HistogramStats::empty(),
            committed_subdag_batch_count: HistogramStats::empty(),
            batch_fetch_for_committed_subdag_total_latency: HistogramStats::empty(),
            subscriber_batch_fetch: FetchOutcomeCounters::zero(),
        }
    }

    /// The all-zero state `new` returns.
    pub open spec fn initial() -> Self {
        ExecutorMetrics {
            tx_notifier: 0,
            subscriber_local_fetch_latency: HistogramStats { samples: 0, total: 0 },
            subscriber_remote_fetch_latency: HistogramStats { samples: 0, total: 0 },
            subscriber_processed_batches: 0,
            subscriber_current_round: 0,
            subscriber_certificate_latency: HistogramStats { samples: 0, total: 0 },
            subscriber_recovered_certificates_count: 0,
            pending_remote_request_batch: 0,
            waiting_elements_subscriber: 0,
            batch_execution_latency: HistogramStats { samples: 0, total: 0 },
            committed_subdag_batch_count: HistogramStats { samples: 0, total: 0 },
            batch_fetch_for_committed_subdag_total_latency: HistogramStats { samples: 0, total: 0 },
            subscriber_batch_fetch: FetchOutcomeCounters {
                local_hit: 0,
                local_miss: 0,
                remote_success: 0,
                remote_failure: 0,
            },
        }
    }

    /// The same metrics with the fetch outcome counters replaced.
    pub open spec fn with_fetch_counters(self, c: FetchOutcomeCounters) -> Self {
        ExecutorMetrics { subscriber_batch_fetch: c, ..self }
    }

    /// Records a batch found in local storage.
    pub fn record_local_hit(&mut self)
        ensures
            *final(self) == old(self).with_fetch_counters(
                FetchOutcomeCounters {
                    local_hit: sat_add(old(self).subscriber_batch_fetch.local_hit, 1),
                    ..old(self).subscriber_batch_fetch
                },
            ),
    {
        self.subscriber_batch_fetch.local_hit = saturating_add(
            self.subscriber_batch_fetch.local_hit,
            1,
        );
    }

    /// Records a local storage miss.
    pub fn record_local_miss(&mut self)
        ensures
            *final(self) == old(self).with_fetch_counters(
                FetchOutcomeCounters {
                    local_miss: sat_add(old(self).subscriber_batch_fetch.local_miss, 1),
                    ..old(self).subscriber_batch_fetch
                },
            ),
    {
        self.subscriber_batch_fetch.local_miss = saturating_add(
            self.subscriber_batch_fetch.local_miss,
            1,
        );
    }

    /// Records one successful remote attempt.
    pub fn record_remote_success(&mut self)
        ensures
            *final(self) == old(self).with_fetch_counters(
                FetchOutcomeCounters {
                    remote_success: sat_add(old(self).subscriber_batch_fetch.remote_success, 1),
                    ..old(self).subscriber_batch_fetch
                },
            ),
    {
        self.subscriber_batch_fetch.remote_success = saturating_add(
            self.subscriber_batch_fetch.remote_success,
            1,
        );
    }

    /// Records `n` failed remote attempts.
    pub fn record_remote_failures(&mut self, n: u64)
        ensures
            *final(self) == old(self).with_fetch_counters(
                FetchOutcomeCounters {
                    remote_failure: sat_add(old(self).subscriber_batch_fetch.remote_failure, n),
                    ..old(self).subscriber_batch_fetch
                },
            ),
    {
        self.subscriber_batch_fetch.remote_failure = saturating_add(
            self.subscriber_batch_fetch.remote_failure,
            n,
        );
    }
}

} // verus!
