//! `Subscriber`: the top-level driver.
//!
//! The subscriber consumes the committed sub-DAG stream in order. Starting
//! in `Recovering` it replays committed-but-unexecuted sub-DAGs (those past
//! the recovery cursor) and skips already-executed ones; after
//! `finish_recovery` it streams; `begin_drain` stops intake so no partially
//! resolved sub-DAG is delivered during shutdown. Each sub-DAG is accepted
//! only fully resolved and in order, pushed into the bounded notifier
//! channel — blocking, never dropping, when the channel is full — and the
//! recovery cursor is advanced exactly on delivery.
//!
//! `process_subdag` is one deterministic step of this state machine; the
//! surrounding event loop (awaiting fetches, retrying blocked pushes,
//! persisting the cursor) lives outside the crate and feeds it values.

use vstd::prelude::*;

use crate::channel::{DeliveredSubDag, NotifierChannel};
use crate::errors::ExecutorError;
use crate::metrics::{sat_add, saturating_add, ExecutorMetrics, HistogramStats};
use crate::reassembler::{fully_resolved, group_matches, reassemble};
use crate::recovery::RecoveryTracker;
use crate::store::BatchStore;
use crate::types::SubDag;

verus! {

/// Lifecycle of the subscriber.
#[derive(Clone, Copy, Debug, PartialEq, Eq, Structural)]
pub enum SubscriberPhase {
    /// Replaying sub-DAGs committed before the last shutdown.
    Recovering,
    /// Following the live committed stream.
    Streaming,
    /// Shutting down: no further sub-DAG is accepted.
    Draining,
}

/// What one `process_subdag` step did.
#[derive(Clone, Copy, Debug, PartialEq, Eq, Structural)]
pub enum ProcessOutcome {
    /// The sub-DAG was resolved, delivered to the channel, and the cursor
    /// advanced to its round.
    Delivered,
    /// The sub-DAG's round is at or below the cursor: it was already
    /// executed, so the replay is a no-op.
    Skipped,
    /// The notifier channel is full: nothing changed, the caller must
    /// retry after the notifier consumes (backpressure, not loss).
    Blocked,
    /// The subscriber is draining and accepts nothing.
    Halted,
}

/// `ds` is exactly `subdag` delivered: same round, one group per
/// certificate, each group the certificate's batches in certificate order.
pub open spec fn delivered_matches(
    subdag: SubDag,
    resolved: BatchStore,
    ds: DeliveredSubDag,
) -> bool {
    &&& ds.round == subdag.round
    &&& ds.groups@.len() == subdag.certificates@.len()
    &&& forall|i: int|
        0 <= i < ds.groups@.len() ==> group_matches(
            subdag.certificates@[i],
            resolved,
            #[trigger] ds.groups@[i]@,
        )
}

/// The metrics after one delivery: batches counted, round gauge moved,
/// per-sub-DAG batch histogram sampled, recovered certificates counted
/// while recovering, and the channel gauge set to the new occupancy.
pub open spec fn delivered_metrics(
    m: ExecutorMetrics,
    subdag: SubDag,
    recovering: bool,
    occupancy: u64,
) -> ExecutorMetrics {
    ExecutorMetrics {
        subscriber_processed_batches: sat_add(
            m.subscriber_processed_batches,
            subdag.reference_count() as u64,
        ),
        subscriber_current_round: subdag.round,
        committed_subdag_batch_count: HistogramStats {
            samples: sat_add(m.committed_subdag_batch_count.samples, 1),
            total: sat_add(
                m.committed_subdag_batch_count.total,
                subdag.reference_count() as u64,
            ),
        },
        subscriber_recovered_certificates_count: if recovering {
            sat_add(
                m.subscriber_recovered_certificates_count,
                subdag.certificates@.len() as u64,
            )
        } else {
            m.subscriber_recovered_certificates_count
        },
        tx_notifier: occupancy,
        ..m
    }
}

/// Top-level driver state: phase, recovery cursor, notifier channel and
/// metrics.
#[derive(Debug)]
pub struct Subscriber {
    pub phase: SubscriberPhase,
    pub cursor: RecoveryTracker,
    pub channel: NotifierChannel,
    pub metrics: ExecutorMetrics,
}

impl Subscriber {
    pub open spec fn wf(self) -> bool {
        self.channel.wf()
    }

    /// Exact effect of one `process_subdag` call, checked in this order:
    /// draining halts; a malformed sub-DAG is surfaced; a round at or below
    /// the cursor is an idempotent skip; a missing batch aborts the sub-DAG;
    /// a full channel blocks; otherwise the sub-DAG is delivered whole, in
    /// order, and the cursor advances to its round.
    pub open spec fn process_step(
        pre: Subscriber,
        subdag: SubDag,
        resolved: BatchStore,
        post: Subscriber,
        r: Result<ProcessOutcome, ExecutorError>,
    ) -> bool {
        if pre.phase is Draining {
            r == Ok::<ProcessOutcome, ExecutorError>(ProcessOutcome::Halted) && post == pre
        } else if !subdag.well_formed() {
            r == Err::<ProcessOutcome, ExecutorError>(
                ExecutorError::MalformedCertificate { subdag_round: subdag.round },
            ) && post == pre
        } else if subdag.round <= pre.cursor.round {
            r == Ok::<ProcessOutcome, ExecutorError>(ProcessOutcome::Skipped) && post == pre
        } else if !fully_resolved(subdag, resolved) {
            &&& (r matches Err(e) && e matches ExecutorError::FetchExhausted { digest }
                && subdag.references(digest) && !resolved.has_digest(digest))
            &&& post == pre
        } else if pre.channel.items@.len() >= pre.channel.capacity {
            r == Ok::<ProcessOutcome, ExecutorError>(ProcessOutcome::Blocked) && post == pre
        } else {
            &&& r == Ok::<ProcessOutcome, ExecutorError>(ProcessOutcome::Delivered)
            &&& post.phase == pre.phase
            &&& post.cursor.round == subdag.round
            &&& post.channel.capacity == pre.channel.capacity
            &&& post.channel.items@.len() == pre.channel.items@.len() + 1
            &&& forall|k: int|
                0 <= k < pre.channel.items@.len() ==> post.channel.items@[k]
                    == pre.channel.items@[k]
            &&& delivered_matches(subdag, resolved, post.channel.items@.last())
            &&& post.metrics == delivered_metrics(
                pre.metrics,
                subdag,
                pre.phase is Recovering,
                post.channel.items@.len() as u64,
            )
        }
    }

    /// A fresh subscriber: recovering, cursor at the externally persisted
    /// round, an empty notifier channel of the given capacity, zeroed
    /// metrics.
    pub fn new(channel_capacity: usize, cursor_round: u64) -> (r: Self)
        requires
            channel_capacity >= 1,
        ensures
            r.wf(),
            r.phase == SubscriberPhase::Recovering,
            r.cursor.round == cursor_round,
            r.channel.capacity == channel_capacity,
            r.channel.items@.len() == 0,
            r.metrics == ExecutorMetrics::initial(),
    {
        Subscriber {
            phase: SubscriberPhase::Recovering,
            cursor: RecoveryTracker::load(cursor_round),
            channel: NotifierChannel::new(channel_capacity),
            metrics: ExecutorMetrics::new(),
        }
    }

    /// Recovery is done: follow the live stream.
    pub fn finish_recovery(&mut self)
        requires
            old(self).phase == SubscriberPhase::Recovering,
        ensures
            *final(self) == (Subscriber { phase: SubscriberPhase::Streaming, ..*old(self) }),
    {
        self.phase = SubscriberPhase::Streaming;
    }

    /// Begin shutdown: accept no further sub-DAG.
    pub fn begin_drain(&mut self)
        ensures
            *final(self) == (Subscriber { phase: SubscriberPhase::Draining, ..*old(self) }),
    {
        self.phase = SubscriberPhase::Draining;
    }

    /// Processes one committed sub-DAG against the already-resolved batches:
    /// one step of the driver state machine, exactly [`Self::process_step`].
    pub fn process_subdag(&mut self, subdag: &SubDag, resolved: &BatchStore) -> (r: Result<
        ProcessOutcome,
        ExecutorError,
    >)
        requires
            old(self).wf(),
            resolved.wf(),
            subdag.reference_count() <= u64::MAX,
        ensures
            final(self).wf(),
            Self::process_step(*old(self), *subdag, *resolved, *final(self), r),
    {
        match self.phase {
            SubscriberPhase::Draining => {
                return Ok(ProcessOutcome::Halted);
            },
            _ => {},
        }
        if !subdag.check_well_formed() {
            return Err(ExecutorError::MalformedCertificate { subdag_round: subdag.round });
        }
        if subdag.round <= self.cursor.round {
            return Ok(ProcessOutcome::Skipped);
        }
        let groups = match reassemble(subdag, resolved) {
            Ok(groups) => groups,
            Err(e) => {
                return Err(e);
            },
        };
        if self.channel.is_full() {
            return Ok(ProcessOutcome::Blocked);
        }
        let batch_count = subdag.count_references();
        let cert_count: u64 = subdag.certificates.len() as u64;
        let handed_back = self.channel.try_push(
            DeliveredSubDag { round: subdag.round, groups },
        );
        proof {
            assert(handed_back is None);
        }
        let advanced = self.cursor.advance(subdag.round);
        proof {
            assert(advanced is Ok);
        }
        self.metrics.subscriber_processed_batches = saturating_add(
            self.metrics.subscriber_processed_batches,
            batch_count,
        );
        self.metrics.subscriber_current_round = subdag.round;
        self.metrics.committed_subdag_batch_count.observe(batch_count);
        match self.phase {
            SubscriberPhase::Recovering => {
                self.metrics.subscriber_recovered_certificates_count = saturating_add(
                    self.metrics.subscriber_recovered_certificates_count,
                    cert_count,
                );
            },
            _ => {},
        }
        self.metrics.tx_notifier = self.channel.occupancy() as u64;
        Ok(ProcessOutcome::Delivered)
    }
}

/// Replaying an already-executed sub-DAG is a no-op: once the cursor has
/// reached its round — whether in this run or before a restart — a step on
/// the same sub-DAG is `Skipped` and changes nothing, so the notifier never
/// sees a duplicate delivery and the cursor never regresses.
pub proof fn lemma_replay_is_noop(
    s1: Subscriber,
    s2: Subscriber,
    subdag: SubDag,
    resolved: BatchStore,
    r2: Result<ProcessOutcome, ExecutorError>,
)
    requires
        !(s1.phase is Draining),
        subdag.well_formed(),
        subdag.round <= s1.cursor.round,
        Subscriber::process_step(s1, subdag, resolved, s2, r2),
    ensures
        r2 == Ok::<ProcessOutcome, ExecutorError>(ProcessOutcome::Skipped),
        s2 == s1,
{
}

/// Recovery idempotence across a delivery: after a sub-DAG is delivered,
/// processing the same sub-DAG again — as a recovery replay would — skips
/// it, leaves the channel (and everything else) untouched, and keeps the
/// cursor where the delivery put it.
pub proof fn lemma_recovery_idempotent(
    s0: Subscriber,
    s1: Subscriber,
    s2: Subscriber,
    subdag: SubDag,
    resolved: BatchStore,
    r1: Result<ProcessOutcome, ExecutorError>,
    r2: Result<ProcessOutcome, ExecutorError>,
)
    requires
        Subscriber::process_step(s0, subdag, resolved, s1, r1),
        r1 == Ok::<ProcessOutcome, ExecutorError>(ProcessOutcome::Delivered),
        Subscriber::process_step(s1, subdag, resolved, s2, r2),
    ensures
        r2 == Ok::<ProcessOutcome, ExecutorError>(ProcessOutcome::Skipped),
        s2 == s1,
        s1.cursor.round == subdag.round,
{
    lemma_replay_is_noop(s1, s2, subdag, resolved, r2);
}

/// Every step keeps the cursor monotonic: whatever `process_subdag`
/// decides, the stored round afterwards is at least the stored round
/// before.
pub proof fn lemma_step_cursor_monotonic(
    pre: Subscriber,
    post: Subscriber,
    subdag: SubDag,
    resolved: BatchStore,
    r: Result<ProcessOutcome, ExecutorError>,
)
    requires
        Subscriber::process_step(pre, subdag, resolved, post, r),
    ensures
        post.cursor.round >= pre.cursor.round,
{
}

/// Backpressure safety at the driver: a step never pushes past the channel
/// capacity, and a step taken at full capacity is `Blocked` and changes
/// nothing.
pub proof fn lemma_step_backpressure(
    pre: Subscriber,
    post: Subscriber,
    subdag: SubDag,
    resolved: BatchStore,
    r: Result<ProcessOutcome, ExecutorError>,
)
    requires
        pre.wf(),
        post.wf(),
        Subscriber::process_step(pre, subdag, resolved, post, r),
    ensures
        post.channel.items@.len() <= post.channel.capacity,
        pre.channel.items@.len() == pre.channel.capacity && !(pre.phase is Draining)
            && subdag.well_formed() && subdag.round > pre.cursor.round && fully_resolved(
            subdag,
            resolved,
        ) ==> r == Ok::<ProcessOutcome, ExecutorError>(ProcessOutcome::Blocked) && post == pre,
{
}

/// Deliveries keep commit order: when two sub-DAGs are delivered one after
/// the other, the first sits in front of the second in the notifier channel
/// (which is consumed from the front), and the second's commit round is
/// strictly later than the first's.
pub proof fn lemma_delivery_order(
    s0: Subscriber,
    s1: Subscriber,
    s2: Subscriber,
    first: SubDag,
    second: SubDag,
    resolved1: BatchStore,
    resolved2: BatchStore,
    r1: Result<ProcessOutcome, ExecutorError>,
    r2: Result<ProcessOutcome, ExecutorError>,
)
    requires
        Subscriber::process_step(s0, first, resolved1, s1, r1),
        r1 == Ok::<ProcessOutcome, ExecutorError>(ProcessOutcome::Delivered),
        Subscriber::process_step(s1, second, resolved2, s2, r2),
        r2 == Ok::<ProcessOutcome, ExecutorError>(ProcessOutcome::Delivered),
    ensures
        s1.channel.items@.len() < s2.channel.items@.len(),
        s2.channel.items@[s1.channel.items@.len() - 1].round == first.round,
        s2.channel.items@[s2.channel.items@.len() - 1].round == second.round,
        second.round > first.round,
{
    assert(s1.channel.items@.last().round == first.round);
    assert(s2.channel.items@[s1.channel.items@.len() - 1] == s1.channel.items@.last());
}

} // verus!
