use subscriber::batch_source::ReplyTable;
use subscriber::channel::DeliveredSubDag;
use subscriber::driver::{ProcessOutcome, Subscriber, SubscriberPhase};
use subscriber::errors::ExecutorError;
use subscriber::metrics::ExecutorMetrics;
use subscriber::reassembler::{reassemble, resolve, unique_digests};
use subscriber::store::BatchStore;
use subscriber::types::{Batch, Certificate, SubDag};

fn mk_batch(digest: u64, payload: &[u8]) -> Batch {
    Batch { digest, payload: payload.to_vec() }
}

fn mk_subdag(round: u64, certs: &[(u64, &[u64])]) -> SubDag {
    SubDag {
        round,
        certificates: certs
            .iter()
            .map(|(r, ds)| Certificate { round: *r, digests: ds.to_vec() })
            .collect(),
    }
}

fn store_with(digests: &[u64]) -> BatchStore {
    let mut s = BatchStore::new();
    for d in digests {
        s.insert(mk_batch(*d, format!("payload-{d}").as_bytes()));
    }
    s
}

fn flattened_digests(ds: &DeliveredSubDag) -> Vec<u64> {
    ds.groups.iter().flat_map(|g| g.iter().map(|b| b.digest)).collect()
}

#[test]
fn resolver_fetches_each_digest_once_and_preserves_order() {
    // Two certificates referencing {A, B} and {B, C}: one fetch each for
    // A, B, C; delivery is [[A, B], [B, C]] in certificate order.
    let a = 1u64;
    let b = 2u64;
    let c = 3u64;
    let subdag = mk_subdag(1, &[(1, &[a, b]), (1, &[b, c])]);
    let to_fetch = unique_digests(&subdag);
    assert_eq!(to_fetch, vec![a, b, c]);
    let resolved = store_with(&[a, b, c]);
    let groups = reassemble(&subdag, &resolved).expect("fully resolved");
    let digests: Vec<Vec<u64>> =
        groups.iter().map(|g| g.iter().map(|x| x.digest).collect()).collect();
    assert_eq!(digests, vec![vec![a, b], vec![b, c]]);
}

#[test]
fn unresolved_digest_aborts_the_subdag() {
    // The digest whose remote fetches were exhausted is missing from the
    // resolved set: the sub-DAG is not delivered, the failure is surfaced.
    let subdag = mk_subdag(1, &[(1, &[10, 11])]);
    let resolved = store_with(&[10]);
    assert_eq!(
        reassemble(&subdag, &resolved),
        Err(ExecutorError::FetchExhausted { digest: 11 })
    );
    let mut sub = Subscriber::new(4, 0);
    let r = sub.process_subdag(&subdag, &resolved);
    assert_eq!(r, Err(ExecutorError::FetchExhausted { digest: 11 }));
    assert_eq!(sub.channel.occupancy(), 0);
    assert_eq!(sub.cursor.round, 0);
}

#[test]
fn delivery_matches_references_no_duplicates_no_omissions() {
    let subdag = mk_subdag(3, &[(2, &[5, 6]), (3, &[6, 7]), (3, &[])]);
    let resolved = store_with(&[5, 6, 7]);
    let mut sub = Subscriber::new(4, 0);
    assert_eq!(sub.process_subdag(&subdag, &resolved), Ok(ProcessOutcome::Delivered));
    let delivered = sub.channel.pop_front().expect("one delivery");
    assert_eq!(delivered.round, 3);
    assert_eq!(delivered.groups.len(), 3);
    assert_eq!(flattened_digests(&delivered), vec![5, 6, 6, 7]);
}

#[test]
fn recovery_replay_is_idempotent() {
    let subdag = mk_subdag(1, &[(1, &[42])]);
    let resolved = store_with(&[42]);
    let mut sub = Subscriber::new(4, 0);
    assert_eq!(sub.process_subdag(&subdag, &resolved), Ok(ProcessOutcome::Delivered));
    assert_eq!(sub.cursor.round, 1);
    assert_eq!(sub.channel.occupancy(), 1);
    // The same sub-DAG again: skipped, no duplicate delivery, cursor kept.
    assert_eq!(sub.process_subdag(&subdag, &resolved), Ok(ProcessOutcome::Skipped));
    assert_eq!(sub.cursor.round, 1);
    assert_eq!(sub.channel.occupancy(), 1);
    // A simulated restart that loads the persisted cursor: still a no-op.
    let mut restarted = Subscriber::new(4, sub.cursor.round);
    assert_eq!(restarted.process_subdag(&subdag, &resolved), Ok(ProcessOutcome::Skipped));
    assert_eq!(restarted.channel.occupancy(), 0);
    assert_eq!(restarted.cursor.round, 1);
}

#[test]
fn backpressure_blocks_and_drops_nothing() {
    let resolved = store_with(&[1, 2]);
    let first = mk_subdag(1, &[(1, &[1])]);
    let second = mk_subdag(2, &[(2, &[2])]);
    let mut sub = Subscriber::new(1, 0);
    assert_eq!(sub.process_subdag(&first, &resolved), Ok(ProcessOutcome::Delivered));
    // Capacity 1 is reached: the second sub-DAG blocks and nothing changes.
    assert_eq!(sub.process_subdag(&second, &resolved), Ok(ProcessOutcome::Blocked));
    assert_eq!(sub.channel.occupancy(), 1);
    assert_eq!(sub.cursor.round, 1);
    // The notifier consumes in FIFO order; the retry then succeeds.
    let consumed = sub.channel.pop_front().expect("first delivery");
    assert_eq!(consumed.round, 1);
    assert_eq!(sub.process_subdag(&second, &resolved), Ok(ProcessOutcome::Delivered));
    assert_eq!(sub.cursor.round, 2);
}

#[test]
fn subdags_are_delivered_in_commit_order() {
    let resolved = store_with(&[1, 2, 3]);
    let mut sub = Subscriber::new(8, 0);
    for (round, digest) in [(1u64, 1u64), (2, 2), (3, 3)] {
        let sd = mk_subdag(round, &[(round, &[digest])]);
        assert_eq!(sub.process_subdag(&sd, &resolved), Ok(ProcessOutcome::Delivered));
    }
    let rounds: Vec<u64> = (0..3).map(|_| sub.channel.pop_front().unwrap().round).collect();
    assert_eq!(rounds, vec![1, 2, 3]);
}

#[test]
fn malformed_certificate_is_surfaced_not_skipped() {
    // A certificate claiming a round later than the commit round violates
    // the consensus invariant.
    let subdag = mk_subdag(1, &[(5, &[1])]);
    let resolved = store_with(&[1]);
    let mut sub = Subscriber::new(4, 0);
    assert_eq!(
        sub.process_subdag(&subdag, &resolved),
        Err(ExecutorError::MalformedCertificate { subdag_round: 1 })
    );
    assert_eq!(sub.channel.occupancy(), 0);
}

#[test]
fn draining_halts_intake() {
    let subdag = mk_subdag(1, &[(1, &[1])]);
    let resolved = store_with(&[1]);
    let mut sub = Subscriber::new(4, 0);
    sub.begin_drain();
    assert_eq!(sub.phase, SubscriberPhase::Draining);
    assert_eq!(sub.process_subdag(&subdag, &resolved), Ok(ProcessOutcome::Halted));
    assert_eq!(sub.channel.occupancy(), 0);
    assert_eq!(sub.cursor.round, 0);
}

#[test]
fn recovered_certificates_counted_only_while_recovering() {
    let resolved = store_with(&[1, 2]);
    let mut sub = Subscriber::new(4, 0);
    assert_eq!(sub.phase, SubscriberPhase::Recovering);
    let replay = mk_subdag(1, &[(1, &[1]), (1, &[2])]);
    assert_eq!(sub.process_subdag(&replay, &resolved), Ok(ProcessOutcome::Delivered));
    assert_eq!(sub.metrics.subscriber_recovered_certificates_count, 2);
    sub.finish_recovery();
    assert_eq!(sub.phase, SubscriberPhase::Streaming);
    let live = mk_subdag(2, &[(2, &[2])]);
    assert_eq!(sub.process_subdag(&live, &resolved), Ok(ProcessOutcome::Delivered));
    assert_eq!(sub.metrics.subscriber_recovered_certificates_count, 2);
    assert_eq!(sub.metrics.subscriber_processed_batches, 3);
    assert_eq!(sub.metrics.subscriber_current_round, 2);
    assert_eq!(sub.metrics.committed_subdag_batch_count.samples, 2);
    assert_eq!(sub.metrics.committed_subdag_batch_count.total, 3);
    assert_eq!(sub.metrics.tx_notifier, 2);
}

#[test]
fn empty_subdag_delivers_empty_groups() {
    let resolved = BatchStore::new();
    let subdag = mk_subdag(1, &[]);
    let mut sub = Subscriber::new(4, 0);
    assert_eq!(sub.process_subdag(&subdag, &resolved), Ok(ProcessOutcome::Delivered));
    let delivered = sub.channel.pop_front().unwrap();
    assert!(delivered.groups.is_empty());
    assert_eq!(sub.cursor.round, 1);
}

#[test]
fn resolve_drives_one_fetch_per_unique_digest() {
    let a = 1u64;
    let b = 2u64;
    let c = 3u64;
    let subdag = mk_subdag(1, &[(1, &[a, b]), (1, &[b, c])]);
    // A sits in local storage; B needs a retry; C answers at once.
    let local = store_with(&[a]);
    let mut table = ReplyTable::new();
    table.push_row(a, vec![None, None, None]);
    table.push_row(b, vec![None, Some(mk_batch(b, b"batch-b")), None]);
    table.push_row(c, vec![Some(mk_batch(c, b"batch-c")), None, None]);
    let mut metrics = ExecutorMetrics::new();
    let groups = resolve(&subdag, &local, &table, 3, &mut metrics).expect("all resolvable");
    let digests: Vec<Vec<u64>> =
        groups.iter().map(|g| g.iter().map(|x| x.digest).collect()).collect();
    assert_eq!(digests, vec![vec![a, b], vec![b, c]]);
    // Although B is referenced twice, {A, B, C} are each fetched once:
    // one local hit (A), two local misses (B, C), one failed and two
    // successful remote attempts.
    assert_eq!(metrics.subscriber_batch_fetch.local_hit, 1);
    assert_eq!(metrics.subscriber_batch_fetch.local_miss, 2);
    assert_eq!(metrics.subscriber_batch_fetch.remote_failure, 1);
    assert_eq!(metrics.subscriber_batch_fetch.remote_success, 2);
}

#[test]
fn resolve_surfaces_exhaustion_for_the_failing_digest() {
    let x = 9u64;
    let subdag = mk_subdag(1, &[(1, &[x])]);
    let local = BatchStore::new();
    let mut table = ReplyTable::new();
    table.push_row(x, vec![None, None, None]);
    let mut metrics = ExecutorMetrics::new();
    assert_eq!(
        resolve(&subdag, &local, &table, 3, &mut metrics),
        Err(ExecutorError::FetchExhausted { digest: x })
    );
    assert_eq!(metrics.subscriber_batch_fetch.remote_failure, 3);
}
