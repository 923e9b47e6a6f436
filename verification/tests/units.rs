use subscriber::channel::{DeliveredSubDag, NotifierChannel};
use subscriber::errors::ExecutorError;
use subscriber::metrics::{saturating_add, ExecutorMetrics, HistogramStats};
use subscriber::recovery::RecoveryTracker;
use subscriber::store::BatchStore;
use subscriber::types::{Batch, Certificate, SubDag};

fn mk_batch(digest: u64, payload: &[u8]) -> Batch {
    Batch { digest, payload: payload.to_vec() }
}

#[test]
fn store_keys_batches_by_digest() {
    let mut store = BatchStore::new();
    assert!(store.insert(mk_batch(1, b"one")));
    assert!(store.insert(mk_batch(2, b"two")));
    // A second batch under the same digest is not inserted: the first
    // resolved result wins.
    assert!(!store.insert(mk_batch(1, b"other")));
    assert_eq!(store.len(), 2);
    assert!(store.contains(1));
    assert!(!store.contains(3));
    assert_eq!(store.get(1).unwrap().payload, b"one".to_vec());
    assert_eq!(store.get(3), None);
}

#[test]
fn cursor_advances_only_forward() {
    let mut cursor = RecoveryTracker::load(0);
    assert_eq!(cursor.advance(5), Ok(()));
    assert_eq!(cursor.round, 5);
    // An idempotent replay is rejected and leaves the cursor untouched.
    assert_eq!(
        cursor.advance(5),
        Err(ExecutorError::RecoveryCursorRegression { attempted: 5, current: 5 })
    );
    assert_eq!(
        cursor.advance(4),
        Err(ExecutorError::RecoveryCursorRegression { attempted: 4, current: 5 })
    );
    assert_eq!(cursor.round, 5);
    assert_eq!(cursor.advance(6), Ok(()));
    assert_eq!(cursor.round, 6);
}

#[test]
fn channel_holds_at_most_capacity_and_hands_back_on_full() {
    let mut ch = NotifierChannel::new(2);
    assert!(ch.try_push(DeliveredSubDag { round: 1, groups: vec![] }).is_none());
    assert!(ch.try_push(DeliveredSubDag { round: 2, groups: vec![] }).is_none());
    assert!(ch.is_full());
    let back = ch.try_push(DeliveredSubDag { round: 3, groups: vec![] });
    let back = back.expect("full channel hands the sub-DAG back");
    assert_eq!(back.round, 3);
    assert_eq!(ch.occupancy(), 2);
    // FIFO consumption.
    assert_eq!(ch.pop_front().unwrap().round, 1);
    assert_eq!(ch.pop_front().unwrap().round, 2);
    assert_eq!(ch.pop_front().map(|d| d.round), None);
}

#[test]
fn counters_saturate_instead_of_wrapping() {
    assert_eq!(saturating_add(u64::MAX - 1, 1), u64::MAX);
    assert_eq!(saturating_add(u64::MAX, 5), u64::MAX);
    assert_eq!(saturating_add(3, 4), 7);
    let mut h = HistogramStats::empty();
    h.observe(10);
    h.observe(32);
    assert_eq!(h.samples, 2);
    assert_eq!(h.total, 42);
}

#[test]
fn fresh_metrics_are_all_zero() {
    let m = ExecutorMetrics::new();
    assert_eq!(m.subscriber_processed_batches, 0);
    assert_eq!(m.subscriber_current_round, 0);
    assert_eq!(m.tx_notifier, 0);
    assert_eq!(m.subscriber_batch_fetch.local_hit, 0);
    assert_eq!(m.committed_subdag_batch_count.samples, 0);
}

#[test]
fn well_formedness_checks_certificate_rounds() {
    let good = SubDag {
        round: 3,
        certificates: vec![
            Certificate { round: 2, digests: vec![1] },
            Certificate { round: 3, digests: vec![] },
        ],
    };
    assert!(good.check_well_formed());
    let bad = SubDag {
        round: 3,
        certificates: vec![Certificate { round: 4, digests: vec![1] }],
    };
    assert!(!bad.check_well_formed());
}

#[test]
fn reference_count_counts_every_reference() {
    let subdag = SubDag {
        round: 1,
        certificates: vec![
            Certificate { round: 1, digests: vec![1, 2] },
            Certificate { round: 1, digests: vec![2, 3, 4] },
            Certificate { round: 1, digests: vec![] },
        ],
    };
    assert_eq!(subdag.count_references(), 5);
}

#[test]
fn batch_duplicate_copies_bytes() {
    let b = mk_batch(9, b"abc");
    let d = b.duplicate();
    assert_eq!(d, b);
}
