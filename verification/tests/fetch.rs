use subscriber::batch_source::{check_reply, fetch, probe_local};
use subscriber::errors::FetchError;
use subscriber::metrics::ExecutorMetrics;
use subscriber::scheduler::{CancelOutcome, FetchScheduler, RequestOutcome};
use subscriber::store::BatchStore;
use subscriber::types::Batch;

fn mk_batch(digest: u64, payload: &[u8]) -> Batch {
    Batch { digest, payload: payload.to_vec() }
}

#[test]
fn local_hit_records_outcome_and_never_goes_remote() {
    let mut local = BatchStore::new();
    local.insert(mk_batch(7, b"payload-y"));
    let mut metrics = ExecutorMetrics::new();
    // Replies that would fail every attempt: they must never be consulted.
    let replies: Vec<Option<Batch>> = vec![None, None, None];
    let r = fetch(7, &local, &replies, 3, &mut metrics);
    let b = r.expect("local hit must succeed");
    assert_eq!(b.digest, 7);
    assert_eq!(b.payload, b"payload-y".to_vec());
    assert_eq!(metrics.subscriber_batch_fetch.local_hit, 1);
    assert_eq!(metrics.subscriber_batch_fetch.local_miss, 0);
    assert_eq!(metrics.subscriber_batch_fetch.remote_success, 0);
    assert_eq!(metrics.subscriber_batch_fetch.remote_failure, 0);
}

#[test]
fn fetch_exhausted_after_configured_failures() {
    let local = BatchStore::new();
    let mut metrics = ExecutorMetrics::new();
    let replies: Vec<Option<Batch>> = vec![None, None, None];
    let r = fetch(9, &local, &replies, 3, &mut metrics);
    assert_eq!(r, Err(FetchError::FetchExhausted));
    assert_eq!(metrics.subscriber_batch_fetch.local_miss, 1);
    assert_eq!(metrics.subscriber_batch_fetch.remote_failure, 3);
    assert_eq!(metrics.subscriber_batch_fetch.remote_success, 0);
}

#[test]
fn remote_success_counts_attempts_exactly_once() {
    let local = BatchStore::new();
    let mut metrics = ExecutorMetrics::new();
    let replies = vec![None, Some(mk_batch(4, b"late")), Some(mk_batch(4, b"unused"))];
    let r = fetch(4, &local, &replies, 3, &mut metrics);
    let b = r.expect("second attempt succeeds");
    assert_eq!(b.payload, b"late".to_vec());
    assert_eq!(metrics.subscriber_batch_fetch.local_miss, 1);
    assert_eq!(metrics.subscriber_batch_fetch.remote_failure, 1);
    assert_eq!(metrics.subscriber_batch_fetch.remote_success, 1);
}

#[test]
fn mismatched_reply_is_a_transient_failure() {
    assert_eq!(
        check_reply(4, &Some(mk_batch(5, b"wrong digest"))),
        Err(FetchError::RemoteTransientFailure)
    );
    assert_eq!(check_reply(4, &None), Err(FetchError::RemoteTransientFailure));
    let ok = check_reply(4, &Some(mk_batch(4, b"right"))).expect("good reply");
    assert_eq!(ok.digest, 4);
}

#[test]
fn probe_local_miss_falls_through() {
    let local = BatchStore::new();
    let mut metrics = ExecutorMetrics::new();
    assert_eq!(probe_local(1, &local, &mut metrics), Err(FetchError::LocalMiss));
    assert_eq!(metrics.subscriber_batch_fetch.local_miss, 1);
}

#[test]
fn single_flight_deduplicates_concurrent_requests() {
    let mut sched = FetchScheduler::new(4);
    assert_eq!(sched.request(5), RequestOutcome::Started);
    assert_eq!(sched.request(5), RequestOutcome::Attached);
    assert_eq!(sched.request(5), RequestOutcome::Attached);
    // Three callers, one physical fetch.
    assert_eq!(sched.num_active(), 1);
    assert_eq!(sched.num_pending(), 1);
    // One completion releases every waiter with the same result.
    let (released, promoted) = sched.complete(5);
    assert_eq!(released, 3);
    assert_eq!(promoted, None);
    assert_eq!(sched.num_pending(), 0);
}

#[test]
fn requests_beyond_limit_queue_fifo() {
    let mut sched = FetchScheduler::new(1);
    assert_eq!(sched.request(1), RequestOutcome::Started);
    assert_eq!(sched.request(2), RequestOutcome::Queued);
    assert_eq!(sched.request(3), RequestOutcome::Queued);
    assert_eq!(sched.num_active(), 1);
    assert_eq!(sched.num_pending(), 3);
    let (_, promoted) = sched.complete(1);
    assert_eq!(promoted, Some(2));
    let (_, promoted) = sched.complete(2);
    assert_eq!(promoted, Some(3));
    let (_, promoted) = sched.complete(3);
    assert_eq!(promoted, None);
    assert_eq!(sched.num_pending(), 0);
}

#[test]
fn cancelling_one_waiter_keeps_the_fetch() {
    let mut sched = FetchScheduler::new(2);
    assert_eq!(sched.request(7), RequestOutcome::Started);
    assert_eq!(sched.request(7), RequestOutcome::Attached);
    // One of two waiters leaves: the fetch goes on.
    assert_eq!(sched.cancel_waiter(7), CancelOutcome::Remaining);
    assert_eq!(sched.num_active(), 1);
    // The last waiter leaves: the fetch is abandoned.
    assert_eq!(sched.cancel_waiter(7), CancelOutcome::Abandoned { promoted: None });
    assert_eq!(sched.num_pending(), 0);
}

#[test]
fn abandoning_an_active_fetch_promotes_the_queue_head() {
    let mut sched = FetchScheduler::new(1);
    assert_eq!(sched.request(1), RequestOutcome::Started);
    assert_eq!(sched.request(2), RequestOutcome::Queued);
    assert_eq!(sched.cancel_waiter(1), CancelOutcome::Abandoned { promoted: Some(2) });
    assert_eq!(sched.num_active(), 1);
    assert_eq!(sched.num_pending(), 1);
}
