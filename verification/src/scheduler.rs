//! `FetchScheduler`: single-flight admission of remote fetches.
//!
//! One pending fetch exists per digest, however many callers ask for it; a
//! global limit bounds how many fetches run at once, and requests beyond the
//! limit queue in FIFO order. Each pending fetch carries the number of
//! waiters sharing its handle: when the fetch resolves, `complete` releases
//! them all at once, so every waiter observes the same terminal result; a
//! single waiter cancelling detaches only itself while others remain.
//!
//! The scheduler is pure bookkeeping: the caller starts a physical fetch
//! exactly when `request` says `Started` (or a digest is handed back as
//! promoted), and reports the outcome back through `complete`.

use vstd::assert_seqs_equal;
use vstd::prelude::*;

use crate::types::BatchDigest;

verus! {

/// One in-flight or queued fetch and the number of waiters sharing it.
#[derive(Clone, Copy, Debug, PartialEq, Eq, Structural)]
pub struct PendingFetch {
    pub digest: BatchDigest,
    pub waiters: usize,
}

/// What `request` did for a digest.
#[derive(Clone, Copy, Debug, PartialEq, Eq, Structural)]
pub enum RequestOutcome {
    /// A pending fetch already existed; the caller joined its waiters.
    Attached,
    /// A new fetch was admitted below the concurrency limit: the caller must
    /// start the physical fetch now.
    Started,
    /// A new pending fetch was created but the limit is reached: it waits in
    /// FIFO order for a slot.
    Queued,
}

/// What `cancel_waiter` did.
#[derive(Clone, Copy, Debug, PartialEq, Eq, Structural)]
pub enum CancelOutcome {
    /// Other waiters remain: the underlying fetch goes on.
    Remaining,
    /// The last waiter left: the pending fetch was dropped, and `promoted`
    /// (when the fetch held an active slot) is the queued digest that takes
    /// it over.
    Abandoned { promoted: Option<BatchDigest> },
}

/// The digests of a pending-fetch sequence, in order.
pub open spec fn digests_of(s: Seq<PendingFetch>) -> Seq<BatchDigest> {
    s.map(|i: int, p: PendingFetch| p.digest)
}

/// No digest occurs twice in `s`.
pub open spec fn unique_digests(s: Seq<PendingFetch>) -> bool {
    forall|i: int, j: int| 0 <= i < j < s.len() ==> s[i].digest != s[j].digest
}

/// Whether `s` holds an entry for `d`.
pub open spec fn has_digest_in(s: Seq<PendingFetch>, d: BatchDigest) -> bool {
    exists|i: int| 0 <= i < s.len() && s[i].digest == d
}

/// Waiters of the entry for `d` (0 when absent; unique when `unique_digests`).
pub open spec fn waiters_in(s: Seq<PendingFetch>, d: BatchDigest) -> nat {
    if has_digest_in(s, d) {
        s[choose|i: int| 0 <= i < s.len() && s[i].digest == d].waiters as nat
    } else {
        0
    }
}

/// In a duplicate-free sequence, any index holding `d` is the one
/// `waiters_in` reads.
pub proof fn lemma_waiters_at(s: Seq<PendingFetch>, d: BatchDigest, i: int)
    requires
        unique_digests(s),
        0 <= i < s.len(),
        s[i].digest == d,
    ensures
        has_digest_in(s, d),
        waiters_in(s, d) == s[i].waiters as nat,
{
    let w = choose|k: int| 0 <= k < s.len() && s[k].digest == d;
    assert(s[w].digest == d);
}


/// Removing the entry at `i` (digest `d`) from a duplicate-free table
/// leaves every other digest's presence and waiters untouched.
pub proof fn lemma_remove_frame(s0: Seq<PendingFetch>, s1: Seq<PendingFetch>, i: int, d: BatchDigest)
    requires
        unique_digests(s0),
        0 <= i < s0.len(),
        s0[i].digest == d,
        s1 == s0.remove(i),
    ensures
        unique_digests(s1),
        !has_digest_in(s1, d),
        forall|d2: BatchDigest|
            d2 != d ==> #[trigger] has_digest_in(s1, d2) == has_digest_in(s0, d2),
        forall|d2: BatchDigest| d2 != d ==> #[trigger] waiters_in(s1, d2) == waiters_in(s0, d2),
{
    assert(forall|k: int| 0 <= k < i ==> s1[k] == s0[k]);
    assert(forall|k: int| i <= k < s1.len() ==> s1[k] == s0[k + 1]);
    assert(unique_digests(s1));
    assert(!has_digest_in(s1, d)) by {
        if has_digest_in(s1, d) {
            let k = choose|k: int| 0 <= k < s1.len() && s1[k].digest == d;
            if k < i {
                assert(s0[k].digest == d);
            } else {
                assert(s0[k + 1].digest == d);
            }
        }
    }
    assert forall|d2: BatchDigest| d2 != d implies #[trigger] has_digest_in(s1, d2)
        == has_digest_in(s0, d2) by {
        lemma_remove_frame_one(s0, s1, i, d, d2);
    }
    assert forall|d2: BatchDigest| d2 != d implies #[trigger] waiters_in(s1, d2) == waiters_in(
        s0,
        d2,
    ) by {
        lemma_remove_frame_one(s0, s1, i, d, d2);
    }
}

/// One digest's case of [`lemma_remove_frame`].
proof fn lemma_remove_frame_one(
    s0: Seq<PendingFetch>,
    s1: Seq<PendingFetch>,
    i: int,
    d: BatchDigest,
    d2: BatchDigest,
)
    requires
        unique_digests(s0),
        0 <= i < s0.len(),
        s0[i].digest == d,
        s1 == s0.remove(i),
        d2 != d,
    ensures
        has_digest_in(s1, d2) == has_digest_in(s0, d2),
        waiters_in(s1, d2) == waiters_in(s0, d2),
{
    assert(forall|k: int| 0 <= k < i ==> s1[k] == s0[k]);
    assert(forall|k: int| i <= k < s1.len() ==> s1[k] == s0[k + 1]);
    assert(unique_digests(s1));
    if has_digest_in(s0, d2) {
        let k = choose|k: int| 0 <= k < s0.len() && s0[k].digest == d2;
        assert(k != i);
        lemma_waiters_at(s0, d2, k);
        if k < i {
            lemma_waiters_at(s1, d2, k);
        } else {
            lemma_waiters_at(s1, d2, k - 1);
        }
    } else {
        assert(!has_digest_in(s1, d2)) by {
            if has_digest_in(s1, d2) {
                let k = choose|k: int| 0 <= k < s1.len() && s1[k].digest == d2;
                if k < i {
                    assert(s0[k].digest == d2);
                } else {
                    assert(s0[k + 1].digest == d2);
                }
            }
        }
    }
}

/// Bounded, deduplicating admission of remote fetches.
#[derive(Debug)]
pub struct FetchScheduler {
    /// Maximum number of concurrently running fetches.
    pub limit: usize,
    /// Fetches running now, at most `limit`.
    pub active: Vec<PendingFetch>,
    /// Fetches waiting for a slot, in FIFO order.
    pub queued: Vec<PendingFetch>,
}

impl FetchScheduler {
    /// Every pending fetch, running first, then the queue in FIFO order.
    pub open spec fn all_pending(self) -> Seq<PendingFetch> {
        self.active@ + self.queued@
    }

    /// Single-flight table invariant: at most `limit` running, one entry per
    /// digest, nothing queued while a slot is free, and every entry has at
    /// least one waiter.
    pub open spec fn wf(self) -> bool {
        &&& self.limit >= 1
        &&& self.active@.len() <= self.limit
        &&& unique_digests(self.all_pending())
        &&& self.queued@.len() > 0 ==> self.active@.len() == self.limit
        &&& forall|i: int|
            0 <= i < self.all_pending().len() ==> (#[trigger] self.all_pending()[i]).waiters >= 1
    }

    /// Whether some pending fetch (running or queued) exists for `d`.
    pub open spec fn has_pending(self, d: BatchDigest) -> bool {
        has_digest_in(self.all_pending(), d)
    }

    /// Whether the fetch for `d` is running now.
    pub open spec fn is_active(self, d: BatchDigest) -> bool {
        has_digest_in(self.active@, d)
    }

    /// Waiters currently sharing the pending fetch for `d` (0 when none).
    pub open spec fn waiters_for(self, d: BatchDigest) -> nat {
        waiters_in(self.all_pending(), d)
    }

    /// Exact effect of one `request` call: the single-flight step relation.
    pub open spec fn request_transition(
        pre: Self,
        d: BatchDigest,
        post: Self,
        r: RequestOutcome,
    ) -> bool {
        &&& post.limit == pre.limit
        &&& post.has_pending(d)
        &&& match r {
            RequestOutcome::Attached => {
                &&& pre.has_pending(d)
                &&& digests_of(post.active@) == digests_of(pre.active@)
                &&& digests_of(post.queued@) == digests_of(pre.queued@)
                &&& post.waiters_for(d) == (if pre.waiters_for(d) < usize::MAX {
                    pre.waiters_for(d) as int + 1
                } else {
                    pre.waiters_for(d) as int
                })
                &&& forall|d2: BatchDigest|
                    d2 != d ==> #[trigger] post.waiters_for(d2) == pre.waiters_for(d2)
            },
            RequestOutcome::Started => {
                &&& !pre.has_pending(d)
                &&& pre.active@.len() < pre.limit
                &&& post.active@ == pre.active@.push(PendingFetch { digest: d, waiters: 1 })
                &&& post.queued@ == pre.queued@
            },
            RequestOutcome::Queued => {
                &&& !pre.has_pending(d)
                &&& pre.active@.len() >= pre.limit
                &&& post.active@ == pre.active@
                &&& post.queued@ == pre.queued@.push(PendingFetch { digest: d, waiters: 1 })
            },
        }
    }

    /// A fresh scheduler admitting up to `limit` concurrent fetches.
    pub fn new(limit: usize) -> (r: Self)
        requires
            limit >= 1,
        ensures
            r.wf(),
            r.limit == limit,
            r.all_pending().len() == 0,
            forall|d: BatchDigest| !r.has_pending(d),
    {
        FetchScheduler { limit, active: Vec::new(), queued: Vec::new() }
    }

    /// Number of fetches running now (the pending-remote-requests gauge).
    pub fn num_active(&self) -> (r: usize)
        ensures
            r == self.active@.len(),
    {
        self.active.len()
    }

    /// Number of pending fetches, running and queued (the
    /// waiting-downloads gauge).
    pub fn num_pending(&self) -> (r: usize)
        requires
            self.active@.len() + self.queued@.len() <= usize::MAX,
        ensures
            r == self.all_pending().len(),
    {
        self.active.len() + self.queued.len()
    }

    /// Index of the entry for `d` in `v`, if any.
    fn find_in(v: &Vec<PendingFetch>, d: BatchDigest) -> (r: Option<usize>)
        ensures
            match r {
                Some(i) => i < v@.len() && v@[i as int].digest == d,
                None => !has_digest_in(v@, d),
            },
    {
        let mut i: usize = 0;
        while i < v.len()
            invariant
                0 <= i <= v@.len(),
                forall|k: int| 0 <= k < i ==> (#[trigger] v@[k]).digest != d,
            decreases v@.len() - i,
        {
            if v[i].digest == d {
                return Some(i);
            }
            i += 1;
        }
        None
    }

    /// Requests the batch for `d`. If a pending fetch exists the caller
    /// joins it (single-flight); otherwise one is created, running if a slot
    /// is free and queued FIFO if not. The caller starts a physical fetch
    /// exactly when the outcome is `Started`.
    pub fn request(&mut self, d: BatchDigest) -> (r: RequestOutcome)
        requires
            old(self).wf(),
        ensures
            final(self).wf(),
            Self::request_transition(*old(self), d, *final(self), r),
    {
        let ghost pre = *self;
        match Self::find_in(&self.active, d) {
            Some(i) => {
                let w = self.active[i].waiters;
                let bumped = if w < usize::MAX {
                    w + 1
                } else {
                    w
                };
                self.active.set(i, PendingFetch { digest: d, waiters: bumped });
                proof {
                    assert(pre.all_pending()[i as int] == pre.active@[i as int]);
                    assert(self.all_pending() =~= pre.all_pending().update(
                        i as int,
                        PendingFetch { digest: d, waiters: bumped },
                    ));
                    Self::lemma_attach(pre, *self, d, i as int);
                }
                RequestOutcome::Attached
            },
            None => {
                match Self::find_in(&self.queued, d) {
                    Some(j) => {
                        let w = self.queued[j].waiters;
                        let bumped = if w < usize::MAX {
                            w + 1
                        } else {
                            w
                        };
                        self.queued.set(j, PendingFetch { digest: d, waiters: bumped });
                        proof {
                            let idx = pre.active@.len() as int + j as int;
                            assert(pre.all_pending()[idx] == pre.queued@[j as int]);
                            assert(self.all_pending() =~= pre.all_pending().update(
                                idx,
                                PendingFetch { digest: d, waiters: bumped },
                            ));
                            Self::lemma_attach(pre, *self, d, idx);
                        }
                        RequestOutcome::Attached
                    },
                    None => {
                        proof {
                            assert(!pre.has_pending(d)) by {
                                if has_digest_in(pre.all_pending(), d) {
                                    let k = choose|k: int|
                                        0 <= k < pre.all_pending().len()
                                            && pre.all_pending()[k].digest == d;
                                    if k < pre.active@.len() {
                                        assert(pre.active@[k].digest == d);
                                    } else {
                                        assert(pre.queued@[k - pre.active@.len()].digest == d);
                                    }
                                }
                            }
                        }
                        let entry = PendingFetch { digest: d, waiters: 1 };
                        if self.active.len() < self.limit {
                            self.active.push(entry);
                            proof {
                                assert(self.all_pending() =~= pre.all_pending().push(entry));
                                Self::lemma_append_fresh(pre, *self, d, entry);
                            }
                            RequestOutcome::Started
                        } else {
                            self.queued.push(entry);
                            proof {
                                assert(self.all_pending() =~= pre.all_pending().push(entry));
                                Self::lemma_append_fresh(pre, *self, d, entry);
                            }
                            RequestOutcome::Queued
                        }
                    },
                }
            },
        }
    }

    /// After bumping the waiter count at index `i` of the pending table, the
    /// table's digests are unchanged and only `d`'s waiters moved.
    proof fn lemma_attach(pre: Self, post: Self, d: BatchDigest, i: int)
        requires
            pre.wf(),
            post.limit == pre.limit,
            0 <= i < pre.all_pending().len(),
            pre.all_pending()[i].digest == d,
            post.all_pending() == pre.all_pending().update(
                i,
                PendingFetch {
                    digest: d,
                    waiters: (if pre.all_pending()[i].waiters < usize::MAX {
                        pre.all_pending()[i].waiters as int + 1
                    } else {
                        pre.all_pending()[i].waiters as int
                    }) as usize,
                },
            ),
            post.active@.len() == pre.active@.len(),
            post.queued@.len() == pre.queued@.len(),
        ensures
            post.wf(),
            post.has_pending(d),
            digests_of(post.active@) == digests_of(pre.active@),
            digests_of(post.queued@) == digests_of(pre.queued@),
            post.waiters_for(d) == (if pre.waiters_for(d) < usize::MAX {
                pre.waiters_for(d) as int + 1
            } else {
                pre.waiters_for(d) as int
            }),
            forall|d2: BatchDigest|
                d2 != d ==> #[trigger] post.waiters_for(d2) == pre.waiters_for(d2),
    {
        let s0 = pre.all_pending();
        let s1 = post.all_pending();
        assert(forall|k: int| 0 <= k < s1.len() && k != i ==> s1[k] == s0[k]);
        assert(forall|k: int| 0 <= k < s1.len() ==> (#[trigger] s1[k]).digest == s0[k].digest);
        assert(unique_digests(s1));
        assert(post.wf());
        assert_seqs_equal!(digests_of(post.active@), digests_of(pre.active@), k => {
            assert(post.active@[k] == s1[k]);
            assert(pre.active@[k] == s0[k]);
        });
        assert_seqs_equal!(digests_of(post.queued@), digests_of(pre.queued@), k => {
            assert(post.queued@[k] == s1[pre.active@.len() + k]);
            assert(pre.queued@[k] == s0[pre.active@.len() + k]);
        });
        lemma_waiters_at(s0, d, i);
        lemma_waiters_at(s1, d, i);
        assert forall|d2: BatchDigest| d2 != d implies #[trigger] post.waiters_for(d2)
            == pre.waiters_for(d2) by {
            if has_digest_in(s0, d2) {
                let k = choose|k: int| 0 <= k < s0.len() && s0[k].digest == d2;
                assert(k != i);
                lemma_waiters_at(s0, d2, k);
                lemma_waiters_at(s1, d2, k);
            } else {
                assert(!has_digest_in(s1, d2)) by {
                    if has_digest_in(s1, d2) {
                        let k = choose|k: int| 0 <= k < s1.len() && s1[k].digest == d2;
                        assert(s0[k].digest == d2);
                    }
                }
            }
        }
    }

    /// Appending a fresh digest keeps the table well formed and leaves other
    /// digests' waiters alone.
    proof fn lemma_append_fresh(pre: Self, post: Self, d: BatchDigest, entry: PendingFetch)
        requires
            pre.wf(),
            post.limit == pre.limit,
            !pre.has_pending(d),
            entry.digest == d,
            entry.waiters == 1,
            post.all_pending() == pre.all_pending().push(entry),
            post.active@.len() <= post.limit,
            post.queued@.len() > 0 ==> post.active@.len() == post.limit,
        ensures
            post.wf(),
            post.has_pending(d),
    {
        let s0 = pre.all_pending();
        let s1 = post.all_pending();
        assert(s1[s1.len() - 1] == entry);
        assert(forall|k: int| 0 <= k < s0.len() ==> s1[k] == s0[k]);
        assert(unique_digests(s1)) by {
            assert(forall|k: int| 0 <= k < s0.len() ==> (#[trigger] s0[k]).digest != d);
        }
    }

    /// Resolves the running fetch for `d` (success or exhausted failure): the
    /// pending entry is dropped and every waiter is released with that one
    /// result — `r.0` is how many. When something is queued, its head takes
    /// the freed slot and is returned as `r.1`: the caller starts its
    /// physical fetch now.
    pub fn complete(&mut self, d: BatchDigest) -> (r: (usize, Option<BatchDigest>))
        requires
            old(self).wf(),
            old(self).is_active(d),
        ensures
            final(self).wf(),
            final(self).limit == old(self).limit,
            !final(self).has_pending(d),
            r.0 as nat == old(self).waiters_for(d),
            old(self).queued@.len() == 0 ==> r.1 is None && final(self).queued@
                == old(self).queued@,
            old(self).queued@.len() > 0 ==> r.1 == Some(old(self).queued@[0].digest) && final(self).queued@ == old(self).queued@.drop_first() && final(self).is_active(
                old(self).queued@[0].digest,
            ),
            forall|d2: BatchDigest|
                d2 != d ==> #[trigger] final(self).has_pending(d2) == old(self).has_pending(d2),
            forall|d2: BatchDigest|
                d2 != d ==> #[trigger] final(self).waiters_for(d2) == old(self).waiters_for(d2),
            final(self).all_pending().len() + 1 == old(self).all_pending().len(),
    {
        let ghost pre = *self;
        let i = match Self::find_in(&self.active, d) {
            Some(i) => i,
            None => {
                proof {
                    assert(false);
                }
                0
            },
        };
        let entry = self.active.remove(i);
        let released = entry.waiters;
        proof {
            lemma_waiters_at(pre.all_pending(), d, i as int);
            assert(pre.all_pending()[i as int] == pre.active@[i as int]);
        }
        let promoted: Option<BatchDigest> = if self.queued.len() > 0 {
            let head = self.queued.remove(0);
            let hd = head.digest;
            self.active.push(head);
            Some(hd)
        } else {
            None
        };
        proof {
            let s0 = pre.all_pending();
            let s1 = self.all_pending();
            assert(s1 =~= s0.remove(i as int));
            assert(forall|k: int| 0 <= k < i ==> s1[k] == s0[k]);
            assert(forall|k: int| i <= k < s1.len() ==> s1[k] == s0[k + 1]);
            assert(unique_digests(s1));
            assert(self.wf());
            assert(!has_digest_in(s1, d)) by {
                if has_digest_in(s1, d) {
                    let k = choose|k: int| 0 <= k < s1.len() && s1[k].digest == d;
                    if k < i {
                        assert(s0[k].digest == d);
                    } else {
                        assert(s0[k + 1].digest == d);
                    }
                }
            }
            lemma_remove_frame(s0, s1, i as int, d);
            if pre.queued@.len() > 0 {
                assert(self.queued@ =~= pre.queued@.drop_first());
                assert(self.is_active(pre.queued@[0].digest)) by {
                    assert(self.active@[self.active@.len() - 1] == pre.queued@[0]);
                }
            }
        }
        (released, promoted)
    }

    /// Detaches one waiter from the pending fetch for `d`. While other
    /// waiters remain the fetch itself goes on untouched; the last waiter
    /// leaving abandons it, freeing its slot for the queue head (if the
    /// fetch was running).
    pub fn cancel_waiter(&mut self, d: BatchDigest) -> (r: CancelOutcome)
        requires
            old(self).wf(),
            old(self).has_pending(d),
        ensures
            final(self).wf(),
            final(self).limit == old(self).limit,
            old(self).waiters_for(d) > 1 ==> r == CancelOutcome::Remaining && final(self).has_pending(d) && final(self).is_active(d) == old(self).is_active(d) && final(self).waiters_for(d) == old(self).waiters_for(d) - 1,
            old(self).waiters_for(d) == 1 ==> (r matches CancelOutcome::Abandoned { promoted })
                && !final(self).has_pending(d),
            forall|d2: BatchDigest|
                d2 != d ==> #[trigger] final(self).has_pending(d2) == old(self).has_pending(d2),
            forall|d2: BatchDigest|
                d2 != d ==> #[trigger] final(self).waiters_for(d2) == old(self).waiters_for(d2),
    {
        let ghost pre = *self;
        match Self::find_in(&self.active, d) {
            Some(i) => {
                proof {
                    lemma_waiters_at(pre.all_pending(), d, i as int);
                    assert(pre.all_pending()[i as int] == pre.active@[i as int]);
                }
                let w = self.active[i].waiters;
                if w > 1 {
                    self.active.set(i, PendingFetch { digest: d, waiters: w - 1 });
                    proof {
                        assert(self.all_pending() =~= pre.all_pending().update(
                            i as int,
                            PendingFetch { digest: d, waiters: (w - 1) as usize },
                        ));
                        Self::lemma_detach(pre, *self, d, i as int);
                    }
                    CancelOutcome::Remaining
                } else {
                    let (_released, promoted) = self.complete(d);
                    CancelOutcome::Abandoned { promoted }
                }
            },
            None => {
                let j = match Self::find_in(&self.queued, d) {
                    Some(j) => j,
                    None => {
                        proof {
                            assert(false);
                        }
                        0
                    },
                };
                proof {
                    lemma_waiters_at(pre.all_pending(), d, pre.active@.len() + j as int);
                    assert(pre.all_pending()[pre.active@.len() + j as int]
                        == pre.queued@[j as int]);
                }
                let w = self.queued[j].waiters;
                if w > 1 {
                    self.queued.set(j, PendingFetch { digest: d, waiters: w - 1 });
                    proof {
                        let idx = pre.active@.len() as int + j as int;
                        assert(self.all_pending() =~= pre.all_pending().update(
                            idx,
                            PendingFetch { digest: d, waiters: (w - 1) as usize },
                        ));
                        Self::lemma_detach(pre, *self, d, idx);
                    }
                    CancelOutcome::Remaining
                } else {
                    let _entry = self.queued.remove(j);
                    proof {
                        let s0 = pre.all_pending();
                        let s1 = self.all_pending();
                        let i = pre.active@.len() + j as int;
                        assert(s1 =~= s0.remove(i));
                        assert(forall|k: int| 0 <= k < i ==> s1[k] == s0[k]);
                        assert(forall|k: int| i <= k < s1.len() ==> s1[k] == s0[k + 1]);
                        assert(unique_digests(s1));
                        assert(!has_digest_in(s1, d)) by {
                            if has_digest_in(s1, d) {
                                let k = choose|k: int|
                                    0 <= k < s1.len() && s1[k].digest == d;
                                if k < i {
                                    assert(s0[k].digest == d);
                                } else {
                                    assert(s0[k + 1].digest == d);
                                }
                            }
                        }
                        lemma_remove_frame(s0, s1, i, d);
                    }
                    CancelOutcome::Abandoned { promoted: None }
                }
            },
        }
    }

    /// After lowering the waiter count at index `i`, digests and other
    /// entries are untouched.
    proof fn lemma_detach(pre: Self, post: Self, d: BatchDigest, i: int)
        requires
            pre.wf(),
            post.limit == pre.limit,
            0 <= i < pre.all_pending().len(),
            pre.all_pending()[i].digest == d,
            pre.all_pending()[i].waiters > 1,
            post.all_pending() == pre.all_pending().update(
                i,
                PendingFetch {
                    digest: d,
                    waiters: (pre.all_pending()[i].waiters - 1) as usize,
                },
            ),
            post.active@.len() == pre.active@.len(),
            post.queued@.len() == pre.queued@.len(),
        ensures
            post.wf(),
            post.has_pending(d),
            post.is_active(d) == pre.is_active(d),
            post.waiters_for(d) == pre.waiters_for(d) - 1,
            forall|d2: BatchDigest|
                d2 != d ==> #[trigger] post.has_pending(d2) == pre.has_pending(d2),
            forall|d2: BatchDigest|
                d2 != d ==> #[trigger] post.waiters_for(d2) == pre.waiters_for(d2),
    {
        let s0 = pre.all_pending();
        let s1 = post.all_pending();
        assert(forall|k: int| 0 <= k < s1.len() && k != i ==> s1[k] == s0[k]);
        assert(forall|k: int| 0 <= k < s1.len() ==> (#[trigger] s1[k]).digest == s0[k].digest);
        assert(unique_digests(s1));
        assert(post.wf());
        lemma_waiters_at(s0, d, i);
        lemma_waiters_at(s1, d, i);
        assert(post.is_active(d) == pre.is_active(d)) by {
            assert forall|k: int|
                0 <= k < pre.active@.len() implies (#[trigger] post.active@[k]).digest
                    == pre.active@[k].digest by {
                assert(post.active@[k] == s1[k]);
                assert(pre.active@[k] == s0[k]);
            }
            if pre.is_active(d) {
                let k = choose|k: int|
                    0 <= k < pre.active@.len() && pre.active@[k].digest == d;
                assert(post.active@[k].digest == d);
            } else if post.is_active(d) {
                let k = choose|k: int|
                    0 <= k < post.active@.len() && post.active@[k].digest == d;
                assert(pre.active@[k].digest == d);
            }
        }
        assert forall|d2: BatchDigest| d2 != d implies #[trigger] post.has_pending(d2)
            == pre.has_pending(d2) && post.waiters_for(d2) == pre.waiters_for(d2) by {
            if has_digest_in(s0, d2) {
                let k = choose|k: int| 0 <= k < s0.len() && s0[k].digest == d2;
                assert(k != i);
                lemma_waiters_at(s0, d2, k);
                lemma_waiters_at(s1, d2, k);
            } else {
                assert(!has_digest_in(s1, d2)) by {
                    if has_digest_in(s1, d2) {
                        let k = choose|k: int| 0 <= k < s1.len() && s1[k].digest == d2;
                        assert(s0[k].digest == d2);
                    }
                }
            }
        }
    }
}

/// Single flight: a well-formed scheduler never holds two pending fetches
/// for one digest, so however many callers request a digest concurrently, at
/// most one physical fetch is in the table at any time.
pub proof fn lemma_single_flight_table(s: FetchScheduler)
    requires
        s.wf(),
    ensures
        forall|i: int, j: int|
            0 <= i < j < s.all_pending().len() ==> s.all_pending()[i].digest
                != s.all_pending()[j].digest,
{
}

/// Single flight across calls: of two consecutive requests for the same
/// digest, the second always joins the pending fetch of the first — it never
/// starts or queues a second physical fetch, and every waiter it represents
/// is released together with the first caller's by the one `complete` for
/// that digest.
pub proof fn lemma_single_flight(
    s0: FetchScheduler,
    s1: FetchScheduler,
    s2: FetchScheduler,
    d: BatchDigest,
    r1: RequestOutcome,
    r2: RequestOutcome,
)
    requires
        FetchScheduler::request_transition(s0, d, s1, r1),
        FetchScheduler::request_transition(s1, d, s2, r2),
    ensures
        r2 == RequestOutcome::Attached,
{
    assert(s1.has_pending(d));
}

} // verus!
