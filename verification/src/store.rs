//! A digest-keyed collection of batches.
//!
//! Used both as the model of local worker storage (what `BatchSource` probes
//! before going remote) and as the set of already-resolved batches that the
//! reassembler draws from. Keys are the batches' own digests, so well
//! formedness is just digest uniqueness.

use vstd::prelude::*;

use crate::types::{Batch, BatchDigest};

verus! {

/// A set of batches with pairwise distinct digests.
#[derive(Debug)]
pub struct BatchStore {
    pub batches: Vec<Batch>,
}

impl BatchStore {
    /// Digest uniqueness: the store holds at most one batch per digest.
    pub open spec fn wf(self) -> bool {
        forall|i: int, j: int|
            0 <= i < j < self.batches@.len() ==> self.batches@[i].digest
                != self.batches@[j].digest
    }

    /// Whether the store holds a batch with digest `d`.
    pub open spec fn has_digest(self, d: BatchDigest) -> bool {
        exists|i: int| 0 <= i < self.batches@.len() && self.batches@[i].digest == d
    }

    /// The batch stored under `d` (meaningful when `has_digest(d)`; unique
    /// when `wf()`).
    pub open spec fn batch_for(self, d: BatchDigest) -> Batch {
        self.batches@[choose|i: int|
            0 <= i < self.batches@.len() && self.batches@[i].digest == d]
    }

    /// In a well-formed store, the batch at any index holding digest `d` is
    /// `batch_for(d)`.
    pub proof fn lemma_batch_for(self, d: BatchDigest, i: int)
        requires
            self.wf(),
            0 <= i < self.batches@.len(),
            self.batches@[i].digest == d,
        ensures
            self.batch_for(d) == self.batches@[i],
            self.batch_for(d).digest == d,
    {
        let w = choose|k: int| 0 <= k < self.batches@.len() && self.batches@[k].digest == d;
        assert(self.batches@[w].digest == d);
    }

    /// An empty store.
    pub fn new() -> (r: Self)
        ensures
            r.wf(),
            r.batches@.len() == 0,
            forall|d: BatchDigest| !r.has_digest(d),
    {
        BatchStore { batches: Vec::new() }
    }

    /// Index of the batch holding `d`, if any.
    fn index_of(&self, d: BatchDigest) -> (r: Option<usize>)
        ensures
            match r {
                Some(i) => i < self.batches@.len() && self.batches@[i as int].digest == d,
                None => !self.has_digest(d),
            },
    {
        let mut i: usize = 0;
        while i < self.batches.len()
            invariant
                0 <= i <= self.batches@.len(),
                forall|k: int| 0 <= k < i ==> (#[trigger] self.batches@[k]).digest != d,
            decreases self.batches@.len() - i,
        {
            if self.batches[i].digest == d {
                return Some(i);
            }
            i += 1;
        }
        None
    }

    /// Whether a batch with digest `d` is held.
    pub fn contains(&self, d: BatchDigest) -> (r: bool)
        ensures
            r == self.has_digest(d),
    {
        self.index_of(d).is_some()
    }

    /// The batch stored under `d`, by reference.
    pub fn get(&self, d: BatchDigest) -> (r: Option<&Batch>)
        requires
            self.wf(),
        ensures
            match r {
                Some(b) => self.has_digest(d) && *b == self.batch_for(d) && b.digest == d,
                None => !self.has_digest(d),
            },
    {
        match self.index_of(d) {
            Some(i) => {
                proof {
                    self.lemma_batch_for(d, i as int);
                }
                Some(&self.batches[i])
            },
            None => None,
        }
    }

    /// Inserts `b` unless a batch with the same digest is already held; the
    /// first stored batch for a digest wins, so a resolved result is never
    /// overwritten. Returns whether the batch was inserted.
    pub fn insert(&mut self, b: Batch) -> (r: bool)
        requires
            old(self).wf(),
        ensures
            final(self).wf(),
            r == !old(self).has_digest(b.digest),
            final(self).has_digest(b.digest),
            r ==> final(self).batches@ == old(self).batches@.push(b)
                && final(self).batch_for(b.digest) == b,
            !r ==> final(self).batches@ == old(self).batches@,
            forall|d: BatchDigest|
                #[trigger] final(self).has_digest(d) == (old(self).has_digest(d) || d
                    == b.digest),
            forall|d: BatchDigest|
                old(self).has_digest(d) ==> #[trigger] final(self).batch_for(d) == old(
                    self,
                ).batch_for(d),
    {
        let ghost pre = *self;
        if self.contains(b.digest) {
            proof {
                assert(forall|d: BatchDigest|
                    old(self).has_digest(d) ==> #[trigger] self.batch_for(d) == old(
                        self,
                    ).batch_for(d));
            }
            return false;
        }
        let ghost bd = b.digest;
        self.batches.push(b);
        proof {
            let post = *self;
            assert(post.batches@ == pre.batches@.push(b));
            assert(post.batches@[post.batches@.len() - 1] == b);
            assert(post.wf()) by {
                assert(forall|i: int, j: int|
                    0 <= i < j < post.batches@.len() ==> post.batches@[i].digest
                        != post.batches@[j].digest) by {
                    assert(forall|i: int|
                        0 <= i < pre.batches@.len() ==> (#[trigger] post.batches@[i])
                            == pre.batches@[i]);
                    assert(forall|i: int|
                        0 <= i < pre.batches@.len() ==> (#[trigger] pre.batches@[i]).digest
                            != bd);
                }
            }
            post.lemma_batch_for(bd, post.batches@.len() - 1);
            assert forall|d: BatchDigest| pre.has_digest(d) implies #[trigger] post.has_digest(
                d,
            ) by {
                let i = choose|i: int| 0 <= i < pre.batches@.len() && pre.batches@[i].digest == d;
                assert(post.batches@[i].digest == d);
            }
            assert(forall|d: BatchDigest|
                #[trigger] post.has_digest(d) ==> (pre.has_digest(d) || d == bd)) by {
                assert(forall|i: int|
                    0 <= i < pre.batches@.len() ==> (#[trigger] post.batches@[i])
                        == pre.batches@[i]);
            }
            assert(forall|d: BatchDigest|
                pre.has_digest(d) ==> #[trigger] post.batch_for(d) == pre.batch_for(d)) by {
                assert forall|d: BatchDigest| pre.has_digest(d) implies #[trigger] post.batch_for(
                    d,
                ) == pre.batch_for(d) by {
                    let i = choose|i: int|
                        0 <= i < pre.batches@.len() && pre.batches@[i].digest == d;
                    pre.lemma_batch_for(d, i);
                    post.lemma_batch_for(d, i);
                }
            }
        }
        true
    }

    /// Number of batches held.
    pub fn len(&self) -> (r: usize)
        ensures
            r == self.batches@.len(),
    {
        self.batches.len()
    }
}

} // verus!
