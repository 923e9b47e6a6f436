//! Core data model: batches, certificates and committed sub-DAGs.

use vstd::prelude::*;

verus! {

/// Content-derived identifier of a batch of transactions. It is the fetch key
/// and the deduplication key of the whole pipeline.
pub type BatchDigest = u64;

/// A batch of transactions: the payload identified by a `BatchDigest`.
///
/// The pipeline never looks inside the payload; it only moves batches from a
/// source (local storage or a remote peer) to the notifier.
#[derive(Clone, Debug, PartialEq, Eq)]
pub struct Batch {
    pub digest: BatchDigest,
    pub payload: Vec<u8>,
}

impl Batch {
    /// An owned copy, byte for byte.
    pub fn duplicate(&self) -> (r: Batch)
        ensures
            r.digest == self.digest,
            r.payload@ == self.payload@,
    {
        let payload = self.payload.clone();
        proof {
            assert(payload@ =~= self.payload@);
        }
        Batch { digest: self.digest, payload }
    }
}

/// A consensus-validated reference to a set of batches, tied to a round
/// number. Certificates are produced by the consensus layer and immutable
/// here.
#[derive(Clone, Debug, PartialEq, Eq)]
pub struct Certificate {
    pub round: u64,
    pub digests: Vec<BatchDigest>,
}

/// An ordered sequence of certificates committed together at one consensus
/// decision, identified by the round of that decision. Consumed exactly once
/// by the subscriber.
#[derive(Clone, Debug, PartialEq, Eq)]
pub struct SubDag {
    /// Round of the consensus decision that committed this sub-DAG.
    pub round: u64,
    /// The committed certificates, in their consensus order.
    pub certificates: Vec<Certificate>,
}

impl SubDag {
    /// The digest lists of the certificates, in certificate order.
    pub open spec fn digest_groups(self) -> Seq<Seq<BatchDigest>> {
        self.certificates@.map(|i: int, c: Certificate| c.digests@)
    }

    /// All digests the sub-DAG references, flattened in certificate order
    /// (digests referenced by several certificates appear once per
    /// reference).
    pub open spec fn referenced_digests(self) -> Seq<BatchDigest> {
        self.digest_groups().flatten()
    }

    /// Whether `d` is referenced by some certificate of the sub-DAG.
    pub open spec fn references(self, d: BatchDigest) -> bool {
        exists|i: int, j: int|
            0 <= i < self.certificates@.len() && 0 <= j < self.certificates@[i].digests@.len()
                && self.certificates@[i].digests@[j] == d
    }

    /// A committed sub-DAG is well formed when no certificate claims a round
    /// later than the commit round. A violation is a consensus invariant
    /// break (`MalformedCertificate`), surfaced rather than skipped.
    pub open spec fn well_formed(self) -> bool {
        forall|i: int|
            0 <= i < self.certificates@.len() ==> (#[trigger] self.certificates@[i]).round
                <= self.round
    }

    /// Total number of batch references across all certificates.
    pub open spec fn reference_count(self) -> nat {
        self.referenced_digests().len()
    }

    /// Counts the batch references across all certificates (the
    /// batches-per-sub-DAG histogram sample).
    pub fn count_references(&self) -> (r: u64)
        requires
            self.reference_count() <= u64::MAX,
        ensures
            r as nat == self.reference_count(),
    {
        let ghost g = self.digest_groups();
        let mut total: u64 = 0;
        let mut i: usize = 0;
        while i < self.certificates.len()
            invariant
                0 <= i <= self.certificates@.len(),
                g == self.digest_groups(),
                self.reference_count() <= u64::MAX,
                total as nat == g.take(i as int).flatten().len(),
            decreases self.certificates@.len() - i,
        {
            proof {
                let pre = g.take(i as int);
                let nxt = g.take(i as int + 1);
                assert(nxt =~= pre.push(g[i as int]));
                pre.lemma_flatten_push(g[i as int]);
                assert(nxt.flatten().len() == pre.flatten().len() + g[i as int].len());
                assert(g =~= nxt + g.skip(i as int + 1));
                vstd::seq_lib::lemma_flatten_concat(nxt, g.skip(i as int + 1));
                assert(g.flatten().len() == nxt.flatten().len() + g.skip(
                    i as int + 1,
                ).flatten().len());
                assert(nxt.flatten().len() <= self.reference_count());
                assert(g[i as int] == self.certificates@[i as int].digests@);
            }
            total = total + self.certificates[i].digests.len() as u64;
            i += 1;
        }
        proof {
            assert(g.take(self.certificates@.len() as int) =~= g);
        }
        total
    }

    /// Checks `well_formed` executably.
    pub fn check_well_formed(&self) -> (r: bool)
        ensures
            r == self.well_formed(),
    {
        let mut i: usize = 0;
        while i < self.certificates.len()
            invariant
                0 <= i <= self.certificates@.len(),
                forall|k: int|
                    0 <= k < i ==> (#[trigger] self.certificates@[k]).round <= self.round,
            decreases self.certificates@.len() - i,
        {
            if self.certificates[i].round > self.round {
                return false;
            }
            i += 1;
        }
        true
    }
}

} // verus!
