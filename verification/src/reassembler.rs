//! `SubDagReassembler`: from a committed sub-DAG to its ordered batches.
//!
//! `unique_digests` computes the deduplicated set of digests the sub-DAG
//! references — one fetch per digest, however many certificates share it —
//! and `reassemble` puts the resolved batches back into per-certificate,
//! per-sub-DAG order; `resolve` composes the two with the batch source,
//! fetching every unique digest and reassembling the results. A sub-DAG
//! resolves only when every referenced batch is available: a digest missing
//! from the resolved set aborts the sub-DAG with `FetchExhausted` instead of
//! silently omitting consensus-committed data.

use vstd::prelude::*;

use crate::batch_source::{fetch, first_success, resolution, same_batch, ReplyTable};
use crate::metrics::ExecutorMetrics;
use crate::errors::ExecutorError;
use crate::store::BatchStore;
use crate::types::{Batch, BatchDigest, SubDag};

verus! {

/// `group` is certificate `cert`'s digest list realised as batches drawn
/// from `resolved`, in the certificate's own order.
pub open spec fn group_matches(cert: crate::types::Certificate, resolved: BatchStore, group: Seq<
    Batch,
>) -> bool {
    &&& group.len() == cert.digests@.len()
    &&& forall|j: int|
        0 <= j < group.len() ==> resolved.has_digest(cert.digests@[j]) && same_batch(
            #[trigger] group[j],
            resolved.batch_for(cert.digests@[j]),
        ) && group[j].digest == cert.digests@[j]
}

/// Every digest the sub-DAG references has a resolved batch.
pub open spec fn fully_resolved(subdag: SubDag, resolved: BatchStore) -> bool {
    forall|d: BatchDigest| #[trigger] subdag.references(d) ==> resolved.has_digest(d)
}

/// The digest of every delivered batch, group by group.
pub open spec fn digests_of_groups(groups: Seq<Seq<Batch>>) -> Seq<Seq<BatchDigest>> {
    groups.map(|i: int, g: Seq<Batch>| g.map(|j: int, b: Batch| b.digest))
}

/// Whether `v` holds `d`.
fn vec_contains(v: &Vec<BatchDigest>, d: BatchDigest) -> (r: bool)
    ensures
        r == v@.contains(d),
{
    let mut i: usize = 0;
    while i < v.len()
        invariant
            0 <= i <= v@.len(),
            forall|k: int| 0 <= k < i ==> v@[k] != d,
        decreases v@.len() - i,
    {
        if v[i] == d {
            return true;
        }
        i += 1;
    }
    false
}

/// The deduplicated digests referenced by `subdag`'s certificates: exactly
/// the referenced set, each digest once, so one fetch is issued per digest
/// however many certificates reference it.
pub fn unique_digests(subdag: &SubDag) -> (r: Vec<BatchDigest>)
    ensures
        forall|i: int, j: int| 0 <= i < j < r@.len() ==> r@[i] != r@[j],
        forall|d: BatchDigest| #[trigger] r@.contains(d) == subdag.references(d),
{
    let mut out: Vec<BatchDigest> = Vec::new();
    let mut i: usize = 0;
    while i < subdag.certificates.len()
        invariant
            0 <= i <= subdag.certificates@.len(),
            forall|a: int, b: int| 0 <= a < b < out@.len() ==> out@[a] != out@[b],
            forall|d: BatchDigest| #[trigger] out@.contains(d) ==> subdag.references(d),
            forall|ci: int, cj: int|
                0 <= ci < i && 0 <= cj < subdag.certificates@[ci].digests@.len()
                    ==> out@.contains(#[trigger] subdag.certificates@[ci].digests@[cj]),
        decreases subdag.certificates@.len() - i,
    {
        let cert = &subdag.certificates[i];
        let mut j: usize = 0;
        while j < cert.digests.len()
            invariant
                0 <= j <= cert.digests@.len(),
                0 <= i < subdag.certificates@.len(),
                *cert == subdag.certificates@[i as int],
                forall|a: int, b: int| 0 <= a < b < out@.len() ==> out@[a] != out@[b],
                forall|d: BatchDigest| #[trigger] out@.contains(d) ==> subdag.references(d),
                forall|ci: int, cj: int|
                    0 <= ci < i && 0 <= cj < subdag.certificates@[ci].digests@.len()
                        ==> out@.contains(#[trigger] subdag.certificates@[ci].digests@[cj]),
                forall|cj: int|
                    0 <= cj < j ==> out@.contains(#[trigger] cert.digests@[cj]),
            decreases cert.digests@.len() - j,
        {
            let d = cert.digests[j];
            if !vec_contains(&out, d) {
                let ghost pre = out@;
                out.push(d);
                proof {
                    assert(out@ == pre.push(d));
                    assert(out@[out@.len() - 1] == d);
                    assert(subdag.references(d)) by {
                        assert(subdag.certificates@[i as int].digests@[j as int] == d);
                    }
                    assert(forall|x: BatchDigest|
                        pre.contains(x) ==> #[trigger] out@.contains(x)) by {
                        assert(forall|k: int| 0 <= k < pre.len() ==> out@[k] == pre[k]);
                    }
                    assert(forall|x: BatchDigest|
                        #[trigger] out@.contains(x) ==> pre.contains(x) || x == d) by {
                        assert(forall|k: int| 0 <= k < pre.len() ==> out@[k] == pre[k]);
                    }
                }
            }
            j += 1;
        }
        i += 1;
    }
    proof {
        assert forall|d: BatchDigest| subdag.references(d) implies #[trigger] out@.contains(
            d,
        ) by {
            let (ci, cj): (int, int) = choose|ci: int, cj: int|
                0 <= ci < subdag.certificates@.len() && 0 <= cj
                    < subdag.certificates@[ci].digests@.len() && subdag.certificates@[ci].digests@[cj]
                    == d;
            assert(out@.contains(subdag.certificates@[ci].digests@[cj]));
        }
    }
    out
}

/// Reassembles the resolved batches of `subdag` into its own
/// per-certificate order: group `i` holds certificate `i`'s batches, in the
/// certificate's digest order. Fails with `FetchExhausted` — naming a
/// missing digest — when any referenced batch is unresolved, and only then.
pub fn reassemble(subdag: &SubDag, resolved: &BatchStore) -> (r: Result<
    Vec<Vec<Batch>>,
    ExecutorError,
>)
    requires
        resolved.wf(),
    ensures
        (r is Ok) == fully_resolved(*subdag, *resolved),
        r matches Ok(groups) ==> groups@.len() == subdag.certificates@.len() && (forall|i: int|
            0 <= i < groups@.len() ==> group_matches(
                subdag.certificates@[i],
                *resolved,
                #[trigger] groups@[i]@,
            )),
        r matches Err(e) ==> (e matches ExecutorError::FetchExhausted { digest }
            && subdag.references(digest) && !resolved.has_digest(digest)),
{
    let mut groups: Vec<Vec<Batch>> = Vec::new();
    let mut i: usize = 0;
    while i < subdag.certificates.len()
        invariant
            resolved.wf(),
            0 <= i <= subdag.certificates@.len(),
            groups@.len() == i,
            forall|k: int|
                0 <= k < i ==> group_matches(
                    subdag.certificates@[k],
                    *resolved,
                    #[trigger] groups@[k]@,
                ),
        decreases subdag.certificates@.len() - i,
    {
        let cert = &subdag.certificates[i];
        let mut group: Vec<Batch> = Vec::new();
        let mut j: usize = 0;
        while j < cert.digests.len()
            invariant
                resolved.wf(),
                0 <= j <= cert.digests@.len(),
                0 <= i < subdag.certificates@.len(),
                *cert == subdag.certificates@[i as int],
                group@.len() == j,
                forall|k: int| 0 <= k < j ==> resolved.has_digest(#[trigger] cert.digests@[k]),
                forall|k: int|
                    0 <= k < j ==> same_batch(
                        #[trigger] group@[k],
                        resolved.batch_for(cert.digests@[k]),
                    ) && group@[k].digest == cert.digests@[k],
            decreases cert.digests@.len() - j,
        {
            let d = cert.digests[j];
            match resolved.get(d) {
                Some(b) => {
                    let dup = b.duplicate();
                    let ghost pre = group@;
                    group.push(dup);
                    proof {
                        assert(group@ == pre.push(dup));
                        assert forall|k: int|
                            0 <= k < j + 1 implies resolved.has_digest(
                            #[trigger] cert.digests@[k],
                        ) by {
                            if k == j {
                                assert(resolved.has_digest(cert.digests@[j as int]));
                            }
                        }
                        assert forall|k: int|
                            0 <= k < j + 1 implies same_batch(
                            #[trigger] group@[k],
                            resolved.batch_for(cert.digests@[k]),
                        ) && group@[k].digest == cert.digests@[k] by {
                            if k == j {
                                assert(group@[k] == dup);
                                assert(same_batch(dup, resolved.batch_for(
                                    cert.digests@[j as int],
                                )));
                            } else {
                                assert(group@[k] == pre[k]);
                                assert(same_batch(pre[k], resolved.batch_for(cert.digests@[k]))
                                    && pre[k].digest == cert.digests@[k]);
                            }
                        }
                    }
                },
                None => {
                    proof {
                        assert(subdag.references(d)) by {
                            assert(subdag.certificates@[i as int].digests@[j as int] == d);
                        }
                    }
                    return Err(ExecutorError::FetchExhausted { digest: d });
                },
            }
            j += 1;
        }
        let ghost preg = groups@;
        groups.push(group);
        proof {
            assert(groups@ == preg.push(group));
            assert(groups@[i as int] == group);
            assert(groups@[i as int]@ == group@);
            assert(group_matches(*cert, *resolved, group@));
            assert(*cert == subdag.certificates@[i as int]);
            assert(group_matches(subdag.certificates@[i as int], *resolved, group@));
            assert forall|k: int|
                0 <= k < i + 1 implies group_matches(
                    subdag.certificates@[k],
                    *resolved,
                    #[trigger] groups@[k]@,
                ) by {
                if k < i {
                    assert(groups@[k] == preg[k]);
                    assert(group_matches(subdag.certificates@[k], *resolved, preg[k]@));
                }
            }
        }
        i += 1;
    }
    proof {
        assert forall|d: BatchDigest| #[trigger] subdag.references(d) implies resolved.has_digest(
            d,
        ) by {
            let (ci, cj): (int, int) = choose|ci: int, cj: int|
                0 <= ci < subdag.certificates@.len() && 0 <= cj
                    < subdag.certificates@[ci].digests@.len() && subdag.certificates@[ci].digests@[cj]
                    == d;
            assert(group_matches(subdag.certificates@[ci], *resolved, groups@[ci]@));
            assert(groups@[ci]@[cj].digest == d);
            assert(resolved.has_digest(subdag.certificates@[ci].digests@[cj]));
        }
    }
    Ok(groups)
}

/// Order and content of a delivery: the batches delivered for a sub-DAG,
/// flattened in order, carry exactly the digests its certificates reference,
/// in the sub-DAG's own certificate order — no duplicate deliveries, no
/// omissions.
pub proof fn lemma_delivery_matches_subdag(
    subdag: SubDag,
    resolved: BatchStore,
    groups: Seq<Seq<Batch>>,
)
    requires
        groups.len() == subdag.certificates@.len(),
        forall|i: int|
            0 <= i < groups.len() ==> group_matches(
                subdag.certificates@[i],
                resolved,
                #[trigger] groups[i],
            ),
    ensures
        digests_of_groups(groups).flatten() == subdag.referenced_digests(),
{
    assert forall|i: int| 0 <= i < groups.len() implies #[trigger] digests_of_groups(groups)[i]
        == subdag.digest_groups()[i] by {
        let lhs = groups[i].map(|j: int, b: Batch| b.digest);
        let rhs = subdag.certificates@[i].digests@;
        assert(lhs =~= rhs);
    }
    assert(digests_of_groups(groups) =~= subdag.digest_groups());
}


/// `d` can be resolved at all: local storage has it, or one of the first
/// `limit` remote replies is good.
pub open spec fn resolvable(d: BatchDigest, local: BatchStore, table: ReplyTable, limit: int) -> bool {
    local.has_digest(d) || first_success(table.row_for(d), d, limit) is Some
}

/// `groups` realises `subdag` from the given local storage and reply table:
/// one group per certificate, each batch the certificate's referenced
/// digest, resolved locally or by its first good remote reply.
pub open spec fn resolved_groups_match(
    subdag: SubDag,
    local: BatchStore,
    table: ReplyTable,
    limit: int,
    groups: Seq<Vec<Batch>>,
) -> bool {
    &&& groups.len() == subdag.certificates@.len()
    &&& forall|i: int|
        0 <= i < groups.len() ==> (#[trigger] groups[i])@.len()
            == subdag.certificates@[i].digests@.len()
    &&& forall|i: int, j: int|
        0 <= i < groups.len() && 0 <= j < groups[i]@.len() ==> (#[trigger] groups[i]@[j]).digest
            == subdag.certificates@[i].digests@[j] && same_batch(
            groups[i]@[j],
            resolution(
                subdag.certificates@[i].digests@[j],
                local,
                table.row_for(subdag.certificates@[i].digests@[j]),
                limit,
            ),
        )
}

/// Resolves a whole committed sub-DAG: one `fetch` per unique referenced
/// digest — local first, then up to `max_attempts` remote attempts from the
/// digest's reply row — then reassembly into per-certificate order. The
/// first digest whose attempts are exhausted aborts the sub-DAG with
/// `FetchExhausted`; fetch-outcome counters move once per physical attempt
/// and nothing else in the metrics is touched.
pub fn resolve(
    subdag: &SubDag,
    local: &BatchStore,
    table: &ReplyTable,
    max_attempts: usize,
    metrics: &mut ExecutorMetrics,
) -> (r: Result<Vec<Vec<Batch>>, ExecutorError>)
    requires
        local.wf(),
        table.wf(),
        max_attempts >= 1,
        forall|d: BatchDigest|
            #[trigger] subdag.references(d) ==> table.has_row(d) && table.row_for(d).len()
                >= max_attempts,
    ensures
        (r is Ok) == (forall|d: BatchDigest|
            #[trigger] subdag.references(d) ==> resolvable(d, *local, *table, max_attempts as int)),
        r matches Ok(groups) ==> resolved_groups_match(
            *subdag,
            *local,
            *table,
            max_attempts as int,
            groups@,
        ),
        r matches Err(e) ==> (e matches ExecutorError::FetchExhausted { digest }
            && subdag.references(digest) && !resolvable(digest, *local, *table, max_attempts as int)),
        *final(metrics) == old(metrics).with_fetch_counters(final(metrics).subscriber_batch_fetch),
        final(metrics).subscriber_batch_fetch.local_hit
            >= old(metrics).subscriber_batch_fetch.local_hit,
        final(metrics).subscriber_batch_fetch.local_miss
            >= old(metrics).subscriber_batch_fetch.local_miss,
        final(metrics).subscriber_batch_fetch.remote_success
            >= old(metrics).subscriber_batch_fetch.remote_success,
        final(metrics).subscriber_batch_fetch.remote_failure
            >= old(metrics).subscriber_batch_fetch.remote_failure,
{
    let ghost limit = max_attempts as int;
    let ds = unique_digests(subdag);
    let mut resolved = BatchStore::new();
    let mut i: usize = 0;
    while i < ds.len()
        invariant
            local.wf(),
            table.wf(),
            max_attempts >= 1,
            limit == max_attempts as int,
            forall|d: BatchDigest|
                #[trigger] subdag.references(d) ==> table.has_row(d) && table.row_for(d).len()
                    >= max_attempts,
            forall|a: int, b: int| 0 <= a < b < ds@.len() ==> ds@[a] != ds@[b],
            forall|d: BatchDigest| #[trigger] ds@.contains(d) == subdag.references(d),
            0 <= i <= ds@.len(),
            resolved.wf(),
            forall|k: int| 0 <= k < i ==> resolved.has_digest(#[trigger] ds@[k]),
            forall|k: int|
                0 <= k < i ==> resolvable(#[trigger] ds@[k], *local, *table, limit),
            forall|k: int|
                0 <= k < i ==> same_batch(resolved.batch_for(#[trigger] ds@[k]), resolution(
                    ds@[k],
                    *local,
                    table.row_for(ds@[k]),
                    limit,
                )),
            forall|d2: BatchDigest|
                #[trigger] resolved.has_digest(d2) ==> ds@.take(i as int).contains(d2),
            *metrics == old(metrics).with_fetch_counters(metrics.subscriber_batch_fetch),
            metrics.subscriber_batch_fetch.local_hit
                >= old(metrics).subscriber_batch_fetch.local_hit,
            metrics.subscriber_batch_fetch.local_miss
                >= old(metrics).subscriber_batch_fetch.local_miss,
            metrics.subscriber_batch_fetch.remote_success
                >= old(metrics).subscriber_batch_fetch.remote_success,
            metrics.subscriber_batch_fetch.remote_failure
                >= old(metrics).subscriber_batch_fetch.remote_failure,
        decreases ds@.len() - i,
    {
        let d = ds[i];
        proof {
            assert(ds@[i as int] == d);
            assert(ds@.contains(d));
            assert(subdag.references(d));
        }
        let row = match table.row(d) {
            Some(row) => row,
            None => {
                proof {
                    assert(false);
                }
                return Err(ExecutorError::FetchExhausted { digest: d });
            },
        };
        match fetch(d, local, row, max_attempts, metrics) {
            Ok(b) => {
                proof {
                    assert(b.digest == d);
                    assert(!resolved.has_digest(d)) by {
                        if resolved.has_digest(d) {
                            let k = choose|k: int|
                                0 <= k < i && ds@.take(i as int)[k] == d;
                            assert(ds@[k] == d);
                        }
                    }
                    assert(same_batch(b, resolution(d, *local, table.row_for(d), limit)));
                }
                let ghost pre = resolved;
                let inserted = resolved.insert(b);
                proof {
                    assert(inserted);
                    assert(resolved.batch_for(d) == b);
                    assert(ds@.take(i as int + 1) =~= ds@.take(i as int).push(d));
                    assert forall|k: int| 0 <= k < i + 1 implies resolved.has_digest(
                        #[trigger] ds@[k],
                    ) by {
                        if k < i {
                            assert(pre.has_digest(ds@[k]));
                        }
                    }
                    assert forall|k: int| 0 <= k < i + 1 implies same_batch(
                        resolved.batch_for(#[trigger] ds@[k]),
                        resolution(ds@[k], *local, table.row_for(ds@[k]), limit),
                    ) by {
                        if k < i {
                            assert(pre.has_digest(ds@[k]));
                            assert(resolved.batch_for(ds@[k]) == pre.batch_for(ds@[k]));
                        }
                    }
                    assert forall|d2: BatchDigest| #[trigger] resolved.has_digest(
                        d2,
                    ) implies ds@.take(i as int + 1).contains(d2) by {
                        if d2 == d {
                            assert(ds@.take(i as int + 1)[i as int] == d);
                        } else {
                            assert(pre.has_digest(d2));
                            let k = choose|k: int|
                                0 <= k < i && ds@.take(i as int)[k] == d2;
                            assert(ds@.take(i as int + 1)[k] == d2);
                        }
                    }
                }
            },
            Err(_) => {
                proof {
                    assert(!local.has_digest(d) && first_success(row@, d, limit) is None);
                    assert(!resolvable(d, *local, *table, limit));
                }
                return Err(ExecutorError::FetchExhausted { digest: d });
            },
        }
        i += 1;
    }
    proof {
        assert forall|d: BatchDigest| #[trigger] subdag.references(d) implies resolved.has_digest(
            d,
        ) && resolvable(d, *local, *table, limit) by {
            assert(ds@.contains(d));
            let k = choose|k: int| 0 <= k < ds@.len() && ds@[k] == d;
            assert(resolved.has_digest(ds@[k]));
            assert(resolvable(ds@[k], *local, *table, limit));
        }
        assert(fully_resolved(*subdag, resolved));
    }
    let groups = match reassemble(subdag, &resolved) {
        Ok(groups) => groups,
        Err(e) => {
            proof {
                assert(false);
            }
            return Err(e);
        },
    };
    proof {
        assert forall|gi: int, gj: int|
            0 <= gi < groups@.len() && 0 <= gj < groups@[gi]@.len() implies (
        #[trigger] groups@[gi]@[gj]).digest == subdag.certificates@[gi].digests@[gj] && same_batch(
            groups@[gi]@[gj],
            resolution(
                subdag.certificates@[gi].digests@[gj],
                *local,
                table.row_for(subdag.certificates@[gi].digests@[gj]),
                limit,
            ),
        ) by {
            let dij = subdag.certificates@[gi].digests@[gj];
            assert(group_matches(subdag.certificates@[gi], resolved, groups@[gi]@));
            assert(same_batch(groups@[gi]@[gj], resolved.batch_for(dij)));
            assert(subdag.references(dij)) by {
                assert(subdag.certificates@[gi].digests@[gj] == dij);
            }
            assert(ds@.contains(dij));
            let k = choose|k: int| 0 <= k < ds@.len() && ds@[k] == dij;
            assert(same_batch(resolved.batch_for(ds@[k]), resolution(
                ds@[k],
                *local,
                table.row_for(ds@[k]),
                limit,
            )));
        }
    }
    Ok(groups)
}

} // verus!
