//! The workflow lifecycle: the snapshot taken at start, the diff taken at
//! finish, and the counts each endpoint reports.

use vstd::prelude::*;

use crate::bytesutil::bytes_eq;
use crate::telemetry::{Metric, TelemetryReport};

verus! {

/// The body of a `workflow-start` reply.
pub struct WorkflowStartResponse {
    pub num_original_paths: Option<usize>,
}

/// The body of a `workflow-finish` reply.
pub struct WorkflowFinishResponse {
    pub num_original_paths: Option<usize>,
    pub num_final_paths: Option<usize>,
    pub num_new_paths: Option<usize>,
}

/// The body of an `enqueue-paths` request.
pub struct EnqueuePathsRequest {
    pub store_paths: Vec<String>,
}

/// The body of an `enqueue-paths` reply.
pub struct EnqueuePathsResponse {}

/// Is `x` among the views of `paths`?
pub open spec fn in_paths(paths: Seq<Seq<u8>>, x: Seq<u8>) -> bool {
    exists|i: int| 0 <= i < paths.len() && paths[i] == x
}

/// Does the snapshot contain this path?
pub fn snapshot_contains(paths: &Vec<Vec<u8>>, x: &[u8]) -> (r: bool)
    ensures
        r == in_paths(paths@.map_values(|p: Vec<u8>| p@), x@),
{
    let ghost m = paths@.map_values(|p: Vec<u8>| p@);
    let n: usize = paths.len();
    let mut i: usize = 0;
    while i < n
        invariant
            n == paths@.len(),
            m == paths@.map_values(|p: Vec<u8>| p@),
            0 <= i <= n,
            forall|k: int| 0 <= k < i ==> m[k] != x@,
        decreases n - i,
    {
        if bytes_eq(paths[i].as_slice(), x) {
            proof {
                assert(m[i as int] == x@);
            }
            return true;
        }
        i = i + 1;
    }
    false
}

/// The paths present at finish but not at start, in the order the final
/// listing gives them.
pub fn new_paths(original: &Vec<Vec<u8>>, final_paths: &Vec<Vec<u8>>) -> (r: Vec<Vec<u8>>)
    ensures
        r@.map_values(|p: Vec<u8>| p@) == final_paths@.map_values(|p: Vec<u8>| p@).filter(
            |x: Seq<u8>| !in_paths(original@.map_values(|p: Vec<u8>| p@), x),
        ),
{
    let ghost om = original@.map_values(|p: Vec<u8>| p@);
    let ghost fm = final_paths@.map_values(|p: Vec<u8>| p@);
    let ghost pred = |x: Seq<u8>| !in_paths(om, x);
    let mut r: Vec<Vec<u8>> = Vec::new();
    let n: usize = final_paths.len();
    let mut i: usize = 0;
    proof {
        assert(fm.take(0) =~= Seq::<Seq<u8>>::empty());
        assert(r@.map_values(|p: Vec<u8>| p@) =~= fm.take(0).filter(pred));
    }
    while i < n
        invariant
            n == final_paths@.len(),
            om == original@.map_values(|p: Vec<u8>| p@),
            fm == final_paths@.map_values(|p: Vec<u8>| p@),
            pred == (|x: Seq<u8>| !in_paths(om, x)),
            0 <= i <= n,
            r@.map_values(|p: Vec<u8>| p@) == fm.take(i as int).filter(pred),
        decreases n - i,
    {
        let keep = !snapshot_contains(original, final_paths[i].as_slice());
        proof {
            assert(fm.take(i + 1) =~= fm.take(i as int).push(fm[i as int]));
            fm.take(i as int).lemma_filter_push(fm[i as int], pred);
        }
        if keep {
            r.push(crate::upload::copy_bytes(&final_paths[i]));
            proof {
                assert(r@.map_values(|p: Vec<u8>| p@) =~= fm.take(i as int).filter(pred).push(
                    fm[i as int],
                ));
            }
        }
        i = i + 1;
    }
    proof {
        assert(fm.take(n as int) =~= fm);
    }
    r
}

/// How many bytes of path names close an upload batch.
pub const UPLOAD_BATCH_BYTES: usize = 1048576;

/// How many paths the next batch takes off the end of `paths`, having
/// already accumulated `total` bytes of names: one more path, a name and
/// its separator, until the batch is full.
pub open spec fn batch_take(paths: Seq<Seq<u8>>, total: int) -> int
    decreases paths.len(),
{
    if paths.len() == 0 || total >= UPLOAD_BATCH_BYTES {
        0
    } else {
        1 + batch_take(paths.drop_last(), total + paths.last().len() + 1)
    }
}

/// A batch never takes a negative number of paths.
proof fn lemma_batch_take_nonneg(paths: Seq<Seq<u8>>, total: int)
    ensures
        batch_take(paths, total) >= 0,
    decreases paths.len(),
{
    if !(paths.len() == 0 || total >= UPLOAD_BATCH_BYTES) {
        lemma_batch_take_nonneg(paths.drop_last(), total + paths.last().len() + 1);
    }
}

/// The batches a list of paths is uploaded in: paths are taken from the
/// end of the list, each batch closed once it holds a megabyte of names.
pub open spec fn spec_upload_batches(paths: Seq<Seq<u8>>) -> Seq<Seq<Seq<u8>>>
    decreases paths.len(),
{
    if paths.len() == 0 {
        Seq::empty()
    } else {
        let k = batch_take(paths, 0);
        if 1 <= k <= paths.len() {
            seq![Seq::new(k as nat, |i: int| paths[paths.len() - 1 - i])] + spec_upload_batches(
                paths.take(paths.len() - k),
            )
        } else {
            seq![Seq::new(paths.len(), |i: int| paths[paths.len() - 1 - i])]
        }
    }
}

/// Splits the paths into upload batches, as the batch spec directs.
pub fn upload_batches(paths: Vec<Vec<u8>>) -> (r: Vec<Vec<Vec<u8>>>)
    ensures
        r@.map_values(|b: Vec<Vec<u8>>| b@.map_values(|p: Vec<u8>| p@)) == spec_upload_batches(
            paths@.map_values(|p: Vec<u8>| p@),
        ),
{
    let ghost all = paths@.map_values(|p: Vec<u8>| p@);
    let mut rest = paths;
    let mut out: Vec<Vec<Vec<u8>>> = Vec::new();
    proof {
        assert(out@.map_values(|b: Vec<Vec<u8>>| b@.map_values(|p: Vec<u8>| p@)) =~= Seq::<
            Seq<Seq<u8>>,
        >::empty());
    }
    while rest.len() > 0
        invariant
            rest@.map_values(|p: Vec<u8>| p@).len() == rest@.len(),
            spec_upload_batches(all) =~= out@.map_values(
                |b: Vec<Vec<u8>>| b@.map_values(|p: Vec<u8>| p@),
            ) + spec_upload_batches(rest@.map_values(|p: Vec<u8>| p@)),
        decreases rest@.len(),
    {
        let ghost rem = rest@.map_values(|p: Vec<u8>| p@);
        let ghost big = rest.len() as int;
        let mut batch: Vec<Vec<u8>> = Vec::new();
        let mut total: usize = 0;
        let ghost mut gtotal: int = 0;
        let mut t: usize = 0;
        proof {
            assert(rem.take(big) =~= rem);
        }
        while rest.len() > 0 && total < UPLOAD_BATCH_BYTES
            invariant
                rem.len() == big,
                1 <= big <= usize::MAX,
                0 <= t <= big,
                rest@.len() == big - t,
                forall|j: int| 0 <= j < rest@.len() ==> #[trigger] rest@[j]@ == rem[j],
                batch@.len() == t,
                forall|i: int| 0 <= i < t ==> #[trigger] batch@[i]@ == rem[big - 1 - i],
                (total >= UPLOAD_BATCH_BYTES) == (gtotal >= UPLOAD_BATCH_BYTES),
                total < UPLOAD_BATCH_BYTES ==> total == gtotal,
                batch_take(rem, 0) == t + batch_take(rem.take(big - t), gtotal),
            decreases rest@.len(),
        {
            let ghost pre = rest@.map_values(|p: Vec<u8>| p@);
            let p = match rest.pop() {
                Some(p) => p,
                None => {
                    return out;  // unreachable: the loop guard holds
                },
            };
            proof {
                assert(rem.take(big - t) =~= pre.take(pre.len() as int));
                assert(pre.take(pre.len() as int) =~= pre);
                assert(p@ == rem[big - 1 - t]);
                assert(batch_take(pre, gtotal) == 1 + batch_take(
                    pre.drop_last(),
                    gtotal + pre.last().len() + 1,
                ));
                assert(pre.drop_last() =~= rem.take(big - t - 1));
            }
            let plen = p.len();
            proof {
                gtotal = gtotal + (plen as int) + 1;
            }
            if plen >= UPLOAD_BATCH_BYTES {
                total = UPLOAD_BATCH_BYTES;
            } else {
                total = total + plen + 1;
            }
            batch.push(p);
            t = t + 1;
            proof {
                assert(forall|j: int|
                    0 <= j < rest@.len() ==> #[trigger] rest@[j]@ == pre[j]);
            }
        }
        proof {
            if rest.len() == 0 {
                assert(rem.take(big - t) =~= Seq::<Seq<u8>>::empty());
            }
            assert(batch_take(rem.take(big - t), gtotal) == 0);
            assert(batch_take(rem, 0) == t);
            if t == 0 {
                assert(rem.take(big - 0) =~= rem);
                assert(gtotal >= UPLOAD_BATCH_BYTES);
                lemma_batch_take_nonneg(rem.drop_last(), 0 + rem.last().len() as int + 1);
                assert(batch_take(rem, 0) >= 1);
            }
            assert(t >= 1);
            assert(batch@.map_values(|p: Vec<u8>| p@) =~= Seq::new(
                t as nat,
                |i: int| rem[big - 1 - i],
            ));
            assert(spec_upload_batches(rem) =~= seq![
                Seq::new(t as nat, |i: int| rem[big - 1 - i]),
            ] + spec_upload_batches(rem.take(big - t)));
        }
        let ghost pre_out = out@.map_values(|b: Vec<Vec<u8>>| b@.map_values(|p: Vec<u8>| p@));
        out.push(batch);
        proof {
            assert(out@.map_values(|b: Vec<Vec<u8>>| b@.map_values(|p: Vec<u8>| p@)) =~= pre_out
                + seq![Seq::new(t as nat, |i: int| rem[big - 1 - i])]);
            assert(rest@.map_values(|p: Vec<u8>| p@) =~= rem.take(big - t));
        }
    }
    proof {
        assert(rest@.map_values(|p: Vec<u8>| p@) =~= Seq::<Seq<u8>>::empty());
    }
    out
}

/// The position after the last dot; zero if there is none.
pub open spec fn after_last_dot(p: Seq<u8>) -> int
    decreases p.len(),
{
    if p.len() == 0 {
        0
    } else if p.last() == 0x2eu8 {
        p.len() as int
    } else {
        after_last_dot(p.drop_last())
    }
}

/// The extension of a store listing entry: what follows the last dot,
/// provided that dot is not the leading byte.
pub open spec fn spec_entry_extension(name: Seq<u8>) -> Option<Seq<u8>> {
    if after_last_dot(name) >= 2 {
        Some(name.skip(after_last_dot(name)))
    } else {
        None
    }
}

/// Whether a store listing entry belongs in the snapshot: derivations,
/// build chroots and the hard-link directory do not.
pub open spec fn spec_keep_store_entry(name: Seq<u8>) -> bool {
    &&& name != crate::bytesutil::ascii_of(".links")
    &&& match spec_entry_extension(name) {
        Some(e) => e != crate::bytesutil::ascii_of("drv") && e != crate::bytesutil::ascii_of(
            "chroot",
        ),
        None => true,
    }
}

proof fn lemma_after_last_dot_at(p: Seq<u8>, m: int)
    requires
        0 <= m <= p.len(),
        forall|k: int| m <= k < p.len() ==> p[k] != 0x2eu8,
        m > 0 ==> p[m - 1] == 0x2eu8,
    ensures
        after_last_dot(p) == m,
    decreases p.len(),
{
    if p.len() > 0 {
        if m == p.len() {
        } else {
            assert(p.last() != 0x2eu8);
            lemma_after_last_dot_at(p.drop_last(), m);
        }
    }
}

/// Decides whether a store listing entry belongs in the snapshot.
pub fn keep_store_entry(name: &[u8]) -> (r: bool)
    ensures
        r == spec_keep_store_entry(name@),
{
    proof {
        reveal_strlit(".links");
        reveal_strlit("drv");
        reveal_strlit("chroot");
    }
    let links = crate::bytesutil::lit_bytes(".links");
    if bytes_eq(name, links.as_slice()) {
        return false;
    }
    let drv = crate::bytesutil::lit_bytes("drv");
    let chroot = crate::bytesutil::lit_bytes("chroot");
    let n: usize = name.len();
    let mut i: usize = n;
    while i > 0
        invariant
            n == name@.len(),
            0 <= i <= n,
            drv@ == crate::bytesutil::ascii_of("drv"),
            chroot@ == crate::bytesutil::ascii_of("chroot"),
            name@ != crate::bytesutil::ascii_of(".links"),
            forall|k: int| i <= k < n ==> name@[k] != 0x2eu8,
        decreases i,
    {
        if name[i - 1] == 0x2e {
            proof {
                lemma_after_last_dot_at(name@, i as int);
            }
            if i < 2 {
                return true;
            }
            let ext = vstd::slice::slice_subrange(name, i, n);
            proof {
                assert(ext@ =~= name@.skip(i as int));
            }
            return !bytes_eq(ext, drv.as_slice()) && !bytes_eq(ext, chroot.as_slice());
        }
        i = i - 1;
    }
    proof {
        lemma_after_last_dot_at(name@, 0);
    }
    true
}

/// Builds the `workflow-start` reply: the snapshot's size when one was
/// taken, recorded in the counters too.
pub fn workflow_start_response(metrics: &mut TelemetryReport, snapshot: Option<usize>) -> (r:
    WorkflowStartResponse)
    ensures
        match snapshot {
            Some(n) => r.num_original_paths == Some(n) && *final(metrics) == (TelemetryReport {
                num_original_paths: Metric(n),
                ..*old(metrics)
            }),
            None => r.num_original_paths is None && *final(metrics) == *old(metrics),
        },
{
    match snapshot {
        Some(n) => {
            metrics.num_original_paths.set(n);
            WorkflowStartResponse { num_original_paths: Some(n) }
        },
        None => WorkflowStartResponse { num_original_paths: None },
    }
}

/// Builds the `workflow-finish` reply: the three counts when the store
/// was snapshotted, recorded in the counters too; all absent when it was
/// not.
pub fn workflow_finish_response(metrics: &mut TelemetryReport, counts: Option<(usize, usize, usize)>)
    -> (r: WorkflowFinishResponse)
    ensures
        match counts {
            Some(c) => {
                &&& r.num_original_paths == Some(c.0)
                &&& r.num_final_paths == Some(c.1)
                &&& r.num_new_paths == Some(c.2)
                &&& *final(metrics) == (TelemetryReport {
                    num_original_paths: Metric(c.0),
                    num_final_paths: Metric(c.1),
                    num_new_paths: Metric(c.2),
                    ..*old(metrics)
                })
            },
            None => {
                &&& r.num_original_paths is None
                &&& r.num_final_paths is None
                &&& r.num_new_paths is None
                &&& *final(metrics) == *old(metrics)
            },
        },
{
    match counts {
        Some((original, final_count, new_count)) => {
            metrics.num_original_paths.set(original);
            metrics.num_final_paths.set(final_count);
            metrics.num_new_paths.set(new_count);
            WorkflowFinishResponse {
                num_original_paths: Some(original),
                num_final_paths: Some(final_count),
                num_new_paths: Some(new_count),
            }
        },
        None => WorkflowFinishResponse {
            num_original_paths: None,
            num_final_paths: None,
            num_new_paths: None,
        },
    }
}

} // verus!
