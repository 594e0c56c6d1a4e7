//! Upload planning: greedy fixed-size chunking of a payload and the exact
//! request sequence of the two multipart upload protocols.
//!
//! The v1 protocol PATCHes each chunk by byte range and then commits the
//! total size; ranges may be sent in any order, the commit only after every
//! chunk succeeded, and the commit is the plan's one final step. The v2
//! protocol creates an append blob, appends the chunks strictly in order,
//! seals the blob, and only then finalizes the entry: the plan lists the
//! steps in exactly that order.

use vstd::prelude::*;

use crate::backend::{CacheId, Error, FileAllocation, SignedUrl};
use crate::bytesutil::ascii_of;
use crate::bytesutil::lit_bytes;
use crate::numeric::{dec_seq, i64_to_dec, int_dec_seq, u64_to_dec};

verus! {

/// How many chunks a payload of `len` bytes fills at `cs` bytes a chunk.
pub open spec fn num_chunks(len: nat, cs: nat) -> nat
    recommends
        cs > 0,
{
    ((len + cs - 1) / (cs as int)) as nat
}

/// Where chunk `i` ends.
pub open spec fn chunk_end(len: nat, cs: nat, i: int) -> int {
    if (i + 1) * cs <= len {
        (i + 1) * cs
    } else {
        len as int
    }
}

/// The bytes of chunk `i`.
pub open spec fn chunk_at(data: Seq<u8>, cs: nat, i: int) -> Seq<u8> {
    data.subrange(i * cs, chunk_end(data.len(), cs, i))
}

/// Splits a payload greedily into chunks of `chunk_size` bytes; only the
/// last chunk may be short, and no chunk is empty.
pub fn split_into_chunks(data: &Vec<u8>, chunk_size: usize) -> (chunks: Vec<Vec<u8>>)
    requires
        chunk_size > 0,
    ensures
        chunks@.len() == num_chunks(data@.len(), chunk_size as nat),
        forall|i: int|
            0 <= i < chunks@.len() ==> #[trigger] chunks@[i]@ == chunk_at(
                data@,
                chunk_size as nat,
                i,
            ),
{
    let len: usize = data.len();
    let mut chunks: Vec<Vec<u8>> = Vec::new();
    let mut offset: usize = 0;
    proof {
        assert(num_chunks(0, chunk_size as nat) == 0) by (nonlinear_arith)
            requires
                chunk_size > 0,
        ;
        assert(chunks@.len() == 0);
        assert(0int * (chunk_size as int) == 0);
    }
    while offset < len
        invariant
            chunk_size > 0,
            len == data@.len(),
            0 <= offset <= len,
            offset < len ==> offset == chunks@.len() * (chunk_size as int),
            offset == len ==> chunks@.len() == num_chunks(len as nat, chunk_size as nat),
            forall|i: int|
                0 <= i < chunks@.len() ==> #[trigger] chunks@[i]@ == chunk_at(
                    data@,
                    chunk_size as nat,
                    i,
                ),
        decreases len - offset,
    {
        let end: usize = if len - offset > chunk_size {
            offset + chunk_size
        } else {
            len
        };
        let chunk = vstd::slice::slice_to_vec(
            vstd::slice::slice_subrange(data.as_slice(), offset, end),
        );
        let ghost k = chunks@.len() as int;
        chunks.push(chunk);
        proof {
            let cs = chunk_size as nat;
            assert(k * cs == offset);
            assert((k + 1) * cs == offset + chunk_size) by (nonlinear_arith)
                requires
                    k * cs == offset,
                    cs == chunk_size,
            ;
            assert(chunk_end(len as nat, cs, k) == end);
            assert(chunks@[k]@ == chunk_at(data@, cs, k));
            if end == len {
                assert(chunks@.len() == ((len + cs - 1) / (cs as int)) as nat) by (nonlinear_arith)
                    requires
                        cs > 0,
                        k * cs == offset,
                        offset < len <= offset + cs,
                        chunks@.len() == k + 1,
                        k >= 0,
                ;
            }
        }
        offset = end;
    }
    chunks
}

/// The sum of the lengths of the first `k` chunks.
pub open spec fn chunks_len_prefix(data: Seq<u8>, cs: nat, k: int) -> int
    decreases k,
{
    if k <= 0 {
        0
    } else {
        chunks_len_prefix(data, cs, k - 1) + chunk_at(data, cs, k - 1).len()
    }
}

/// Together, the chunks cover the payload: their sizes sum to its length.
pub proof fn lemma_chunk_sizes_sum(data: Seq<u8>, cs: nat)
    requires
        cs > 0,
    ensures
        chunks_len_prefix(data, cs, num_chunks(data.len(), cs) as int) == data.len(),
{
    lemma_chunks_prefix_value(data, cs, num_chunks(data.len(), cs) as int);
    let nc = num_chunks(data.len(), cs) as int;
    assert((nc * cs >= data.len() && (nc - 1) * cs < data.len()) || (data.len() == 0 && nc == 0))
        by (nonlinear_arith)
        requires
            cs > 0,
            nc == (data.len() + cs - 1) / (cs as int),
    ;
    if data.len() == 0 && nc == 0 {
    } else if nc * cs == data.len() {
    } else {
        assert((nc - 1) * cs <= data.len() < nc * cs);
    }
}

/// The first `k` chunks cover exactly the first `min(k * cs, len)` bytes.
proof fn lemma_chunks_prefix_value(data: Seq<u8>, cs: nat, k: int)
    requires
        cs > 0,
        k >= 0,
    ensures
        k * cs <= data.len() ==> chunks_len_prefix(data, cs, k) == k * cs,
        (k - 1) * cs <= data.len() < k * cs ==> chunks_len_prefix(data, cs, k) == data.len(),
    decreases k,
{
    if k == 0 {
        assert(k * cs == 0) by (nonlinear_arith)
            requires
                k == 0,
        ;
    } else {
        lemma_chunks_prefix_value(data, cs, k - 1);
        assert((k - 1) * cs == k * cs - cs && (k - 1) * cs >= 0) by (nonlinear_arith)
            requires
                k >= 1,
                cs >= 0,
        ;
        let prev = (k - 1) * cs;
        if k * cs <= data.len() {
            assert(prev <= data.len());
            assert(chunks_len_prefix(data, cs, k - 1) == prev);
            assert(chunk_end(data.len(), cs, k - 1) == k * cs);
            assert(chunk_at(data, cs, k - 1).len() == k * cs - prev);
            assert(chunks_len_prefix(data, cs, k) == prev + (k * cs - prev));
        } else if prev <= data.len() {
            assert(chunks_len_prefix(data, cs, k - 1) == prev);
            assert(chunk_end(data.len(), cs, k - 1) == data.len());
            assert(chunk_at(data, cs, k - 1).len() == data.len() - prev);
        }
    }
}

/// One step of the v1 range-append protocol against `caches/{id}`.
pub enum V1Step {
    /// PATCH of one chunk at its byte offset.
    Patch { resource: Vec<u8>, offset: u64, data: Vec<u8> },
    /// The final POST committing the total size.
    Commit { resource: Vec<u8>, size: u64 },
}

/// One step of the v2 append-blob protocol against a signed URL.
pub enum V2Step {
    /// PUT creating the empty append blob.
    CreateBlob { url: Vec<u8> },
    /// PUT appending one chunk; appends are strictly ordered.
    AppendBlock { url: Vec<u8>, data: Vec<u8> },
    /// PUT sealing the blob.
    Seal { url: Vec<u8> },
    /// The typed finalization of the entry, after the seal.
    Finalize { key: Vec<u8>, size: u64 },
}

/// The request sequence of one upload, under either protocol.
pub enum UploadSteps {
    V1(Vec<V1Step>),
    V2(Vec<V2Step>),
}

/// The resource path of a v1 cache entry: `caches/{id}`; the ID is a
/// signed 64-bit value and is rendered with its sign.
pub open spec fn spec_cache_resource(id: int) -> Seq<u8> {
    ascii_of("caches/") + int_dec_seq(id)
}

/// Renders the v1 resource path for a cache ID.
pub fn cache_resource(id: &CacheId) -> (r: Vec<u8>)
    ensures
        r@ == spec_cache_resource(id.0 as int),
{
    proof {
        reveal_strlit("caches/");
    }
    let mut r = lit_bytes("caches/");
    let mut digits = i64_to_dec(id.0);
    r.append(&mut digits);
    r
}

/// A complete v1 plan for a payload: every chunk as a range PATCH at its
/// byte offset, then exactly one commit, last, reporting the payload's
/// length.
pub open spec fn is_v1_plan(steps: Seq<V1Step>, id: int, data: Seq<u8>, cs: nat) -> bool {
    let nc = num_chunks(data.len(), cs) as int;
    &&& steps.len() == nc + 1
    &&& forall|i: int|
        0 <= i < nc ==> ((#[trigger] steps[i]) matches V1Step::Patch { resource, offset, data: d }
            && resource@ == spec_cache_resource(id) && offset == i * cs && d@ == chunk_at(
            data,
            cs,
            i,
        ))
    &&& (steps[nc] matches V1Step::Commit { resource, size } && resource@ == spec_cache_resource(
        id,
    ) && size == data.len())
}

/// A complete v2 plan for a payload: the blob created first, every chunk
/// appended strictly in payload order, the seal after the last append,
/// and the finalization, with the payload's length, after the seal.
pub open spec fn is_v2_plan(steps: Seq<V2Step>, signed_url: Seq<u8>, key: Seq<u8>, data: Seq<u8>, cs: nat) -> bool {
    let nc = num_chunks(data.len(), cs) as int;
    &&& steps.len() == nc + 3
    &&& (steps[0] matches V2Step::CreateBlob { url } && url@ == signed_url)
    &&& forall|i: int|
        0 <= i < nc ==> ((#[trigger] steps[1 + i]) matches V2Step::AppendBlock { url, data: d }
            && url@ == signed_url && d@ == chunk_at(data, cs, i))
    &&& (steps[nc + 1] matches V2Step::Seal { url } && url@ == signed_url)
    &&& (steps[nc + 2] matches V2Step::Finalize { key: k, size } && k@ == key && size
        == data.len())
}

/// The v1 plan: every chunk as a range PATCH, then exactly one commit,
/// last, whose size is the whole payload.
pub fn upload_steps_v1(tripped: bool, id: &CacheId, data: &Vec<u8>, chunk_size: usize) -> (r:
    Result<Vec<V1Step>, Error>)
    requires
        chunk_size > 0,
    ensures
        tripped <==> (r matches Err(e) && e is CircuitBreakerTripped),
        !tripped ==> (r matches Ok(steps) && is_v1_plan(
            steps@,
            id.0 as int,
            data@,
            chunk_size as nat,
        )),
{
    if tripped {
        return Err(Error::CircuitBreakerTripped);
    }
    let len: usize = data.len();
    let mut chunks = split_into_chunks(data, chunk_size);
    let ghost nc = chunks@.len() as int;
    let mut steps: Vec<V1Step> = Vec::new();
    let n: usize = chunks.len();
    let mut i: usize = 0;
    proof {
        lemma_chunks_offsets(data@, chunk_size as nat);
    }
    while i < n
        invariant
            chunk_size > 0,
            len == data@.len(),
            n == nc,
            nc == num_chunks(data@.len(), chunk_size as nat),
            chunks@.len() == n - i,
            0 <= i <= n,
            forall|j: int|
                0 <= j < chunks@.len() ==> #[trigger] chunks@[j]@ == chunk_at(
                    data@,
                    chunk_size as nat,
                    i + j,
                ),
            forall|j: int| 0 <= j < nc ==> #[trigger] (j * (chunk_size as nat)) <= data@.len(),
            steps@.len() == i,
            forall|j: int|
                0 <= j < i ==> ((#[trigger] steps@[j]) matches V1Step::Patch {
                    resource,
                    offset: o,
                    data: d,
                } && resource@ == spec_cache_resource(id.0 as int) && o == j * (chunk_size as nat)
                    && d@ == chunk_at(data@, chunk_size as nat, j)),
        decreases n - i,
    {
        proof {
            assert((i as int) * (chunk_size as nat) <= data@.len());
        }
        let off: usize = i * chunk_size;
        let chunk = chunks.remove(0);
        let resource = cache_resource(id);
        proof {
            assert(chunk@ == chunk_at(data@, chunk_size as nat, i as int));
        }
        steps.push(V1Step::Patch { resource, offset: off as u64, data: chunk });
        i = i + 1;
    }
    let resource = cache_resource(id);
    steps.push(V1Step::Commit { resource, size: len as u64 });
    Ok(steps)
}

/// The v2 plan: create the append blob, append every chunk strictly in
/// payload order, seal, and finalize with the whole payload's size — the
/// seal always precedes the finalization.
pub fn upload_steps_v2(tripped: bool, alloc: &SignedUrl, data: &Vec<u8>, chunk_size: usize) -> (r:
    Result<Vec<V2Step>, Error>)
    requires
        chunk_size > 0,
    ensures
        tripped <==> (r matches Err(e) && e is CircuitBreakerTripped),
        !tripped ==> (r matches Ok(steps) && is_v2_plan(
            steps@,
            alloc.signed_url@,
            alloc.key@,
            data@,
            chunk_size as nat,
        )),
{
    if tripped {
        return Err(Error::CircuitBreakerTripped);
    }
    let len: usize = data.len();
    let mut chunks = split_into_chunks(data, chunk_size);
    let ghost nc = chunks@.len() as int;
    let mut steps: Vec<V2Step> = Vec::new();
    steps.push(V2Step::CreateBlob { url: copy_bytes(&alloc.signed_url) });
    let n: usize = chunks.len();
    let mut i: usize = 0;
    while i < n
        invariant
            n == nc,
            chunks@.len() == n - i,
            0 <= i <= n,
            forall|j: int|
                0 <= j < chunks@.len() ==> #[trigger] chunks@[j]@ == chunk_at(
                    data@,
                    chunk_size as nat,
                    i + j,
                ),
            steps@.len() == i + 1,
            steps@[0] matches V2Step::CreateBlob { url } && url@ == alloc.signed_url@,
            forall|j: int|
                0 <= j < i ==> ((#[trigger] steps@[1 + j]) matches V2Step::AppendBlock {
                    url,
                    data: d,
                } && url@ == alloc.signed_url@ && d@ == chunk_at(data@, chunk_size as nat, j)),
        decreases n - i,
    {
        let chunk = chunks.remove(0);
        proof {
            assert(chunk@ == chunk_at(data@, chunk_size as nat, i as int));
        }
        steps.push(V2Step::AppendBlock { url: copy_bytes(&alloc.signed_url), data: chunk });
        i = i + 1;
    }
    steps.push(V2Step::Seal { url: copy_bytes(&alloc.signed_url) });
    steps.push(V2Step::Finalize { key: copy_bytes(&alloc.key), size: len as u64 });
    Ok(steps)
}

/// Copies a byte string.
pub fn copy_bytes(v: &Vec<u8>) -> (r: Vec<u8>)
    ensures
        r@ == v@,
{
    vstd::slice::slice_to_vec(v.as_slice())
}

/// The plan for one upload: the circuit breaker is consulted first, and a
/// tripped breaker means no request of any kind is issued.
pub fn upload_file(tripped: bool, allocation: &FileAllocation, data: &Vec<u8>, chunk_size: usize)
    -> (r: Result<UploadSteps, Error>)
    requires
        chunk_size > 0,
    ensures
        tripped <==> (r matches Err(e) && e is CircuitBreakerTripped),
        !tripped ==> (match allocation {
            FileAllocation::V1(id) => r matches Ok(s) && (s matches UploadSteps::V1(steps)
                && is_v1_plan(steps@, id.0 as int, data@, chunk_size as nat)),
            FileAllocation::V2(signed) => r matches Ok(s) && (s matches UploadSteps::V2(steps)
                && is_v2_plan(
                steps@,
                signed.signed_url@,
                signed.key@,
                data@,
                chunk_size as nat,
            )),
        }),
{
    if tripped {
        return Err(Error::CircuitBreakerTripped);
    }
    match allocation {
        FileAllocation::V1(id) => {
            match upload_steps_v1(false, id, data, chunk_size) {
                Ok(steps) => Ok(UploadSteps::V1(steps)),
                Err(e) => Err(e),
            }
        },
        FileAllocation::V2(signed) => {
            match upload_steps_v2(false, signed, data, chunk_size) {
                Ok(steps) => Ok(UploadSteps::V2(steps)),
                Err(e) => Err(e),
            }
        },
    }
}

/// The `Content-Range` header of a v1 chunk PATCH:
/// `bytes {first}-{last}/*`, the byte positions inclusive.
pub open spec fn spec_content_range(offset: nat, len: nat) -> Seq<u8>
    recommends
        len > 0,
{
    ascii_of("bytes ") + dec_seq(offset) + ascii_of("-") + dec_seq((offset + len - 1) as nat)
        + ascii_of("/*")
}

/// Renders the `Content-Range` header for a chunk of `len` bytes at
/// `offset`.
pub fn content_range_header(offset: u64, len: u64) -> (r: Vec<u8>)
    requires
        len > 0,
        offset + len <= u64::MAX,
    ensures
        r@ == spec_content_range(offset as nat, len as nat),
{
    proof {
        reveal_strlit("bytes ");
        reveal_strlit("-");
        reveal_strlit("/*");
    }
    let mut r = lit_bytes("bytes ");
    let mut lo = u64_to_dec(offset);
    r.append(&mut lo);
    let mut dash = lit_bytes("-");
    r.append(&mut dash);
    let mut hi = u64_to_dec(offset + len - 1);
    r.append(&mut hi);
    let mut star = lit_bytes("/*");
    r.append(&mut star);
    proof {
        assert(r@ =~= spec_content_range(offset as nat, len as nat));
    }
    r
}

/// The bytes the first `k` steps of a v1 plan write.
pub open spec fn v1_patches_len(steps: Seq<V1Step>, k: int) -> int
    decreases k,
{
    if k <= 0 {
        0
    } else {
        v1_patches_len(steps, k - 1) + (match steps[k - 1] {
            V1Step::Patch { data: d, .. } => d@.len() as int,
            V1Step::Commit { .. } => 0,
        })
    }
}

/// In every v1 plan, the sum of the chunk sizes written equals the
/// payload's length, which is exactly the size the one final commit
/// reports.
pub proof fn lemma_v1_plan_sizes(steps: Seq<V1Step>, id: int, data: Seq<u8>, cs: nat)
    requires
        cs > 0,
        is_v1_plan(steps, id, data, cs),
    ensures
        v1_patches_len(steps, steps.len() - 1) == data.len(),
        steps.last() matches V1Step::Commit { size, .. } && size == data.len(),
{
    let nc = num_chunks(data.len(), cs) as int;
    lemma_v1_patches_match_chunks(steps, id, data, cs, nc);
    lemma_chunk_sizes_sum(data, cs);
    assert(steps.last() == steps[nc]);
}

/// Patch by patch, a v1 plan writes exactly the chunks.
proof fn lemma_v1_patches_match_chunks(steps: Seq<V1Step>, id: int, data: Seq<u8>, cs: nat, k: int)
    requires
        cs > 0,
        is_v1_plan(steps, id, data, cs),
        0 <= k <= num_chunks(data.len(), cs),
    ensures
        v1_patches_len(steps, k) == chunks_len_prefix(data, cs, k),
    decreases k,
{
    if k > 0 {
        lemma_v1_patches_match_chunks(steps, id, data, cs, k - 1);
        assert(steps[k - 1] matches V1Step::Patch { data: d, .. } && d@ == chunk_at(
            data,
            cs,
            k - 1,
        ));
    }
}

/// The bytes the first `k` steps of a v2 plan append.
pub open spec fn v2_appends_len(steps: Seq<V2Step>, k: int) -> int
    decreases k,
{
    if k <= 0 {
        0
    } else {
        v2_appends_len(steps, k - 1) + (match steps[k - 1] {
            V2Step::AppendBlock { data: d, .. } => d@.len() as int,
            _ => 0,
        })
    }
}

/// In every v2 plan, the sum of the block sizes appended equals the
/// payload's length, which is exactly the size the finalization, after
/// the seal, reports.
pub proof fn lemma_v2_plan_sizes(steps: Seq<V2Step>, signed_url: Seq<u8>, key: Seq<u8>, data: Seq<u8>, cs: nat)
    requires
        cs > 0,
        is_v2_plan(steps, signed_url, key, data, cs),
    ensures
        v2_appends_len(steps, steps.len() as int) == data.len(),
        steps.last() matches V2Step::Finalize { size, .. } && size == data.len(),
        steps[steps.len() - 2] is Seal,
{
    let nc = num_chunks(data.len(), cs) as int;
    lemma_v2_appends_match_chunks(steps, signed_url, key, data, cs, nc);
    lemma_chunk_sizes_sum(data, cs);
    assert(steps.len() == nc + 3);
    assert(steps.last() == steps[nc + 2]);
    assert(steps[nc + 2] is Finalize);
    assert(steps[nc + 1] is Seal);
    assert(v2_appends_len(steps, nc + 3) == v2_appends_len(steps, nc + 2));
    assert(v2_appends_len(steps, nc + 2) == v2_appends_len(steps, nc + 1));
}

/// Block by block, a v2 plan appends exactly the chunks.
proof fn lemma_v2_appends_match_chunks(steps: Seq<V2Step>, signed_url: Seq<u8>, key: Seq<u8>, data: Seq<u8>, cs: nat, k: int)
    requires
        cs > 0,
        is_v2_plan(steps, signed_url, key, data, cs),
        0 <= k <= num_chunks(data.len(), cs),
    ensures
        v2_appends_len(steps, k + 1) == chunks_len_prefix(data, cs, k),
    decreases k,
{
    if k == 0 {
        assert(steps[0] is CreateBlob);
        assert(v2_appends_len(steps, 1) == v2_appends_len(steps, 0));
        assert(chunks_len_prefix(data, cs, 0) == 0);
    } else {
        lemma_v2_appends_match_chunks(steps, signed_url, key, data, cs, k - 1);
        assert(steps[1 + (k - 1)] matches V2Step::AppendBlock { data: d, .. } && d@ == chunk_at(
            data,
            cs,
            k - 1,
        ));
        assert(steps[k] == steps[1 + (k - 1)]);
        assert(v2_appends_len(steps, k + 1) == v2_appends_len(steps, k) + chunk_at(
            data,
            cs,
            k - 1,
        ).len());
        assert(chunks_len_prefix(data, cs, k) == chunks_len_prefix(data, cs, k - 1) + chunk_at(
            data,
            cs,
            k - 1,
        ).len());
    }
}

/// Every chunk starts inside the payload.
proof fn lemma_chunks_offsets(data: Seq<u8>, cs: nat)
    requires
        cs > 0,
    ensures
        forall|j: int| 0 <= j < num_chunks(data.len(), cs) ==> #[trigger] (j * cs) <= data.len(),
{
    assert forall|j: int|
        0 <= j < num_chunks(data.len(), cs) implies #[trigger] (j * cs) <= data.len() by {
        assert(j * cs <= data.len()) by (nonlinear_arith)
            requires
                cs > 0,
                0 <= j < (data.len() + cs - 1) / (cs as int),
        ;
    }
}


} // verus!
