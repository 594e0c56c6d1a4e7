//! The per-path upload pipeline: from a store path's metadata to the
//! backend keys, the descriptor, and the order of its two uploads — the
//! descriptor strictly after the NAR.

use vstd::prelude::*;

use crate::backend::{Error, FileAllocation};
use crate::bytesutil::{ascii_of, lit_bytes};
use crate::narinfo::NarInfo;

verus! {

/// The metadata of one valid store path, as the local object store
/// reports it.
pub struct ValidPathInfo {
    /// The full store path.
    pub store_path: Vec<u8>,
    /// The base-32 hash part of the store path: its primary fingerprint.
    pub store_path_hash: Vec<u8>,
    /// The base-32 content hash of the serialized (NAR) form.
    pub nar_hash_base32: Vec<u8>,
    /// The size of the serialized form.
    pub nar_size: u64,
    /// The full store paths referenced.
    pub references: Vec<Vec<u8>>,
    /// The content-address descriptor, if the path has one.
    pub ca: Option<Vec<u8>>,
}

/// The position after the last slash; zero if there is none.
pub open spec fn after_last_slash(p: Seq<u8>) -> int
    decreases p.len(),
{
    if p.len() == 0 {
        0
    } else if p.last() == 0x2fu8 {
        p.len() as int
    } else {
        after_last_slash(p.drop_last())
    }
}

/// The base name of a path: everything after its last slash.
pub open spec fn spec_basename(p: Seq<u8>) -> Seq<u8> {
    p.skip(after_last_slash(p))
}

/// Extracts the base name of a path.
pub fn basename(p: &[u8]) -> (r: Vec<u8>)
    ensures
        r@ == spec_basename(p@),
{
    let n: usize = p.len();
    let mut i: usize = n;
    while i > 0
        invariant
            n == p@.len(),
            0 <= i <= n,
            forall|k: int| i <= k < n ==> p@[k] != 0x2fu8,
        decreases i,
    {
        if p[i - 1] == 0x2f {
            proof {
                lemma_after_last_slash(p@, i as int);
            }
            return vstd::slice::slice_to_vec(vstd::slice::slice_subrange(p, i, n));
        }
        i = i - 1;
    }
    proof {
        lemma_after_last_slash(p@, 0);
        assert(p@.skip(0) =~= p@);
    }
    vstd::slice::slice_to_vec(p)
}

/// The last slash is where the last slash stands.
proof fn lemma_after_last_slash(p: Seq<u8>, m: int)
    requires
        0 <= m <= p.len(),
        forall|k: int| m <= k < p.len() ==> p[k] != 0x2fu8,
        m > 0 ==> p[m - 1] == 0x2fu8,
    ensures
        after_last_slash(p) == m,
    decreases p.len(),
{
    if p.len() > 0 {
        if m == p.len() {
        } else {
            assert(p.last() != 0x2fu8);
            lemma_after_last_slash(p.drop_last(), m);
        }
    }
}

/// The position of the first dash; the length if there is none.
pub open spec fn find_dash(s: Seq<u8>) -> int
    decreases s.len(),
{
    if s.len() == 0 {
        0
    } else if s[0] == 0x2du8 {
        0
    } else {
        1 + find_dash(s.drop_first())
    }
}

/// A store path's primary fingerprint: the base name up to its first
/// dash, or the whole base name when it has none.
pub open spec fn spec_store_path_hash(p: Seq<u8>) -> Seq<u8> {
    let base = spec_basename(p);
    base.take(find_dash(base))
}

/// The first dash is where the first dash stands.
proof fn lemma_find_dash_at(t: Seq<u8>, m: int)
    requires
        0 <= m <= t.len(),
        forall|i: int| 0 <= i < m ==> t[i] != 0x2du8,
        m == t.len() || t[m] == 0x2du8,
    ensures
        find_dash(t) == m,
    decreases m,
{
    if m == 0 {
    } else {
        assert(t[0] != 0x2du8);
        lemma_find_dash_at(t.drop_first(), m - 1);
    }
}

/// Extracts a store path's primary fingerprint.
pub fn store_path_hash(p: &[u8]) -> (r: Vec<u8>)
    ensures
        r@ == spec_store_path_hash(p@),
{
    let base = basename(p);
    let ghost t = base@;
    let n: usize = base.len();
    let mut j: usize = 0;
    while j < n && base[j] != 0x2d
        invariant
            n == base@.len(),
            0 <= j <= n,
            forall|k: int| 0 <= k < j ==> base@[k] != 0x2du8,
        decreases n - j,
    {
        j = j + 1;
    }
    proof {
        lemma_find_dash_at(t, j as int);
    }
    let r = vstd::slice::slice_to_vec(vstd::slice::slice_subrange(base.as_slice(), 0, j));
    proof {
        assert(r@ =~= t.take(j as int));
    }
    r
}

/// The backend key of a path's NAR: `{nar-hash-base32}.nar.zstd`.
pub open spec fn spec_nar_key(nar_hash_base32: Seq<u8>) -> Seq<u8> {
    nar_hash_base32 + ascii_of(".nar.zstd")
}

/// Renders the backend key of a path's NAR.
pub fn nar_key(nar_hash_base32: &[u8]) -> (r: Vec<u8>)
    ensures
        r@ == spec_nar_key(nar_hash_base32@),
{
    proof {
        reveal_strlit(".nar.zstd");
    }
    let mut r = vstd::slice::slice_to_vec(nar_hash_base32);
    let mut suffix = lit_bytes(".nar.zstd");
    r.append(&mut suffix);
    r
}

/// The backend key of a path's descriptor: `{store-hash}.narinfo`.
pub open spec fn spec_narinfo_key(store_path_hash: Seq<u8>) -> Seq<u8> {
    store_path_hash + ascii_of(".narinfo")
}

/// Renders the backend key of a path's descriptor.
pub fn narinfo_key(store_path_hash: &[u8]) -> (r: Vec<u8>)
    ensures
        r@ == spec_narinfo_key(store_path_hash@),
{
    proof {
        reveal_strlit(".narinfo");
    }
    let mut r = vstd::slice::slice_to_vec(store_path_hash);
    let mut suffix = lit_bytes(".narinfo");
    r.append(&mut suffix);
    r
}

/// The URL written into the descriptor: `nar/{nar-key}`.
pub open spec fn spec_nar_url(nar_hash_base32: Seq<u8>) -> Seq<u8> {
    ascii_of("nar/") + spec_nar_key(nar_hash_base32)
}

/// Renders the descriptor's NAR URL.
pub fn nar_url(nar_hash_base32: &[u8]) -> (r: Vec<u8>)
    ensures
        r@ == spec_nar_url(nar_hash_base32@),
{
    proof {
        reveal_strlit("nar/");
    }
    let mut r = lit_bytes("nar/");
    let mut key = nar_key(nar_hash_base32);
    r.append(&mut key);
    r
}

/// What the descriptor of a path, stored zstd-compressed under the given
/// URL, says: the uncompressed size and hash, the references by base
/// name.
pub open spec fn spec_path_nar_info(info: ValidPathInfo, url: Seq<u8>) -> crate::narinfo::NarInfoV {
    crate::narinfo::NarInfoV {
        store_path: info.store_path@,
        url: url,
        compression: ascii_of("zstd"),
        nar_hash: ascii_of("sha256:") + info.nar_hash_base32@,
        nar_size: info.nar_size,
        references: info.references@.map_values(|p: Vec<u8>| spec_basename(p@)),
        ca: match info.ca {
            Some(c) => Some(c@),
            None => None,
        },
    }
}

/// Builds the descriptor for a path whose NAR is stored under `url`.
/// The size written is the uncompressed NAR size, whatever the backend
/// stored after compression.
pub fn path_info_to_nar_info(info: &ValidPathInfo, url: Vec<u8>) -> (r: NarInfo)
    ensures
        r@ == spec_path_nar_info(*info, url@),
{
    proof {
        reveal_strlit("zstd");
        reveal_strlit("sha256:");
    }
    let compression = lit_bytes("zstd");
    let mut nar_hash = lit_bytes("sha256:");
    let mut h = vstd::slice::slice_to_vec(info.nar_hash_base32.as_slice());
    nar_hash.append(&mut h);
    let mut references: Vec<Vec<u8>> = Vec::new();
    let n: usize = info.references.len();
    let mut i: usize = 0;
    while i < n
        invariant
            n == info.references@.len(),
            0 <= i <= n,
            references@.len() == i,
            forall|j: int|
                0 <= j < i ==> #[trigger] references@[j]@ == spec_basename(
                    info.references@[j]@,
                ),
        decreases n - i,
    {
        references.push(basename(info.references[i].as_slice()));
        i = i + 1;
    }
    let ca: Option<Vec<u8>> = match &info.ca {
        Some(c) => Some(crate::upload::copy_bytes(c)),
        None => None,
    };
    let r = NarInfo {
        store_path: vstd::slice::slice_to_vec(info.store_path.as_slice()),
        url,
        compression,
        nar_hash,
        nar_size: info.nar_size,
        references,
        ca,
    };
    proof {
        assert(r@.references =~= spec_path_nar_info(*info, r.url@).references);
    }
    r
}

/// One observable effect of the per-path pipeline.
pub enum PipelineEvent {
    /// The NAR finished uploading, under this key.
    NarUploaded(Vec<u8>),
    /// The descriptor finished uploading, under this key.
    NarInfoUploaded(Vec<u8>),
    /// The path's hash left the negative cache.
    NegativeCacheCleared(Vec<u8>),
}

/// The per-path pipeline's effects, given what each of its four backend
/// steps came back with: the NAR reservation, the NAR upload, the
/// descriptor reservation, the descriptor upload. A failure ends the
/// pipeline there; the descriptor is uploaded only when the NAR upload
/// succeeded, strictly after it; and the negative cache entry is cleared
/// only after the descriptor is stored.
pub fn upload_path_events(
    info: &ValidPathInfo,
    nar_reserve: Result<FileAllocation, Error>,
    nar_upload: Result<u64, Error>,
    info_reserve: Result<FileAllocation, Error>,
    info_upload: Result<u64, Error>,
) -> (r: (Vec<PipelineEvent>, Result<(), Error>))
    ensures
        nar_reserve matches Err(e) ==> r.0@.len() == 0 && r.1 == Result::<(), Error>::Err(e),
        nar_upload matches Err(e) ==> (nar_reserve is Ok ==> r.0@.len() == 0 && r.1 == Result::<
            (),
            Error,
        >::Err(e)),
        nar_reserve is Ok && nar_upload is Ok ==> (r.0@[0] matches PipelineEvent::NarUploaded(k)
            && k@ == spec_nar_key(info.nar_hash_base32@)),
        info_reserve matches Err(e) ==> (nar_reserve is Ok && nar_upload is Ok ==> r.0@.len()
            == 1 && r.1 == Result::<(), Error>::Err(e)),
        info_upload matches Err(e) ==> (nar_reserve is Ok && nar_upload is Ok && info_reserve
            is Ok ==> r.0@.len() == 1 && r.1 == Result::<(), Error>::Err(e)),
        nar_reserve is Ok && nar_upload is Ok && info_reserve is Ok && info_upload is Ok ==> {
            &&& r.0@.len() == 3
            &&& (r.0@[1] matches PipelineEvent::NarInfoUploaded(k) && k@ == spec_narinfo_key(
                info.store_path_hash@,
            ))
            &&& (r.0@[2] matches PipelineEvent::NegativeCacheCleared(h) && h@
                == info.store_path_hash@)
            &&& r.1 == Result::<(), Error>::Ok(())
        },
        // the descriptor goes up only after its NAR did
        forall|i: int|
            0 <= i < r.0@.len() && (#[trigger] r.0@[i]) is NarInfoUploaded ==> exists|j: int|
                0 <= j < i && (#[trigger] r.0@[j]) is NarUploaded,
{
    let mut events: Vec<PipelineEvent> = Vec::new();
    if let Err(e) = nar_reserve {
        return (events, Err(e));
    }
    if let Err(e) = nar_upload {
        return (events, Err(e));
    }
    events.push(PipelineEvent::NarUploaded(nar_key(info.nar_hash_base32.as_slice())));
    if let Err(e) = info_reserve {
        return (events, Err(e));
    }
    if let Err(e) = info_upload {
        return (events, Err(e));
    }
    events.push(PipelineEvent::NarInfoUploaded(narinfo_key(info.store_path_hash.as_slice())));
    events.push(
        PipelineEvent::NegativeCacheCleared(
            vstd::slice::slice_to_vec(info.store_path_hash.as_slice()),
        ),
    );
    proof {
        assert forall|i: int|
            0 <= i < events@.len() && (#[trigger] events@[i]) is NarInfoUploaded implies exists|
            j: int,
        |
            0 <= j < i && (#[trigger] events@[j]) is NarUploaded by {
            assert(events@[0] is NarUploaded);
            assert(i == 1);
        }
    }
    (events, Ok(()))
}

} // verus!
