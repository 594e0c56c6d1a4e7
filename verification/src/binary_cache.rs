//! The binary-cache HTTP surface's decisions: how each route reads its
//! path, consults the negative cache, and answers — redirect, miss, or
//! refusal — with the counters each answer bumps.

use vstd::prelude::*;

use crate::bytesutil::{ascii_of, lit_bytes};
use crate::error::Error;
use crate::negcache::NegativeCache;
use crate::telemetry::{spec_incr, TelemetryReport};

verus! {

/// The body of `GET /nix-cache-info`.
pub fn nix_cache_info_body() -> (r: Vec<u8>)
    ensures
        r@ == ascii_of("WantMassQuery: 1\nStoreDir: /nix/store\nPriority: 41\n"),
{
    proof {
        reveal_strlit("WantMassQuery: 1\nStoreDir: /nix/store\nPriority: 41\n");
    }
    lit_bytes("WantMassQuery: 1\nStoreDir: /nix/store\nPriority: 41\n")
}

/// The position of the first dot; the length if there is none.
pub open spec fn find_dot(s: Seq<u8>) -> int
    decreases s.len(),
{
    if s.len() == 0 {
        0
    } else if s[0] == 0x2eu8 {
        0
    } else {
        1 + find_dot(s.drop_first())
    }
}

/// A narinfo route name splits at its first dot into the store-path hash
/// and the literal `narinfo`.
pub open spec fn spec_narinfo_path_hash(path: Seq<u8>) -> Option<Seq<u8>> {
    let k = find_dot(path);
    if k < path.len() && path.skip(k + 1) == ascii_of("narinfo") {
        Some(path.take(k))
    } else {
        None
    }
}

/// The first dot is where the first dot stands.
proof fn lemma_find_dot_at(t: Seq<u8>, m: int)
    requires
        0 <= m <= t.len(),
        forall|i: int| 0 <= i < m ==> t[i] != 0x2eu8,
        m == t.len() || t[m] == 0x2eu8,
    ensures
        find_dot(t) == m,
    decreases m,
{
    if m == 0 {
    } else {
        assert(t[0] != 0x2eu8);
        lemma_find_dot_at(t.drop_first(), m - 1);
    }
}

/// Reads the store-path hash out of a `{hash}.narinfo` route name;
/// nothing when the name is not of that shape.
pub fn narinfo_path_hash(path: &[u8]) -> (r: Option<Vec<u8>>)
    ensures
        match r {
            Some(h) => spec_narinfo_path_hash(path@) == Some(h@),
            None => spec_narinfo_path_hash(path@) is None,
        },
{
    proof {
        reveal_strlit("narinfo");
    }
    let n: usize = path.len();
    let mut j: usize = 0;
    while j < n && path[j] != 0x2e
        invariant
            n == path@.len(),
            0 <= j <= n,
            forall|k: int| 0 <= k < j ==> path@[k] != 0x2eu8,
        decreases n - j,
    {
        j = j + 1;
    }
    proof {
        lemma_find_dot_at(path@, j as int);
    }
    if j == n {
        return None;
    }
    let suffix = vstd::slice::slice_subrange(path, j + 1, n);
    let expected = lit_bytes("narinfo");
    if crate::bytesutil::bytes_eq(suffix, expected.as_slice()) {
        proof {
            assert(path@.skip(j + 1) =~= suffix@);
        }
        Some(vstd::slice::slice_to_vec(vstd::slice::slice_subrange(path, 0, j)))
    } else {
        proof {
            assert(path@.skip(j + 1) =~= suffix@);
        }
        None
    }
}

/// Where a pull-through redirect points: `{upstream}/{path}`.
pub open spec fn spec_pull_through_target(upstream: Seq<u8>, path: Seq<u8>) -> Seq<u8> {
    upstream + seq![0x2fu8] + path
}

/// Redirects a missing resource upstream, or reports it absent when no
/// upstream is configured.
pub fn pull_through(upstream: &Option<Vec<u8>>, path: &[u8]) -> (r: Result<Vec<u8>, Error>)
    ensures
        match upstream {
            Some(u) => r matches Ok(t) && t@ == spec_pull_through_target(u@, path@),
            None => r matches Err(e) && e is NotFound,
        },
{
    match upstream {
        Some(u) => {
            let mut t = crate::upload::copy_bytes(u);
            t.push(0x2f);
            let mut p = vstd::slice::slice_to_vec(path);
            t.append(&mut p);
            proof {
                assert(t@ =~= spec_pull_through_target(u@, path@));
            }
            Ok(t)
        },
        None => Err(Error::NotFound),
    }
}

/// What the surface decides before any backend call on
/// `GET /{hash}.narinfo`.
pub enum NarInfoGetPlan {
    /// The name is not `{hash}.narinfo`: absent.
    Invalid,
    /// The hash is a recorded miss: answered without a backend call.
    Settled(Result<Vec<u8>, Error>),
    /// The backend must be asked for this key.
    Lookup { key: Vec<u8>, hash: Vec<u8> },
}

/// Decides `GET /{hash}.narinfo` up to the backend call: a malformed
/// name is absent; a hash in the negative cache goes upstream (or is
/// absent) at once, counted as a negative-cache hit; otherwise the
/// backend is asked for `{hash}.narinfo`.
pub fn get_narinfo_plan(
    neg: &NegativeCache,
    metrics: &mut TelemetryReport,
    upstream: &Option<Vec<u8>>,
    path: &[u8],
) -> (plan: NarInfoGetPlan)
    ensures
        spec_narinfo_path_hash(path@) is None ==> plan is Invalid && *final(metrics) == *old(
            metrics,
        ),
        spec_narinfo_path_hash(path@) matches Some(h) ==> neg@.contains(h) ==> (plan matches
            NarInfoGetPlan::Settled(r) && {
            &&& match upstream {
                Some(u) => r matches Ok(t) && t@ == spec_pull_through_target(u@, path@),
                None => r matches Err(e) && e is NotFound,
            }
            &&& *final(metrics) == (TelemetryReport {
                narinfos_sent_upstream: spec_incr(old(metrics).narinfos_sent_upstream),
                narinfos_negative_cache_hits: spec_incr(
                    old(metrics).narinfos_negative_cache_hits,
                ),
                ..*old(metrics)
            })
        }),
        spec_narinfo_path_hash(path@) matches Some(h) ==> !neg@.contains(h) ==> (plan matches
            NarInfoGetPlan::Lookup { key, hash } && key@ == crate::pipeline::spec_narinfo_key(h)
            && hash@ == h && *final(metrics) == *old(metrics)),
{
    let hash = match narinfo_path_hash(path) {
        Some(h) => h,
        None => {
            return NarInfoGetPlan::Invalid;
        },
    };
    if neg.contains(hash.as_slice()) {
        metrics.narinfos_sent_upstream.incr();
        metrics.narinfos_negative_cache_hits.incr();
        return NarInfoGetPlan::Settled(pull_through(upstream, path));
    }
    let key = crate::pipeline::narinfo_key(hash.as_slice());
    NarInfoGetPlan::Lookup { key, hash }
}

/// Decides `GET /{hash}.narinfo` after the backend answered: a hit
/// redirects to the returned URL; a miss records the hash in the
/// negative cache and goes upstream (or is absent), counted as a
/// negative-cache miss.
pub fn get_narinfo_after_lookup(
    neg: &mut NegativeCache,
    metrics: &mut TelemetryReport,
    upstream: &Option<Vec<u8>>,
    path: &[u8],
    hash: Vec<u8>,
    found: Option<Vec<u8>>,
) -> (r: Result<Vec<u8>, Error>)
    requires
        old(neg).wf(),
    ensures
        final(neg).wf(),
        match found {
            Some(url) => {
                &&& r matches Ok(t) && t@ == url@
                &&& final(neg)@ == old(neg)@
                &&& *final(metrics) == (TelemetryReport {
                    narinfos_served: spec_incr(old(metrics).narinfos_served),
                    ..*old(metrics)
                })
            },
            None => {
                &&& final(neg)@ == old(neg)@.insert(hash@)
                &&& match upstream {
                    Some(u) => r matches Ok(t) && t@ == spec_pull_through_target(u@, path@),
                    None => r matches Err(e) && e is NotFound,
                }
                &&& *final(metrics) == (TelemetryReport {
                    narinfos_sent_upstream: spec_incr(old(metrics).narinfos_sent_upstream),
                    narinfos_negative_cache_misses: spec_incr(
                        old(metrics).narinfos_negative_cache_misses,
                    ),
                    ..*old(metrics)
                })
            },
        },
{
    match found {
        Some(url) => {
            metrics.narinfos_served.incr();
            Ok(url)
        },
        None => {
            neg.insert(hash);
            metrics.narinfos_sent_upstream.incr();
            metrics.narinfos_negative_cache_misses.incr();
            pull_through(upstream, path)
        },
    }
}

/// Decides `PUT /{hash}.narinfo` up to the upload: a malformed name is
/// a bad request; without the backend cache the surface refuses; else
/// the body is uploaded under `{hash}.narinfo`.
pub fn put_narinfo_plan(path: &[u8], gha_enabled: bool) -> (r: Result<(Vec<u8>, Vec<u8>), Error>)
    ensures
        spec_narinfo_path_hash(path@) is None ==> (r matches Err(e) && e is BadRequest),
        spec_narinfo_path_hash(path@) matches Some(h) ==> !gha_enabled ==> (r matches Err(e)
            && e is GHADisabled),
        spec_narinfo_path_hash(path@) matches Some(h) ==> gha_enabled ==> (r matches Ok(kh)
            && kh.0@ == crate::pipeline::spec_narinfo_key(h) && kh.1@ == h),
{
    let hash = match narinfo_path_hash(path) {
        Some(h) => h,
        None => {
            return Err(Error::BadRequest);
        },
    };
    if !gha_enabled {
        return Err(Error::GHADisabled);
    }
    let key = crate::pipeline::narinfo_key(hash.as_slice());
    Ok((key, hash))
}

/// Completes a successful `PUT /{hash}.narinfo`: the upload counter is
/// bumped and the hash leaves the negative cache.
pub fn put_narinfo_complete(neg: &mut NegativeCache, metrics: &mut TelemetryReport, hash: &[u8])
    requires
        old(neg).wf(),
    ensures
        final(neg).wf(),
        final(neg)@ == old(neg)@.remove(hash@),
        !final(neg)@.contains(hash@),
        *final(metrics) == (TelemetryReport {
            narinfos_uploaded: spec_incr(old(metrics).narinfos_uploaded),
            ..*old(metrics)
        }),
{
    metrics.narinfos_uploaded.incr();
    neg.remove(hash);
}

/// However a hash came to be recorded as missing, a descriptor upload
/// for it clears that record: after a successful PUT of the descriptor
/// the negative cache no longer contains the hash.
pub proof fn lemma_put_clears_negative_cache(recorded: Set<Seq<u8>>, h: Seq<u8>)
    ensures
        !recorded.remove(h).contains(h),
{
}

/// Decides whether a `nar/{path}` route may proceed: the nar routes need
/// the backend cache, and without it the surface refuses; the backend
/// key is the route's path itself.
pub fn nar_route_plan(path: &[u8], gha_enabled: bool) -> (r: Result<Vec<u8>, Error>)
    ensures
        !gha_enabled ==> (r matches Err(e) && e is GHADisabled),
        gha_enabled ==> (r matches Ok(key) && key@ == path@),
{
    if !gha_enabled {
        return Err(Error::GHADisabled);
    }
    Ok(vstd::slice::slice_to_vec(path))
}

/// Decides `GET /nar/{path}` after the backend answered: a hit
/// redirects to the returned URL; a miss goes upstream under
/// `nar/{path}`, or is absent.
pub fn get_nar_after_lookup(
    metrics: &mut TelemetryReport,
    upstream: &Option<Vec<u8>>,
    path: &[u8],
    found: Option<Vec<u8>>,
) -> (r: Result<Vec<u8>, Error>)
    ensures
        match found {
            Some(url) => {
                &&& r matches Ok(t) && t@ == url@
                &&& *final(metrics) == (TelemetryReport {
                    nars_served: spec_incr(old(metrics).nars_served),
                    ..*old(metrics)
                })
            },
            None => {
                match upstream {
                    Some(u) => {
                        &&& r matches Ok(t) && t@ == spec_pull_through_target(
                            u@,
                            ascii_of("nar/") + path@,
                        )
                        &&& *final(metrics) == (TelemetryReport {
                            nars_sent_upstream: spec_incr(old(metrics).nars_sent_upstream),
                            ..*old(metrics)
                        })
                    },
                    None => r matches Err(e) && e is NotFound && *final(metrics) == *old(metrics),
                }
            },
        },
{
    match found {
        Some(url) => {
            metrics.nars_served.incr();
            Ok(url)
        },
        None => {
            match upstream {
                Some(_) => {
                    proof {
                        reveal_strlit("nar/");
                    }
                    let mut with_prefix = lit_bytes("nar/");
                    let mut p = vstd::slice::slice_to_vec(path);
                    with_prefix.append(&mut p);
                    metrics.nars_sent_upstream.incr();
                    let r = pull_through(upstream, with_prefix.as_slice());
                    proof {
                        match upstream {
                            Some(u) => {
                                assert(spec_pull_through_target(u@, with_prefix@)
                                    == spec_pull_through_target(u@, ascii_of("nar/") + path@));
                            },
                            None => {},
                        }
                    }
                    r
                },
                None => Err(Error::NotFound),
            }
        },
    }
}

/// Completes a successful `PUT /nar/{path}`.
pub fn put_nar_complete(metrics: &mut TelemetryReport)
    ensures
        *final(metrics) == (TelemetryReport {
            nars_uploaded: spec_incr(old(metrics).nars_uploaded),
            ..*old(metrics)
        }),
{
    metrics.nars_uploaded.incr();
}

} // verus!
