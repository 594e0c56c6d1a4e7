//! The backend client's own state — version namespace, circuit breaker —
//! and the calls it plans: reservations, lookups, and the retry discipline
//! that reserves under a fresh random suffix while keys collide.

use vstd::prelude::*;

use crate::backend::{Error, FileAllocation, is_collision_error, is_retryable_collision};
use crate::bytesutil::ascii_of;
use crate::bytesutil::lit_bytes;
use crate::circuit_breaker::CircuitBreaker;
use crate::version::{CacheVersion, hex_of, sha256_of};

verus! {

/// How often a reservation is attempted before giving up on collisions.
pub const MAX_RESERVE_ATTEMPTS: usize = 5;

/// The backend client's verified state. The HTTP and RPC transports live
/// outside; they consult this state before every call and hand every
/// response status back to it.
pub struct Api {
    /// The version namespace scoping all lookups and uploads.
    pub version: CacheVersion,
    /// The throttling latch.
    pub cb: CircuitBreaker,
    /// Whether the v2 typed cache service is in use.
    pub service_v2: bool,
    /// The base URL of the v1 cache endpoint.
    pub cache_url: Vec<u8>,
}

/// The URL of a v1 REST resource: the base URL, a slash if it lacks one,
/// then `_apis/artifactcache/` and the resource.
pub open spec fn spec_construct_url(base: Seq<u8>, resource: Seq<u8>) -> Seq<u8> {
    (if base.len() > 0 && base.last() == 0x2fu8 {
        base
    } else {
        base.push(0x2fu8)
    }) + ascii_of("_apis/artifactcache/") + resource
}

/// A reservation request the transport must issue.
pub enum ReserveCall {
    /// POST of `{key, version, cacheSize?}` to the v1 `caches` resource.
    V1 { url: Vec<u8>, key: Vec<u8>, version: Vec<u8>, cache_size: Option<u64> },
    /// The v2 typed `create_cache_entry(key, version)`.
    V2 { key: Vec<u8>, version: Vec<u8> },
}

/// A lookup request the transport must issue.
pub enum LookupCall {
    /// GET of the v1 `cache` resource with `version` and the keys joined
    /// by commas.
    V1 { url: Vec<u8>, version: Vec<u8>, keys: Vec<u8> },
    /// The v2 typed `get_cache_entry_download_url`: the first key, all of
    /// them as restore keys, and the version.
    V2 { key: Vec<u8>, restore_keys: Vec<Vec<u8>>, version: Vec<u8> },
}

impl Api {
    pub open spec fn wf(self) -> bool {
        self.version.wf()
    }

    /// The current version digest.
    pub open spec fn spec_version_hex(self) -> Seq<u8> {
        hex_of(sha256_of(self.version.spec_data()))
    }

    /// A fresh client: the version starts from the seed, the breaker is
    /// not tripped.
    pub fn new(cache_url: Vec<u8>, service_v2: bool, version_seed: &[u8]) -> (r: Api)
        ensures
            r.wf(),
            r.version.spec_data() == version_seed@,
            !r.cb.is_tripped(),
            r.service_v2 == service_v2,
            r.cache_url == cache_url,
    {
        Api {
            version: CacheVersion::new(version_seed),
            cb: CircuitBreaker::new(),
            service_v2,
            cache_url,
        }
    }

    pub fn circuit_breaker_tripped(&self) -> (r: bool)
        ensures
            r == self.cb.is_tripped(),
    {
        self.cb.tripped()
    }

    /// Observes a response status; trips the breaker on throttling. The
    /// result asks the caller to fire the one-shot callback.
    pub fn observe(&mut self, status: u16) -> (fire: bool)
        ensures
            final(self).cb.is_tripped() == (old(self).cb.is_tripped() || status
                == crate::circuit_breaker::THROTTLED_STATUS),
            fire == (!old(self).cb.is_tripped() && status
                == crate::circuit_breaker::THROTTLED_STATUS),
            final(self).version == old(self).version,
            final(self).service_v2 == old(self).service_v2,
            final(self).cache_url == old(self).cache_url,
    {
        self.cb.observe(status)
    }

    /// Appends data to the cache version, changing the namespace.
    pub fn mutate_version(&mut self, data: &[u8])
        requires
            old(self).wf(),
        ensures
            final(self).wf(),
            final(self).version.spec_data() == old(self).version.spec_data() + data@,
            final(self).cb == old(self).cb,
            final(self).service_v2 == old(self).service_v2,
            final(self).cache_url == old(self).cache_url,
    {
        self.version.mutate(data);
    }

    /// The v1 REST URL for a resource.
    pub fn construct_url(&self, resource: &[u8]) -> (r: Vec<u8>)
        ensures
            r@ == spec_construct_url(self.cache_url@, resource@),
    {
        proof {
            reveal_strlit("_apis/artifactcache/");
        }
        let mut r = crate::upload::copy_bytes(&self.cache_url);
        let needs_slash = if r.len() == 0 {
            true
        } else {
            r[r.len() - 1] != 0x2f
        };
        if needs_slash {
            r.push(0x2f);
        }
        let mut middle = lit_bytes("_apis/artifactcache/");
        r.append(&mut middle);
        let mut rest = vstd::slice::slice_to_vec(resource);
        r.append(&mut rest);
        proof {
            assert(r@ =~= spec_construct_url(self.cache_url@, resource@));
        }
        r
    }

    /// Plans a reservation. With the breaker tripped nothing is issued;
    /// otherwise the call carries this key, the current version, and the
    /// protocol the client is configured for.
    pub fn reserve_cache(&self, key: &[u8], cache_size: Option<u64>) -> (r: Result<
        ReserveCall,
        Error,
    >)
        requires
            self.wf(),
        ensures
            self.cb.is_tripped() <==> (r matches Err(e) && e is CircuitBreakerTripped),
            !self.cb.is_tripped() && !self.service_v2 ==> (r matches Ok(c) && (c matches
                ReserveCall::V1 { url, key: k, version, cache_size: cz } && url@
                == spec_construct_url(self.cache_url@, ascii_of("caches")) && k@ == key@ && version@
                == self.spec_version_hex() && cz == cache_size)),
            !self.cb.is_tripped() && self.service_v2 ==> (r matches Ok(c) && (c matches
                ReserveCall::V2 { key: k, version } && k@ == key@ && version@
                == self.spec_version_hex())),
    {
        if self.circuit_breaker_tripped() {
            return Err(Error::CircuitBreakerTripped);
        }
        let version = crate::upload::copy_bytes(self.version.current());
        let k = vstd::slice::slice_to_vec(key);
        if !self.service_v2 {
            proof {
                reveal_strlit("caches");
            }
            let resource = lit_bytes("caches");
            let url = self.construct_url(resource.as_slice());
            Ok(ReserveCall::V1 { url, key: k, version, cache_size })
        } else {
            Ok(ReserveCall::V2 { key: k, version })
        }
    }

    /// Plans the allocation of a file: a reservation with no size hint.
    pub fn allocate_file(&self, key: &[u8]) -> (r: Result<ReserveCall, Error>)
        requires
            self.wf(),
        ensures
            self.cb.is_tripped() <==> (r matches Err(e) && e is CircuitBreakerTripped),
            !self.cb.is_tripped() && !self.service_v2 ==> (r matches Ok(c) && (c matches
                ReserveCall::V1 { url, key: k, version, cache_size } && url@
                == spec_construct_url(self.cache_url@, ascii_of("caches")) && k@ == key@ && version@
                == self.spec_version_hex() && cache_size is None)),
            !self.cb.is_tripped() && self.service_v2 ==> (r matches Ok(c) && (c matches
                ReserveCall::V2 { key: k, version } && k@ == key@ && version@
                == self.spec_version_hex())),
    {
        self.reserve_cache(key, None)
    }

    /// Plans a lookup by key prefixes. With the breaker tripped nothing
    /// is issued; otherwise v1 sends the keys joined by commas, v2 sends
    /// the first key and all of them as restore keys.
    pub fn get_file_url(&self, keys: &Vec<Vec<u8>>) -> (r: Result<LookupCall, Error>)
        requires
            self.wf(),
            keys@.len() > 0,
        ensures
            self.cb.is_tripped() <==> (r matches Err(e) && e is CircuitBreakerTripped),
            !self.cb.is_tripped() && !self.service_v2 ==> (r matches Ok(c) && (c matches
                LookupCall::V1 { url, version, keys: joined } && url@ == spec_construct_url(
                self.cache_url@,
                ascii_of("cache"),
            ) && version@ == self.spec_version_hex() && joined@ == spec_join_comma(
                keys@.map_values(|k: Vec<u8>| k@),
            ))),
            !self.cb.is_tripped() && self.service_v2 ==> (r matches Ok(c) && (c matches
                LookupCall::V2 { key, restore_keys, version } && key@ == keys@[0]@
                && restore_keys@.len() == keys@.len() && (forall|j: int|
                    0 <= j < keys@.len() ==> #[trigger] restore_keys@[j]@ == keys@[j]@)
                && version@ == self.spec_version_hex())),
    {
        if self.circuit_breaker_tripped() {
            return Err(Error::CircuitBreakerTripped);
        }
        let version = crate::upload::copy_bytes(self.version.current());
        if !self.service_v2 {
            proof {
                reveal_strlit("cache");
            }
            let resource = lit_bytes("cache");
            let url = self.construct_url(resource.as_slice());
            let joined = join_comma(keys);
            Ok(LookupCall::V1 { url, version, keys: joined })
        } else {
            let key = crate::upload::copy_bytes(&keys[0]);
            let mut restore_keys: Vec<Vec<u8>> = Vec::new();
            let n: usize = keys.len();
            let mut i: usize = 0;
            while i < n
                invariant
                    n == keys@.len(),
                    0 <= i <= n,
                    restore_keys@.len() == i,
                    forall|j: int| 0 <= j < i ==> #[trigger] restore_keys@[j]@ == keys@[j]@,
                decreases n - i,
            {
                restore_keys.push(crate::upload::copy_bytes(&keys[i]));
                i = i + 1;
            }
            Ok(LookupCall::V2 { key, restore_keys, version })
        }
    }
}

/// The authorization header of every backend request:
/// `Bearer {token}`.
pub open spec fn spec_bearer_header(token: Seq<u8>) -> Seq<u8> {
    ascii_of("Bearer ") + token
}

/// Writes the authorization header value for a runtime token.
pub fn bearer_header(token: &[u8]) -> (r: Vec<u8>)
    ensures
        r@ == spec_bearer_header(token@),
{
    proof {
        reveal_strlit("Bearer ");
    }
    let mut r = lit_bytes("Bearer ");
    let mut t = vstd::slice::slice_to_vec(token);
    r.append(&mut t);
    r
}

/// The accept header naming the REST API version served.
pub fn accept_header() -> (r: Vec<u8>)
    ensures
        r@ == ascii_of("application/json;api-version=6.0-preview.1"),
{
    proof {
        reveal_strlit("application/json;api-version=6.0-preview.1");
    }
    lit_bytes("application/json;api-version=6.0-preview.1")
}

/// The base URL of the v2 typed service: the results URL with `twirp/`
/// appended.
pub open spec fn spec_twirp_base(results_url: Seq<u8>) -> Seq<u8> {
    results_url + ascii_of("twirp/")
}

/// Writes the v2 typed service's base URL.
pub fn twirp_base(results_url: &[u8]) -> (r: Vec<u8>)
    ensures
        r@ == spec_twirp_base(results_url@),
{
    proof {
        reveal_strlit("twirp/");
    }
    let mut r = vstd::slice::slice_to_vec(results_url);
    let mut t = lit_bytes("twirp/");
    r.append(&mut t);
    r
}

/// The keys of a v1 lookup, joined by commas.
pub open spec fn spec_join_comma(keys: Seq<Seq<u8>>) -> Seq<u8>
    decreases keys.len(),
{
    if keys.len() == 0 {
        Seq::empty()
    } else if keys.len() == 1 {
        keys[0]
    } else {
        spec_join_comma(keys.drop_last()) + seq![0x2cu8] + keys.last()
    }
}

/// Joins byte strings with commas.
pub fn join_comma(keys: &Vec<Vec<u8>>) -> (r: Vec<u8>)
    ensures
        r@ == spec_join_comma(keys@.map_values(|k: Vec<u8>| k@)),
{
    let mut r: Vec<u8> = Vec::new();
    let n: usize = keys.len();
    let mut i: usize = 0;
    while i < n
        invariant
            n == keys@.len(),
            0 <= i <= n,
            r@ == spec_join_comma(keys@.map_values(|k: Vec<u8>| k@).take(i as int)),
        decreases n - i,
    {
        if i > 0 {
            r.push(0x2c);
        }
        let mut part = crate::upload::copy_bytes(&keys[i]);
        r.append(&mut part);
        proof {
            let m = keys@.map_values(|k: Vec<u8>| k@);
            assert(m.take(i + 1).drop_last() =~= m.take(i as int));
            assert(m.take(i + 1).last() == m[i as int]);
            if i == 0 {
                assert(r@ =~= spec_join_comma(m.take(1)));
            } else {
                assert(r@ =~= spec_join_comma(m.take(i as int)) + seq![0x2cu8] + m[i as int]);
            }
        }
        i = i + 1;
    }
    proof {
        assert(keys@.map_values(|k: Vec<u8>| k@).take(n as int) =~= keys@.map_values(
            |k: Vec<u8>| k@,
        ));
    }
    r
}

/// Is this byte an ASCII letter or digit?
pub open spec fn is_ascii_alnum(b: u8) -> bool {
    (0x30 <= b <= 0x39) || (0x41 <= b <= 0x5a) || (0x61 <= b <= 0x7a)
}

/// Relies on rand's `thread_rng`, `sample_iter` and `Alphanumeric`: four
/// bytes, each an ASCII letter or digit. Which ones is chance; nothing
/// more is assumed of them.
#[verifier::external_body]
pub(crate) fn random_suffix() -> (r: Vec<u8>)
    ensures
        r@.len() == 4,
        forall|i: int| 0 <= i < r@.len() ==> is_ascii_alnum(#[trigger] r@[i]),
{
    rand::Rng::sample_iter(rand::thread_rng(), &rand::distributions::Alphanumeric)
        .take(4)
        .collect()
}

/// The key of one suffixed reservation attempt: `{key}-{nonce}`.
pub open spec fn spec_suffixed_key(key: Seq<u8>, nonce: Seq<u8>) -> Seq<u8> {
    key + seq![0x2du8] + nonce
}

/// Renders the key of a suffixed reservation attempt.
pub fn suffixed_key(key: &[u8], nonce: &[u8]) -> (r: Vec<u8>)
    ensures
        r@ == spec_suffixed_key(key@, nonce@),
{
    let mut r = vstd::slice::slice_to_vec(key);
    r.push(0x2d);
    let mut rest = vstd::slice::slice_to_vec(nonce);
    r.append(&mut rest);
    proof {
        assert(r@ =~= spec_suffixed_key(key@, nonce@));
    }
    r
}

/// Draws a fresh random suffix and appends it to the key: the next key a
/// colliding reservation is retried under. The suffix is four ASCII
/// letters or digits after a dash; which ones is chance.
pub fn fresh_suffixed_key(key: &[u8]) -> (r: Vec<u8>)
    ensures
        r@.len() == key@.len() + 5,
        r@.subrange(0, key@.len() as int) == key@,
        r@[key@.len() as int] == 0x2du8,
        forall|i: int| key@.len() + 1 <= i < r@.len() ==> is_ascii_alnum(#[trigger] r@[i]),
{
    let nonce = random_suffix();
    let r = suffixed_key(key, nonce.as_slice());
    proof {
        assert(r@.subrange(0, key@.len() as int) =~= key@);
        assert forall|i: int| key@.len() + 1 <= i < r@.len() implies is_ascii_alnum(
            #[trigger] r@[i],
        ) by {
            assert(r@[i] == nonce@[i - key@.len() - 1]);
        }
    }
    r
}

/// What one reservation attempt came back with.
pub enum ReserveOutcome {
    Granted(FileAllocation),
    Rejected(Error),
}

/// An outcome that ends the retry loop: a grant, or any error other than
/// the structured collision.
pub open spec fn is_decisive(o: ReserveOutcome) -> bool {
    match o {
        ReserveOutcome::Granted(_) => true,
        ReserveOutcome::Rejected(e) => !is_retryable_collision(e),
    }
}

/// The index of the first decisive outcome; the length if there is none.
pub open spec fn first_decisive(s: Seq<ReserveOutcome>) -> int
    decreases s.len(),
{
    if s.len() == 0 {
        0
    } else if is_decisive(s[0]) {
        0
    } else {
        1 + first_decisive(s.drop_first())
    }
}

proof fn lemma_first_decisive_at(s: Seq<ReserveOutcome>, i: int)
    requires
        0 <= i < s.len(),
        forall|j: int| 0 <= j < i ==> !is_decisive(#[trigger] s[j]),
        is_decisive(s[i]),
    ensures
        first_decisive(s) == i,
    decreases i,
{
    if i == 0 {
    } else {
        assert(!is_decisive(s[0]));
        lemma_first_decisive_at(s.drop_first(), i - 1);
    }
}

proof fn lemma_first_decisive_none(s: Seq<ReserveOutcome>)
    requires
        forall|j: int| 0 <= j < s.len() ==> !is_decisive(#[trigger] s[j]),
    ensures
        first_decisive(s) == s.len(),
    decreases s.len(),
{
    if s.len() > 0 {
        lemma_first_decisive_none(s.drop_first());
    }
}

/// The retry discipline over five hypothetical attempt outcomes: attempts
/// stop at the first grant or at the first error that is not the
/// structured collision; only collisions are retried; after five
/// collisions the caller gets `TooManyCollisions`. The result's first
/// component counts the attempts consumed.
pub fn reserve_unique_result(outcomes: Vec<ReserveOutcome>) -> (r: (
    usize,
    Result<FileAllocation, Error>,
))
    requires
        outcomes@.len() == MAX_RESERVE_ATTEMPTS,
    ensures
        r.0 <= MAX_RESERVE_ATTEMPTS,
        first_decisive(outcomes@) < MAX_RESERVE_ATTEMPTS ==> {
            let f = first_decisive(outcomes@);
            &&& r.0 == f + 1
            &&& r.1 == (match outcomes@[f] {
                ReserveOutcome::Granted(a) => Result::<FileAllocation, Error>::Ok(a),
                ReserveOutcome::Rejected(e) => Result::<FileAllocation, Error>::Err(e),
            })
        },
        first_decisive(outcomes@) >= MAX_RESERVE_ATTEMPTS ==> r.0 == MAX_RESERVE_ATTEMPTS && r.1
            == Result::<FileAllocation, Error>::Err(Error::TooManyCollisions),
{
    let ghost all = outcomes@;
    let mut rest = outcomes;
    let mut i: usize = 0;
    while i < MAX_RESERVE_ATTEMPTS
        invariant
            all == outcomes@,
            all.len() == MAX_RESERVE_ATTEMPTS,
            0 <= i <= MAX_RESERVE_ATTEMPTS,
            rest@.len() == MAX_RESERVE_ATTEMPTS - i,
            forall|j: int| 0 <= j < rest@.len() ==> rest@[j] == all[i + j],
            forall|j: int| 0 <= j < i ==> !is_decisive(#[trigger] all[j]),
        decreases MAX_RESERVE_ATTEMPTS - i,
    {
        let outcome = rest.remove(0);
        proof {
            assert(outcome == all[i as int]);
        }
        match outcome {
            ReserveOutcome::Granted(a) => {
                proof {
                    assert(all[i as int] matches ReserveOutcome::Granted(x) && x == a);
                    assert(is_decisive(all[i as int]));
                    lemma_first_decisive_at(all, i as int);
                    assert(first_decisive(outcomes@) == i as int);
                }
                return (i + 1, Ok(a));
            },
            ReserveOutcome::Rejected(e) => {
                if !is_collision_error(&e) {
                    proof {
                        assert(all[i as int] matches ReserveOutcome::Rejected(x) && x == e);
                        assert(is_decisive(all[i as int]));
                        lemma_first_decisive_at(all, i as int);
                        assert(first_decisive(outcomes@) == i as int);
                    }
                    return (i + 1, Err(e));
                } else {
                    proof {
                        assert(!is_decisive(all[i as int]));
                    }
                }
            },
        }
        i = i + 1;
    }
    proof {
        lemma_first_decisive_none(all);
    }
    (MAX_RESERVE_ATTEMPTS, Err(Error::TooManyCollisions))
}

} // verus!
