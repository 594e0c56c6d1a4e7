//! The backend protocol: chunk plans, reservation retries, response
//! classification, and the circuit breaker.

use magic_nix_cache::api::{
    accept_header, bearer_header, fresh_suffixed_key, join_comma, reserve_unique_result,
    suffixed_key, twirp_base, Api, LookupCall, ReserveCall, ReserveOutcome,
};
use magic_nix_cache::backend::{
    check_response, finalize_outcome_v2, handle_error, is_collision_error, lookup_outcome_v2,
    parse_lookup_response_v1, parse_reserve_response_v1, ApiErrorInfo, CacheId, Error,
    FileAllocation, SignedUrl, StructuredApiError,
};
use magic_nix_cache::circuit_breaker::CircuitBreaker;
use magic_nix_cache::upload::{
    content_range_header, split_into_chunks, upload_file, upload_steps_v1, upload_steps_v2,
    UploadSteps, V1Step, V2Step,
};

fn collision_error() -> Error {
    Error::ApiError {
        status: 409,
        info: ApiErrorInfo::Structured(StructuredApiError {
            message: b"Cache already exists. aborting.".to_vec(),
        }),
    }
}

#[test]
fn chunking_splits_greedily() {
    let data: Vec<u8> = (0u8..=9).collect();
    let chunks = split_into_chunks(&data, 4);
    assert_eq!(chunks.len(), 3);
    assert_eq!(chunks[0], vec![0, 1, 2, 3]);
    assert_eq!(chunks[1], vec![4, 5, 6, 7]);
    assert_eq!(chunks[2], vec![8, 9]);
}

#[test]
fn chunking_exact_multiple() {
    let data = vec![7u8; 8];
    let chunks = split_into_chunks(&data, 4);
    assert_eq!(chunks.len(), 2);
    assert_eq!(chunks[0].len(), 4);
    assert_eq!(chunks[1].len(), 4);
}

#[test]
fn chunking_empty_stream() {
    let data: Vec<u8> = Vec::new();
    let chunks = split_into_chunks(&data, 4);
    assert_eq!(chunks.len(), 0);
}

#[test]
fn v1_plan_patches_and_commits_once() {
    // six chunks at the configured size, the last one short
    let chunk: usize = 1 << 20;
    let total = 5 * chunk + chunk / 2;
    let data = vec![0xabu8; total];
    let steps = upload_steps_v1(false, &CacheId(17), &data, chunk).unwrap();
    assert_eq!(steps.len(), 7);
    let mut sum = 0usize;
    for (i, step) in steps.iter().take(6).enumerate() {
        match step {
            V1Step::Patch { resource, offset, data } => {
                assert_eq!(resource, b"caches/17");
                assert_eq!(*offset, (i * chunk) as u64);
                sum += data.len();
            }
            _ => panic!("expected a patch"),
        }
    }
    assert_eq!(sum, total);
    match &steps[6] {
        V1Step::Commit { resource, size } => {
            assert_eq!(resource, b"caches/17");
            assert_eq!(*size, total as u64);
        }
        _ => panic!("expected the commit last"),
    }
}

#[test]
fn v1_plan_refused_when_tripped() {
    let data = vec![1u8; 10];
    let r = upload_steps_v1(true, &CacheId(1), &data, 4);
    assert!(matches!(r, Err(Error::CircuitBreakerTripped)));
}

#[test]
fn v2_plan_seal_precedes_finalize() {
    let alloc = SignedUrl { signed_url: b"https://blob/x?sv=1".to_vec(), key: b"k-abcd".to_vec() };
    let data = vec![9u8; 10];
    let steps = upload_steps_v2(false, &alloc, &data, 4).unwrap();
    assert_eq!(steps.len(), 6);
    assert!(matches!(&steps[0], V2Step::CreateBlob { url } if url == b"https://blob/x?sv=1"));
    let mut appended: Vec<u8> = Vec::new();
    for step in &steps[1..4] {
        match step {
            V2Step::AppendBlock { url, data } => {
                assert_eq!(url, b"https://blob/x?sv=1");
                appended.extend_from_slice(data);
            }
            _ => panic!("expected appends in order"),
        }
    }
    assert_eq!(appended, data);
    assert!(matches!(&steps[4], V2Step::Seal { .. }));
    assert!(matches!(&steps[5], V2Step::Finalize { key, size } if key == b"k-abcd" && *size == 10));
}

#[test]
fn upload_file_dispatches_by_allocation() {
    let data = vec![2u8; 5];
    let v1 = upload_file(false, &FileAllocation::V1(CacheId(3)), &data, 2).unwrap();
    assert!(matches!(v1, UploadSteps::V1(_)));
    let v2 = upload_file(
        false,
        &FileAllocation::V2(SignedUrl { signed_url: b"u".to_vec(), key: b"k".to_vec() }),
        &data,
        2,
    )
    .unwrap();
    assert!(matches!(v2, UploadSteps::V2(_)));
    let refused = upload_file(true, &FileAllocation::V1(CacheId(3)), &data, 2);
    assert!(matches!(refused, Err(Error::CircuitBreakerTripped)));
}

#[test]
fn content_range_renders_inclusive_bounds() {
    assert_eq!(content_range_header(0, 8388608), b"bytes 0-8388607/*".to_vec());
    assert_eq!(content_range_header(8388608, 8388608), b"bytes 8388608-16777215/*".to_vec());
    assert_eq!(content_range_header(41943040, 6291456), b"bytes 41943040-48234495/*".to_vec());
}

#[test]
fn breaker_fires_callback_exactly_once() {
    let mut cb = CircuitBreaker::new();
    assert!(!cb.tripped());
    assert!(!cb.observe(200));
    assert!(!cb.tripped());
    assert!(cb.observe(429));
    assert!(cb.tripped());
    assert!(!cb.observe(429));
    assert!(!cb.observe(200));
    assert!(cb.tripped());
}

#[test]
fn reserve_retries_on_collisions_only() {
    // two collisions, then a grant: three attempts
    let outcomes = vec![
        ReserveOutcome::Rejected(collision_error()),
        ReserveOutcome::Rejected(collision_error()),
        ReserveOutcome::Granted(FileAllocation::V1(CacheId(5))),
        ReserveOutcome::Rejected(collision_error()),
        ReserveOutcome::Rejected(collision_error()),
    ];
    let (attempts, r) = reserve_unique_result(outcomes);
    assert_eq!(attempts, 3);
    assert!(matches!(r, Ok(FileAllocation::V1(CacheId(5)))));
}

#[test]
fn reserve_aborts_on_other_errors() {
    let outcomes = vec![
        ReserveOutcome::Rejected(Error::RequestError),
        ReserveOutcome::Granted(FileAllocation::V1(CacheId(5))),
        ReserveOutcome::Rejected(collision_error()),
        ReserveOutcome::Rejected(collision_error()),
        ReserveOutcome::Rejected(collision_error()),
    ];
    let (attempts, r) = reserve_unique_result(outcomes);
    assert_eq!(attempts, 1);
    assert!(matches!(r, Err(Error::RequestError)));
}

#[test]
fn reserve_gives_up_after_five_collisions() {
    let outcomes = vec![
        ReserveOutcome::Rejected(collision_error()),
        ReserveOutcome::Rejected(collision_error()),
        ReserveOutcome::Rejected(collision_error()),
        ReserveOutcome::Rejected(collision_error()),
        ReserveOutcome::Rejected(collision_error()),
    ];
    let (attempts, r) = reserve_unique_result(outcomes);
    assert_eq!(attempts, 5);
    assert!(matches!(r, Err(Error::TooManyCollisions)));
}

#[test]
fn collision_error_is_recognized() {
    assert!(is_collision_error(&collision_error()));
    assert!(!is_collision_error(&Error::RequestError));
    let other = Error::ApiError {
        status: 409,
        info: ApiErrorInfo::Structured(StructuredApiError { message: b"quota exceeded".to_vec() }),
    };
    assert!(!is_collision_error(&other));
}

#[test]
fn random_suffix_is_four_alphanumerics() {
    for _ in 0..32 {
        let s = fresh_suffixed_key(b"k");
        assert_eq!(s.len(), 6);
        assert!(s.starts_with(b"k-"));
        assert!(s[2..].iter().all(|b| b.is_ascii_alphanumeric()));
    }
}

#[test]
fn suffixed_key_joins_with_dash() {
    assert_eq!(suffixed_key(b"k", b"aaac"), b"k-aaac".to_vec());
}

#[test]
fn error_body_bom_is_stripped() {
    let body = b"\xef\xbb\xbf{\"message\":\"Cache already exists\"}".to_vec();
    let e = handle_error(400, body);
    match e {
        Error::ApiError { status, info: ApiErrorInfo::Structured(se) } => {
            assert_eq!(status, 400);
            assert_eq!(se.message, b"Cache already exists".to_vec());
        }
        _ => panic!("expected a structured error"),
    }
}

#[test]
fn undecodable_error_body_kept_raw() {
    let e = handle_error(500, b"oops".to_vec());
    match e {
        Error::ApiError { status, info: ApiErrorInfo::Unstructured(raw) } => {
            assert_eq!(status, 500);
            assert_eq!(raw, b"oops".to_vec());
        }
        _ => panic!("expected a raw error"),
    }
}

#[test]
fn check_response_splits_on_status() {
    assert!(check_response(204, Vec::new()).is_ok());
    assert!(check_response(304, Vec::new()).is_err());
}

#[test]
fn reserve_response_carries_cache_id() {
    let r = parse_reserve_response_v1(200, b"{\"cacheId\":42}".to_vec());
    assert!(matches!(r, Ok(CacheId(42))));
    let bad = parse_reserve_response_v1(200, b"{}".to_vec());
    assert!(matches!(bad, Err(Error::DecodeError { status: 200, .. })));
    let denied = parse_reserve_response_v1(403, b"nope".to_vec());
    assert!(matches!(denied, Err(Error::ApiError { status: 403, .. })));
}

#[test]
fn lookup_response_hit_miss_and_decode() {
    let hit = parse_lookup_response_v1(
        200,
        b"{\"archiveLocation\":\"https://blob/a\"}".to_vec(),
    );
    assert!(matches!(hit, Ok(Some(url)) if url == b"https://blob/a"));
    let miss = parse_lookup_response_v1(204, Vec::new());
    assert!(matches!(miss, Ok(None)));
    let odd = parse_lookup_response_v1(200, b"[]".to_vec());
    assert!(matches!(odd, Err(Error::DecodeError { status: 200, .. })));
    let down = parse_lookup_response_v1(500, b"x".to_vec());
    assert!(matches!(down, Err(Error::ApiError { status: 500, .. })));
}

#[test]
fn v2_outcomes() {
    assert!(matches!(lookup_outcome_v2(true, b"u".to_vec()), Some(u) if u == b"u"));
    assert!(lookup_outcome_v2(false, b"u".to_vec()).is_none());
    assert!(matches!(finalize_outcome_v2(true, 9), Ok(9)));
    assert!(matches!(finalize_outcome_v2(false, 9), Err(Error::ApiErrorNotOk)));
}

#[test]
fn api_constructs_rest_urls() {
    let api = Api::new(b"https://cache.test".to_vec(), false, b"seed");
    assert_eq!(api.construct_url(b"caches"), b"https://cache.test/_apis/artifactcache/caches".to_vec());
    let api2 = Api::new(b"https://cache.test/".to_vec(), false, b"seed");
    assert_eq!(api2.construct_url(b"cache"), b"https://cache.test/_apis/artifactcache/cache".to_vec());
}

#[test]
fn api_version_follows_seed_and_mutation() {
    let mut api = Api::new(Vec::new(), false, b"magic-nix-cache/0.1.0");
    assert_eq!(
        *api.version.current(),
        b"d20d4cd8fc72d266820cb4ed8a5f55fd0cde35abb88acf18eef4a87708afb4dc".to_vec()
    );
    api.mutate_version(b"busted");
    assert_eq!(
        *api.version.current(),
        b"f11bec257ecdd79af0f095b3a8369413acb9cfec9248112a44ed3b302c4302a5".to_vec()
    );
}

#[test]
fn reserve_call_carries_key_and_version() {
    let api = Api::new(b"https://c/".to_vec(), false, b"");
    match api.allocate_file(b"k.narinfo").unwrap() {
        ReserveCall::V1 { url, key, version, cache_size } => {
            assert_eq!(url, b"https://c/_apis/artifactcache/caches".to_vec());
            assert_eq!(key, b"k.narinfo".to_vec());
            assert_eq!(
                version,
                b"e3b0c44298fc1c149afbf4c8996fb92427ae41e4649b934ca495991b7852b855".to_vec()
            );
            assert!(cache_size.is_none());
        }
        _ => panic!("expected a v1 reservation"),
    }
    let api2 = Api::new(b"https://c/".to_vec(), true, b"");
    assert!(matches!(api2.allocate_file(b"k").unwrap(), ReserveCall::V2 { .. }));
}

#[test]
fn tripped_api_reserves_and_looks_up_nothing() {
    let mut api = Api::new(b"https://c/".to_vec(), false, b"");
    assert!(api.observe(429));
    assert!(api.circuit_breaker_tripped());
    assert!(matches!(api.allocate_file(b"k"), Err(Error::CircuitBreakerTripped)));
    let keys = vec![b"k".to_vec()];
    assert!(matches!(api.get_file_url(&keys), Err(Error::CircuitBreakerTripped)));
}

#[test]
fn lookup_call_joins_keys() {
    let api = Api::new(b"https://c".to_vec(), false, b"");
    let keys = vec![b"a.narinfo".to_vec(), b"b.narinfo".to_vec()];
    match api.get_file_url(&keys).unwrap() {
        LookupCall::V1 { url, keys, .. } => {
            assert_eq!(url, b"https://c/_apis/artifactcache/cache".to_vec());
            assert_eq!(keys, b"a.narinfo,b.narinfo".to_vec());
        }
        _ => panic!("expected a v1 lookup"),
    }
    let api2 = Api::new(b"https://c".to_vec(), true, b"");
    match api2.get_file_url(&keys).unwrap() {
        LookupCall::V2 { key, restore_keys, .. } => {
            assert_eq!(key, b"a.narinfo".to_vec());
            assert_eq!(restore_keys.len(), 2);
        }
        _ => panic!("expected a v2 lookup"),
    }
}

#[test]
fn header_values() {
    assert_eq!(bearer_header(b"tok"), b"Bearer tok".to_vec());
    assert_eq!(accept_header(), b"application/json;api-version=6.0-preview.1".to_vec());
    assert_eq!(twirp_base(b"https://results/"), b"https://results/twirp/".to_vec());
    assert_eq!(join_comma(&vec![b"x".to_vec()]), b"x".to_vec());
    assert_eq!(join_comma(&Vec::new()), Vec::<u8>::new());
}

#[test]
fn fresh_key_keeps_the_base_and_adds_four() {
    let r = fresh_suffixed_key(b"k.narinfo");
    assert_eq!(r.len(), b"k.narinfo".len() + 5);
    assert!(r.starts_with(b"k.narinfo-"));
    assert!(r[b"k.narinfo".len() + 1..].iter().all(|b| b.is_ascii_alphanumeric()));
}

#[test]
fn v1_plan_renders_negative_ids_with_their_sign() {
    let data = vec![5u8; 3];
    let steps = upload_steps_v1(false, &CacheId(-5), &data, 4).unwrap();
    assert_eq!(steps.len(), 2);
    assert!(matches!(&steps[0], V1Step::Patch { resource, .. } if resource == b"caches/-5"));
    assert!(matches!(&steps[1], V1Step::Commit { resource, size } if resource == b"caches/-5" && *size == 3));
    let min = upload_steps_v1(false, &CacheId(i64::MIN), &data, 4).unwrap();
    assert!(
        matches!(&min[1], V1Step::Commit { resource, .. } if resource == b"caches/-9223372036854775808")
    );
}
