//! The HTTP surface's routing decisions, the upload queue, the workflow
//! lifecycle, and the startup decisions.

use magic_nix_cache::binary_cache::{
    get_nar_after_lookup, get_narinfo_after_lookup, get_narinfo_plan, nar_route_plan,
    narinfo_path_hash, nix_cache_info_body, pull_through, put_nar_complete, put_narinfo_complete,
    put_narinfo_plan, NarInfoGetPlan,
};
use magic_nix_cache::pipeline::store_path_hash;
use magic_nix_cache::workflow::upload_batches;
use magic_nix_cache::credentials::{
    cache_name, extract_netrc_credentials, has_machine_for, netrc_append_entry,
    rewrite_netrc_token, token_request_url, NetrcMachine,
};
use magic_nix_cache::env::{
    determine_environment, select_flakehub_auth, should_enable_gha_cache, validate_args,
    AuthSelection, CacheTrinary, Dnixd, Environment, FlakeHubAuthSource,
};
use magic_nix_cache::error::Error as DaemonError;
use magic_nix_cache::backend::{ApiErrorInfo, Error as ApiError, StructuredApiError};
use magic_nix_cache::github::{
    unauthenticated_error_message, WorkflowData, WorkflowDataEvent, WorkflowDataEventRepo,
    WorkflowDataEventRepoOwner,
};
use magic_nix_cache::negcache::NegativeCache;
use magic_nix_cache::nix_conf::{
    fallback_line, flakehub_conf_lines, gha_substituter_line, post_build_hook_lines,
};
use magic_nix_cache::pbh::{
    classify_event_frame, post_build_hook_script, split_out_paths, FrameAction,
};
use magic_nix_cache::queue::{QueueAction, Request, UploadQueue};
use magic_nix_cache::telemetry::TelemetryReport;
use magic_nix_cache::workflow::{
    keep_store_entry, new_paths, workflow_finish_response, workflow_start_response,
    EnqueuePathsRequest, EnqueuePathsResponse,
};

#[test]
fn nix_cache_info_is_static() {
    assert_eq!(
        nix_cache_info_body(),
        b"WantMassQuery: 1\nStoreDir: /nix/store\nPriority: 41\n".to_vec()
    );
}

#[test]
fn narinfo_route_names() {
    assert_eq!(narinfo_path_hash(b"abc123.narinfo"), Some(b"abc123".to_vec()));
    assert!(narinfo_path_hash(b"abc123").is_none());
    assert!(narinfo_path_hash(b"abc123.nar").is_none());
    assert_eq!(narinfo_path_hash(b".narinfo"), Some(b"".to_vec()));
}

#[test]
fn pull_through_needs_an_upstream() {
    let upstream = Some(b"http://up".to_vec());
    assert_eq!(pull_through(&upstream, b"x.narinfo").unwrap(), b"http://up/x.narinfo".to_vec());
    assert!(matches!(pull_through(&None, b"x.narinfo"), Err(DaemonError::NotFound)));
}

#[test]
fn narinfo_get_miss_then_negative_hit() {
    // first request: empty negative cache, backend misses, upstream set
    let mut neg = NegativeCache::new();
    let mut metrics = TelemetryReport::new();
    let upstream = Some(b"http://up".to_vec());
    let plan = get_narinfo_plan(&neg, &mut metrics, &upstream, b"deadbe.narinfo");
    let (key, hash) = match plan {
        NarInfoGetPlan::Lookup { key, hash } => (key, hash),
        _ => panic!("expected a backend lookup"),
    };
    assert_eq!(key, b"deadbe.narinfo".to_vec());
    let r = get_narinfo_after_lookup(&mut neg, &mut metrics, &upstream, b"deadbe.narinfo", hash, None);
    assert_eq!(r.unwrap(), b"http://up/deadbe.narinfo".to_vec());
    assert_eq!(metrics.narinfos_sent_upstream.0, 1);
    assert_eq!(metrics.narinfos_negative_cache_misses.0, 1);
    assert_eq!(metrics.narinfos_negative_cache_hits.0, 0);

    // second request: the negative cache answers; no backend call
    let plan2 = get_narinfo_plan(&neg, &mut metrics, &upstream, b"deadbe.narinfo");
    match plan2 {
        NarInfoGetPlan::Settled(r2) => {
            assert_eq!(r2.unwrap(), b"http://up/deadbe.narinfo".to_vec());
        }
        _ => panic!("expected the negative cache to answer"),
    }
    assert_eq!(metrics.narinfos_sent_upstream.0, 2);
    assert_eq!(metrics.narinfos_negative_cache_hits.0, 1);
}

#[test]
fn narinfo_get_miss_without_upstream_is_absent() {
    let mut neg = NegativeCache::new();
    let mut metrics = TelemetryReport::new();
    let plan = get_narinfo_plan(&neg, &mut metrics, &None, b"abc123.narinfo");
    let hash = match plan {
        NarInfoGetPlan::Lookup { hash, .. } => hash,
        _ => panic!("expected a lookup"),
    };
    let r = get_narinfo_after_lookup(&mut neg, &mut metrics, &None, b"abc123.narinfo", hash, None);
    assert!(matches!(r, Err(DaemonError::NotFound)));
    assert!(neg.contains(b"abc123"));
}

#[test]
fn narinfo_get_hit_redirects() {
    let mut neg = NegativeCache::new();
    let mut metrics = TelemetryReport::new();
    let r = get_narinfo_after_lookup(
        &mut neg,
        &mut metrics,
        &None,
        b"abc123.narinfo",
        b"abc123".to_vec(),
        Some(b"https://blob/x".to_vec()),
    );
    assert_eq!(r.unwrap(), b"https://blob/x".to_vec());
    assert_eq!(metrics.narinfos_served.0, 1);
    assert!(!neg.contains(b"abc123"));
}

#[test]
fn narinfo_put_clears_negative_cache() {
    let mut neg = NegativeCache::new();
    let mut metrics = TelemetryReport::new();
    neg.insert(b"abc123".to_vec());
    assert!(neg.contains(b"abc123"));
    let (key, hash) = put_narinfo_plan(b"abc123.narinfo", true).unwrap();
    assert_eq!(key, b"abc123.narinfo".to_vec());
    put_narinfo_complete(&mut neg, &mut metrics, hash.as_slice());
    assert!(!neg.contains(b"abc123"));
    assert_eq!(metrics.narinfos_uploaded.0, 1);
}

#[test]
fn narinfo_put_refusals() {
    assert!(matches!(put_narinfo_plan(b"abc123", true), Err(DaemonError::BadRequest)));
    assert!(matches!(put_narinfo_plan(b"abc123.narinfo", false), Err(DaemonError::GHADisabled)));
}

#[test]
fn nar_get_redirects_and_pulls_through() {
    let mut metrics = TelemetryReport::new();
    let hit = get_nar_after_lookup(&mut metrics, &None, b"x.nar.zstd", Some(b"https://blob/n".to_vec()));
    assert_eq!(hit.unwrap(), b"https://blob/n".to_vec());
    assert_eq!(metrics.nars_served.0, 1);
    let upstream = Some(b"http://up".to_vec());
    let miss = get_nar_after_lookup(&mut metrics, &upstream, b"x.nar.zstd", None);
    assert_eq!(miss.unwrap(), b"http://up/nar/x.nar.zstd".to_vec());
    assert_eq!(metrics.nars_sent_upstream.0, 1);
    let absent = get_nar_after_lookup(&mut metrics, &None, b"x.nar.zstd", None);
    assert!(matches!(absent, Err(DaemonError::NotFound)));
    put_nar_complete(&mut metrics);
    assert_eq!(metrics.nars_uploaded.0, 1);
}

#[test]
fn queue_starts_each_path_once() {
    let mut q = UploadQueue::new();
    let p = b"/nix/store/abc-x".to_vec();
    let a1 = q.worker_step(false, Request::Upload(p.clone()));
    assert!(matches!(a1, QueueAction::Start(ref s) if *s == p));
    let a2 = q.worker_step(false, Request::Upload(p.clone()));
    assert!(matches!(a2, QueueAction::Skip));
    let a3 = q.worker_step(false, Request::Shutdown);
    assert!(matches!(a3, QueueAction::Stop));
}

#[test]
fn queue_drops_work_while_tripped() {
    let mut q = UploadQueue::new();
    let p = b"/nix/store/abc-x".to_vec();
    assert!(matches!(q.worker_step(true, Request::Upload(p.clone())), QueueAction::Skip));
    // the path was not marked seen, so it still uploads later
    assert!(matches!(q.worker_step(false, Request::Upload(p)), QueueAction::Start(_)));
}

#[test]
fn workflow_diff_and_counts() {
    let original = vec![b"/nix/store/a".to_vec(), b"/nix/store/b".to_vec()];
    let final_paths = vec![
        b"/nix/store/a".to_vec(),
        b"/nix/store/c".to_vec(),
        b"/nix/store/b".to_vec(),
        b"/nix/store/d".to_vec(),
    ];
    let fresh = new_paths(&original, &final_paths);
    assert_eq!(fresh, vec![b"/nix/store/c".to_vec(), b"/nix/store/d".to_vec()]);

    let mut metrics = TelemetryReport::new();
    let start = workflow_start_response(&mut metrics, Some(100));
    assert_eq!(start.num_original_paths, Some(100));
    assert_eq!(metrics.num_original_paths.0, 100);
    let finish = workflow_finish_response(&mut metrics, Some((100, 110, 10)));
    assert_eq!(finish.num_original_paths, Some(100));
    assert_eq!(finish.num_final_paths, Some(110));
    assert_eq!(finish.num_new_paths, Some(10));
    assert_eq!(metrics.num_new_paths.0, 10);
    let disabled = workflow_finish_response(&mut metrics, None);
    assert!(disabled.num_final_paths.is_none());
}

#[test]
fn store_listing_filter() {
    assert!(keep_store_entry(b"abc123-hello-1.0"));
    assert!(!keep_store_entry(b"abc123-hello.drv"));
    assert!(!keep_store_entry(b"abc123-build.chroot"));
    assert!(!keep_store_entry(b".links"));
    assert!(keep_store_entry(b"abc123-hello-1.0.tar.gz"));
    assert!(keep_store_entry(b".hidden"));
}

#[test]
fn enqueue_request_shape() {
    let req = EnqueuePathsRequest { store_paths: vec![String::from("/nix/store/a")] };
    assert_eq!(req.store_paths.len(), 1);
    let _ = EnqueuePathsResponse {};
}

#[test]
fn environment_detection() {
    assert!(determine_environment(true, true, true).is_github_actions());
    assert!(determine_environment(false, true, true).is_gitlab_ci());
    assert!(!determine_environment(false, true, false).is_gitlab_ci());
    assert!(!determine_environment(false, false, false).is_github_actions());
    assert_eq!(determine_environment(true, false, false).description(), b"GitHub Actions".to_vec());
    assert_eq!(
        determine_environment(false, false, false).description(),
        b"an unspecified environment".to_vec()
    );
}

#[test]
fn gitlab_flag_rules() {
    let gitlab = Environment::GitLabCI;
    assert!(validate_args(&gitlab, CacheTrinary::Enabled, CacheTrinary::Enabled).is_err());
    assert!(validate_args(&gitlab, CacheTrinary::NoPreference, CacheTrinary::NoPreference).is_err());
    assert!(validate_args(&gitlab, CacheTrinary::NoPreference, CacheTrinary::Enabled).is_ok());
    let github = Environment::GitHubActions;
    assert!(validate_args(&github, CacheTrinary::Enabled, CacheTrinary::Disabled).is_ok());
}

#[test]
fn gha_cache_enable_decision() {
    assert!(should_enable_gha_cache(CacheTrinary::Enabled, true));
    assert!(should_enable_gha_cache(CacheTrinary::NoPreference, false));
    assert!(!should_enable_gha_cache(CacheTrinary::NoPreference, true));
    assert!(!should_enable_gha_cache(CacheTrinary::Disabled, false));
}

#[test]
fn trinary_and_dnixd_flags() {
    assert_eq!(CacheTrinary::from(None), CacheTrinary::NoPreference);
    assert_eq!(CacheTrinary::from(Some(None)), CacheTrinary::Enabled);
    assert_eq!(CacheTrinary::from(Some(Some(CacheTrinary::Disabled))), CacheTrinary::Disabled);
    assert_eq!(Dnixd::from(true), Dnixd::Available);
    assert_eq!(Dnixd::from(false), Dnixd::Missing);
}

#[test]
fn flakehub_auth_selection() {
    assert!(matches!(
        select_flakehub_auth(CacheTrinary::Disabled, None, false, Dnixd::Available),
        AuthSelection::Disabled
    ));
    assert!(matches!(
        select_flakehub_auth(CacheTrinary::NoPreference, None, false, Dnixd::Missing),
        AuthSelection::NotConfigured
    ));
    assert!(matches!(
        select_flakehub_auth(CacheTrinary::NoPreference, None, false, Dnixd::Available),
        AuthSelection::Use(FlakeHubAuthSource::DeterminateNixd)
    ));
    let with_netrc = select_flakehub_auth(
        CacheTrinary::Enabled,
        Some(b"/home/u/netrc".to_vec()),
        true,
        Dnixd::Missing,
    );
    match with_netrc {
        AuthSelection::Use(FlakeHubAuthSource::Netrc(p)) => assert_eq!(p, b"/home/u/netrc".to_vec()),
        _ => panic!("expected the user netrc"),
    }
    assert!(matches!(
        select_flakehub_auth(
            CacheTrinary::Enabled,
            Some(b"/home/u/netrc".to_vec()),
            false,
            Dnixd::Missing
        ),
        AuthSelection::NotConfigured
    ));
    assert!(matches!(
        select_flakehub_auth(CacheTrinary::Enabled, None, false, Dnixd::Missing),
        AuthSelection::MissingNetrc
    ));
    assert_eq!(
        FlakeHubAuthSource::DeterminateNixd.as_path_buf(),
        b"/nix/var/determinate/netrc".to_vec()
    );
}

#[test]
fn error_status_codes() {
    let throttled = DaemonError::Api(ApiError::ApiError {
        status: 429,
        info: ApiErrorInfo::Structured(StructuredApiError { message: b"slow down".to_vec() }),
    });
    assert_eq!(throttled.status_code(), 429);
    let teapot = DaemonError::Api(ApiError::RequestError);
    assert_eq!(teapot.status_code(), 418);
    let backend = DaemonError::Api(ApiError::ApiError {
        status: 503,
        info: ApiErrorInfo::Unstructured(Vec::new()),
    });
    assert_eq!(backend.status_code(), 418);
    assert_eq!(DaemonError::NotFound.status_code(), 404);
    assert_eq!(DaemonError::BadRequest.status_code(), 400);
    assert_eq!(DaemonError::Netrc.status_code(), 500);
}

#[test]
fn netrc_lookup() {
    let machines = vec![
        NetrcMachine { name: None, login: Some("anon".into()), password: None },
        NetrcMachine {
            name: Some("api.flakehub.com".into()),
            login: Some("u".into()),
            password: Some("SECRET-REDACTED".into()),
        },
    ];
    let host = String::from("api.flakehub.com");
    let (login, password) = extract_netrc_credentials(machines, &host).unwrap();
    assert_eq!(login, "u");
    assert_eq!(password, "SECRET-REDACTED");

    let missing = extract_netrc_credentials(Vec::new(), &host);
    assert!(matches!(missing, Err(DaemonError::MissingCreds(_))));

    let no_login = vec![NetrcMachine { name: Some("api.flakehub.com".into()), login: None, password: None }];
    assert!(matches!(extract_netrc_credentials(no_login, &host), Err(DaemonError::Config(_))));

    let no_password = vec![NetrcMachine {
        name: Some("api.flakehub.com".into()),
        login: Some("u".into()),
        password: None,
    }];
    assert!(matches!(extract_netrc_credentials(no_password, &host), Err(DaemonError::Config(_))));

    let one = vec![NetrcMachine {
        name: Some("cache.flakehub.com".into()),
        login: Some("u".into()),
        password: Some("p".into()),
    }];
    assert!(has_machine_for(&one, &String::from("cache.flakehub.com")));
    assert!(!has_machine_for(&one, &String::from("api.flakehub.com")));
}

#[test]
fn netrc_entry_and_cache_name() {
    assert_eq!(
        netrc_append_entry(b"cache.flakehub.com", b"u", b"p"),
        b"\nmachine cache.flakehub.com login u password p\n\n".to_vec()
    );
    assert_eq!(cache_name(b"org-uuid", b"proj-uuid"), b"org-uuid:proj-uuid".to_vec());
}

#[test]
fn registration_advice_by_owner_kind() {
    let data = |kind: &str| {
        Some(WorkflowData {
            event: WorkflowDataEvent {
                repository: WorkflowDataEventRepo {
                    owner: WorkflowDataEventRepoOwner {
                        login: String::from("octocat"),
                        kind: String::from(kind),
                    },
                },
            },
        })
    };
    let user = unauthenticated_error_message(&data("User"));
    assert_eq!(
        user,
        b"::error title=FlakeHub registration required.::Please create an account for octocat on FlakeHub.com to publish flakes.".to_vec()
    );
    let org = unauthenticated_error_message(&data("Organization"));
    assert!(org.windows(16).any(|w| w == b"organization for"));
    let other = unauthenticated_error_message(&data("Bot"));
    assert!(other.starts_with(b"::error title=FlakeHub registration required.::Unable"));
    let none = unauthenticated_error_message(&None);
    assert_eq!(none, other);
}

#[test]
fn event_frames() {
    assert!(matches!(classify_event_frame(b": keepalive"), FrameAction::Ignored));
    assert!(matches!(classify_event_frame(b"data: not json"), FrameAction::Malformed));
    let frame = b"data: {\"drv\":\"/nix/store/d.drv\",\"outputs\":[\"/nix/store/o1\",\"/nix/store/o2\"]}";
    match classify_event_frame(frame) {
        FrameAction::Enqueue(ev) => {
            assert_eq!(ev.drv, "/nix/store/d.drv");
            assert_eq!(ev.outputs, vec!["/nix/store/o1".to_string(), "/nix/store/o2".to_string()]);
        }
        _ => panic!("expected an event"),
    }
}

#[test]
fn hook_script_and_conf_lines() {
    assert_eq!(
        post_build_hook_script(b"/usr/bin/daemon", b"127.0.0.1:3000"),
        b"#! /bin/sh\nRUST_LOG=trace RUST_BACKTRACE=full /usr/bin/daemon --server 127.0.0.1:3000 || :\n"
            .to_vec()
    );
    assert_eq!(fallback_line(), b"fallback = true\n".to_vec());
    assert_eq!(
        gha_substituter_line(b"127.0.0.1:3000"),
        b"extra-substituters = http://127.0.0.1:3000?trusted=1&compression=zstd&parallel-compression=true&priority=1\n".to_vec()
    );
    assert_eq!(
        flakehub_conf_lines(b"https://cache.flakehub.com/", b"/home/u/netrc"),
        b"extra-substituters = https://cache.flakehub.com/?trusted=1\nnetrc-file = /home/u/netrc\n"
            .to_vec()
    );
    assert_eq!(
        post_build_hook_lines(b"/nix/store/hook.sh"),
        b"fallback = true\npost-build-hook = /nix/store/hook.sh\n".to_vec()
    );
}

#[test]
fn token_rewrite_replaces_every_occurrence() {
    let contents = b"machine api login u password OLD\nmachine cache login u password OLD\n";
    let rewritten = rewrite_netrc_token(contents, b"OLD", b"NEW");
    assert_eq!(
        rewritten,
        b"machine api login u password NEW\nmachine cache login u password NEW\n".to_vec()
    );
    let unchanged = rewrite_netrc_token(contents, b"ABSENT", b"NEW");
    assert_eq!(unchanged, contents.to_vec());
    let overlapping = rewrite_netrc_token(b"aaaa", b"aa", b"b");
    assert_eq!(overlapping, b"bb".to_vec());
    assert_eq!(
        token_request_url(b"https://host/token?x=1"),
        b"https://host/token?x=1&audience=api.flakehub.com".to_vec()
    );
}

#[test]
fn out_paths_split_on_whitespace() {
    let paths = split_out_paths(b" /nix/store/a\t/nix/store/b\n/nix/store/c  ");
    assert_eq!(
        paths,
        vec![b"/nix/store/a".to_vec(), b"/nix/store/b".to_vec(), b"/nix/store/c".to_vec()]
    );
    assert_eq!(split_out_paths(b""), Vec::<Vec<u8>>::new());
    assert_eq!(split_out_paths(b"   "), Vec::<Vec<u8>>::new());
}

#[test]
fn nar_routes_need_the_backend_cache() {
    assert_eq!(nar_route_plan(b"x.nar.zstd", true).unwrap(), b"x.nar.zstd".to_vec());
    assert!(matches!(nar_route_plan(b"x.nar.zstd", false), Err(DaemonError::GHADisabled)));
}

#[test]
fn store_path_fingerprint_is_the_basename_up_to_the_dash() {
    assert_eq!(store_path_hash(b"/nix/store/abc123-hello-1.0"), b"abc123".to_vec());
    assert_eq!(store_path_hash(b"abc123-hello"), b"abc123".to_vec());
    assert_eq!(store_path_hash(b"/nix/store/abc123"), b"abc123".to_vec());
    assert_eq!(store_path_hash(b""), Vec::<u8>::new());
}

#[test]
fn upload_batches_close_at_a_megabyte_of_names() {
    // small names: everything fits one batch, taken from the end
    let paths = vec![b"/nix/store/a".to_vec(), b"/nix/store/b".to_vec(), b"/nix/store/c".to_vec()];
    let batches = upload_batches(paths);
    assert_eq!(batches.len(), 1);
    assert_eq!(
        batches[0],
        vec![b"/nix/store/c".to_vec(), b"/nix/store/b".to_vec(), b"/nix/store/a".to_vec()]
    );

    // a huge name closes its batch at once; the rest follow in a second one
    let big = vec![0x61u8; 1 << 20];
    let paths = vec![b"/nix/store/a".to_vec(), b"/nix/store/b".to_vec(), big.clone()];
    let batches = upload_batches(paths);
    assert_eq!(batches.len(), 2);
    assert_eq!(batches[0], vec![big]);
    assert_eq!(batches[1], vec![b"/nix/store/b".to_vec(), b"/nix/store/a".to_vec()]);

    assert_eq!(upload_batches(Vec::new()), Vec::<Vec<Vec<u8>>>::new());
}
