//! Where the daemon runs and what the flags ask for: the CI environment,
//! the three-valued cache preferences, and the startup decisions made
//! from them.

use vstd::prelude::*;

use crate::bytesutil::{ascii_of, lit_bytes};
use crate::error::Error;

verus! {

/// The CI environment the process runs in.
#[derive(Clone, Copy, Debug)]
pub enum Environment {
    GitHubActions,
    GitLabCI,
    Other,
}

impl Environment {
    pub fn is_github_actions(&self) -> (r: bool)
        ensures
            r == (*self is GitHubActions),
    {
        matches!(self, Environment::GitHubActions)
    }

    pub fn is_gitlab_ci(&self) -> (r: bool)
        ensures
            r == (*self is GitLabCI),
    {
        matches!(self, Environment::GitLabCI)
    }

    /// Names the environment.
    pub fn description(&self) -> (r: Vec<u8>)
        ensures
            r@ == (match self {
                Environment::GitHubActions => ascii_of("GitHub Actions"),
                Environment::GitLabCI => ascii_of("GitLab CI"),
                Environment::Other => ascii_of("an unspecified environment"),
            }),
    {
        proof {
            reveal_strlit("GitHub Actions");
            reveal_strlit("GitLab CI");
            reveal_strlit("an unspecified environment");
        }
        match self {
            Environment::GitHubActions => lit_bytes("GitHub Actions"),
            Environment::GitLabCI => lit_bytes("GitLab CI"),
            Environment::Other => lit_bytes("an unspecified environment"),
        }
    }
}

/// Reads the environment off the CI variables: `GITHUB_ACTIONS` wins,
/// then `CI` together with `GITLAB_CI`; anything else is unspecified.
pub fn determine_environment(github_actions: bool, ci: bool, gitlab_ci: bool) -> (r: Environment)
    ensures
        github_actions ==> r is GitHubActions,
        !github_actions && ci && gitlab_ci ==> r is GitLabCI,
        !github_actions && !(ci && gitlab_ci) ==> r is Other,
{
    if github_actions {
        Environment::GitHubActions
    } else if ci && gitlab_ci {
        Environment::GitLabCI
    } else {
        Environment::Other
    }
}

/// A cache's three-valued preference flag.
#[derive(Debug, Clone, Copy, PartialEq, Eq, Structural)]
pub enum CacheTrinary {
    NoPreference,
    Enabled,
    Disabled,
}

/// What a doubly optional flag means: absent is no preference, present
/// without a value enables, a value decides.
pub open spec fn spec_cache_trinary_from(b: Option<Option<CacheTrinary>>) -> CacheTrinary {
    match b {
        None => CacheTrinary::NoPreference,
        Some(None) => CacheTrinary::Enabled,
        Some(Some(v)) => v,
    }
}

impl From<Option<Option<CacheTrinary>>> for CacheTrinary {
    fn from(b: Option<Option<CacheTrinary>>) -> (r: Self) {
        match b {
            None => CacheTrinary::NoPreference,
            Some(None) => CacheTrinary::Enabled,
            Some(Some(v)) => v,
        }
    }
}

impl vstd::std_specs::convert::FromSpecImpl<Option<Option<CacheTrinary>>> for CacheTrinary {
    open spec fn obeys_from_spec() -> bool {
        true
    }

    open spec fn from_spec(b: Option<Option<CacheTrinary>>) -> CacheTrinary {
        spec_cache_trinary_from(b)
    }
}

/// Whether the local build daemon's socket is there.
#[derive(Debug, Clone, Copy, PartialEq, Eq, Structural)]
pub enum Dnixd {
    Available,
    Missing,
}

/// What the socket's presence means.
pub open spec fn spec_dnixd_from(b: bool) -> Dnixd {
    if b {
        Dnixd::Available
    } else {
        Dnixd::Missing
    }
}

impl From<bool> for Dnixd {
    fn from(b: bool) -> (r: Self) {
        if b {
            Dnixd::Available
        } else {
            Dnixd::Missing
        }
    }
}

impl vstd::std_specs::convert::FromSpecImpl<bool> for Dnixd {
    open spec fn obeys_from_spec() -> bool {
        true
    }

    open spec fn from_spec(b: bool) -> Dnixd {
        spec_dnixd_from(b)
    }
}

/// Checks the flags against the environment: on GitLab the backend cache
/// cannot be asked for, and the remote cache must be.
pub fn validate_args(environment: &Environment, gha_pref: CacheTrinary, flakehub_pref: CacheTrinary)
    -> (r: Result<(), Error>)
    ensures
        *environment is GitLabCI && gha_pref is Enabled ==> (r matches Err(e) && (e matches
            Error::Config(m) && m@ == ascii_of(
            "the --use-gha-cache flag should not be applied in GitLab CI",
        ))),
        *environment is GitLabCI && !(gha_pref is Enabled) && !(flakehub_pref is Enabled) ==> (
        r matches Err(e) && (e matches Error::Config(m) && m@ == ascii_of(
            "you must set --use-flakehub in GitLab CI",
        ))),
        !(*environment is GitLabCI) || (!(gha_pref is Enabled) && flakehub_pref is Enabled)
            ==> r is Ok,
{
    if environment.is_gitlab_ci() && matches!(gha_pref, CacheTrinary::Enabled) {
        proof {
            reveal_strlit("the --use-gha-cache flag should not be applied in GitLab CI");
        }
        return Err(
            Error::Config(lit_bytes("the --use-gha-cache flag should not be applied in GitLab CI")),
        );
    }
    if environment.is_gitlab_ci() && !matches!(flakehub_pref, CacheTrinary::Enabled) {
        proof {
            reveal_strlit("you must set --use-flakehub in GitLab CI");
        }
        return Err(Error::Config(lit_bytes("you must set --use-flakehub in GitLab CI")));
    }
    Ok(())
}

/// Whether the backend cache is used: asked for outright, or left to
/// default while the remote cache is off.
pub fn should_enable_gha_cache(gha_pref: CacheTrinary, flakehub_enabled: bool) -> (r: bool)
    ensures
        r == (gha_pref is Enabled || (gha_pref is NoPreference && !flakehub_enabled)),
{
    matches!(gha_pref, CacheTrinary::Enabled) || (matches!(gha_pref, CacheTrinary::NoPreference)
        && !flakehub_enabled)
}

/// Where the remote cache's credentials come from.
#[derive(Debug, Clone)]
pub enum FlakeHubAuthSource {
    /// The local build daemon manages the credentials file.
    DeterminateNixd,
    /// A caller-supplied credentials file, by path.
    Netrc(Vec<u8>),
}

impl FlakeHubAuthSource {
    /// The path of the credentials file relied on.
    pub fn as_path_buf(&self) -> (r: Vec<u8>)
        ensures
            match self {
                FlakeHubAuthSource::Netrc(p) => r@ == p@,
                FlakeHubAuthSource::DeterminateNixd => r@ == ascii_of("/nix/var/determinate/netrc"),
            },
    {
        match self {
            FlakeHubAuthSource::Netrc(p) => crate::upload::copy_bytes(p),
            FlakeHubAuthSource::DeterminateNixd => {
                proof {
                    reveal_strlit("/nix/var/determinate/netrc");
                }
                lit_bytes("/nix/var/determinate/netrc")
            },
        }
    }
}

/// What startup decided about the remote cache.
pub enum AuthSelection {
    /// Asked off outright.
    Disabled,
    /// Nothing asked for it and nothing is there to feed it.
    NotConfigured,
    /// Use it, with these credentials.
    Use(FlakeHubAuthSource),
    /// Asked on, but no credentials file exists and the build daemon is
    /// missing: startup must fail.
    MissingNetrc,
}

/// Picks the remote cache's credential source: an explicit refusal wins;
/// the build daemon's file is used whenever the daemon is there (any
/// user-supplied path is then ignored); a user-supplied path is used when
/// its file exists; asking for the cache with nothing to feed it is an
/// error.
pub fn select_flakehub_auth(
    pref: CacheTrinary,
    user_netrc: Option<Vec<u8>>,
    netrc_exists: bool,
    dnixd: Dnixd,
) -> (r: AuthSelection)
    ensures
        pref is Disabled ==> r is Disabled,
        pref is NoPreference && user_netrc is None && dnixd is Missing ==> r is NotConfigured,
        !(pref is Disabled) && dnixd is Available ==> (r matches AuthSelection::Use(s)
            && s is DeterminateNixd),
        user_netrc matches Some(p) ==> (!(pref is Disabled) && dnixd is Missing) ==> (if netrc_exists {
            r matches AuthSelection::Use(s) && (s matches FlakeHubAuthSource::Netrc(q) && q@ == p@)
        } else {
            r is NotConfigured
        }),
        pref is Enabled && user_netrc is None && dnixd is Missing ==> r is MissingNetrc,
{
    match pref {
        CacheTrinary::Disabled => AuthSelection::Disabled,
        _ => {
            match (user_netrc, dnixd) {
                (None, Dnixd::Missing) => {
                    if matches!(pref, CacheTrinary::NoPreference) {
                        AuthSelection::NotConfigured
                    } else {
                        AuthSelection::MissingNetrc
                    }
                },
                (_, Dnixd::Available) => AuthSelection::Use(FlakeHubAuthSource::DeterminateNixd),
                (Some(path), Dnixd::Missing) => {
                    if netrc_exists {
                        AuthSelection::Use(FlakeHubAuthSource::Netrc(path))
                    } else {
                        AuthSelection::NotConfigured
                    }
                },
            }
        },
    }
}

} // verus!
