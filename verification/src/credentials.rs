//! Credentials: the backend cache's access data, and the lookup of the
//! remote cache's entry in a parsed credentials file.

use vstd::prelude::*;

use crate::bytesutil::ascii_of;
use crate::bytesutil::lit_bytes;
use crate::error::Error;

verus! {

/// Access data for the backend cache, as the environment supplies it.
#[derive(Clone, Debug)]
pub struct Credentials {
    /// The base URL of the v1 cache.
    pub cache_url: String,
    /// The base URL of the v2 cache service.
    pub results_url: String,
    /// The bearer token.
    pub runtime_token: String,
    /// Nonempty when the v2 cache service is to be used.
    pub service_v2: String,
}

/// One machine entry of a credentials file.
pub struct NetrcMachine {
    pub name: Option<String>,
    pub login: Option<String>,
    pub password: Option<String>,
}

/// The index of the first entry for `host`; the length if there is none.
pub open spec fn first_machine_for(machines: Seq<NetrcMachine>, host: Seq<char>) -> int
    decreases machines.len(),
{
    if machines.len() == 0 {
        0
    } else if machines[0].name matches Some(n) && n@ == host {
        0
    } else {
        1 + first_machine_for(machines.drop_first(), host)
    }
}

proof fn lemma_first_machine_at(machines: Seq<NetrcMachine>, host: Seq<char>, m: int)
    requires
        0 <= m <= machines.len(),
        forall|i: int|
            0 <= i < m ==> !((#[trigger] machines[i]).name matches Some(n) && n@ == host),
        m == machines.len() || (machines[m].name matches Some(n) && n@ == host),
    ensures
        first_machine_for(machines, host) == m,
    decreases m,
{
    if m == 0 {
    } else {
        assert(!(machines[0].name matches Some(n) && n@ == host));
        lemma_first_machine_at(machines.drop_first(), host, m - 1);
    }
}

/// Looks up the credentials for a host in a parsed credentials file: the
/// first entry named for the host decides; a missing entry, a missing
/// login and a missing password are each their own refusal.
pub fn extract_netrc_credentials(machines: Vec<NetrcMachine>, host: &String) -> (r: Result<
    (String, String),
    Error,
>)
    ensures
        ({
            let ms = machines@;
            let f = first_machine_for(ms, host@);
            if f >= ms.len() {
                r matches Err(e) && e is MissingCreds
            } else {
                match (ms[f].login, ms[f].password) {
                    (Option::None, _) => r matches Err(e) && (e matches Error::Config(m) && m@
                        == ascii_of("netrc file does not contain a login")),
                    (Option::Some(_), Option::None) => r matches Err(e) && (e matches
                        Error::Config(m) && m@ == ascii_of(
                        "netrc file does not contain a password",
                    )),
                    (Option::Some(l), Option::Some(p)) => r matches Ok(lp) && lp.0@ == l@ && lp.1@
                        == p@,
                }
            }
        }),
{
    let ghost ms = machines@;
    let mut rest = machines;
    let total: usize = rest.len();
    let ghost n = ms.len() as int;
    let mut i: usize = 0;
    while rest.len() > 0
        invariant
            ms == machines@,
            n == ms.len(),
            n == total,
            0 <= i <= n,
            rest@.len() == n - i,
            forall|j: int| 0 <= j < rest@.len() ==> rest@[j] == ms[i + j],
            forall|j: int| 0 <= j < i ==> !((#[trigger] ms[j]).name matches Some(nm) && nm@ == host@),
        decreases rest@.len(),
    {
        let machine = rest.remove(0);
        proof {
            assert(machine == ms[i as int]);
        }
        let matched = match &machine.name {
            Some(n) => *n == *host,
            None => false,
        };
        if matched {
            proof {
                lemma_first_machine_at(ms, host@, i as int);
            }
            let login = match machine.login {
                Some(l) => l,
                None => {
                    proof {
                        reveal_strlit("netrc file does not contain a login");
                    }
                    return Err(Error::Config(lit_bytes("netrc file does not contain a login")));
                },
            };
            let password = match machine.password {
                Some(p) => p,
                None => {
                    proof {
                        reveal_strlit("netrc file does not contain a password");
                    }
                    return Err(Error::Config(lit_bytes("netrc file does not contain a password")));
                },
            };
            return Ok((login, password));
        }
        i = i + 1;
    }
    proof {
        lemma_first_machine_at(ms, host@, n);
    }
    let host_bytes = host.as_str().as_bytes();
    Err(Error::MissingCreds(vstd::slice::slice_to_vec(host_bytes)))
}

/// The entry appended to the credentials file for the cache host:
/// `\nmachine {host} login {login} password {password}\n\n`.
pub open spec fn spec_netrc_append_entry(host: Seq<u8>, login: Seq<u8>, password: Seq<u8>) -> Seq<
    u8,
> {
    ascii_of("\nmachine ") + host + ascii_of(" login ") + login + ascii_of(" password ") + password
        + ascii_of("\n\n")
}

/// Writes the credentials-file entry for the cache host.
pub fn netrc_append_entry(host: &[u8], login: &[u8], password: &[u8]) -> (r: Vec<u8>)
    ensures
        r@ == spec_netrc_append_entry(host@, login@, password@),
{
    proof {
        reveal_strlit("\nmachine ");
        reveal_strlit(" login ");
        reveal_strlit(" password ");
        reveal_strlit("\n\n");
    }
    let mut r = lit_bytes("\nmachine ");
    let mut h = vstd::slice::slice_to_vec(host);
    r.append(&mut h);
    let mut l1 = lit_bytes(" login ");
    r.append(&mut l1);
    let mut l = vstd::slice::slice_to_vec(login);
    r.append(&mut l);
    let mut p1 = lit_bytes(" password ");
    r.append(&mut p1);
    let mut p = vstd::slice::slice_to_vec(password);
    r.append(&mut p);
    let mut tail = lit_bytes("\n\n");
    r.append(&mut tail);
    proof {
        assert(r@ =~= spec_netrc_append_entry(host@, login@, password@));
    }
    r
}

/// The remote cache's name for a project:
/// `{organization-uuid}:{project-uuid}`.
pub open spec fn spec_cache_name(org: Seq<u8>, project: Seq<u8>) -> Seq<u8> {
    org + seq![0x3au8] + project
}

/// Writes the remote cache's name for a project.
pub fn cache_name(org: &[u8], project: &[u8]) -> (r: Vec<u8>)
    ensures
        r@ == spec_cache_name(org@, project@),
{
    let mut r = vstd::slice::slice_to_vec(org);
    r.push(0x3a);
    let mut p = vstd::slice::slice_to_vec(project);
    r.append(&mut p);
    proof {
        assert(r@ =~= spec_cache_name(org@, project@));
    }
    r
}

/// Rewrites a credentials file for a fresh token: every occurrence of the
/// old token becomes the new one, and nothing else changes.
pub fn rewrite_netrc_token(contents: &[u8], old_token: &[u8], new_token: &[u8]) -> (r: Vec<u8>)
    requires
        old_token@.len() > 0,
    ensures
        r@ == crate::bytesutil::spec_replace_all(contents@, old_token@, new_token@),
{
    crate::bytesutil::replace_all(contents, old_token, new_token)
}

/// The URL a fresh CI token is requested from: the runtime URL with the
/// remote cache's audience appended.
pub open spec fn spec_token_request_url(runtime_url: Seq<u8>) -> Seq<u8> {
    runtime_url + ascii_of("&audience=api.flakehub.com")
}

/// Writes the token-request URL.
pub fn token_request_url(runtime_url: &[u8]) -> (r: Vec<u8>)
    ensures
        r@ == spec_token_request_url(runtime_url@),
{
    proof {
        reveal_strlit("&audience=api.flakehub.com");
    }
    let mut r = vstd::slice::slice_to_vec(runtime_url);
    let mut tail = lit_bytes("&audience=api.flakehub.com");
    r.append(&mut tail);
    r
}

/// Is any entry of the file named for this host?
pub fn has_machine_for(machines: &Vec<NetrcMachine>, host: &String) -> (r: bool)
    ensures
        r == exists|i: int|
            0 <= i < machines@.len() && ((#[trigger] machines@[i]).name matches Some(n) && n@
                == host@),
{
    let n: usize = machines.len();
    let mut i: usize = 0;
    while i < n
        invariant
            n == machines@.len(),
            0 <= i <= n,
            forall|j: int|
                0 <= j < i ==> !((#[trigger] machines@[j]).name matches Some(nm) && nm@ == host@),
        decreases n - i,
    {
        let matched = match &machines[i].name {
            Some(nm) => *nm == *host,
            None => false,
        };
        if matched {
            return true;
        }
        i = i + 1;
    }
    false
}

} // verus!
