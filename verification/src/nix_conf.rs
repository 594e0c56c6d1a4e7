//! The lines the daemon appends to the client's configuration file: the
//! fallback switch, the local substituter, and the remote cache's
//! substituter and credentials file.

use vstd::prelude::*;

use crate::bytesutil::{ascii_of, lit_bytes};

verus! {

/// The line that lets builds fall back to building when a substituter
/// fails.
pub fn fallback_line() -> (r: Vec<u8>)
    ensures
        r@ == ascii_of("fallback = true\n"),
{
    proof {
        reveal_strlit("fallback = true\n");
    }
    lit_bytes("fallback = true\n")
}

/// The substituter line pointing builds at this daemon:
/// `extra-substituters = http://{listen}?trusted=1&compression=zstd&parallel-compression=true&priority=1`.
pub open spec fn spec_gha_substituter_line(listen: Seq<u8>) -> Seq<u8> {
    ascii_of("extra-substituters = http://") + listen + ascii_of(
        "?trusted=1&compression=zstd&parallel-compression=true&priority=1\n",
    )
}

/// Writes the substituter line for the daemon's listen address.
pub fn gha_substituter_line(listen: &[u8]) -> (r: Vec<u8>)
    ensures
        r@ == spec_gha_substituter_line(listen@),
{
    proof {
        reveal_strlit("extra-substituters = http://");
        reveal_strlit("?trusted=1&compression=zstd&parallel-compression=true&priority=1\n");
    }
    let mut r = lit_bytes("extra-substituters = http://");
    let mut l = vstd::slice::slice_to_vec(listen);
    r.append(&mut l);
    let mut tail = lit_bytes("?trusted=1&compression=zstd&parallel-compression=true&priority=1\n");
    r.append(&mut tail);
    proof {
        assert(r@ =~= spec_gha_substituter_line(listen@));
    }
    r
}

/// The remote cache's substituter and credentials lines:
/// `extra-substituters = {server}?trusted=1` and `netrc-file = {path}`.
pub open spec fn spec_flakehub_conf_lines(cache_server: Seq<u8>, netrc_path: Seq<u8>) -> Seq<u8> {
    ascii_of("extra-substituters = ") + cache_server + ascii_of("?trusted=1\nnetrc-file = ")
        + netrc_path + seq![0x0au8]
}

/// Writes the remote cache's configuration lines.
pub fn flakehub_conf_lines(cache_server: &[u8], netrc_path: &[u8]) -> (r: Vec<u8>)
    ensures
        r@ == spec_flakehub_conf_lines(cache_server@, netrc_path@),
{
    proof {
        reveal_strlit("extra-substituters = ");
        reveal_strlit("?trusted=1\nnetrc-file = ");
    }
    let mut r = lit_bytes("extra-substituters = ");
    let mut s = vstd::slice::slice_to_vec(cache_server);
    r.append(&mut s);
    let mut mid = lit_bytes("?trusted=1\nnetrc-file = ");
    r.append(&mut mid);
    let mut p = vstd::slice::slice_to_vec(netrc_path);
    r.append(&mut p);
    r.push(0x0a);
    proof {
        assert(r@ =~= spec_flakehub_conf_lines(cache_server@, netrc_path@));
    }
    r
}

/// The configuration written for the legacy post-build hook:
/// `fallback = true` and the hook's path.
pub open spec fn spec_post_build_hook_lines(script_path: Seq<u8>) -> Seq<u8> {
    ascii_of("fallback = true\npost-build-hook = ") + script_path + seq![0x0au8]
}

/// Writes the post-build hook's configuration lines.
pub fn post_build_hook_lines(script_path: &[u8]) -> (r: Vec<u8>)
    ensures
        r@ == spec_post_build_hook_lines(script_path@),
{
    proof {
        reveal_strlit("fallback = true\npost-build-hook = ");
    }
    let mut r = lit_bytes("fallback = true\npost-build-hook = ");
    let mut p = vstd::slice::slice_to_vec(script_path);
    r.append(&mut p);
    r.push(0x0a);
    proof {
        assert(r@ =~= spec_post_build_hook_lines(script_path@));
    }
    r
}

} // verus!
