//! The build-event subscription's decisions: which frames of the build
//! daemon's event stream carry a built-path event, and the post-build
//! hook script written for builds without the daemon.

use vstd::prelude::*;

use crate::bytesutil::{ascii_of, lit_bytes, slice_starts_with, starts_with};

verus! {

/// One completed build: its derivation and the paths it produced.
#[derive(Debug)]
pub struct BuiltPathResponseEventV1 {
    pub drv: String,
    pub outputs: Vec<String>,
}

/// Whether a payload parses as a built-path event — a JSON document with
/// a string `drv` and an array of string `outputs` — and its two fields.
/// A function of the bytes alone.
pub uninterp spec fn built_path_event_of(payload: Seq<u8>) -> Option<(Seq<char>, Seq<Seq<char>>)>;

/// Relies on serde_json (`from_slice` to a `Value`, `Value::get`,
/// `Value::as_str`, `Value::as_array`): decodes a built-path event's
/// derivation and output paths out of a JSON payload.
#[verifier::external_body]
fn parse_built_path_event(payload: &[u8]) -> (r: Option<BuiltPathResponseEventV1>)
    ensures
        match r {
            Some(ev) => built_path_event_of(payload@) == Some(
                (ev.drv@, ev.outputs@.map_values(|s: String| s@)),
            ),
            None => built_path_event_of(payload@) is None,
        },
{
    let v: serde_json::Value = serde_json::from_slice(payload).ok()?;
    let drv = v.get("drv")?.as_str()?.to_owned();
    let outputs = v
        .get("outputs")?
        .as_array()?
        .iter()
        .map(|o| o.as_str().map(|s| s.to_owned()))
        .collect::<Option<Vec<String>>>()?;
    Some(BuiltPathResponseEventV1 { drv, outputs })
}

/// What the subscriber does with one frame of the event stream.
pub enum FrameAction {
    /// Not a data frame: passed over without note.
    Ignored,
    /// A data frame whose payload is no built-path event: logged and
    /// skipped; the stream goes on.
    Malformed,
    /// A built-path event: its outputs go to the upload queue.
    Enqueue(BuiltPathResponseEventV1),
}

/// Classifies one frame: only frames opening with `data: ` carry events,
/// and a data frame's payload must decode as a built-path event.
pub fn classify_event_frame(frame: &[u8]) -> (r: FrameAction)
    ensures
        !starts_with(frame@, ascii_of("data: ")) ==> r is Ignored,
        starts_with(frame@, ascii_of("data: ")) ==> (match built_path_event_of(frame@.skip(6)) {
            Some(ev) => r matches FrameAction::Enqueue(e) && e.drv@ == ev.0 && e.outputs@.map_values(
                |s: String| s@,
            ) == ev.1,
            None => r is Malformed,
        }),
{
    proof {
        reveal_strlit("data: ");
    }
    let prefix = lit_bytes("data: ");
    if !slice_starts_with(frame, prefix.as_slice()) {
        return FrameAction::Ignored;
    }
    let payload = vstd::slice::slice_subrange(frame, 6, frame.len());
    proof {
        assert(payload@ =~= frame@.skip(6));
    }
    match parse_built_path_event(payload) {
        Some(ev) => FrameAction::Enqueue(ev),
        None => FrameAction::Malformed,
    }
}

/// An ASCII whitespace byte, as the hook's path list separates on.
pub open spec fn is_ws(b: u8) -> bool {
    b == 0x20u8 || b == 0x09u8 || b == 0x0au8 || b == 0x0du8
}

/// The position of the first whitespace byte; the length if there is
/// none.
pub open spec fn find_ws(s: Seq<u8>) -> int
    decreases s.len(),
{
    if s.len() == 0 {
        0
    } else if is_ws(s[0]) {
        0
    } else {
        1 + find_ws(s.drop_first())
    }
}

/// The whitespace-separated words of a byte string, in order, empty runs
/// dropped: how the hook reads the built paths out of its environment.
pub open spec fn spec_split_ws(s: Seq<u8>) -> Seq<Seq<u8>>
    decreases s.len(),
{
    if s.len() == 0 {
        Seq::empty()
    } else if is_ws(s[0]) {
        spec_split_ws(s.drop_first())
    } else {
        let k = find_ws(s);
        if 1 <= k <= s.len() {
            seq![s.take(k)] + spec_split_ws(s.skip(k))
        } else {
            seq![s]
        }
    }
}

/// The first whitespace is where the first whitespace stands.
proof fn lemma_find_ws_at(t: Seq<u8>, m: int)
    requires
        0 <= m <= t.len(),
        forall|i: int| 0 <= i < m ==> !is_ws(#[trigger] t[i]),
        m == t.len() || is_ws(t[m]),
    ensures
        find_ws(t) == m,
    decreases m,
{
    if m == 0 {
    } else {
        assert(!is_ws(t[0]));
        lemma_find_ws_at(t.drop_first(), m - 1);
    }
}

/// Splits the tail of a path list, from `pos`, on whitespace.
fn split_ws_from(s: &[u8], pos: usize) -> (r: Vec<Vec<u8>>)
    requires
        pos <= s@.len(),
    ensures
        r@.map_values(|v: Vec<u8>| v@) == spec_split_ws(s@.skip(pos as int)),
    decreases s@.len() - pos,
{
    let ghost t = s@.skip(pos as int);
    let n: usize = s.len();
    if pos == n {
        let r: Vec<Vec<u8>> = Vec::new();
        proof {
            assert(t =~= Seq::<u8>::empty());
            assert(r@.map_values(|v: Vec<u8>| v@) =~= spec_split_ws(t));
        }
        return r;
    }
    let b = s[pos];
    if b == 0x20 || b == 0x09 || b == 0x0a || b == 0x0d {
        let r = split_ws_from(s, pos + 1);
        proof {
            assert(t[0] == s@[pos as int]);
            assert(t.drop_first() =~= s@.skip(pos + 1));
        }
        return r;
    }
    let mut j: usize = pos;
    while j < n && s[j] != 0x20 && s[j] != 0x09 && s[j] != 0x0a && s[j] != 0x0d
        invariant
            pos <= j <= n,
            n == s@.len(),
            forall|k: int| pos <= k < j ==> !is_ws(#[trigger] s@[k]),
        decreases n - j,
    {
        j = j + 1;
    }
    proof {
        assert forall|i: int| 0 <= i < j - pos implies !is_ws(#[trigger] t[i]) by {
            assert(t[i] == s@[pos + i]);
        }
        if j < n {
            assert(t[j - pos] == s@[j as int]);
        }
        lemma_find_ws_at(t, j - pos);
    }
    let piece = vstd::slice::slice_to_vec(vstd::slice::slice_subrange(s, pos, j));
    let rest = split_ws_from(s, j);
    let mut r: Vec<Vec<u8>> = Vec::new();
    r.push(piece);
    let mut rest = rest;
    r.append(&mut rest);
    proof {
        let k = find_ws(t);
        assert(k == j - pos);
        assert(1 <= k <= t.len());
        assert(t.take(k) =~= s@.subrange(pos as int, j as int));
        assert(t.skip(k) =~= s@.skip(j as int));
        assert(r@.map_values(|v: Vec<u8>| v@) =~= seq![t.take(k)] + spec_split_ws(t.skip(k)));
    }
    r
}

/// Splits the hook's path list on whitespace into the built paths.
pub fn split_out_paths(s: &[u8]) -> (r: Vec<Vec<u8>>)
    ensures
        r@.map_values(|v: Vec<u8>| v@) == spec_split_ws(s@),
{
    proof {
        assert(s@.skip(0) =~= s@);
    }
    split_ws_from(s, 0)
}

/// The post-build hook script pointed at this server: it reports built
/// paths back and swallows its own failures so that it never fails the
/// build.
pub open spec fn spec_post_build_hook_script(exe: Seq<u8>, listen: Seq<u8>) -> Seq<u8> {
    ascii_of("#! /bin/sh\nRUST_LOG=trace RUST_BACKTRACE=full ") + exe + ascii_of(" --server ")
        + listen + ascii_of(" || :\n")
}

/// Writes the post-build hook script for this executable and address.
pub fn post_build_hook_script(exe: &[u8], listen: &[u8]) -> (r: Vec<u8>)
    ensures
        r@ == spec_post_build_hook_script(exe@, listen@),
{
    proof {
        reveal_strlit("#! /bin/sh\nRUST_LOG=trace RUST_BACKTRACE=full ");
        reveal_strlit(" --server ");
        reveal_strlit(" || :\n");
    }
    let mut r = lit_bytes("#! /bin/sh\nRUST_LOG=trace RUST_BACKTRACE=full ");
    let mut e = vstd::slice::slice_to_vec(exe);
    r.append(&mut e);
    let mut mid = lit_bytes(" --server ");
    r.append(&mut mid);
    let mut l = vstd::slice::slice_to_vec(listen);
    r.append(&mut l);
    let mut tail = lit_bytes(" || :\n");
    r.append(&mut tail);
    proof {
        assert(r@ =~= spec_post_build_hook_script(exe@, listen@));
    }
    r
}

} // verus!
