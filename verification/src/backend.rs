//! The backend client's data model and response handling: allocations,
//! errors, and the exact reading the daemon gives to each backend reply.
//!
//! The HTTP calls themselves are made by the process around the library;
//! it hands each reply's status and body here, and these functions say,
//! exactly, what the reply means.

use vstd::prelude::*;

use crate::bytesutil::{ascii_of, contains_subseq, lit_bytes, slice_contains};

verus! {

/// The ID a v1 reservation returns.
#[derive(Debug)]
pub struct CacheId(pub i64);

/// The signed blob URL and key a v2 reservation returns.
#[derive(Debug)]
pub struct SignedUrl {
    pub signed_url: Vec<u8>,
    pub key: Vec<u8>,
}

/// A reservation for one in-progress upload, owned by exactly one upload.
#[derive(Debug)]
pub enum FileAllocation {
    V1(CacheId),
    V2(SignedUrl),
}

/// A structured backend error body: `{"message": ...}`.
#[derive(Debug)]
pub struct StructuredApiError {
    pub message: Vec<u8>,
}

/// What a non-success reply carried: its decoded message, or the raw body
/// where it did not decode.
#[derive(Debug)]
pub enum ApiErrorInfo {
    Unstructured(Vec<u8>),
    Structured(StructuredApiError),
}

/// Everything that can go wrong talking to the backend.
#[derive(Debug)]
pub enum Error {
    /// The client could not be built.
    InitError(Vec<u8>),
    /// The issuer refused to contact the backend: the breaker is tripped.
    CircuitBreakerTripped,
    /// The transport failed before any status was seen.
    RequestError,
    /// A success status whose body did not parse.
    DecodeError { status: u16, bytes: Vec<u8> },
    /// A non-success status, with what the body said.
    ApiError { status: u16, info: ApiErrorInfo },
    /// A typed call answered `ok = false` where `true` was required.
    ApiErrorNotOk,
    /// The typed RPC transport failed.
    TwirpError,
    /// A local read failed; the bytes name the operation.
    IoError(Vec<u8>),
    /// Five reservation attempts in a row hit an existing key.
    TooManyCollisions,
}

/// An HTTP status in the success range.
pub open spec fn is_success_status(status: u16) -> bool {
    200 <= status < 300
}

/// Whether a body parses as a JSON document carrying a string field
/// `message`, and that field's text. A function of the bytes alone.
pub uninterp spec fn json_message_of(body: Seq<u8>) -> Option<Seq<u8>>;

/// Relies on serde_json (`from_slice` to a `Value`, `Value::get`,
/// `Value::as_str`): extracts the string field `message` of a JSON body.
#[verifier::external_body]
fn json_message_field(body: &[u8]) -> (r: Option<Vec<u8>>)
    ensures
        match r {
            Some(m) => json_message_of(body@) == Some(m@),
            None => json_message_of(body@) is None,
        },
{
    serde_json::from_slice::<serde_json::Value>(body)
        .ok()
        .and_then(|v| v.get("message").and_then(|m| m.as_str().map(|s| s.as_bytes().to_vec())))
}

/// Whether a body parses as a JSON document carrying an integer field
/// `cacheId`, and that field's value. A function of the bytes alone.
pub uninterp spec fn json_cache_id_of(body: Seq<u8>) -> Option<i64>;

/// Relies on serde_json (`from_slice` to a `Value`, `Value::get`,
/// `Value::as_i64`): extracts the integer field `cacheId` of a JSON body.
#[verifier::external_body]
fn json_cache_id_field(body: &[u8]) -> (r: Option<i64>)
    ensures
        r == json_cache_id_of(body@),
{
    serde_json::from_slice::<serde_json::Value>(body)
        .ok()
        .and_then(|v| v.get("cacheId").and_then(|m| m.as_i64()))
}

/// Whether a body parses as a JSON document carrying a string field
/// `archiveLocation`, and that field's text. A function of the bytes alone.
pub uninterp spec fn json_archive_location_of(body: Seq<u8>) -> Option<Seq<u8>>;

/// Relies on serde_json (`from_slice` to a `Value`, `Value::get`,
/// `Value::as_str`): extracts the string field `archiveLocation` of a
/// JSON body.
#[verifier::external_body]
fn json_archive_location_field(body: &[u8]) -> (r: Option<Vec<u8>>)
    ensures
        match r {
            Some(u) => json_archive_location_of(body@) == Some(u@),
            None => json_archive_location_of(body@) is None,
        },
{
    serde_json::from_slice::<serde_json::Value>(body)
        .ok()
        .and_then(|v| {
            v.get("archiveLocation").and_then(|m| m.as_str().map(|s| s.as_bytes().to_vec()))
        })
}

/// The length of the byte-order mark a body starts with; zero when there
/// is none. A function of the bytes alone.
pub uninterp spec fn bom_len_of(body: Seq<u8>) -> nat;

/// The first bytes of the byte-order marks the detector knows.
pub open spec fn is_bom_lead_byte(b: u8) -> bool {
    b == 0x00 || b == 0x0e || b == 0x2b || b == 0x84 || b == 0xdd || b == 0xef || b == 0xf7
        || b == 0xfb || b == 0xfe || b == 0xff
}

/// Relies on unicode-bom's `Bom::from(&[u8])` and `Bom::len`: the length
/// of the byte-order mark the body starts with. Every mark the detector
/// knows is at most four bytes, never longer than the body itself, and a
/// body whose first byte opens no known mark has none.
#[verifier::external_body]
fn bom_len(body: &[u8]) -> (r: usize)
    ensures
        r as nat == bom_len_of(body@),
        r <= body@.len(),
        r <= 4,
        body@.len() >= 3 && body@[0] == 0xef && body@[1] == 0xbb && body@[2] == 0xbf ==> r == 3,
        body@.len() == 0 || !is_bom_lead_byte(body@[0]) ==> r == 0,
{
    unicode_bom::Bom::from(body).len()
}

/// The error body with its leading byte-order mark removed.
pub open spec fn spec_stripped_body(body: Seq<u8>) -> Seq<u8> {
    body.skip(bom_len_of(body) as int)
}

/// `e` is exactly the error the daemon reads out of a non-success reply
/// with this status and body: the body, less any byte-order mark, decoded
/// as a structured message when it is one, kept raw when it is not.
pub open spec fn is_backend_error_for(e: Error, status: u16, body: Seq<u8>) -> bool {
    match e {
        Error::ApiError { status: s, info } => {
            &&& s == status
            &&& match info {
                ApiErrorInfo::Structured(se) => json_message_of(spec_stripped_body(body))
                    == Some(se.message@),
                ApiErrorInfo::Unstructured(raw) => {
                    &&& json_message_of(spec_stripped_body(body)) is None
                    &&& raw@ == spec_stripped_body(body)
                },
            }
        },
        _ => false,
    }
}

/// Reads a non-success reply into the error it denotes.
pub fn handle_error(status: u16, body: Vec<u8>) -> (e: Error)
    ensures
        is_backend_error_for(e, status, body@),
{
    let bl = bom_len(body.as_slice());
    let stripped = vstd::slice::slice_to_vec(
        vstd::slice::slice_subrange(body.as_slice(), bl, body.len()),
    );
    proof {
        assert(stripped@ == spec_stripped_body(body@));
    }
    match json_message_field(stripped.as_slice()) {
        Some(message) => Error::ApiError {
            status,
            info: ApiErrorInfo::Structured(StructuredApiError { message }),
        },
        None => Error::ApiError { status, info: ApiErrorInfo::Unstructured(stripped) },
    }
}

/// Reads a reply where only success matters: `Ok` exactly on a success
/// status, the decoded error otherwise.
pub fn check_response(status: u16, body: Vec<u8>) -> (r: Result<(), Error>)
    ensures
        is_success_status(status) <==> r is Ok,
        r matches Err(e) ==> is_backend_error_for(e, status, body@),
{
    if 200 <= status && status < 300 {
        Ok(())
    } else {
        Err(handle_error(status, body))
    }
}

/// Reads the reply to a v1 reservation: the allocated cache ID on a
/// success body carrying one, a decode error on a success body without
/// one, the decoded error otherwise.
pub fn parse_reserve_response_v1(status: u16, body: Vec<u8>) -> (r: Result<CacheId, Error>)
    ensures
        is_success_status(status) ==> (match json_cache_id_of(body@) {
            Some(id) => r matches Ok(c) && c.0 == id,
            None => r matches Err(e) && (e matches Error::DecodeError { status: s, bytes }
                && s == status && bytes@ == body@),
        }),
        !is_success_status(status) ==> (r matches Err(e) && is_backend_error_for(e, status, body@)),
{
    if 200 <= status && status < 300 {
        match json_cache_id_field(body.as_slice()) {
            Some(id) => Ok(CacheId(id)),
            None => Err(Error::DecodeError { status, bytes: body }),
        }
    } else {
        Err(handle_error(status, body))
    }
}

/// Reads the reply to a v1 lookup: the archive location on a success body
/// carrying one, a miss on an empty 204 reply, a decode error on any other
/// success body, the decoded error otherwise.
pub fn parse_lookup_response_v1(status: u16, body: Vec<u8>) -> (r: Result<Option<Vec<u8>>, Error>)
    ensures
        is_success_status(status) ==> (match json_archive_location_of(body@) {
            Some(u) => r matches Ok(o) && (o matches Some(url) && url@ == u),
            None => if status == 204 {
                r matches Ok(o) && o is None
            } else {
                r matches Err(e) && (e matches Error::DecodeError { status: s, bytes }
                    && s == status && bytes@ == body@)
            },
        }),
        !is_success_status(status) ==> (r matches Err(e) && is_backend_error_for(e, status, body@)),
{
    if 200 <= status && status < 300 {
        match json_archive_location_field(body.as_slice()) {
            Some(url) => Ok(Some(url)),
            None => {
                if status == 204 {
                    Ok(None)
                } else {
                    Err(Error::DecodeError { status, bytes: body })
                }
            },
        }
    } else {
        Err(handle_error(status, body))
    }
}

/// Reads the reply to a v2 typed lookup: `ok = false` means a miss.
pub fn lookup_outcome_v2(ok: bool, signed_download_url: Vec<u8>) -> (r: Option<Vec<u8>>)
    ensures
        ok ==> (r matches Some(u) && u@ == signed_download_url@),
        !ok ==> r is None,
{
    if ok {
        Some(signed_download_url)
    } else {
        None
    }
}

/// Reads the reply to the v2 typed finalization, which must say `ok`.
pub fn finalize_outcome_v2(ok: bool, size: u64) -> (r: Result<u64, Error>)
    ensures
        ok ==> (r matches Ok(s) && s == size),
        !ok ==> (r matches Err(e) && e is ApiErrorNotOk),
{
    if ok {
        Ok(size)
    } else {
        Err(Error::ApiErrorNotOk)
    }
}

/// The collision message the backend sends when a key already exists.
pub open spec fn already_exists_text() -> Seq<u8> {
    ascii_of("Cache already exists")
}

/// Is `e` the structured collision error that reservation retries on:
/// an API error whose decoded message contains "Cache already exists"?
pub open spec fn is_retryable_collision(e: Error) -> bool {
    match e {
        Error::ApiError { status: _, info: ApiErrorInfo::Structured(se) } => contains_subseq(
            se.message@,
            already_exists_text(),
        ),
        _ => false,
    }
}

/// Decides whether a reservation error is the structured collision that
/// warrants another attempt under a fresh key.
pub fn is_collision_error(e: &Error) -> (r: bool)
    ensures
        r == is_retryable_collision(*e),
{
    proof {
        reveal_strlit("Cache already exists");
    }
    let needle = lit_bytes("Cache already exists");
    match e {
        Error::ApiError { status: _, info: ApiErrorInfo::Structured(se) } => slice_contains(
            se.message.as_slice(),
            needle.as_slice(),
        ),
        _ => false,
    }
}

} // verus!
