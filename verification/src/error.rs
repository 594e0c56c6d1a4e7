//! The daemon's error surface, and the HTTP status each error shows to
//! the client.

use vstd::prelude::*;

use crate::backend;

verus! {

/// Everything the daemon's HTTP surface can fail with.
#[derive(Debug)]
pub enum Error {
    /// A backend call failed.
    Api(backend::Error),
    /// The resource does not exist here and no upstream is configured.
    NotFound,
    /// The request named no resource this surface serves.
    BadRequest,
    /// A local read or write failed; the bytes name the operation.
    Io(Vec<u8>),
    /// The request needs the backend cache, which is not enabled.
    GHADisabled,
    /// The remote cache's name could not be fetched: the status and body.
    GetCacheName(u16, Vec<u8>),
    /// The credentials file did not parse.
    Netrc,
    /// No credentials were found for this host; the bytes name it.
    MissingCreds(Vec<u8>),
    /// A URL had no usable host; the bytes hold it.
    BadUrl(Vec<u8>),
    /// The startup configuration is unusable; the bytes say why.
    Config(Vec<u8>),
    /// An internal invariant failed; the bytes say which.
    Internal(Vec<u8>),
}

/// The HTTP status shown for each error kind.
pub open spec fn spec_status_code(e: Error) -> u16 {
    match e {
        Error::Api(backend::Error::ApiError { status, .. }) => if status == 429 {
            429
        } else {
            418
        },
        Error::Api(_) => 418,
        Error::NotFound => 404,
        Error::BadRequest => 400,
        _ => 500,
    }
}

impl Error {
    /// The HTTP status shown for this error: throttling passes through
    /// as 429 so orchestration can back off; any other backend error
    /// maps to 418, which the client surfaces without retrying; the
    /// client-facing kinds keep their codes; the rest are 500.
    pub fn status_code(&self) -> (r: u16)
        ensures
            r == spec_status_code(*self),
    {
        match self {
            Error::Api(backend::Error::ApiError { status, info: _ }) => {
                if *status == 429 {
                    429
                } else {
                    418
                }
            },
            Error::Api(_) => 418,
            Error::NotFound => 404,
            Error::BadRequest => 400,
            _ => 500,
        }
    }
}

} // verus!
