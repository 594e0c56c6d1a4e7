//! A local binary-cache daemon core: the verified logic of a service that
//! bridges a Nix client to a GitHub-Actions-style remote cache backend.
//!
//! The crate holds the protocol and decision logic: chunk planning for
//! multipart uploads, the reservation retry discipline, the circuit breaker,
//! the negative cache, upload-queue deduplication, the narinfo text format,
//! and the request-routing decisions of the binary-cache HTTP surface.
//! The surrounding I/O (HTTP, sockets, files) lives outside the library and
//! drives these functions.

pub mod bytesutil;
pub mod numeric;
pub mod circuit_breaker;
pub mod telemetry;
pub mod byteset;
pub mod negcache;
pub mod version;
pub mod backend;
pub mod upload;
pub mod api;
pub mod narinfo;
pub mod queue;
pub mod pipeline;
pub mod error;
pub mod binary_cache;
pub mod workflow;
pub mod env;
pub mod credentials;
pub mod github;
pub mod pbh;
pub mod nix_conf;
