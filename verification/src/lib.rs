//! A verified library for working with shared photo albums served by a
//! partition-sharded HTTP/JSON service.
//!
//! The library covers the computational core of the fetch pipeline: deriving
//! the sharded base URL from a share token, deciding on the service's custom
//! relocation signal, classifying errors and computing retry backoff delays,
//! tolerant decoding and validation of the two endpoint responses, merging
//! checksum-to-URL results into photo derivatives, selecting the best
//! downloadable derivative per photo, detecting content types from magic
//! bytes, and naming downloaded files. Every function carries a contract
//! checked by Verus.
//!
//! Network transport, sleeps, and file persistence are left to the caller:
//! the caller performs each request, converts the parsed JSON into the
//! [`json::JsonValue`] model, and lets the library decide what the answer
//! means.

pub mod strutil;

pub mod base_url;

pub mod json;

pub mod models;

pub mod api;

pub mod retry;

pub mod redirect;

pub mod enrich;

pub mod utils;
