//! Verified core of an HTTP byte-range serving engine.
//!
//! Given an optional `Range` request header and the byte size of a seekable
//! resource, this library parses the header, resolves the concrete inclusive
//! byte window to serve, plans the bounded-size chunks that cover the window,
//! and assembles the response status and header values. All of that logic is
//! verified; the surrounding I/O (opening files, seeking, reading, and the
//! HTTP transport) lives outside the library and drives it with plain values.

use vstd::prelude::*;

pub mod decimal;
pub mod error;
pub mod laws;
pub mod parse;
pub mod resolve;
pub mod response;
pub mod stream;

verus! {

/// Largest number of bytes a single streamed chunk may carry.
pub const MAX_CHUNK_SIZE: u64 = 16384;

} // verus!
