//! The response assembler: status code and header values derived from a
//! resolved window and the caller-supplied content type.
//!
//! Ambient headers (server identification, timestamps) are the caller's to
//! supply; nothing here reads a clock or sniffs content.

use vstd::prelude::*;
use vstd::string::StringExecFns;
use crate::decimal::{spec_digits_of, u64_to_string};
use crate::resolve::{spec_status, ResolvedRange};

verus! {

/// The `Content-Range` header value for a served window:
/// `bytes {start}-{end}/{total_size}`.
pub open spec fn spec_content_range_value(start: u64, end: u64, total_size: u64) -> Seq<char> {
    "bytes "@ + spec_digits_of(start as nat) + "-"@ + spec_digits_of(end as nat) + "/"@
        + spec_digits_of(total_size as nat)
}

/// The `Content-Range` header value owed on a range-not-satisfiable
/// rejection: `bytes */{total_size}`.
pub open spec fn spec_unsatisfiable_content_range_value(total_size: u64) -> Seq<char> {
    "bytes */"@ + spec_digits_of(total_size as nat)
}

/// Formats the `Content-Range` value for a served window.
pub fn content_range_value(start: u64, end: u64, total_size: u64) -> (r: String)
    ensures
        r@ == spec_content_range_value(start, end, total_size),
{
    let mut r = String::from_str("bytes ");
    let start_digits = u64_to_string(start);
    r.append(start_digits.as_str());
    r.append("-");
    let end_digits = u64_to_string(end);
    r.append(end_digits.as_str());
    r.append("/");
    let total_digits = u64_to_string(total_size);
    r.append(total_digits.as_str());
    proof {
        assert(r@ =~= spec_content_range_value(start, end, total_size));
    }
    r
}

/// Formats the `Content-Range` value for a range-not-satisfiable rejection.
pub fn unsatisfiable_content_range_value(total_size: u64) -> (r: String)
    ensures
        r@ == spec_unsatisfiable_content_range_value(total_size),
{
    let mut r = String::from_str("bytes */");
    let total_digits = u64_to_string(total_size);
    r.append(total_digits.as_str());
    proof {
        assert(r@ =~= spec_unsatisfiable_content_range_value(total_size));
    }
    r
}

/// Status and header values of one response, computed once from the resolved
/// window and never mutated afterwards.
pub struct ResponseMetadata {
    /// 206 when the request carried a satisfiable range header, 200 otherwise.
    pub status: u16,
    /// The caller-supplied content type, unmodified.
    pub content_type: String,
    /// Always `bytes`: range requests are supported whether or not this
    /// request used one.
    pub accept_ranges: String,
    /// `bytes {start}-{end}/{total_size}` for the window actually served.
    pub content_range: String,
    /// Number of body bytes, the window's byte count.
    pub content_length: u64,
}

impl ResponseMetadata {
    /// What assembly promises: each field derived from the window, the header
    /// presence flag, and the caller's content type.
    pub open spec fn derived_from(
        self,
        window: ResolvedRange,
        had_header: bool,
        content_type: Seq<char>,
    ) -> bool {
        &&& self.status == spec_status(had_header)
        &&& self.content_type@ == content_type
        &&& self.accept_ranges@ == "bytes"@
        &&& self.content_range@ == spec_content_range_value(
            window.start,
            window.end,
            window.total_size,
        )
        &&& self.content_length == window.spec_byte_count()
    }

    /// Assembles the response metadata for a resolved window.
    pub fn assemble(window: &ResolvedRange, had_header: bool, content_type: String) -> (r:
        ResponseMetadata)
        requires
            window.wf(),
        ensures
            r.derived_from(*window, had_header, content_type@),
    {
        ResponseMetadata {
            status: if had_header { 206 } else { 200 },
            content_type,
            accept_ranges: String::from_str("bytes"),
            content_range: content_range_value(window.start, window.end, window.total_size),
            content_length: window.byte_count(),
        }
    }

    /// The `Content-Length` header value, the byte count in decimal.
    pub fn content_length_value(&self) -> (r: String)
        ensures
            r@ == spec_digits_of(self.content_length as nat),
    {
        u64_to_string(self.content_length)
    }
}

} // verus!
