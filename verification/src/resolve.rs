//! The window resolver: from a structured range spec and the resource size to
//! the concrete inclusive byte window, or a satisfiability verdict.

use vstd::prelude::*;
use vstd::math::min;
use crate::error::RangeError;
use crate::parse::{parse_range, spec_parse_header, ByteRangeSpec};

verus! {

/// A concrete inclusive byte window of one resource, fixed once per request.
#[derive(Clone, Copy, Debug, PartialEq, Eq, Structural)]
pub struct ResolvedRange {
    /// Offset of the first byte to serve.
    pub start: u64,
    /// Offset of the last byte to serve (inclusive).
    pub end: u64,
    /// Byte size of the whole resource.
    pub total_size: u64,
}

impl ResolvedRange {
    /// Every resolved window selects at least one existing byte.
    pub open spec fn wf(self) -> bool {
        self.start <= self.end < self.total_size
    }

    /// How many bytes the window covers; positive for a well-formed window.
    pub open spec fn spec_byte_count(self) -> int {
        self.end - self.start + 1
    }

    /// Number of bytes the window covers.
    pub fn byte_count(&self) -> (r: u64)
        requires
            self.wf(),
        ensures
            r == self.spec_byte_count(),
    {
        self.end - self.start + 1
    }
}

/// The window a request denotes, before validation: rule order is no header,
/// explicit pair (end clamped to the resource), open end, then suffix.
pub open spec fn spec_requested_window(req: Option<ByteRangeSpec>, size: u64) -> (int, int) {
    match req {
        None => (0, size - 1),
        Some(ByteRangeSpec::Exact { start, end }) => (start as int, min(end as int, size - 1)),
        Some(ByteRangeSpec::StartFrom { start }) => (start as int, size - 1),
        Some(ByteRangeSpec::Suffix { len }) => (
            if len >= size { 0 } else { size - len },
            size - 1,
        ),
    }
}

/// What resolution returns: the clamped window when it is satisfiable —
/// the resource is non-empty, the start falls inside it, and the window is
/// non-empty — and `None` otherwise.
pub open spec fn spec_resolve(req: Option<ByteRangeSpec>, size: u64) -> Option<ResolvedRange> {
    if size == 0 {
        None
    } else {
        let (s0, e0) = spec_requested_window(req, size);
        if s0 < size && s0 <= e0 {
            Some(ResolvedRange { start: s0 as u64, end: e0 as u64, total_size: size })
        } else {
            None
        }
    }
}

/// The HTTP status a satisfiable resolution carries: partial content when a
/// range header was present, a whole-resource success when it was absent.
pub open spec fn spec_status(had_header: bool) -> int {
    if had_header {
        206
    } else {
        200
    }
}

/// Resolves a parsed range request against the resource size.
///
/// Returns the concrete window exactly when the request is satisfiable, and
/// `RangeNotSatisfiable` when the resource is empty, the requested start lies
/// at or past the end of the resource, or the resolved window is empty.
pub fn resolve_window(req: Option<ByteRangeSpec>, total_size: u64) -> (r: Result<
    ResolvedRange,
    RangeError,
>)
    ensures
        r == match spec_resolve(req, total_size) {
            Some(w) => Ok::<ResolvedRange, RangeError>(w),
            None => Err::<ResolvedRange, RangeError>(RangeError::RangeNotSatisfiable),
        },
        r matches Ok(w) ==> w.wf() && w.total_size == total_size,
{
    if total_size == 0 {
        return Err(RangeError::RangeNotSatisfiable);
    }
    let last = total_size - 1;
    let (start, end) = match req {
        None => (0u64, last),
        Some(ByteRangeSpec::Exact { start, end }) => (start, if end < last { end } else { last }),
        Some(ByteRangeSpec::StartFrom { start }) => (start, last),
        Some(ByteRangeSpec::Suffix { len }) => (
            if len >= total_size { 0 } else { total_size - len },
            last,
        ),
    };
    if start < total_size && start <= end {
        Ok(ResolvedRange { start, end, total_size })
    } else {
        Err(RangeError::RangeNotSatisfiable)
    }
}

/// What the whole header-to-window pipeline returns for one request: the
/// window bounds on success, `MalformedHeader` when the header text breaks
/// the grammar, `RangeNotSatisfiable` when it parses but selects no byte.
pub open spec fn spec_range_params(range: Option<Seq<char>>, size: u64) -> Result<
    (u64, u64),
    RangeError,
> {
    match range {
        None => match spec_resolve(None, size) {
            Some(w) => Ok((w.start, w.end)),
            None => Err(RangeError::RangeNotSatisfiable),
        },
        Some(text) => match spec_parse_header(text) {
            None => Err(RangeError::MalformedHeader),
            Some(sp) => match spec_resolve(Some(sp), size) {
                Some(w) => Ok((w.start, w.end)),
                None => Err(RangeError::RangeNotSatisfiable),
            },
        },
    }
}

/// Parses an optional raw `Range` header and resolves it against `size`,
/// returning the inclusive byte window to serve.
pub fn get_range_params(range: &Option<String>, size: u64) -> (r: Result<(u64, u64), RangeError>)
    ensures
        r == spec_range_params(range.deep_view(), size),
{
    let req = match range {
        None => None,
        Some(text) => match parse_range(text.as_str()) {
            Ok(sp) => Some(sp),
            Err(e) => {
                return Err(e);
            },
        },
    };
    match resolve_window(req, size) {
        Ok(w) => Ok((w.start, w.end)),
        Err(e) => Err(e),
    }
}

} // verus!
