//! Classification of the failures a range request can run into.

use vstd::prelude::*;

verus! {

/// Everything that can go wrong while serving a byte range.
///
/// The first three variants are detected strictly before any byte of the body
/// is produced, so the caller can still emit a clean error response.
/// `IoFailure` is the one failure that can surface after the headers have been
/// committed; it must abort the body stream rather than truncate it silently.
#[derive(Clone, Copy, Debug, PartialEq, Eq, Structural)]
pub enum RangeError {
    /// The resource the caller tried to open does not exist.
    ResourceNotFound,
    /// The `Range` header text does not follow the accepted grammar.
    MalformedHeader,
    /// The header parsed, but no byte of the resource falls in the window.
    RangeNotSatisfiable,
    /// A read or seek failed while the body was being streamed.
    IoFailure,
}

impl RangeError {
    /// The HTTP status a clean error response should carry, or `None` for a
    /// failure discovered after the status was already committed.
    pub fn http_status(&self) -> (r: Option<u16>)
        ensures
            r == match *self {
                RangeError::ResourceNotFound => Some(404u16),
                RangeError::MalformedHeader => Some(400u16),
                RangeError::RangeNotSatisfiable => Some(416u16),
                RangeError::IoFailure => None::<u16>,
            },
    {
        match self {
            RangeError::ResourceNotFound => Some(404),
            RangeError::MalformedHeader => Some(400),
            RangeError::RangeNotSatisfiable => Some(416),
            RangeError::IoFailure => None,
        }
    }
}

} // verus!
