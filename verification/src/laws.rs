//! The library-wide laws: how header text, window resolution, chunking and
//! response metadata fit together, stated and proved over the same spec
//! functions the executable contracts use.

use vstd::prelude::*;
use crate::decimal::{all_digits, digits_val, is_digit_char, lemma_digits_of_val, spec_digits_of};
use crate::parse::{
    lemma_first_dash_found, spec_first_dash, spec_header_prefix, spec_parse_header,
    spec_parse_parts, ByteRangeSpec,
};
use crate::resolve::{spec_resolve, spec_status, ResolvedRange};

verus! {

/// The header text `bytes=<left>-<right>` for two raw token slots.
pub open spec fn spec_built_header(left: Seq<char>, right: Seq<char>) -> Seq<char> {
    spec_header_prefix() + left + seq!['-'] + right
}

/// The header text `bytes=A-B`.
pub open spec fn spec_exact_header(a: u64, b: u64) -> Seq<char> {
    spec_built_header(spec_digits_of(a as nat), spec_digits_of(b as nat))
}

/// The header text `bytes=A-`.
pub open spec fn spec_open_header(a: u64) -> Seq<char> {
    spec_built_header(spec_digits_of(a as nat), Seq::empty())
}

/// The header text `bytes=-N`.
pub open spec fn spec_suffix_header(n: u64) -> Seq<char> {
    spec_built_header(Seq::empty(), spec_digits_of(n as nat))
}

/// A header built from the prefix, two digit-only tokens and one hyphen
/// parses back to exactly what those tokens say.
proof fn lemma_parse_built_header(left: Seq<char>, right: Seq<char>)
    requires
        all_digits(left),
        all_digits(right),
    ensures
        spec_parse_header(spec_built_header(left, right)) == spec_parse_parts(left, right),
{
    let s = spec_built_header(left, right);
    let dpos = 6 + left.len() as int;
    assert(s.len() == 7 + left.len() + right.len());
    assert(s.subrange(0, 6) =~= spec_header_prefix());
    assert(s[dpos] == '-');
    assert forall|j: int| 6 <= j < dpos implies s[j] != '-' by {
        assert(s[j] == left[j - 6]);
        assert(is_digit_char(left[j - 6]));
    }
    lemma_first_dash_found(s, 6, dpos);
    assert(s.subrange(6, dpos) =~= left);
    assert(s.subrange(dpos + 1, s.len() as int) =~= right);
}

/// Every explicit window request round-trips: for `0 <= A <= B < size` the
/// header `bytes=A-B` parses to the exact pair, resolves to the window
/// `(A, B)` of `B - A + 1` bytes, and a partial-content (206) response is
/// owed. The `Content-Range` value for that window reads `bytes A-B/size`.
pub proof fn lemma_exact_request_round_trip(a: u64, b: u64, size: u64)
    requires
        a <= b < size,
    ensures
        spec_parse_header(spec_exact_header(a, b)) == Some(
            ByteRangeSpec::Exact { start: a, end: b },
        ),
        spec_resolve(Some(ByteRangeSpec::Exact { start: a, end: b }), size) == Some(
            ResolvedRange { start: a, end: b, total_size: size },
        ),
        (ResolvedRange { start: a, end: b, total_size: size }).spec_byte_count() == b - a + 1,
        spec_status(true) == 206,
{
    lemma_digits_of_val(a as nat);
    lemma_digits_of_val(b as nat);
    lemma_parse_built_header(spec_digits_of(a as nat), spec_digits_of(b as nat));
}

/// An open-ended request `bytes=A-` with `A < size` resolves its end to the
/// last byte of the resource.
pub proof fn lemma_open_request_resolves_to_end(a: u64, size: u64)
    requires
        a < size,
    ensures
        spec_parse_header(spec_open_header(a)) == Some(ByteRangeSpec::StartFrom { start: a }),
        spec_resolve(Some(ByteRangeSpec::StartFrom { start: a }), size) == Some(
            ResolvedRange { start: a, end: (size - 1) as u64, total_size: size },
        ),
{
    lemma_digits_of_val(a as nat);
    lemma_parse_built_header(spec_digits_of(a as nat), Seq::empty());
}

/// A suffix request `bytes=-N` with `0 < N <= size` resolves to the last `N`
/// bytes: the window `(size - N, size - 1)`.
pub proof fn lemma_suffix_request_resolves_to_tail(n: u64, size: u64)
    requires
        0 < n <= size,
    ensures
        spec_parse_header(spec_suffix_header(n)) == Some(ByteRangeSpec::Suffix { len: n }),
        spec_resolve(Some(ByteRangeSpec::Suffix { len: n }), size) == Some(
            ResolvedRange { start: (size - n) as u64, end: (size - 1) as u64, total_size: size },
        ),
{
    lemma_digits_of_val(n as nat);
    lemma_parse_built_header(Seq::empty(), spec_digits_of(n as nat));
}

/// With no header at all, the whole resource is served: window
/// `(0, size - 1)`, a whole-resource (200) response, and a body of exactly
/// `size` bytes — which is what the `Content-Length` field carries.
pub proof fn lemma_no_header_serves_whole_resource(size: u64)
    requires
        size > 0,
    ensures
        spec_resolve(None, size) == Some(
            ResolvedRange { start: 0, end: (size - 1) as u64, total_size: size },
        ),
        (ResolvedRange { start: 0, end: (size - 1) as u64, total_size: size }).spec_byte_count()
            == size,
        spec_status(false) == 200,
{
}

/// A request whose start lies at or past the end of the resource, or whose
/// clamped window is empty, is not satisfiable: resolution yields no window,
/// so no byte of the body is ever planned or streamed.
pub proof fn lemma_unsatisfiable_request_yields_no_window(req: Option<ByteRangeSpec>, size: u64)
    requires
        match req {
            Some(ByteRangeSpec::Exact { start, end }) => start >= size || start > end,
            Some(ByteRangeSpec::StartFrom { start }) => start >= size,
            Some(ByteRangeSpec::Suffix { len }) => len == 0 || size == 0,
            None => size == 0,
        },
    ensures
        (spec_resolve(req, size) is None),
{
}

} // verus!
