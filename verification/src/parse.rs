//! The `Range` request header parser.
//!
//! Grammar: `"bytes=" <start>? "-" <end>?` — decimal digits for each present
//! token, exactly one hyphen, at least one token present. Anything else,
//! including multi-range headers (`bytes=a-b,c-d`), is a malformed header.
//! No bounds checking happens here; the resolver applies the resource size.

use vstd::prelude::*;
use crate::decimal::{all_digits, digits_val, is_digit_char, lemma_digits_val_take_le};
use crate::error::RangeError;

verus! {

/// The structured form of a present `Range` header, before the resource size
/// is known. Absence of the header itself is represented by the caller as
/// `None` and is not an error.
#[derive(Clone, Copy, Debug, PartialEq, Eq, Structural)]
pub enum ByteRangeSpec {
    /// `"bytes=A-B"`: an explicit inclusive window request.
    Exact { start: u64, end: u64 },
    /// `"bytes=A-"`: from `A` through the end of the resource.
    StartFrom { start: u64 },
    /// `"bytes=-N"`: the last `N` bytes of the resource.
    Suffix { len: u64 },
}

/// The six characters every well-formed header starts with.
pub open spec fn spec_header_prefix() -> Seq<char> {
    seq!['b', 'y', 't', 'e', 's', '=']
}

/// Index of the first `'-'` at or after position `i`, if any.
pub open spec fn spec_first_dash(s: Seq<char>, i: int) -> Option<int>
    decreases s.len() - i,
{
    if i < 0 || i >= s.len() {
        None
    } else if s[i] == '-' {
        Some(i)
    } else {
        spec_first_dash(s, i + 1)
    }
}

/// Interpretation of the two token slots around the hyphen.
pub open spec fn spec_parse_parts(left: Seq<char>, right: Seq<char>) -> Option<ByteRangeSpec> {
    if !all_digits(left) || !all_digits(right) {
        None
    } else if left.len() == 0 && right.len() == 0 {
        None
    } else if left.len() > 0 && digits_val(left) > u64::MAX {
        None
    } else if right.len() > 0 && digits_val(right) > u64::MAX {
        None
    } else if left.len() == 0 {
        Some(ByteRangeSpec::Suffix { len: digits_val(right) as u64 })
    } else if right.len() == 0 {
        Some(ByteRangeSpec::StartFrom { start: digits_val(left) as u64 })
    } else {
        Some(ByteRangeSpec::Exact { start: digits_val(left) as u64, end: digits_val(right) as u64 })
    }
}

/// What a raw header text means: `Some` of its structured form when it follows
/// the grammar, `None` when it is malformed.
pub open spec fn spec_parse_header(s: Seq<char>) -> Option<ByteRangeSpec> {
    if s.len() < 6 || s.subrange(0, 6) != spec_header_prefix() {
        None
    } else {
        match spec_first_dash(s, 6) {
            None => None,
            Some(d) => spec_parse_parts(
                s.subrange(6, d),
                s.subrange(d + 1, s.len() as int),
            ),
        }
    }
}

/// `spec_first_dash` finds exactly the first dash: the position it returns
/// holds a dash with none before it, and `None` means there is none at all.
pub proof fn lemma_first_dash_spec(s: Seq<char>, i: int)
    requires
        0 <= i <= s.len(),
    ensures
        match spec_first_dash(s, i) {
            Some(d) => i <= d < s.len() && s[d] == '-'
                && forall|j: int| i <= j < d ==> s[j] != '-',
            None => forall|j: int| i <= j < s.len() ==> s[j] != '-',
        },
    decreases s.len() - i,
{
    if i < s.len() && s[i] != '-' {
        lemma_first_dash_spec(s, i + 1);
    }
}

/// A position known to hold the first dash is what `spec_first_dash` returns.
pub proof fn lemma_first_dash_found(s: Seq<char>, i: int, d: int)
    requires
        0 <= i <= d < s.len(),
        s[d] == '-',
        forall|j: int| i <= j < d ==> s[j] != '-',
    ensures
        spec_first_dash(s, i) == Some(d),
    decreases d - i,
{
    if i < d {
        lemma_first_dash_found(s, i + 1, d);
    }
}

/// Reads the decimal number written in `s[from..to]`. `None` when a non-digit
/// appears there or the value does not fit in a `u64`.
fn parse_decimal(s: &str, from: usize, to: usize) -> (r: Option<u64>)
    requires
        from <= to <= s@.len(),
    ensures
        ({
            let part = s@.subrange(from as int, to as int);
            match r {
                Some(v) => all_digits(part) && digits_val(part) == v as nat,
                None => !all_digits(part) || digits_val(part) > u64::MAX,
            }
        }),
{
    let ghost part = s@.subrange(from as int, to as int);
    let mut val: u64 = 0;
    let mut j: usize = from;
    while j < to
        invariant
            from <= j <= to <= s@.len(),
            part == s@.subrange(from as int, to as int),
            all_digits(part.take(j - from)),
            val as nat == digits_val(part.take(j - from)),
        decreases to - j,
    {
        let c = s.get_char(j);
        let u = c as u32;
        proof {
            assert(part[j - from] == c);
        }
        if u < 48 || u > 57 {
            proof {
                assert(!is_digit_char(part[j - from]));
            }
            return None;
        }
        let d = (u - 48) as u64;
        proof {
            assert(part.take(j - from + 1).drop_last() =~= part.take(j - from));
            assert(part.take(j - from + 1).last() == c);
            assert(digits_val(part.take(j - from + 1)) == digits_val(part.take(j - from)) * 10 + d);
        }
        if val > (u64::MAX - d) / 10 {
            proof {
                assert(val * 10 + d > u64::MAX) by (nonlinear_arith)
                    requires
                        val > (u64::MAX - d) / 10,
                        d <= 9,
                ;
                lemma_digits_val_take_le(part, j - from + 1, part.len() as int);
                assert(part.take(part.len() as int) =~= part);
            }
            return None;
        }
        proof {
            assert(val * 10 + d <= u64::MAX) by (nonlinear_arith)
                requires
                    val <= (u64::MAX - d) / 10,
                    d <= 9,
            ;
        }
        val = val * 10 + d;
        j = j + 1;
    }
    proof {
        assert(part.take(to - from) =~= part);
    }
    Some(val)
}

/// Parses a present `Range` header.
///
/// Returns the structured spec exactly when the text follows the grammar, and
/// `MalformedHeader` otherwise — missing prefix, a non-digit where a number is
/// expected (which covers multi-range commas), no hyphen, both tokens absent,
/// or a number too large for `u64`.
pub fn parse_range(header: &str) -> (r: Result<ByteRangeSpec, RangeError>)
    ensures
        r == match spec_parse_header(header@) {
            Some(sp) => Ok::<ByteRangeSpec, RangeError>(sp),
            None => Err::<ByteRangeSpec, RangeError>(RangeError::MalformedHeader),
        },
{
    let n = header.unicode_len();
    if n < 6 {
        return Err(RangeError::MalformedHeader);
    }
    if header.get_char(0) != 'b' || header.get_char(1) != 'y' || header.get_char(2) != 't'
        || header.get_char(3) != 'e' || header.get_char(4) != 's' || header.get_char(5) != '=' {
        proof {
            assert(header@.subrange(0, 6) != spec_header_prefix());
        }
        return Err(RangeError::MalformedHeader);
    }
    proof {
        assert(header@.subrange(0, 6) =~= spec_header_prefix());
    }
    let mut i: usize = 6;
    loop
        invariant
            6 <= i <= n,
            n == header@.len(),
            forall|j: int| 6 <= j < i ==> header@[j] != '-',
        ensures
            6 <= i < n,
            header@[i as int] == '-',
            forall|j: int| 6 <= j < i ==> header@[j] != '-',
        decreases n - i,
    {
        if i == n {
            proof {
                lemma_first_dash_spec(header@, 6);
                if spec_first_dash(header@, 6) is Some {
                    let d = spec_first_dash(header@, 6)->0;
                    assert(header@[d] != '-');
                }
            }
            return Err(RangeError::MalformedHeader);
        }
        if header.get_char(i) == '-' {
            break;
        }
        i = i + 1;
    }
    let d = i;
    proof {
        lemma_first_dash_found(header@, 6, d as int);
    }
    let left = parse_decimal(header, 6, d);
    let right = parse_decimal(header, d + 1, n);
    let ghost left_part = header@.subrange(6, d as int);
    let ghost right_part = header@.subrange(d as int + 1, n as int);
    match (left, right) {
        (Some(a), Some(b)) => {
            if d == 6 && d + 1 == n {
                Err(RangeError::MalformedHeader)
            } else if d == 6 {
                Ok(ByteRangeSpec::Suffix { len: b })
            } else if d + 1 == n {
                Ok(ByteRangeSpec::StartFrom { start: a })
            } else {
                Ok(ByteRangeSpec::Exact { start: a, end: b })
            }
        },
        _ => Err(RangeError::MalformedHeader),
    }
}

} // verus!
