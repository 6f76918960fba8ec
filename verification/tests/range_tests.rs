use warp_range::error::RangeError;
use warp_range::parse::{parse_range, ByteRangeSpec};
use warp_range::resolve::{get_range_params, resolve_window, ResolvedRange};

#[test]
fn parse_exact_pair() {
    assert_eq!(
        parse_range("bytes=500-999"),
        Ok(ByteRangeSpec::Exact { start: 500, end: 999 })
    );
}

#[test]
fn parse_zero_window() {
    assert_eq!(parse_range("bytes=0-0"), Ok(ByteRangeSpec::Exact { start: 0, end: 0 }));
}

#[test]
fn parse_open_end() {
    assert_eq!(parse_range("bytes=100-"), Ok(ByteRangeSpec::StartFrom { start: 100 }));
}

#[test]
fn parse_suffix_means_last_n_bytes() {
    assert_eq!(parse_range("bytes=-500"), Ok(ByteRangeSpec::Suffix { len: 500 }));
}

#[test]
fn parse_leading_zeros() {
    assert_eq!(parse_range("bytes=007-009"), Ok(ByteRangeSpec::Exact { start: 7, end: 9 }));
}

#[test]
fn parse_largest_value() {
    assert_eq!(
        parse_range("bytes=18446744073709551615-"),
        Ok(ByteRangeSpec::StartFrom { start: u64::MAX })
    );
}

#[test]
fn parse_rejects_overflowing_value() {
    assert_eq!(
        parse_range("bytes=18446744073709551616-"),
        Err(RangeError::MalformedHeader)
    );
}

#[test]
fn parse_rejects_missing_prefix() {
    assert_eq!(parse_range("0-99"), Err(RangeError::MalformedHeader));
}

#[test]
fn parse_rejects_wrong_prefix() {
    assert_eq!(parse_range("Bytes=0-99"), Err(RangeError::MalformedHeader));
}

#[test]
fn parse_rejects_non_digit_token() {
    assert_eq!(parse_range("bytes=abc-def"), Err(RangeError::MalformedHeader));
}

#[test]
fn parse_rejects_multi_range() {
    assert_eq!(parse_range("bytes=0-1,5-6"), Err(RangeError::MalformedHeader));
}

#[test]
fn parse_rejects_missing_dash() {
    assert_eq!(parse_range("bytes=500"), Err(RangeError::MalformedHeader));
}

#[test]
fn parse_rejects_both_tokens_absent() {
    assert_eq!(parse_range("bytes=-"), Err(RangeError::MalformedHeader));
}

#[test]
fn parse_rejects_empty_text() {
    assert_eq!(parse_range(""), Err(RangeError::MalformedHeader));
}

#[test]
fn resolve_exact_window_inside_resource() {
    assert_eq!(
        resolve_window(Some(ByteRangeSpec::Exact { start: 10, end: 19 }), 100),
        Ok(ResolvedRange { start: 10, end: 19, total_size: 100 })
    );
}

#[test]
fn resolve_clamps_end_to_resource() {
    assert_eq!(
        resolve_window(Some(ByteRangeSpec::Exact { start: 50, end: 200 }), 100),
        Ok(ResolvedRange { start: 50, end: 99, total_size: 100 })
    );
}

#[test]
fn resolve_open_end_reaches_last_byte() {
    assert_eq!(
        resolve_window(Some(ByteRangeSpec::StartFrom { start: 25 }), 100),
        Ok(ResolvedRange { start: 25, end: 99, total_size: 100 })
    );
}

#[test]
fn resolve_suffix_takes_tail() {
    assert_eq!(
        resolve_window(Some(ByteRangeSpec::Suffix { len: 30 }), 100),
        Ok(ResolvedRange { start: 70, end: 99, total_size: 100 })
    );
}

#[test]
fn resolve_suffix_of_whole_resource() {
    assert_eq!(
        resolve_window(Some(ByteRangeSpec::Suffix { len: 100 }), 100),
        Ok(ResolvedRange { start: 0, end: 99, total_size: 100 })
    );
}

#[test]
fn resolve_suffix_longer_than_resource_clamps_to_start() {
    assert_eq!(
        resolve_window(Some(ByteRangeSpec::Suffix { len: 1000 }), 100),
        Ok(ResolvedRange { start: 0, end: 99, total_size: 100 })
    );
}

#[test]
fn resolve_rejects_empty_suffix() {
    assert_eq!(
        resolve_window(Some(ByteRangeSpec::Suffix { len: 0 }), 100),
        Err(RangeError::RangeNotSatisfiable)
    );
}

#[test]
fn resolve_rejects_start_at_size() {
    assert_eq!(
        resolve_window(Some(ByteRangeSpec::StartFrom { start: 100 }), 100),
        Err(RangeError::RangeNotSatisfiable)
    );
}

#[test]
fn resolve_rejects_inverted_window() {
    assert_eq!(
        resolve_window(Some(ByteRangeSpec::Exact { start: 9, end: 3 }), 100),
        Err(RangeError::RangeNotSatisfiable)
    );
}

#[test]
fn resolve_rejects_empty_resource() {
    assert_eq!(resolve_window(None, 0), Err(RangeError::RangeNotSatisfiable));
}

#[test]
fn no_header_serves_whole_resource() {
    assert_eq!(get_range_params(&None, 1000), Ok((0, 999)));
}

#[test]
fn range_params_combines_parse_and_resolve() {
    let header = Some(String::from("bytes=-25"));
    assert_eq!(get_range_params(&header, 100), Ok((75, 99)));
}

#[test]
fn range_params_reports_malformed_header() {
    let header = Some(String::from("bytes=tail"));
    assert_eq!(get_range_params(&header, 100), Err(RangeError::MalformedHeader));
}

#[test]
fn error_statuses_follow_protocol() {
    assert_eq!(RangeError::ResourceNotFound.http_status(), Some(404));
    assert_eq!(RangeError::MalformedHeader.http_status(), Some(400));
    assert_eq!(RangeError::RangeNotSatisfiable.http_status(), Some(416));
    assert_eq!(RangeError::IoFailure.http_status(), None);
}
