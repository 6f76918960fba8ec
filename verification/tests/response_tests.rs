use warp_range::decimal::u64_to_string;
use warp_range::parse::parse_range;
use warp_range::resolve::{resolve_window, ResolvedRange};
use warp_range::response::{
    content_range_value, unsatisfiable_content_range_value, ResponseMetadata,
};
use warp_range::stream::chunk_lengths;
use warp_range::error::RangeError;

#[test]
fn decimal_formatting() {
    assert_eq!(u64_to_string(0), "0");
    assert_eq!(u64_to_string(7), "7");
    assert_eq!(u64_to_string(16384), "16384");
    assert_eq!(u64_to_string(u64::MAX), "18446744073709551615");
}

#[test]
fn content_range_reflects_window() {
    assert_eq!(content_range_value(500, 999, 1_000_000), "bytes 500-999/1000000");
}

#[test]
fn unsatisfiable_content_range_names_only_the_size() {
    assert_eq!(unsatisfiable_content_range_value(100), "bytes */100");
}

#[test]
fn partial_serve_of_explicit_window() {
    // size 1,000,000 with header "bytes=500-999"
    let spec = parse_range("bytes=500-999").unwrap();
    let window = resolve_window(Some(spec), 1_000_000).unwrap();
    assert_eq!(window, ResolvedRange { start: 500, end: 999, total_size: 1_000_000 });
    let meta = ResponseMetadata::assemble(&window, true, String::from("video/mp4"));
    assert_eq!(meta.status, 206);
    assert_eq!(meta.content_type, "video/mp4");
    assert_eq!(meta.accept_ranges, "bytes");
    assert_eq!(meta.content_range, "bytes 500-999/1000000");
    assert_eq!(meta.content_length, 500);
    assert_eq!(meta.content_length_value(), "500");
    assert_eq!(chunk_lengths(window.byte_count()), vec![500]);
}

#[test]
fn whole_resource_serve_without_header() {
    // size 50,000 with no Range header
    let window = resolve_window(None, 50000).unwrap();
    assert_eq!(window, ResolvedRange { start: 0, end: 49999, total_size: 50000 });
    let meta = ResponseMetadata::assemble(&window, false, String::from("audio/mpeg"));
    assert_eq!(meta.status, 200);
    assert_eq!(meta.content_length, 50000);
    assert_eq!(meta.content_length_value(), "50000");
    assert_eq!(meta.content_range, "bytes 0-49999/50000");
    assert_eq!(chunk_lengths(window.byte_count()), vec![16384, 16384, 16384, 848]);
}

#[test]
fn window_past_resource_is_rejected_before_any_byte() {
    // size 100 with header "bytes=200-300"
    let spec = parse_range("bytes=200-300").unwrap();
    let verdict = resolve_window(Some(spec), 100);
    assert_eq!(verdict, Err(RangeError::RangeNotSatisfiable));
    assert_eq!(RangeError::RangeNotSatisfiable.http_status(), Some(416));
    assert_eq!(unsatisfiable_content_range_value(100), "bytes */100");
}
