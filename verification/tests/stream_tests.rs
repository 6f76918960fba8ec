use warp_range::resolve::ResolvedRange;
use warp_range::stream::{chunk_lengths, RangeStreamer};
use warp_range::MAX_CHUNK_SIZE;

#[test]
fn chunk_plan_of_small_window_is_one_chunk() {
    assert_eq!(chunk_lengths(500), vec![500]);
}

#[test]
fn chunk_plan_of_exact_chunk_size() {
    assert_eq!(chunk_lengths(MAX_CHUNK_SIZE), vec![16384]);
}

#[test]
fn chunk_plan_of_one_byte_more() {
    assert_eq!(chunk_lengths(MAX_CHUNK_SIZE + 1), vec![16384, 1]);
}

#[test]
fn chunk_plan_of_empty_window_is_empty() {
    assert_eq!(chunk_lengths(0), Vec::<u64>::new());
}

#[test]
fn chunk_lengths_sum_to_byte_count() {
    for byte_count in [1u64, 100, 16383, 16384, 16385, 50000, 1_000_000] {
        let plan = chunk_lengths(byte_count);
        assert_eq!(plan.iter().sum::<u64>(), byte_count);
        for (i, len) in plan.iter().enumerate() {
            if i + 1 < plan.len() {
                assert_eq!(*len, MAX_CHUNK_SIZE);
            } else {
                assert!(*len > 0 && *len <= MAX_CHUNK_SIZE);
            }
        }
    }
}

#[test]
fn streamer_walks_the_plan_with_increasing_progress() {
    let window = ResolvedRange { start: 0, end: 39999, total_size: 50000 };
    let mut streamer = RangeStreamer::new(&window);
    assert_eq!(streamer.seek_offset(), 0);
    let mut reported: Vec<u64> = Vec::new();
    let mut chunks: Vec<u64> = Vec::new();
    while !streamer.finished() {
        let len = streamer.next_chunk_len();
        streamer.advance(len);
        chunks.push(len);
        reported.push(streamer.progress());
    }
    assert_eq!(chunks, vec![16384, 16384, 7232]);
    assert_eq!(reported, vec![16384, 32768, 40000]);
    for pair in reported.windows(2) {
        assert!(pair[0] < pair[1]);
    }
    assert_eq!(*reported.last().unwrap(), 40000);
}

#[test]
fn streamer_seeks_to_window_start() {
    let window = ResolvedRange { start: 500, end: 999, total_size: 1_000_000 };
    let streamer = RangeStreamer::new(&window);
    assert_eq!(streamer.seek_offset(), 500);
    assert!(!streamer.finished());
}
