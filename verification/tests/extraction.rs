//! Tests of single-source extraction.

use flashimage::extract::{extract_ranges, size_mismatch};
use flashimage::types::{ExtractError, FlashSegment};

fn seg(ss: u32, se: u32, ts: u32, te: u32, compressed: bool) -> FlashSegment {
    FlashSegment {
        source_start_addr: ss,
        source_end_addr: se,
        target_start_addr: ts,
        target_end_addr: te,
        is_compressed: compressed,
    }
}

#[test]
fn extracts_single_uncompressed_segment() {
    let data: [u8; 4] = [0x11, 0x22, 0x33, 0x44];
    let segs = vec![seg(0, 3, 0x1000, 0x1003, false)];
    let slices = extract_ranges(&data, &segs).unwrap();
    assert_eq!(slices.len(), 1);
    assert_eq!(slices[0].target_addr, 0x1000);
    assert_eq!(slices[0].bytes, vec![0x11, 0x22, 0x33, 0x44]);
    assert!(!slices[0].is_compressed);
}

#[test]
fn extracts_ranges_in_map_order() {
    let data: [u8; 8] = [1, 2, 3, 4, 5, 6, 7, 8];
    let segs = vec![seg(4, 5, 0x20, 0x21, false), seg(0, 1, 0x10, 0x11, true)];
    let slices = extract_ranges(&data, &segs).unwrap();
    assert_eq!(slices.len(), 2);
    assert_eq!(slices[0].target_addr, 0x20);
    assert_eq!(slices[0].bytes, vec![5, 6]);
    assert_eq!(slices[1].target_addr, 0x10);
    assert_eq!(slices[1].bytes, vec![1, 2]);
    assert!(slices[1].is_compressed);
}

#[test]
fn range_past_end_of_data_fails_io() {
    let data: [u8; 4] = [1, 2, 3, 4];
    let segs = vec![seg(0, 4, 0x10, 0x14, false)];
    assert_eq!(extract_ranges(&data, &segs), Err(ExtractError::Io));
}

#[test]
fn inverted_source_range_fails_io() {
    let data: [u8; 4] = [1, 2, 3, 4];
    let segs = vec![seg(3, 2, 0x10, 0x11, false)];
    assert_eq!(extract_ranges(&data, &segs), Err(ExtractError::Io));
}

#[test]
fn first_bad_segment_aborts_the_file() {
    let data: [u8; 4] = [1, 2, 3, 4];
    let segs = vec![seg(0, 1, 0x10, 0x11, false), seg(0, 9, 0x20, 0x29, false)];
    assert_eq!(extract_ranges(&data, &segs), Err(ExtractError::Io));
}

#[test]
fn matching_payload_length_is_no_mismatch() {
    let s = seg(0, 3, 0x1000, 0x1003, false);
    assert!(!size_mismatch(&s, 4));
    assert!(size_mismatch(&s, 3));
    assert!(size_mismatch(&s, 5));
}

#[test]
fn compressed_segment_may_expand_past_nominal_length() {
    let s = seg(0, 3, 0x1000, 0x10FF, true);
    assert!(!size_mismatch(&s, 0x100));
    assert!(size_mismatch(&s, 4));
}
