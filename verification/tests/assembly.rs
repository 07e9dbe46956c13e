//! Tests of multi-source assembly.

use flashimage::assemble::{assemble_image, combine_sources, image_span};
use flashimage::types::{
    AssembleError, ExtractError, ExtractedSegment, SourceFailure, SourceRole,
};

fn seg(addr: u32, data: Vec<u8>) -> ExtractedSegment {
    ExtractedSegment { target_addr: addr, data }
}

#[test]
fn places_disjoint_segments_and_fills_the_rest() {
    let segs = vec![seg(0x1000, vec![1, 2]), seg(0x1004, vec![3])];
    let buf = assemble_image(&segs).unwrap();
    assert_eq!(buf, vec![1, 2, 0xFF, 0xFF, 3]);
}

#[test]
fn span_is_first_address_to_largest_end() {
    let segs = vec![seg(0x1000, vec![1, 2]), seg(0x1004, vec![3])];
    assert_eq!(image_span(&segs).unwrap(), (0x1000, 0x1004));
}

#[test]
fn later_overlapping_segment_wins() {
    let segs = vec![seg(0x10, vec![1, 1, 1, 1]), seg(0x12, vec![9, 9])];
    let buf = assemble_image(&segs).unwrap();
    assert_eq!(buf, vec![1, 1, 9, 9]);
}

#[test]
fn failed_primary_leaves_bootloader_image_and_a_warning() {
    let b = vec![seg(0x2000, vec![0xAA, 0xBB])];
    let (all, warns) = combine_sources(
        Some(Ok(b.clone())),
        Some(Err(ExtractError::Decompress(
            flashimage::ucl::DecompressError::SizesExhausted,
        ))),
        None,
    );
    assert_eq!(all, b);
    assert_eq!(
        warns,
        vec![SourceFailure {
            role: SourceRole::Swfl1,
            error: ExtractError::Decompress(flashimage::ucl::DecompressError::SizesExhausted),
        }]
    );
    let buf = assemble_image(&all).unwrap();
    assert_eq!(buf, vec![0xAA, 0xBB]);
}

#[test]
fn no_sources_fail_with_no_segments() {
    let (all, warns) = combine_sources(None, None, None);
    assert!(all.is_empty());
    assert!(warns.is_empty());
    assert_eq!(assemble_image(&all), Err(AssembleError::NoSegments));
}

#[test]
fn all_sources_failed_is_still_no_segments() {
    let (all, warns) = combine_sources(
        Some(Err(ExtractError::Io)),
        Some(Err(ExtractError::MissingMap)),
        None,
    );
    assert!(all.is_empty());
    assert_eq!(warns.len(), 2);
    assert_eq!(warns[0].role, SourceRole::Btld);
    assert_eq!(warns[0].error, ExtractError::Io);
    assert_eq!(warns[1].role, SourceRole::Swfl1);
    assert_eq!(warns[1].error, ExtractError::MissingMap);
    assert_eq!(assemble_image(&all), Err(AssembleError::NoSegments));
}

#[test]
fn base_is_first_sources_first_segment_not_the_minimum() {
    let b = vec![seg(0x4000, vec![1, 2, 3, 4])];
    let p = vec![seg(0x1000, vec![9, 9])];
    let s = vec![seg(0x4008, vec![7])];
    let (all, warns) = combine_sources(Some(Ok(b)), Some(Ok(p)), Some(Ok(s)));
    assert!(warns.is_empty());
    let (base, end) = image_span(&all).unwrap();
    assert_eq!(base, 0x4000);
    assert_eq!(end, 0x4008);
    let buf = assemble_image(&all).unwrap();
    assert_eq!(buf, vec![1, 2, 3, 4, 0xFF, 0xFF, 0xFF, 0xFF, 7]);
}

#[test]
fn segment_below_base_is_silently_skipped() {
    let segs = vec![seg(0x100, vec![5, 6]), seg(0x0FF, vec![9])];
    let buf = assemble_image(&segs).unwrap();
    assert_eq!(buf, vec![5, 6]);
}

#[test]
fn role_order_is_kept_in_the_accumulated_list() {
    let b = vec![seg(0x10, vec![1])];
    let p = vec![seg(0x11, vec![2]), seg(0x12, vec![3])];
    let s = vec![seg(0x13, vec![4])];
    let (all, _) = combine_sources(Some(Ok(b)), Some(Ok(p)), Some(Ok(s)));
    let addrs: Vec<u32> = all.iter().map(|e| e.target_addr).collect();
    assert_eq!(addrs, vec![0x10, 0x11, 0x12, 0x13]);
}
