//! Reconstruction of a contiguous flash image from address-relocated,
//! optionally compressed source binaries, guided by a segment map.
//!
//! A segment map is a tag-structured text document that describes how
//! contiguous byte ranges of a source binary map onto contiguous ranges of
//! the target (flash) address space.  This crate parses such maps into typed
//! segment descriptors, slices the described ranges out of source data,
//! decides the retry schedule for an externally supplied decompression
//! routine, and assembles the extracted payloads into one flat image.

pub mod assemble;
pub mod bytes;
pub mod extract;
pub mod file_names;
pub mod hex;
pub mod segment_map;
pub mod types;
pub mod ucl;
pub mod xml;
