//! Shared data types: segment descriptors, extracted payloads, and the
//! error kinds of parsing, extraction and assembly.

use vstd::prelude::*;

verus! {

/// One relocation unit of a segment map: an inclusive byte range of the
/// source file, an inclusive range of the target address space, and a flag
/// saying whether the source bytes are compressed.
#[derive(Clone, Copy, Debug, PartialEq, Eq, Structural)]
pub struct FlashSegment {
    pub source_start_addr: u32,
    pub source_end_addr: u32,
    pub target_start_addr: u32,
    pub target_end_addr: u32,
    pub is_compressed: bool,
}

impl FlashSegment {
    /// Both ranges have a non-negative length.  A descriptor violating this
    /// is a malformed-input condition; it is never silently corrected.
    pub open spec fn wf(self) -> bool {
        self.source_start_addr <= self.source_end_addr
            && self.target_start_addr <= self.target_end_addr
    }

    /// Number of source bytes the descriptor covers (inclusive bounds).
    pub open spec fn source_len(self) -> int {
        self.source_end_addr - self.source_start_addr + 1
    }

    /// Nominal number of target bytes the descriptor covers (inclusive bounds).
    pub open spec fn target_len(self) -> int {
        self.target_end_addr - self.target_start_addr + 1
    }

    /// The descriptor a parse starts from: all-zero addresses, uncompressed.
    pub open spec fn zero_spec() -> Self {
        FlashSegment {
            source_start_addr: 0,
            source_end_addr: 0,
            target_start_addr: 0,
            target_end_addr: 0,
            is_compressed: false,
        }
    }

    /// Builds the all-zero descriptor.
    pub fn zero() -> (s: Self)
        ensures
            s == Self::zero_spec(),
    {
        FlashSegment {
            source_start_addr: 0,
            source_end_addr: 0,
            target_start_addr: 0,
            target_end_addr: 0,
            is_compressed: false,
        }
    }
}

/// One source range sliced out of a source binary, still in its on-disk
/// form: the bytes are compressed when `is_compressed` is set.
#[derive(Clone, Debug, PartialEq)]
pub struct SourceSlice {
    pub target_addr: u32,
    pub bytes: Vec<u8>,
    pub is_compressed: bool,
}

/// A materialized (target address, payload) pair: the payload is ready to
/// be placed into the output image.
#[derive(Clone, Debug, PartialEq)]
pub struct ExtractedSegment {
    pub target_addr: u32,
    pub data: Vec<u8>,
}

/// Failures of segment-map parsing.
#[derive(Clone, Copy, Debug, PartialEq, Eq, Structural)]
pub enum ParseError {
    /// The document could not be read.
    Io,
    /// The tag structure could not be tokenized or is not properly nested.
    Malformed,
    /// A child element of a segment carried text that is not a hexadecimal
    /// 32-bit address.
    InvalidAddress,
}

/// Failures of extracting one source file's segments.
#[derive(Clone, Copy, Debug, PartialEq, Eq, Structural)]
pub enum ExtractError {
    /// The source range could not be read in full.
    Io,
    /// The sibling segment-map document could not be read.
    MissingMap,
    /// Decompression of a compressed segment failed.
    Decompress(crate::ucl::DecompressError),
}

/// Failures of assembling the accumulated segments into one image.
#[derive(Clone, Copy, Debug, PartialEq, Eq, Structural)]
pub enum AssembleError {
    /// No source contributed any segment.
    NoSegments,
    /// The output could not be written.
    Io,
}

/// The directory class a candidate source file was found under.
#[derive(Clone, Copy, Debug, PartialEq, Eq, Structural)]
pub enum FileType {
    BTLD,
    SWFL,
}

/// One candidate source file offered for selection.
#[derive(Clone, Debug, PartialEq)]
pub struct AvailableFile {
    pub path: String,
    pub file_type: FileType,
    pub display_name: String,
    pub size: u64,
}

/// The role a source file plays in an assembly run; sources are processed
/// in the order bootloader, primary image, secondary image.
#[derive(Clone, Copy, Debug, PartialEq, Eq, Structural)]
pub enum SourceRole {
    Btld,
    Swfl1,
    Swfl2,
}

/// A per-source failure that was downgraded to a warning: the source
/// contributes no segments, the run goes on.
#[derive(Clone, Copy, Debug, PartialEq, Eq, Structural)]
pub struct SourceFailure {
    pub role: SourceRole,
    pub error: ExtractError,
}

} // verus!
