//! The decompression capability's decision logic: error classification,
//! input validation, and the schedule of output-capacity probes.
//!
//! The decompression routine itself is an externally supplied native
//! function; this module holds everything about it that can be decided
//! from plain values: which numeric codes mean which failure, which
//! failures are retryable with a larger output buffer, and which output
//! capacities to try, in order.

use vstd::prelude::*;

verus! {

/// Codec-specific failure kinds of the decompression routine, as reported
/// through its numeric return codes.
#[derive(Clone, Copy, Debug, PartialEq, Eq, Structural)]
pub enum UclErrorKind {
    GenericError,
    InvalidArgument,
    OutOfMemory,
    NotCompressible,
    InputOverrun,
    OutputOverrun,
    LookbehindOverrun,
    EofNotFound,
    InputNotConsumed,
    OverlapOverrun,
    SrcTooLarge,
    DstTooLarge,
    DstTooSmall,
}

/// The failure kind a given numeric return code stands for.
pub open spec fn kind_of_code(code: i32) -> UclErrorKind {
    if code == -2 {
        UclErrorKind::InvalidArgument
    } else if code == -3 {
        UclErrorKind::OutOfMemory
    } else if code == -101 {
        UclErrorKind::NotCompressible
    } else if code == -201 {
        UclErrorKind::InputOverrun
    } else if code == -202 {
        UclErrorKind::OutputOverrun
    } else if code == -203 {
        UclErrorKind::LookbehindOverrun
    } else if code == -204 {
        UclErrorKind::EofNotFound
    } else if code == -205 {
        UclErrorKind::InputNotConsumed
    } else if code == -206 {
        UclErrorKind::OverlapOverrun
    } else {
        UclErrorKind::GenericError
    }
}

impl UclErrorKind {
    /// Classifies a numeric return code of the decompression routine.
    pub fn from_code(code: i32) -> (r: Self)
        ensures
            r == kind_of_code(code),
    {
        match code {
            -2 => UclErrorKind::InvalidArgument,
            -3 => UclErrorKind::OutOfMemory,
            -101 => UclErrorKind::NotCompressible,
            -201 => UclErrorKind::InputOverrun,
            -202 => UclErrorKind::OutputOverrun,
            -203 => UclErrorKind::LookbehindOverrun,
            -204 => UclErrorKind::EofNotFound,
            -205 => UclErrorKind::InputNotConsumed,
            -206 => UclErrorKind::OverlapOverrun,
            _ => UclErrorKind::GenericError,
        }
    }

    /// An output overrun means the probe's output buffer was too small: the
    /// call may be retried with a larger one.  Every other kind is terminal
    /// for the segment.
    pub fn is_retryable(&self) -> (r: bool)
        ensures
            r == (*self is OutputOverrun),
    {
        match self {
            UclErrorKind::OutputOverrun => true,
            _ => false,
        }
    }

    /// A human-readable description of the failure kind.
    pub fn message(&self) -> (r: &'static str)
        ensures
            *self is GenericError ==> r@ == "generic UCL error"@,
            *self is InvalidArgument ==> r@ == "invalid argument"@,
            *self is OutOfMemory ==> r@ == "out of memory"@,
            *self is NotCompressible ==> r@ == "not compressible"@,
            *self is InputOverrun ==> r@ == "input overrun"@,
            *self is OutputOverrun ==> r@ == "output overrun"@,
            *self is LookbehindOverrun ==> r@ == "look-behind overrun"@,
            *self is EofNotFound ==> r@ == "EOF not found"@,
            *self is InputNotConsumed ==> r@ == "input not consumed"@,
            *self is OverlapOverrun ==> r@ == "overlap overrun"@,
            *self is SrcTooLarge ==> r@ == "src buffer too large"@,
            *self is DstTooLarge ==> r@ == "dst buffer too large"@,
            *self is DstTooSmall ==> r@ == "dst buffer too small"@,
    {
        match self {
            UclErrorKind::GenericError => "generic UCL error",
            UclErrorKind::InvalidArgument => "invalid argument",
            UclErrorKind::OutOfMemory => "out of memory",
            UclErrorKind::NotCompressible => "not compressible",
            UclErrorKind::InputOverrun => "input overrun",
            UclErrorKind::OutputOverrun => "output overrun",
            UclErrorKind::LookbehindOverrun => "look-behind overrun",
            UclErrorKind::EofNotFound => "EOF not found",
            UclErrorKind::InputNotConsumed => "input not consumed",
            UclErrorKind::OverlapOverrun => "overlap overrun",
            UclErrorKind::SrcTooLarge => "src buffer too large",
            UclErrorKind::DstTooLarge => "dst buffer too large",
            UclErrorKind::DstTooSmall => "dst buffer too small",
        }
    }
}

/// The input-size sanity ceiling: inputs above 100 MiB are rejected.
pub const INPUT_CEILING: usize = 104857600;

/// The output-capacity ceiling: probes above 200 MiB are skipped.
pub const PROBE_CEILING: u64 = 209715200;

/// What validation says of an input of `len` bytes: empty and undersized
/// inputs and inputs above the sanity ceiling are rejected before any
/// decompression is attempted.
pub open spec fn input_check(len: int) -> Result<(), DecompressError> {
    if len == 0 {
        Err(DecompressError::EmptyInput)
    } else if len < 4 {
        Err(DecompressError::InputTooSmall)
    } else if len > INPUT_CEILING {
        Err(DecompressError::InputTooLarge)
    } else {
        Ok(())
    }
}

/// Validates the length of a compressed input before decompression.
pub fn check_decompress_input(len: usize) -> (r: Result<(), DecompressError>)
    ensures
        r == input_check(len as int),
{
    if len == 0 {
        Err(DecompressError::EmptyInput)
    } else if len < 4 {
        Err(DecompressError::InputTooSmall)
    } else if len > INPUT_CEILING {
        Err(DecompressError::InputTooLarge)
    } else {
        Ok(())
    }
}

/// Appends a candidate probe size unless it exceeds the probe ceiling.
pub open spec fn push_if_within(s: Seq<int>, v: int) -> Seq<int> {
    if v <= PROBE_CEILING {
        s.push(v)
    } else {
        s
    }
}

/// The output-capacity probes for an input of `len` bytes, in order:
/// twenty, fifty and a hundred times the input, then 10 MiB, then
/// 50 MiB, each skipped where it exceeds the probe ceiling.
pub open spec fn probe_sizes_spec(len: int) -> Seq<int> {
    push_if_within(
        push_if_within(
            push_if_within(push_if_within(push_if_within(Seq::empty(), len * 20), len * 50), len
                * 100),
            10485760,
        ),
        52428800,
    )
}

/// The output capacities to try, in order, for an input of `len` bytes.
/// Decompression probes them until one succeeds or a terminal failure
/// comes back; a retryable failure moves on to the next size.
pub fn probe_sizes(len: usize) -> (r: Vec<usize>)
    requires
        4 <= len <= INPUT_CEILING,
    ensures
        r@.map_values(|x: usize| x as int) == probe_sizes_spec(len as int),
{
    let mut v: Vec<usize> = Vec::new();
    let ghost s0 = Seq::<int>::empty();
    proof {
        assert(v@.map_values(|x: usize| x as int) =~= s0);
    }
    let c20: u64 = len as u64 * 20;
    if c20 <= PROBE_CEILING {
        v.push(c20 as usize);
    }
    let ghost s1 = push_if_within(s0, len as int * 20);
    proof {
        assert(v@.map_values(|x: usize| x as int) =~= s1);
    }
    let c50: u64 = len as u64 * 50;
    if c50 <= PROBE_CEILING {
        v.push(c50 as usize);
    }
    let ghost s2 = push_if_within(s1, len as int * 50);
    proof {
        assert(v@.map_values(|x: usize| x as int) =~= s2);
    }
    let c100: u64 = len as u64 * 100;
    if c100 <= PROBE_CEILING {
        v.push(c100 as usize);
    }
    let ghost s3 = push_if_within(s2, len as int * 100);
    proof {
        assert(v@.map_values(|x: usize| x as int) =~= s3);
    }
    v.push(10485760);
    let ghost s4 = push_if_within(s3, 10485760);
    proof {
        assert(v@.map_values(|x: usize| x as int) =~= s4);
    }
    v.push(52428800);
    proof {
        assert(v@.map_values(|x: usize| x as int) =~= push_if_within(s4, 52428800));
    }
    v
}

/// Failures of decompressing one segment's bytes.
#[derive(Clone, Copy, Debug, PartialEq, Eq, Structural)]
pub enum DecompressError {
    /// The input was empty.
    EmptyInput,
    /// The input was shorter than the smallest valid compressed stream.
    InputTooSmall,
    /// The input exceeded the sanity-check size ceiling.
    InputTooLarge,
    /// Every output-capacity probe failed with an output overrun.
    SizesExhausted,
    /// The codec reported a terminal failure.
    Codec(UclErrorKind),
}

} // verus!
