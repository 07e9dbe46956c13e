//! Single-source extraction: slicing each descriptor's source range out
//! of one source file's bytes.
//!
//! For each descriptor, in map order, the inclusive source range is read
//! out of the data; a range that underflows or reaches past the end of
//! the data fails the whole file.  Compressed ranges are handed on
//! as-is, tagged, for the decompression capability to expand; the
//! nominal target length only ever yields a warning, never a failure.

use vstd::prelude::*;
use crate::bytes::copy_range;
use crate::types::{ExtractError, FlashSegment, SourceSlice};

verus! {

impl View for SourceSlice {
    type V = (u32, Seq<u8>, bool);

    open spec fn view(&self) -> (u32, Seq<u8>, bool) {
        (self.target_addr, self.bytes@, self.is_compressed)
    }
}

/// A slice list, as its mathematical form.
pub open spec fn slices_view(v: Seq<SourceSlice>) -> Seq<(u32, Seq<u8>, bool)> {
    v.map_values(|s: SourceSlice| s@)
}

/// The slices the descriptors from index `i` on cut out of `data`, or
/// the failure of the first descriptor whose source range cannot be
/// read in full.
pub open spec fn slices_spec(data: Seq<u8>, segs: Seq<FlashSegment>, i: int) -> Result<
    Seq<(u32, Seq<u8>, bool)>,
    ExtractError,
>
    decreases segs.len() - i,
{
    if i < 0 || i >= segs.len() {
        Ok(Seq::empty())
    } else {
        let sg = segs[i];
        if sg.source_end_addr < sg.source_start_addr || sg.source_end_addr >= data.len() {
            Err(ExtractError::Io)
        } else {
            match slices_spec(data, segs, i + 1) {
                Err(e) => Err(e),
                Ok(rest) => Ok(
                    seq![
                        (
                            sg.target_start_addr,
                            data.subrange(
                                sg.source_start_addr as int,
                                sg.source_end_addr + 1,
                            ),
                            sg.is_compressed,
                        ),
                    ] + rest,
                ),
            }
        }
    }
}

/// Cuts every descriptor's source range out of `data`, in map order:
/// exactly the bytes `[source_start_addr, source_end_addr]` of each, with
/// its target address and compression flag.  Fails with an I/O error on
/// the first descriptor whose range underflows or reaches past the end
/// of the data.
pub fn extract_ranges(data: &[u8], segs: &Vec<FlashSegment>) -> (r: Result<
    Vec<SourceSlice>,
    ExtractError,
>)
    ensures
        (match r {
            Ok(v) => slices_spec(data@, segs@, 0) == Ok::<_, ExtractError>(slices_view(v@)),
            Err(e) => slices_spec(data@, segs@, 0) == Err::<Seq<(u32, Seq<u8>, bool)>, _>(e),
        }),
{
    let n: usize = data.len();
    let mut out: Vec<SourceSlice> = Vec::new();
    let mut i: usize = 0;
    proof {
        assert(slices_view(out@) =~= Seq::<(u32, Seq<u8>, bool)>::empty());
        assert(n == data@.len());
    }
    while i < segs.len()
        invariant
            i <= segs@.len(),
            data@.len() <= usize::MAX,
            (match slices_spec(data@, segs@, i as int) {
                Ok(rest) => slices_spec(data@, segs@, 0) == Ok::<_, ExtractError>(
                    slices_view(out@) + rest,
                ),
                Err(e) => slices_spec(data@, segs@, 0) == Err::<Seq<(u32, Seq<u8>, bool)>, _>(e),
            }),
        decreases segs@.len() - i,
    {
        let sg = segs[i];
        if sg.source_end_addr < sg.source_start_addr {
            return Err(ExtractError::Io);
        }
        if sg.source_end_addr as u64 >= data.len() as u64 {
            return Err(ExtractError::Io);
        }
        let lo: usize = sg.source_start_addr as usize;
        let hi: usize = sg.source_end_addr as usize + 1;
        let bytes = copy_range(data, lo, hi);
        let ghost out_old = out@;
        out.push(
            SourceSlice { target_addr: sg.target_start_addr, bytes, is_compressed: sg.is_compressed },
        );
        proof {
            let pair = (
                sg.target_start_addr,
                data@.subrange(sg.source_start_addr as int, sg.source_end_addr + 1),
                sg.is_compressed,
            );
            assert(slices_view(out@) =~= slices_view(out_old) + seq![pair]);
            match slices_spec(data@, segs@, i + 1) {
                Err(e) => {},
                Ok(rest) => {
                    assert(slices_spec(data@, segs@, i as int) == Ok::<_, ExtractError>(
                        seq![pair] + rest,
                    ));
                    assert(slices_view(out_old) + (seq![pair] + rest) =~= (slices_view(out_old)
                        + seq![pair]) + rest);
                },
            }
        }
        i = i + 1;
    }
    proof {
        assert(slices_view(out@) + Seq::<(u32, Seq<u8>, bool)>::empty() =~= slices_view(out@));
    }
    Ok(out)
}

/// The payload size the 32-bit target-length computation yields for a
/// descriptor: `target_end_addr - target_start_addr + 1` in wrapping
/// 32-bit arithmetic.
pub open spec fn target_size_wrapped(seg: FlashSegment) -> int {
    let d = seg.target_end_addr - seg.target_start_addr + 1;
    if d >= 0x1_0000_0000 {
        d - 0x1_0000_0000
    } else if d < 0 {
        d + 0x1_0000_0000
    } else {
        d
    }
}

/// A payload's length disagrees with the descriptor's nominal target
/// length.  Such a disagreement is reported as a warning; the payload's
/// actual length is what assembly uses.
pub fn size_mismatch(seg: &FlashSegment, payload_len: usize) -> (r: bool)
    ensures
        r == (payload_len as int != target_size_wrapped(*seg)),
{
    let size: u64 = if seg.target_end_addr >= seg.target_start_addr {
        let d: u64 = (seg.target_end_addr - seg.target_start_addr) as u64 + 1;
        if d == 0x1_0000_0000u64 {
            0
        } else {
            d
        }
    } else {
        let d: u64 = (seg.target_end_addr as u64 + 0x1_0000_0000u64 + 1) - (
        seg.target_start_addr as u64);
        if d == 0x1_0000_0000u64 {
            0
        } else {
            d
        }
    };
    payload_len as u64 != size
}

} // verus!
