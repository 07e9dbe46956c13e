//! Multi-source assembly: accumulating the extracted segments of up to
//! three sources and rendering one contiguous image of the target
//! address range.
//!
//! The base address of the image is the target address of the *first*
//! accumulated segment — deliberately not the minimum over all segments;
//! a later segment with a lower target address falls outside the image
//! and its bytes are silently skipped.  The end address is the largest
//! target address any payload byte reaches.  Bytes no payload covers
//! keep the erased fill value `0xFF`; where payloads overlap, the later
//! segment's bytes win.

use vstd::prelude::*;
use crate::types::{AssembleError, ExtractError, ExtractedSegment, SourceFailure, SourceRole};

verus! {

/// The erased fill value of unwritten image bytes.
pub const FILL_BYTE: u8 = 0xFF;

/// A segment assembly can place: a payload of at least one byte whose
/// target range stays within the 32-bit address space.
pub open spec fn seg_valid(s: ExtractedSegment) -> bool {
    1 <= s.data@.len() <= u32::MAX && s.target_addr + s.data@.len() - 1 <= u32::MAX
}

/// Every segment of the list is one assembly can place.
pub open spec fn all_valid(segs: Seq<ExtractedSegment>) -> bool {
    forall|k: int| 0 <= k < segs.len() ==> seg_valid(#[trigger] segs[k])
}

/// The last target address a segment's payload reaches.
pub open spec fn seg_end(s: ExtractedSegment) -> int {
    s.target_addr + s.data@.len() - 1
}

/// The largest target address any payload of the list reaches.
pub open spec fn max_end(segs: Seq<ExtractedSegment>) -> int
    decreases segs.len(),
{
    if segs.len() <= 1 {
        seg_end(segs[0])
    } else {
        let m = max_end(segs.drop_last());
        let e = seg_end(segs.last());
        if e > m {
            e
        } else {
            m
        }
    }
}

/// No segment's payload reaches past the largest end.
pub proof fn lemma_max_end_ge(segs: Seq<ExtractedSegment>, j: int)
    requires
        0 <= j < segs.len(),
    ensures
        max_end(segs) >= seg_end(segs[j]),
    decreases segs.len(),
{
    if segs.len() > 1 && j < segs.len() - 1 {
        lemma_max_end_ge(segs.drop_last(), j);
    }
}

/// A segment is placed when its whole payload fits inside the image:
/// its target address is not below the base and its payload ends within
/// the buffer.
pub open spec fn placed(s: ExtractedSegment, base: int, total: int) -> bool {
    s.target_addr >= base && s.target_addr - base + s.data@.len() <= total
}

/// The byte at offset `k` of an image with the given base and size: the
/// byte the *last* placed segment covering `k` put there, or the erased
/// fill value when no placed segment covers `k`.
pub open spec fn image_byte(segs: Seq<ExtractedSegment>, base: int, total: int, k: int) -> u8
    decreases segs.len(),
{
    if segs.len() == 0 {
        FILL_BYTE
    } else {
        let s = segs.last();
        let off = s.target_addr - base;
        if placed(s, base, total) && off <= k < off + s.data@.len() {
            s.data@[k - off]
        } else {
            image_byte(segs.drop_last(), base, total, k)
        }
    }
}

/// The target-address span of the accumulated list: its base address —
/// the target address of the first segment, not the minimum — and its
/// end address.  An empty list has no span and no image.
pub fn image_span(segs: &Vec<ExtractedSegment>) -> (r: Result<(u32, u32), AssembleError>)
    requires
        all_valid(segs@),
    ensures
        (match r {
            Ok(span) => segs@.len() > 0 && span.0 == segs@[0].target_addr && span.1 == max_end(
                segs@,
            ),
            Err(e) => segs@.len() == 0 && e == AssembleError::NoSegments,
        }),
{
    if segs.len() == 0 {
        return Err(AssembleError::NoSegments);
    }
    let base: u32 = segs[0].target_addr;
    let first_len: usize = segs[0].data.len();
    let mut end: u32 = base + (first_len - 1) as u32;
    let mut i: usize = 1;
    proof {
        assert(segs@.take(1).drop_last() =~= segs@.take(0));
        assert(end == max_end(segs@.take(1)));
    }
    while i < segs.len()
        invariant
            1 <= i <= segs@.len(),
            segs@.len() >= 1,
            all_valid(segs@),
            end == max_end(segs@.take(i as int)),
        decreases segs@.len() - i,
    {
        let len: usize = segs[i].data.len();
        proof {
            assert(seg_valid(segs@[i as int]));
        }
        let e: u32 = segs[i].target_addr + (len - 1) as u32;
        proof {
            assert(segs@.take(i + 1).drop_last() =~= segs@.take(i as int));
            assert(segs@.take(i + 1).last() == segs@[i as int]);
        }
        if e > end {
            end = e;
        }
        i = i + 1;
    }
    proof {
        assert(segs@.take(segs@.len() as int) =~= segs@);
    }
    Ok((base, end))
}

/// The byte at offset `k` of the image: the last placed segment covering
/// `k` decides it, else it keeps the erased fill value.
fn segment_byte(segs: &Vec<ExtractedSegment>, base: u32, total: usize, k: usize) -> (r: u8)
    requires
        all_valid(segs@),
    ensures
        r == image_byte(segs@, base as int, total as int, k as int),
{
    let mut i: usize = segs.len();
    proof {
        assert(segs@.take(segs@.len() as int) =~= segs@);
    }
    while i > 0
        invariant
            i <= segs@.len(),
            all_valid(segs@),
            image_byte(segs@, base as int, total as int, k as int) == image_byte(
                segs@.take(i as int),
                base as int,
                total as int,
                k as int,
            ),
        decreases i,
    {
        i = i - 1;
        proof {
            assert(seg_valid(segs@[i as int]));
            assert(segs@.take(i + 1).drop_last() =~= segs@.take(i as int));
            assert(segs@.take(i + 1).last() == segs@[i as int]);
        }
        let s = &segs[i];
        if s.target_addr >= base {
            let off: u64 = (s.target_addr - base) as u64;
            let len: u64 = s.data.len() as u64;
            if off + len <= total as u64 && off <= k as u64 && (k as u64) < off + len {
                let off_u: usize = (s.target_addr - base) as usize;
                return s.data[k - off_u];
            }
        }
    }
    proof {
        assert(segs@.take(0) =~= Seq::<ExtractedSegment>::empty());
    }
    FILL_BYTE
}

/// Renders the accumulated segments into one contiguous image buffer of
/// the span's size, every byte as `image_byte` gives it.  Fails exactly
/// when no segment was accumulated.
pub fn assemble_image(segs: &Vec<ExtractedSegment>) -> (r: Result<Vec<u8>, AssembleError>)
    requires
        all_valid(segs@),
        segs@.len() > 0 ==> max_end(segs@) - segs@[0].target_addr + 1 <= usize::MAX,
    ensures
        (match r {
            Ok(buf) => {
                &&& segs@.len() > 0
                &&& buf@.len() == max_end(segs@) - segs@[0].target_addr + 1
                &&& forall|k: int|
                    0 <= k < buf@.len() ==> buf@[k] == image_byte(
                        segs@,
                        segs@[0].target_addr as int,
                        buf@.len() as int,
                        k,
                    )
            },
            Err(e) => segs@.len() == 0 && e == AssembleError::NoSegments,
        }),
{
    let span = match image_span(segs) {
        Err(e) => {
            return Err(e);
        },
        Ok(span) => span,
    };
    let (base, end) = span;
    proof {
        lemma_max_end_ge(segs@, 0);
        assert(seg_valid(segs@[0]));
    }
    let total: usize = ((end as u64 - base as u64) + 1) as usize;
    let mut buf: Vec<u8> = Vec::new();
    let mut k: usize = 0;
    while k < total
        invariant
            k <= total,
            buf@.len() == k,
            all_valid(segs@),
            segs@.len() > 0,
            base == segs@[0].target_addr,
            total == max_end(segs@) - segs@[0].target_addr + 1,
            forall|j: int|
                0 <= j < k ==> buf@[j] == image_byte(segs@, base as int, total as int, j),
        decreases total - k,
    {
        let b = segment_byte(segs, base, total, k);
        buf.push(b);
        k = k + 1;
    }
    Ok(buf)
}

/// What one source contributes to the accumulated list: its extracted
/// segments when it is present and succeeded, nothing otherwise.
pub open spec fn contribution_of(source: Option<Result<Vec<ExtractedSegment>, ExtractError>>) -> Seq<
    ExtractedSegment,
> {
    match source {
        Some(Ok(v)) => v@,
        _ => Seq::empty(),
    }
}

/// The warning one source leaves behind: exactly one, carrying its role
/// and error, when it is present and failed.
pub open spec fn failure_of(
    source: Option<Result<Vec<ExtractedSegment>, ExtractError>>,
    role: SourceRole,
) -> Seq<SourceFailure> {
    match source {
        Some(Err(e)) => seq![SourceFailure { role, error: e }],
        _ => Seq::empty(),
    }
}

/// Accumulates the per-source extraction results in role order —
/// bootloader, then primary, then secondary.  A failed source is
/// downgraded to a warning and contributes no segments; it never aborts
/// the run by itself.
pub fn combine_sources(
    btld: Option<Result<Vec<ExtractedSegment>, ExtractError>>,
    swfl1: Option<Result<Vec<ExtractedSegment>, ExtractError>>,
    swfl2: Option<Result<Vec<ExtractedSegment>, ExtractError>>,
) -> (r: (Vec<ExtractedSegment>, Vec<SourceFailure>))
    ensures
        r.0@ == contribution_of(btld) + contribution_of(swfl1) + contribution_of(swfl2),
        r.1@ == failure_of(btld, SourceRole::Btld) + failure_of(swfl1, SourceRole::Swfl1)
            + failure_of(swfl2, SourceRole::Swfl2),
{
    let ghost b0 = btld;
    let ghost s10 = swfl1;
    let ghost s20 = swfl2;
    let mut all: Vec<ExtractedSegment> = Vec::new();
    let mut warns: Vec<SourceFailure> = Vec::new();
    match btld {
        Some(Ok(mut v)) => {
            all.append(&mut v);
        },
        Some(Err(e)) => {
            warns.push(SourceFailure { role: SourceRole::Btld, error: e });
        },
        None => {},
    }
    proof {
        assert(all@ =~= contribution_of(b0));
        assert(warns@ =~= failure_of(b0, SourceRole::Btld));
    }
    match swfl1 {
        Some(Ok(mut v)) => {
            all.append(&mut v);
        },
        Some(Err(e)) => {
            warns.push(SourceFailure { role: SourceRole::Swfl1, error: e });
        },
        None => {},
    }
    proof {
        assert(all@ =~= contribution_of(b0) + contribution_of(s10));
        assert(warns@ =~= failure_of(b0, SourceRole::Btld) + failure_of(s10, SourceRole::Swfl1));
    }
    match swfl2 {
        Some(Ok(mut v)) => {
            all.append(&mut v);
        },
        Some(Err(e)) => {
            warns.push(SourceFailure { role: SourceRole::Swfl2, error: e });
        },
        None => {},
    }
    proof {
        assert(all@ =~= (contribution_of(b0) + contribution_of(s10)) + contribution_of(s20));
        assert((contribution_of(b0) + contribution_of(s10)) + contribution_of(s20) =~= contribution_of(b0) + contribution_of(s10) + contribution_of(
            s20,
        ));
        assert(warns@ =~= failure_of(b0, SourceRole::Btld) + failure_of(s10, SourceRole::Swfl1)
            + failure_of(s20, SourceRole::Swfl2));
    }
    (all, warns)
}

/// Law: for two segments whose target ranges do not overlap, the second
/// above the first, assembly places each payload at its exact computed
/// offset, and every image byte neither payload covers keeps the erased
/// fill value.
pub proof fn lemma_disjoint_pair_placement(segs: Seq<ExtractedSegment>)
    requires
        segs.len() == 2,
        all_valid(segs),
        seg_end(segs[0]) < segs[1].target_addr,
    ensures
        forall|j: int|
            0 <= j < segs[0].data@.len() ==> image_byte(
                segs,
                segs[0].target_addr as int,
                max_end(segs) - segs[0].target_addr + 1,
                j,
            ) == segs[0].data@[j],
        forall|j: int|
            0 <= j < segs[1].data@.len() ==> image_byte(
                segs,
                segs[0].target_addr as int,
                max_end(segs) - segs[0].target_addr + 1,
                segs[1].target_addr - segs[0].target_addr + j,
            ) == segs[1].data@[j],
        forall|k: int|
            0 <= k < max_end(segs) - segs[0].target_addr + 1 && !(k < segs[0].data@.len()) && !(
            segs[1].target_addr - segs[0].target_addr <= k < segs[1].target_addr
                - segs[0].target_addr + segs[1].data@.len()) ==> #[trigger] image_byte(
                segs,
                segs[0].target_addr as int,
                max_end(segs) - segs[0].target_addr + 1,
                k,
            ) == FILL_BYTE,
{
    let s0 = segs[0];
    let s1 = segs[1];
    let base = s0.target_addr as int;
    let total = max_end(segs) - base + 1;
    assert(seg_valid(s0));
    assert(seg_valid(s1));
    assert(segs.drop_last() =~= seq![s0]);
    assert(segs.last() == s1);
    assert(max_end(seq![s0]) == seg_end(s0));
    assert(max_end(segs) == seg_end(s1));
    let off1 = s1.target_addr - base;
    assert(placed(s1, base, total));
    assert(placed(s0, base, total));
    assert(seq![s0].drop_last() =~= Seq::<ExtractedSegment>::empty());
    assert forall|j: int| 0 <= j < s0.data@.len() implies image_byte(segs, base, total, j)
        == s0.data@[j] by {
        assert(j < off1);
        assert(image_byte(segs, base, total, j) == image_byte(seq![s0], base, total, j));
    }
    assert forall|j: int| 0 <= j < s1.data@.len() implies image_byte(segs, base, total, off1 + j)
        == s1.data@[j] by {
        assert(off1 <= off1 + j < off1 + s1.data@.len());
    }
    assert forall|k: int|
        0 <= k < total && !(k < s0.data@.len()) && !(off1 <= k < off1 + s1.data@.len()) implies
        image_byte(segs, base, total, k) == FILL_BYTE by {
        assert(image_byte(segs, base, total, k) == image_byte(seq![s0], base, total, k));
        assert(image_byte(seq![s0], base, total, k) == image_byte(
            Seq::<ExtractedSegment>::empty(),
            base,
            total,
            k,
        ));
    }
}

/// Law: a present source that failed contributes no segments, only a
/// warning: with the bootloader succeeded and the primary failed, the
/// accumulated list is exactly the bootloader's segments — the image is
/// built from them alone — and where the bootloader contributed
/// anything, the list is non-empty, so the run does not fail for the
/// primary's sake.
pub proof fn lemma_failed_source_isolated(b: Vec<ExtractedSegment>, e: ExtractError)
    ensures
        contribution_of(Some(Ok(b))) + contribution_of(Some(Err(e))) + contribution_of(None)
            == b@,
        failure_of(Some(Err(e)), SourceRole::Swfl1) == seq![
            (SourceFailure { role: SourceRole::Swfl1, error: e }),
        ],
        b@.len() > 0 ==> (contribution_of(Some(Ok(b))) + contribution_of(Some(Err(e)))
            + contribution_of(None)).len() > 0,
{
    assert(contribution_of(Some(Ok(b))) + contribution_of(Some(Err(e))) + contribution_of(None)
        =~= b@);
}

/// Law: with no source present, nothing at all is accumulated, so
/// assembly fails with the no-segments error before any output exists.
pub proof fn lemma_no_sources_no_segments()
    ensures
        contribution_of(None) + contribution_of(None) + contribution_of(None) == Seq::<
            ExtractedSegment,
        >::empty(),
{
    assert(contribution_of(None) + contribution_of(None) + contribution_of(None) =~= Seq::<
        ExtractedSegment,
    >::empty());
}

/// Law: the base address is the target address of the first segment of
/// the first contributing source, even where a later source's first
/// segment has a lower target address — it is not the minimum across
/// all segments.
pub proof fn lemma_base_is_first_sources_first(
    btld: Option<Result<Vec<ExtractedSegment>, ExtractError>>,
    swfl1: Option<Result<Vec<ExtractedSegment>, ExtractError>>,
    swfl2: Option<Result<Vec<ExtractedSegment>, ExtractError>>,
)
    requires
        contribution_of(btld).len() > 0,
        contribution_of(swfl1).len() > 0,
        contribution_of(swfl1)[0].target_addr < contribution_of(btld)[0].target_addr,
    ensures
        (contribution_of(btld) + contribution_of(swfl1) + contribution_of(swfl2))[0]
            == contribution_of(btld)[0],
        contribution_of(swfl1)[0].target_addr < (contribution_of(btld) + contribution_of(swfl1)
            + contribution_of(swfl2))[0].target_addr,
{
}

} // verus!
