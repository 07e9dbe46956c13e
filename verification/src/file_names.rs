//! File-name transforms: deriving the sibling segment-map name from a
//! binary's name, proposing an output name, and the display form of a
//! candidate file's name.
//!
//! All transforms are pure byte-string manipulation on the file name
//! alone; directory handling stays with the caller.

use vstd::prelude::*;
use crate::bytes::{
    contains_pat,
    contains_seq,
    copy_range,
    ends_with,
    ends_with_seq,
    last_idx_of,
    replace_all,
    replace_from,
    rfind_byte,
};

verus! {

/// The bytes of `".bin"`.
pub open spec fn bin_pat() -> Seq<u8> {
    seq!['.' as u8, 'b' as u8, 'i' as u8, 'n' as u8]
}

/// The bytes of `".xml"`.
pub open spec fn xml_pat() -> Seq<u8> {
    seq!['.' as u8, 'x' as u8, 'm' as u8, 'l' as u8]
}

/// The bytes of `".bin."`.
pub open spec fn bin_dot_pat() -> Seq<u8> {
    seq!['.' as u8, 'b' as u8, 'i' as u8, 'n' as u8, '.' as u8]
}

/// The bytes of `"_"`.
pub open spec fn underscore_pat() -> Seq<u8> {
    seq!['_' as u8]
}

/// The bytes of `".vr.bin"`.
pub open spec fn vr_suffix() -> Seq<u8> {
    seq!['.' as u8, 'v' as u8, 'r' as u8, '.' as u8, 'b' as u8, 'i' as u8, 'n' as u8]
}

/// The segment-map file name derived from a binary file name: every
/// occurrence of `".bin"` replaced by `".xml"`, so that extended names
/// such as `name.bin.001_015_000` become `name.xml.001_015_000`.
pub open spec fn xml_name_of(name: Seq<u8>) -> Seq<u8> {
    replace_from(name, bin_pat(), xml_pat(), 0)
}

/// The file name without a final `".bin"` extension.
pub open spec fn base_name_of(name: Seq<u8>) -> Seq<u8> {
    if ends_with_seq(name, bin_pat()) {
        name.take(name.len() - 4)
    } else {
        name
    }
}

/// The proposed output name: the part of the base name after its last
/// underscore, with `".vr.bin"` appended; nothing when the base name
/// holds no underscore.
pub open spec fn output_name_of(name: Seq<u8>) -> Option<Seq<u8>> {
    let base = base_name_of(name);
    let p = last_idx_of(base, '_' as u8);
    if p >= 0 {
        Some(base.skip(p + 1) + vr_suffix())
    } else {
        None
    }
}

/// The display form of a candidate file name: every `".bin."` replaced by
/// `"_"`.
pub open spec fn display_name_of(name: Seq<u8>) -> Seq<u8> {
    replace_from(name, bin_dot_pat(), underscore_pat(), 0)
}

/// Derives the sibling segment-map file name from a binary file name.
pub fn get_xml_path(name: &[u8]) -> (r: Vec<u8>)
    ensures
        r@ == xml_name_of(name@),
{
    let pat: [u8; 4] = ['.' as u8, 'b' as u8, 'i' as u8, 'n' as u8];
    let rep: [u8; 4] = ['.' as u8, 'x' as u8, 'm' as u8, 'l' as u8];
    proof {
        assert(pat@ =~= bin_pat());
        assert(rep@ =~= xml_pat());
    }
    replace_all(name, pat.as_slice(), rep.as_slice())
}

/// Proposes an output file name from a primary-image file name: the
/// version part after the last underscore, suffixed with `".vr.bin"`.
pub fn generate_output_filename(name: &[u8]) -> (r: Option<Vec<u8>>)
    ensures
        (match r {
            Some(v) => output_name_of(name@) == Some(v@),
            None => output_name_of(name@) is None,
        }),
{
    let pat: [u8; 4] = ['.' as u8, 'b' as u8, 'i' as u8, 'n' as u8];
    proof {
        assert(pat@ =~= bin_pat());
    }
    let base: Vec<u8> = if ends_with(name, pat.as_slice()) {
        copy_range(name, 0, name.len() - 4)
    } else {
        copy_range(name, 0, name.len())
    };
    proof {
        assert(name@.subrange(0, name@.len() as int) =~= name@);
        assert(name@.subrange(0, name@.len() - 4) =~= name@.take(name@.len() - 4));
        assert(base@ == base_name_of(name@));
    }
    match rfind_byte(base.as_slice(), '_' as u8) {
        None => None,
        Some(p) => {
            let mut out: Vec<u8> = copy_range(base.as_slice(), p + 1, base.len());
            proof {
                assert(base@.subrange(p + 1, base@.len() as int) =~= base@.skip(p + 1));
            }
            let suffix: [u8; 7] = [
                '.' as u8,
                'v' as u8,
                'r' as u8,
                '.' as u8,
                'b' as u8,
                'i' as u8,
                'n' as u8,
            ];
            proof {
                assert(suffix@ =~= vr_suffix());
            }
            let ghost before = out@;
            let mut k: usize = 0;
            while k < 7
                invariant
                    k <= 7,
                    suffix@.len() == 7,
                    out@ == before + suffix@.take(k as int),
                decreases 7 - k,
            {
                out.push(suffix[k]);
                proof {
                    assert(out@ =~= before + suffix@.take(k + 1));
                }
                k = k + 1;
            }
            proof {
                assert(suffix@.take(7) =~= suffix@);
                assert(out@ == base@.skip(p + 1) + vr_suffix());
            }
            Some(out)
        },
    }
}

/// The display form of a candidate file name.
pub fn display_name(name: &[u8]) -> (r: Vec<u8>)
    ensures
        r@ == display_name_of(name@),
{
    let pat: [u8; 5] = ['.' as u8, 'b' as u8, 'i' as u8, 'n' as u8, '.' as u8];
    let rep: [u8; 1] = ['_' as u8];
    proof {
        assert(pat@ =~= bin_dot_pat());
        assert(rep@ =~= underscore_pat());
    }
    replace_all(name, pat.as_slice(), rep.as_slice())
}

/// A candidate source file is one whose name holds `".bin"` anywhere.
pub fn is_bin_file_name(name: &[u8]) -> (r: bool)
    ensures
        r == contains_seq(name@, bin_pat()),
{
    let pat: [u8; 4] = ['.' as u8, 'b' as u8, 'i' as u8, 'n' as u8];
    proof {
        assert(pat@ =~= bin_pat());
    }
    contains_pat(name, pat.as_slice())
}

} // verus!
