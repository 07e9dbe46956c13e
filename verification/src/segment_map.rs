//! The segment-map parser: interprets the tokenizer's event stream as an
//! ordered sequence of segment descriptors.
//!
//! An element named `FLASH-SEGMENT` starts one descriptor; its child
//! elements `SOURCE-START-ADDRESS`, `SOURCE-END-ADDRESS`,
//! `TARGET-START-ADDRESS` and `TARGET-END-ADDRESS` carry hexadecimal
//! addresses; the `COMPRESSION-STATUS` attribute on the segment element
//! itself sets the compression flag, true exactly for the value
//! `COMPRESSED`.  Element and attribute names are matched by their local
//! name, so a default-namespace declaration changes nothing.  Elements
//! must nest properly and the document must hold exactly one root.

use vstd::prelude::*;
use crate::bytes::{bytes_eq, copy_range, find_byte, idx_of, lemma_idx_of_bounds};
use crate::hex::{hex_u32_val, is_hex_u32, parse_hex_u32};
use crate::types::{FlashSegment, ParseError};
use crate::xml::{attrs_view, evs_view, tokenize, tokens_of, EventSpec, XmlEvent, B_COLON};

verus! {

/// The bytes of `FLASH-SEGMENT`.
pub open spec fn flash_segment_tag() -> Seq<u8> {
    seq![
        'F' as u8,
        'L' as u8,
        'A' as u8,
        'S' as u8,
        'H' as u8,
        '-' as u8,
        'S' as u8,
        'E' as u8,
        'G' as u8,
        'M' as u8,
        'E' as u8,
        'N' as u8,
        'T' as u8,
    ]
}

/// The bytes of `SOURCE-START-ADDRESS`.
pub open spec fn source_start_tag() -> Seq<u8> {
    seq![
        'S' as u8,
        'O' as u8,
        'U' as u8,
        'R' as u8,
        'C' as u8,
        'E' as u8,
        '-' as u8,
        'S' as u8,
        'T' as u8,
        'A' as u8,
        'R' as u8,
        'T' as u8,
        '-' as u8,
        'A' as u8,
        'D' as u8,
        'D' as u8,
        'R' as u8,
        'E' as u8,
        'S' as u8,
        'S' as u8,
    ]
}

/// The bytes of `SOURCE-END-ADDRESS`.
pub open spec fn source_end_tag() -> Seq<u8> {
    seq![
        'S' as u8,
        'O' as u8,
        'U' as u8,
        'R' as u8,
        'C' as u8,
        'E' as u8,
        '-' as u8,
        'E' as u8,
        'N' as u8,
        'D' as u8,
        '-' as u8,
        'A' as u8,
        'D' as u8,
        'D' as u8,
        'R' as u8,
        'E' as u8,
        'S' as u8,
        'S' as u8,
    ]
}

/// The bytes of `TARGET-START-ADDRESS`.
pub open spec fn target_start_tag() -> Seq<u8> {
    seq![
        'T' as u8,
        'A' as u8,
        'R' as u8,
        'G' as u8,
        'E' as u8,
        'T' as u8,
        '-' as u8,
        'S' as u8,
        'T' as u8,
        'A' as u8,
        'R' as u8,
        'T' as u8,
        '-' as u8,
        'A' as u8,
        'D' as u8,
        'D' as u8,
        'R' as u8,
        'E' as u8,
        'S' as u8,
        'S' as u8,
    ]
}

/// The bytes of `TARGET-END-ADDRESS`.
pub open spec fn target_end_tag() -> Seq<u8> {
    seq![
        'T' as u8,
        'A' as u8,
        'R' as u8,
        'G' as u8,
        'E' as u8,
        'T' as u8,
        '-' as u8,
        'E' as u8,
        'N' as u8,
        'D' as u8,
        '-' as u8,
        'A' as u8,
        'D' as u8,
        'D' as u8,
        'R' as u8,
        'E' as u8,
        'S' as u8,
        'S' as u8,
    ]
}

/// The bytes of `COMPRESSION-STATUS`.
pub open spec fn compression_status_key() -> Seq<u8> {
    seq![
        'C' as u8,
        'O' as u8,
        'M' as u8,
        'P' as u8,
        'R' as u8,
        'E' as u8,
        'S' as u8,
        'S' as u8,
        'I' as u8,
        'O' as u8,
        'N' as u8,
        '-' as u8,
        'S' as u8,
        'T' as u8,
        'A' as u8,
        'T' as u8,
        'U' as u8,
        'S' as u8,
    ]
}

/// The bytes of `COMPRESSED`.
pub open spec fn compressed_value() -> Seq<u8> {
    seq![
        'C' as u8,
        'O' as u8,
        'M' as u8,
        'P' as u8,
        'R' as u8,
        'E' as u8,
        'S' as u8,
        'S' as u8,
        'E' as u8,
        'D' as u8,
    ]
}

/// The local part of a possibly prefixed name: everything after the first
/// colon, or the whole name when there is none.
pub open spec fn local_of(name: Seq<u8>) -> Seq<u8> {
    let c = idx_of(name, 0, B_COLON);
    if c < name.len() {
        name.skip(c + 1)
    } else {
        name
    }
}

/// The value of the last attribute whose local name equals `key`; later
/// duplicates shadow earlier ones.
pub open spec fn attr_lookup(attrs: Seq<(Seq<u8>, Seq<u8>)>, key: Seq<u8>) -> Option<Seq<u8>>
    decreases attrs.len(),
{
    if attrs.len() == 0 {
        None
    } else if local_of(attrs.last().0) == key {
        Some(attrs.last().1)
    } else {
        attr_lookup(attrs.drop_last(), key)
    }
}

/// The compression flag carried by a segment element's attributes: true
/// exactly when `COMPRESSION-STATUS` is present with value `COMPRESSED`.
pub open spec fn compressed_flag(attrs: Seq<(Seq<u8>, Seq<u8>)>) -> bool {
    attr_lookup(attrs, compression_status_key()) == Some(compressed_value())
}

/// The parser's state between events.
pub struct ParseState {
    /// Local name of the element most recently started.
    pub cur: Seq<u8>,
    /// A segment element is open.
    pub in_seg: bool,
    /// The descriptor accumulating for the open segment element.
    pub seg: FlashSegment,
    /// Raw names of the elements currently open, outermost first.
    pub open_tags: Seq<Seq<u8>>,
    /// A root element has been closed.
    pub root_done: bool,
    /// The descriptors completed so far, in document order.
    pub segs: Seq<FlashSegment>,
}

/// The state a parse starts from.
pub open spec fn init_state() -> ParseState {
    ParseState {
        cur: Seq::empty(),
        in_seg: false,
        seg: FlashSegment::zero_spec(),
        open_tags: Seq::empty(),
        root_done: false,
        segs: Seq::empty(),
    }
}

/// One parser step: the state after interpreting `ev`, or the parse
/// failure the event provokes.
pub open spec fn istep(st: ParseState, ev: EventSpec) -> Result<ParseState, ParseError> {
    match ev {
        EventSpec::Start { name, attrs } => {
            if st.open_tags.len() == 0 && st.root_done {
                Err(ParseError::Malformed)
            } else {
                let ln = local_of(name);
                if ln == flash_segment_tag() {
                    Ok(
                        ParseState {
                            cur: ln,
                            in_seg: true,
                            seg: FlashSegment { is_compressed: compressed_flag(attrs), ..st.seg },
                            open_tags: st.open_tags.push(name),
                            ..st
                        },
                    )
                } else {
                    Ok(ParseState { cur: ln, open_tags: st.open_tags.push(name), ..st })
                }
            }
        },
        EventSpec::Text { text } => {
            if st.open_tags.len() == 0 {
                Err(ParseError::Malformed)
            } else if st.in_seg {
                if st.cur == source_start_tag() {
                    if is_hex_u32(text) {
                        Ok(
                            ParseState {
                                seg: FlashSegment {
                                    source_start_addr: hex_u32_val(text) as u32,
                                    ..st.seg
                                },
                                ..st
                            },
                        )
                    } else {
                        Err(ParseError::InvalidAddress)
                    }
                } else if st.cur == source_end_tag() {
                    if is_hex_u32(text) {
                        Ok(
                            ParseState {
                                seg: FlashSegment {
                                    source_end_addr: hex_u32_val(text) as u32,
                                    ..st.seg
                                },
                                ..st
                            },
                        )
                    } else {
                        Err(ParseError::InvalidAddress)
                    }
                } else if st.cur == target_start_tag() {
                    if is_hex_u32(text) {
                        Ok(
                            ParseState {
                                seg: FlashSegment {
                                    target_start_addr: hex_u32_val(text) as u32,
                                    ..st.seg
                                },
                                ..st
                            },
                        )
                    } else {
                        Err(ParseError::InvalidAddress)
                    }
                } else if st.cur == target_end_tag() {
                    if is_hex_u32(text) {
                        Ok(
                            ParseState {
                                seg: FlashSegment {
                                    target_end_addr: hex_u32_val(text) as u32,
                                    ..st.seg
                                },
                                ..st
                            },
                        )
                    } else {
                        Err(ParseError::InvalidAddress)
                    }
                } else {
                    Ok(st)
                }
            } else {
                Ok(st)
            }
        },
        EventSpec::End { name } => {
            if st.open_tags.len() == 0 || st.open_tags.last() != name {
                Err(ParseError::Malformed)
            } else {
                let tags2 = st.open_tags.drop_last();
                if local_of(name) == flash_segment_tag() && st.in_seg {
                    Ok(
                        ParseState {
                            in_seg: false,
                            seg: FlashSegment::zero_spec(),
                            open_tags: tags2,
                            root_done: st.root_done || tags2.len() == 0,
                            segs: st.segs.push(st.seg),
                            ..st
                        },
                    )
                } else {
                    Ok(
                        ParseState {
                            open_tags: tags2,
                            root_done: st.root_done || tags2.len() == 0,
                            ..st
                        },
                    )
                }
            }
        },
    }
}

/// Interprets the events from index `i` on, starting in state `st`.  At
/// the end of the stream the parse succeeds exactly when every element
/// has been closed and a root was seen.
pub open spec fn irun(st: ParseState, evs: Seq<EventSpec>, i: int) -> Result<
    Seq<FlashSegment>,
    ParseError,
>
    decreases evs.len() - i,
{
    if i < 0 || i >= evs.len() {
        if st.open_tags.len() == 0 && st.root_done {
            Ok(st.segs)
        } else {
            Err(ParseError::Malformed)
        }
    } else {
        match istep(st, evs[i]) {
            Err(e) => Err(e),
            Ok(st2) => irun(st2, evs, i + 1),
        }
    }
}

/// The descriptors an event stream denotes.
pub open spec fn segments_of(evs: Seq<EventSpec>) -> Result<Seq<FlashSegment>, ParseError> {
    irun(init_state(), evs, 0)
}

/// The descriptors a document denotes: one per `FLASH-SEGMENT` element,
/// in document order.
pub open spec fn parse_spec(doc: Seq<u8>) -> Result<Seq<FlashSegment>, ParseError> {
    match tokens_of(doc) {
        None => Err(ParseError::Malformed),
        Some(evs) => segments_of(evs),
    }
}

/// Copies a byte slice into a fresh vector.
fn copy_bytes(s: &[u8]) -> (v: Vec<u8>)
    ensures
        v@ == s@,
{
    let v = copy_range(s, 0, s.len());
    proof {
        assert(s@.subrange(0, s@.len() as int) =~= s@);
    }
    v
}

/// Extracts the local part of a possibly prefixed name.
fn local_name(name: &[u8]) -> (r: Vec<u8>)
    ensures
        r@ == local_of(name@),
{
    let c = find_byte(name, 0, B_COLON);
    if c < name.len() {
        let v = copy_range(name, c + 1, name.len());
        proof {
            assert(name@.subrange(c + 1, name@.len() as int) =~= name@.skip(c + 1));
        }
        v
    } else {
        copy_bytes(name)
    }
}

/// Looks up the value of the last attribute whose local name equals `key`.
fn attr_value<'a>(attrs: &'a Vec<(Vec<u8>, Vec<u8>)>, key: &[u8]) -> (r: Option<&'a Vec<u8>>)
    ensures
        (match r {
            Some(v) => attr_lookup(attrs_view(attrs@), key@) == Some(v@),
            None => attr_lookup(attrs_view(attrs@), key@) is None,
        }),
{
    let mut i: usize = attrs.len();
    proof {
        assert(attrs_view(attrs@).take(attrs@.len() as int) =~= attrs_view(attrs@));
    }
    while i > 0
        invariant
            i <= attrs@.len(),
            attr_lookup(attrs_view(attrs@), key@) == attr_lookup(
                attrs_view(attrs@).take(i as int),
                key@,
            ),
        decreases i,
    {
        i = i - 1;
        let ln = local_name(attrs[i].0.as_slice());
        proof {
            assert(attrs_view(attrs@).take(i + 1).last() == (attrs@[i as int].0@, attrs@[
                i as int].1@));
            assert(attrs_view(attrs@).take(i + 1).drop_last() =~= attrs_view(attrs@).take(i as int));
        }
        if bytes_eq(ln.as_slice(), key) {
            return Some(&attrs[i].1);
        }
    }
    proof {
        assert(attrs_view(attrs@).take(0) =~= Seq::<(Seq<u8>, Seq<u8>)>::empty());
    }
    None
}

/// Interprets a tokenized event stream as segment descriptors.
pub fn interpret_events(events: &Vec<XmlEvent>) -> (r: Result<Vec<FlashSegment>, ParseError>)
    ensures
        (match r {
            Ok(v) => segments_of(evs_view(events@)) == Ok::<Seq<FlashSegment>, ParseError>(v@),
            Err(e) => segments_of(evs_view(events@)) == Err::<Seq<FlashSegment>, ParseError>(e),
        }),
{
    let ghost evs = evs_view(events@);
    let fs_tag: [u8; 13] = [
        'F' as u8,
        'L' as u8,
        'A' as u8,
        'S' as u8,
        'H' as u8,
        '-' as u8,
        'S' as u8,
        'E' as u8,
        'G' as u8,
        'M' as u8,
        'E' as u8,
        'N' as u8,
        'T' as u8,
    ];
    let ss_tag: [u8; 20] = [
        'S' as u8,
        'O' as u8,
        'U' as u8,
        'R' as u8,
        'C' as u8,
        'E' as u8,
        '-' as u8,
        'S' as u8,
        'T' as u8,
        'A' as u8,
        'R' as u8,
        'T' as u8,
        '-' as u8,
        'A' as u8,
        'D' as u8,
        'D' as u8,
        'R' as u8,
        'E' as u8,
        'S' as u8,
        'S' as u8,
    ];
    let se_tag: [u8; 18] = [
        'S' as u8,
        'O' as u8,
        'U' as u8,
        'R' as u8,
        'C' as u8,
        'E' as u8,
        '-' as u8,
        'E' as u8,
        'N' as u8,
        'D' as u8,
        '-' as u8,
        'A' as u8,
        'D' as u8,
        'D' as u8,
        'R' as u8,
        'E' as u8,
        'S' as u8,
        'S' as u8,
    ];
    let ts_tag: [u8; 20] = [
        'T' as u8,
        'A' as u8,
        'R' as u8,
        'G' as u8,
        'E' as u8,
        'T' as u8,
        '-' as u8,
        'S' as u8,
        'T' as u8,
        'A' as u8,
        'R' as u8,
        'T' as u8,
        '-' as u8,
        'A' as u8,
        'D' as u8,
        'D' as u8,
        'R' as u8,
        'E' as u8,
        'S' as u8,
        'S' as u8,
    ];
    let te_tag: [u8; 18] = [
        'T' as u8,
        'A' as u8,
        'R' as u8,
        'G' as u8,
        'E' as u8,
        'T' as u8,
        '-' as u8,
        'E' as u8,
        'N' as u8,
        'D' as u8,
        '-' as u8,
        'A' as u8,
        'D' as u8,
        'D' as u8,
        'R' as u8,
        'E' as u8,
        'S' as u8,
        'S' as u8,
    ];
    let cs_key: [u8; 18] = [
        'C' as u8,
        'O' as u8,
        'M' as u8,
        'P' as u8,
        'R' as u8,
        'E' as u8,
        'S' as u8,
        'S' as u8,
        'I' as u8,
        'O' as u8,
        'N' as u8,
        '-' as u8,
        'S' as u8,
        'T' as u8,
        'A' as u8,
        'T' as u8,
        'U' as u8,
        'S' as u8,
    ];
    let cv_val: [u8; 10] = [
        'C' as u8,
        'O' as u8,
        'M' as u8,
        'P' as u8,
        'R' as u8,
        'E' as u8,
        'S' as u8,
        'S' as u8,
        'E' as u8,
        'D' as u8,
    ];
    proof {
        assert(fs_tag@ =~= flash_segment_tag());
        assert(ss_tag@ =~= source_start_tag());
        assert(se_tag@ =~= source_end_tag());
        assert(ts_tag@ =~= target_start_tag());
        assert(te_tag@ =~= target_end_tag());
        assert(cs_key@ =~= compression_status_key());
        assert(cv_val@ =~= compressed_value());
    }
    let mut cur: Vec<u8> = Vec::new();
    let mut in_seg: bool = false;
    let mut seg: FlashSegment = FlashSegment::zero();
    let mut open_tags: Vec<Vec<u8>> = Vec::new();
    let mut root_done: bool = false;
    let mut segs: Vec<FlashSegment> = Vec::new();
    let mut i: usize = 0;
    proof {
        assert(crate::xml::attrs_view(Seq::<(Vec<u8>, Vec<u8>)>::empty()) =~= Seq::<
            (Seq<u8>, Seq<u8>),
        >::empty());
        assert(tags_view(open_tags@) =~= Seq::<Seq<u8>>::empty());
        assert((ParseState {
            cur: cur@,
            in_seg,
            seg,
            open_tags: tags_view(open_tags@),
            root_done,
            segs: segs@,
        }) =~= init_state());
    }
    while i < events.len()
        invariant
            i <= events@.len(),
            evs == evs_view(events@),
            evs.len() == events@.len(),
            fs_tag@ == flash_segment_tag(),
            ss_tag@ == source_start_tag(),
            se_tag@ == source_end_tag(),
            ts_tag@ == target_start_tag(),
            te_tag@ == target_end_tag(),
            cs_key@ == compression_status_key(),
            cv_val@ == compressed_value(),
            segments_of(evs) == irun(
                (ParseState {
                    cur: cur@,
                    in_seg,
                    seg,
                    open_tags: tags_view(open_tags@),
                    root_done,
                    segs: segs@,
                }),
                evs,
                i as int,
            ),
        decreases events@.len() - i,
    {
        let ghost st_now = ParseState {
            cur: cur@,
            in_seg,
            seg,
            open_tags: tags_view(open_tags@),
            root_done,
            segs: segs@,
        };
        proof {
            assert(evs[i as int] == events@[i as int]@);
        }
        let ev = &events[i];
        match ev {
            XmlEvent::Start { name, attrs } => {
                if open_tags.len() == 0 && root_done {
                    proof {
                        assert(istep(st_now, evs[i as int]) == Err::<ParseState, ParseError>(
                            ParseError::Malformed,
                        ));
                    }
                    return Err(ParseError::Malformed);
                }
                let ln = local_name(name.as_slice());
                let is_fs = bytes_eq(ln.as_slice(), fs_tag.as_slice());
                if is_fs {
                    in_seg = true;
                    let cf = match attr_value(attrs, cs_key.as_slice()) {
                        Some(v) => bytes_eq(v.as_slice(), cv_val.as_slice()),
                        None => false,
                    };
                    seg.is_compressed = cf;
                }
                let ghost tags_old = open_tags@;
                open_tags.push(copy_bytes(name.as_slice()));
                cur = ln;
                proof {
                    assert(tags_view(open_tags@) =~= tags_view(tags_old).push(name@));
                    assert(istep(st_now, evs[i as int]) == Ok::<ParseState, ParseError>(
                        ParseState {
                            cur: cur@,
                            in_seg,
                            seg,
                            open_tags: tags_view(open_tags@),
                            root_done,
                            segs: segs@,
                        },
                    ));
                }
            },
            XmlEvent::Text { text } => {
                if open_tags.len() == 0 {
                    proof {
                        assert(istep(st_now, evs[i as int]) == Err::<ParseState, ParseError>(
                            ParseError::Malformed,
                        ));
                    }
                    return Err(ParseError::Malformed);
                }
                if in_seg {
                    let which: u8 = if bytes_eq(cur.as_slice(), ss_tag.as_slice()) {
                        1
                    } else if bytes_eq(cur.as_slice(), se_tag.as_slice()) {
                        2
                    } else if bytes_eq(cur.as_slice(), ts_tag.as_slice()) {
                        3
                    } else if bytes_eq(cur.as_slice(), te_tag.as_slice()) {
                        4
                    } else {
                        0
                    };
                    if which != 0 {
                        match parse_hex_u32(text.as_slice()) {
                            None => {
                                proof {
                                    assert(istep(st_now, evs[i as int]) == Err::<
                                        ParseState,
                                        ParseError,
                                    >(ParseError::InvalidAddress));
                                }
                                return Err(ParseError::InvalidAddress);
                            },
                            Some(v) => {
                                if which == 1 {
                                    seg.source_start_addr = v;
                                } else if which == 2 {
                                    seg.source_end_addr = v;
                                } else if which == 3 {
                                    seg.target_start_addr = v;
                                } else {
                                    seg.target_end_addr = v;
                                }
                            },
                        }
                    }
                }
                proof {
                    assert(istep(st_now, evs[i as int]) == Ok::<ParseState, ParseError>(
                        ParseState {
                            cur: cur@,
                            in_seg,
                            seg,
                            open_tags: tags_view(open_tags@),
                            root_done,
                            segs: segs@,
                        },
                    ));
                }
            },
            XmlEvent::End { name } => {
                if open_tags.len() == 0 {
                    proof {
                        assert(istep(st_now, evs[i as int]) == Err::<ParseState, ParseError>(
                            ParseError::Malformed,
                        ));
                    }
                    return Err(ParseError::Malformed);
                }
                let top_matches = bytes_eq(
                    open_tags[open_tags.len() - 1].as_slice(),
                    name.as_slice(),
                );
                proof {
                    assert(tags_view(open_tags@).last() == open_tags@[open_tags@.len() - 1]@);
                }
                if !top_matches {
                    proof {
                        assert(istep(st_now, evs[i as int]) == Err::<ParseState, ParseError>(
                            ParseError::Malformed,
                        ));
                    }
                    return Err(ParseError::Malformed);
                }
                let ghost tags_old = open_tags@;
                open_tags.pop();
                proof {
                    assert(tags_view(open_tags@) =~= tags_view(tags_old).drop_last());
                }
                if open_tags.len() == 0 {
                    root_done = true;
                }
                let ln = local_name(name.as_slice());
                if bytes_eq(ln.as_slice(), fs_tag.as_slice()) && in_seg {
                    segs.push(seg);
                    seg = FlashSegment::zero();
                    in_seg = false;
                }
                proof {
                    assert(istep(st_now, evs[i as int]) == Ok::<ParseState, ParseError>(
                        ParseState {
                            cur: cur@,
                            in_seg,
                            seg,
                            open_tags: tags_view(open_tags@),
                            root_done,
                            segs: segs@,
                        },
                    ));
                }
            },
        }
        i = i + 1;
    }
    if open_tags.len() == 0 && root_done {
        proof {
            assert(tags_view(open_tags@).len() == 0);
        }
        Ok(segs)
    } else {
        proof {
            assert(open_tags@.len() > 0 ==> tags_view(open_tags@).len() > 0);
        }
        Err(ParseError::Malformed)
    }
}

/// The raw names of the open elements, as byte sequences.
pub open spec fn tags_view(v: Seq<Vec<u8>>) -> Seq<Seq<u8>> {
    v.map_values(|x: Vec<u8>| x@)
}

/// Law: the compression flag comes from the `COMPRESSION-STATUS`
/// attribute of the segment element itself.  Starting a segment element
/// sets the accumulating descriptor's flag to true exactly when the
/// attribute is present with the value `COMPRESSED`; its absence, or
/// any other value, leaves the flag false.
pub proof fn lemma_compression_attribute(
    st: ParseState,
    name: Seq<u8>,
    attrs: Seq<(Seq<u8>, Seq<u8>)>,
)
    requires
        !(st.open_tags.len() == 0 && st.root_done),
        local_of(name) == flash_segment_tag(),
    ensures
        (match istep(st, EventSpec::Start { name, attrs }) {
            Ok(st2) => st2.in_seg && st2.seg.is_compressed == (attr_lookup(
                attrs,
                compression_status_key(),
            ) == Some(compressed_value())),
            Err(_) => false,
        }),
{
}

/// Law: closing a matched segment element appends exactly the
/// descriptor accumulated since it was opened — one descriptor per
/// segment element, in document order — and starts a fresh all-zero,
/// uncompressed descriptor.
pub proof fn lemma_segment_close_appends(st: ParseState, name: Seq<u8>)
    requires
        st.open_tags.len() > 0,
        st.open_tags.last() == name,
        local_of(name) == flash_segment_tag(),
        st.in_seg,
    ensures
        (match istep(st, EventSpec::End { name }) {
            Ok(st2) => st2.segs == st.segs.push(st.seg) && !st2.in_seg && st2.seg
                == FlashSegment::zero_spec(),
            Err(_) => false,
        }),
{
}

/// The bytes of `xmlns`, the name of a default-namespace declaration.
pub open spec fn xmlns_name() -> Seq<u8> {
    seq!['x' as u8, 'm' as u8, 'l' as u8, 'n' as u8, 's' as u8]
}

/// The name of a start event (empty for other events).
pub open spec fn start_name(ev: EventSpec) -> Seq<u8> {
    match ev {
        EventSpec::Start { name, attrs } => name,
        _ => Seq::empty(),
    }
}

/// The attribute list of a start event (empty for other events).
pub open spec fn start_attrs(ev: EventSpec) -> Seq<(Seq<u8>, Seq<u8>)> {
    match ev {
        EventSpec::Start { name, attrs } => attrs,
        _ => Seq::empty(),
    }
}

/// An attribute named `xmlns` never answers a lookup for another key,
/// wherever it is inserted.
proof fn lemma_attr_lookup_insert_ignored(
    attrs: Seq<(Seq<u8>, Seq<u8>)>,
    j: int,
    value: Seq<u8>,
    key: Seq<u8>,
)
    requires
        0 <= j <= attrs.len(),
        local_of(xmlns_name()) != key,
    ensures
        attr_lookup(attrs.insert(j, (xmlns_name(), value)), key) == attr_lookup(attrs, key),
    decreases attrs.len(),
{
    let attrs2 = attrs.insert(j, (xmlns_name(), value));
    if j == attrs.len() {
        assert(attrs2.last() == (xmlns_name(), value));
        assert(attrs2.drop_last() =~= attrs);
    } else {
        assert(attrs2.last() == attrs.last());
        assert(attrs2.drop_last() =~= attrs.drop_last().insert(j, (xmlns_name(), value)));
        if local_of(attrs.last().0) != key {
            lemma_attr_lookup_insert_ignored(attrs.drop_last(), j, value, key);
        }
    }
}

/// The local name of `xmlns` is `xmlns` itself, and it is not the
/// compression-status key.
proof fn lemma_xmlns_not_compression_key()
    ensures
        local_of(xmlns_name()) != compression_status_key(),
{
    assert(idx_of(xmlns_name(), 0, B_COLON) == 5) by {
        reveal_with_fuel(idx_of, 7);
    }
    assert(local_of(xmlns_name()) == xmlns_name());
    assert(xmlns_name().len() != compression_status_key().len());
}

/// One parser step treats a start event alike with and without an
/// inserted `xmlns` attribute.
proof fn lemma_istep_xmlns(
    st: ParseState,
    name: Seq<u8>,
    attrs: Seq<(Seq<u8>, Seq<u8>)>,
    j: int,
    value: Seq<u8>,
)
    requires
        0 <= j <= attrs.len(),
    ensures
        istep(st, EventSpec::Start { name, attrs: attrs.insert(j, (xmlns_name(), value)) })
            == istep(st, EventSpec::Start { name, attrs }),
{
    lemma_xmlns_not_compression_key();
    lemma_attr_lookup_insert_ignored(attrs, j, value, compression_status_key());
}

/// Two event streams that differ only in one event, on which every step
/// agrees, parse to the same descriptors.
proof fn lemma_irun_pointwise_equiv(
    st: ParseState,
    evs1: Seq<EventSpec>,
    evs2: Seq<EventSpec>,
    k: int,
    i: int,
)
    requires
        evs2.len() == evs1.len(),
        0 <= k < evs1.len(),
        forall|m: int| 0 <= m < evs1.len() && m != k ==> evs2[m] == #[trigger] evs1[m],
        forall|s: ParseState| #[trigger] istep(s, evs2[k]) == istep(s, evs1[k]),
        0 <= i <= evs1.len(),
    ensures
        irun(st, evs2, i) == irun(st, evs1, i),
    decreases evs1.len() - i,
{
    if i < evs1.len() {
        assert(istep(st, evs2[i]) == istep(st, evs1[i]));
        match istep(st, evs1[i]) {
            Err(e) => {},
            Ok(st2) => {
                lemma_irun_pointwise_equiv(st2, evs1, evs2, k, i + 1);
            },
        }
    }
}

/// Law: a default-namespace declaration changes nothing.  Inserting an
/// `xmlns` attribute into the attribute list of any element — the root
/// among them — leaves the parsed descriptors exactly as they were.
pub proof fn lemma_xmlns_attr_ignored(evs: Seq<EventSpec>, k: int, j: int, value: Seq<u8>)
    requires
        0 <= k < evs.len(),
        evs[k] is Start,
        0 <= j <= start_attrs(evs[k]).len(),
    ensures
        segments_of(
            evs.update(
                k,
                EventSpec::Start {
                    name: start_name(evs[k]),
                    attrs: start_attrs(evs[k]).insert(j, (xmlns_name(), value)),
                },
            ),
        ) == segments_of(evs),
{
    let ev2 = EventSpec::Start {
        name: start_name(evs[k]),
        attrs: start_attrs(evs[k]).insert(j, (xmlns_name(), value)),
    };
    let evs2 = evs.update(k, ev2);
    assert(evs[k] == EventSpec::Start { name: start_name(evs[k]), attrs: start_attrs(evs[k]) });
    assert forall|s: ParseState| #[trigger] istep(s, evs2[k]) == istep(s, evs[k]) by {
        lemma_istep_xmlns(s, start_name(evs[k]), start_attrs(evs[k]), j, value);
    }
    lemma_irun_pointwise_equiv(init_state(), evs, evs2, k, 0);
}

/// Parses a segment-map document into its segment descriptors: one per
/// `FLASH-SEGMENT` element, in document order, with the addresses their
/// child elements carry and the compression flag of their
/// `COMPRESSION-STATUS` attribute.
pub fn parse_xml(doc: &[u8]) -> (r: Result<Vec<FlashSegment>, ParseError>)
    ensures
        (match r {
            Ok(v) => parse_spec(doc@) == Ok::<Seq<FlashSegment>, ParseError>(v@),
            Err(e) => parse_spec(doc@) == Err::<Seq<FlashSegment>, ParseError>(e),
        }),
{
    match tokenize(doc) {
        None => Err(ParseError::Malformed),
        Some(events) => interpret_events(&events),
    }
}

} // verus!
