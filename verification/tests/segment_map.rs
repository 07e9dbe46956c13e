//! Tests of the segment-map parser.

use flashimage::segment_map::parse_xml;
use flashimage::types::{FlashSegment, ParseError};

fn seg(ss: u32, se: u32, ts: u32, te: u32, compressed: bool) -> FlashSegment {
    FlashSegment {
        source_start_addr: ss,
        source_end_addr: se,
        target_start_addr: ts,
        target_end_addr: te,
        is_compressed: compressed,
    }
}

#[test]
fn parses_segments_in_document_order() {
    let doc = b"<?xml version=\"1.0\"?>\n<ROOT>\n  <FLASH-SEGMENT>\n    <SOURCE-START-ADDRESS>0</SOURCE-START-ADDRESS>\n    <SOURCE-END-ADDRESS>3</SOURCE-END-ADDRESS>\n    <TARGET-START-ADDRESS>1000</TARGET-START-ADDRESS>\n    <TARGET-END-ADDRESS>1003</TARGET-END-ADDRESS>\n  </FLASH-SEGMENT>\n  <FLASH-SEGMENT>\n    <SOURCE-START-ADDRESS>4</SOURCE-START-ADDRESS>\n    <SOURCE-END-ADDRESS>7</SOURCE-END-ADDRESS>\n    <TARGET-START-ADDRESS>2000</TARGET-START-ADDRESS>\n    <TARGET-END-ADDRESS>2003</TARGET-END-ADDRESS>\n  </FLASH-SEGMENT>\n</ROOT>";
    let segs = parse_xml(doc).unwrap();
    assert_eq!(segs.len(), 2);
    assert_eq!(segs[0], seg(0x0, 0x3, 0x1000, 0x1003, false));
    assert_eq!(segs[1], seg(0x4, 0x7, 0x2000, 0x2003, false));
}

#[test]
fn addresses_are_hexadecimal() {
    let doc = b"<R><FLASH-SEGMENT><SOURCE-START-ADDRESS>ff</SOURCE-START-ADDRESS><SOURCE-END-ADDRESS>FF</SOURCE-END-ADDRESS><TARGET-START-ADDRESS>DeadBeef</TARGET-START-ADDRESS><TARGET-END-ADDRESS>FFFFFFFF</TARGET-END-ADDRESS></FLASH-SEGMENT></R>";
    let segs = parse_xml(doc).unwrap();
    assert_eq!(segs.len(), 1);
    assert_eq!(segs[0], seg(0xFF, 0xFF, 0xDEADBEEF, 0xFFFFFFFF, false));
}

#[test]
fn compressed_attribute_yields_true() {
    let doc = b"<R><FLASH-SEGMENT COMPRESSION-STATUS=\"COMPRESSED\"><SOURCE-START-ADDRESS>0</SOURCE-START-ADDRESS></FLASH-SEGMENT></R>";
    let segs = parse_xml(doc).unwrap();
    assert_eq!(segs.len(), 1);
    assert!(segs[0].is_compressed);
}

#[test]
fn other_attribute_value_yields_false() {
    let doc = b"<R><FLASH-SEGMENT COMPRESSION-STATUS=\"UNCOMPRESSED\"></FLASH-SEGMENT></R>";
    let segs = parse_xml(doc).unwrap();
    assert_eq!(segs.len(), 1);
    assert!(!segs[0].is_compressed);
}

#[test]
fn absent_attribute_yields_false() {
    let doc = b"<R><FLASH-SEGMENT></FLASH-SEGMENT></R>";
    let segs = parse_xml(doc).unwrap();
    assert_eq!(segs.len(), 1);
    assert!(!segs[0].is_compressed);
}

#[test]
fn default_namespace_is_ignored() {
    let plain = b"<ROOT><FLASH-SEGMENT COMPRESSION-STATUS=\"COMPRESSED\"><SOURCE-START-ADDRESS>10</SOURCE-START-ADDRESS><SOURCE-END-ADDRESS>1F</SOURCE-END-ADDRESS><TARGET-START-ADDRESS>A0</TARGET-START-ADDRESS><TARGET-END-ADDRESS>AF</TARGET-END-ADDRESS></FLASH-SEGMENT></ROOT>";
    let with_ns = b"<ROOT xmlns=\"http://example.invalid/ns\"><FLASH-SEGMENT COMPRESSION-STATUS=\"COMPRESSED\"><SOURCE-START-ADDRESS>10</SOURCE-START-ADDRESS><SOURCE-END-ADDRESS>1F</SOURCE-END-ADDRESS><TARGET-START-ADDRESS>A0</TARGET-START-ADDRESS><TARGET-END-ADDRESS>AF</TARGET-END-ADDRESS></FLASH-SEGMENT></ROOT>";
    assert_eq!(parse_xml(plain).unwrap(), parse_xml(with_ns).unwrap());
}

#[test]
fn prefixed_names_match_by_local_name() {
    let doc = b"<ns:ROOT><ns:FLASH-SEGMENT><ns:SOURCE-START-ADDRESS>2</ns:SOURCE-START-ADDRESS></ns:FLASH-SEGMENT></ns:ROOT>";
    let segs = parse_xml(doc).unwrap();
    assert_eq!(segs.len(), 1);
    assert_eq!(segs[0].source_start_addr, 0x2);
}

#[test]
fn invalid_hex_is_an_address_error() {
    let doc = b"<R><FLASH-SEGMENT><SOURCE-START-ADDRESS>XYZ</SOURCE-START-ADDRESS></FLASH-SEGMENT></R>";
    assert_eq!(parse_xml(doc), Err(ParseError::InvalidAddress));
}

#[test]
fn oversized_hex_is_an_address_error() {
    let doc = b"<R><FLASH-SEGMENT><SOURCE-START-ADDRESS>1FFFFFFFF</SOURCE-START-ADDRESS></FLASH-SEGMENT></R>";
    assert_eq!(parse_xml(doc), Err(ParseError::InvalidAddress));
}

#[test]
fn address_text_outside_a_segment_is_ignored() {
    let doc = b"<R><SOURCE-START-ADDRESS>AB</SOURCE-START-ADDRESS><FLASH-SEGMENT></FLASH-SEGMENT></R>";
    let segs = parse_xml(doc).unwrap();
    assert_eq!(segs.len(), 1);
    assert_eq!(segs[0].source_start_addr, 0);
}

#[test]
fn mismatched_close_is_malformed() {
    let doc = b"<R><FLASH-SEGMENT></WRONG></R>";
    assert_eq!(parse_xml(doc), Err(ParseError::Malformed));
}

#[test]
fn unclosed_element_is_malformed() {
    let doc = b"<R><FLASH-SEGMENT>";
    assert_eq!(parse_xml(doc), Err(ParseError::Malformed));
}

#[test]
fn empty_document_is_malformed() {
    assert_eq!(parse_xml(b""), Err(ParseError::Malformed));
}

#[test]
fn text_outside_root_is_malformed() {
    let doc = b"stray<R></R>";
    assert_eq!(parse_xml(doc), Err(ParseError::Malformed));
}

#[test]
fn second_root_is_malformed() {
    let doc = b"<R></R><R2></R2>";
    assert_eq!(parse_xml(doc), Err(ParseError::Malformed));
}

#[test]
fn truncated_tag_is_malformed() {
    let doc = b"<R></R";
    assert_eq!(parse_xml(doc), Err(ParseError::Malformed));
}

#[test]
fn self_closing_segment_yields_zero_descriptor() {
    let doc = b"<R><FLASH-SEGMENT/></R>";
    let segs = parse_xml(doc).unwrap();
    assert_eq!(segs.len(), 1);
    assert_eq!(segs[0], seg(0, 0, 0, 0, false));
}

#[test]
fn comments_and_prolog_are_skipped() {
    let doc = b"<?xml version=\"1.0\" encoding=\"UTF-8\"?><!-- a map --><R><!-- none yet --><FLASH-SEGMENT><SOURCE-END-ADDRESS>1f</SOURCE-END-ADDRESS></FLASH-SEGMENT></R>";
    let segs = parse_xml(doc).unwrap();
    assert_eq!(segs.len(), 1);
    assert_eq!(segs[0].source_end_addr, 0x1F);
}

#[test]
fn descriptor_resets_between_segments() {
    let doc = b"<R><FLASH-SEGMENT><SOURCE-START-ADDRESS>5</SOURCE-START-ADDRESS></FLASH-SEGMENT><FLASH-SEGMENT></FLASH-SEGMENT></R>";
    let segs = parse_xml(doc).unwrap();
    assert_eq!(segs.len(), 2);
    assert_eq!(segs[0].source_start_addr, 0x5);
    assert_eq!(segs[1], seg(0, 0, 0, 0, false));
}

#[test]
fn whitespace_around_address_text_is_rejected() {
    let doc = b"<R><FLASH-SEGMENT><SOURCE-START-ADDRESS> 1A </SOURCE-START-ADDRESS></FLASH-SEGMENT></R>";
    assert_eq!(parse_xml(doc), Err(ParseError::InvalidAddress));
}

#[test]
fn explicit_plus_sign_is_accepted() {
    let doc = b"<R><FLASH-SEGMENT><SOURCE-START-ADDRESS>+1A</SOURCE-START-ADDRESS></FLASH-SEGMENT></R>";
    let segs = parse_xml(doc).unwrap();
    assert_eq!(segs[0].source_start_addr, 0x1A);
}

#[test]
fn byte_order_mark_is_skipped() {
    let doc = b"\xEF\xBB\xBF<R><FLASH-SEGMENT><SOURCE-START-ADDRESS>7</SOURCE-START-ADDRESS></FLASH-SEGMENT></R>";
    let segs = parse_xml(doc).unwrap();
    assert_eq!(segs.len(), 1);
    assert_eq!(segs[0].source_start_addr, 0x7);
}

#[test]
fn single_quoted_attribute_value_is_read() {
    let doc = b"<R><FLASH-SEGMENT COMPRESSION-STATUS='COMPRESSED'></FLASH-SEGMENT></R>";
    let segs = parse_xml(doc).unwrap();
    assert!(segs[0].is_compressed);
}
