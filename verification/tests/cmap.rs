use pdfpurr::error::PdfError;
use pdfpurr::fonts::cmap::{cmap_tokenizes, code_offset, hex_bytes_to_unicode, ToUnicodeCMap};

#[test]
fn parse_bfchar_single() {
    let cmap_data = b"1 beginbfchar\n<0041> <0061>\nendbfchar";
    let cmap = ToUnicodeCMap::parse(cmap_data).unwrap();
    assert_eq!(cmap.map_code(&[0x00, 0x41]).as_deref(), Some("a"));
}

#[test]
fn parse_bfchar_multiple() {
    let cmap_data = b"2 beginbfchar\n<0041> <0061>\n<0042> <0062>\nendbfchar";
    let cmap = ToUnicodeCMap::parse(cmap_data).unwrap();
    assert_eq!(cmap.map_code(&[0x00, 0x41]).as_deref(), Some("a"));
    assert_eq!(cmap.map_code(&[0x00, 0x42]).as_deref(), Some("b"));
}

#[test]
fn parse_bfrange_with_base() {
    let cmap_data = b"1 beginbfrange\n<0041> <0043> <0061>\nendbfrange";
    let cmap = ToUnicodeCMap::parse(cmap_data).unwrap();
    assert_eq!(cmap.map_code(&[0x00, 0x41]).as_deref(), Some("a"));
    assert_eq!(cmap.map_code(&[0x00, 0x42]).as_deref(), Some("b"));
    assert_eq!(cmap.map_code(&[0x00, 0x43]).as_deref(), Some("c"));
}

#[test]
fn parse_bfrange_with_array() {
    let cmap_data = b"1 beginbfrange\n<01> <03> [<0041> <0042> <0043>]\nendbfrange";
    let cmap = ToUnicodeCMap::parse(cmap_data).unwrap();
    assert_eq!(cmap.map_code(&[0x01]).as_deref(), Some("A"));
    assert_eq!(cmap.map_code(&[0x02]).as_deref(), Some("B"));
    assert_eq!(cmap.map_code(&[0x03]).as_deref(), Some("C"));
}

#[test]
fn map_code_not_found() {
    let cmap_data = b"1 beginbfchar\n<0041> <0061>\nendbfchar";
    let cmap = ToUnicodeCMap::parse(cmap_data).unwrap();
    assert_eq!(cmap.map_code(&[0x00, 0x99]).as_deref(), None);
}

#[test]
fn parse_with_comments() {
    let cmap_data = b"% This is a comment\n1 beginbfchar\n<0041> <0061>\nendbfchar";
    let cmap = ToUnicodeCMap::parse(cmap_data).unwrap();
    assert_eq!(cmap.map_code(&[0x00, 0x41]).as_deref(), Some("a"));
}

#[test]
fn multibyte_unicode_mapping() {
    let cmap_data = b"1 beginbfchar\n<0041> <00E9>\nendbfchar";
    let cmap = ToUnicodeCMap::parse(cmap_data).unwrap();
    assert_eq!(cmap.map_code(&[0x00, 0x41]).as_deref(), Some("\u{00E9}"));
}

#[test]
fn single_byte_codes() {
    let cmap_data = b"1 beginbfrange\n<20> <7E> <0020>\nendbfrange";
    let cmap = ToUnicodeCMap::parse(cmap_data).unwrap();
    assert_eq!(cmap.map_code(&[0x20]).as_deref(), Some(" "));
    assert_eq!(cmap.map_code(&[0x41]).as_deref(), Some("A"));
    assert_eq!(cmap.map_code(&[0x7E]).as_deref(), Some("~"));
}

#[test]
fn hex_bytes_to_unicode_basic() {
    assert_eq!(hex_bytes_to_unicode(&[0x00, 0x41]), "A");
    assert_eq!(hex_bytes_to_unicode(&[0x00, 0xE9]), "\u{00E9}");
}

#[test]
fn code_offset_basic() {
    assert_eq!(code_offset(&[0x00, 0x43], &[0x00, 0x41]), 2);
    assert_eq!(code_offset(&[0x01, 0x00], &[0x00, 0xFF]), 1);
}

#[test]
fn later_bfchar_overrides_earlier() {
    let cmap_data = b"2 beginbfchar\n<01> <0041>\n<01> <0042>\nendbfchar";
    let cmap = ToUnicodeCMap::parse(cmap_data).unwrap();
    assert_eq!(cmap.map_code(&[0x01]).as_deref(), Some("B"));
}

#[test]
fn bfrange_base_carries_into_higher_byte() {
    let cmap_data = b"1 beginbfrange\n<00> <05> <00FE>\nendbfrange";
    let cmap = ToUnicodeCMap::parse(cmap_data).unwrap();
    assert_eq!(cmap.map_code(&[0x02]).as_deref(), Some("\u{0100}"));
}

#[test]
fn cmap_errors() {
    let err = ToUnicodeCMap::parse(b"beginbfchar <4G> <0041> endbfchar").unwrap_err();
    assert!(matches!(err, PdfError::EncodingError(ref m) if m == "Invalid hex char in CMap: G"));
    let err = ToUnicodeCMap::parse(b"beginbfchar foo <0041> endbfchar").unwrap_err();
    assert!(matches!(err, PdfError::EncodingError(ref m) if m == "Expected hex string in CMap"));
}

#[test]
fn odd_length_code_bytes() {
    assert_eq!(hex_bytes_to_unicode(&[0x41]), "A");
    assert_eq!(hex_bytes_to_unicode(&[]), "");
    assert_eq!(hex_bytes_to_unicode(&[0xD8, 0x00]), "");
}

#[test]
fn tokenizes_unless_stray_bracket() {
    assert!(cmap_tokenizes(b"1 beginbfchar\n<0041> <0061>\nendbfchar"));
    assert!(cmap_tokenizes(b"[<01> <02>] % comment ] here\n"));
    assert!(!cmap_tokenizes(b"begincmap ] endcmap"));
}

#[test]
fn multi_byte_bfrange_destination_offsets_last_byte() {
    let cmap = ToUnicodeCMap::parse(b"1 beginbfrange\n<01> <01> <006600660069>\nendbfrange").unwrap();
    assert_eq!(cmap.map_code(&[0x01]).as_deref(), Some("ffi"));
    let long = ToUnicodeCMap::parse(b"1 beginbfrange\n<00> <05> <0041004200430044>\nendbfrange").unwrap();
    assert_eq!(long.map_code(&[0x01]).as_deref(), Some("ABCE"));
}
