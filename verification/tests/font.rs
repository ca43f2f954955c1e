use pdfpurr::fonts::encoding::{Encoding, EncodingObject};
use pdfpurr::fonts::cmap::ToUnicodeCMap;
use pdfpurr::fonts::font::{Font, FontDict, FontSubtype};

fn make_simple_font_dict(encoding_name: &str) -> FontDict {
    FontDict {
        subtype: Some("Type1".to_string()),
        base_font: Some("Helvetica".to_string()),
        to_unicode: None,
        encoding: Some(EncodingObject::Name(encoding_name.to_string())),
    }
}

#[test]
fn load_type1_font_win_ansi() {
    let dict = make_simple_font_dict("WinAnsiEncoding");
    let font = Font::from_dict(&dict).unwrap();
    assert_eq!(font.name(), "Helvetica");
    assert_eq!(*font.subtype(), FontSubtype::Type1);
    assert!(!font.is_composite());
}

#[test]
fn decode_simple_ascii() {
    let dict = make_simple_font_dict("WinAnsiEncoding");
    let font = Font::from_dict(&dict).unwrap();
    assert_eq!(font.decode_bytes(b"Hello"), "Hello");
}

#[test]
fn decode_win_ansi_special() {
    let dict = make_simple_font_dict("WinAnsiEncoding");
    let font = Font::from_dict(&dict).unwrap();
    let text = font.decode_bytes(&[0x93, 0x48, 0x69, 0x94]);
    assert_eq!(text, "\u{201C}Hi\u{201D}");
}

#[test]
fn decode_utf16be_bom() {
    let dict = make_simple_font_dict("WinAnsiEncoding");
    let font = Font::from_dict(&dict).unwrap();
    let text = font.decode_bytes(&[0xFE, 0xFF, 0x00, 0x48, 0x00, 0x69]);
    assert_eq!(text, "Hi");
}

#[test]
fn font_subtype_parsing() {
    assert_eq!(FontSubtype::from_name("Type1").unwrap(), FontSubtype::Type1);
    assert_eq!(FontSubtype::from_name("TrueType").unwrap(), FontSubtype::TrueType);
    assert_eq!(FontSubtype::from_name("Type0").unwrap(), FontSubtype::Type0);
    assert!(FontSubtype::from_name("Unknown").is_err());
}

#[test]
fn default_encoding_by_subtype() {
    let dict = FontDict {
        subtype: Some("Type1".to_string()),
        base_font: Some("Times-Roman".to_string()),
        to_unicode: None,
        encoding: None,
    };
    let font = Font::from_dict(&dict).unwrap();
    assert_eq!(font.encoding().decode_byte(0xAE), Some('\u{FB01}'));
    let dict2 = FontDict {
        subtype: Some("TrueType".to_string()),
        base_font: Some("Arial".to_string()),
        to_unicode: None,
        encoding: None,
    };
    let font2 = Font::from_dict(&dict2).unwrap();
    assert_eq!(font2.encoding().decode_byte(0x80), Some('\u{20AC}'));
}

#[test]
fn composite_font_uses_two_byte_codes() {
    let cmap = ToUnicodeCMap::parse(b"beginbfchar <0001> <0048> <0002> <0069> endbfchar").unwrap();
    let font = Font::new("F", FontSubtype::Type0, Encoding::latin1(), Some(cmap));
    assert!(font.is_composite());
    assert_eq!(font.decode_bytes(&[0x00, 0x01, 0x00, 0x02]), "Hi");
    let plain = Font::new("F", FontSubtype::Type0, Encoding::latin1(), None);
    assert_eq!(plain.decode_bytes(&[0x41, 0x42]), "AB");
}

#[test]
fn simple_font_prefers_cmap_then_encoding_then_byte() {
    let cmap = ToUnicodeCMap::parse(b"beginbfchar <41> <0058> endbfchar").unwrap();
    let font = Font::new("F", FontSubtype::Type1, Encoding::win_ansi(), Some(cmap));
    assert_eq!(font.decode_bytes(&[0x41, 0x42, 0x81]), "XB\u{81}");
    let fallback = Font::default_fallback();
    assert_eq!(fallback.name(), "Unknown");
    assert_eq!(fallback.decode_bytes(&[0x80]), "\u{20AC}");
}

#[test]
fn unknown_subtype_is_invalid_font() {
    let dict = FontDict {
        subtype: Some("Bogus".to_string()),
        base_font: None,
        to_unicode: None,
        encoding: None,
    };
    let err = Font::from_dict(&dict).unwrap_err();
    assert!(matches!(err, pdfpurr::error::PdfError::InvalidFont(ref m) if m == "Unknown font subtype: Bogus"));
}

#[test]
fn long_range_target_decodes_through_its_last_byte() {
    let cm = ToUnicodeCMap::parse(b"1 beginbfrange\n<0000> <0005> <00410042004300440045>\nendbfrange").unwrap();
    let font = Font::new("B", FontSubtype::Type0, Encoding::standard(), Some(cm));
    assert_eq!(font.decode_bytes(&[0x00, 0x01]), "ABCDF");
}
