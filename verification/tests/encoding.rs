use pdfpurr::fonts::encoding::{glyph_name_to_unicode, DiffItem, DiffsEntry, Encoding, EncodingObject};
use pdfpurr::objects::{Dictionary, Object, PdfName};
use pdfpurr::error::PdfError;

#[test]
fn win_ansi_ascii_range() {
    let enc = Encoding::win_ansi();
    assert_eq!(enc.decode_byte(0x41), Some('A'));
    assert_eq!(enc.decode_byte(0x7A), Some('z'));
    assert_eq!(enc.decode_byte(0x20), Some(' '));
}

#[test]
fn win_ansi_special_chars() {
    let enc = Encoding::win_ansi();
    assert_eq!(enc.decode_byte(0x80), Some('\u{20AC}'));
    assert_eq!(enc.decode_byte(0x93), Some('\u{201C}'));
    assert_eq!(enc.decode_byte(0x96), Some('\u{2013}'));
    assert_eq!(enc.decode_byte(0x97), Some('\u{2014}'));
}

#[test]
fn win_ansi_latin1_supplement() {
    let enc = Encoding::win_ansi();
    assert_eq!(enc.decode_byte(0xC0), Some('\u{00C0}'));
    assert_eq!(enc.decode_byte(0xE9), Some('\u{00E9}'));
    assert_eq!(enc.decode_byte(0xFF), Some('\u{00FF}'));
}

#[test]
fn win_ansi_undefined_codes() {
    let enc = Encoding::win_ansi();
    assert_eq!(enc.decode_byte(0x81), None);
    assert_eq!(enc.decode_byte(0x00), None);
}

#[test]
fn standard_ascii_range() {
    let enc = Encoding::standard();
    assert_eq!(enc.decode_byte(0x41), Some('A'));
    assert_eq!(enc.decode_byte(0x61), Some('a'));
}

#[test]
fn standard_special_chars() {
    let enc = Encoding::standard();
    assert_eq!(enc.decode_byte(0xAE), Some('\u{FB01}'));
    assert_eq!(enc.decode_byte(0xAF), Some('\u{FB02}'));
    assert_eq!(enc.decode_byte(0xD0), Some('\u{2014}'));
}

#[test]
fn mac_roman_special_chars() {
    let enc = Encoding::mac_roman();
    assert_eq!(enc.decode_byte(0x80), Some('\u{00C4}'));
    assert_eq!(enc.decode_byte(0xCA), Some('\u{00A0}'));
    assert_eq!(enc.decode_byte(0xDE), Some('\u{FB01}'));
}

#[test]
fn latin1_identity() {
    let enc = Encoding::latin1();
    for i in 0u8..=255 {
        let ch = enc.decode_byte(i);
        assert!(ch.is_some(), "code {} should be defined", i);
        assert_eq!(ch.unwrap() as u32, i as u32);
    }
}

#[test]
fn differences_override() {
    let mut enc = Encoding::win_ansi();
    let diffs = vec![DiffItem::Code(65), DiffItem::Name("Euro".to_string())];
    enc.apply_differences(&diffs).unwrap();
    assert_eq!(enc.decode_byte(65), Some('\u{20AC}'));
}

#[test]
fn differences_sequential() {
    let mut enc = Encoding::win_ansi();
    let diffs = vec![
        DiffItem::Code(65),
        DiffItem::Name("bullet".to_string()),
        DiffItem::Name("dagger".to_string()),
    ];
    enc.apply_differences(&diffs).unwrap();
    assert_eq!(enc.decode_byte(65), Some('\u{2022}'));
    assert_eq!(enc.decode_byte(66), Some('\u{2020}'));
}

#[test]
fn differences_multiple_ranges() {
    let mut enc = Encoding::standard();
    let diffs = vec![
        DiffItem::Code(100),
        DiffItem::Name("Euro".to_string()),
        DiffItem::Code(200),
        DiffItem::Name("bullet".to_string()),
    ];
    enc.apply_differences(&diffs).unwrap();
    assert_eq!(enc.decode_byte(100), Some('\u{20AC}'));
    assert_eq!(enc.decode_byte(200), Some('\u{2022}'));
}

#[test]
fn glyph_name_basic() {
    assert_eq!(glyph_name_to_unicode("A"), Some('A'));
    assert_eq!(glyph_name_to_unicode("space"), Some(' '));
    assert_eq!(glyph_name_to_unicode("eacute"), Some('\u{00E9}'));
    assert_eq!(glyph_name_to_unicode("Euro"), Some('\u{20AC}'));
}

#[test]
fn glyph_name_uni_convention() {
    assert_eq!(glyph_name_to_unicode("uni0041"), Some('A'));
    assert_eq!(glyph_name_to_unicode("uni20AC"), Some('\u{20AC}'));
}

#[test]
fn glyph_name_u_convention() {
    assert_eq!(glyph_name_to_unicode("u0041"), Some('A'));
    assert_eq!(glyph_name_to_unicode("u20AC"), Some('\u{20AC}'));
}

#[test]
fn glyph_name_unknown() {
    assert_eq!(glyph_name_to_unicode("nonexistentglyph"), None);
}

#[test]
fn encoding_from_name_object() {
    let obj = Object::Name(PdfName::new("WinAnsiEncoding"));
    let enc = Encoding::from_object(&EncodingObject::of(&obj)).unwrap();
    assert_eq!(enc.decode_byte(0x41), Some('A'));
    assert_eq!(enc.decode_byte(0x80), Some('\u{20AC}'));
}

#[test]
fn encoding_from_dict_with_differences() {
    let mut dict = Dictionary::new();
    dict.insert(
        PdfName::new("BaseEncoding"),
        Object::Name(PdfName::new("WinAnsiEncoding")),
    );
    dict.insert(
        PdfName::new("Differences"),
        Object::Array(vec![
            Object::Integer(32),
            Object::Name(PdfName::new("bullet")),
        ]),
    );
    let obj = Object::Dictionary(dict);
    let enc = Encoding::from_object(&EncodingObject::of(&obj)).unwrap();
    assert_eq!(enc.decode_byte(32), Some('\u{2022}'));
    assert_eq!(enc.decode_byte(0x41), Some('A'));
}

#[test]
fn encoding_object_of_reads_names_and_differences() {
    match EncodingObject::of(&Object::Integer(3)) {
        EncodingObject::Other(t) => assert_eq!(t, "Integer"),
        _ => panic!("expected Other"),
    }
    let mut dict = Dictionary::new();
    dict.insert(PdfName::new("BaseEncoding"), Object::Integer(1));
    dict.insert(PdfName::new("Differences"), Object::Null);
    match EncodingObject::of(&Object::Dictionary(dict)) {
        EncodingObject::Dictionary { base_encoding, differences } => {
            assert!(base_encoding.is_none());
            match differences {
                Some(DiffsEntry::Other(t)) => assert_eq!(t, "Null"),
                _ => panic!("expected Other differences"),
            }
        }
        _ => panic!("expected Dictionary"),
    }
}

#[test]
fn decode_bytes_string() {
    let enc = Encoding::win_ansi();
    let result = enc.decode_bytes(&[0x48, 0x65, 0x6C, 0x6C, 0x6F]);
    assert_eq!(result, "Hello");
}

#[test]
fn glyph_name_uni_surrogate_is_none() {
    assert_eq!(glyph_name_to_unicode("uniD800"), None);
    assert_eq!(glyph_name_to_unicode("uni+041"), Some('A'));
    assert_eq!(glyph_name_to_unicode("u1F600"), Some('\u{1F600}'));
}

#[test]
fn differences_code_out_of_range() {
    let mut enc = Encoding::win_ansi();
    let err = enc.apply_differences(&[DiffItem::Code(300)]).unwrap_err();
    assert!(matches!(err, PdfError::InvalidFont(ref m) if m == "Differences code out of range: 300"));
    let err = enc.apply_differences(&[DiffItem::Name("A".to_string())]).unwrap_err();
    assert!(matches!(err, PdfError::InvalidFont(ref m) if m == "Differences: name without preceding code"));
}

#[test]
fn differences_wrap_after_255() {
    let mut enc = Encoding::win_ansi();
    let diffs = vec![
        DiffItem::Code(255),
        DiffItem::Name("bullet".to_string()),
        DiffItem::Name("dagger".to_string()),
    ];
    enc.apply_differences(&diffs).unwrap();
    assert_eq!(enc.decode_byte(255), Some('\u{2022}'));
    assert_eq!(enc.decode_byte(0), Some('\u{2020}'));
}

#[test]
fn encoding_errors() {
    let err = Encoding::from_name("Bogus").unwrap_err();
    assert!(matches!(err, PdfError::UnsupportedFeature(ref m) if m == "Unknown encoding: Bogus"));
    let err = Encoding::from_object(&EncodingObject::Other("Integer".to_string())).unwrap_err();
    assert!(matches!(err, PdfError::TypeError { ref expected, ref found } if expected == "Name or Dictionary" && found == "Integer"));
    let obj = EncodingObject::Dictionary {
        base_encoding: None,
        differences: Some(DiffsEntry::Other("Integer".to_string())),
    };
    let err = Encoding::from_object(&obj).unwrap_err();
    assert!(matches!(err, PdfError::TypeError { ref expected, .. } if expected == "Array"));
    let obj = EncodingObject::Dictionary { base_encoding: None, differences: None };
    assert_eq!(Encoding::from_object(&obj).unwrap().decode_byte(0xAE), Some('\u{FB01}'));
}

#[test]
fn uni_glyph_names_read_four_hex_digits() {
    assert_eq!(pdfpurr::fonts::encoding::glyph_name_to_unicode("uni20AC"), Some('\u{20AC}'));
    assert_eq!(pdfpurr::fonts::encoding::glyph_name_to_unicode("uni0041"), Some('A'));
    assert_eq!(pdfpurr::fonts::encoding::glyph_name_to_unicode("uniD800"), None);
    assert_eq!(pdfpurr::fonts::encoding::glyph_name_to_unicode("Euro"), Some('\u{20AC}'));
    assert_eq!(pdfpurr::fonts::encoding::glyph_name_to_unicode("nonexistentglyph"), None);
}
