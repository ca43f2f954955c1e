use pdfpurr::objects::{
    decode_utf16be, write_pdf_name, write_pdf_string, IndirectRef, PdfName, PdfString,
    StringFormat,
};

#[test]
fn name_creation_and_display() {
    let name = PdfName::new("Type");
    assert_eq!(name.as_str(), "Type");
    assert_eq!(name.to_display_string(), "/Type");
}

#[test]
fn name_from_str() {
    let name: PdfName = "Pages".into();
    assert_eq!(name.as_str(), "Pages");
}

#[test]
fn name_ordering_is_deterministic() {
    let a = PdfName::new("A");
    let b = PdfName::new("B");
    assert!(a < b);
}

#[test]
fn literal_string_creation() {
    let s = PdfString::from_literal("Hello World");
    assert_eq!(s.as_text(), Some("Hello World"));
    assert_eq!(s.format, StringFormat::Literal);
    assert_eq!(s.to_display_string(), "(Hello World)");
}

#[test]
fn hex_string_creation() {
    let s = PdfString::from_hex(vec![0x48, 0x65, 0x6C, 0x6C, 0x6F]);
    assert_eq!(s.format, StringFormat::Hexadecimal);
    assert_eq!(s.to_display_string(), "<48656c6c6f>");
}

#[test]
fn string_with_non_utf8_bytes() {
    let s = PdfString::from_hex(vec![0xFF, 0xFE]);
    assert_eq!(s.as_text(), None);
}

#[test]
fn indirect_ref_creation() {
    let r = IndirectRef::new(10, 0);
    assert_eq!(r.object_number, 10);
    assert_eq!(r.generation, 0);
    assert_eq!(r.id(), (10, 0));
    assert_eq!(r.to_display_string(), "10 0 R");
}

#[test]
fn write_pdf_name_escapes_delimiters() {
    let mut out = Vec::new();
    write_pdf_name(&mut out, &PdfName::new("A B#"));
    assert_eq!(out, b"/A#20B#23");
}

#[test]
fn write_pdf_string_forms() {
    let mut out = Vec::new();
    write_pdf_string(&mut out, &PdfString::from_literal("a(b)\\"));
    assert_eq!(out, b"(a\\(b\\)\\\\)");
    let mut hex = Vec::new();
    write_pdf_string(&mut hex, &PdfString::from_hex(vec![0xAB, 0x01]));
    assert_eq!(hex, b"<AB01>");
}

#[test]
fn utf16be_decoding() {
    assert_eq!(decode_utf16be(&[0x00, 0x48, 0x00, 0x69]), Some("Hi".to_string()));
    assert_eq!(decode_utf16be(&[0xD8, 0x00]), None);
}
