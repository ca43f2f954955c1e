use pdfpurr::content::text::{extract_text_from_content, extract_text_with_fonts};
use pdfpurr::fonts::encoding::Encoding;
use pdfpurr::fonts::font::{Font, FontSubtype};
use pdfpurr::error::PdfError;

#[test]
fn extract_simple_text() {
    let content = b"BT /F1 12 Tf (Hello World) Tj ET";
    let text = extract_text_from_content(content).unwrap();
    assert_eq!(text, "Hello World");
}

#[test]
fn extract_multiple_tj() {
    let content = b"BT /F1 12 Tf (Hello ) Tj (World) Tj ET";
    let text = extract_text_from_content(content).unwrap();
    assert_eq!(text, "Hello World");
}

#[test]
fn extract_tj_array() {
    let content = b"BT /F1 12 Tf [(Hello ) -200 (World)] TJ ET";
    let text = extract_text_from_content(content).unwrap();
    assert_eq!(text, "Hello  World");
}

#[test]
fn extract_text_with_newline() {
    let content = b"BT /F1 12 Tf 0 -14 Td (Line 1) Tj 0 -14 Td (Line 2) Tj ET";
    let text = extract_text_from_content(content).unwrap();
    assert!(text.contains("Line 1"));
    assert!(text.contains("Line 2"));
}

#[test]
fn extract_text_t_star() {
    let content = b"BT /F1 12 Tf (Line 1) Tj T* (Line 2) Tj ET";
    let text = extract_text_from_content(content).unwrap();
    assert!(text.contains("Line 1"));
    assert!(text.contains("Line 2"));
}

#[test]
fn extract_empty_content() {
    let text = extract_text_from_content(b"").unwrap();
    assert!(text.is_empty());
}

#[test]
fn extract_no_text_operators() {
    let content = b"q 1 0 0 1 50 50 cm Q";
    let text = extract_text_from_content(content).unwrap();
    assert!(text.is_empty());
}

#[test]
fn extract_hex_string_text() {
    let content = b"BT /F1 12 Tf <48656C6C6F> Tj ET";
    let text = extract_text_from_content(content).unwrap();
    assert_eq!(text, "Hello");
}

#[test]
fn extract_multiple_text_blocks() {
    let content = b"BT (First) Tj ET BT (Second) Tj ET";
    let text = extract_text_from_content(content).unwrap();
    assert!(text.contains("First"));
    assert!(text.contains("Second"));
}

#[test]
fn pdfdocencoding_0x80_to_0x9f_decoded_correctly() {
    // PDFDocEncoding (ISO 32000-2, Table D.2):
    // 0x80 = U+2022 BULLET
    // 0x84 = U+2014 EM DASH
    // 0x85 = U+2013 EN DASH
    // 0x8D = U+201C LEFT DOUBLE QUOTATION MARK
    // 0x8E = U+201D RIGHT DOUBLE QUOTATION MARK
    // 0x92 = U+2122 TRADE MARK SIGN
    // 0xA0 = U+20AC EURO SIGN
    let content = b"BT /F1 12 Tf <80848592A0> Tj ET";
    let text = extract_text_from_content(content).unwrap();
    assert!(
        text.contains('\u{2022}'),
        "0x80 should be BULLET, got: {:?}",
        text
    );
    assert!(
        text.contains('\u{2014}'),
        "0x84 should be EM DASH, got: {:?}",
        text
    );
    assert!(
        text.contains('\u{2013}'),
        "0x85 should be EN DASH, got: {:?}",
        text
    );
    assert!(
        text.contains('\u{2122}'),
        "0x92 should be TRADE MARK, got: {:?}",
        text
    );
    assert!(
        text.contains('\u{20AC}'),
        "0xA0 should be EURO SIGN, got: {:?}",
        text
    );
}

#[test]
fn pdfdocencoding_ascii_range_unchanged() {
    // ASCII range (0x20-0x7E) should map identically
    let content = b"BT /F1 12 Tf (ABC xyz 123) Tj ET";
    let text = extract_text_from_content(content).unwrap();
    assert_eq!(text, "ABC xyz 123");
}

#[test]
fn pdfdocencoding_undefined_bytes_replaced() {
    // 0x7F (DELETE), 0x80-area undefined bytes should be handled
    // 0xAD = U+00AD SOFT HYPHEN (identity in PDFDocEncoding)
    let content = b"BT /F1 12 Tf <AD> Tj ET";
    let text = extract_text_from_content(content).unwrap();
    assert!(
        text.contains('\u{00AD}'),
        "0xAD should be SOFT HYPHEN, got: {:?}",
        text
    );
}

#[test]
fn tj_array_small_adjustment_no_space() {
    // Small adjustments (< 100) should not insert spaces
    let content = b"BT [(H) -10 (ello)] TJ ET";
    let text = extract_text_from_content(content).unwrap();
    assert_eq!(text, "Hello");
}

// --- Font-aware extraction tests ---


fn make_test_font(encoding: Encoding) -> Font {
    Font::new("TestFont", FontSubtype::Type1, encoding, None)
}

fn font_map(entries: &[(&str, Font)]) -> Vec<(String, Font)> {
    entries
        .iter()
        .map(|(k, v)| (k.to_string(), v.clone()))
        .collect()
}

#[test]
fn extract_with_fonts_basic() {
    let fonts = font_map(&[("F1", make_test_font(Encoding::win_ansi()))]);
    let content = b"BT /F1 12 Tf (Hello) Tj ET";
    let text = extract_text_with_fonts(content, &fonts).unwrap();
    assert_eq!(text, "Hello");
}

#[test]
fn extract_with_fonts_win_ansi_special() {
    let fonts = font_map(&[("F1", make_test_font(Encoding::win_ansi()))]);
    // 0x93 = left double quotation mark in WinAnsi, 0x94 = right
    let content = b"BT /F1 12 Tf <9348659494> Tj ET";
    let text = extract_text_with_fonts(content, &fonts).unwrap();
    assert!(text.contains('\u{201C}')); // left double quote
    assert!(text.contains('\u{201D}')); // right double quote
}

#[test]
fn extract_with_fonts_fallback_no_font() {
    let fonts: Vec<(String, Font)> = Vec::new();
    let content = b"BT /F1 12 Tf (Hello) Tj ET";
    let text = extract_text_with_fonts(content, &fonts).unwrap();
    assert_eq!(text, "Hello");
}

#[test]
fn extract_with_fonts_graphics_state() {
    let fonts = font_map(&[
        ("F1", make_test_font(Encoding::win_ansi())),
        ("F2", make_test_font(Encoding::standard())),
    ]);
    // Switch fonts mid-stream
    let content = b"BT /F1 12 Tf (Hello ) Tj /F2 12 Tf (World) Tj ET";
    let text = extract_text_with_fonts(content, &fonts).unwrap();
    assert_eq!(text, "Hello World");
}

#[test]
fn extract_with_fonts_q_q_state() {
    let fonts = font_map(&[("F1", make_test_font(Encoding::win_ansi()))]);
    // q/Q should save/restore font state
    let content = b"BT /F1 12 Tf q (Inside) Tj Q (Outside) Tj ET";
    let text = extract_text_with_fonts(content, &fonts).unwrap();
    assert!(text.contains("Inside"));
    assert!(text.contains("Outside"));
}

#[test]
fn extract_with_fonts_tj_array() {
    let fonts = font_map(&[("F1", make_test_font(Encoding::win_ansi()))]);
    let content = b"BT /F1 12 Tf [(Hello ) -200 (World)] TJ ET";
    let text = extract_text_with_fonts(content, &fonts).unwrap();
    assert_eq!(text, "Hello  World");
}

#[test]
fn extract_quote_operators_add_newlines() {
    let text = extract_text_from_content(b"BT (A) Tj (B) ' 1 2 (C) \" ET").unwrap();
    assert_eq!(text, "AB\nC");
}

#[test]
fn extract_tm_and_td_spacing() {
    let text = extract_text_from_content(b"BT (A) Tj 1 0 0 1 0 0 Tm (B) Tj 0 0.4 Td (C) Tj 0 -0.6 Td (D) Tj ET").unwrap();
    assert_eq!(text, "A BC\nD");
}

#[test]
fn extract_outside_bt_is_ignored() {
    let text = extract_text_from_content(b"(X) Tj BT (Y) Tj ET (Z) Tj").unwrap();
    assert_eq!(text, "Y");
}

#[test]
fn extract_literal_escapes_and_utf16() {
    let text = extract_text_from_content(b"BT (a\\(b\\)\\101) Tj <FEFF0048> Tj ET").unwrap();
    assert_eq!(text, "a(b)AH");
}

#[test]
fn extract_skips_inline_images_and_dicts() {
    let text = extract_text_from_content(b"BT /Span <</ActualText (x)>> BDC (Hi) Tj EMC ET BI /W 1 /H 1 ID \x00\xff EI").unwrap();
    assert_eq!(text, "Hi");
}

#[test]
fn extract_reports_unexpected_byte() {
    let err = extract_text_from_content(b"BT ) ET").unwrap_err();
    assert!(matches!(err, PdfError::ParseError(ref m) if m == "Unexpected byte in content stream: 0x29"));
    let err = extract_text_from_content(b"BI /W 1 ID abc").unwrap_err();
    assert!(matches!(err, PdfError::ParseError(ref m) if m == "Inline image: EI marker not found"));
}

#[test]
fn extract_tj_real_adjustment() {
    let text = extract_text_from_content(b"BT [(a) -100.5 (b) -99.9 (c)] TJ ET").unwrap();
    assert_eq!(text, "a bc");
}

#[test]
fn extract_with_unknown_font_name_uses_pdfdoc() {
    let fonts = font_map(&[("F1", make_test_font(Encoding::standard()))]);
    let text = extract_text_with_fonts(b"BT /F2 12 Tf <80> Tj ET", &fonts).unwrap();
    assert_eq!(text, "\u{2022}");
}
