use pdfpurr::fonts::standard14::Standard14Font;

#[test]
fn standard14_helvetica_exists() {
    let font = Standard14Font::from_name("Helvetica");
    assert!(font.is_some());
    assert_eq!(font.unwrap().name(), "Helvetica");
}

#[test]
fn standard14_all_14_recognized() {
    let names = Standard14Font::all_names();
    assert_eq!(names.len(), 14);
    for name in names {
        assert!(Standard14Font::from_name(name).is_some(), "Standard font '{}' not found", name);
    }
}

#[test]
fn standard14_unknown_returns_none() {
    assert!(Standard14Font::from_name("FooBar").is_none());
    assert!(Standard14Font::from_name("Arial").is_none());
}

#[test]
fn standard14_helvetica_widths() {
    let font = Standard14Font::from_name("Helvetica").unwrap();
    assert_eq!(font.glyph_width(b'A'), 667);
    assert_eq!(font.glyph_width(b' '), 278);
    assert_eq!(font.glyph_width(b'i'), 222);
}

#[test]
fn standard14_courier_monospaced() {
    let font = Standard14Font::from_name("Courier").unwrap();
    assert_eq!(font.glyph_width(b'A'), 600);
    assert_eq!(font.glyph_width(b'i'), 600);
    assert_eq!(font.glyph_width(b' '), 600);
}

#[test]
fn standard14_to_font_dict() {
    let font = Standard14Font::from_name("Helvetica").unwrap();
    let dict = font.to_font_dictionary();
    let get = |k: &str| dict.iter().find(|(n, _)| n.as_str() == k).map(|(_, v)| v.as_str().to_string());
    assert_eq!(get("Type").as_deref(), Some("Font"));
    assert_eq!(get("Subtype").as_deref(), Some("Type1"));
    assert_eq!(get("BaseFont").as_deref(), Some("Helvetica"));
    assert_eq!(get("Encoding").as_deref(), Some("WinAnsiEncoding"));
}

#[test]
fn standard14_text_width() {
    let font = Standard14Font::from_name("Helvetica").unwrap();
    let width = font.text_width_units("Hello") as f64 * 12.0 / 1000.0;
    assert!((width - 27.336).abs() < 0.001);
}

#[test]
fn standard14_encoding_winansi() {
    let font = Standard14Font::from_name("Times-Roman").unwrap();
    let dict = font.to_font_dictionary();
    assert_eq!(dict[3].0.as_str(), "Encoding");
    assert_eq!(dict[3].1.as_str(), "WinAnsiEncoding");
}

#[test]
fn standard14_width_units_sum() {
    let font = Standard14Font::from_name("Helvetica").unwrap();
    assert_eq!(font.text_width_units("Hello"), 2278);
    let symbol = Standard14Font::from_name("Symbol").unwrap();
    assert_eq!(symbol.name(), "Symbol");
}
