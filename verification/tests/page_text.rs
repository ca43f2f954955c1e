use pdfpurr::document::Document;
use pdfpurr::fonts::font::FontSubtype;
use pdfpurr::objects::{DictExt, Dictionary, IndirectRef, Object, PdfName, PdfStream};

/// Adds an empty page under the page tree root of a new document and
/// gives its object number.
fn add_blank_page(doc: &mut Document) -> u32 {
    let mut page = Dictionary::new();
    page.insert(PdfName::new("Type"), Object::Name(PdfName::new("Page")));
    page.insert(PdfName::new("Parent"), Object::Reference(IndirectRef::new(2, 0)));
    let id = doc.add_object(Object::Dictionary(page));
    let (mut kids, count) = match doc.get_object((2, 0)) {
        Some(Object::Dictionary(d)) => {
            let kids: Vec<Object> = match d.get("Kids") {
                Some(Object::Array(a)) => a
                    .iter()
                    .map(|o| match o {
                        Object::Reference(r) => Object::Reference(*r),
                        _ => Object::Null,
                    })
                    .collect(),
                _ => Vec::new(),
            };
            let count = match d.get("Count") {
                Some(Object::Integer(n)) => *n,
                _ => 0,
            };
            (kids, count)
        }
        _ => panic!("no page tree"),
    };
    kids.push(Object::Reference(IndirectRef::new(id.0, id.1)));
    if let Some(Object::Dictionary(d)) = doc.get_object_mut((2, 0)) {
        d.insert(PdfName::new("Kids"), Object::Array(kids));
        d.insert(PdfName::new("Count"), Object::Integer(count + 1));
    }
    id.0
}

fn helvetica_font_dict(encoding: &str) -> Dictionary {
    let mut f = Dictionary::new();
    f.insert(PdfName::new("Type"), Object::Name(PdfName::new("Font")));
    f.insert(PdfName::new("Subtype"), Object::Name(PdfName::new("Type1")));
    f.insert(PdfName::new("BaseFont"), Object::Name(PdfName::new("Helvetica")));
    f.insert(PdfName::new("Encoding"), Object::Name(PdfName::new(encoding)));
    f
}

fn page_dict(doc: &Document, num: u32) -> &Dictionary {
    match doc.get_object((num, 0)) {
        Some(Object::Dictionary(d)) => d,
        other => panic!("object {} is {:?}", num, other),
    }
}

#[test]
fn extract_page_text_reads_content_stream() {
    let mut doc = Document::new();
    add_blank_page(&mut doc);
    doc.append_content_stream(0, b"BT /F1 12 Tf (Hello World) Tj ET", None).unwrap();
    assert_eq!(doc.extract_page_text(0).unwrap(), "Hello World");
}

#[test]
fn extract_page_text_without_contents_fails() {
    let mut doc = Document::new();
    add_blank_page(&mut doc);
    let e = doc.extract_page_text(0).unwrap_err();
    assert_eq!(e.message(), "Invalid page: No /Contents in page");
}

#[test]
fn extract_page_text_out_of_range_fails() {
    let mut doc = Document::new();
    add_blank_page(&mut doc);
    let e = doc.extract_page_text(3).unwrap_err();
    assert_eq!(e.message(), "Invalid page: Page index 3 out of range (total: 1)");
}

#[test]
fn extract_page_text_uses_font_encoding() {
    let mut doc = Document::new();
    add_blank_page(&mut doc);
    let mut fonts = Dictionary::new();
    fonts.insert(PdfName::new("F1"), Object::Dictionary(helvetica_font_dict("WinAnsiEncoding")));
    doc.append_content_stream(0, b"BT /F1 12 Tf (Caf\xe9) Tj ET", Some(fonts)).unwrap();
    assert_eq!(doc.extract_page_text(0).unwrap(), "Caf\u{e9}");
}

#[test]
fn extract_page_text_joins_content_array() {
    let mut doc = Document::new();
    add_blank_page(&mut doc);
    doc.append_content_stream(0, b"BT (Alpha) Tj ET", None).unwrap();
    doc.append_content_stream(0, b"BT (Beta) Tj ET", None).unwrap();
    let text = doc.extract_page_text(0).unwrap();
    let a = text.find("Alpha").unwrap();
    let b = text.find("Beta").unwrap();
    assert!(a < b);
}

#[test]
fn extract_all_text_separates_pages_and_skips_failures() {
    let mut doc = Document::new();
    add_blank_page(&mut doc);
    add_blank_page(&mut doc);
    add_blank_page(&mut doc);
    doc.append_content_stream(0, b"BT (One) Tj ET", None).unwrap();
    doc.append_content_stream(2, b"BT (Three) Tj ET", None).unwrap();
    assert_eq!(doc.extract_all_text().unwrap(), "One\x0C\x0CThree");
}

#[test]
fn extract_all_text_of_empty_document() {
    let doc = Document::new();
    assert_eq!(doc.extract_all_text().unwrap(), "");
}

#[test]
fn page_fonts_loads_font_dictionaries() {
    let mut doc = Document::new();
    let page = add_blank_page(&mut doc);
    let mut fonts = Dictionary::new();
    fonts.insert(PdfName::new("F1"), Object::Dictionary(helvetica_font_dict("WinAnsiEncoding")));
    fonts.insert(PdfName::new("F2"), Object::Name(PdfName::new("NotAFont")));
    doc.append_content_stream(0, b"BT ET", Some(fonts)).unwrap();
    let loaded = doc.page_fonts(page_dict(&doc, page));
    assert_eq!(loaded.len(), 1);
    assert_eq!(loaded[0].0, "F1");
    assert_eq!(loaded[0].1.name(), "Helvetica");
    assert_eq!(*loaded[0].1.subtype(), FontSubtype::Type1);
}

#[test]
fn page_fonts_uses_fallback_for_unreadable_font() {
    let mut doc = Document::new();
    let page = add_blank_page(&mut doc);
    let mut fonts = Dictionary::new();
    fonts.insert(PdfName::new("F1"), Object::Dictionary(helvetica_font_dict("NoSuchEncoding")));
    doc.append_content_stream(0, b"BT ET", Some(fonts)).unwrap();
    let loaded = doc.page_fonts(page_dict(&doc, page));
    assert_eq!(loaded.len(), 1);
    assert_eq!(loaded[0].0, "F1");
    assert_eq!(loaded[0].1.name(), "Unknown");
}

#[test]
fn page_fonts_of_page_without_resources() {
    let mut doc = Document::new();
    let page = add_blank_page(&mut doc);
    assert!(doc.page_fonts(page_dict(&doc, page)).is_empty());
}

#[test]
fn extract_page_text_reads_tounicode_stream() {
    let mut doc = Document::new();
    add_blank_page(&mut doc);
    let cmap = b"1 begincodespacerange\n<00> <FF>\nendcodespacerange\n1 beginbfchar\n<01> <0058>\nendbfchar\n".to_vec();
    let cmap_id = doc.add_object(Object::Stream(PdfStream::new(Dictionary::new(), cmap)));
    let mut f = helvetica_font_dict("WinAnsiEncoding");
    f.insert(PdfName::new("ToUnicode"), Object::Reference(IndirectRef::new(cmap_id.0, cmap_id.1)));
    let mut fonts = Dictionary::new();
    fonts.insert(PdfName::new("F1"), Object::Dictionary(f));
    doc.append_content_stream(0, b"BT /F1 12 Tf (\x01A) Tj ET", Some(fonts)).unwrap();
    assert_eq!(doc.extract_page_text(0).unwrap(), "XA");
}
