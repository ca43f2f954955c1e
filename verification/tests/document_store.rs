use pdfpurr::accessibility::auto_tag::auto_tag_from_blocks;
use pdfpurr::content::structure_detection::{BlockRole, TextBlock};
use pdfpurr::document::{Document, PdfVersion};
use pdfpurr::objects::{DictExt, Dictionary, IndirectRef, Object, PdfName, PdfString, StringFormat};

/// Adds an empty page under the page tree root of a new document and
/// gives its object number.
fn add_blank_page(doc: &mut Document) -> u32 {
    let mut page = Dictionary::new();
    page.insert(PdfName::new("Type"), Object::Name(PdfName::new("Page")));
    page.insert(PdfName::new("Parent"), Object::Reference(IndirectRef::new(2, 0)));
    let id = doc.add_object(Object::Dictionary(page));
    let (mut kids, count) = match doc.get_object((2, 0)) {
        Some(Object::Dictionary(d)) => {
            let kids: Vec<Object> = match d.get("Kids") {
                Some(Object::Array(a)) => a.iter().map(|o| match o {
                    Object::Reference(r) => Object::Reference(*r),
                    _ => Object::Null,
                }).collect(),
                _ => Vec::new(),
            };
            let count = match d.get("Count") {
                Some(Object::Integer(n)) => *n,
                _ => 0,
            };
            (kids, count)
        }
        _ => panic!("no page tree"),
    };
    kids.push(Object::Reference(IndirectRef::new(id.0, id.1)));
    if let Some(Object::Dictionary(d)) = doc.get_object_mut((2, 0)) {
        d.insert(PdfName::new("Kids"), Object::Array(kids));
        d.insert(PdfName::new("Count"), Object::Integer(count + 1));
    }
    id.0
}

fn block(text: &str, role: BlockRole) -> TextBlock {
    TextBlock { run_texts: vec![text.to_string()], role }
}

fn dict_of(doc: &Document, num: u32) -> &Dictionary {
    match doc.get_object((num, 0)) {
        Some(Object::Dictionary(d)) => d,
        other => panic!("object {} is {:?}", num, other),
    }
}

#[test]
fn document_new() {
    let doc = Document::new();
    assert_eq!(doc.version, PdfVersion::new(1, 7));
    assert!(doc.catalog().is_ok());
    assert_eq!(doc.page_count().unwrap(), 0);
}

#[test]
fn document_add_object() {
    let mut doc = Document::new();
    let id = doc.add_object(Object::Integer(42));
    assert_eq!(doc.get_object(id), Some(&Object::Integer(42)));
}

#[test]
fn page_object_id_out_of_range() {
    let doc = Document::new();
    assert!(doc.page_object_id(0).is_err());
}

#[test]
fn new_document_has_catalog_and_page_tree() {
    let doc = Document::new();
    assert_eq!(doc.object_count(), 2);
    assert_eq!(doc.catalog_object_id(), Some((1, 0)));
    assert_eq!(doc.pages_id().unwrap(), (2, 0));
    assert_eq!(doc.catalog().unwrap().get("Type"), Some(&Object::Name(PdfName::new("Catalog"))));
}

#[test]
fn add_object_takes_next_number() {
    let mut doc = Document::new();
    assert_eq!(doc.add_object(Object::Null), (3, 0));
    assert_eq!(doc.add_object(Object::Boolean(true)), (4, 0));
    assert_eq!(doc.get_object_by_number(4), Some(&Object::Boolean(true)));
    assert_eq!(doc.get_object((4, 1)), None);
    assert_eq!(doc.object_count(), 4);
}

#[test]
fn resolve_follows_references_only() {
    let mut doc = Document::new();
    let id = doc.add_object(Object::Integer(7));
    let r = Object::Reference(IndirectRef::new(id.0, id.1));
    assert_eq!(doc.resolve(&r), Some(&Object::Integer(7)));
    let plain = Object::Integer(9);
    assert_eq!(doc.resolve(&plain), Some(&Object::Integer(9)));
    let dangling = Object::Reference(IndirectRef::new(40, 0));
    assert_eq!(doc.resolve(&dangling), None);
}

#[test]
fn page_object_id_finds_added_pages() {
    let mut doc = Document::new();
    let a = add_blank_page(&mut doc);
    let b = add_blank_page(&mut doc);
    assert_eq!(doc.page_object_id(0).unwrap(), (a, 0));
    assert_eq!(doc.page_object_id(1).unwrap(), (b, 0));
    assert_eq!(doc.page_count().unwrap(), 2);
    let e = doc.page_object_id(2).unwrap_err();
    assert_eq!(e.message(), "Invalid page: Page index 2 out of range (total: 2)");
}

#[test]
fn catalog_missing_root_is_an_error() {
    let mut doc = Document::new();
    doc.trailer = Dictionary::new();
    let e = doc.catalog().unwrap_err();
    assert_eq!(e.message(), "Invalid PDF structure: No /Root in trailer");
}

#[test]
fn negative_page_count_is_an_error() {
    let mut doc = Document::new();
    if let Some(Object::Dictionary(d)) = doc.get_object_mut((2, 0)) {
        d.insert(PdfName::new("Count"), Object::Integer(-3));
    }
    let e = doc.page_count().unwrap_err();
    assert_eq!(e.message(), "Invalid PDF structure: Negative page count: -3");
}

#[test]
fn append_content_stream_single_then_array() {
    let mut doc = Document::new();
    let page = add_blank_page(&mut doc);
    doc.append_content_stream(0, b"BT ET", None).unwrap();
    let first = page + 1;
    match doc.get_object((first, 0)) {
        Some(Object::Stream(s)) => {
            assert_eq!(s.data, b"BT ET".to_vec());
            assert_eq!(s.dict.get("Length"), Some(&Object::Integer(5)));
        }
        other => panic!("not a stream: {:?}", other),
    }
    assert_eq!(
        dict_of(&doc, page).get("Contents"),
        Some(&Object::Reference(IndirectRef::new(first, 0)))
    );
    doc.append_content_stream(0, b"q Q", None).unwrap();
    assert_eq!(
        dict_of(&doc, page).get("Contents"),
        Some(&Object::Array(vec![
            Object::Reference(IndirectRef::new(first, 0)),
            Object::Reference(IndirectRef::new(first + 1, 0)),
        ]))
    );
    doc.append_content_stream(0, b"", None).unwrap();
    match dict_of(&doc, page).get("Contents") {
        Some(Object::Array(a)) => assert_eq!(a.len(), 3),
        other => panic!("not an array: {:?}", other),
    }
}

#[test]
fn append_content_stream_merges_fonts_without_overwriting() {
    let mut doc = Document::new();
    let page = add_blank_page(&mut doc);
    let mut fonts = Dictionary::new();
    fonts.insert(PdfName::new("F1"), Object::Name(PdfName::new("Helvetica")));
    doc.append_content_stream(0, b"BT ET", Some(fonts)).unwrap();
    let mut more = Dictionary::new();
    more.insert(PdfName::new("F1"), Object::Name(PdfName::new("Courier")));
    more.insert(PdfName::new("F2"), Object::Name(PdfName::new("Times-Roman")));
    doc.append_content_stream(0, b"BT ET", Some(more)).unwrap();
    let res = match dict_of(&doc, page).get("Resources") {
        Some(Object::Dictionary(r)) => r,
        other => panic!("no resources: {:?}", other),
    };
    match res.get("Font") {
        Some(Object::Dictionary(f)) => {
            assert_eq!(f.get("F1"), Some(&Object::Name(PdfName::new("Helvetica"))));
            assert_eq!(f.get("F2"), Some(&Object::Name(PdfName::new("Times-Roman"))));
            assert_eq!(f.len(), 2);
        }
        other => panic!("no fonts: {:?}", other),
    }
}

#[test]
fn append_content_stream_fonts_into_referenced_resources() {
    let mut doc = Document::new();
    let page = add_blank_page(&mut doc);
    let res_id = doc.add_object(Object::Dictionary(Dictionary::new()));
    if let Some(Object::Dictionary(d)) = doc.get_object_mut((page, 0)) {
        d.insert(PdfName::new("Resources"), Object::Reference(IndirectRef::new(res_id.0, res_id.1)));
    }
    let mut fonts = Dictionary::new();
    fonts.insert(PdfName::new("F1"), Object::Integer(1));
    doc.append_content_stream(0, b"BT ET", Some(fonts)).unwrap();
    match dict_of(&doc, res_id.0).get("Font") {
        Some(Object::Dictionary(f)) => assert_eq!(f.get("F1"), Some(&Object::Integer(1))),
        other => panic!("no fonts: {:?}", other),
    }
    assert_eq!(
        dict_of(&doc, page).get("Resources"),
        Some(&Object::Reference(IndirectRef::new(res_id.0, res_id.1)))
    );
}

#[test]
fn append_content_stream_bad_page_index() {
    let mut doc = Document::new();
    add_blank_page(&mut doc);
    let e = doc.append_content_stream(3, b"BT ET", None).unwrap_err();
    assert_eq!(e.message(), "Invalid page: Page index 3 out of range (total: 1)");
    assert_eq!(doc.object_count(), 3);
}

#[test]
fn append_content_stream_page_not_dictionary() {
    let mut doc = Document::new();
    let id = doc.add_object(Object::Integer(5));
    if let Some(Object::Dictionary(d)) = doc.get_object_mut((2, 0)) {
        d.insert(PdfName::new("Kids"), Object::Array(vec![Object::Reference(IndirectRef::new(id.0, id.1))]));
    }
    let e = doc.append_content_stream(0, b"x", None).unwrap_err();
    assert_eq!(e.message(), "Invalid PDF structure: Page is not a dictionary");
    assert_eq!(doc.object_count(), 4);
}

#[test]
fn auto_tag_empty_blocks_is_noop() {
    let mut doc = Document::new();
    add_blank_page(&mut doc);
    auto_tag_from_blocks(&mut doc, &[], "en").unwrap();

    let tree = doc.structure_tree();
    assert!(tree.is_none(), "Empty blocks should not create structure tree");
    assert_eq!(doc.object_count(), 3);
}

#[test]
fn auto_tag_builds_elements_tree_and_catalog_entries() {
    let mut doc = Document::new();
    add_blank_page(&mut doc);
    let blocks = vec![
        block("Chapter Title", BlockRole::Heading(1)),
        TextBlock { run_texts: vec!["Body".to_string(), "paragraph".to_string()], role: BlockRole::Paragraph },
        block("1. First item", BlockRole::ListItem),
    ];
    auto_tag_from_blocks(&mut doc, &blocks, "en-US").unwrap();
    // objects 4, 5, 6: elements; 7: document; 8: parent tree; 9: root
    assert_eq!(doc.object_count(), 9);
    let h1 = dict_of(&doc, 4);
    assert_eq!(h1.get("Type"), Some(&Object::Name(PdfName::new("StructElem"))));
    assert_eq!(h1.get("S"), Some(&Object::Name(PdfName::new("H1"))));
    assert_eq!(h1.get("K"), Some(&Object::Integer(0)));
    assert_eq!(
        h1.get("ActualText"),
        Some(&Object::String(PdfString { bytes: b"Chapter Title".to_vec(), format: StringFormat::Literal }))
    );
    let p = dict_of(&doc, 5);
    assert_eq!(p.get("S"), Some(&Object::Name(PdfName::new("P"))));
    assert_eq!(
        p.get("ActualText"),
        Some(&Object::String(PdfString { bytes: b"Body paragraph".to_vec(), format: StringFormat::Literal }))
    );
    assert_eq!(dict_of(&doc, 6).get("S"), Some(&Object::Name(PdfName::new("LI"))));
    let de = dict_of(&doc, 7);
    assert_eq!(de.get("S"), Some(&Object::Name(PdfName::new("Document"))));
    assert_eq!(
        de.get("K"),
        Some(&Object::Array(vec![
            Object::Reference(IndirectRef::new(4, 0)),
            Object::Reference(IndirectRef::new(5, 0)),
            Object::Reference(IndirectRef::new(6, 0)),
        ]))
    );
    match dict_of(&doc, 8).get("Nums") {
        Some(Object::Array(a)) => {
            assert_eq!(a.len(), 6);
            assert_eq!(a[2], Object::Integer(1));
            assert_eq!(a[3], Object::Reference(IndirectRef::new(5, 0)));
        }
        other => panic!("no Nums: {:?}", other),
    }
    let root = dict_of(&doc, 9);
    assert_eq!(root.get("K"), Some(&Object::Reference(IndirectRef::new(7, 0))));
    assert_eq!(root.get("ParentTree"), Some(&Object::Reference(IndirectRef::new(8, 0))));
    let cat = doc.catalog().unwrap();
    assert_eq!(cat.get("StructTreeRoot"), Some(&Object::Reference(IndirectRef::new(9, 0))));
    let mut marked = Dictionary::new();
    marked.insert(PdfName::new("Marked"), Object::Boolean(true));
    assert_eq!(cat.get("MarkInfo"), Some(&Object::Dictionary(marked)));
    assert_eq!(
        cat.get("Lang"),
        Some(&Object::String(PdfString { bytes: b"en-US".to_vec(), format: StringFormat::Literal }))
    );
}

#[test]
fn auto_tag_keeps_existing_catalog_language() {
    let mut doc = Document::new();
    if let Some(Object::Dictionary(c)) = doc.get_object_mut((1, 0)) {
        c.insert(PdfName::new("Lang"), Object::String(PdfString { bytes: b"de".to_vec(), format: StringFormat::Literal }));
    }
    auto_tag_from_blocks(&mut doc, &[block("Titel", BlockRole::Heading(2))], "en").unwrap();
    assert_eq!(
        doc.catalog().unwrap().get("Lang"),
        Some(&Object::String(PdfString { bytes: b"de".to_vec(), format: StringFormat::Literal }))
    );
    assert_eq!(dict_of(&doc, 3).get("S"), Some(&Object::Name(PdfName::new("H2"))));
}

#[test]
fn auto_tag_roles_of_code_table_and_unknown_blocks() {
    let mut doc = Document::new();
    let blocks = vec![
        block("fn main() {}", BlockRole::Code),
        block("cell", BlockRole::TableCell),
        block("?", BlockRole::Unknown),
        TextBlock { run_texts: Vec::new(), role: BlockRole::Heading(12) },
    ];
    auto_tag_from_blocks(&mut doc, &blocks, "").unwrap();
    assert_eq!(dict_of(&doc, 3).get("S"), Some(&Object::Name(PdfName::new("Code"))));
    assert_eq!(dict_of(&doc, 4).get("S"), Some(&Object::Name(PdfName::new("TD"))));
    assert_eq!(dict_of(&doc, 5).get("S"), Some(&Object::Name(PdfName::new("P"))));
    assert_eq!(dict_of(&doc, 6).get("S"), Some(&Object::Name(PdfName::new("H12"))));
    assert_eq!(
        dict_of(&doc, 6).get("ActualText"),
        Some(&Object::String(PdfString { bytes: Vec::new(), format: StringFormat::Literal }))
    );
}

#[test]
fn to_bytes_writes_objects_xref_and_trailer() {
    let doc = Document::new();
    let bytes = doc.to_bytes().unwrap();
    let mut expected: Vec<u8> = b"%PDF-1.7\n%\xE2\xE3\xCF\xD3\n".to_vec();
    let first = expected.len();
    expected.extend_from_slice(b"1 0 obj\n");
    doc.get_object((1, 0)).unwrap().write_pdf(&mut expected);
    expected.extend_from_slice(b"\nendobj\n");
    let second = expected.len();
    expected.extend_from_slice(b"2 0 obj\n");
    doc.get_object((2, 0)).unwrap().write_pdf(&mut expected);
    expected.extend_from_slice(b"\nendobj\n");
    let xref = expected.len();
    expected.extend_from_slice(b"xref\n0 3\n0000000000 65535 f \n");
    expected.extend_from_slice(format!("{:010} 00000 n \n", first).as_bytes());
    expected.extend_from_slice(format!("{:010} 00000 n \n", second).as_bytes());
    expected.extend_from_slice(b"trailer\n");
    let mut trailer = Dictionary::new();
    trailer.insert(PdfName::new("Root"), Object::Reference(IndirectRef::new(1, 0)));
    trailer.insert(PdfName::new("Size"), Object::Integer(3));
    Object::Dictionary(trailer).write_pdf(&mut expected);
    expected.extend_from_slice(format!("\nstartxref\n{}\n%%EOF\n", xref).as_bytes());
    assert_eq!(bytes, expected);
    assert_eq!(first, 15);
}

#[test]
fn to_bytes_orders_objects_by_number_and_sizes_trailer() {
    let mut doc = Document::new();
    doc.add_object(Object::Integer(10));
    doc.add_object(Object::Integer(11));
    let bytes = doc.to_bytes().unwrap();
    let text = String::from_utf8_lossy(&bytes).to_string();
    let p1 = text.find("1 0 obj").unwrap();
    let p3 = text.find("3 0 obj\n10\nendobj").unwrap();
    let p4 = text.find("4 0 obj\n11\nendobj").unwrap();
    assert!(p1 < p3 && p3 < p4);
    assert!(text.contains("xref\n0 5\n"));
    assert!(text.contains("/Size 5"));
    assert!(text.ends_with("%%EOF\n"));
}

#[test]
fn pages_walks_nested_page_tree_in_order() {
    let mut doc = Document::new();
    let a = add_blank_page(&mut doc);
    let mut inner_kid = Dictionary::new();
    inner_kid.insert(PdfName::new("Type"), Object::Name(PdfName::new("Page")));
    inner_kid.insert(PdfName::new("Rotate"), Object::Integer(90));
    let c = doc.add_object(Object::Dictionary(inner_kid));
    let mut node = Dictionary::new();
    node.insert(PdfName::new("Type"), Object::Name(PdfName::new("Pages")));
    node.insert(PdfName::new("Kids"), Object::Array(vec![Object::Reference(IndirectRef::new(c.0, c.1))]));
    let n = doc.add_object(Object::Dictionary(node));
    if let Some(Object::Dictionary(d)) = doc.get_object_mut((2, 0)) {
        d.insert(
            PdfName::new("Kids"),
            Object::Array(vec![
                Object::Reference(IndirectRef::new(a, 0)),
                Object::Reference(IndirectRef::new(n.0, n.1)),
            ]),
        );
    }
    let pages = doc.pages().unwrap();
    assert_eq!(pages.len(), 2);
    assert_eq!(pages[1].get("Rotate"), Some(&Object::Integer(90)));
    assert_eq!(doc.get_page(1).unwrap().get("Rotate"), Some(&Object::Integer(90)));
    let e = doc.get_page(2).unwrap_err();
    assert_eq!(e.message(), "Invalid page: Page index 2 out of range (total: 2)");
}

#[test]
fn circular_page_tree_is_an_error() {
    let mut doc = Document::new();
    if let Some(Object::Dictionary(d)) = doc.get_object_mut((2, 0)) {
        d.insert(PdfName::new("Kids"), Object::Array(vec![Object::Reference(IndirectRef::new(2, 0))]));
    }
    let e = doc.pages().unwrap_err();
    assert_eq!(
        e.message(),
        "Invalid PDF structure: Page tree exceeds maximum depth (circular reference or excessive nesting)"
    );
}

#[test]
fn page_tree_child_that_is_no_dictionary_is_an_error() {
    let mut doc = Document::new();
    let x = doc.add_object(Object::Integer(3));
    if let Some(Object::Dictionary(d)) = doc.get_object_mut((2, 0)) {
        d.insert(PdfName::new("Kids"), Object::Array(vec![Object::Reference(IndirectRef::new(x.0, x.1))]));
    }
    let e = doc.pages().unwrap_err();
    assert_eq!(e.message(), "Type error: expected Dictionary, found Integer");
}

#[test]
fn info_and_title_from_trailer() {
    let mut doc = Document::new();
    assert!(doc.info().is_none());
    assert!(doc.title().is_none());
    let mut info = Dictionary::new();
    info.insert(PdfName::new("Title"), Object::String(PdfString { bytes: b"My Doc".to_vec(), format: StringFormat::Literal }));
    let id = doc.add_object(Object::Dictionary(info));
    doc.trailer.insert(PdfName::new("Info"), Object::Reference(IndirectRef::new(id.0, id.1)));
    assert!(doc.info().is_some());
    assert_eq!(doc.title(), Some("My Doc"));
}

/// The value after `/Key ` in the linearization dictionary.
fn hint(text: &str, key: &str) -> usize {
    let start = text.find(&format!("/{} ", key)).unwrap() + key.len() + 2;
    let rest = &text[start..];
    let end = rest.find(' ').unwrap();
    rest[..end].parse().unwrap()
}

#[test]
fn to_linearized_bytes_puts_first_page_objects_first() {
    let mut doc = Document::new();
    add_blank_page(&mut doc);
    let bytes = doc.to_linearized_bytes().unwrap();
    let text = String::from_utf8_lossy(&bytes).to_string();
    assert!(bytes.starts_with(b"%PDF-1.7\n%\xE2\xE3\xCF\xD3\n4 0 obj\n<< /Linearized 1 /L "));
    let p2 = text.find("2 0 obj\n").unwrap();
    let p3 = text.find("3 0 obj\n").unwrap();
    let p1 = text.find("1 0 obj\n").unwrap();
    assert!(p2 < p3 && p3 < p1);
    // the hints hold the real values
    assert_eq!(hint(&text, "L"), bytes.len());
    assert_eq!(hint(&text, "E"), p1);
    let xref = text.find("xref\n0 5\n").unwrap();
    assert_eq!(hint(&text, "T"), xref);
    assert_eq!(hint(&text, "O"), 2);
    assert_eq!(hint(&text, "N"), 1);
    assert!(text.contains(&format!("startxref\n{}\n%%EOF\n", xref)));
    assert!(text.contains("xref\n0 5\n0000000000 65535 f \n"));
    assert!(text.contains(&format!("{:010} 00000 n \n", 15)));
    assert!(text.contains("/Size 5"));
    // the dictionary keeps its first length: the objects start where the
    // cross-reference table says
    assert!(text.contains(&format!("{:010} 00000 n \n", p2)));
}

#[test]
fn to_linearized_bytes_without_pages_keeps_id_order() {
    let doc = Document::new();
    let bytes = doc.to_linearized_bytes().unwrap();
    let text = String::from_utf8_lossy(&bytes).to_string();
    assert!(text.contains("3 0 obj\n<< /Linearized 1 /L "));
    assert_eq!(hint(&text, "O"), 0);
    assert_eq!(hint(&text, "N"), 0);
    assert_eq!(hint(&text, "E"), text.find("1 0 obj\n").unwrap());
    assert_eq!(hint(&text, "L"), bytes.len());
    let p1 = text.find("1 0 obj\n").unwrap();
    let p2 = text.find("2 0 obj\n").unwrap();
    assert!(p1 < p2);
    assert!(text.contains("xref\n0 4\n"));
}

#[test]
fn added_object_is_found_and_others_unchanged() {
    let mut doc = Document::new();
    let before = doc.get_object((1, 0)).map(|o| format!("{:?}", o));
    let id = doc.add_object(Object::Name(PdfName::new("X")));
    assert_eq!(doc.get_object(id), Some(&Object::Name(PdfName::new("X"))));
    assert_eq!(doc.get_object((1, 0)).map(|o| format!("{:?}", o)), before);
}

#[test]
fn remove_page() {
    let mut doc = Document::new();
    add_blank_page(&mut doc);
    add_blank_page(&mut doc);
    assert_eq!(doc.page_count().unwrap(), 2);

    doc.remove_page(0).unwrap();
    assert_eq!(doc.page_count().unwrap(), 1);
}

#[test]
fn remove_page_out_of_range() {
    let mut doc = Document::new();
    add_blank_page(&mut doc);
    assert!(doc.remove_page(5).is_err());
}

#[test]
fn rotate_page() {
    let mut doc = Document::new();
    add_blank_page(&mut doc);
    doc.rotate_page(0, 90).unwrap();

    let pages_id = doc.pages_id().unwrap();
    let pages = doc.get_object(pages_id).unwrap().as_dict().unwrap();
    let kids = pages.get_str("Kids").unwrap().as_array().unwrap();
    let page_ref = kids[0].as_reference().unwrap().id();
    let page = doc.get_object(page_ref).unwrap().as_dict().unwrap();
    assert_eq!(page.get_i64("Rotate"), Some(90));
}

#[test]
fn rotate_page_invalid_degrees() {
    let mut doc = Document::new();
    add_blank_page(&mut doc);
    assert!(doc.rotate_page(0, 45).is_err());
}

#[test]
fn rotate_page_out_of_range() {
    let mut doc = Document::new();
    add_blank_page(&mut doc);
    assert!(doc.rotate_page(5, 90).is_err());
}

#[test]
fn remove_page_keeps_the_other_kids_in_order() {
    let mut doc = Document::new();
    let a = add_blank_page(&mut doc);
    let b = add_blank_page(&mut doc);
    let c = add_blank_page(&mut doc);
    doc.remove_page(1).unwrap();
    assert_eq!(doc.page_object_id(0).unwrap(), (a, 0));
    assert_eq!(doc.page_object_id(1).unwrap(), (c, 0));
    assert_ne!(b, c);
    let e = doc.remove_page(2).unwrap_err();
    assert_eq!(e.message(), "Invalid page: Page index 2 out of range (total: 2)");
}

#[test]
fn rotate_page_negative_quarter_turns_and_messages() {
    let mut doc = Document::new();
    let a = add_blank_page(&mut doc);
    doc.rotate_page(0, -270).unwrap();
    assert_eq!(dict_of(&doc, a).get("Rotate"), Some(&Object::Integer(-270)));
    assert_eq!(doc.rotate_page(0, -45).unwrap_err().message(), "Invalid page: Rotation must be a multiple of 90");
}

#[test]
fn reorder_pages_wrong_length() {
    let mut doc = Document::new();
    add_blank_page(&mut doc);
    add_blank_page(&mut doc);
    assert!(doc.reorder_pages(&[0]).is_err());
}

#[test]
fn reorder_pages_reverses_kids() {
    let mut doc = Document::new();
    let a = add_blank_page(&mut doc);
    let b = add_blank_page(&mut doc);
    let c = add_blank_page(&mut doc);
    doc.reorder_pages(&[2, 1, 0]).unwrap();
    assert_eq!(doc.page_object_id(0).unwrap(), (c, 0));
    assert_eq!(doc.page_object_id(1).unwrap(), (b, 0));
    assert_eq!(doc.page_object_id(2).unwrap(), (a, 0));
    assert_eq!(doc.page_count().unwrap(), 3);
}

#[test]
fn reorder_pages_rejects_non_permutations_without_change() {
    let mut doc = Document::new();
    let a = add_blank_page(&mut doc);
    let b = add_blank_page(&mut doc);
    let e = doc.reorder_pages(&[1, 5]).unwrap_err();
    assert_eq!(e.message(), "Invalid page: Invalid page index 5 in order");
    assert_eq!(doc.page_object_id(0).unwrap(), (a, 0));
    assert_eq!(doc.page_object_id(1).unwrap(), (b, 0));
    let e = doc.reorder_pages(&[0, 0]).unwrap_err();
    assert_eq!(e.message(), "Invalid page: Page index 0 repeated in order");
    assert_eq!(doc.page_object_id(0).unwrap(), (a, 0));
    assert_eq!(doc.page_object_id(1).unwrap(), (b, 0));
    assert_eq!(doc.page_count().unwrap(), 2);
    let e = doc.reorder_pages(&[0]).unwrap_err();
    assert_eq!(e.message(), "Invalid page: Order length (1) doesn't match page count (2)");
}

#[test]
fn page_resources_inherited_from_parent() {
    let mut doc = Document::new();
    let page = add_blank_page(&mut doc);
    let mut res = Dictionary::new();
    res.insert(PdfName::new("ProcSet"), Object::Array(vec![Object::Name(PdfName::new("PDF"))]));
    let rid = doc.add_object(Object::Dictionary(res));
    if let Some(Object::Dictionary(d)) = doc.get_object_mut((2, 0)) {
        d.insert(PdfName::new("Resources"), Object::Reference(IndirectRef::new(rid.0, rid.1)));
    }
    let page_dict = dict_of(&doc, page);
    let found = doc.page_resources(page_dict).unwrap();
    assert!(found.get("ProcSet").is_some());
    assert_eq!(
        doc.find_inherited(page_dict, "Resources"),
        Some(&Object::Reference(IndirectRef::new(rid.0, rid.1)))
    );
    assert_eq!(doc.find_inherited(page_dict, "MediaBox"), None);
    assert_eq!(doc.find_inherited(page_dict, "Type"), Some(&Object::Name(PdfName::new("Page"))));
}

#[test]
fn merge_documents() {
    let mut doc1 = Document::new();
    add_blank_page(&mut doc1);

    let mut doc2 = Document::new();
    add_blank_page(&mut doc2);
    add_blank_page(&mut doc2);

    doc1.merge(&doc2).unwrap();
    assert_eq!(doc1.page_count().unwrap(), 3);
}

#[test]
fn merge_renumbers_objects_and_sets_parents() {
    let mut doc1 = Document::new();
    add_blank_page(&mut doc1); // objects 1..3
    let mut doc2 = Document::new();
    add_blank_page(&mut doc2); // objects 1..3 of doc2, page is 3
    doc1.merge(&doc2).unwrap();
    // doc2's objects 1, 2, 3 become 4, 5, 6
    assert_eq!(doc1.object_count(), 6);
    assert_eq!(doc1.page_object_id(1).unwrap(), (6, 0));
    let page = dict_of(&doc1, 6);
    assert_eq!(page.get("Parent"), Some(&Object::Reference(IndirectRef::new(2, 0))));
    // the copied catalog points at the copied page tree root
    assert_eq!(dict_of(&doc1, 4).get("Pages"), Some(&Object::Reference(IndirectRef::new(5, 0))));
    assert_eq!(doc1.pages().unwrap().len(), 2);
}

#[test]
fn auto_tag_creates_structure_tree() {
    let mut doc = Document::new();
    add_blank_page(&mut doc);

    let blocks = vec![
        block("Chapter Title", BlockRole::Heading(1)),
        block("Body paragraph", BlockRole::Paragraph),
        block("1. First item", BlockRole::ListItem),
    ];

    auto_tag_from_blocks(&mut doc, &blocks, "en-US").unwrap();

    let tree = doc.structure_tree();
    assert!(tree.is_some(), "Should have structure tree after auto-tag");

    let tree = tree.unwrap();
    let doc_elem = &tree.children[0];
    assert_eq!(doc_elem.struct_type, "Document");
    assert!(doc_elem.children.len() >= 3, "Should have 3 children");
}

#[test]
fn auto_tag_preserves_heading_levels() {
    let mut doc = Document::new();
    add_blank_page(&mut doc);

    let blocks = vec![
        block("H1 Title", BlockRole::Heading(1)),
        block("H2 Section", BlockRole::Heading(2)),
        block("Body", BlockRole::Paragraph),
    ];

    auto_tag_from_blocks(&mut doc, &blocks, "en").unwrap();

    let tree = doc.structure_tree().unwrap();
    let doc_elem = &tree.children[0];
    assert_eq!(doc_elem.children[0].struct_type, "H1");
    assert_eq!(doc_elem.children[1].struct_type, "H2");
    assert_eq!(doc_elem.children[2].struct_type, "P");
}

#[test]
fn accessibility_report_of_tagged_and_untagged_documents() {
    let mut doc = Document::new();
    let report = doc.accessibility_report();
    assert_eq!(report.checks.len(), 6);
    assert!(!report.checks[0].passed);
    assert!(!report.checks[1].passed);
    auto_tag_from_blocks(
        &mut doc,
        &[block("Title", BlockRole::Heading(1)), block("Deep", BlockRole::Heading(3))],
        "en",
    )
    .unwrap();
    let report = doc.accessibility_report();
    assert!(report.checks[0].passed);
    assert!(report.checks[1].passed);
    assert_eq!(report.checks[3].id, "heading-order");
    assert!(!report.checks[3].passed);
    assert!(report.checks[3].details[0].contains("skips level 2"));
}
