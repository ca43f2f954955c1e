use pdfpurr::accessibility::structure_builder::{
    add_tagged_structure_from_ocr, document_median_height, OcrResult, OcrWord,
};
use pdfpurr::document::Document;
use pdfpurr::objects::{Dictionary, Object, PdfName, PdfString, StringFormat};

fn word(text: &str, x: u32, y: u32, height: u32) -> OcrWord {
    OcrWord { text: text.to_string(), x, y, width: 100, height }
}

fn make_words(texts: &[(&str, u32, u32)]) -> OcrResult {
    let words = texts.iter().map(|(text, x, y)| word(text, *x, *y, 20)).collect();
    OcrResult { words, image_width: 2550, image_height: 3300 }
}

/// The heading threshold as the document's caller computes it.
fn threshold(result: &OcrResult) -> u32 {
    (document_median_height(result) as f64 * 1.4) as u32
}

fn dict_of(doc: &Document, num: u32) -> &Dictionary {
    match doc.get_object((num, 0)) {
        Some(Object::Dictionary(d)) => d,
        other => panic!("object {} is {:?}", num, other),
    }
}

#[test]
fn add_tagged_structure_creates_struct_tree() {
    let mut doc = Document::new();
    let result = make_words(&[("Hello", 100, 100), ("world", 250, 100)]);
    add_tagged_structure_from_ocr(&mut doc, 0, &result, "en-US", 30, threshold(&result)).unwrap();
    let catalog = doc.catalog().unwrap();
    assert!(catalog.get("StructTreeRoot").is_some());
    assert!(catalog.get("Lang").is_some());
    let mark_info = match catalog.get("MarkInfo") {
        Some(Object::Dictionary(d)) => d,
        other => panic!("no MarkInfo: {:?}", other),
    };
    assert_eq!(mark_info.get("Marked").and_then(|o| o.as_bool()), Some(true));
}

#[test]
fn parent_tree_exists_in_struct_tree_root() {
    let mut doc = Document::new();
    let result = make_words(&[("Hello", 100, 100)]);
    add_tagged_structure_from_ocr(&mut doc, 0, &result, "en-US", 30, threshold(&result)).unwrap();
    let catalog = doc.catalog().unwrap();
    let root_ref = catalog.get("StructTreeRoot").unwrap();
    let root = doc.resolve(root_ref).unwrap();
    let root_dict = root.as_dict().unwrap();
    assert!(root_dict.get("ParentTree").is_some());
}

#[test]
fn ocr_paragraphs_become_elements_with_their_words() {
    let mut doc = Document::new();
    let result = make_words(&[("First", 100, 100), ("para", 250, 100), ("Second", 100, 200)]);
    add_tagged_structure_from_ocr(&mut doc, 0, &result, "en", 30, threshold(&result)).unwrap();
    // objects 3 and 4: the paragraphs; 5: document; 6: parent tree; 7: root
    assert_eq!(doc.object_count(), 7);
    let p0 = dict_of(&doc, 3);
    assert_eq!(p0.get("S"), Some(&Object::Name(PdfName::new("P"))));
    assert_eq!(p0.get("K"), Some(&Object::Integer(0)));
    assert_eq!(
        p0.get("ActualText"),
        Some(&Object::String(PdfString { bytes: b"First para".to_vec(), format: StringFormat::Literal }))
    );
    assert_eq!(
        dict_of(&doc, 4).get("ActualText"),
        Some(&Object::String(PdfString { bytes: b"Second".to_vec(), format: StringFormat::Literal }))
    );
    assert_eq!(dict_of(&doc, 5).get("S"), Some(&Object::Name(PdfName::new("Document"))));
    assert_eq!(
        doc.catalog().unwrap().get("StructTreeRoot"),
        Some(&Object::Reference(pdfpurr::objects::IndirectRef::new(7, 0)))
    );
}

#[test]
fn ocr_tall_paragraph_is_heading() {
    let mut doc = Document::new();
    let result = OcrResult {
        words: vec![
            word("Title", 100, 50, 60),
            word("Here", 350, 50, 60),
            word("Normal", 100, 200, 20),
            word("body", 250, 200, 20),
            word("text", 380, 200, 20),
        ],
        image_width: 2550,
        image_height: 3300,
    };
    add_tagged_structure_from_ocr(&mut doc, 0, &result, "en-US", 30, threshold(&result)).unwrap();
    assert_eq!(dict_of(&doc, 3).get("S"), Some(&Object::Name(PdfName::new("H1"))));
    assert_eq!(dict_of(&doc, 4).get("S"), Some(&Object::Name(PdfName::new("P"))));
}

#[test]
fn ocr_without_words_changes_nothing() {
    let mut doc = Document::new();
    let result = OcrResult { words: vec![], image_width: 10, image_height: 10 };
    add_tagged_structure_from_ocr(&mut doc, 0, &result, "en", 30, 0).unwrap();
    assert_eq!(doc.object_count(), 2);
    assert!(doc.catalog().unwrap().get("StructTreeRoot").is_none());
}

#[test]
fn structure_elements_link_to_mcids() {
    let mut doc = Document::new();
    let result = make_words(&[("First", 100, 100), ("para", 250, 100), ("Second", 100, 200)]);
    add_tagged_structure_from_ocr(&mut doc, 0, &result, "en-US", 30, threshold(&result)).unwrap();

    let tree = doc.structure_tree().unwrap();
    assert!(!tree.children.is_empty());

    let doc_elem = &tree.children[0];
    assert_eq!(doc_elem.struct_type, "Document");
    assert!(
        doc_elem.children.len() >= 2,
        "Should have at least 2 paragraphs, got {}",
        doc_elem.children.len()
    );
}

#[test]
fn structure_tree_validates_as_tagged() {
    let mut doc = Document::new();
    let result = make_words(&[("Test", 100, 100)]);
    add_tagged_structure_from_ocr(&mut doc, 0, &result, "en-US", 30, threshold(&result)).unwrap();

    let tree = doc.structure_tree();
    assert!(tree.is_some(), "Structure tree should exist");
}
