use pdfpurr::accessibility::structure_tree::{parse_role_map, StandardRole, StructTree};
use pdfpurr::objects::{Dictionary, Object, PdfName, PdfString};

#[test]
fn standard_role_from_name() {
    assert_eq!(StandardRole::from_name("P"), StandardRole::P);
    assert_eq!(StandardRole::from_name("H1"), StandardRole::H(1));
    assert_eq!(StandardRole::from_name("Table"), StandardRole::Table);
    assert_eq!(
        StandardRole::from_name("Custom"),
        StandardRole::NonStandard("Custom".into())
    );
}
#[test]
fn standard_role_is_block() {
    assert!(StandardRole::P.is_block());
    assert!(StandardRole::H(1).is_block());
    assert!(StandardRole::Table.is_block());
    assert!(StandardRole::Figure.is_block());
    assert!(!StandardRole::Span.is_inline() || !StandardRole::Span.is_block());
}
#[test]
fn standard_role_is_inline() {
    assert!(StandardRole::Span.is_inline());
    assert!(StandardRole::Link.is_inline());
    assert!(!StandardRole::P.is_inline());
}
#[test]
fn pdfua2_document_fragment_role() {
    assert_eq!(
        StandardRole::from_name("DocumentFragment"),
        StandardRole::DocumentFragment
    );
    assert!(StandardRole::DocumentFragment.is_block());
}
#[test]
fn pdfua2_fenote_role() {
    assert_eq!(StandardRole::from_name("FENote"), StandardRole::FENote);
    assert!(StandardRole::FENote.is_block());
}
#[test]
fn pdfua2_em_role() {
    assert_eq!(StandardRole::from_name("Em"), StandardRole::Em);
    assert!(StandardRole::Em.is_inline());
}
#[test]
fn pdfua2_strong_role() {
    assert_eq!(StandardRole::from_name("Strong"), StandardRole::Strong);
    assert!(StandardRole::Strong.is_inline());
}
#[test]
fn pdfua2_aside_role() {
    assert_eq!(StandardRole::from_name("Aside"), StandardRole::Aside);
    assert!(StandardRole::Aside.is_block());
}
#[test]
fn pdfua2_title_role() {
    assert_eq!(StandardRole::from_name("Title"), StandardRole::Title);
    assert!(StandardRole::Title.is_block());
}
#[test]
fn pdfua2_sub_role() {
    assert_eq!(StandardRole::from_name("Sub"), StandardRole::Sub);
    assert!(StandardRole::Sub.is_inline());
}
#[test]
fn pdfua2_note_is_recognized() {
    // PDF/UA-1 Note element should still be recognized (FENote replaces it in UA-2)
    assert_eq!(StandardRole::from_name("Note"), StandardRole::Note);
    assert!(StandardRole::Note.is_block());
}

#[test]
fn no_role_is_block_and_inline() {
    for name in ["P", "H1", "Span", "Link", "Figure", "Lbl", "Custom", "Em", "Note", "TD"] {
        let r = StandardRole::from_name(name);
        assert!(!(r.is_block() && r.is_inline()));
    }
    assert_eq!(StandardRole::from_name("H"), StandardRole::H(0));
}

fn make_dict(entries: Vec<(&str, Object)>) -> Dictionary {
    let mut dict = Dictionary::new();
    for (k, v) in entries {
        dict.insert(PdfName::new(k), v);
    }
    dict
}

fn role_for<'a>(map: &'a [(String, StandardRole)], key: &str) -> Option<&'a StandardRole> {
    map.iter().find(|(k, _)| k == key).map(|(_, r)| r)
}

#[test]
fn parse_role_map_basic() {
    let dict = make_dict(vec![
        ("MyParagraph", Object::Name(PdfName::new("P"))),
        ("MyHeading", Object::Name(PdfName::new("H1"))),
    ]);

    let role_map = parse_role_map(&dict);
    assert_eq!(role_for(&role_map, "MyParagraph"), Some(&StandardRole::P));
    assert_eq!(role_for(&role_map, "MyHeading"), Some(&StandardRole::H(1)));
}

#[test]
fn parse_role_map_empty() {
    let dict = make_dict(vec![]);
    let role_map = parse_role_map(&dict);
    assert!(role_map.is_empty());
}

#[test]
fn parse_role_map_skips_values_that_are_not_names() {
    let dict = make_dict(vec![
        ("Custom", Object::Integer(4)),
        ("Aside", Object::Name(PdfName::new("Note"))),
        ("Fancy", Object::Name(PdfName::new("NotARole"))),
    ]);
    let role_map = parse_role_map(&dict);
    assert_eq!(role_map.len(), 2);
    assert_eq!(role_map[0].0, "Aside");
    assert_eq!(role_map[0].1, StandardRole::Note);
    assert_eq!(
        role_map[1].1,
        StandardRole::NonStandard("NotARole".to_string())
    );
}

#[test]
fn figures_without_alt_text() {
    let fig_no_alt = Object::Dictionary(make_dict(vec![("S", Object::Name(PdfName::new("Figure")))]));
    let fig_with_alt = Object::Dictionary(make_dict(vec![
        ("S", Object::Name(PdfName::new("Figure"))),
        ("Alt", Object::String(PdfString::from_literal("Photo"))),
    ]));
    let para = Object::Dictionary(make_dict(vec![("S", Object::Name(PdfName::new("P")))]));

    let root = make_dict(vec![(
        "K",
        Object::Array(vec![
            Object::Integer(1),
            Object::Integer(2),
            Object::Integer(3),
        ]),
    )]);

    let resolve = |obj: &Object| -> Option<&Object> {
        match obj {
            Object::Integer(1) => Some(&fig_no_alt),
            Object::Integer(2) => Some(&fig_with_alt),
            Object::Integer(3) => Some(&para),
            _ => None,
        }
    };

    let tree = StructTree::from_dict(&root, &resolve);
    let missing = tree.figures_without_alt_text();
    assert_eq!(missing.len(), 1);
    assert_eq!(missing[0].struct_type, "Figure");
    assert!(missing[0].alt_text.is_none());
}

#[test]
fn iter_elements_depth_first() {
    let span1 = Object::Dictionary(make_dict(vec![("S", Object::Name(PdfName::new("Span")))]));
    let span2 = Object::Dictionary(make_dict(vec![("S", Object::Name(PdfName::new("Link")))]));
    let para = Object::Dictionary(make_dict(vec![
        ("S", Object::Name(PdfName::new("P"))),
        (
            "K",
            Object::Array(vec![Object::Integer(21), Object::Integer(22)]),
        ),
    ]));

    let root = make_dict(vec![("K", Object::Array(vec![Object::Integer(20)]))]);

    let resolve = |obj: &Object| -> Option<&Object> {
        match obj {
            Object::Integer(20) => Some(&para),
            Object::Integer(21) => Some(&span1),
            Object::Integer(22) => Some(&span2),
            _ => None,
        }
    };

    let tree = StructTree::from_dict(&root, &resolve);
    let elems = tree.iter_elements();
    assert_eq!(elems.len(), 3);
    assert_eq!(elems[0].struct_type, "P");
    assert_eq!(elems[1].struct_type, "Span");
    assert_eq!(elems[2].struct_type, "Link");
}

#[test]
fn struct_tree_from_dict_empty() {
    let dict = make_dict(vec![("Type", Object::Name(PdfName::new("StructTreeRoot")))]);

    let resolve = |_: &Object| -> Option<&Object> { None };
    let tree = StructTree::from_dict(&dict, &resolve);
    assert!(tree.children.is_empty());
    assert!(tree.role_map.is_empty());
    assert!(tree.lang.is_none());
}

#[test]
fn struct_tree_with_language() {
    let dict = make_dict(vec![
        ("Type", Object::Name(PdfName::new("StructTreeRoot"))),
        ("Lang", Object::String(PdfString::from_literal("en-US"))),
    ]);

    let resolve = |_: &Object| -> Option<&Object> { None };
    let tree = StructTree::from_dict(&dict, &resolve);
    assert_eq!(tree.lang, Some("en-US".to_string()));
}

#[test]
fn struct_tree_single_element() {
    let elem = Object::Dictionary(make_dict(vec![
        ("Type", Object::Name(PdfName::new("StructElem"))),
        ("S", Object::Name(PdfName::new("P"))),
    ]));

    let root = make_dict(vec![
        ("Type", Object::Name(PdfName::new("StructTreeRoot"))),
        ("K", Object::Array(vec![Object::Integer(99)])),
    ]);

    let resolve = |obj: &Object| -> Option<&Object> {
        if matches!(obj, Object::Integer(99)) {
            Some(&elem)
        } else {
            None
        }
    };

    let tree = StructTree::from_dict(&root, &resolve);
    assert_eq!(tree.children.len(), 1);
    assert_eq!(tree.children[0].struct_type, "P");
    assert_eq!(tree.children[0].role, StandardRole::P);
}

#[test]
fn struct_elem_with_alt_text() {
    let elem = Object::Dictionary(make_dict(vec![
        ("S", Object::Name(PdfName::new("Figure"))),
        (
            "Alt",
            Object::String(PdfString::from_literal("A chart showing sales data")),
        ),
    ]));

    let root = make_dict(vec![("K", Object::Array(vec![Object::Integer(1)]))]);

    let resolve = |obj: &Object| -> Option<&Object> {
        if matches!(obj, Object::Integer(1)) {
            Some(&elem)
        } else {
            None
        }
    };

    let tree = StructTree::from_dict(&root, &resolve);
    assert_eq!(tree.children.len(), 1);
    assert_eq!(tree.children[0].role, StandardRole::Figure);
    assert_eq!(
        tree.children[0].alt_text,
        Some("A chart showing sales data".into())
    );
}

#[test]
fn struct_tree_with_role_map() {
    let role_map_dict =
        Object::Dictionary(make_dict(vec![("MyPara", Object::Name(PdfName::new("P")))]));

    let elem = Object::Dictionary(make_dict(vec![("S", Object::Name(PdfName::new("MyPara")))]));

    let root = make_dict(vec![
        ("K", Object::Array(vec![Object::Integer(2)])),
        ("RoleMap", Object::Integer(3)),
    ]);

    let resolve = |obj: &Object| -> Option<&Object> {
        match obj {
            Object::Integer(2) => Some(&elem),
            Object::Integer(3) => Some(&role_map_dict),
            _ => None,
        }
    };

    let tree = StructTree::from_dict(&root, &resolve);
    assert_eq!(role_for(&tree.role_map, "MyPara"), Some(&StandardRole::P));
    assert_eq!(tree.children.len(), 1);
    assert_eq!(tree.children[0].struct_type, "MyPara");
    assert_eq!(tree.children[0].role, StandardRole::P);
}

#[test]
fn struct_tree_nested_elements() {
    let child_elem =
        Object::Dictionary(make_dict(vec![("S", Object::Name(PdfName::new("Span")))]));

    let parent_elem = Object::Dictionary(make_dict(vec![
        ("S", Object::Name(PdfName::new("P"))),
        ("K", Object::Array(vec![Object::Integer(11)])),
    ]));

    let root = make_dict(vec![("K", Object::Array(vec![Object::Integer(10)]))]);

    let resolve = |obj: &Object| -> Option<&Object> {
        match obj {
            Object::Integer(10) => Some(&parent_elem),
            Object::Integer(11) => Some(&child_elem),
            _ => None,
        }
    };

    let tree = StructTree::from_dict(&root, &resolve);
    assert_eq!(tree.children.len(), 1);
    assert_eq!(tree.children[0].struct_type, "P");
    assert_eq!(tree.children[0].children.len(), 1);
    assert_eq!(tree.children[0].children[0].struct_type, "Span");
}

#[test]
fn pdfua2_elements_in_structure_tree() {
    let em_elem = Object::Dictionary(make_dict(vec![("S", Object::Name(PdfName::new("Em")))]));
    let strong_elem =
        Object::Dictionary(make_dict(vec![("S", Object::Name(PdfName::new("Strong")))]));
    let fenote_elem =
        Object::Dictionary(make_dict(vec![("S", Object::Name(PdfName::new("FENote")))]));

    let root = make_dict(vec![(
        "K",
        Object::Array(vec![
            Object::Integer(1),
            Object::Integer(2),
            Object::Integer(3),
        ]),
    )]);

    let resolve = |obj: &Object| -> Option<&Object> {
        match obj {
            Object::Integer(1) => Some(&em_elem),
            Object::Integer(2) => Some(&strong_elem),
            Object::Integer(3) => Some(&fenote_elem),
            _ => None,
        }
    };

    let tree = StructTree::from_dict(&root, &resolve);
    assert_eq!(tree.children.len(), 3);
    assert_eq!(tree.children[0].role, StandardRole::Em);
    assert_eq!(tree.children[1].role, StandardRole::Strong);
    assert_eq!(tree.children[2].role, StandardRole::FENote);
}

#[test]
fn struct_tree_depth_is_limited() {
    // An element whose kid is itself: reading stops at the depth limit.
    let looping = Object::Dictionary(make_dict(vec![
        ("S", Object::Name(PdfName::new("Div"))),
        ("K", Object::Integer(7)),
    ]));
    let root = make_dict(vec![("K", Object::Integer(7))]);
    let resolve = |obj: &Object| -> Option<&Object> {
        match obj {
            Object::Integer(7) => Some(&looping),
            _ => None,
        }
    };
    let tree = StructTree::from_dict(&root, &resolve);
    let mut depth = 0;
    let mut level = &tree.children;
    while !level.is_empty() {
        depth += 1;
        level = &level[0].children;
    }
    assert_eq!(depth, 64);
}
