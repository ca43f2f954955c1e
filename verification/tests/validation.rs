use pdfpurr::accessibility::structure_tree::{RoleMap, StandardRole, StructElem, StructTree};
use pdfpurr::accessibility::validation::validate_pdf_ua;

fn make_elem(struct_type: &str, children: Vec<StructElem>) -> StructElem {
    StructElem {
        struct_type: struct_type.into(),
        role: StandardRole::from_name(struct_type),
        title: None,
        lang: None,
        alt_text: None,
        actual_text: None,
        children,
    }
}

fn make_figure(alt: Option<&str>) -> StructElem {
    StructElem {
        struct_type: "Figure".into(),
        role: StandardRole::Figure,
        title: None,
        lang: None,
        alt_text: alt.map(|s| s.into()),
        actual_text: None,
        children: vec![],
    }
}

#[test]
fn empty_tree_fails_tagged_check() {
    let tree = StructTree {
        role_map: RoleMap::new(),
        children: vec![],
        lang: None,
    };
    let report = validate_pdf_ua(&tree);
    assert!(!report.is_compliant());

    let tagged = report.checks.iter().find(|c| c.id == "tagged-pdf").unwrap();
    assert!(!tagged.passed);
}

#[test]
fn missing_language_fails() {
    let tree = StructTree {
        role_map: RoleMap::new(),
        children: vec![make_elem("Document", vec![])],
        lang: None,
    };
    let report = validate_pdf_ua(&tree);
    let lang = report
        .checks
        .iter()
        .find(|c| c.id == "document-language")
        .unwrap();
    assert!(!lang.passed);
}

#[test]
fn present_language_passes() {
    let tree = StructTree {
        role_map: RoleMap::new(),
        children: vec![make_elem("Document", vec![])],
        lang: Some("en-US".into()),
    };
    let report = validate_pdf_ua(&tree);
    let lang = report
        .checks
        .iter()
        .find(|c| c.id == "document-language")
        .unwrap();
    assert!(lang.passed);
}

#[test]
fn figures_with_alt_text_pass() {
    let tree = StructTree {
        role_map: RoleMap::new(),
        children: vec![make_elem("Document", vec![make_figure(Some("A photo"))])],
        lang: Some("en".into()),
    };
    let report = validate_pdf_ua(&tree);
    let fig = report
        .checks
        .iter()
        .find(|c| c.id == "figure-alt-text")
        .unwrap();
    assert!(fig.passed);
}

#[test]
fn figures_without_alt_text_fail() {
    let tree = StructTree {
        role_map: RoleMap::new(),
        children: vec![make_elem(
            "Document",
            vec![make_figure(None), make_figure(Some("OK"))],
        )],
        lang: Some("en".into()),
    };
    let report = validate_pdf_ua(&tree);
    let fig = report
        .checks
        .iter()
        .find(|c| c.id == "figure-alt-text")
        .unwrap();
    assert!(!fig.passed);
    assert_eq!(fig.details.len(), 1);
}

#[test]
fn proper_heading_order_passes() {
    let tree = StructTree {
        role_map: RoleMap::new(),
        children: vec![make_elem(
            "Document",
            vec![make_elem("H1", vec![]), make_elem("H2", vec![])],
        )],
        lang: Some("en".into()),
    };
    let report = validate_pdf_ua(&tree);
    let heading = report
        .checks
        .iter()
        .find(|c| c.id == "heading-order")
        .unwrap();
    assert!(heading.passed);
}

#[test]
fn skipped_heading_level_fails() {
    let tree = StructTree {
        role_map: RoleMap::new(),
        children: vec![make_elem(
            "Document",
            vec![make_elem("H1", vec![]), make_elem("H3", vec![])],
        )],
        lang: Some("en".into()),
    };
    let report = validate_pdf_ua(&tree);
    let heading = report
        .checks
        .iter()
        .find(|c| c.id == "heading-order")
        .unwrap();
    assert!(!heading.passed);
    assert!(heading.details[0].contains("skips level 2"));
}

#[test]
fn table_with_headers_passes() {
    let table = StructElem {
        struct_type: "Table".into(),
        role: StandardRole::Table,
        title: None,
        lang: None,
        alt_text: None,
        actual_text: None,
        children: vec![StructElem {
            struct_type: "TR".into(),
            role: StandardRole::TR,
            title: None,
            lang: None,
            alt_text: None,
            actual_text: None,
            children: vec![make_elem("TH", vec![]), make_elem("TD", vec![])],
        }],
    };

    let tree = StructTree {
        role_map: RoleMap::new(),
        children: vec![make_elem("Document", vec![table])],
        lang: Some("en".into()),
    };

    let report = validate_pdf_ua(&tree);
    let th = report
        .checks
        .iter()
        .find(|c| c.id == "table-headers")
        .unwrap();
    assert!(th.passed);
}

#[test]
fn table_without_headers_fails() {
    let table = StructElem {
        struct_type: "Table".into(),
        role: StandardRole::Table,
        title: None,
        lang: None,
        alt_text: None,
        actual_text: None,
        children: vec![StructElem {
            struct_type: "TR".into(),
            role: StandardRole::TR,
            title: None,
            lang: None,
            alt_text: None,
            actual_text: None,
            children: vec![make_elem("TD", vec![]), make_elem("TD", vec![])],
        }],
    };

    let tree = StructTree {
        role_map: RoleMap::new(),
        children: vec![make_elem("Document", vec![table])],
        lang: Some("en".into()),
    };

    let report = validate_pdf_ua(&tree);
    let th = report
        .checks
        .iter()
        .find(|c| c.id == "table-headers")
        .unwrap();
    assert!(!th.passed);
}

#[test]
fn fully_compliant_document() {
    let tree = StructTree {
        role_map: RoleMap::new(),
        children: vec![make_elem(
            "Document",
            vec![
                make_elem("H1", vec![]),
                make_elem("P", vec![]),
                make_figure(Some("Photo of sunset")),
            ],
        )],
        lang: Some("en-US".into()),
    };

    let report = validate_pdf_ua(&tree);
    assert!(report.is_compliant());
    assert_eq!(report.passed_count(), 6);
    assert_eq!(report.total_checks(), 6);
    assert!(report.failures().is_empty());
}

#[test]
fn no_tables_passes_table_check() {
    let tree = StructTree {
        role_map: RoleMap::new(),
        children: vec![make_elem("Document", vec![make_elem("P", vec![])])],
        lang: Some("en".into()),
    };
    let report = validate_pdf_ua(&tree);
    let th = report
        .checks
        .iter()
        .find(|c| c.id == "table-headers")
        .unwrap();
    assert!(th.passed);
}

// --- PDF/UA-2 validation checks ---

#[test]
fn pdfua2_note_deprecated_warning() {
    let tree = StructTree {
        role_map: RoleMap::new(),
        children: vec![make_elem(
            "Document",
            vec![make_elem("P", vec![]), make_elem("Note", vec![])],
        )],
        lang: Some("en".into()),
    };
    let report = validate_pdf_ua(&tree);
    let note_check = report
        .checks
        .iter()
        .find(|c| c.id == "pdfua2-fenote")
        .unwrap();
    assert!(!note_check.passed);
    assert!(note_check.details[0].contains("FENote"));
}

#[test]
fn pdfua2_fenote_passes() {
    let tree = StructTree {
        role_map: RoleMap::new(),
        children: vec![make_elem(
            "Document",
            vec![make_elem("P", vec![]), make_elem("FENote", vec![])],
        )],
        lang: Some("en".into()),
    };
    let report = validate_pdf_ua(&tree);
    let note_check = report
        .checks
        .iter()
        .find(|c| c.id == "pdfua2-fenote")
        .unwrap();
    assert!(note_check.passed);
}

#[test]
fn pdfua2_em_and_strong_in_compliant_doc() {
    let tree = StructTree {
        role_map: RoleMap::new(),
        children: vec![make_elem(
            "Document",
            vec![make_elem(
                "P",
                vec![make_elem("Em", vec![]), make_elem("Strong", vec![])],
            )],
        )],
        lang: Some("en".into()),
    };
    let report = validate_pdf_ua(&tree);
    // Em and Strong are valid inline elements — no new checks should fail
    let failures: Vec<_> = report.failures();
    assert!(
        failures.is_empty(),
        "Em and Strong should not cause failures: {:?}",
        failures
    );
}

#[test]
fn report_failures_helper() {
    let tree = StructTree {
        role_map: RoleMap::new(),
        children: vec![],
        lang: None,
    };
    let report = validate_pdf_ua(&tree);
    let failures = report.failures();
    assert!(failures.len() >= 2); // at least tagged-pdf and document-language
}

#[test]
fn passed_and_failed_add_up() {
    let tree = StructTree { role_map: RoleMap::new(), children: vec![], lang: None };
    let report = validate_pdf_ua(&tree);
    assert_eq!(report.passed_count() + report.failures().len(), report.total_checks());
    assert_eq!(report.is_compliant(), report.failures().is_empty());
}

#[test]
fn figure_and_table_messages_are_numbered() {
    let fig = || StructElem {
        struct_type: "Figure".into(),
        role: StandardRole::Figure,
        title: None,
        lang: None,
        alt_text: None,
        actual_text: None,
        children: vec![],
    };
    let table = || StructElem {
        struct_type: "Table".into(),
        role: StandardRole::Table,
        title: None,
        lang: None,
        alt_text: None,
        actual_text: None,
        children: vec![],
    };
    let tree = StructTree {
        role_map: RoleMap::new(),
        children: vec![fig(), fig(), table(), table()],
        lang: Some("en".into()),
    };
    let report = validate_pdf_ua(&tree);
    assert_eq!(report.checks[2].details, vec!["Figure #1 missing /Alt text".to_string(), "Figure #2 missing /Alt text".to_string()]);
    assert_eq!(report.checks[4].details, vec!["Table #1 has no TH (header) cells".to_string(), "Table #2 has no TH (header) cells".to_string()]);
}

#[test]
fn heading_message_text() {
    let h = |n: u8| StructElem {
        struct_type: format!("H{}", n),
        role: StandardRole::H(n),
        title: None,
        lang: None,
        alt_text: None,
        actual_text: None,
        children: vec![],
    };
    let tree = StructTree { role_map: RoleMap::new(), children: vec![h(1), h(3), h(2), h(6)], lang: None };
    let report = validate_pdf_ua(&tree);
    assert_eq!(
        report.checks[3].details,
        vec!["H3 follows H1 (skips level 2)".to_string(), "H6 follows H3 (skips level 4)".to_string()]
    );
}
