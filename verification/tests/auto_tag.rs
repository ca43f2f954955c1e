use pdfpurr::accessibility::auto_tag::{
    check_tag_quality, collect_heading_levels, count_figures_without_alt, count_tagged_headings,
};
use pdfpurr::accessibility::structure_tree::{StandardRole, StructElem, StructTree};
use pdfpurr::content::structure_detection::BlockRole;

fn elem(struct_type: &str, alt: Option<&str>, children: Vec<StructElem>) -> StructElem {
    StructElem {
        struct_type: struct_type.to_string(),
        role: StandardRole::from_name(struct_type),
        title: None,
        lang: None,
        alt_text: alt.map(|s| s.to_string()),
        actual_text: None,
        children,
    }
}

fn tree(lang: Option<&str>, children: Vec<StructElem>) -> StructTree {
    StructTree { role_map: Vec::new(), children, lang: lang.map(|s| s.to_string()) }
}

#[test]
fn counts_headings_at_any_depth() {
    let children = vec![elem(
        "Document",
        None,
        vec![elem("H1", None, vec![]), elem("P", None, vec![elem("H2", None, vec![])]), elem("Hx", None, vec![])],
    )];
    assert_eq!(count_tagged_headings(&children), 3);
    assert_eq!(collect_heading_levels(&children), vec![1, 2]);
}

#[test]
fn counts_figures_by_type_without_alt() {
    let children = vec![elem(
        "Document",
        None,
        vec![elem("Figure", None, vec![]), elem("Figure", Some("a chart"), vec![]), elem("Sect", None, vec![elem("Figure", None, vec![])])],
    )];
    assert_eq!(count_figures_without_alt(&children), 2);
}

#[test]
fn check_quality_detects_untagged() {
    let issues = check_tag_quality(None, &[]);
    assert!(issues.iter().any(|i| i.description.contains("untagged")));
    assert_eq!(issues.len(), 1);
    assert_eq!(issues[0].severity, "error");
}

#[test]
fn check_quality_detects_missing_language() {
    let t = tree(None, vec![elem("Document", None, vec![elem("P", None, vec![])])]);
    let issues = check_tag_quality(Some(&t), &[BlockRole::Paragraph]);
    assert_eq!(issues.len(), 1);
    assert_eq!(issues[0].description, "No /Lang attribute on structure tree");
    let with_lang = tree(Some("en"), vec![elem("Document", None, vec![elem("P", None, vec![])])]);
    assert!(check_tag_quality(Some(&with_lang), &[BlockRole::Paragraph]).is_empty());
}

#[test]
fn check_quality_detects_heading_mismatch() {
    let t = tree(Some("en"), vec![elem("Document", None, vec![elem("P", None, vec![]), elem("P", None, vec![])])]);
    let detected = [BlockRole::Heading(1), BlockRole::Paragraph];
    let issues = check_tag_quality(Some(&t), &detected);
    assert!(issues.iter().any(|i| i.description.contains("heading")));
    assert_eq!(issues[0].description, "Detected 1 headings but structure tree has none");
    assert_eq!(issues[0].severity, "warning");
}

#[test]
fn check_quality_reports_figures_and_level_skips() {
    let t = tree(
        Some("en"),
        vec![elem(
            "Document",
            None,
            vec![elem("H1", None, vec![]), elem("H3", None, vec![]), elem("Figure", None, vec![]), elem("H2", None, vec![]), elem("H5", None, vec![])],
        )],
    );
    let issues = check_tag_quality(Some(&t), &[]);
    let descriptions: Vec<&str> = issues.iter().map(|i| i.description.as_str()).collect();
    assert_eq!(
        descriptions,
        vec![
            "1 Figure element(s) missing alt text",
            "Heading level skip: H1 followed by H3",
            "Heading level skip: H2 followed by H5",
        ]
    );
}
