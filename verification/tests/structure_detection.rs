use pdfpurr::accessibility::structure_tree::StandardRole;
use pdfpurr::content::analysis::font_style_from_name;
use pdfpurr::content::structure_detection::{
    classify_inline_role, detect_list_marker, is_caption_text, is_page_number_text, normalize_for_repeat,
    BlockRole, InlineRole,
};

#[test]
fn block_role_maps_to_standard_role() {
    assert_eq!(
        BlockRole::Heading(1).to_standard_role(),
        Some(StandardRole::H(1))
    );
    assert_eq!(
        BlockRole::Paragraph.to_standard_role(),
        Some(StandardRole::P)
    );
    assert_eq!(BlockRole::Unknown.to_standard_role(), None);
    assert_eq!(
        BlockRole::ListItem.to_standard_role(),
        Some(StandardRole::LI)
    );
}
#[test]
fn list_bullet_detected() {
    assert!(detect_list_marker("\u{2022} Item one").is_some());
    assert!(detect_list_marker("- Item two").is_some());
    assert!(detect_list_marker("* Item three").is_some());
}
#[test]
fn list_numbered_detected() {
    assert_eq!(detect_list_marker("1. First"), Some("1.".to_string()));
    assert_eq!(detect_list_marker("2) Second"), Some("2)".to_string()));
    assert_eq!(detect_list_marker("12. Twelfth"), Some("12.".to_string()));
}
#[test]
fn list_lettered_detected() {
    assert_eq!(detect_list_marker("a. Item"), Some("a.".to_string()));
    assert_eq!(detect_list_marker("b) Item"), Some("b)".to_string()));
}
#[test]
fn list_roman_detected() {
    assert_eq!(detect_list_marker("i. Item"), Some("i.".to_string()));
    assert_eq!(detect_list_marker("iv. Item"), Some("iv.".to_string()));
}
#[test]
fn list_parenthesized_detected() {
    assert_eq!(detect_list_marker("(1) Item"), Some("(1)".to_string()));
    assert_eq!(detect_list_marker("(a) Item"), Some("(a)".to_string()));
}
#[test]
fn list_normal_text_not_detected() {
    assert!(detect_list_marker("Hello world").is_none());
    assert!(detect_list_marker("The quick brown fox").is_none());
    assert!(detect_list_marker("").is_none());
}
#[test]
fn caption_text_detection() {
    assert!(is_caption_text("Figure 1: Description"));
    assert!(is_caption_text("Fig. 3 — Overview"));
    assert!(is_caption_text("Table 2: Results"));
    assert!(is_caption_text("Photo of the building"));
    assert!(!is_caption_text("Normal paragraph text"));
    assert!(!is_caption_text("The quick brown fox"));
}
#[test]
fn normalize_replaces_digits() {
    assert_eq!(normalize_for_repeat("Page 1"), "Page #");
    assert_eq!(normalize_for_repeat("Page 12"), "Page ##");
    assert_eq!(normalize_for_repeat("No numbers"), "No numbers");
}
#[test]
fn list_marker_edge_cases() {
    assert_eq!(detect_list_marker("   \u{2022} x"), Some("\u{2022}".to_string()));
    assert_eq!(detect_list_marker("(IV) Item"), Some("(IV)".to_string()));
    assert_eq!(detect_list_marker("(12345) Item"), None);
    assert_eq!(detect_list_marker("3: Item"), Some("3:".to_string()));
    assert_eq!(detect_list_marker("hello. world"), None);
    assert_eq!(BlockRole::Code.to_standard_role(), Some(StandardRole::P));
    assert_eq!(BlockRole::TableCell.to_standard_role(), Some(StandardRole::TD));
}

#[test]
fn caption_numbered_needs_three_bytes() {
    assert!(is_caption_text("1. Overview"));
    assert!(!is_caption_text("12"));
    assert!(is_caption_text("1\u{e9}"));
}

#[test]
fn inline_role_bold() {
    assert_eq!(classify_inline_role((true, false, false)), InlineRole::Strong);
}

#[test]
fn inline_role_italic() {
    assert_eq!(classify_inline_role((false, true, false)), InlineRole::Emphasis);
}

#[test]
fn inline_role_monospaced() {
    assert_eq!(classify_inline_role((false, false, true)), InlineRole::Code);
    assert_eq!(classify_inline_role((true, true, true)), InlineRole::Code);
}

#[test]
fn inline_role_bold_italic() {
    assert_eq!(classify_inline_role((true, true, false)), InlineRole::StrongEmphasis);
}

#[test]
fn inline_role_normal() {
    assert_eq!(classify_inline_role((false, false, false)), InlineRole::Normal);
}

#[test]
fn inline_role_from_font_name() {
    assert_eq!(classify_inline_role(font_style_from_name("Helvetica-Bold")), InlineRole::Strong);
    assert_eq!(classify_inline_role(font_style_from_name("Courier")), InlineRole::Code);
}

#[test]
fn page_number_texts() {
    assert!(is_page_number_text("5"));
    assert!(is_page_number_text("12"));
    assert!(is_page_number_text("- 3 -"));
    assert!(is_page_number_text("  7.  "));
    assert!(!is_page_number_text("Hello world"));
    assert!(!is_page_number_text("1234567"));
    assert!(!is_page_number_text("--"));
    assert!(!is_page_number_text("3a"));
    assert!(!is_page_number_text(""));
}
