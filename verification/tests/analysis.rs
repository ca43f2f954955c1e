use pdfpurr::content::analysis::font_style_from_name;

#[test]
fn style_helvetica_bold() {
    let (bold, italic, mono) = font_style_from_name("Helvetica-Bold");
    assert!(bold);
    assert!(!italic);
    assert!(!mono);
}
#[test]
fn style_times_bold_italic() {
    let (bold, italic, mono) = font_style_from_name("Times-BoldItalic");
    assert!(bold);
    assert!(italic);
    assert!(!mono);
}
#[test]
fn style_courier_is_mono() {
    let (bold, italic, mono) = font_style_from_name("Courier");
    assert!(!bold);
    assert!(!italic);
    assert!(mono);
}
#[test]
fn style_arial_mt_is_plain() {
    let (bold, italic, mono) = font_style_from_name("ArialMT");
    assert!(!bold);
    assert!(!italic);
    assert!(!mono);
}
#[test]
fn style_subset_prefix_stripped() {
    let (bold, italic, mono) = font_style_from_name("BCDFGX+Calibri");
    assert!(!bold);
    assert!(!italic);
    assert!(!mono);
}
#[test]
fn style_noto_sans_black_is_bold() {
    let (bold, italic, _) = font_style_from_name("NotoSans-Black");
    assert!(bold);
    assert!(!italic);
}
#[test]
fn style_liberation_mono_oblique() {
    let (bold, italic, mono) = font_style_from_name("LiberationMono-Oblique");
    assert!(!bold);
    assert!(italic);
    assert!(mono);
}
#[test]
fn style_empty_string() {
    let (bold, italic, mono) = font_style_from_name("");
    assert!(!bold);
    assert!(!italic);
    assert!(!mono);
}
#[test]
fn style_courier_new_bold() {
    let (bold, _, mono) = font_style_from_name("CourierNew,Bold");
    assert!(bold);
    assert!(mono);
}
#[test]
fn style_cambria_italic() {
    let (_, italic, _) = font_style_from_name("Cambria-Italic");
    assert!(italic);
}
#[test]
fn style_prefix_needs_capitals() {
    assert_eq!(font_style_from_name("abc+Courier"), (false, false, true));
    assert_eq!(font_style_from_name("ABCDEFG+Bold"), (true, false, false));
    assert_eq!(font_style_from_name("ABC+Mono"), font_style_from_name("Mono"));
}
