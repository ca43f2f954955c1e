use pdfpurr::accessibility::structure_builder::{
    classify_paragraph_roles, document_median_height, group_words_into_paragraphs, OcrResult,
    OcrWord,
};

fn word(text: &str, x: u32, y: u32, height: u32) -> OcrWord {
    OcrWord { text: text.to_string(), x, y, width: 100, height }
}

fn make_words(texts: &[(&str, u32, u32)]) -> OcrResult {
    let words = texts.iter().map(|(text, x, y)| word(text, *x, *y, 20)).collect();
    OcrResult { words, image_width: 2550, image_height: 3300 }
}

/// The heading threshold as the document's caller computes it.
fn threshold(result: &OcrResult) -> u32 {
    (document_median_height(result) as f64 * 1.4) as u32
}

#[test]
fn group_words_single_paragraph() {
    let result = make_words(&[("Hello", 100, 100), ("world", 250, 100)]);
    let paras = group_words_into_paragraphs(&result, 30);
    assert_eq!(paras.len(), 1);
    assert_eq!(paras[0].len(), 2);
}

#[test]
fn group_words_two_paragraphs() {
    let result = make_words(&[("First", 100, 100), ("para", 250, 100), ("Second", 100, 200)]);
    let paras = group_words_into_paragraphs(&result, 30);
    assert_eq!(paras.len(), 2);
}

#[test]
fn group_words_empty() {
    let result = OcrResult { words: vec![], image_width: 100, image_height: 100 };
    let paras = group_words_into_paragraphs(&result, 30);
    assert!(paras.is_empty());
}

#[test]
fn group_words_exact_indices() {
    // Gap of exactly the threshold keeps the paragraph; one more breaks it.
    let result = make_words(&[("a", 0, 100), ("b", 0, 150), ("c", 0, 201), ("d", 0, 50)]);
    let paras = group_words_into_paragraphs(&result, 30);
    assert_eq!(paras, vec![vec![0, 1], vec![2, 3]]);
}

#[test]
fn heading_detected_from_tall_words() {
    let result = OcrResult {
        words: vec![
            word("Title", 100, 50, 60),
            word("Here", 350, 50, 60),
            word("Normal", 100, 200, 20),
            word("body", 250, 200, 20),
            word("text", 380, 200, 20),
        ],
        image_width: 2550,
        image_height: 3300,
    };
    let paras = group_words_into_paragraphs(&result, 30);
    assert_eq!(paras, vec![vec![0, 1], vec![2, 3, 4]]);
    assert_eq!(document_median_height(&result), 20);
    let roles = classify_paragraph_roles(&paras, &result, threshold(&result));
    assert_eq!(roles, vec!["H1", "P"]);
}

#[test]
fn all_same_height_produces_only_paragraphs() {
    let result = make_words(&[("First", 100, 100), ("Second", 100, 200)]);
    let paras = group_words_into_paragraphs(&result, 30);
    let roles = classify_paragraph_roles(&paras, &result, threshold(&result));
    assert_eq!(roles, vec!["P", "P"]);
}

#[test]
fn heading_levels_by_height_rank() {
    let result = OcrResult {
        words: vec![
            word("a", 0, 0, 90),
            word("b", 0, 200, 50),
            word("c", 0, 400, 20),
            word("d", 0, 600, 20),
            word("e", 0, 800, 20),
            word("f", 0, 1000, 90),
        ],
        image_width: 10,
        image_height: 10,
    };
    let paras = vec![vec![0], vec![1], vec![2, 3, 4], vec![5]];
    let roles = classify_paragraph_roles(&paras, &result, 28);
    assert_eq!(roles, vec!["H1", "H2", "P", "H1"]);
}

#[test]
fn median_of_even_count_takes_upper() {
    let result = OcrResult {
        words: vec![word("a", 0, 0, 10), word("b", 0, 0, 40), word("c", 0, 0, 30), word("d", 0, 0, 20)],
        image_width: 1,
        image_height: 1,
    };
    assert_eq!(document_median_height(&result), 30);
}
