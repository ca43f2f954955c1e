use pdfpurr::content::lexer::{tokenize_content_stream, ContentToken, Operand, PdfNumber};

fn op(name: &str) -> ContentToken {
    ContentToken::Operator(name.as_bytes().to_vec())
}

fn int_operand(digits: &[u8]) -> ContentToken {
    ContentToken::Operand(Operand::Number(PdfNumber {
        negative: false,
        int_digits: digits.to_vec(),
        frac_digits: vec![],
        is_real: false,
    }))
}

fn image_entry<'a>(dict: &'a [(Vec<u8>, Operand)], key: &str) -> Option<&'a Operand> {
    dict.iter().rev().find(|(k, _)| k.as_slice() == key.as_bytes()).map(|(_, v)| v)
}

#[test]
fn tokenize_simple_text_showing() {
    let content = b"BT /F1 12 Tf (Hello World) Tj ET";
    let tokens = tokenize_content_stream(content).unwrap();

    assert_eq!(tokens.len(), 7);
    assert_eq!(tokens[0], op("BT"));
    assert_eq!(tokens[1], ContentToken::Operand(Operand::Name(b"F1".to_vec())));
    assert_eq!(tokens[2], int_operand(&[1, 2]));
    assert_eq!(tokens[3], op("Tf"));
    assert!(matches!(tokens[4], ContentToken::Operand(Operand::Str(_))));
    assert_eq!(tokens[5], op("Tj"));
    assert_eq!(tokens[6], op("ET"));
}

#[test]
fn tokenize_text_with_positioning() {
    let content = b"BT 100 700 Td (Hello) Tj ET";
    let tokens = tokenize_content_stream(content).unwrap();

    assert_eq!(tokens.len(), 7);
    assert_eq!(tokens[0], op("BT"));
    assert_eq!(tokens[1], int_operand(&[1, 0, 0]));
    assert_eq!(tokens[2], int_operand(&[7, 0, 0]));
    assert_eq!(tokens[3], op("Td"));
}

#[test]
fn tokenize_graphics_state() {
    let content = b"q 1 0 0 1 50 50 cm Q";
    let tokens = tokenize_content_stream(content).unwrap();

    assert_eq!(tokens[0], op("q"));
    assert_eq!(tokens[7], op("cm"));
    assert_eq!(tokens[8], op("Q"));
}

#[test]
fn tokenize_with_comments() {
    let content = b"BT % begin text\n/F1 12 Tf\nET";
    let tokens = tokenize_content_stream(content).unwrap();

    assert_eq!(tokens.len(), 5);
    assert_eq!(tokens[0], op("BT"));
}

#[test]
fn tokenize_empty_stream() {
    let tokens = tokenize_content_stream(b"").unwrap();
    assert!(tokens.is_empty());
}

#[test]
fn tokenize_whitespace_only() {
    let tokens = tokenize_content_stream(b"   \n\t  ").unwrap();
    assert!(tokens.is_empty());
}

#[test]
fn tokenize_tj_array() {
    let content = b"BT [(Hello ) -100 (World)] TJ ET";
    let tokens = tokenize_content_stream(content).unwrap();

    assert_eq!(tokens[0], op("BT"));
    assert!(matches!(tokens[1], ContentToken::Operand(Operand::Array(_))));
    assert_eq!(tokens[2], op("TJ"));
    assert_eq!(tokens[3], op("ET"));
}

#[test]
fn tokenize_hex_string_operand() {
    let content = b"BT <48656C6C6F> Tj ET";
    let tokens = tokenize_content_stream(content).unwrap();

    assert!(matches!(tokens[1], ContentToken::Operand(Operand::Str(_))));
    if let ContentToken::Operand(Operand::Str(s)) = &tokens[1] {
        assert_eq!(std::str::from_utf8(s).ok(), Some("Hello"));
    }
}

#[test]
fn tokenize_inline_image() {
    let mut content = Vec::new();
    content.extend_from_slice(b"q BI /W 2 /H 2 ID ");
    content.extend_from_slice(&[0xAA, 0xBB, 0xCC, 0xDD]);
    content.extend_from_slice(b" EI Q");

    let tokens = tokenize_content_stream(&content).unwrap();
    assert_eq!(tokens.len(), 3);
    assert_eq!(tokens[0], op("q"));
    match &tokens[1] {
        ContentToken::InlineImage { dict, data } => {
            let two = Operand::Number(PdfNumber {
                negative: false,
                int_digits: vec![2],
                frac_digits: vec![],
                is_real: false,
            });
            assert_eq!(image_entry(dict, "W"), Some(&two));
            assert_eq!(image_entry(dict, "H"), Some(&two));
            assert_eq!(data, &[0xAA, 0xBB, 0xCC, 0xDD]);
        }
        _ => panic!("Expected InlineImage token"),
    }
    assert_eq!(tokens[2], op("Q"));
}

#[test]
fn tokenize_real_number_operands() {
    let content = b"0.5 0 0 0.5 0 0 cm";
    let tokens = tokenize_content_stream(content).unwrap();

    assert_eq!(tokens.len(), 7);
    assert_eq!(tokens[6], op("cm"));
}

#[test]
fn fuzz_crash_nested_parens_with_octal_escape() {
    let input: &[u8] = &[40, 40, 92, 53, 49, 49, 45, 49, 0, 48, 49, 53, 47, 172];
    let _ = tokenize_content_stream(input);
}

#[test]
fn inline_image_dictionary_keeps_name_keys_in_order() {
    let content = b"BI /BPC 8 /CS /RGB 7 9 /F [/AHx] ID xy EI";
    let tokens = tokenize_content_stream(content).unwrap();
    assert_eq!(tokens.len(), 1);
    match &tokens[0] {
        ContentToken::InlineImage { dict, data } => {
            let keys: Vec<&[u8]> = dict.iter().map(|(k, _)| k.as_slice()).collect();
            assert_eq!(keys, vec![&b"BPC"[..], &b"CS"[..], &b"F"[..]]);
            assert_eq!(image_entry(dict, "CS"), Some(&Operand::Name(b"RGB".to_vec())));
            assert_eq!(data, b"xy");
        }
        _ => panic!("Expected InlineImage token"),
    }
}

#[test]
fn tokenize_dictionary_operand_keeps_its_objects() {
    let tokens = tokenize_content_stream(b"/Span << /MCID 0 /Lang (en) >> BDC EMC").unwrap();
    assert_eq!(tokens.len(), 4);
    assert_eq!(
        tokens[1],
        ContentToken::Operand(Operand::Dict(vec![
            Operand::Name(b"MCID".to_vec()),
            Operand::Number(PdfNumber { negative: false, int_digits: vec![0], frac_digits: vec![], is_real: false }),
            Operand::Name(b"Lang".to_vec()),
            Operand::Str(b"en".to_vec()),
        ]))
    );
    assert_eq!(tokens[2], op("BDC"));
}

#[test]
fn tokenize_keyword_operands() {
    let tokens = tokenize_content_stream(b"true false null d0").unwrap();
    assert_eq!(tokens[0], ContentToken::Operand(Operand::Boolean(true)));
    assert_eq!(tokens[1], ContentToken::Operand(Operand::Boolean(false)));
    assert_eq!(tokens[2], ContentToken::Operand(Operand::Null));
    assert_eq!(tokens[3], op("d0"));
}

#[test]
fn tokenize_nested_dictionary_operand() {
    let tokens = tokenize_content_stream(b"<< /A << /B true >> >> gs").unwrap();
    assert_eq!(
        tokens[0],
        ContentToken::Operand(Operand::Dict(vec![
            Operand::Name(b"A".to_vec()),
            Operand::Dict(vec![Operand::Name(b"B".to_vec()), Operand::Boolean(true)]),
        ]))
    );
}
