use pdfpurr::fonts::cmap::ToUnicodeCMap;
use pdfpurr::fonts::common::{build_to_unicode_cmap, encode_subset_text};
use std::io::Read;

fn cmap_text(char_to_gid: &Vec<(char, u16)>, old_to_new: &Vec<(u16, u16)>, width: usize) -> String {
    let (data, filter) = build_to_unicode_cmap(char_to_gid, old_to_new, width).unwrap();
    let bytes = match filter {
        Some(f) => {
            assert_eq!(f, "FlateDecode");
            let mut out = Vec::new();
            flate2::read::ZlibDecoder::new(&data[..]).read_to_end(&mut out).unwrap();
            out
        }
        None => data,
    };
    String::from_utf8(bytes).unwrap()
}

#[test]
fn to_unicode_cmap_two_glyphs() {
    let text = cmap_text(&vec![('A', 36), ('B', 37)], &vec![(36, 1), (37, 2)], 2);
    let expected = "/CIDInit /ProcSet findresource begin\n12 dict begin\nbegincmap\n/CIDSystemInfo\n\
<< /Registry (Adobe) /Ordering (UCS) /Supplement 0 >> def\n/CMapName /Adobe-Identity-UCS def\n\
/CMapType 2 def\n1 begincodespacerange\n<0000> <FFFF>\nendcodespacerange\n2 beginbfchar\n\
<0001> <0041>\n<0002> <0042>\nendbfchar\nendcmap\nCMapName currentdict /CMap defineresource pop\nend\nend\n";
    assert_eq!(text, expected);
}

#[test]
fn to_unicode_cmap_sorted_by_new_glyph_and_skips_unmapped() {
    let text = cmap_text(&vec![('a', 5), ('b', 6), ('c', 7)], &vec![(5, 3), (7, 1)], 1);
    assert!(text.contains("<00> <FF>\n"));
    assert!(text.contains("2 beginbfchar\n<01> <0063>\n<03> <0061>\nendbfchar\n"));
}

#[test]
fn to_unicode_cmap_surrogate_pairs() {
    let text = cmap_text(&vec![('\u{1F600}', 9)], &vec![(9, 4)], 2);
    assert!(text.contains("<0004> <D83DDE00>\n"));
}

#[test]
fn to_unicode_cmap_blocks_of_one_hundred() {
    let c2g: Vec<(char, u16)> = (0..150u16).map(|i| (char::from_u32(0x4E00 + i as u32).unwrap(), i)).collect();
    let o2n: Vec<(u16, u16)> = (0..150u16).map(|i| (i, i + 1)).collect();
    let text = cmap_text(&c2g, &o2n, 2);
    assert!(text.contains("100 beginbfchar\n<0001> <4E00>\n"));
    assert!(text.contains("endbfchar\n50 beginbfchar\n<0065> <4E64>\n"));
}

#[test]
fn to_unicode_cmap_parses_back() {
    let text = cmap_text(&vec![('H', 10), ('i', 11)], &vec![(10, 1), (11, 2)], 2);
    let cmap = ToUnicodeCMap::parse(text.as_bytes()).unwrap();
    assert_eq!(cmap.map_code(&[0x00, 0x01]), Some("H".to_string()));
    assert_eq!(cmap.map_code(&[0x00, 0x02]), Some("i".to_string()));
}

#[test]
fn encode_subset_text_uses_subset_glyph_numbers() {
    let char_to_gid = vec![('A', 36u16), ('B', 37u16), ('\u{4E2D}', 900u16)];
    let old_to_new = vec![(0u16, 0u16), (36u16, 1u16), (900u16, 258u16)];
    assert_eq!(
        encode_subset_text("AB\u{4E2D}Z", &char_to_gid, &old_to_new, true),
        vec![0x00, 0x01, 0x01, 0x02]
    );
    assert_eq!(encode_subset_text("AB\u{4E2D}Z", &char_to_gid, &old_to_new, false), vec![0x01, 0x02]);
    assert_eq!(encode_subset_text("", &char_to_gid, &old_to_new, true), Vec::<u8>::new());
}
