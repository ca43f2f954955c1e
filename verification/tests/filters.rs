use pdfpurr::error::PdfError;
use std::io::Write;
use pdfpurr::filters::{
    apply_filter, decode_ascii85, decode_ascii_hex, decode_ccitt_fax, decode_flate, decode_lzw,
    decode_run_length, decode_stream, encode_flate, extract_decode_parms, extract_filter_names,
    FilterItem, FilterValue, ParmsValue, StreamDict,
};
use pdfpurr::predictors::{
    apply_png_predictor, apply_predictor, apply_tiff_predictor, paeth_predictor, PredictorParams,
};

fn zlib(data: &[u8]) -> Vec<u8> {
    let mut encoder = flate2::write::ZlibEncoder::new(Vec::new(), flate2::Compression::default());
    encoder.write_all(data).unwrap();
    encoder.finish().unwrap()
}

fn lzw_encode(data: &[u8]) -> Vec<u8> {
    let mut compressed = Vec::new();
    {
        let mut enc = lzw::Encoder::new(lzw::MsbWriter::new(&mut compressed), 8).unwrap();
        enc.encode_bytes(data).unwrap();
    }
    compressed
}

fn no_parms() -> PredictorParams {
    PredictorParams { predictor: None, columns: None, colors: None, bits_per_component: None }
}

fn dict_with_filter(filter: FilterValue) -> StreamDict {
    StreamDict { filter: Some(filter), decode_parms: None, dp: None }
}

// --- FlateDecode ---

#[test]
fn flate_decode_basic() {
    let original = b"Hello, PDFPurr! This is a test of FlateDecode.";
    let compressed = zlib(original);
    let decoded = decode_flate(&compressed).unwrap();
    assert_eq!(decoded, original);
}

#[test]
fn flate_decode_empty() {
    let compressed = zlib(b"");
    let decoded = decode_flate(&compressed).unwrap();
    assert!(decoded.is_empty());
}

#[test]
fn flate_decode_invalid_data() {
    let result = decode_flate(b"not valid zlib data");
    assert!(result.is_err());
}

#[test]
fn flate_decode_invalid_data_message() {
    match decode_flate(b"not valid zlib data") {
        Err(PdfError::CompressionError(m)) => {
            assert_eq!(m, "FlateDecode failed (tried both zlib and raw deflate)")
        }
        other => panic!("unexpected {:?}", other),
    }
}

#[test]
fn flate_decode_raw_deflate() {
    let mut encoder =
        flate2::write::DeflateEncoder::new(Vec::new(), flate2::Compression::default());
    encoder.write_all(b"raw deflate stream").unwrap();
    let raw = encoder.finish().unwrap();
    assert_eq!(decode_flate(&raw).unwrap(), b"raw deflate stream");
}

// --- ASCIIHexDecode ---

#[test]
fn ascii_hex_basic() {
    let decoded = decode_ascii_hex(b"48656C6C6F>").unwrap();
    assert_eq!(decoded, b"Hello");
}

#[test]
fn ascii_hex_lowercase() {
    let decoded = decode_ascii_hex(b"48656c6c6f>").unwrap();
    assert_eq!(decoded, b"Hello");
}

#[test]
fn ascii_hex_with_whitespace() {
    let decoded = decode_ascii_hex(b"48 65 6C 6C 6F>").unwrap();
    assert_eq!(decoded, b"Hello");
}

#[test]
fn ascii_hex_odd_digits() {
    let decoded = decode_ascii_hex(b"A>").unwrap();
    assert_eq!(decoded, vec![0xA0]);
}

#[test]
fn ascii_hex_empty() {
    let decoded = decode_ascii_hex(b">").unwrap();
    assert!(decoded.is_empty());
}

#[test]
fn ascii_hex_invalid_digit() {
    match decode_ascii_hex(b"4G>") {
        Err(PdfError::CompressionError(m)) => {
            assert_eq!(m, "Invalid hex digit in ASCIIHexDecode: 0x47")
        }
        other => panic!("unexpected {:?}", other),
    }
}

#[test]
fn ascii_hex_stops_at_end_marker() {
    assert_eq!(decode_ascii_hex(b"41>42").unwrap(), b"A");
}

// --- ASCII85Decode ---

#[test]
fn ascii85_basic() {
    let decoded = decode_ascii85(b"9jqo^~>").unwrap();
    assert_eq!(decoded, b"Man ");
}

#[test]
fn ascii85_z_shorthand() {
    let decoded = decode_ascii85(b"z~>").unwrap();
    assert_eq!(decoded, vec![0, 0, 0, 0]);
}

#[test]
fn ascii85_partial_group() {
    let decoded = decode_ascii85(b"/c~>").unwrap();
    assert_eq!(decoded.len(), 1);
}

#[test]
fn ascii85_partial_group_value() {
    let decoded = decode_ascii85(b"/c~>").unwrap();
    assert_eq!(decoded, vec![0x2E]);
}

#[test]
fn ascii85_with_whitespace() {
    let decoded = decode_ascii85(b"9jqo^ ~>").unwrap();
    assert_eq!(decoded, b"Man ");
}

#[test]
fn ascii85_z_inside_group() {
    match decode_ascii85(b"9jz~>") {
        Err(PdfError::CompressionError(m)) => assert_eq!(m, "ASCII85: 'z' in middle of group"),
        other => panic!("unexpected {:?}", other),
    }
}

#[test]
fn ascii85_invalid_byte() {
    match decode_ascii85(b"9j{~>") {
        Err(PdfError::CompressionError(m)) => assert_eq!(m, "ASCII85: invalid byte 0x7b"),
        other => panic!("unexpected {:?}", other),
    }
}

// --- decode_stream ---

#[test]
fn decode_stream_no_filter() {
    let dict = StreamDict { filter: None, decode_parms: None, dp: None };
    let data = b"raw data";
    let decoded = decode_stream(data, &dict).unwrap();
    assert_eq!(decoded, data);
}

#[test]
fn decode_stream_single_filter() {
    let original = b"Hello World";
    let compressed = zlib(original);
    let dict = dict_with_filter(FilterValue::Name("FlateDecode".to_string()));
    let decoded = decode_stream(&compressed, &dict).unwrap();
    assert_eq!(decoded, original);
}

#[test]
fn decode_stream_filter_chain() {
    let hex_data = b"48656C6C6F>";
    let dict = dict_with_filter(FilterValue::Array(vec![FilterItem::Name(
        "ASCIIHexDecode".to_string(),
    )]));
    let decoded = decode_stream(hex_data, &dict).unwrap();
    assert_eq!(decoded, b"Hello");
}

#[test]
fn decode_stream_unsupported_filter() {
    let dict = dict_with_filter(FilterValue::Name("JBIG2Decode".to_string()));
    let result = decode_stream(b"data", &dict);
    assert!(result.is_err());
}

#[test]
fn decode_stream_unsupported_filter_message() {
    let dict = dict_with_filter(FilterValue::Name("JBIG2Decode".to_string()));
    match decode_stream(b"data", &dict) {
        Err(PdfError::UnsupportedFeature(m)) => assert_eq!(m, "Stream filter: JBIG2Decode"),
        other => panic!("unexpected {:?}", other),
    }
}

#[test]
fn decode_stream_two_filters_in_order() {
    // Hex of the zlib stream, decoded by ASCIIHexDecode, then FlateDecode.
    let compressed = zlib(b"chained");
    let mut hex = String::new();
    for b in &compressed {
        hex.push_str(&format!("{:02X}", b));
    }
    hex.push('>');
    let dict = dict_with_filter(FilterValue::Array(vec![
        FilterItem::Name("AHx".to_string()),
        FilterItem::Name("Fl".to_string()),
    ]));
    assert_eq!(decode_stream(hex.as_bytes(), &dict).unwrap(), b"chained");
}

#[test]
fn decode_stream_stops_at_first_failing_filter() {
    let dict = dict_with_filter(FilterValue::Array(vec![
        FilterItem::Name("RL".to_string()),
        FilterItem::Name("JBIG2Decode".to_string()),
    ]));
    match decode_stream(&[2, b'A'], &dict) {
        Err(PdfError::CompressionError(m)) => {
            assert_eq!(m, "RunLengthDecode: unexpected end of data in literal run")
        }
        other => panic!("unexpected {:?}", other),
    }
}

#[test]
fn decode_stream_bad_filter_type() {
    let dict = dict_with_filter(FilterValue::Other("Integer".to_string()));
    match decode_stream(b"x", &dict) {
        Err(PdfError::TypeError { expected, found }) => {
            assert_eq!(expected, "Name or Array");
            assert_eq!(found, "Integer");
        }
        other => panic!("unexpected {:?}", other),
    }
}

#[test]
fn decode_stream_applies_png_predictor() {
    // Two rows of 3 columns, each with the Sub filter (type 1).
    let rows = [1u8, 1, 1, 1, 1, 2, 2, 2];
    let compressed = zlib(&rows);
    let parms = PredictorParams {
        predictor: Some(12),
        columns: Some(3),
        colors: None,
        bits_per_component: None,
    };
    let dict = StreamDict {
        filter: Some(FilterValue::Name("FlateDecode".to_string())),
        decode_parms: Some(ParmsValue::Dict(parms)),
        dp: None,
    };
    assert_eq!(decode_stream(&compressed, &dict).unwrap(), vec![1, 2, 3, 2, 4, 6]);
}

#[test]
fn decode_stream_reads_dp_abbreviation() {
    let parms = PredictorParams {
        predictor: Some(2),
        columns: Some(2),
        colors: None,
        bits_per_component: None,
    };
    let dict = StreamDict {
        filter: Some(FilterValue::Name("AHx".to_string())),
        decode_parms: None,
        dp: Some(ParmsValue::Dict(parms)),
    };
    assert_eq!(decode_stream(b"01020304>", &dict).unwrap(), vec![1, 3, 3, 7]);
}

// --- LZWDecode ---

#[test]
fn lzw_decode_round_trip() {
    let original = b"TOBEORNOTTOBEORTOBEORNOT";
    let compressed = lzw_encode(original);
    let decoded = decode_lzw(&compressed).unwrap();
    assert_eq!(decoded, original);
}

#[test]
fn lzw_decode_repeated_data() {
    let original = vec![0xAA; 1000];
    let compressed = lzw_encode(&original);
    let decoded = decode_lzw(&compressed).unwrap();
    assert_eq!(decoded, original);
}

// --- RunLengthDecode ---

#[test]
fn run_length_literal_run() {
    let data = [4, b'H', b'e', b'l', b'l', b'o', 128];
    let decoded = decode_run_length(&data).unwrap();
    assert_eq!(decoded, b"Hello");
}

#[test]
fn run_length_repeat_run() {
    let data = [253, b'A', 128];
    let decoded = decode_run_length(&data).unwrap();
    assert_eq!(decoded, b"AAAA");
}

#[test]
fn run_length_mixed() {
    let data = [1, b'H', b'i', 254, b'X', 128];
    let decoded = decode_run_length(&data).unwrap();
    assert_eq!(decoded, b"HiXXX");
}

#[test]
fn run_length_empty_eod() {
    let data = [128];
    let decoded = decode_run_length(&data).unwrap();
    assert!(decoded.is_empty());
}

#[test]
fn run_length_truncated_literal() {
    let data = [2, b'A'];
    let result = decode_run_length(&data);
    assert!(result.is_err());
}

// --- DCTDecode / JPXDecode / CCITTFaxDecode ---

#[test]
fn dct_decode_passthrough() {
    let jpeg_data = b"\xFF\xD8\xFF\xE0fake jpeg data\xFF\xD9";
    let decoded = apply_filter("DCTDecode", jpeg_data).unwrap();
    assert_eq!(decoded, jpeg_data);
}

#[test]
fn jpx_decode_passthrough() {
    let jp2_data = b"\x00\x00\x00\x0Cjp2 fake data";
    let decoded = apply_filter("JPXDecode", jp2_data).unwrap();
    assert_eq!(decoded, jp2_data);
}

#[test]
fn ccitt_fax_decode_returns_ok() {
    let result = decode_ccitt_fax(&[]);
    assert!(result.is_ok());
}

// --- apply_filter dispatch ---

#[test]
fn apply_filter_lzw_abbreviation() {
    let original = b"test";
    let compressed = lzw_encode(original);
    let decoded = apply_filter("LZW", &compressed).unwrap();
    assert_eq!(decoded, original);
}

#[test]
fn apply_filter_dct_abbreviation() {
    let data = b"jpeg";
    let decoded = apply_filter("DCT", data).unwrap();
    assert_eq!(decoded, data);
}

#[test]
fn apply_filter_run_length_abbreviation() {
    let data = [0, b'X', 128];
    let decoded = apply_filter("RL", &data).unwrap();
    assert_eq!(decoded, b"X");
}

#[test]
fn apply_filter_a85_abbreviation() {
    assert_eq!(apply_filter("A85", b"9jqo^~>").unwrap(), b"Man ");
}

// --- extract_filter_names ---

#[test]
fn extract_single_filter() {
    let obj = FilterValue::Name("FlateDecode".to_string());
    let names = extract_filter_names(&obj).unwrap();
    assert_eq!(names, vec!["FlateDecode"]);
}

#[test]
fn extract_filter_array() {
    let obj = FilterValue::Array(vec![
        FilterItem::Name("FlateDecode".to_string()),
        FilterItem::Name("ASCIIHexDecode".to_string()),
    ]);
    let names = extract_filter_names(&obj).unwrap();
    assert_eq!(names, vec!["FlateDecode", "ASCIIHexDecode"]);
}

#[test]
fn extract_filter_invalid_type() {
    let obj = FilterValue::Other("Integer".to_string());
    assert!(extract_filter_names(&obj).is_err());
}

#[test]
fn extract_filter_array_with_non_name() {
    let obj = FilterValue::Array(vec![
        FilterItem::Name("FlateDecode".to_string()),
        FilterItem::Other("Integer".to_string()),
    ]);
    match extract_filter_names(&obj) {
        Err(PdfError::TypeError { expected, found }) => {
            assert_eq!(expected, "Name");
            assert_eq!(found, "Integer");
        }
        other => panic!("unexpected {:?}", other),
    }
}

// --- extract_decode_parms ---

#[test]
fn decode_parms_single_dict_goes_to_first_filter() {
    let p = PredictorParams { predictor: Some(12), ..no_parms() };
    let dict = StreamDict {
        filter: None,
        decode_parms: Some(ParmsValue::Dict(p)),
        dp: None,
    };
    assert_eq!(extract_decode_parms(&dict, 2), vec![Some(p), None]);
    assert_eq!(extract_decode_parms(&dict, 0), vec![]);
}

#[test]
fn decode_parms_array_padded_with_none() {
    let p = PredictorParams { predictor: Some(2), ..no_parms() };
    let dict = StreamDict {
        filter: None,
        decode_parms: Some(ParmsValue::Array(vec![None, Some(p)])),
        dp: None,
    };
    assert_eq!(extract_decode_parms(&dict, 3), vec![None, Some(p), None]);
    let other = StreamDict { filter: None, decode_parms: Some(ParmsValue::Other), dp: None };
    assert_eq!(extract_decode_parms(&other, 2), vec![None, None]);
}

// --- encode_flate ---

#[test]
fn encode_flate_round_trip() {
    let original: Vec<u8> = (0..500).map(|i| (i % 26 + b'A' as usize) as u8).collect();
    let (compressed, filter) = encode_flate(&original).unwrap();
    assert_eq!(filter, Some("FlateDecode"));
    assert!(compressed.len() < original.len());
    let decoded = decode_flate(&compressed).unwrap();
    assert_eq!(decoded, original);
}

#[test]
fn encode_flate_tiny_data() {
    let original = b"Hi";
    let (data, filter) = encode_flate(original).unwrap();
    if filter.is_none() {
        assert_eq!(data, original);
    }
}

// --- predictors ---

#[test]
fn paeth_picks_nearest() {
    // p = 10 + 20 - 5 = 25: distances 15, 5, 20 -> up.
    assert_eq!(paeth_predictor(10, 20, 5), 20);
    // p = 10 + 20 - 30 = 0: distances 10, 20, 30 -> left.
    assert_eq!(paeth_predictor(10, 20, 30), 10);
    // p = 5 + 5 - 200 = -190: distances 195, 195, 390 -> left on a tie.
    assert_eq!(paeth_predictor(5, 5, 200), 5);
    // p = 100 + 0 - 90 = 10: distances 90, 10, 80 -> up.
    assert_eq!(paeth_predictor(100, 0, 90), 0);
    // p = 0 + 100 - 60 = 40: distances 40, 60, 20 -> up-left.
    assert_eq!(paeth_predictor(0, 100, 60), 60);
}

#[test]
fn tiff_predictor_adds_left_component() {
    // Two rows of 3 single-component columns.
    let data = [1, 1, 1, 10, 250, 10];
    assert_eq!(apply_tiff_predictor(&data, 3, 1, 8), vec![1, 2, 3, 10, 4, 14]);
}

#[test]
fn tiff_predictor_other_depth_unchanged() {
    let data = [1, 1, 1];
    assert_eq!(apply_tiff_predictor(&data, 3, 1, 4), vec![1, 1, 1]);
}

#[test]
fn tiff_predictor_two_colors() {
    let data = [1, 2, 3, 4, 5, 6];
    assert_eq!(apply_tiff_predictor(&data, 3, 2, 8), vec![1, 2, 4, 6, 9, 12]);
}

#[test]
fn png_predictor_each_filter_type() {
    // Rows of 2 one-byte pixels: None, Sub, Up, Average, Paeth, unknown.
    let data = [
        0, 10, 20, // None
        1, 5, 5, // Sub: 5, 10
        2, 1, 1, // Up: 6, 11
        3, 4, 4, // Average: 4 + 3 = 7, 4 + (7 + 11) / 2 = 13
        4, 1, 1, // Paeth
        9, 8, 9, // unknown: as None
    ];
    let out = apply_png_predictor(&data, 2, 1, 8);
    assert_eq!(out.len(), 12);
    assert_eq!(&out[0..2], &[10, 20]);
    assert_eq!(&out[2..4], &[5, 10]);
    assert_eq!(&out[4..6], &[6, 11]);
    assert_eq!(&out[6..8], &[7, 13]);
    // Paeth row: first byte up=7 -> 8; second: left 8, up 13, up-left 7 -> p = 14 -> up -> 14.
    assert_eq!(&out[8..10], &[8, 14]);
    assert_eq!(&out[10..12], &[8, 9]);
}

#[test]
fn png_predictor_drops_partial_row() {
    let data = [0, 1, 2, 0, 3];
    assert_eq!(apply_png_predictor(&data, 2, 1, 8), vec![1, 2]);
}

#[test]
fn png_predictor_wraps() {
    let data = [1, 200, 100];
    assert_eq!(apply_png_predictor(&data, 2, 1, 8), vec![200, 44]);
}

#[test]
fn apply_predictor_dispatch() {
    let data = [1, 5, 5];
    // No predictor: unchanged.
    assert_eq!(apply_predictor(&data, &no_parms()).unwrap(), vec![1, 5, 5]);
    // Unknown predictor: unchanged.
    let unknown = PredictorParams { predictor: Some(7), ..no_parms() };
    assert_eq!(apply_predictor(&data, &unknown).unwrap(), vec![1, 5, 5]);
    // PNG with 2 columns.
    let png = PredictorParams { predictor: Some(15), columns: Some(2), ..no_parms() };
    assert_eq!(apply_predictor(&data, &png).unwrap(), vec![5, 10]);
    // Columns below 1 are taken as 1.
    let clamped = PredictorParams { predictor: Some(2), columns: Some(-4), ..no_parms() };
    assert_eq!(apply_predictor(&data, &clamped).unwrap(), vec![1, 5, 5]);
}

#[test]
fn ascii85_group_above_32_bits_is_an_error() {
    let r = decode_ascii85(b"uuuuu~>");
    match r {
        Err(PdfError::CompressionError(m)) => assert_eq!(m, "ASCII85: group value exceeds 2^32 - 1"),
        other => panic!("unexpected {:?}", other),
    }
    // A padded final group above 2^32 - 1 is an error too.
    assert!(decode_ascii85(b"uuu~>").is_err());
}

#[test]
fn empty_filter_array_returns_data_unchanged() {
    let dict = dict_with_filter(FilterValue::Array(vec![]));
    assert_eq!(decode_stream(b"abc", &dict).unwrap(), b"abc".to_vec());
}

#[test]
fn lzw_decodes_clear_literal_end() {
    // Codes (9 bits, MSB first): 256 (clear), 65 'A', 66 'B', 257 (end).
    let data = [0x80, 0x10, 0x48, 0x50, 0x10];
    assert_eq!(decode_lzw(&data).unwrap(), b"AB".to_vec());
}
