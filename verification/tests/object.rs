use pdfpurr::objects::{
    DictExt, Dictionary, IndirectRef, Object, PdfName, PdfStream, PdfString, RealNumber,
};

fn real_of(text: &str) -> RealNumber {
    RealNumber::from_decimal(text).unwrap()
}

fn write_pdf_to_string(obj: &Object) -> String {
    let mut buf = Vec::new();
    obj.write_pdf(&mut buf);
    String::from_utf8(buf).unwrap()
}

#[test]
fn stream_creation() {
    let mut dict = Dictionary::new();
    dict.insert(PdfName::new("Length"), Object::Integer(5));
    let stream = PdfStream::new(dict, vec![1, 2, 3, 4, 5]);
    assert_eq!(stream.data_len(), 5);
}

#[test]
fn stream_filter_lookup() {
    let mut dict = Dictionary::new();
    dict.insert(
        PdfName::new("Filter"),
        Object::Name(PdfName::new("FlateDecode")),
    );
    dict.insert(PdfName::new("Length"), Object::Integer(100));
    let stream = PdfStream::new(dict, vec![0; 100]);
    let filter = stream.filter().unwrap();
    assert_eq!(filter.as_name(), Some("FlateDecode"));
}

#[test]
fn stream_without_filter() {
    let dict = Dictionary::new();
    let stream = PdfStream::new(dict, vec![]);
    assert!(stream.filter().is_none());
}

#[test]
fn object_type_checks() {
    assert!(Object::Boolean(true).is_boolean());
    assert!(Object::Integer(42).is_integer());
    assert!(Object::Real(real_of("3.14")).is_real());
    assert!(Object::Integer(42).is_number());
    assert!(Object::Real(real_of("3.14")).is_number());
    assert!(Object::String(PdfString::from_literal("hi")).is_string());
    assert!(Object::Name(PdfName::new("Type")).is_name());
    assert!(Object::Array(vec![]).is_array());
    assert!(Object::Dictionary(Dictionary::new()).is_dictionary());
    assert!(Object::Stream(PdfStream::new(Dictionary::new(), vec![])).is_stream());
    assert!(Object::Null.is_null());
    assert!(Object::Reference(IndirectRef::new(1, 0)).is_reference());
}

#[test]
fn object_negative_type_checks() {
    let obj = Object::Integer(42);
    assert!(!obj.is_boolean());
    assert!(!obj.is_real());
    assert!(!obj.is_string());
    assert!(!obj.is_name());
    assert!(!obj.is_array());
    assert!(!obj.is_dictionary());
    assert!(!obj.is_stream());
    assert!(!obj.is_null());
    assert!(!obj.is_reference());
}

#[test]
fn extract_bool() {
    assert_eq!(Object::Boolean(true).as_bool(), Some(true));
    assert_eq!(Object::Integer(1).as_bool(), None);
}

#[test]
fn extract_integer() {
    assert_eq!(Object::Integer(42).as_i64(), Some(42));
    assert_eq!(Object::Real(real_of("42.0")).as_i64(), None);
}

#[test]
fn extract_name() {
    let obj = Object::Name(PdfName::new("Type"));
    assert_eq!(obj.as_name(), Some("Type"));
    assert_eq!(Object::Null.as_name(), None);
}

#[test]
fn extract_array() {
    let arr = vec![Object::Integer(1), Object::Integer(2)];
    let obj = Object::Array(arr);
    assert_eq!(obj.as_array().unwrap().len(), 2);
    assert_eq!(Object::Null.as_array(), None);
}

#[test]
fn extract_dict() {
    let mut dict = Dictionary::new();
    dict.insert(PdfName::new("Type"), Object::Name(PdfName::new("Page")));
    let obj = Object::Dictionary(dict);
    assert!(obj.as_dict().is_some());
    assert_eq!(Object::Null.as_dict(), None);
}

#[test]
fn extract_reference() {
    let obj = Object::Reference(IndirectRef::new(5, 0));
    let r = obj.as_reference().unwrap();
    assert_eq!(r.object_number, 5);
    assert_eq!(Object::Null.as_reference(), None);
}

#[test]
fn type_names() {
    assert_eq!(Object::Boolean(true).kind_name(), "Boolean");
    assert_eq!(Object::Integer(0).kind_name(), "Integer");
    assert_eq!(Object::Real(real_of("0.0")).kind_name(), "Real");
    assert_eq!(
        Object::String(PdfString::from_literal("")).kind_name(),
        "String"
    );
    assert_eq!(Object::Name(PdfName::new("")).kind_name(), "Name");
    assert_eq!(Object::Array(vec![]).kind_name(), "Array");
    assert_eq!(
        Object::Dictionary(Dictionary::new()).kind_name(),
        "Dictionary"
    );
    assert_eq!(
        Object::Stream(PdfStream::new(Dictionary::new(), vec![])).kind_name(),
        "Stream"
    );
    assert_eq!(Object::Null.kind_name(), "Null");
    assert_eq!(
        Object::Reference(IndirectRef::new(1, 0)).kind_name(),
        "Reference"
    );
}

#[test]
fn display_boolean() {
    assert_eq!(Object::Boolean(true).to_display_string(), "true");
    assert_eq!(Object::Boolean(false).to_display_string(), "false");
}

#[test]
fn display_integer() {
    assert_eq!(Object::Integer(42).to_display_string(), "42");
    assert_eq!(Object::Integer(-7).to_display_string(), "-7");
}

#[test]
fn display_real() {
    assert_eq!(Object::Real(real_of("3.14")).to_display_string(), "3.14");
    assert_eq!(Object::Real(real_of("1.0")).to_display_string(), "1.0");
}

#[test]
fn display_null() {
    assert_eq!(Object::Null.to_display_string(), "null");
}

#[test]
fn display_reference() {
    assert_eq!(
        Object::Reference(IndirectRef::new(10, 2)).to_display_string(),
        "10 2 R"
    );
}

#[test]
fn display_array() {
    let arr = Object::Array(vec![
        Object::Integer(1),
        Object::Integer(2),
        Object::Integer(3),
    ]);
    assert_eq!(arr.to_display_string(), "[1 2 3]");
}

#[test]
fn display_dictionary() {
    let mut dict = Dictionary::new();
    dict.insert(PdfName::new("Type"), Object::Name(PdfName::new("Page")));
    let obj = Object::Dictionary(dict);
    assert_eq!(obj.to_display_string(), "<< /Type /Page >>");
}

#[test]
fn write_pdf_boolean() {
    assert_eq!(write_pdf_to_string(&Object::Boolean(true)), "true");
    assert_eq!(write_pdf_to_string(&Object::Boolean(false)), "false");
}

#[test]
fn write_pdf_integer() {
    assert_eq!(write_pdf_to_string(&Object::Integer(42)), "42");
    assert_eq!(write_pdf_to_string(&Object::Integer(-7)), "-7");
}

#[test]
fn write_pdf_real() {
    assert_eq!(write_pdf_to_string(&Object::Real(real_of("3.14"))), "3.14");
    assert_eq!(write_pdf_to_string(&Object::Real(real_of("1.0"))), "1.0");
}

#[test]
fn write_pdf_null() {
    assert_eq!(write_pdf_to_string(&Object::Null), "null");
}

#[test]
fn write_pdf_reference() {
    assert_eq!(
        write_pdf_to_string(&Object::Reference(IndirectRef::new(10, 2))),
        "10 2 R"
    );
}

#[test]
fn write_pdf_name() {
    assert_eq!(
        write_pdf_to_string(&Object::Name(PdfName::new("Type"))),
        "/Type"
    );
}

#[test]
fn write_pdf_string_literal() {
    let s = PdfString::from_literal("Hello World");
    assert_eq!(write_pdf_to_string(&Object::String(s)), "(Hello World)");
}

#[test]
fn write_pdf_string_escaping() {
    let s = PdfString::from_literal("a(b)c\\d");
    assert_eq!(write_pdf_to_string(&Object::String(s)), "(a\\(b\\)c\\\\d)");
}

#[test]
fn write_pdf_string_hex() {
    let s = PdfString::from_hex(vec![0xFF, 0x00, 0xAB]);
    assert_eq!(write_pdf_to_string(&Object::String(s)), "<FF00AB>");
}

#[test]
fn write_pdf_array() {
    let arr = Object::Array(vec![Object::Integer(1), Object::Name(PdfName::new("Foo"))]);
    assert_eq!(write_pdf_to_string(&arr), "[1 /Foo]");
}

#[test]
fn write_pdf_dictionary() {
    let mut dict = Dictionary::new();
    dict.insert(PdfName::new("Type"), Object::Name(PdfName::new("Page")));
    let obj = Object::Dictionary(dict);
    assert_eq!(write_pdf_to_string(&obj), "<< /Type /Page >>");
}

#[test]
fn write_pdf_stream() {
    let mut dict = Dictionary::new();
    dict.insert(
        PdfName::new("Filter"),
        Object::Name(PdfName::new("FlateDecode")),
    );
    let stream = PdfStream::new(dict, b"raw data".to_vec());
    let output = write_pdf_to_string(&Object::Stream(stream));
    assert!(output.contains("stream\r\n"));
    assert!(output.contains("\r\nendstream"));
    assert!(output.contains("/Length 8"));
}

#[test]
fn as_text_string_from_literal() {
    let obj = Object::String(PdfString::from_literal("Hello"));
    assert_eq!(obj.as_text_string(), Some("Hello".to_string()));
}

#[test]
fn as_text_string_from_non_string() {
    assert_eq!(Object::Integer(42).as_text_string(), None);
    assert_eq!(Object::Null.as_text_string(), None);
}

#[test]
fn as_text_string_non_utf8() {
    let obj = Object::String(PdfString::from_hex(vec![0xFF, 0xFE]));
    assert_eq!(obj.as_text_string(), None);
}

#[test]
fn as_text_string_utf16be() {
    let bytes = vec![0xFE, 0xFF, 0x00, 0x48, 0x00, 0x69];
    let obj = Object::String(PdfString::from_hex(bytes));
    assert_eq!(obj.as_text_string(), Some("Hi".to_string()));
}

#[test]
fn dict_get_text() {
    let mut dict = Dictionary::new();
    dict.insert(
        PdfName::new("Title"),
        Object::String(PdfString::from_literal("My Doc")),
    );
    assert_eq!(dict.get_text("Title"), Some("My Doc".to_string()));
    assert_eq!(dict.get_text("Author"), None);
}

#[test]
fn dict_get_text_non_string() {
    let mut dict = Dictionary::new();
    dict.insert(PdfName::new("Type"), Object::Name(PdfName::new("Page")));
    assert_eq!(dict.get_text("Type"), None);
}

#[test]
fn from_impls() {
    let _: Object = true.into();
    let _: Object = 42i64.into();
    let _: Object = 42i32.into();
    let _: Object = real_of("3.14").into();
    let _: Object = PdfName::new("Type").into();
    let _: Object = PdfString::from_literal("hi").into();
    let _: Object = vec![Object::Null].into();
    let _: Object = Dictionary::new().into();
    let _: Object = IndirectRef::new(1, 0).into();
}

#[test]
fn dictionary_keeps_keys_in_byte_order() {
    let mut dict = Dictionary::new();
    dict.insert(PdfName::new("Type"), Object::Integer(1));
    dict.insert(PdfName::new("Filter"), Object::Integer(2));
    dict.insert(PdfName::new("Length"), Object::Integer(3));
    dict.insert(PdfName::new("BBox"), Object::Integer(4));
    let keys: Vec<&str> = dict.entries().iter().map(|(k, _)| k.as_str()).collect();
    assert_eq!(keys, vec!["BBox", "Filter", "Length", "Type"]);
    assert_eq!(
        write_pdf_to_string(&Object::Dictionary(dict)),
        "<< /BBox 4 /Filter 2 /Length 3 /Type 1 >>"
    );
}

#[test]
fn dictionary_insert_replaces_and_get_reads_back() {
    let mut dict = Dictionary::new();
    dict.insert(PdfName::new("A"), Object::Integer(1));
    dict.insert(PdfName::new("B"), Object::Integer(2));
    dict.insert(PdfName::new("A"), Object::Integer(3));
    assert_eq!(dict.len(), 2);
    assert_eq!(dict.get_i64("A"), Some(3));
    assert_eq!(dict.get_i64("B"), Some(2));
    assert_eq!(dict.get_i64("C"), None);
    assert_eq!(dict.get_name("A"), None);
}

#[test]
fn dictionary_remove_returns_value() {
    let mut dict = Dictionary::new();
    dict.insert(PdfName::new("A"), Object::Integer(1));
    dict.insert(PdfName::new("B"), Object::Integer(2));
    assert_eq!(dict.remove("A"), Some(Object::Integer(1)));
    assert_eq!(dict.remove("A"), None);
    assert_eq!(dict.len(), 1);
    assert!(dict.contains_key("B"));
    assert!(!dict.contains_key("A"));
}

#[test]
fn stream_write_replaces_existing_length() {
    let mut dict = Dictionary::new();
    dict.insert(PdfName::new("Length"), Object::Integer(99));
    dict.insert(PdfName::new("Type"), Object::Name(PdfName::new("XObject")));
    let stream = PdfStream::new(dict, b"abc".to_vec());
    assert_eq!(
        write_pdf_to_string(&Object::Stream(stream)),
        "<< /Length 3 /Type /XObject >>\nstream\r\nabc\r\nendstream"
    );
}

#[test]
fn stream_display_shows_data_length() {
    let mut dict = Dictionary::new();
    dict.insert(PdfName::new("Length"), Object::Integer(3));
    let stream = PdfStream::new(dict, b"abc".to_vec());
    assert_eq!(
        Object::Stream(stream).to_display_string(),
        "<< /Length 3 >> stream[3 bytes]"
    );
}

#[test]
fn real_numbers_take_shortest_form() {
    assert_eq!(write_pdf_to_string(&Object::Real(real_of("003.1400"))), "3.14");
    assert_eq!(write_pdf_to_string(&Object::Real(real_of("-.5"))), "-0.5");
    assert_eq!(write_pdf_to_string(&Object::Real(real_of("+7."))), "7.0");
    assert_eq!(
        write_pdf_to_string(&Object::Real(real_of("1000000000000000"))),
        "1000000000000000"
    );
    assert_eq!(
        Object::Real(real_of("1000000000000000")).to_display_string(),
        "1000000000000000.0"
    );
    assert!(RealNumber::from_decimal("1e5").is_none());
    assert!(RealNumber::from_decimal(".").is_none());
    assert!(RealNumber::from_decimal("-").is_none());
    assert!(RealNumber::from_decimal("").is_none());
}

#[test]
fn names_are_escaped_when_written_not_displayed() {
    let obj = Object::Name(PdfName::new("A B#"));
    assert_eq!(write_pdf_to_string(&obj), "/A#20B#23");
    assert_eq!(obj.to_display_string(), "/A B#");
}

#[test]
fn clone_is_deep_and_equal() {
    let mut dict = Dictionary::new();
    dict.insert(PdfName::new("Kids"), Object::Array(vec![Object::Reference(IndirectRef::new(3, 0))]));
    let obj = Object::Dictionary(dict);
    let copy = obj.clone();
    assert_eq!(copy, obj);
    assert_eq!(write_pdf_to_string(&copy), "<< /Kids [3 0 R] >>");
}

#[test]
fn decode_data_without_filter_is_raw() {
    let stream = PdfStream::new(Dictionary::new(), b"plain".to_vec());
    assert_eq!(stream.decode_data().unwrap(), b"plain".to_vec());
}

#[test]
fn decode_data_applies_named_filter() {
    let mut dict = Dictionary::new();
    dict.insert(
        PdfName::new("Filter"),
        Object::Name(PdfName::new("ASCIIHexDecode")),
    );
    let stream = PdfStream::new(dict, b"48656C6C6F>".to_vec());
    assert_eq!(stream.decode_data().unwrap(), b"Hello".to_vec());
}

#[test]
fn decode_data_rejects_non_name_filter() {
    let mut dict = Dictionary::new();
    dict.insert(PdfName::new("Filter"), Object::Integer(3));
    let stream = PdfStream::new(dict, b"x".to_vec());
    assert!(stream.decode_data().is_err());
}
