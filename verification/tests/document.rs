use pdfpurr::document::find_header_offset;
use pdfpurr::error::PdfError;

#[test]
fn header_at_start() {
    assert_eq!(find_header_offset(b"%PDF-1.7\n").unwrap(), 0);
}

#[test]
fn header_after_leading_bytes() {
    assert_eq!(find_header_offset(b"\xEF\xBB\xBF  %PDF-2.0").unwrap(), 5);
}

#[test]
fn invalid_pdf_no_header() {
    match find_header_offset(b"not a pdf") {
        Err(PdfError::SyntaxError { position, message }) => {
            assert_eq!(position, 0);
            assert_eq!(message, "%PDF- header not found in first 1024 bytes");
        }
        other => panic!("unexpected {:?}", other),
    }
}

#[test]
fn header_beyond_first_kilobyte_not_found() {
    let mut data = vec![b' '; 1020];
    data.extend_from_slice(b"%PDF-1.4");
    assert!(find_header_offset(&data).is_err());
    let mut near = vec![b' '; 1019];
    near.extend_from_slice(b"%PDF-1.4");
    assert_eq!(find_header_offset(&near).unwrap(), 1019);
}
