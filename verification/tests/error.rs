use pdfpurr::error::PdfError;

#[test]
fn test_error_display() {
    let err = PdfError::SyntaxError { position: 42, message: "Unexpected token".to_string() };
    assert_eq!(err.message(), "Syntax error at position 42: Unexpected token");
}

#[test]
fn test_error_from_io() {
    let io_err = std::io::Error::new(std::io::ErrorKind::NotFound, "file not found");
    let pdf_err: PdfError = io_err.into();
    assert!(matches!(pdf_err, PdfError::Io(_)));
}

#[test]
fn test_type_error() {
    let err = PdfError::TypeError { expected: "Dictionary".to_string(), found: "Array".to_string() };
    assert_eq!(err.message(), "Type error: expected Dictionary, found Array");
}

#[test]
fn error_messages_of_each_kind() {
    assert_eq!(PdfError::InvalidPassword.message(), "Invalid password provided");
    assert_eq!(
        PdfError::PasswordRequired.message(),
        "Password required to open this document"
    );
    assert_eq!(
        PdfError::CompressionError("bad".to_string()).message(),
        "Compression error: bad"
    );
    assert_eq!(
        PdfError::NonCompliant { standard: "PDF/UA".to_string(), reason: "untagged".to_string() }
            .message(),
        "Not compliant with PDF/UA: untagged"
    );
    assert_eq!(PdfError::Other("x".to_string()).message(), "Error: x");
    let io = PdfError::Io(std::io::Error::new(std::io::ErrorKind::Other, "disk"));
    assert_eq!(io.message(), "I/O error: disk");
}
