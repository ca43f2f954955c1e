//! Error type of the library.
use vstd::prelude::*;
use crate::unicode::{push_decimal, string_from_chars, str_chars};

verus! {

/// A std I/O error carried inside [`PdfError::Io`].
#[verifier::external_type_specification]
#[verifier::external_body]
pub struct ExIoError(std::io::Error);

/// Main error type of the library.
#[derive(Debug)]
pub enum PdfError {
    /// I/O error occurred
    Io(std::io::Error),
    /// PDF syntax error
    SyntaxError {
        /// Position in the file where the error occurred
        position: usize,
        /// Description of the syntax error
        message: String,
    },
    /// Invalid PDF structure
    InvalidStructure(String),
    /// Encryption-related error
    EncryptionError(String),
    /// Password required to open the document
    PasswordRequired,
    /// Invalid password provided
    InvalidPassword,
    /// Document does not comply with a standard
    NonCompliant {
        /// The standard (e.g., "PDF/A-1", "PDF/UA")
        standard: String,
        /// Reason for non-compliance
        reason: String,
    },
    /// Feature not yet supported
    UnsupportedFeature(String),
    /// Type error (expected one type, found another)
    TypeError {
        /// Expected type
        expected: String,
        /// Found type
        found: String,
    },
    /// Resource not found
    ResourceNotFound(String),
    /// Invalid resource
    InvalidResource(String),
    /// Parsing error
    ParseError(String),
    /// Invalid object reference
    InvalidReference(String),
    /// Invalid font
    InvalidFont(String),
    /// Invalid image
    InvalidImage(String),
    /// Invalid annotation
    InvalidAnnotation(String),
    /// Invalid form field
    InvalidFormField(String),
    /// Invalid page
    InvalidPage(String),
    /// Cross-reference table error
    XRefError(String),
    /// Compression/decompression error
    CompressionError(String),
    /// Encoding error
    EncodingError(String),
    /// Generic error with a message
    Other(String),
}

/// Result type of the library.
pub type PdfResult<T> = Result<T, PdfError>;

/// The text of an I/O error (std `Display` for `io::Error`).
///
/// Nothing is claimed of the text.
#[verifier::external_body]
fn io_error_text(err: &std::io::Error) -> String {
    format!("{}", err)
}

/// The prefix that each message starts with, by variant.
pub open spec fn message_prefix(e: PdfError) -> Seq<char> {
    match e {
        PdfError::Io(_) => "I/O error: "@,
        PdfError::SyntaxError { .. } => "Syntax error at position "@,
        PdfError::InvalidStructure(_) => "Invalid PDF structure: "@,
        PdfError::EncryptionError(_) => "Encryption error: "@,
        PdfError::PasswordRequired => "Password required to open this document"@,
        PdfError::InvalidPassword => "Invalid password provided"@,
        PdfError::NonCompliant { .. } => "Not compliant with "@,
        PdfError::UnsupportedFeature(_) => "Unsupported feature: "@,
        PdfError::TypeError { .. } => "Type error: expected "@,
        PdfError::ResourceNotFound(_) => "Resource not found: "@,
        PdfError::InvalidResource(_) => "Invalid resource: "@,
        PdfError::ParseError(_) => "Parse error: "@,
        PdfError::InvalidReference(_) => "Invalid reference: "@,
        PdfError::InvalidFont(_) => "Invalid font: "@,
        PdfError::InvalidImage(_) => "Invalid image: "@,
        PdfError::InvalidAnnotation(_) => "Invalid annotation: "@,
        PdfError::InvalidFormField(_) => "Invalid form field: "@,
        PdfError::InvalidPage(_) => "Invalid page: "@,
        PdfError::XRefError(_) => "Cross-reference error: "@,
        PdfError::CompressionError(_) => "Compression error: "@,
        PdfError::EncodingError(_) => "Encoding error: "@,
        PdfError::Other(_) => "Error: "@,
    }
}

/// The full message of an error other than `Io`.
pub open spec fn message_text(e: PdfError) -> Seq<char> {
    match e {
        PdfError::SyntaxError { position, message } => message_prefix(e)
            + crate::unicode::decimal(position as nat) + ": "@ + message@,
        PdfError::NonCompliant { standard, reason } => message_prefix(e) + standard@ + ": "@
            + reason@,
        PdfError::TypeError { expected, found } => message_prefix(e) + expected@ + ", found "@
            + found@,
        PdfError::PasswordRequired => message_prefix(e),
        PdfError::InvalidPassword => message_prefix(e),
        PdfError::InvalidStructure(m) => message_prefix(e) + m@,
        PdfError::EncryptionError(m) => message_prefix(e) + m@,
        PdfError::UnsupportedFeature(m) => message_prefix(e) + m@,
        PdfError::ResourceNotFound(m) => message_prefix(e) + m@,
        PdfError::InvalidResource(m) => message_prefix(e) + m@,
        PdfError::ParseError(m) => message_prefix(e) + m@,
        PdfError::InvalidReference(m) => message_prefix(e) + m@,
        PdfError::InvalidFont(m) => message_prefix(e) + m@,
        PdfError::InvalidImage(m) => message_prefix(e) + m@,
        PdfError::InvalidAnnotation(m) => message_prefix(e) + m@,
        PdfError::InvalidFormField(m) => message_prefix(e) + m@,
        PdfError::InvalidPage(m) => message_prefix(e) + m@,
        PdfError::XRefError(m) => message_prefix(e) + m@,
        PdfError::CompressionError(m) => message_prefix(e) + m@,
        PdfError::EncodingError(m) => message_prefix(e) + m@,
        PdfError::Other(m) => message_prefix(e) + m@,
        PdfError::Io(_) => message_prefix(e),
    }
}

pub(crate) fn append_str(out: &mut Vec<char>, s: &str)
    ensures
        final(out)@ == old(out)@ + s@,
{
    let v = str_chars(s);
    let mut i: usize = 0;
    let ghost start = out@;
    while i < v.len()
        invariant
            i <= v.len(),
            out@ == start + v@.take(i as int),
        decreases v.len() - i,
    {
        out.push(v[i]);
        assert(v@.take(i + 1) =~= v@.take(i as int).push(v@[i as int]));
        i = i + 1;
    }
    assert(v@.take(v.len() as int) =~= v@);
}

impl PdfError {
    /// The human-readable message of the error. For `Io` it is
    /// `I/O error: ` followed by the I/O error's own text.
    pub fn message(&self) -> (r: String)
        ensures
            !(self is Io) ==> r@ == message_text(*self),
            self is Io ==> crate::seqs::starts_with(r@, message_prefix(*self)),
    {
        let mut out: Vec<char> = Vec::new();
        match self {
            PdfError::Io(err) => {
                append_str(&mut out, "I/O error: ");
                let t = io_error_text(err);
                append_str(&mut out, t.as_str());
                proof {
                    reveal_strlit("I/O error: ");
                    assert(out@.subrange(0, message_prefix(*self).len() as int)
                        =~= message_prefix(*self));
                }
            },
            PdfError::SyntaxError { position, message } => {
                append_str(&mut out, "Syntax error at position ");
                push_decimal(&mut out, *position as u64);
                append_str(&mut out, ": ");
                append_str(&mut out, message.as_str());
            },
            PdfError::InvalidStructure(m) => {
                append_str(&mut out, "Invalid PDF structure: ");
                append_str(&mut out, m.as_str());
            },
            PdfError::EncryptionError(m) => {
                append_str(&mut out, "Encryption error: ");
                append_str(&mut out, m.as_str());
            },
            PdfError::PasswordRequired => {
                append_str(&mut out, "Password required to open this document");
            },
            PdfError::InvalidPassword => {
                append_str(&mut out, "Invalid password provided");
            },
            PdfError::NonCompliant { standard, reason } => {
                append_str(&mut out, "Not compliant with ");
                append_str(&mut out, standard.as_str());
                append_str(&mut out, ": ");
                append_str(&mut out, reason.as_str());
            },
            PdfError::UnsupportedFeature(m) => {
                append_str(&mut out, "Unsupported feature: ");
                append_str(&mut out, m.as_str());
            },
            PdfError::TypeError { expected, found } => {
                append_str(&mut out, "Type error: expected ");
                append_str(&mut out, expected.as_str());
                append_str(&mut out, ", found ");
                append_str(&mut out, found.as_str());
            },
            PdfError::ResourceNotFound(m) => {
                append_str(&mut out, "Resource not found: ");
                append_str(&mut out, m.as_str());
            },
            PdfError::InvalidResource(m) => {
                append_str(&mut out, "Invalid resource: ");
                append_str(&mut out, m.as_str());
            },
            PdfError::ParseError(m) => {
                append_str(&mut out, "Parse error: ");
                append_str(&mut out, m.as_str());
            },
            PdfError::InvalidReference(m) => {
                append_str(&mut out, "Invalid reference: ");
                append_str(&mut out, m.as_str());
            },
            PdfError::InvalidFont(m) => {
                append_str(&mut out, "Invalid font: ");
                append_str(&mut out, m.as_str());
            },
            PdfError::InvalidImage(m) => {
                append_str(&mut out, "Invalid image: ");
                append_str(&mut out, m.as_str());
            },
            PdfError::InvalidAnnotation(m) => {
                append_str(&mut out, "Invalid annotation: ");
                append_str(&mut out, m.as_str());
            },
            PdfError::InvalidFormField(m) => {
                append_str(&mut out, "Invalid form field: ");
                append_str(&mut out, m.as_str());
            },
            PdfError::InvalidPage(m) => {
                append_str(&mut out, "Invalid page: ");
                append_str(&mut out, m.as_str());
            },
            PdfError::XRefError(m) => {
                append_str(&mut out, "Cross-reference error: ");
                append_str(&mut out, m.as_str());
            },
            PdfError::CompressionError(m) => {
                append_str(&mut out, "Compression error: ");
                append_str(&mut out, m.as_str());
            },
            PdfError::EncodingError(m) => {
                append_str(&mut out, "Encoding error: ");
                append_str(&mut out, m.as_str());
            },
            PdfError::Other(m) => {
                append_str(&mut out, "Error: ");
                append_str(&mut out, m.as_str());
            },
        }
        proof {
            assert(out@ =~= out@);
        }
        string_from_chars(out.as_slice())
    }
}

impl From<std::io::Error> for PdfError {
    fn from(err: std::io::Error) -> (r: PdfError) {
        PdfError::Io(err)
    }
}

impl vstd::std_specs::convert::FromSpecImpl<std::io::Error> for PdfError {
    open spec fn obeys_from_spec() -> bool {
        true
    }

    open spec fn from_spec(v: std::io::Error) -> PdfError {
        PdfError::Io(v)
    }
}

} // verus!
