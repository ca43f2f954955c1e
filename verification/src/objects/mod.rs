//! PDF primitive object types: names, strings and indirect references.
use vstd::prelude::*;
use vstd::utf8::{valid_utf8, decode_utf8};
use crate::unicode::{decode_utf16_chars, string_from_chars, utf16_decode, be_units, push_char};

pub mod object;

pub use object::{DictExt, Dictionary, Object, PdfStream, RealNumber};

verus! {

/// A unique identifier for an indirect object: (object number, generation number).
pub type ObjectId = (u32, u16);

/// A PDF Name object. The leading `/` is not part of the name.
#[derive(Debug, Clone, PartialEq, Eq, Hash, PartialOrd, Ord)]
pub struct PdfName(pub String);

impl PdfName {
    /// Creates a new PDF Name.
    pub fn new(name: &str) -> (r: PdfName)
        ensures
            r.0@ == name@,
    {
        PdfName(name.to_owned())
    }

    /// Returns the name as a string slice.
    pub fn as_str(&self) -> (r: &str)
        ensures
            r@ == self.0@,
    {
        self.0.as_str()
    }

    /// The display form of the name: `/` followed by the name.
    pub fn to_display_string(&self) -> (r: String)
        ensures
            r@ == seq!['/'] + self.0@,
    {
        let mut s = String::new();
        push_char(&mut s, '/');
        s.append(self.0.as_str());
        s
    }
}

impl<'a> vstd::std_specs::convert::FromSpecImpl<&'a str> for PdfName {
    open spec fn obeys_from_spec() -> bool {
        false
    }

    open spec fn from_spec(v: &'a str) -> PdfName {
        choose|n: PdfName| n.0@ == v@
    }
}

impl<'a> From<&'a str> for PdfName {
    fn from(s: &'a str) -> (r: PdfName) {
        PdfName(s.to_owned())
    }
}

} // verus!

verus! {

/// Whether a PDF string was written as a literal or a hexadecimal string.
#[derive(Debug, Clone, Copy, PartialEq, Eq, Structural)]
pub enum StringFormat {
    /// Literal string: `(Hello World)`
    Literal,
    /// Hexadecimal string: `<48656C6C6F>`
    Hexadecimal,
}

/// A PDF String object: raw bytes plus the form they were written in.
#[derive(Debug, Clone, PartialEq, Eq)]
pub struct PdfString {
    /// The raw bytes of the string.
    pub bytes: Vec<u8>,
    /// How the string was encoded.
    pub format: StringFormat,
}

/// Lowercase hexadecimal digit for a value below 16.
pub open spec fn hex_lower(n: u8) -> char {
    if n < 10 {
        ((48 + n) as u8) as char
    } else {
        ((87 + n) as u8) as char
    }
}

/// Uppercase hexadecimal digit (as a byte) for a value below 16.
pub open spec fn hex_upper_byte(n: u8) -> u8 {
    if n < 10 {
        (48 + n) as u8
    } else {
        (55 + n) as u8
    }
}

/// Two lowercase hex digits of a byte.
pub open spec fn hex_pair_lower(b: u8) -> Seq<char> {
    seq![hex_lower(b / 16), hex_lower(b % 16)]
}

/// Two uppercase hex digits of a byte, as bytes.
pub open spec fn hex_pair_upper(b: u8) -> Seq<u8> {
    seq![hex_upper_byte(b / 16), hex_upper_byte(b % 16)]
}

fn hex_lower_exec(n: u8) -> (c: char)
    requires
        n < 16,
    ensures
        c == hex_lower(n),
{
    if n < 10 {
        ((48 + n) as u8) as char
    } else {
        ((87 + n) as u8) as char
    }
}

fn hex_upper_exec(n: u8) -> (c: u8)
    requires
        n < 16,
    ensures
        c == hex_upper_byte(n),
{
    if n < 10 {
        48 + n
    } else {
        55 + n
    }
}

/// Appends the bytes as lowercase hex digit pairs.
pub fn write_hex(out: &mut Vec<char>, bytes: &[u8])
    ensures
        final(out)@ == old(out)@ + crate::seqs::concat_map(
            bytes@,
            |b: u8| hex_pair_lower(b),
        ),
{
    let ghost f: spec_fn(u8) -> Seq<char> = |x: u8| hex_pair_lower(x);
    let ghost start = out@;
    let mut i: usize = 0;
    while i < bytes.len()
        invariant
            i <= bytes.len(),
            f == (|x: u8| hex_pair_lower(x)),
            out@ == start + crate::seqs::concat_map(bytes@.take(i as int), f),
        decreases bytes.len() - i,
    {
        let b = bytes[i];
        proof {
            crate::seqs::lemma_concat_map_take(bytes@, i as int, f);
        }
        out.push(hex_lower_exec(b / 16));
        out.push(hex_lower_exec(b % 16));
        assert(f(b) == hex_pair_lower(b));
        assert(out@ =~= start + crate::seqs::concat_map(bytes@.take(i + 1), f));
        i = i + 1;
    }
    assert(bytes@.take(bytes.len() as int) =~= bytes@);
}

/// Checks UTF-8 validity of bytes and borrows them as text (std `str::from_utf8`).
///
/// Claims the documented behaviour: `Some` exactly when the bytes are
/// valid UTF-8, and then the text's encoding is those bytes.
#[verifier::external_body]
pub(crate) fn utf8_text(bytes: &[u8]) -> (r: Option<&str>)
    ensures
        r is Some <==> valid_utf8(bytes@),
        r matches Some(s) ==> s@ == decode_utf8(bytes@),
{
    std::str::from_utf8(bytes).ok()
}

impl PdfString {
    /// Creates a literal PDF string from text (its UTF-8 bytes).
    pub fn from_literal(text: &str) -> (r: PdfString)
        ensures
            r.bytes@ == vstd::utf8::encode_utf8(text@),
            r.format == StringFormat::Literal,
    {
        PdfString { bytes: vstd::slice::slice_to_vec(text.as_bytes()), format: StringFormat::Literal }
    }

    /// Creates a hexadecimal PDF string from raw bytes.
    pub fn from_hex(bytes: Vec<u8>) -> (r: PdfString)
        ensures
            r.bytes@ == bytes@,
            r.format == StringFormat::Hexadecimal,
    {
        PdfString { bytes, format: StringFormat::Hexadecimal }
    }

    /// Creates a PDF string from raw bytes with the given format.
    pub fn from_bytes(bytes: Vec<u8>, format: StringFormat) -> (r: PdfString)
        ensures
            r.bytes@ == bytes@,
            r.format == format,
    {
        PdfString { bytes, format }
    }

    /// The string as UTF-8 text, or `None` when the bytes are not valid UTF-8.
    pub fn as_text(&self) -> (r: Option<&str>)
        ensures
            r is Some <==> valid_utf8(self.bytes@),
            r matches Some(s) ==> s@ == decode_utf8(self.bytes@),
    {
        utf8_text(self.bytes.as_slice())
    }

    /// The display form: `(text)` for a literal string that is valid
    /// UTF-8, otherwise `<` lowercase hex `>`.
    pub fn to_display_string(&self) -> (r: String)
        ensures
            r@ == pdf_string_display(self.bytes@, self.format),
    {
        let mut out: Vec<char> = Vec::new();
        let text = if self.format == StringFormat::Literal {
            self.as_text()
        } else {
            None
        };
        match text {
            Some(t) => {
                let mut s = String::new();
                push_char(&mut s, '(');
                s.append(t);
                push_char(&mut s, ')');
                return s;
            },
            None => {
                out.push('<');
                write_hex(&mut out, self.bytes.as_slice());
                out.push('>');
            },
        }
        string_from_chars(out.as_slice())
    }
}

/// The display form of a PDF string.
pub open spec fn pdf_string_display(bytes: Seq<u8>, format: StringFormat) -> Seq<char> {
    if format == StringFormat::Literal && valid_utf8(bytes) {
        seq!['('] + decode_utf8(bytes) + seq![')']
    } else {
        seq!['<'] + crate::seqs::concat_map(bytes, |b: u8| hex_pair_lower(b)) + seq!['>']
    }
}

/// An indirect reference to another object (`num gen R`).
#[derive(Debug, Clone, Copy, PartialEq, Eq, Hash, Structural)]
pub struct IndirectRef {
    /// The object number.
    pub object_number: u32,
    /// The generation number.
    pub generation: u16,
}

impl IndirectRef {
    /// Creates a new indirect reference.
    pub fn new(object_number: u32, generation: u16) -> (r: IndirectRef)
        ensures
            r.object_number == object_number,
            r.generation == generation,
    {
        IndirectRef { object_number, generation }
    }

    /// Returns the ObjectId tuple for this reference.
    pub fn id(&self) -> (r: ObjectId)
        ensures
            r == (self.object_number, self.generation),
    {
        (self.object_number, self.generation)
    }

    /// The display form `num gen R`.
    pub fn to_display_string(&self) -> (r: String)
        ensures
            r@ == crate::unicode::decimal(self.object_number as nat) + seq![' ']
                + crate::unicode::decimal(self.generation as nat) + seq![' ', 'R'],
    {
        let mut v: Vec<char> = Vec::new();
        crate::unicode::push_decimal(&mut v, self.object_number as u64);
        v.push(' ');
        crate::unicode::push_decimal(&mut v, self.generation as u64);
        v.push(' ');
        v.push('R');
        string_from_chars(v.as_slice())
    }
}

/// Decodes a UTF-16BE byte slice into a string; `None` on an unpaired
/// surrogate. A trailing odd byte is ignored.
pub fn decode_utf16be(bytes: &[u8]) -> (r: Option<String>)
    ensures
        match r {
            Some(s) => utf16_decode(be_units(bytes@)) == Some(s@),
            None => utf16_decode(be_units(bytes@)) is None,
        },
{
    match decode_utf16_chars(bytes) {
        Some(v) => Some(string_from_chars(v.as_slice())),
        None => None,
    }
}

} // verus!

verus! {

/// Whether a name byte must be written as `#xx`: bytes outside `!`..`~`
/// and the delimiters `# / % ( ) < > [ ] { }`.
pub open spec fn name_byte_needs_escape(b: u8) -> bool {
    !(0x21 <= b <= 0x7E) || b == 0x23 || b == 0x2F || b == 0x25 || b == 0x28 || b == 0x29
        || b == 0x3C || b == 0x3E || b == 0x5B || b == 0x5D || b == 0x7B || b == 0x7D
}

/// The written form of one name byte.
pub open spec fn escape_name_byte(b: u8) -> Seq<u8> {
    if name_byte_needs_escape(b) {
        seq![0x23u8] + hex_pair_upper(b)
    } else {
        seq![b]
    }
}

/// The written form of a name's bytes (without the leading `/`).
pub open spec fn escape_name(bytes: Seq<u8>) -> Seq<u8> {
    crate::seqs::concat_map(bytes, |b: u8| escape_name_byte(b))
}

fn needs_escape_exec(b: u8) -> (r: bool)
    ensures
        r == name_byte_needs_escape(b),
{
    !(0x21 <= b && b <= 0x7E) || b == 0x23 || b == 0x2F || b == 0x25 || b == 0x28 || b == 0x29
        || b == 0x3C || b == 0x3E || b == 0x5B || b == 0x5D || b == 0x7B || b == 0x7D
}

/// Appends the escaped form of name bytes.
pub fn write_escaped_name_bytes(out: &mut Vec<u8>, bytes: &[u8])
    ensures
        final(out)@ == old(out)@ + escape_name(bytes@),
{
    let ghost f: spec_fn(u8) -> Seq<u8> = |x: u8| escape_name_byte(x);
    let ghost start = out@;
    let mut i: usize = 0;
    while i < bytes.len()
        invariant
            i <= bytes.len(),
            f == (|x: u8| escape_name_byte(x)),
            out@ == start + crate::seqs::concat_map(bytes@.take(i as int), f),
        decreases bytes.len() - i,
    {
        let b = bytes[i];
        proof {
            crate::seqs::lemma_concat_map_take(bytes@, i as int, f);
        }
        if needs_escape_exec(b) {
            out.push(0x23u8);
            out.push(hex_upper_exec(b / 16));
            out.push(hex_upper_exec(b % 16));
        } else {
            out.push(b);
        }
        assert(out@ =~= start + crate::seqs::concat_map(bytes@.take(i + 1), f));
        i = i + 1;
    }
    assert(bytes@.take(bytes.len() as int) =~= bytes@);
}

/// Writes a PDF Name: `/` then its UTF-8 bytes, escaping special bytes as `#xx`.
pub fn write_pdf_name(out: &mut Vec<u8>, name: &PdfName)
    ensures
        final(out)@ == old(out)@ + seq![0x2Fu8] + escape_name(vstd::utf8::encode_utf8(name.0@)),
{
    out.push(0x2Fu8);
    write_escaped_name_bytes(out, name.as_str().as_bytes());
}

/// Whether a byte forces a string to be written in hexadecimal form:
/// a control byte other than newline, carriage return and tab.
pub open spec fn forces_hex(b: u8) -> bool {
    b < 0x20 && b != 0x0A && b != 0x0D && b != 0x09
}

/// The written form of one byte inside a literal string.
pub open spec fn escape_literal_byte(b: u8) -> Seq<u8> {
    if b == 0x28 || b == 0x29 || b == 0x5C {
        seq![0x5Cu8, b]
    } else {
        seq![b]
    }
}

/// The written form of a PDF string in file syntax.
pub open spec fn pdf_string_syntax(bytes: Seq<u8>, format: StringFormat) -> Seq<u8> {
    if format == StringFormat::Hexadecimal || exists|i: int| 0 <= i < bytes.len() && forces_hex(
        #[trigger] bytes[i],
    ) {
        seq![0x3Cu8] + crate::seqs::concat_map(bytes, |b: u8| hex_pair_upper(b)) + seq![0x3Eu8]
    } else {
        seq![0x28u8] + crate::seqs::concat_map(bytes, |b: u8| escape_literal_byte(b)) + seq![
            0x29u8,
        ]
    }
}

/// Writes a PDF string: hexadecimal `<..>` (uppercase digits) when it was
/// hexadecimal or holds a control byte other than newline, carriage return
/// and tab; otherwise literal `(..)` with `(`, `)` and `\` escaped.
pub fn write_pdf_string(out: &mut Vec<u8>, s: &PdfString)
    ensures
        final(out)@ == old(out)@ + pdf_string_syntax(s.bytes@, s.format),
{
    let bytes = s.bytes.as_slice();
    let mut has_control = false;
    let mut k: usize = 0;
    while k < bytes.len()
        invariant
            k <= bytes.len(),
            has_control == exists|i: int| 0 <= i < k && forces_hex(#[trigger] bytes@[i]),
        decreases bytes.len() - k,
    {
        let b = bytes[k];
        if b < 0x20 && b != 0x0A && b != 0x0D && b != 0x09 {
            has_control = true;
        }
        k = k + 1;
    }
    let ghost start = out@;
    if has_control || s.format == StringFormat::Hexadecimal {
        let ghost f: spec_fn(u8) -> Seq<u8> = |x: u8| hex_pair_upper(x);
        out.push(0x3Cu8);
        let mut i: usize = 0;
        while i < bytes.len()
            invariant
                i <= bytes.len(),
                f == (|x: u8| hex_pair_upper(x)),
                out@ == start + seq![0x3Cu8] + crate::seqs::concat_map(bytes@.take(i as int), f),
            decreases bytes.len() - i,
        {
            let b = bytes[i];
            proof {
                crate::seqs::lemma_concat_map_take(bytes@, i as int, f);
            }
            out.push(hex_upper_exec(b / 16));
            out.push(hex_upper_exec(b % 16));
            assert(out@ =~= start + seq![0x3Cu8] + crate::seqs::concat_map(
                bytes@.take(i + 1),
                f,
            ));
            i = i + 1;
        }
        assert(bytes@.take(bytes.len() as int) =~= bytes@);
        out.push(0x3Eu8);
    } else {
        let ghost f: spec_fn(u8) -> Seq<u8> = |x: u8| escape_literal_byte(x);
        out.push(0x28u8);
        let mut i: usize = 0;
        while i < bytes.len()
            invariant
                i <= bytes.len(),
                f == (|x: u8| escape_literal_byte(x)),
                out@ == start + seq![0x28u8] + crate::seqs::concat_map(bytes@.take(i as int), f),
            decreases bytes.len() - i,
        {
            let b = bytes[i];
            proof {
                crate::seqs::lemma_concat_map_take(bytes@, i as int, f);
            }
            if b == 0x28 || b == 0x29 || b == 0x5C {
                out.push(0x5Cu8);
            }
            out.push(b);
            assert(out@ =~= start + seq![0x28u8] + crate::seqs::concat_map(
                bytes@.take(i + 1),
                f,
            ));
            i = i + 1;
        }
        assert(bytes@.take(bytes.len() as int) =~= bytes@);
        out.push(0x29u8);
    }
}

} // verus!
