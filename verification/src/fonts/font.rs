//! Fonts for text extraction: the mapping of character codes to Unicode
//! through a ToUnicode CMap, an encoding table, or the byte itself.
use vstd::prelude::*;
use crate::error::{append_str, PdfError, PdfResult};
use crate::fonts::cmap::{cmap_lookup, cmap_parse, cmap_tokens, CMapView, ToUnicodeCMap};
use crate::fonts::encoding::{
    encoding_object_result, standard_entry, table_of, win_ansi_entry, latin1_entry, Encoding,
    EncodingObject,
};
use crate::objects::decode_utf16be;
use crate::seqs::concat_map;
use crate::unicode::{
    be_units, char_from_u32, push_char, push_str_chars, str_eq, string_from_chars, utf16_decode,
};

verus! {

/// PDF font subtypes.
#[derive(Debug, Clone, Copy, PartialEq, Eq, Structural)]
pub enum FontSubtype {
    /// Type 1 font (PostScript).
    Type1,
    /// Multiple Master Type 1.
    MMType1,
    /// TrueType font.
    TrueType,
    /// Type 3 font.
    Type3,
    /// Type 0 composite font.
    Type0,
    /// CID-keyed Type 1.
    CIDFontType0,
    /// CID-keyed TrueType.
    CIDFontType2,
}

/// The subtype that a name denotes.
pub open spec fn subtype_named(name: Seq<char>) -> Option<FontSubtype> {
    if name == "Type1"@ {
        Some(FontSubtype::Type1)
    } else if name == "MMType1"@ {
        Some(FontSubtype::MMType1)
    } else if name == "TrueType"@ {
        Some(FontSubtype::TrueType)
    } else if name == "Type3"@ {
        Some(FontSubtype::Type3)
    } else if name == "Type0"@ {
        Some(FontSubtype::Type0)
    } else if name == "CIDFontType0"@ {
        Some(FontSubtype::CIDFontType0)
    } else if name == "CIDFontType2"@ {
        Some(FontSubtype::CIDFontType2)
    } else {
        None
    }
}

impl FontSubtype {
    /// Parses a font subtype from its PDF name.
    pub fn from_name(name: &str) -> (r: PdfResult<FontSubtype>)
        ensures
            match r {
                Ok(t) => subtype_named(name@) == Some(t),
                Err(e) => subtype_named(name@) is None && (e matches PdfError::InvalidFont(m) && m@
                    == "Unknown font subtype: "@ + name@),
            },
    {
        proof {
            reveal_strlit("Type1");
            reveal_strlit("MMType1");
            reveal_strlit("TrueType");
            reveal_strlit("Type3");
            reveal_strlit("Type0");
            reveal_strlit("CIDFontType0");
            reveal_strlit("CIDFontType2");
            reveal_strlit("Unknown font subtype: ");
        }
        if str_eq(name, "Type1") {
            Ok(FontSubtype::Type1)
        } else if str_eq(name, "MMType1") {
            Ok(FontSubtype::MMType1)
        } else if str_eq(name, "TrueType") {
            Ok(FontSubtype::TrueType)
        } else if str_eq(name, "Type3") {
            Ok(FontSubtype::Type3)
        } else if str_eq(name, "Type0") {
            Ok(FontSubtype::Type0)
        } else if str_eq(name, "CIDFontType0") {
            Ok(FontSubtype::CIDFontType0)
        } else if str_eq(name, "CIDFontType2") {
            Ok(FontSubtype::CIDFontType2)
        } else {
            let mut out: Vec<char> = Vec::new();
            append_str(&mut out, "Unknown font subtype: ");
            append_str(&mut out, name);
            Err(PdfError::InvalidFont(string_from_chars(out.as_slice())))
        }
    }
}

/// A font dictionary, as far as text extraction reads it.
#[derive(Debug, Clone)]
pub struct FontDict {
    /// `/Subtype`, where it is a name.
    pub subtype: Option<String>,
    /// `/BaseFont`, where it is a name.
    pub base_font: Option<String>,
    /// The decoded data of the `/ToUnicode` stream, where there is one.
    pub to_unicode: Option<Vec<u8>>,
    /// `/Encoding`, where present.
    pub encoding: Option<EncodingObject>,
}

/// The subtype name of a font dictionary (`Type1` where absent).
pub open spec fn subtype_name_of(dict: FontDict) -> Seq<char> {
    match dict.subtype {
        Some(s) => s@,
        None => "Type1"@,
    }
}

/// Whether `f` is the font a font dictionary describes: its subtype, its
/// base name (`Unknown` where absent), the CMap its ToUnicode data reads
/// to, and its encoding (by subtype where absent).
pub open spec fn font_built_from(dict: FontDict, f: Font) -> bool {
    &&& subtype_named(subtype_name_of(dict)) == Some(f.spec_subtype())
    &&& f.spec_name() == match dict.base_font {
        Some(b) => b@,
        None => "Unknown"@,
    }
    &&& match dict.to_unicode {
        Some(d) => cmap_parse(d@) matches Ok(c) && f.spec_cmap() == Some(c),
        None => f.spec_cmap() is None,
    }
    &&& match dict.encoding {
        Some(o) => exists|e: Encoding| encoding_object_result(o, Ok(e)) && e@ == f.spec_encoding(),
        None => f.spec_encoding() == default_encoding(f.spec_subtype()),
    }
}

/// Whether no font can be built from a font dictionary: an unknown
/// subtype, a ToUnicode CMap that does not parse, or an encoding that
/// cannot be read.
pub open spec fn font_refused(dict: FontDict) -> bool {
    subtype_named(subtype_name_of(dict)) is None || (dict.to_unicode matches Some(d) && cmap_parse(d@) is Err)
        || (dict.encoding matches Some(o) && (exists|e: crate::error::PdfError| encoding_object_result(o, Err(e))))
}

/// A PDF font that maps character codes to Unicode text.
#[derive(Debug, Clone)]
pub struct Font {
    name: String,
    subtype: FontSubtype,
    encoding: Encoding,
    to_unicode: Option<ToUnicodeCMap>,
}

/// The default encoding table of a font subtype without `/Encoding`.
pub open spec fn default_encoding(t: FontSubtype) -> Seq<Option<char>> {
    match t {
        FontSubtype::Type1 | FontSubtype::MMType1 => table_of(|c: u8| standard_entry(c)),
        FontSubtype::TrueType => table_of(|c: u8| win_ansi_entry(c)),
        _ => table_of(|c: u8| latin1_entry(c)),
    }
}

/// The character of a byte taken as a code point.
pub open spec fn byte_char(b: u8) -> char {
    (b as u32) as char
}

/// What a simple font gives for one byte: the CMap's string, else the
/// encoding's character, else the byte as a code point.
pub open spec fn simple_piece(enc: Seq<Option<char>>, cm: Option<CMapView>, b: u8) -> Seq<char> {
    let mapped = match cm {
        Some(c) => cmap_lookup(c, seq![b]),
        None => None,
    };
    match mapped {
        Some(s) => s,
        None => match enc[b as int] {
            Some(ch) => seq![ch],
            None => seq![byte_char(b)],
        },
    }
}

/// Decoding through a composite font from byte `i` on: a 2-byte code
/// that the CMap maps, else a 1-byte code that it maps, else the byte as a
/// code point.
pub open spec fn decode_composite(cm: Option<CMapView>, bytes: Seq<u8>, i: int) -> Seq<char>
    decreases bytes.len() - i,
{
    if i < 0 || i >= bytes.len() {
        Seq::empty()
    } else {
        match cm {
            Some(c) => {
                if i + 1 < bytes.len() && cmap_lookup(c, bytes.subrange(i, i + 2)) is Some {
                    cmap_lookup(c, bytes.subrange(i, i + 2))->0 + decode_composite(cm, bytes, i + 2)
                } else if cmap_lookup(c, seq![bytes[i]]) is Some {
                    cmap_lookup(c, seq![bytes[i]])->0 + decode_composite(cm, bytes, i + 1)
                } else {
                    seq![byte_char(bytes[i])] + decode_composite(cm, bytes, i + 1)
                }
            },
            None => seq![byte_char(bytes[i])] + decode_composite(cm, bytes, i + 1),
        }
    }
}

impl Font {
    /// The font's base name.
    pub closed spec fn spec_name(&self) -> Seq<char> {
        self.name@
    }

    /// The font's subtype.
    pub closed spec fn spec_subtype(&self) -> FontSubtype {
        self.subtype
    }

    /// The font's encoding table.
    pub closed spec fn spec_encoding(&self) -> Seq<Option<char>> {
        self.encoding@
    }

    /// The font's ToUnicode CMap.
    pub closed spec fn spec_cmap(&self) -> Option<CMapView> {
        match &self.to_unicode {
            Some(c) => Some(c@),
            None => None,
        }
    }

    /// What the font gives for a byte string: UTF-16BE after a byte order
    /// mark (empty where invalid), else composite or simple decoding.
    pub open spec fn spec_decode(&self, bytes: Seq<u8>) -> Seq<char> {
        if bytes.len() >= 2 && bytes[0] == 0xFE && bytes[1] == 0xFF {
            match utf16_decode(be_units(bytes.skip(2))) {
                Some(s) => s,
                None => Seq::empty(),
            }
        } else if self.spec_subtype() == FontSubtype::Type0 {
            decode_composite(self.spec_cmap(), bytes, 0)
        } else {
            concat_map(bytes, |b: u8| simple_piece(self.spec_encoding(), self.spec_cmap(), b))
        }
    }

    /// A font with the given parts.
    pub fn new(name: &str, subtype: FontSubtype, encoding: Encoding, to_unicode: Option<ToUnicodeCMap>) -> (r: Font)
        ensures
            r.spec_name() == name@,
            r.spec_subtype() == subtype,
            r.spec_encoding() == encoding@,
            r.spec_cmap() == match to_unicode {
                Some(c) => Some(c@),
                None => None::<CMapView>,
            },
    {
        let mut v: Vec<char> = Vec::new();
        append_str(&mut v, name);
        Font { name: string_from_chars(v.as_slice()), subtype, encoding, to_unicode }
    }

    /// The fallback font for a corrupt font dictionary: `Unknown`, Type1,
    /// WinAnsiEncoding, no CMap.
    pub fn default_fallback() -> (r: Font)
        ensures
            r.spec_name() == "Unknown"@,
            r.spec_subtype() == FontSubtype::Type1,
            r.spec_encoding() == table_of(|c: u8| win_ansi_entry(c)),
            r.spec_cmap() is None,
    {
        Font::new("Unknown", FontSubtype::Type1, Encoding::win_ansi(), None)
    }

    /// The font's base name.
    pub fn name(&self) -> (r: &str)
        ensures
            r@ == self.spec_name(),
    {
        self.name.as_str()
    }

    /// The font subtype.
    pub fn subtype(&self) -> (r: &FontSubtype)
        ensures
            *r == self.spec_subtype(),
    {
        &self.subtype
    }

    /// The font's encoding.
    pub fn encoding(&self) -> (r: &Encoding)
        ensures
            r@ == self.spec_encoding(),
    {
        &self.encoding
    }

    /// Whether this is a composite (Type 0) font with multi-byte codes.
    pub fn is_composite(&self) -> (r: bool)
        ensures
            r == (self.spec_subtype() == FontSubtype::Type0),
    {
        self.subtype == FontSubtype::Type0
    }

    /// Builds a font from a font dictionary: `/Subtype` (Type1 where
    /// absent), `/BaseFont` (`Unknown` where absent), the ToUnicode CMap,
    /// and `/Encoding` (by subtype where absent).
    pub fn from_dict(dict: &FontDict) -> (r: PdfResult<Font>)
        requires
            dict.to_unicode matches Some(d) ==> cmap_tokens(d@) is Some,
        ensures
            match r {
                Ok(f) => font_built_from(*dict, f),
                Err(_) => font_refused(*dict),
            },
    {
        proof {
            reveal_strlit("Type1");
            reveal_strlit("Unknown");
        }
        let subtype = match &dict.subtype {
            Some(s) => FontSubtype::from_name(s.as_str()),
            None => FontSubtype::from_name("Type1"),
        };
        let subtype = match subtype {
            Ok(t) => t,
            Err(e) => {
                return Err(e);
            },
        };
        let mut nv: Vec<char> = Vec::new();
        match &dict.base_font {
            Some(b) => append_str(&mut nv, b.as_str()),
            None => append_str(&mut nv, "Unknown"),
        }
        let name = string_from_chars(nv.as_slice());
        let to_unicode = match &dict.to_unicode {
            Some(d) => match ToUnicodeCMap::parse(d.as_slice()) {
                Ok(c) => Some(c),
                Err(e) => {
                    return Err(e);
                },
            },
            None => None,
        };
        let encoding = match &dict.encoding {
            Some(o) => {
                let r = Encoding::from_object(o);
                match r {
                    Ok(e) => e,
                    Err(e) => {
                        return Err(e);
                    },
                }
            },
            None => match subtype {
                FontSubtype::Type1 | FontSubtype::MMType1 => Encoding::standard(),
                FontSubtype::TrueType => Encoding::win_ansi(),
                _ => Encoding::latin1(),
            },
        };
        Ok(Font { name, subtype, encoding, to_unicode })
    }

    /// Decodes a byte string to Unicode text through this font.
    pub fn decode_bytes(&self, bytes: &[u8]) -> (r: String)
        ensures
            r@ == self.spec_decode(bytes@),
    {
        let mut result = string_from_chars(&[]);
        self.decode_bytes_into(bytes, &mut result);
        assert(result@ =~= Seq::<char>::empty() + self.spec_decode(bytes@));
        result
    }

    /// Decodes a byte string and appends the result to `out`.
    pub fn decode_bytes_into(&self, bytes: &[u8], out: &mut String)
        ensures
            final(out)@ == old(out)@ + self.spec_decode(bytes@),
    {
        if bytes.len() >= 2 && bytes[0] == 0xFE && bytes[1] == 0xFF {
            let rest = slice_from(bytes, 2);
            match decode_utf16be(rest.as_slice()) {
                Some(s) => push_str_chars(out, s.as_str()),
                None => {
                    assert(old(out)@ + Seq::<char>::empty() =~= old(out)@);
                },
            }
            return;
        }
        if self.is_composite() {
            self.decode_composite_into(bytes, out);
        } else {
            self.decode_simple_into(bytes, out);
        }
    }

    fn decode_simple_into(&self, bytes: &[u8], out: &mut String)
        ensures
            final(out)@ == old(out)@ + concat_map(
                bytes@,
                |b: u8| simple_piece(self.spec_encoding(), self.spec_cmap(), b),
            ),
    {
        let ghost f = |b: u8| simple_piece(self.spec_encoding(), self.spec_cmap(), b);
        let ghost start = out@;
        let mut i: usize = 0;
        while i < bytes.len()
            invariant
                i <= bytes.len(),
                f == |b: u8| simple_piece(self.spec_encoding(), self.spec_cmap(), b),
                out@ == start + concat_map(bytes@.take(i as int), f),
            decreases bytes.len() - i,
        {
            let b = bytes[i];
            proof {
                crate::seqs::lemma_concat_map_take(bytes@, i as int, f);
            }
            let ghost before = out@;
            let mut done = false;
            match &self.to_unicode {
                Some(cmap) => {
                    let code: Vec<u8> = vec![b];
                    proof {
                        assert(code@ =~= seq![b]);
                    }
                    match cmap.map_code(code.as_slice()) {
                        Some(s) => {
                            push_str_chars(out, s.as_str());
                            done = true;
                        },
                        None => {},
                    }
                },
                None => {},
            }
            if !done {
                match self.encoding.decode_byte(b) {
                    Some(ch) => push_char(out, ch),
                    None => {
                        let c = byte_to_char(b);
                        push_char(out, c);
                    },
                }
            }
            proof {
                assert(out@ =~= before + f(b));
                assert(start + concat_map(bytes@.take(i as int), f) + f(b) =~= start + concat_map(
                    bytes@.take(i + 1),
                    f,
                ));
            }
            i = i + 1;
        }
        assert(bytes@.take(bytes.len() as int) =~= bytes@);
    }

    fn decode_composite_into(&self, bytes: &[u8], out: &mut String)
        ensures
            final(out)@ == old(out)@ + decode_composite(self.spec_cmap(), bytes@, 0),
    {
        let ghost cm = self.spec_cmap();
        let ghost start = out@;
        let mut i: usize = 0;
        while i < bytes.len()
            invariant
                i <= bytes.len(),
                cm == self.spec_cmap(),
                start + decode_composite(cm, bytes@, 0) == out@ + decode_composite(cm, bytes@, i as int),
            decreases bytes.len() - i,
        {
            let ghost before = out@;
            let mut step: usize = 0;
            match &self.to_unicode {
                Some(cmap) => {
                    if i + 1 < bytes.len() {
                        let two = slice_range(bytes, i, i + 2);
                        match cmap.map_code(two.as_slice()) {
                            Some(s) => {
                                push_str_chars(out, s.as_str());
                                step = 2;
                            },
                            None => {},
                        }
                    }
                    if step == 0 {
                        let one: Vec<u8> = vec![bytes[i]];
                        proof {
                            assert(one@ =~= seq![bytes@[i as int]]);
                        }
                        match cmap.map_code(one.as_slice()) {
                            Some(s) => {
                                push_str_chars(out, s.as_str());
                                step = 1;
                            },
                            None => {},
                        }
                    }
                },
                None => {},
            }
            if step == 0 {
                let c = byte_to_char(bytes[i]);
                push_char(out, c);
                step = 1;
                proof {
                    assert(out@ =~= before + seq![byte_char(bytes@[i as int])]);
                }
            }
            proof {
                let rest = decode_composite(cm, bytes@, i + step);
                assert(before + decode_composite(cm, bytes@, i as int) =~= out@ + rest);
            }
            i = i + step;
        }
        assert(out@ + decode_composite(cm, bytes@, i as int) =~= out@);
    }
}

/// The character of a byte taken as a code point.
fn byte_to_char(b: u8) -> (r: char)
    ensures
        r == byte_char(b),
{
    match char_from_u32(b as u32) {
        Some(c) => {
            proof {
                vstd::utf8::char_u32_cast(c, b as u32);
            }
            c
        },
        None => {
            assert(false);
            ' '
        },
    }
}

/// A copy of `bytes[from..]`.
pub fn slice_from(bytes: &[u8], from: usize) -> (r: Vec<u8>)
    requires
        from <= bytes.len(),
    ensures
        r@ == bytes@.skip(from as int),
{
    slice_range(bytes, from, bytes.len())
}

/// A copy of `bytes[from..to]`.
pub fn slice_range(bytes: &[u8], from: usize, to: usize) -> (r: Vec<u8>)
    requires
        from <= to <= bytes.len(),
    ensures
        r@ == bytes@.subrange(from as int, to as int),
{
    let mut v: Vec<u8> = Vec::new();
    let mut k = from;
    while k < to
        invariant
            from <= k <= to <= bytes.len(),
            v@ == bytes@.subrange(from as int, k as int),
        decreases to - k,
    {
        v.push(bytes[k]);
        k = k + 1;
        assert(v@ =~= bytes@.subrange(from as int, k as int));
    }
    v
}

} // verus!
