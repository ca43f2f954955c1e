//! ToUnicode CMaps: maps from character codes to Unicode strings, read
//! from the `bfchar` and `bfrange` sections of a CMap stream.
use vstd::prelude::*;
use crate::error::{append_str, PdfError, PdfResult};
use crate::objects::decode_utf16be;
use crate::fonts::glyph_list::{bytes_spell, spells};
use crate::seqs::concat_map;
use crate::unicode::{be_units, char_from_u32, str_chars, string_from_chars, utf16_decode};

verus! {

/// A token of a CMap stream.
#[derive(Debug, Clone)]
pub enum CMapToken {
    /// A hex string `<...>`: its bytes, whitespace removed.
    HexString(Vec<u8>),
    /// A keyword or other bare token.
    Keyword(Vec<u8>),
    /// An array of hex strings `[<..> <..>]`.
    Array(Vec<Vec<u8>>),
}

/// A token as plain values: kind (0 hex string, 1 keyword, 2 array), text, array items.
pub type TokenView = (u8, Seq<u8>, Seq<Seq<u8>>);

impl View for CMapToken {
    type V = TokenView;

    open spec fn view(&self) -> TokenView {
        match self {
            CMapToken::HexString(h) => (0u8, h@, Seq::empty()),
            CMapToken::Keyword(k) => (1u8, k@, Seq::empty()),
            CMapToken::Array(a) => (2u8, Seq::empty(), a@.map_values(|x: Vec<u8>| x@)),
        }
    }
}

/// Whether a byte is ASCII whitespace (space, tab, line feed, form feed, carriage return).
pub open spec fn is_ws(b: u8) -> bool {
    b == 32 || b == 9 || b == 10 || b == 12 || b == 13
}

fn is_ws_exec(b: u8) -> (r: bool)
    ensures
        r == is_ws(b),
{
    b == 32 || b == 9 || b == 10 || b == 12 || b == 13
}

/// The bytes of `s` other than whitespace.
pub open spec fn drop_ws(s: Seq<u8>) -> Seq<u8>
    decreases s.len(),
{
    if s.len() == 0 {
        s
    } else if is_ws(s.last()) {
        drop_ws(s.drop_last())
    } else {
        drop_ws(s.drop_last()).push(s.last())
    }
}

/// Where a comment that starts at `i` ends: the next line break, or the end.
pub open spec fn comment_end(d: Seq<u8>, i: int) -> int
    decreases d.len() - i,
{
    if i >= d.len() || d[i] == 10 || d[i] == 13 {
        i
    } else {
        comment_end(d, i + 1)
    }
}

/// The position of the next `>` from `i` on, or the end.
pub open spec fn hex_close(d: Seq<u8>, i: int) -> int
    decreases d.len() - i,
{
    if i >= d.len() || d[i] == 0x3E {
        i
    } else {
        hex_close(d, i + 1)
    }
}

/// Where a bare word that starts at `i` ends.
pub open spec fn word_end(d: Seq<u8>, i: int) -> int
    decreases d.len() - i,
{
    if i >= d.len() || is_ws(d[i]) || d[i] == 0x3C || d[i] == 0x5B || d[i] == 0x5D {
        i
    } else {
        word_end(d, i + 1)
    }
}

/// The position after a closing delimiter at `k`, if there is one.
pub open spec fn past(d: Seq<u8>, k: int) -> int {
    if k < d.len() {
        k + 1
    } else {
        k
    }
}

pub proof fn lemma_comment_end(d: Seq<u8>, i: int)
    requires
        0 <= i,
    ensures
        i <= comment_end(d, i),
        comment_end(d, i) <= d.len() || comment_end(d, i) == i,
    decreases d.len() - i,
{
    if !(i >= d.len() || d[i] == 10 || d[i] == 13) {
        lemma_comment_end(d, i + 1);
    }
}

pub proof fn lemma_hex_close(d: Seq<u8>, i: int)
    requires
        0 <= i,
    ensures
        i <= hex_close(d, i),
        hex_close(d, i) <= d.len() || hex_close(d, i) == i,
    decreases d.len() - i,
{
    if !(i >= d.len() || d[i] == 0x3E) {
        lemma_hex_close(d, i + 1);
    }
}

pub proof fn lemma_word_end(d: Seq<u8>, i: int)
    requires
        0 <= i,
    ensures
        i <= word_end(d, i),
        word_end(d, i) <= d.len() || word_end(d, i) == i,
    decreases d.len() - i,
{
    if !(i >= d.len() || is_ws(d[i]) || d[i] == 0x3C || d[i] == 0x5B || d[i] == 0x5D) {
        lemma_word_end(d, i + 1);
    }
}

/// The hex strings of an array whose contents start at `j`, and the
/// position of its closing `]` (or the end).
pub open spec fn array_items(d: Seq<u8>, j: int) -> (Seq<Seq<u8>>, int)
    decreases d.len() - j,
{
    if j < 0 || j >= d.len() || d[j] == 0x5D {
        (Seq::empty(), j)
    } else if d[j] == 0x3C {
        let k = hex_close(d, j + 1);
        proof {
            lemma_hex_close(d, j + 1);
        }
        let rest = array_items(d, past(d, k));
        (seq![drop_ws(d.subrange(j + 1, k))] + rest.0, rest.1)
    } else {
        array_items(d, j + 1)
    }
}

/// The tokens of `d` from position `i` on; `None` where a `]` outside any
/// array would stop the tokenizer from advancing.
pub open spec fn tokens_from(d: Seq<u8>, i: int) -> Option<Seq<TokenView>>
    decreases d.len() - i,
{
    if i < 0 || i >= d.len() {
        Some(Seq::empty())
    } else if is_ws(d[i]) {
        tokens_from(d, i + 1)
    } else if d[i] == 0x25 {
        proof {
            lemma_comment_end(d, i);
        }
        let e = comment_end(d, i);
        if e == i {
            tokens_from(d, i + 1)
        } else {
            tokens_from(d, e)
        }
    } else if d[i] == 0x3C {
        let k = hex_close(d, i + 1);
        proof {
            lemma_hex_close(d, i + 1);
        }
        match tokens_from(d, past(d, k)) {
            Some(t) => Some(seq![(0u8, drop_ws(d.subrange(i + 1, k)), Seq::<Seq<u8>>::empty())] + t),
            None => None,
        }
    } else if d[i] == 0x5B {
        proof {
            lemma_array_items(d, i + 1);
        }
        let a = array_items(d, i + 1);
        match tokens_from(d, past(d, a.1)) {
            Some(t) => Some(seq![(2u8, Seq::<u8>::empty(), a.0)] + t),
            None => None,
        }
    } else {
        let e = word_end(d, i);
        proof {
            lemma_word_end(d, i);
        }
        if e == i {
            None
        } else {
            match tokens_from(d, e) {
                Some(t) => Some(seq![(1u8, d.subrange(i, e), Seq::<Seq<u8>>::empty())] + t),
                None => None,
            }
        }
    }
}

pub proof fn lemma_array_items(d: Seq<u8>, j: int)
    requires
        0 <= j,
    ensures
        j <= array_items(d, j).1,
        array_items(d, j).1 <= d.len() || array_items(d, j).1 == j,
    decreases d.len() - j,
{
    if !(j < 0 || j >= d.len() || d[j] == 0x5D) {
        if d[j] == 0x3C {
            lemma_hex_close(d, j + 1);
            lemma_array_items(d, past(d, hex_close(d, j + 1)));
        } else {
            lemma_array_items(d, j + 1);
        }
    }
}

/// The tokens of a CMap stream, where the tokenizer gets through it.
pub open spec fn cmap_tokens(d: Seq<u8>) -> Option<Seq<TokenView>> {
    tokens_from(d, 0)
}

fn skip_comment(d: &[u8], i: usize) -> (j: usize)
    requires
        i < d.len(),
    ensures
        j == comment_end(d@, i as int),
        i <= j <= d.len(),
{
    let mut j = i;
    while j < d.len() && d[j] != 10 && d[j] != 13
        invariant
            i <= j <= d.len(),
            comment_end(d@, i as int) == comment_end(d@, j as int),
        decreases d.len() - j,
    {
        j = j + 1;
    }
    j
}

/// Reads the hex string whose contents start at `i`; returns its bytes
/// without whitespace and the position after its `>`.
fn read_hex(d: &[u8], i: usize) -> (r: (Vec<u8>, usize))
    requires
        i <= d.len(),
    ensures
        r.0@ == drop_ws(d@.subrange(i as int, hex_close(d@, i as int))),
        r.1 == past(d@, hex_close(d@, i as int)),
        i <= hex_close(d@, i as int) <= d.len(),
        r.1 <= d.len(),
{
    let mut out: Vec<u8> = Vec::new();
    let mut j = i;
    while j < d.len() && d[j] != 0x3E
        invariant
            i <= j <= d.len(),
            hex_close(d@, i as int) == hex_close(d@, j as int),
            out@ == drop_ws(d@.subrange(i as int, j as int)),
        decreases d.len() - j,
    {
        assert(d@.subrange(i as int, j + 1).drop_last() =~= d@.subrange(i as int, j as int));
        if !is_ws_exec(d[j]) {
            out.push(d[j]);
        }
        j = j + 1;
    }
    let next = if j < d.len() { j + 1 } else { j };
    (out, next)
}

fn read_array(d: &[u8], i: usize) -> (r: (Vec<Vec<u8>>, usize))
    requires
        i <= d.len(),
    ensures
        r.0@.map_values(|x: Vec<u8>| x@) == array_items(d@, i as int).0,
        r.1 == array_items(d@, i as int).1,
        i <= r.1 <= d.len(),
{
    let mut items: Vec<Vec<u8>> = Vec::new();
    let mut j = i;
    proof {
        lemma_array_items(d@, i as int);
    }
    while j < d.len() && d[j] != 0x5D
        invariant
            i <= j <= d.len(),
            array_items(d@, i as int).0 == items@.map_values(|x: Vec<u8>| x@) + array_items(
                d@,
                j as int,
            ).0,
            array_items(d@, i as int).1 == array_items(d@, j as int).1,
        decreases d.len() - j,
    {
        if d[j] == 0x3C {
            let (h, next) = read_hex(d, j + 1);
            proof {
                let ghost old_items = items@.map_values(|x: Vec<u8>| x@);
                assert(items@.push(h).map_values(|x: Vec<u8>| x@) =~= old_items.push(h@));
                assert(seq![h@] + array_items(d@, next as int).0 == array_items(d@, j as int).0);
            }
            items.push(h);
            proof {
                assert(array_items(d@, i as int).0 =~= items@.map_values(|x: Vec<u8>| x@)
                    + array_items(d@, next as int).0);
            }
            j = next;
        } else {
            j = j + 1;
        }
    }
    proof {
        lemma_array_items(d@, j as int);
        assert(array_items(d@, j as int).0 =~= Seq::<Seq<u8>>::empty());
        assert(items@.map_values(|x: Vec<u8>| x@) + Seq::<Seq<u8>>::empty() =~= items@.map_values(
            |x: Vec<u8>| x@,
        ));
    }
    (items, j)
}

/// Whether CMap stream data splits into tokens: no `]` stands outside
/// an array (the condition of [`tokenize_cmap`] and
/// [`ToUnicodeCMap::parse`]).
pub fn cmap_tokenizes(data: &[u8]) -> (r: bool)
    ensures
        r == cmap_tokens(data@) is Some,
{
    let mut i: usize = 0;
    while i < data.len()
        invariant
            i <= data.len(),
            (cmap_tokens(data@) is Some) == (tokens_from(data@, i as int) is Some),
        decreases data.len() - i,
    {
        if is_ws_exec(data[i]) {
            i = i + 1;
        } else if data[i] == 0x25 {
            let e = skip_comment(data, i);
            if e == i {
                i = i + 1;
            } else {
                i = e;
            }
        } else if data[i] == 0x3C {
            let (_, next) = read_hex(data, i + 1);
            i = next;
        } else if data[i] == 0x5B {
            let (_, j) = read_array(data, i + 1);
            let next = if j < data.len() { j + 1 } else { j };
            i = next;
        } else {
            let start = i;
            while i < data.len() && !is_ws_exec(data[i]) && data[i] != 0x3C && data[i] != 0x5B
                && data[i] != 0x5D
                invariant
                    start <= i <= data.len(),
                    word_end(data@, start as int) == word_end(data@, i as int),
                decreases data.len() - i,
            {
                i = i + 1;
            }
            if i == start {
                return false;
            }
        }
    }
    true
}

/// Whether the tokenizer gets through a CMap stream: no `]` stands
/// outside an array where a token would start.
pub fn cmap_tokenizable(data: &[u8]) -> (r: bool)
    ensures
        r == (cmap_tokens(data@) is Some),
{
    let mut i: usize = 0;
    while i < data.len()
        invariant
            i <= data.len(),
            (cmap_tokens(data@) is Some) == (tokens_from(data@, i as int) is Some),
        decreases data.len() - i,
    {
        if is_ws_exec(data[i]) {
            i = i + 1;
        } else if data[i] == 0x25 {
            let e = skip_comment(data, i);
            if e == i {
                i = i + 1;
            } else {
                i = e;
            }
        } else if data[i] == 0x3C {
            let (_h, next) = read_hex(data, i + 1);
            i = next;
        } else if data[i] == 0x5B {
            proof {
                lemma_array_items(data@, i + 1);
            }
            let (_a, j) = read_array(data, i + 1);
            let next = if j < data.len() { j + 1 } else { j };
            i = next;
        } else {
            let start = i;
            while i < data.len() && !is_ws_exec(data[i]) && data[i] != 0x3C && data[i] != 0x5B
                && data[i] != 0x5D
                invariant
                    start <= i <= data.len(),
                    word_end(data@, start as int) == word_end(data@, i as int),
                decreases data.len() - i,
            {
                i = i + 1;
            }
            proof {
                lemma_word_end(data@, start as int);
            }
            if i == start {
                return false;
            }
        }
    }
    true
}

/// Splits CMap stream data into tokens. Requires that no `]` stands
/// outside an array, where the tokenizer would make no progress.
pub fn tokenize_cmap(data: &[u8]) -> (r: Vec<CMapToken>)
    requires
        cmap_tokens(data@) is Some,
    ensures
        r@.map_values(|t: CMapToken| t@) == cmap_tokens(data@)->0,
{
    let mut tokens: Vec<CMapToken> = Vec::new();
    let mut i: usize = 0;
    while i < data.len()
        invariant
            i <= data.len(),
            tokens_from(data@, i as int) is Some,
            cmap_tokens(data@)->0 == tokens@.map_values(|t: CMapToken| t@) + tokens_from(
                data@,
                i as int,
            )->0,
            cmap_tokens(data@) is Some,
        decreases data.len() - i,
    {
        let ghost before = tokens@.map_values(|t: CMapToken| t@);
        if is_ws_exec(data[i]) {
            i = i + 1;
        } else if data[i] == 0x25 {
            let e = skip_comment(data, i);
            if e == i {
                i = i + 1;
            } else {
                i = e;
            }
        } else if data[i] == 0x3C {
            let (h, next) = read_hex(data, i + 1);
            let ghost tv = (0u8, h@, Seq::<Seq<u8>>::empty());
            tokens.push(CMapToken::HexString(h));
            proof {
                assert(tokens@.map_values(|t: CMapToken| t@) =~= before.push(tv));
                assert(cmap_tokens(data@)->0 =~= tokens@.map_values(|t: CMapToken| t@) + tokens_from(
                    data@,
                    next as int,
                )->0);
            }
            i = next;
        } else if data[i] == 0x5B {
            let (a, j) = read_array(data, i + 1);
            let next = if j < data.len() { j + 1 } else { j };
            let ghost tv = (2u8, Seq::<u8>::empty(), a@.map_values(|x: Vec<u8>| x@));
            tokens.push(CMapToken::Array(a));
            proof {
                assert(tokens@.map_values(|t: CMapToken| t@) =~= before.push(tv));
                assert(cmap_tokens(data@)->0 =~= tokens@.map_values(|t: CMapToken| t@) + tokens_from(
                    data@,
                    next as int,
                )->0);
            }
            i = next;
        } else {
            let start = i;
            while i < data.len() && !is_ws_exec(data[i]) && data[i] != 0x3C && data[i] != 0x5B
                && data[i] != 0x5D
                invariant
                    start <= i <= data.len(),
                    word_end(data@, start as int) == word_end(data@, i as int),
                decreases data.len() - i,
            {
                i = i + 1;
            }
            let mut w: Vec<u8> = Vec::new();
            let mut k = start;
            while k < i
                invariant
                    start <= k <= i <= data.len(),
                    w@ == data@.subrange(start as int, k as int),
                decreases i - k,
            {
                w.push(data[k]);
                k = k + 1;
                assert(w@ =~= data@.subrange(start as int, k as int));
            }
            let ghost tv = (1u8, w@, Seq::<Seq<u8>>::empty());
            tokens.push(CMapToken::Keyword(w));
            proof {
                assert(tokens@.map_values(|t: CMapToken| t@) =~= before.push(tv));
                assert(cmap_tokens(data@)->0 =~= tokens@.map_values(|t: CMapToken| t@) + tokens_from(
                    data@,
                    i as int,
                )->0);
            }
        }
    }
    proof {
        assert(tokens@.map_values(|t: CMapToken| t@) + Seq::<TokenView>::empty() =~= tokens@.map_values(
            |t: CMapToken| t@,
        ));
    }
    tokens
}


// ---------------------------------------------------------------------------
// Hex strings
// ---------------------------------------------------------------------------

/// The value of a hexadecimal digit byte.
pub open spec fn hex_digit_of(b: u8) -> Option<u8> {
    if 0x30 <= b <= 0x39 {
        Some((b - 0x30) as u8)
    } else if 0x61 <= b <= 0x66 {
        Some((b - 0x61 + 10) as u8)
    } else if 0x41 <= b <= 0x46 {
        Some((b - 0x41 + 10) as u8)
    } else {
        None
    }
}

/// Executable hexadecimal digit value.
pub fn hex_digit(b: u8) -> (r: Option<u8>)
    ensures
        r == hex_digit_of(b),
{
    if 0x30 <= b && b <= 0x39 {
        Some(b - 0x30)
    } else if 0x61 <= b && b <= 0x66 {
        Some(b - 0x61 + 10)
    } else if 0x41 <= b && b <= 0x46 {
        Some(b - 0x41 + 10)
    } else {
        None
    }
}

/// The UTF-8 bytes of the text whose characters are the given bytes
/// taken as Latin-1 code points.
pub open spec fn latin1_utf8(s: Seq<u8>) -> Seq<u8> {
    concat_map(
        s,
        |b: u8|
            if b < 0x80 {
                seq![b]
            } else {
                seq![(0xC0 + b / 64) as u8, (0x80 + b % 64) as u8]
            },
    )
}

/// The message of an invalid hex digit error.
pub open spec fn bad_hex_message(b: u8) -> Seq<char> {
    "Invalid hex char in CMap: "@.push((b as u32) as char)
}

/// The bytes that hex digit pairs from position `i` denote; an odd last
/// digit is padded with 0.
pub open spec fn hex_pairs(raw: Seq<u8>, i: int) -> Result<Seq<u8>, Seq<char>>
    decreases raw.len() - i,
{
    if i < 0 {
        Ok(Seq::empty())
    } else if i + 1 < raw.len() {
        match (hex_digit_of(raw[i]), hex_digit_of(raw[i + 1])) {
            (None, _) => Err(bad_hex_message(raw[i])),
            (Some(_), None) => Err(bad_hex_message(raw[i + 1])),
            (Some(h), Some(l)) => match hex_pairs(raw, i + 2) {
                Ok(rest) => Ok(seq![(h * 16 + l) as u8] + rest),
                Err(e) => Err(e),
            },
        }
    } else if i < raw.len() {
        match hex_digit_of(raw[i]) {
            None => Err(bad_hex_message(raw[i])),
            Some(h) => Ok(seq![(h * 16) as u8]),
        }
    } else {
        Ok(Seq::empty())
    }
}

/// The bytes of a hex string token's text.
pub open spec fn hex_text_bytes(text: Seq<u8>) -> Result<Seq<u8>, Seq<char>> {
    hex_pairs(latin1_utf8(text), 0)
}

/// The UTF-8 bytes of bytes taken as Latin-1 characters.
pub fn latin1_to_utf8(s: &[u8]) -> (r: Vec<u8>)
    ensures
        r@ == latin1_utf8(s@),
{
    let mut out: Vec<u8> = Vec::new();
    let mut i: usize = 0;
    while i < s.len()
        invariant
            i <= s.len(),
            out@ == latin1_utf8(s@.take(i as int)),
        decreases s.len() - i,
    {
        let b = s[i];
        proof {
            crate::seqs::lemma_concat_map_take(
                s@,
                i as int,
                |b: u8|
                    if b < 0x80 {
                        seq![b]
                    } else {
                        seq![(0xC0 + b / 64) as u8, (0x80 + b % 64) as u8]
                    },
            );
        }
        if b < 0x80 {
            out.push(b);
        } else {
            out.push(0xC0 + b / 64);
            out.push(0x80 + b % 64);
        }
        i = i + 1;
    }
    assert(s@.take(s.len() as int) =~= s@);
    out
}

fn hex_message(b: u8) -> (r: String)
    ensures
        r@ == bad_hex_message(b),
{
    let mut out: Vec<char> = Vec::new();
    append_str(&mut out, "Invalid hex char in CMap: ");
    let c = char_from_u32(b as u32);
    proof {
        reveal_strlit("Invalid hex char in CMap: ");
    }
    match c {
        Some(ch) => {
            proof {
                vstd::utf8::char_u32_cast(ch, b as u32);
            }
            out.push(ch);
        },
        None => {},
    }
    string_from_chars(out.as_slice())
}

/// Converts the text of a hex string token into bytes.
pub fn hex_string_to_bytes(hex: &[u8]) -> (r: PdfResult<Vec<u8>>)
    ensures
        match r {
            Ok(v) => hex_text_bytes(hex@) == Ok::<Seq<u8>, Seq<char>>(v@),
            Err(e) => hex_text_bytes(hex@) is Err && (e matches PdfError::EncodingError(m) && m@
                == hex_text_bytes(hex@)->Err_0),
        },
{
    let raw = latin1_to_utf8(hex);
    let mut bytes: Vec<u8> = Vec::new();
    let mut i: usize = 0;
    while raw.len() - i >= 2
        invariant
            i <= raw.len(),
            raw@ == latin1_utf8(hex@),
            hex_pairs(raw@, 0) == match hex_pairs(raw@, i as int) {
                Ok(rest) => Ok(bytes@ + rest),
                Err(e) => Err::<Seq<u8>, Seq<char>>(e),
            },
        decreases raw.len() - i,
    {
        let high = match hex_digit(raw[i]) {
            Some(h) => h,
            None => {
                assert(hex_pairs(raw@, i as int) == Err::<Seq<u8>, Seq<char>>(bad_hex_message(raw@[i as int])));
                return Err(PdfError::EncodingError(hex_message(raw[i])));
            },
        };
        let low = match hex_digit(raw[i + 1]) {
            Some(l) => l,
            None => {
                assert(hex_pairs(raw@, i as int) == Err::<Seq<u8>, Seq<char>>(bad_hex_message(raw@[i + 1])));
                return Err(PdfError::EncodingError(hex_message(raw[i + 1])));
            },
        };
        let ghost old_bytes = bytes@;
        bytes.push(high * 16 + low);
        proof {
            match hex_pairs(raw@, i + 2) {
                Ok(rest) => {
                    assert(old_bytes + (seq![(high * 16 + low) as u8] + rest) =~= bytes@ + rest);
                },
                Err(_) => {},
            }
        }
        i = i + 2;
    }
    if i < raw.len() {
        match hex_digit(raw[i]) {
            Some(h) => {
                let ghost old_bytes = bytes@;
                bytes.push(h * 16);
                assert(hex_pairs(raw@, i as int) == Ok::<Seq<u8>, Seq<char>>(seq![(h * 16) as u8]));
                assert(old_bytes + seq![(h * 16) as u8] =~= bytes@);
            },
            None => {
                assert(hex_pairs(raw@, i as int) == Err::<Seq<u8>, Seq<char>>(bad_hex_message(raw@[i as int])));
                return Err(PdfError::EncodingError(hex_message(raw[i])));
            },
        }
    } else {
        assert(hex_pairs(raw@, i as int) == Ok::<Seq<u8>, Seq<char>>(Seq::empty()));
        assert(bytes@ + Seq::<u8>::empty() =~= bytes@);
    }
    Ok(bytes)
}

/// The string that code bytes stand for: UTF-16BE for an even length
/// (empty where it is not valid), the first byte as a code point for an
/// odd length.
pub open spec fn hex_bytes_text(b: Seq<u8>) -> Seq<char> {
    if b.len() == 0 {
        Seq::empty()
    } else if b.len() % 2 == 1 {
        seq![(b[0] as u32) as char]
    } else {
        match utf16_decode(be_units(b)) {
            Some(s) => s,
            None => Seq::empty(),
        }
    }
}

/// Converts code bytes (big-endian UTF-16) to a string.
pub fn hex_bytes_to_unicode(bytes: &[u8]) -> (r: String)
    ensures
        r@ == hex_bytes_text(bytes@),
{
    if bytes.len() == 0 {
        return string_from_chars(&[]);
    }
    if bytes.len() % 2 == 1 {
        let c = char_from_u32(bytes[0] as u32);
        match c {
            Some(ch) => {
                proof {
                    vstd::utf8::char_u32_cast(ch, bytes[0] as u32);
                }
                let v: Vec<char> = vec![ch];
                return string_from_chars(v.as_slice());
            },
            None => {
                return string_from_chars(&[]);
            },
        }
    }
    match decode_utf16be(bytes) {
        Some(s) => s,
        None => string_from_chars(&[]),
    }
}

// ---------------------------------------------------------------------------
// Code arithmetic
// ---------------------------------------------------------------------------

/// The big-endian value of bytes.
pub open spec fn be_value(s: Seq<u8>) -> nat
    decreases s.len(),
{
    if s.len() == 0 {
        0
    } else {
        be_value(s.drop_last()) * 256 + s.last() as nat
    }
}

/// Two to the power 32.
pub open spec fn two32() -> nat {
    0x1_0000_0000
}

/// The big-endian value of bytes, kept to 32 bits.
pub open spec fn be_u32(s: Seq<u8>) -> nat {
    be_value(s) % two32()
}

/// The distance from `start` to `code`, both read as 32-bit big-endian
/// numbers, modulo 2^32.
pub open spec fn code_distance(code: Seq<u8>, start: Seq<u8>) -> nat {
    ((be_u32(code) - be_u32(start) + two32()) % (two32() as int)) as nat
}

proof fn lemma_shift_in(x: nat, b: u8)
    ensures
        ((x % 0x1_0000_0000) % 0x100_0000) * 256 + b == (x * 256 + b) % 0x1_0000_0000,
{
    let xi = x as int;
    vstd::arithmetic::div_mod::lemma_fundamental_div_mod(xi, 0x1_0000_0000);
    vstd::arithmetic::div_mod::lemma_fundamental_div_mod(xi, 0x100_0000);
    let q1 = xi / 0x1_0000_0000;
    let q2 = xi / 0x100_0000;
    let r = xi % 0x100_0000;
    assert(xi % 0x1_0000_0000 == 0x100_0000 * (-256 * q1) + xi);
    vstd::arithmetic::div_mod::lemma_mod_multiples_vanish(-256 * q1, xi, 0x100_0000);
    assert(xi * 256 + b == q2 * 0x1_0000_0000 + (r * 256 + b));
    vstd::arithmetic::div_mod::lemma_fundamental_div_mod_converse_mod(
        xi * 256 + b,
        0x1_0000_0000,
        q2,
        r * 256 + b,
    );
}

/// Reads bytes as a big-endian number, keeping the low 32 bits.
pub fn bytes_to_u32(bytes: &[u8]) -> (r: u32)
    ensures
        r == be_u32(bytes@),
{
    let mut val: u32 = 0;
    let mut i: usize = 0;
    while i < bytes.len()
        invariant
            i <= bytes.len(),
            val == be_u32(bytes@.take(i as int)),
        decreases bytes.len() - i,
    {
        proof {
            assert(bytes@.take(i + 1).drop_last() =~= bytes@.take(i as int));
            lemma_shift_in(be_value(bytes@.take(i as int)), bytes@[i as int]);
        }
        val = (val % 0x100_0000) * 256 + bytes[i] as u32;
        i = i + 1;
    }
    assert(bytes@.take(bytes.len() as int) =~= bytes@);
    val
}

/// The distance of a code from the start of its range, modulo 2^32.
pub fn code_offset(code: &[u8], start: &[u8]) -> (r: u32)
    ensures
        r == code_distance(code@, start@),
{
    let code_val = bytes_to_u32(code);
    let start_val = bytes_to_u32(start);
    if code_val >= start_val {
        code_val - start_val
    } else {
        ((code_val as u64 + 0x1_0000_0000) - start_val as u64) as u32
    }
}

/// Big-endian addition of `carry` to `base`, in as many bytes as `base`
/// has (a carry out of the first byte is dropped).
pub open spec fn add_be(base: Seq<u8>, carry: nat) -> Seq<u8>
    decreases base.len(),
{
    if base.len() == 0 {
        Seq::empty()
    } else {
        let s: nat = base.last() as nat + carry;
        add_be(base.drop_last(), s / 256).push((s % 256) as u8)
    }
}

/// Adds an offset to a big-endian byte sequence, in as many bytes as the
/// sequence has (a carry out of the first byte is dropped).
pub fn offset_hex_bytes(base: &[u8], offset: u32) -> (r: Vec<u8>)
    ensures
        r@ == add_be(base@, offset as nat),
{
    let mut buf: Vec<u8> = Vec::new();
    let mut k: usize = 0;
    while k < base.len()
        invariant
            k <= base.len(),
            buf@ == base@.take(k as int),
        decreases base.len() - k,
    {
        buf.push(base[k]);
        k = k + 1;
        assert(buf@ =~= base@.take(k as int));
    }
    assert(base@.take(base.len() as int) =~= base@);
    let n = base.len();
    let mut j: usize = n;
    let mut carry: u64 = offset as u64;
    while j > 0
        invariant
            j <= n,
            n == base.len(),
            buf@.len() == n,
            add_be(base@, offset as nat) == add_be(buf@.take(j as int), carry as nat) + buf@.skip(
                j as int,
            ),
            carry <= 0xFFFF_FFFF,
        decreases j,
    {
        let ghost old_buf = buf@;
        let b = buf[j - 1];
        let sum: u64 = b as u64 + carry;
        buf.set(j - 1, (sum % 256) as u8);
        proof {
            assert(old_buf.take(j as int).drop_last() =~= old_buf.take(j - 1));
            assert(old_buf.take(j - 1) =~= buf@.take(j - 1));
            assert(buf@.skip(j - 1) =~= seq![(sum % 256) as u8] + old_buf.skip(j as int));
            assert(add_be(old_buf.take(j as int), carry as nat) == add_be(
                old_buf.take(j - 1),
                (sum / 256) as nat,
            ).push((sum % 256) as u8));
            assert(add_be(buf@.take(j - 1), (sum / 256) as nat).push((sum % 256) as u8)
                + old_buf.skip(j as int) =~= add_be(buf@.take(j - 1), (sum / 256) as nat) + buf@.skip(
                j - 1,
            ));
        }
        carry = sum / 256;
        j = j - 1;
    }
    assert(buf@.take(0) =~= Seq::<u8>::empty());
    assert(buf@.skip(0) =~= buf@);
    buf
}

// ---------------------------------------------------------------------------
// Lexicographic order of byte strings
// ---------------------------------------------------------------------------

/// `a` comes strictly before `b` in lexicographic order.
pub open spec fn lex_lt(a: Seq<u8>, b: Seq<u8>) -> bool
    decreases a.len(),
{
    if a.len() == 0 {
        b.len() > 0
    } else if b.len() == 0 {
        false
    } else if a[0] < b[0] {
        true
    } else if a[0] > b[0] {
        false
    } else {
        lex_lt(a.drop_first(), b.drop_first())
    }
}

/// `a` comes before `b` in lexicographic order, or equals it.
pub open spec fn lex_le(a: Seq<u8>, b: Seq<u8>) -> bool {
    a == b || lex_lt(a, b)
}

/// Lexicographic `a <= b` on byte strings.
pub fn bytes_le(a: &[u8], b: &[u8]) -> (r: bool)
    ensures
        r == lex_le(a@, b@),
{
    let mut i: usize = 0;
    proof {
        assert(a@.skip(0) =~= a@);
        assert(b@.skip(0) =~= b@);
    }
    while i < a.len() && i < b.len()
        invariant
            i <= a.len(),
            i <= b.len(),
            lex_le(a@, b@) == lex_le(a@.skip(i as int), b@.skip(i as int)),
        decreases a.len() - i,
    {
        let ghost sa = a@.skip(i as int);
        let ghost sb = b@.skip(i as int);
        proof {
            assert(sa.drop_first() =~= a@.skip(i + 1));
            assert(sb.drop_first() =~= b@.skip(i + 1));
            assert(sa[0] == a@[i as int]);
            assert(sb[0] == b@[i as int]);
        }
        if a[i] < b[i] {
            return true;
        }
        if a[i] > b[i] {
            proof {
                assert(sa[0] != sb[0]);
            }
            return false;
        }
        proof {
            assert(sa =~= seq![sa[0]] + sa.drop_first());
            assert(sb =~= seq![sb[0]] + sb.drop_first());
            if sa.drop_first() == sb.drop_first() {
                assert(sa =~= sb);
            }
        }
        i = i + 1;
    }
    proof {
        let sa = a@.skip(i as int);
        let sb = b@.skip(i as int);
        if i == a.len() {
            assert(sa.len() == 0);
            if i == b.len() {
                assert(sa =~= sb);
            }
        } else {
            assert(sb.len() == 0);
            assert(sa.len() > 0);
        }
    }
    a.len() <= b.len()
}


// ---------------------------------------------------------------------------
// The CMap
// ---------------------------------------------------------------------------

/// The target of a range mapping.
#[derive(Debug, Clone)]
pub enum CMapTarget {
    /// Base code; each code of the range maps to base + offset.
    Base(Vec<u8>),
    /// One string per code of the range.
    Array(Vec<String>),
}

/// A range mapping from a `bfrange` section.
#[derive(Debug, Clone)]
pub struct CMapRange {
    /// First code of the range.
    pub start: Vec<u8>,
    /// Last code of the range.
    pub end: Vec<u8>,
    /// What the range maps to.
    pub target: CMapTarget,
}

/// A range as plain values: start, end, whether the target is an array,
/// the base (for a base target), the strings (for an array target).
pub type RangeView = (Seq<u8>, Seq<u8>, bool, Seq<u8>, Seq<Seq<char>>);

impl View for CMapRange {
    type V = RangeView;

    open spec fn view(&self) -> RangeView {
        match &self.target {
            CMapTarget::Base(b) => (self.start@, self.end@, false, b@, Seq::empty()),
            CMapTarget::Array(a) => (
                self.start@,
                self.end@,
                true,
                Seq::empty(),
                a@.map_values(|x: String| x@),
            ),
        }
    }
}

/// A CMap as plain values: the single mappings in the order they were
/// read, and the range mappings in order.
pub type CMapView = (Seq<(Seq<u8>, Seq<char>)>, Seq<RangeView>);

/// A parsed ToUnicode CMap that maps character codes to Unicode strings.
#[derive(Debug, Clone)]
pub struct ToUnicodeCMap {
    single_mappings: Vec<(Vec<u8>, String)>,
    range_mappings: Vec<CMapRange>,
}

impl View for ToUnicodeCMap {
    type V = CMapView;

    closed spec fn view(&self) -> CMapView {
        (
            self.single_mappings@.map_values(|p: (Vec<u8>, String)| (p.0@, p.1@)),
            self.range_mappings@.map_values(|r: CMapRange| r@),
        )
    }
}

/// The views of tokens.
pub open spec fn tok_views(t: Seq<CMapToken>) -> Seq<TokenView> {
    t.map_values(|x: CMapToken| x@)
}

/// Whether a token's text is the keyword `kw` (an array has no text).
pub open spec fn tok_is(t: TokenView, kw: Seq<char>) -> bool {
    t.0 != 2 && spells(t.1, kw)
}

/// The bytes of a token that must be a hex string.
pub open spec fn token_hex(t: TokenView) -> Result<Seq<u8>, Seq<char>> {
    if t.0 == 0 {
        hex_text_bytes(t.1)
    } else {
        Err("Expected hex string in CMap"@)
    }
}

/// The strings of the hex strings of an array; the first bad one is an error.
pub open spec fn array_texts(items: Seq<Seq<u8>>) -> Result<Seq<Seq<char>>, Seq<char>>
    decreases items.len(),
{
    if items.len() == 0 {
        Ok(Seq::empty())
    } else {
        match hex_text_bytes(items[0]) {
            Err(e) => Err(e),
            Ok(b) => match array_texts(items.drop_first()) {
                Ok(r) => Ok(seq![hex_bytes_text(b)] + r),
                Err(e) => Err(e),
            },
        }
    }
}

/// The strings of a token that must be an array.
pub open spec fn token_array(t: TokenView) -> Result<Seq<Seq<char>>, Seq<char>> {
    if t.0 == 2 {
        array_texts(t.2)
    } else {
        Err("Expected array in CMap"@)
    }
}

/// Reading `bfchar` entries from token `i` on: the CMap and the position after.
pub open spec fn bfchar_from(toks: Seq<TokenView>, i: int, cm: CMapView) -> Result<
    (CMapView, int),
    Seq<char>,
>
    decreases toks.len() - i,
{
    if i < 0 || i + 1 >= toks.len() {
        Ok((cm, i))
    } else if tok_is(toks[i], "endbfchar"@) {
        Ok((cm, i + 1))
    } else {
        match token_hex(toks[i]) {
            Err(e) => Err(e),
            Ok(src) => match token_hex(toks[i + 1]) {
                Err(e) => Err(e),
                Ok(dst) => bfchar_from(toks, i + 2, (cm.0.push((src, hex_bytes_text(dst))), cm.1)),
            },
        }
    }
}

/// Reading `bfrange` entries from token `i` on: the CMap and the position after.
pub open spec fn bfrange_from(toks: Seq<TokenView>, i: int, cm: CMapView) -> Result<
    (CMapView, int),
    Seq<char>,
>
    decreases toks.len() - i,
{
    if i < 0 || i + 2 >= toks.len() {
        Ok((cm, i))
    } else if tok_is(toks[i], "endbfrange"@) {
        Ok((cm, i + 1))
    } else {
        match token_hex(toks[i]) {
            Err(e) => Err(e),
            Ok(start) => match token_hex(toks[i + 1]) {
                Err(e) => Err(e),
                Ok(end) => if toks[i + 2].0 == 2 {
                    match token_array(toks[i + 2]) {
                        Err(e) => Err(e),
                        Ok(arr) => bfrange_from(
                            toks,
                            i + 3,
                            (cm.0, cm.1.push((start, end, true, Seq::empty(), arr))),
                        ),
                    }
                } else {
                    match token_hex(toks[i + 2]) {
                        Err(e) => Err(e),
                        Ok(base) => bfrange_from(
                            toks,
                            i + 3,
                            (cm.0, cm.1.push((start, end, false, base, Seq::empty()))),
                        ),
                    }
                },
            },
        }
    }
}

pub proof fn lemma_bfchar_from(toks: Seq<TokenView>, i: int, cm: CMapView)
    requires
        0 <= i <= toks.len(),
    ensures
        bfchar_from(toks, i, cm) matches Ok(p) ==> i <= p.1 <= toks.len(),
    decreases toks.len() - i,
{
    if !(i < 0 || i + 1 >= toks.len()) && !tok_is(toks[i], "endbfchar"@) {
        match token_hex(toks[i]) {
            Err(_) => {},
            Ok(src) => match token_hex(toks[i + 1]) {
                Err(_) => {},
                Ok(dst) => lemma_bfchar_from(toks, i + 2, (cm.0.push((src, hex_bytes_text(dst))), cm.1)),
            },
        }
    }
}

pub proof fn lemma_bfrange_from(toks: Seq<TokenView>, i: int, cm: CMapView)
    requires
        0 <= i <= toks.len(),
    ensures
        bfrange_from(toks, i, cm) matches Ok(p) ==> i <= p.1 <= toks.len(),
    decreases toks.len() - i,
{
    if !(i < 0 || i + 2 >= toks.len()) && !tok_is(toks[i], "endbfrange"@) {
        match token_hex(toks[i]) {
            Err(_) => {},
            Ok(start) => match token_hex(toks[i + 1]) {
                Err(_) => {},
                Ok(end) => if toks[i + 2].0 == 2 {
                    match token_array(toks[i + 2]) {
                        Err(_) => {},
                        Ok(arr) => lemma_bfrange_from(
                            toks,
                            i + 3,
                            (cm.0, cm.1.push((start, end, true, Seq::empty(), arr))),
                        ),
                    }
                } else {
                    match token_hex(toks[i + 2]) {
                        Err(_) => {},
                        Ok(base) => lemma_bfrange_from(
                            toks,
                            i + 3,
                            (cm.0, cm.1.push((start, end, false, base, Seq::empty()))),
                        ),
                    }
                },
            },
        }
    }
}

/// Reading a CMap's tokens from position `i` on.
pub open spec fn parse_from(toks: Seq<TokenView>, i: int, cm: CMapView) -> Result<CMapView, Seq<char>>
    decreases toks.len() - i,
{
    if i < 0 || i >= toks.len() {
        Ok(cm)
    } else if tok_is(toks[i], "beginbfchar"@) {
        proof {
            lemma_bfchar_from(toks, i + 1, cm);
        }
        match bfchar_from(toks, i + 1, cm) {
            Err(e) => Err(e),
            Ok(p) => parse_from(toks, p.1, p.0),
        }
    } else if tok_is(toks[i], "beginbfrange"@) {
        proof {
            lemma_bfrange_from(toks, i + 1, cm);
        }
        match bfrange_from(toks, i + 1, cm) {
            Err(e) => Err(e),
            Ok(p) => parse_from(toks, p.1, p.0),
        }
    } else {
        parse_from(toks, i + 1, cm)
    }
}

/// The CMap that a stream describes, or the message of its error.
pub open spec fn cmap_parse(d: Seq<u8>) -> Result<CMapView, Seq<char>> {
    parse_from(cmap_tokens(d)->0, 0, (Seq::empty(), Seq::empty()))
}

proof fn lemma_bfchar_shift(p: Seq<TokenView>, t: Seq<TokenView>, i: int, cm: CMapView)
    requires
        0 <= i,
    ensures
        bfchar_from(p + t, i + p.len(), cm) == match bfchar_from(t, i, cm) {
            Ok(r) => Ok::<(CMapView, int), Seq<char>>((r.0, r.1 + p.len())),
            Err(e) => Err(e),
        },
    decreases t.len() - i,
{
    let pt = p + t;
    if i + 1 < t.len() {
        assert(pt[i + p.len()] == t[i]);
        assert(pt[i + 1 + p.len()] == t[i + 1]);
        match token_hex(t[i]) {
            Ok(src) => match token_hex(t[i + 1]) {
                Ok(dst) => lemma_bfchar_shift(p, t, i + 2, (cm.0.push((src, hex_bytes_text(dst))), cm.1)),
                Err(_) => {},
            },
            Err(_) => {},
        }
    }
}

proof fn lemma_bfrange_shift(p: Seq<TokenView>, t: Seq<TokenView>, i: int, cm: CMapView)
    requires
        0 <= i,
    ensures
        bfrange_from(p + t, i + p.len(), cm) == match bfrange_from(t, i, cm) {
            Ok(r) => Ok::<(CMapView, int), Seq<char>>((r.0, r.1 + p.len())),
            Err(e) => Err(e),
        },
    decreases t.len() - i,
{
    let pt = p + t;
    if i + 2 < t.len() {
        assert(pt[i + p.len()] == t[i]);
        assert(pt[i + 1 + p.len()] == t[i + 1]);
        assert(pt[i + 2 + p.len()] == t[i + 2]);
        match token_hex(t[i]) {
            Ok(start) => match token_hex(t[i + 1]) {
                Ok(end) => {
                    match token_array(t[i + 2]) {
                        Ok(arr) => lemma_bfrange_shift(p, t, i + 3, (cm.0, cm.1.push((start, end, true, Seq::empty(), arr)))),
                        Err(_) => {},
                    }
                    match token_hex(t[i + 2]) {
                        Ok(base) => lemma_bfrange_shift(p, t, i + 3, (cm.0, cm.1.push((start, end, false, base, Seq::empty())))),
                        Err(_) => {},
                    }
                },
                Err(_) => {},
            },
            Err(_) => {},
        }
    }
}

/// Parsing does not depend on what comes before the position it starts
/// from.
proof fn lemma_parse_shift(p: Seq<TokenView>, t: Seq<TokenView>, i: int, cm: CMapView)
    requires
        0 <= i,
    ensures
        parse_from(p + t, i + p.len(), cm) == parse_from(t, i, cm),
    decreases t.len() - i,
{
    let pt = p + t;
    if i < t.len() {
        assert(pt[i + p.len()] == t[i]);
        lemma_bfchar_shift(p, t, i + 1, cm);
        lemma_bfrange_shift(p, t, i + 1, cm);
        lemma_bfchar_from(t, i + 1, cm);
        lemma_bfrange_from(t, i + 1, cm);
        if tok_is(t[i], "beginbfchar"@) {
            match bfchar_from(t, i + 1, cm) {
                Ok(r) => lemma_parse_shift(p, t, r.1, r.0),
                Err(_) => {},
            }
        } else if tok_is(t[i], "beginbfrange"@) {
            match bfrange_from(t, i + 1, cm) {
                Ok(r) => lemma_parse_shift(p, t, r.1, r.0),
                Err(_) => {},
            }
        } else {
            lemma_parse_shift(p, t, i + 1, cm);
        }
    }
}

/// The tokens of `bfchar` entries: each source code followed by its
/// destination.
pub open spec fn pair_tokens(pairs: Seq<(TokenView, TokenView)>) -> Seq<TokenView>
    decreases pairs.len(),
{
    if pairs.len() == 0 {
        Seq::empty()
    } else {
        pair_tokens(pairs.drop_last()) + seq![pairs.last().0, pairs.last().1]
    }
}

/// The mappings that `bfchar` entries stand for: each source code's bytes
/// with the text of its destination's bytes.
pub open spec fn pair_mappings(pairs: Seq<(TokenView, TokenView)>) -> Seq<(Seq<u8>, Seq<char>)> {
    pairs.map_values(|q: (TokenView, TokenView)| (token_hex(q.0)->Ok_0, hex_bytes_text(token_hex(q.1)->Ok_0)))
}

proof fn lemma_pair_tokens(pairs: Seq<(TokenView, TokenView)>)
    ensures
        pair_tokens(pairs).len() == 2 * pairs.len(),
        forall|k: int| 0 <= k < pairs.len() ==> pair_tokens(pairs)[2 * k] == #[trigger] pairs[k].0 && pair_tokens(pairs)[2 * k + 1] == pairs[k].1,
    decreases pairs.len(),
{
    if pairs.len() > 0 {
        let pre = pairs.drop_last();
        lemma_pair_tokens(pre);
        let t = pair_tokens(pairs);
        assert(t == pair_tokens(pre) + seq![pairs.last().0, pairs.last().1]);
        assert forall|k: int| 0 <= k < pairs.len() implies t[2 * k] == #[trigger] pairs[k].0 && t[2 * k + 1] == pairs[k].1 by {
            if k < pre.len() {
                assert(pre[k] == pairs[k]);
                assert(t[2 * k] == pair_tokens(pre)[2 * k]);
                assert(t[2 * k + 1] == pair_tokens(pre)[2 * k + 1]);
            }
        }
    }
}

proof fn lemma_bfchar_entries(
    toks: Seq<TokenView>,
    pairs: Seq<(TokenView, TokenView)>,
    cm: CMapView,
    k: int,
)
    requires
        0 <= k <= pairs.len(),
        toks.len() > 1 + 2 * pairs.len(),
        forall|m: int| 0 <= m < pairs.len() ==> toks[1 + 2 * m] == #[trigger] pairs[m].0 && toks[2 + 2 * m] == pairs[m].1,
        forall|m: int| 0 <= m < pairs.len() ==> #[trigger] token_hex(pairs[m].0) is Ok && token_hex(pairs[m].1) is Ok
            && !tok_is(pairs[m].0, "endbfchar"@),
    ensures
        bfchar_from(toks, 1 + 2 * k, (cm.0 + pair_mappings(pairs).take(k), cm.1)) == bfchar_from(
            toks,
            1 + 2 * (pairs.len() as int),
            (cm.0 + pair_mappings(pairs), cm.1),
        ),
    decreases pairs.len() - k,
{
    let maps = pair_mappings(pairs);
    if k < pairs.len() {
        assert(toks[1 + 2 * k] == pairs[k].0);
        assert(token_hex(pairs[k].0) is Ok);
        assert((cm.0 + maps.take(k)).push(maps[k]) =~= cm.0 + maps.take(k + 1));
        lemma_bfchar_entries(toks, pairs, cm, k + 1);
        assert(1 + 2 * (k + 1) == 1 + 2 * k + 2);
    } else {
        assert(maps.take(k) =~= maps);
    }
}

/// Every `bfchar` section counts: a section `beginbfchar`, entries,
/// `endbfchar`, followed by any tokens, reads as the section's mappings
/// added to the map, then the following tokens read on from there.
pub proof fn lemma_bfchar_section(
    bt: TokenView,
    pairs: Seq<(TokenView, TokenView)>,
    et: TokenView,
    rest: Seq<TokenView>,
    cm: CMapView,
)
    requires
        tok_is(bt, "beginbfchar"@),
        tok_is(et, "endbfchar"@),
        forall|m: int| 0 <= m < pairs.len() ==> #[trigger] token_hex(pairs[m].0) is Ok && token_hex(pairs[m].1) is Ok
            && !tok_is(pairs[m].0, "endbfchar"@),
    ensures
        parse_from(seq![bt] + pair_tokens(pairs) + seq![et] + rest, 0, cm) == parse_from(
            rest,
            0,
            (cm.0 + pair_mappings(pairs), cm.1),
        ),
{
    reveal_strlit("beginbfchar");
    reveal_strlit("beginbfrange");
    reveal_strlit("endbfchar");
    let head = seq![bt] + pair_tokens(pairs) + seq![et];
    let toks = head + rest;
    let n = pairs.len() as int;
    let e = 1 + 2 * n;
    lemma_pair_tokens(pairs);
    assert(toks[0] == bt);
    assert(toks[e] == et);
    assert forall|m: int| 0 <= m < pairs.len() implies toks[1 + 2 * m] == #[trigger] pairs[m].0 && toks[2 + 2 * m]
        == pairs[m].1 by {
        assert(pair_tokens(pairs)[2 * m] == pairs[m].0);
    }
    assert(cm.0 + pair_mappings(pairs).take(0) =~= cm.0);
    lemma_bfchar_entries(toks, pairs, cm, 0);
    let cm2 = (cm.0 + pair_mappings(pairs), cm.1);
    assert(!tok_is(et, "beginbfchar"@));
    assert(!tok_is(et, "beginbfrange"@));
    if rest.len() == 0 {
        assert(toks.len() == e + 1);
        assert(bfchar_from(toks, e, cm2) == Ok::<(CMapView, int), Seq<char>>((cm2, e)));
        assert(parse_from(toks, e + 1, cm2) == Ok::<CMapView, Seq<char>>(cm2));
        assert(parse_from(toks, e, cm2) == Ok::<CMapView, Seq<char>>(cm2));
    } else {
        assert(bfchar_from(toks, e, cm2) == Ok::<(CMapView, int), Seq<char>>((cm2, e + 1)));
        lemma_parse_shift(head, rest, 0, cm2);
    }
    assert(bfchar_from(toks, 1, cm) == bfchar_from(toks, e, cm2));
}

/// The tokens of `bfrange` entries: each start code, end code and
/// destination (a hex string or an array).
pub open spec fn triple_tokens(ts: Seq<(TokenView, TokenView, TokenView)>) -> Seq<TokenView>
    decreases ts.len(),
{
    if ts.len() == 0 {
        Seq::empty()
    } else {
        triple_tokens(ts.drop_last()) + seq![ts.last().0, ts.last().1, ts.last().2]
    }
}

/// Whether a token is a valid `bfrange` destination: an array of hex
/// strings, or a hex string.
pub open spec fn range_dest_ok(t: TokenView) -> bool {
    if t.0 == 2 {
        token_array(t) is Ok
    } else {
        token_hex(t) is Ok
    }
}

/// The ranges that `bfrange` entries stand for.
pub open spec fn triple_ranges(ts: Seq<(TokenView, TokenView, TokenView)>) -> Seq<RangeView> {
    ts.map_values(
        |q: (TokenView, TokenView, TokenView)|
            if q.2.0 == 2 {
                (token_hex(q.0)->Ok_0, token_hex(q.1)->Ok_0, true, Seq::<u8>::empty(), token_array(q.2)->Ok_0)
            } else {
                (token_hex(q.0)->Ok_0, token_hex(q.1)->Ok_0, false, token_hex(q.2)->Ok_0, Seq::<Seq<char>>::empty())
            },
    )
}

proof fn lemma_triple_tokens(ts: Seq<(TokenView, TokenView, TokenView)>)
    ensures
        triple_tokens(ts).len() == 3 * ts.len(),
        forall|k: int| 0 <= k < ts.len() ==> triple_tokens(ts)[3 * k] == #[trigger] ts[k].0 && triple_tokens(ts)[3 * k + 1]
            == ts[k].1 && triple_tokens(ts)[3 * k + 2] == ts[k].2,
    decreases ts.len(),
{
    if ts.len() > 0 {
        let pre = ts.drop_last();
        lemma_triple_tokens(pre);
        let t = triple_tokens(ts);
        assert(t == triple_tokens(pre) + seq![ts.last().0, ts.last().1, ts.last().2]);
        assert forall|k: int| 0 <= k < ts.len() implies t[3 * k] == #[trigger] ts[k].0 && t[3 * k + 1] == ts[k].1 && t[3 * k + 2]
            == ts[k].2 by {
            if k < pre.len() {
                assert(pre[k] == ts[k]);
                assert(t[3 * k] == triple_tokens(pre)[3 * k]);
                assert(t[3 * k + 1] == triple_tokens(pre)[3 * k + 1]);
                assert(t[3 * k + 2] == triple_tokens(pre)[3 * k + 2]);
            }
        }
    }
}

proof fn lemma_bfrange_entries(
    toks: Seq<TokenView>,
    ts: Seq<(TokenView, TokenView, TokenView)>,
    cm: CMapView,
    k: int,
)
    requires
        0 <= k <= ts.len(),
        toks.len() > 1 + 3 * ts.len(),
        forall|m: int| 0 <= m < ts.len() ==> toks[1 + 3 * m] == #[trigger] ts[m].0 && toks[2 + 3 * m] == ts[m].1
            && toks[3 + 3 * m] == ts[m].2,
        forall|m: int| 0 <= m < ts.len() ==> #[trigger] token_hex(ts[m].0) is Ok && token_hex(ts[m].1) is Ok
            && range_dest_ok(ts[m].2) && !tok_is(ts[m].0, "endbfrange"@),
    ensures
        bfrange_from(toks, 1 + 3 * k, (cm.0, cm.1 + triple_ranges(ts).take(k))) == bfrange_from(
            toks,
            1 + 3 * (ts.len() as int),
            (cm.0, cm.1 + triple_ranges(ts)),
        ),
    decreases ts.len() - k,
{
    let rs = triple_ranges(ts);
    if k < ts.len() {
        assert(toks[1 + 3 * k] == ts[k].0);
        assert(token_hex(ts[k].0) is Ok);
        assert((cm.1 + rs.take(k)).push(rs[k]) =~= cm.1 + rs.take(k + 1));
        lemma_bfrange_entries(toks, ts, cm, k + 1);
        assert(1 + 3 * (k + 1) == 1 + 3 * k + 3);
    } else {
        assert(rs.take(k) =~= rs);
    }
}

/// Every `bfrange` section counts: a section `beginbfrange`, entries,
/// `endbfrange`, followed by any tokens, reads as the section's ranges
/// added to the map, then the following tokens read on from there.
pub proof fn lemma_bfrange_section(
    bt: TokenView,
    ts: Seq<(TokenView, TokenView, TokenView)>,
    et: TokenView,
    rest: Seq<TokenView>,
    cm: CMapView,
)
    requires
        tok_is(bt, "beginbfrange"@),
        tok_is(et, "endbfrange"@),
        forall|m: int| 0 <= m < ts.len() ==> #[trigger] token_hex(ts[m].0) is Ok && token_hex(ts[m].1) is Ok
            && range_dest_ok(ts[m].2) && !tok_is(ts[m].0, "endbfrange"@),
    ensures
        parse_from(seq![bt] + triple_tokens(ts) + seq![et] + rest, 0, cm) == parse_from(
            rest,
            0,
            (cm.0, cm.1 + triple_ranges(ts)),
        ),
{
    reveal_strlit("beginbfchar");
    reveal_strlit("beginbfrange");
    reveal_strlit("endbfrange");
    let head = seq![bt] + triple_tokens(ts) + seq![et];
    let toks = head + rest;
    let n = ts.len() as int;
    let e = 1 + 3 * n;
    lemma_triple_tokens(ts);
    assert(toks[0] == bt);
    assert(toks[e] == et);
    assert forall|m: int| 0 <= m < ts.len() implies toks[1 + 3 * m] == #[trigger] ts[m].0 && toks[2 + 3 * m] == ts[m].1
        && toks[3 + 3 * m] == ts[m].2 by {
        assert(triple_tokens(ts)[3 * m] == ts[m].0);
    }
    assert(cm.1 + triple_ranges(ts).take(0) =~= cm.1);
    lemma_bfrange_entries(toks, ts, cm, 0);
    let cm2 = (cm.0, cm.1 + triple_ranges(ts));
    assert(!tok_is(bt, "beginbfchar"@));
    assert(!tok_is(et, "beginbfchar"@));
    assert(!tok_is(et, "beginbfrange"@));
    if rest.len() <= 1 {
        assert(toks.len() <= e + 2);
        assert(bfrange_from(toks, e, cm2) == Ok::<(CMapView, int), Seq<char>>((cm2, e)));
        if rest.len() == 0 {
            assert(parse_from(toks, e + 1, cm2) == Ok::<CMapView, Seq<char>>(cm2));
        } else {
            lemma_parse_shift(head, rest, 0, cm2);
        }
        assert(parse_from(toks, e, cm2) == parse_from(toks, e + 1, cm2));
    } else {
        assert(bfrange_from(toks, e, cm2) == Ok::<(CMapView, int), Seq<char>>((cm2, e + 1)));
        lemma_parse_shift(head, rest, 0, cm2);
    }
    assert(bfrange_from(toks, 1, cm) == bfrange_from(toks, e, cm2));
}

/// The most recent single mapping of `code`.
pub open spec fn single_lookup(s: Seq<(Seq<u8>, Seq<char>)>, code: Seq<u8>) -> Option<Seq<char>>
    decreases s.len(),
{
    if s.len() == 0 {
        None
    } else if s.last().0 == code {
        Some(s.last().1)
    } else {
        single_lookup(s.drop_last(), code)
    }
}

/// Whether `code` lies in a range: same length as its start, and between
/// its start and end in lexicographic order.
pub open spec fn range_matches(r: RangeView, code: Seq<u8>) -> bool {
    code.len() == r.0.len() && lex_le(r.0, code) && lex_le(code, r.1)
}

/// The string the ranges give for `code`, from range `k` on.
pub open spec fn range_lookup(rs: Seq<RangeView>, code: Seq<u8>, k: int) -> Option<Seq<char>>
    decreases rs.len() - k,
{
    if k < 0 || k >= rs.len() {
        None
    } else if range_matches(rs[k], code) {
        let off = code_distance(code, rs[k].0);
        if !rs[k].2 {
            Some(hex_bytes_text(add_be(rs[k].3, off)))
        } else if off < rs[k].4.len() {
            Some(rs[k].4[off as int])
        } else {
            range_lookup(rs, code, k + 1)
        }
    } else {
        range_lookup(rs, code, k + 1)
    }
}

/// The string a CMap gives for a code: a single mapping first, then the ranges.
pub open spec fn cmap_lookup(cm: CMapView, code: Seq<u8>) -> Option<Seq<char>> {
    match single_lookup(cm.0, code) {
        Some(s) => Some(s),
        None => range_lookup(cm.1, code, 0),
    }
}

fn token_is(t: &CMapToken, kw: &str) -> (r: bool)
    ensures
        r == tok_is(t@, kw@),
{
    let chars = str_chars(kw);
    match t {
        CMapToken::HexString(h) => bytes_spell(h.as_slice(), chars.as_slice()),
        CMapToken::Keyword(k) => bytes_spell(k.as_slice(), chars.as_slice()),
        CMapToken::Array(_) => false,
    }
}

fn encoding_error(msg: &str) -> (r: PdfError)
    ensures
        r matches PdfError::EncodingError(m) && m@ == msg@,
{
    let mut out: Vec<char> = Vec::new();
    append_str(&mut out, msg);
    PdfError::EncodingError(string_from_chars(out.as_slice()))
}

/// Parses a hex string token into bytes.
fn parse_hex_token(token: &CMapToken) -> (r: PdfResult<Vec<u8>>)
    ensures
        match r {
            Ok(v) => token_hex(token@) == Ok::<Seq<u8>, Seq<char>>(v@),
            Err(e) => token_hex(token@) is Err && (e matches PdfError::EncodingError(m) && m@
                == token_hex(token@)->Err_0),
        },
{
    match token {
        CMapToken::HexString(h) => hex_string_to_bytes(h.as_slice()),
        _ => Err(encoding_error("Expected hex string in CMap")),
    }
}

/// Parses an array token into its strings.
fn parse_array_token(token: &CMapToken) -> (r: PdfResult<Vec<String>>)
    ensures
        match r {
            Ok(v) => token_array(token@) == Ok::<Seq<Seq<char>>, Seq<char>>(
                v@.map_values(|x: String| x@),
            ),
            Err(e) => token_array(token@) is Err && (e matches PdfError::EncodingError(m) && m@
                == token_array(token@)->Err_0),
        },
{
    let arr = match token {
        CMapToken::Array(a) => a,
        _ => {
            return Err(encoding_error("Expected array in CMap"));
        },
    };
    let ghost items = arr@.map_values(|x: Vec<u8>| x@);
    let mut out: Vec<String> = Vec::new();
    let mut i: usize = 0;
    proof {
        assert(items.skip(0) =~= items);
        match array_texts(items) {
            Ok(r) => {
                assert(out@.map_values(|x: String| x@) + r =~= r);
            },
            Err(_) => {},
        }
    }
    while i < arr.len()
        invariant
            i <= arr.len(),
            items == arr@.map_values(|x: Vec<u8>| x@),
            token_array(token@) == array_texts(items),
            array_texts(items) == match array_texts(items.skip(i as int)) {
                Ok(r) => Ok(out@.map_values(|x: String| x@) + r),
                Err(e) => Err::<Seq<Seq<char>>, Seq<char>>(e),
            },
        decreases arr.len() - i,
    {
        proof {
            assert(items.skip(i as int)[0] == arr@[i as int]@);
            assert(items.skip(i as int).drop_first() =~= items.skip(i + 1));
        }
        let b = match hex_string_to_bytes(arr[i].as_slice()) {
            Ok(b) => b,
            Err(e) => {
                return Err(e);
            },
        };
        let text = hex_bytes_to_unicode(b.as_slice());
        let ghost old_out = out@.map_values(|x: String| x@);
        out.push(text);
        proof {
            assert(out@.map_values(|x: String| x@) =~= old_out.push(text@));
            match array_texts(items.skip(i + 1)) {
                Ok(r) => {
                    assert(old_out + (seq![text@] + r) =~= out@.map_values(|x: String| x@) + r);
                },
                Err(_) => {},
            }
        }
        i = i + 1;
    }
    proof {
        assert(items.skip(i as int) =~= Seq::<Seq<u8>>::empty());
        assert(out@.map_values(|x: String| x@) + Seq::<Seq<char>>::empty() =~= out@.map_values(
            |x: String| x@,
        ));
    }
    Ok(out)
}

impl ToUnicodeCMap {
    /// Parses a ToUnicode CMap from stream data. Requires that the
    /// tokenizer gets through the data (no `]` outside an array).
    pub fn parse(data: &[u8]) -> (r: PdfResult<ToUnicodeCMap>)
        requires
            cmap_tokens(data@) is Some,
        ensures
            match r {
                Ok(c) => cmap_parse(data@) == Ok::<CMapView, Seq<char>>(c@),
                Err(e) => cmap_parse(data@) is Err && (e matches PdfError::EncodingError(m) && m@
                    == cmap_parse(data@)->Err_0),
            },
    {
        let tokens = tokenize_cmap(data);
        let ghost toks = tok_views(tokens@);
        let mut cmap = ToUnicodeCMap { single_mappings: Vec::new(), range_mappings: Vec::new() };
        proof {
            assert(cmap@.0 =~= Seq::<(Seq<u8>, Seq<char>)>::empty());
            assert(cmap@.1 =~= Seq::<RangeView>::empty());
        }
        let mut i: usize = 0;
        while i < tokens.len()
            invariant
                i <= tokens.len(),
                toks == tok_views(tokens@),
                toks == cmap_tokens(data@)->0,
                cmap_parse(data@) == parse_from(toks, i as int, cmap@),
            decreases tokens.len() - i,
        {
            if token_is(&tokens[i], "beginbfchar") {
                proof {
                    reveal_strlit("beginbfchar");
                    lemma_bfchar_from(toks, i + 1, cmap@);
                }
                match cmap.parse_bfchar(tokens.as_slice(), i + 1) {
                    Ok(j) => {
                        i = j;
                    },
                    Err(e) => {
                        return Err(e);
                    },
                }
            } else if token_is(&tokens[i], "beginbfrange") {
                proof {
                    reveal_strlit("beginbfrange");
                    lemma_bfrange_from(toks, i + 1, cmap@);
                }
                match cmap.parse_bfrange(tokens.as_slice(), i + 1) {
                    Ok(j) => {
                        i = j;
                    },
                    Err(e) => {
                        return Err(e);
                    },
                }
            } else {
                i = i + 1;
            }
        }
        Ok(cmap)
    }

    /// Parses `bfchar` entries until `endbfchar`.
    fn parse_bfchar(&mut self, tokens: &[CMapToken], i0: usize) -> (r: PdfResult<usize>)
        requires
            i0 <= tokens.len(),
        ensures
            match r {
                Ok(j) => bfchar_from(tok_views(tokens@), i0 as int, old(self)@) == Ok::<
                    (CMapView, int),
                    Seq<char>,
                >((final(self)@, j as int)),
                Err(e) => bfchar_from(tok_views(tokens@), i0 as int, old(self)@) is Err && (e matches PdfError::EncodingError(m)
                    && m@ == bfchar_from(tok_views(tokens@), i0 as int, old(self)@)->Err_0),
            },
    {
        let ghost toks = tok_views(tokens@);
        let mut i = i0;
        while tokens.len() - i >= 2
            invariant
                i0 <= i <= tokens.len(),
                toks == tok_views(tokens@),
                bfchar_from(toks, i0 as int, old(self)@) == bfchar_from(toks, i as int, self@),
            decreases tokens.len() - i,
        {
            proof {
                reveal_strlit("endbfchar");
            }
            if token_is(&tokens[i], "endbfchar") {
                return Ok(i + 1);
            }
            let src = match parse_hex_token(&tokens[i]) {
                Ok(v) => v,
                Err(e) => {
                    return Err(e);
                },
            };
            let dst = match parse_hex_token(&tokens[i + 1]) {
                Ok(v) => v,
                Err(e) => {
                    return Err(e);
                },
            };
            let text = hex_bytes_to_unicode(dst.as_slice());
            let ghost old_view = self@;
            self.single_mappings.push((src, text));
            proof {
                assert(self@.0 =~= old_view.0.push((src@, text@)));
                assert(self@.1 =~= old_view.1);
            }
            i = i + 2;
        }
        Ok(i)
    }

    /// Parses `bfrange` entries until `endbfrange`.
    fn parse_bfrange(&mut self, tokens: &[CMapToken], i0: usize) -> (r: PdfResult<usize>)
        requires
            i0 <= tokens.len(),
        ensures
            match r {
                Ok(j) => bfrange_from(tok_views(tokens@), i0 as int, old(self)@) == Ok::<
                    (CMapView, int),
                    Seq<char>,
                >((final(self)@, j as int)),
                Err(e) => bfrange_from(tok_views(tokens@), i0 as int, old(self)@) is Err && (e matches PdfError::EncodingError(m)
                    && m@ == bfrange_from(tok_views(tokens@), i0 as int, old(self)@)->Err_0),
            },
    {
        let ghost toks = tok_views(tokens@);
        let mut i = i0;
        while tokens.len() - i >= 3
            invariant
                i0 <= i <= tokens.len(),
                toks == tok_views(tokens@),
                bfrange_from(toks, i0 as int, old(self)@) == bfrange_from(toks, i as int, self@),
            decreases tokens.len() - i,
        {
            proof {
                reveal_strlit("endbfrange");
            }
            if token_is(&tokens[i], "endbfrange") {
                return Ok(i + 1);
            }
            let start = match parse_hex_token(&tokens[i]) {
                Ok(v) => v,
                Err(e) => {
                    return Err(e);
                },
            };
            let end = match parse_hex_token(&tokens[i + 1]) {
                Ok(v) => v,
                Err(e) => {
                    return Err(e);
                },
            };
            let is_array = match &tokens[i + 2] {
                CMapToken::Array(_) => true,
                _ => false,
            };
            let target = if is_array {
                match parse_array_token(&tokens[i + 2]) {
                    Ok(a) => CMapTarget::Array(a),
                    Err(e) => {
                        return Err(e);
                    },
                }
            } else {
                match parse_hex_token(&tokens[i + 2]) {
                    Ok(b) => CMapTarget::Base(b),
                    Err(e) => {
                        return Err(e);
                    },
                }
            };
            let range = CMapRange { start, end, target };
            let ghost old_view = self@;
            self.range_mappings.push(range);
            proof {
                assert(self@.1 =~= old_view.1.push(range@));
                assert(self@.0 =~= old_view.0);
            }
            i = i + 3;
        }
        Ok(i)
    }

    /// Maps a character code to its Unicode string: the most recent single
    /// mapping of the code, else the first range that covers it.
    pub fn map_code(&self, code: &[u8]) -> (r: Option<String>)
        ensures
            match r {
                Some(s) => cmap_lookup(self@, code@) == Some(s@),
                None => cmap_lookup(self@, code@) is None,
            },
    {
        let ghost singles = self@.0;
        let mut k: usize = self.single_mappings.len();
        proof {
            assert(singles.take(k as int) =~= singles);
        }
        while k > 0
            invariant
                k <= self.single_mappings@.len(),
                singles == self@.0,
                single_lookup(singles, code@) == single_lookup(singles.take(k as int), code@),
            decreases k,
        {
            let entry = &self.single_mappings[k - 1];
            proof {
                assert(singles.take(k as int).drop_last() =~= singles.take(k - 1));
                assert(singles.take(k as int).last() == (entry.0@, entry.1@));
            }
            if bytes_eq(entry.0.as_slice(), code) {
                return Some(entry.1.clone());
            }
            k = k - 1;
        }
        let ghost rs = self@.1;
        let mut j: usize = 0;
        while j < self.range_mappings.len()
            invariant
                j <= self.range_mappings@.len(),
                rs == self@.1,
                single_lookup(self@.0, code@) is None,
                cmap_lookup(self@, code@) == range_lookup(rs, code@, j as int),
            decreases self.range_mappings@.len() - j,
        {
            let range = &self.range_mappings[j];
            proof {
                assert(rs[j as int] == range@);
            }
            if code.len() == range.start.len() && bytes_le(range.start.as_slice(), code)
                && bytes_le(code, range.end.as_slice()) {
                let offset = code_offset(code, range.start.as_slice());
                match &range.target {
                    CMapTarget::Base(base) => {
                        let buf = offset_hex_bytes(base.as_slice(), offset);
                        return Some(hex_bytes_to_unicode(buf.as_slice()));
                    },
                    CMapTarget::Array(arr) => {
                        if (offset as usize) < arr.len() {
                            return Some(arr[offset as usize].clone());
                        }
                    },
                }
            }
            j = j + 1;
        }
        None
    }
}


/// Whether two byte slices are equal.
pub fn bytes_eq(a: &[u8], b: &[u8]) -> (r: bool)
    ensures
        r == (a@ == b@),
{
    if a.len() != b.len() {
        return false;
    }
    let mut i: usize = 0;
    while i < a.len()
        invariant
            i <= a.len(),
            a.len() == b.len(),
            forall|k: int| 0 <= k < i ==> a@[k] == b@[k],
        decreases a.len() - i,
    {
        if a[i] != b[i] {
            return false;
        }
        i = i + 1;
    }
    assert(a@ =~= b@);
    true
}

} // verus!
