//! Text extraction from content streams: the text-showing operators (`Tj`,
//! `TJ`, `'`, `"`) decoded through the current font, with line breaks and
//! spaces from the positioning operators.
use vstd::prelude::*;
use crate::content::lexer::{
    lex_error_matches, lex_from, token_views, tokenize_content_stream, ArrayItem, ContentToken,
    ItemView, NumView, Operand, OperandView, PdfNumber, TokView,
};
use crate::error::PdfError;
use crate::fonts::font::Font;
use crate::objects::decode_utf16be;
use crate::seqs::concat_map;
use crate::unicode::{be_units, char_from_u32, str_chars, trim, trim_chars, utf16_decode};
use vstd::utf8::encode_utf8;

verus! {

/// The fonts of a page by resource name.
pub type FontMap = Vec<(String, Font)>;

/// The PDFDocEncoding character of a byte; undefined bytes give U+FFFD.
pub open spec fn pdfdoc_char(b: u8) -> char {
    if b <= 0x07 || (0x11 <= b <= 0x1F) || b == 0x7F {
        '\u{FFFD}'
    } else if b == 0x08 {
        '\u{02D8}'
    } else if b == 0x09 {
        '\u{02C7}'
    } else if b == 0x0A {
        '\u{02C6}'
    } else if b == 0x0B {
        '\u{02D9}'
    } else if b == 0x0C {
        '\u{02DD}'
    } else if b == 0x0D {
        '\u{02DB}'
    } else if b == 0x0E {
        '\u{02DA}'
    } else if b == 0x0F {
        '\u{02DC}'
    } else if b == 0x10 {
        '\u{2003}'
    } else if 0x80 <= b <= 0xAD {
        pdfdoc_high(b)
    } else {
        (b as u32) as char
    }
}

/// The PDFDocEncoding characters of bytes 0x80 to 0xAD.
pub open spec fn pdfdoc_high(b: u8) -> char {
    match b {
        0x80u8 => '\u{2022}',
        0x81u8 => '\u{2020}',
        0x82u8 => '\u{2021}',
        0x83u8 => '\u{2026}',
        0x84u8 => '\u{2014}',
        0x85u8 => '\u{2013}',
        0x86u8 => '\u{0192}',
        0x87u8 => '\u{2044}',
        0x88u8 => '\u{2039}',
        0x89u8 => '\u{203A}',
        0x8Au8 => '\u{2212}',
        0x8Bu8 => '\u{2030}',
        0x8Cu8 => '\u{201E}',
        0x8Du8 => '\u{201C}',
        0x8Eu8 => '\u{201D}',
        0x8Fu8 => '\u{2018}',
        0x90u8 => '\u{2019}',
        0x91u8 => '\u{201A}',
        0x92u8 => '\u{2122}',
        0x93u8 => '\u{FB01}',
        0x94u8 => '\u{FB02}',
        0x95u8 => '\u{0141}',
        0x96u8 => '\u{0152}',
        0x97u8 => '\u{0160}',
        0x98u8 => '\u{0178}',
        0x99u8 => '\u{017D}',
        0x9Au8 => '\u{0131}',
        0x9Bu8 => '\u{0142}',
        0x9Cu8 => '\u{0153}',
        0x9Du8 => '\u{0161}',
        0x9Eu8 => '\u{017E}',
        0x9Fu8 => '\u{FFFD}',
        0xA0u8 => '\u{20AC}',
        _ => (b as u32) as char,
    }
}

fn pdfdoc_high_exec(b: u8) -> (c: char)
    requires
        0x80 <= b <= 0xAD,
    ensures
        c == pdfdoc_high(b),
{
    match b {
        0x80u8 => '\u{2022}',
        0x81u8 => '\u{2020}',
        0x82u8 => '\u{2021}',
        0x83u8 => '\u{2026}',
        0x84u8 => '\u{2014}',
        0x85u8 => '\u{2013}',
        0x86u8 => '\u{0192}',
        0x87u8 => '\u{2044}',
        0x88u8 => '\u{2039}',
        0x89u8 => '\u{203A}',
        0x8Au8 => '\u{2212}',
        0x8Bu8 => '\u{2030}',
        0x8Cu8 => '\u{201E}',
        0x8Du8 => '\u{201C}',
        0x8Eu8 => '\u{201D}',
        0x8Fu8 => '\u{2018}',
        0x90u8 => '\u{2019}',
        0x91u8 => '\u{201A}',
        0x92u8 => '\u{2122}',
        0x93u8 => '\u{FB01}',
        0x94u8 => '\u{FB02}',
        0x95u8 => '\u{0141}',
        0x96u8 => '\u{0152}',
        0x97u8 => '\u{0160}',
        0x98u8 => '\u{0178}',
        0x99u8 => '\u{017D}',
        0x9Au8 => '\u{0131}',
        0x9Bu8 => '\u{0142}',
        0x9Cu8 => '\u{0153}',
        0x9Du8 => '\u{0161}',
        0x9Eu8 => '\u{017E}',
        0x9Fu8 => '\u{FFFD}',
        0xA0u8 => '\u{20AC}',
        _ => byte_char(b),
    }
}

fn byte_char(b: u8) -> (c: char)
    ensures
        c == (b as u32) as char,
{
    match char_from_u32(b as u32) {
        Some(c) => {
            proof {
                vstd::utf8::char_u32_cast(c, b as u32);
            }
            c
        },
        None => {
            assert(false);
            ' '
        },
    }
}

/// Decodes a byte with PDFDocEncoding.
pub fn pdfdoc_decode(b: u8) -> (c: char)
    ensures
        c == pdfdoc_char(b),
{
    if b <= 0x07 || (0x11 <= b && b <= 0x1F) || b == 0x7F {
        '\u{FFFD}'
    } else if b == 0x08 {
        '\u{02D8}'
    } else if b == 0x09 {
        '\u{02C7}'
    } else if b == 0x0A {
        '\u{02C6}'
    } else if b == 0x0B {
        '\u{02D9}'
    } else if b == 0x0C {
        '\u{02DD}'
    } else if b == 0x0D {
        '\u{02DB}'
    } else if b == 0x0E {
        '\u{02DA}'
    } else if b == 0x0F {
        '\u{02DC}'
    } else if b == 0x10 {
        '\u{2003}'
    } else if 0x80 <= b && b <= 0xAD {
        pdfdoc_high_exec(b)
    } else {
        byte_char(b)
    }
}

/// The text of string bytes without a font: UTF-16BE after a byte order
/// mark (empty where invalid), else PDFDocEncoding.
pub open spec fn string_text(bytes: Seq<u8>) -> Seq<char> {
    if bytes.len() >= 2 && bytes[0] == 0xFE && bytes[1] == 0xFF {
        match utf16_decode(be_units(bytes.skip(2))) {
            Some(s) => s,
            None => Seq::empty(),
        }
    } else {
        bytes.map_values(|b: u8| pdfdoc_char(b))
    }
}

/// The font of a name in a font map: the first entry whose name's UTF-8
/// bytes are the name's bytes.
pub open spec fn font_lookup(fonts: Seq<(String, Font)>, name: Seq<u8>) -> Option<Font>
    decreases fonts.len(),
{
    if fonts.len() == 0 {
        None
    } else if encode_utf8(fonts[0].0@) == name {
        Some(fonts[0].1)
    } else {
        font_lookup(fonts.drop_first(), name)
    }
}

/// The text of string bytes shown with the current font (by name), or
/// without a font where none is set or the map has none of that name.
pub open spec fn shown_text(fonts: Seq<(String, Font)>, font: Option<Seq<u8>>, bytes: Seq<u8>) -> Seq<char> {
    match font {
        Some(n) => match font_lookup(fonts, n) {
            Some(f) => f.spec_decode(bytes),
            None => string_text(bytes),
        },
        None => string_text(bytes),
    }
}

/// The value of digits.
pub open spec fn digits_value(ds: Seq<u8>) -> nat
    decreases ds.len(),
{
    if ds.len() == 0 {
        0
    } else {
        digits_value(ds.drop_last()) * 10 + ds.last() as nat
    }
}

/// Whether some digit is not zero.
pub open spec fn any_nonzero(ds: Seq<u8>) -> bool {
    exists|k: int| 0 <= k < ds.len() && ds[k] != 0
}

/// Whether a number's absolute value exceeds 1/2.
pub open spec fn abs_exceeds_half(n: NumView) -> bool {
    digits_value(n.1) >= 1 || (n.2.len() > 0 && (n.2[0] > 5 || (n.2[0] == 5 && any_nonzero(
        n.2.drop_first(),
    ))))
}

/// Whether a number is at most -100.
pub open spec fn at_most_minus_100(n: NumView) -> bool {
    n.0 && digits_value(n.1) >= 100
}

/// The text that a `TJ` array shows: its strings, and a space for each
/// adjustment of at most -100.
pub open spec fn tj_text(fonts: Seq<(String, Font)>, font: Option<Seq<u8>>, items: Seq<ItemView>) -> Seq<char> {
    concat_map(
        items,
        |it: ItemView|
            match it {
                ItemView::Str(s) => shown_text(fonts, font, s),
                ItemView::Num(n) => if at_most_minus_100(n) {
                    seq![' ']
                } else {
                    Seq::empty()
                },
                ItemView::Other => Seq::empty(),
            },
    )
}

/// The nearest string operand before token `j + 1`, not past an operator.
pub open spec fn string_before(toks: Seq<TokView>, j: int) -> Option<Seq<u8>>
    decreases j + 1,
{
    if j < 0 || j >= toks.len() {
        None
    } else {
        match toks[j] {
            TokView::Operand(OperandView::Str(s)) => Some(s),
            TokView::Operator(_) => None,
            _ => string_before(toks, j - 1),
        }
    }
}

/// The nearest name operand before token `j + 1`, not past an operator.
pub open spec fn name_before(toks: Seq<TokView>, j: int) -> Option<Seq<u8>>
    decreases j + 1,
{
    if j < 0 || j >= toks.len() {
        None
    } else {
        match toks[j] {
            TokView::Operand(OperandView::Name(s)) => Some(s),
            TokView::Operator(_) => None,
            _ => name_before(toks, j - 1),
        }
    }
}

/// The state of extraction: the text so far, whether inside `BT`..`ET`,
/// the current font name, and the saved font names.
pub type TextState = (Seq<char>, bool, Option<Seq<u8>>, Seq<Option<Seq<u8>>>);

/// Whether the text is not empty and does not end with `c`.
pub open spec fn open_line(t: Seq<char>, c: char) -> bool {
    t.len() > 0 && t.last() != c
}

/// The state after the token at `i`.
pub open spec fn text_step(fonts: Seq<(String, Font)>, toks: Seq<TokView>, i: int, st: TextState) -> TextState {
    match toks[i] {
        TokView::Operator(op) => op_step(fonts, toks, i, op, st),
        _ => st,
    }
}

/// The state after the operator `op` at token `i`.
pub open spec fn op_step(
    fonts: Seq<(String, Font)>,
    toks: Seq<TokView>,
    i: int,
    op: Seq<u8>,
    st: TextState,
) -> TextState {
    let (text, in_bt, font, stack) = st;
    {
        {
            if op == seq![0x42u8, 0x54u8] {
                (text, true, font, stack)
            } else if op == seq![0x45u8, 0x54u8] {
                (text, false, font, stack)
            } else if op == seq![0x71u8] {
                (text, in_bt, font, stack.push(font))
            } else if op == seq![0x51u8] {
                if stack.len() > 0 {
                    (text, in_bt, stack.last(), stack.drop_last())
                } else {
                    (text, in_bt, None, stack)
                }
            } else if op == seq![0x54u8, 0x66u8] && in_bt {
                let n = if i >= 2 {
                    name_before(toks, i - 1)
                } else {
                    None
                };
                match n {
                    Some(name) => (text, in_bt, Some(name), stack),
                    None => st,
                }
            } else if (op == seq![0x54u8, 0x6Au8] || op == seq![0x27u8] || op == seq![0x22u8])
                && in_bt {
                let t1 = match string_before(toks, i - 1) {
                    Some(s) => text + shown_text(fonts, font, s),
                    None => text,
                };
                let t2 = if op == seq![0x54u8, 0x6Au8] {
                    t1
                } else {
                    t1.push('\n')
                };
                (t2, in_bt, font, stack)
            } else if op == seq![0x54u8, 0x4Au8] && in_bt {
                if i >= 1 {
                    match toks[i - 1] {
                        TokView::Operand(OperandView::Array(items)) => (
                            text + tj_text(fonts, font, items),
                            in_bt,
                            font,
                            stack,
                        ),
                        _ => st,
                    }
                } else {
                    st
                }
            } else if (op == seq![0x54u8, 0x64u8] || op == seq![0x54u8, 0x44u8]) && in_bt {
                if i >= 1 {
                    match toks[i - 1] {
                        TokView::Operand(OperandView::Num(n)) => if abs_exceeds_half(n) && open_line(
                            text,
                            '\n',
                        ) {
                            (text.push('\n'), in_bt, font, stack)
                        } else {
                            st
                        },
                        _ => st,
                    }
                } else {
                    st
                }
            } else if op == seq![0x54u8, 0x2Au8] && in_bt && open_line(text, '\n') {
                (text.push('\n'), in_bt, font, stack)
            } else if op == seq![0x54u8, 0x6Du8] && in_bt && open_line(text, '\n') && text.last()
                != ' ' {
                (text.push(' '), in_bt, font, stack)
            } else {
                st
            }
        }
    }
}

/// The state after the first `k` tokens.
pub open spec fn text_run(fonts: Seq<(String, Font)>, toks: Seq<TokView>, k: int) -> TextState
    decreases k,
{
    if k <= 0 {
        (Seq::empty(), false, None, Seq::empty())
    } else {
        text_step(fonts, toks, k - 1, text_run(fonts, toks, k - 1))
    }
}

proof fn lemma_before_same_at_operator(toks: Seq<TokView>, j: int, op: Seq<u8>, m: int)
    requires
        0 <= j < toks.len(),
        toks[j] is Operator,
    ensures
        name_before(toks.update(j, TokView::Operator(op)), m) == name_before(toks, m),
        string_before(toks.update(j, TokView::Operator(op)), m) == string_before(toks, m),
    decreases m + 1,
{
    let t2 = toks.update(j, TokView::Operator(op));
    if 0 <= m < toks.len() {
        lemma_before_same_at_operator(toks, j, op, m - 1);
        if m == j {
            assert(t2[m] is Operator);
        } else {
            assert(t2[m] == toks[m]);
        }
    }
}

proof fn lemma_td_step(fonts: Seq<(String, Font)>, toks: Seq<TokView>, j: int, i: int, st: TextState)
    requires
        0 <= j < toks.len(),
        0 <= i < toks.len(),
        toks[j] == TokView::Operator(seq![0x54u8, 0x64u8]),
    ensures
        text_step(fonts, toks.update(j, TokView::Operator(seq![0x54u8, 0x44u8])), i, st) == text_step(fonts, toks, i, st),
{
    let t2 = toks.update(j, TokView::Operator(seq![0x54u8, 0x44u8]));
    lemma_before_same_at_operator(toks, j, seq![0x54u8, 0x44u8], i - 1);
    if i >= 1 && i - 1 != j {
        assert(t2[i - 1] == toks[i - 1]);
    }
    if i >= 1 && i - 1 == j {
        assert(t2[i - 1] is Operator);
    }
    if i >= 2 {
        lemma_before_same_at_operator(toks, j, seq![0x54u8, 0x44u8], i - 1);
    }
    if i != j {
        assert(t2[i] == toks[i]);
    } else {
        assert(seq![0x54u8, 0x44u8] != seq![0x42u8, 0x54u8]);
        assert(seq![0x54u8, 0x64u8] != seq![0x42u8, 0x54u8]);
    }
}

/// `TD` moves to the next line exactly as `Td` does: in any content
/// stream, replacing a `Td` operator by `TD` leaves the text state after
/// each token unchanged.
pub proof fn lemma_td_moves_like_td(fonts: Seq<(String, Font)>, toks: Seq<TokView>, j: int, k: int)
    requires
        0 <= j < toks.len(),
        toks[j] == TokView::Operator(seq![0x54u8, 0x64u8]),
        k <= toks.len(),
    ensures
        text_run(fonts, toks.update(j, TokView::Operator(seq![0x54u8, 0x44u8])), k) == text_run(fonts, toks, k),
    decreases k,
{
    if k > 0 {
        lemma_td_moves_like_td(fonts, toks, j, k - 1);
        lemma_td_step(fonts, toks, j, k - 1, text_run(fonts, toks, k - 1));
    }
}

/// Replacing a `Td` operator by `TD` in a content stream leaves the
/// extracted text unchanged.
pub proof fn lemma_td_text_unchanged(fonts: Seq<(String, Font)>, d1: Seq<u8>, d2: Seq<u8>, j: int)
    requires
        lex_from(d1, 0) is Ok,
        0 <= j < lex_from(d1, 0)->Ok_0.len(),
        lex_from(d1, 0)->Ok_0[j] == TokView::Operator(seq![0x54u8, 0x64u8]),
        lex_from(d2, 0) == Ok::<Seq<TokView>, (Seq<char>, bool)>(
            lex_from(d1, 0)->Ok_0.update(j, TokView::Operator(seq![0x54u8, 0x44u8])),
        ),
    ensures
        extracted_text(fonts, d2) == extracted_text(fonts, d1),
{
    let t = lex_from(d1, 0)->Ok_0;
    lemma_td_moves_like_td(fonts, t, j, t.len() as int);
}

/// The text of a content stream, trimmed, or the lexer's error.
pub open spec fn extracted_text(fonts: Seq<(String, Font)>, data: Seq<u8>) -> Result<Seq<char>, (Seq<char>, bool)> {
    match lex_from(data, 0) {
        Ok(toks) => Ok(trim(text_run(fonts, toks, toks.len() as int).0)),
        Err(e) => Err(e),
    }
}

fn lookup_font<'a>(fonts: &'a [(String, Font)], name: &[u8]) -> (r: Option<&'a Font>)
    ensures
        match r {
            Some(f) => font_lookup(fonts@, name@) == Some(*f) && (exists|k: int|
                0 <= k < fonts@.len() && fonts@[k].1 == *f),
            None => font_lookup(fonts@, name@) is None,
        },
{
    let mut k: usize = 0;
    assert(fonts@.skip(0) =~= fonts@);
    while k < fonts.len()
        invariant
            k <= fonts@.len(),
            font_lookup(fonts@, name@) == font_lookup(fonts@.skip(k as int), name@),
        decreases fonts@.len() - k,
    {
        let key = fonts[k].0.as_str().as_bytes();
        proof {
            assert(fonts@.skip(k as int)[0] == fonts@[k as int]);
            assert(fonts@.skip(k as int).drop_first() =~= fonts@.skip(k + 1));
        }
        if crate::fonts::cmap::bytes_eq(key, name) {
            return Some(&fonts[k].1);
        }
        k = k + 1;
    }
    None
}

/// Appends the text of string bytes without a font.
fn append_string_bytes(text: &mut Vec<char>, bytes: &[u8])
    ensures
        final(text)@ == old(text)@ + string_text(bytes@),
{
    if bytes.len() >= 2 && bytes[0] == 0xFE && bytes[1] == 0xFF {
        let rest = crate::fonts::font::slice_from(bytes, 2);
        match decode_utf16be(rest.as_slice()) {
            Some(s) => {
                let cs = str_chars(s.as_str());
                append_chars(text, cs.as_slice());
            },
            None => {
                assert(old(text)@ + Seq::<char>::empty() =~= old(text)@);
            },
        }
    } else {
        let ghost start = text@;
        let mut i: usize = 0;
        while i < bytes.len()
            invariant
                i <= bytes.len(),
                text@ == start + bytes@.take(i as int).map_values(|b: u8| pdfdoc_char(b)),
            decreases bytes.len() - i,
        {
            text.push(pdfdoc_decode(bytes[i]));
            i = i + 1;
            assert(text@ =~= start + bytes@.take(i as int).map_values(|b: u8| pdfdoc_char(b)));
        }
        assert(bytes@.take(bytes.len() as int) =~= bytes@);
    }
}

fn append_chars(text: &mut Vec<char>, cs: &[char])
    ensures
        final(text)@ == old(text)@ + cs@,
{
    let ghost start = text@;
    let mut i: usize = 0;
    while i < cs.len()
        invariant
            i <= cs.len(),
            text@ == start + cs@.take(i as int),
        decreases cs.len() - i,
    {
        text.push(cs[i]);
        i = i + 1;
        assert(text@ =~= start + cs@.take(i as int));
    }
    assert(cs@.take(cs.len() as int) =~= cs@);
}

/// Appends the text of string bytes shown with the current font.
fn append_decoded_string(text: &mut Vec<char>, bytes: &[u8], fonts: &[(String, Font)], font: &Option<Vec<u8>>)
    ensures
        final(text)@ == old(text)@ + shown_text(fonts@, opt_view(*font), bytes@),
{
    match font {
        Some(n) => match lookup_font(fonts, n.as_slice()) {
            Some(f) => {
                let s = f.decode_bytes(bytes);
                let cs = str_chars(s.as_str());
                append_chars(text, cs.as_slice());
            },
            None => append_string_bytes(text, bytes),
        },
        None => append_string_bytes(text, bytes),
    }
}

/// The view of an optional byte string.
pub open spec fn opt_view(o: Option<Vec<u8>>) -> Option<Seq<u8>> {
    match o {
        Some(v) => Some(v@),
        None => None,
    }
}

/// The views of saved font names.
pub open spec fn stack_view(s: Seq<Option<Vec<u8>>>) -> Seq<Option<Seq<u8>>> {
    s.map_values(|o: Option<Vec<u8>>| opt_view(o))
}

fn copy_opt(o: &Option<Vec<u8>>) -> (r: Option<Vec<u8>>)
    ensures
        opt_view(r) == opt_view(*o),
{
    match o {
        Some(v) => Some(crate::content::lexer::copy_bytes(v.as_slice(), 0, v.len())),
        None => None,
    }
}

fn op_is1(op: &[u8], a: u8) -> (r: bool)
    ensures
        r == (op@ == seq![a]),
{
    let r = op.len() == 1 && op[0] == a;
    proof {
        if r {
            assert(op@ =~= seq![a]);
        }
    }
    r
}

fn op_is2(op: &[u8], a: u8, b: u8) -> (r: bool)
    ensures
        r == (op@ == seq![a, b]),
{
    let r = op.len() == 2 && op[0] == a && op[1] == b;
    proof {
        if r {
            assert(op@ =~= seq![a, b]);
        }
    }
    r
}

fn digits_at_least(ds: &[u8], bound: u32) -> (r: bool)
    requires
        bound <= 1000,
    ensures
        r == (digits_value(ds@) >= bound),
{
    let mut v: u32 = 0;
    let mut i: usize = 0;
    while i < ds.len()
        invariant
            i <= ds.len(),
            v == if digits_value(ds@.take(i as int)) >= 1000 {
                1000
            } else {
                digits_value(ds@.take(i as int))
            },
        decreases ds.len() - i,
    {
        proof {
            assert(ds@.take(i + 1).drop_last() =~= ds@.take(i as int));
        }
        if v >= 1000 {
            v = 1000;
        } else {
            v = v * 10 + ds[i] as u32;
            if v > 1000 {
                v = 1000;
            }
        }
        i = i + 1;
    }
    assert(ds@.take(ds.len() as int) =~= ds@);
    v >= bound
}

fn exceeds_half(n: &PdfNumber) -> (r: bool)
    ensures
        r == abs_exceeds_half(n@),
{
    if digits_at_least(n.int_digits.as_slice(), 1) {
        return true;
    }
    if n.frac_digits.len() == 0 {
        return false;
    }
    if n.frac_digits[0] > 5 {
        return true;
    }
    if n.frac_digits[0] < 5 {
        return false;
    }
    let mut k: usize = 1;
    while k < n.frac_digits.len()
        invariant
            1 <= k <= n.frac_digits@.len(),
            forall|j: int| 1 <= j < k ==> n.frac_digits@[j] == 0,
            digits_value(n.int_digits@) < 1,
            n.frac_digits@[0] == 5,
        decreases n.frac_digits@.len() - k,
    {
        if n.frac_digits[k] != 0 {
            assert(n.frac_digits@.drop_first()[k - 1] != 0);
            return true;
        }
        k = k + 1;
    }
    proof {
        let t = n.frac_digits@.drop_first();
        assert forall|j: int| 0 <= j < t.len() implies t[j] == 0 by {
            assert(t[j] == n.frac_digits@[j + 1]);
        }
    }
    false
}

fn at_most_minus_hundred(n: &PdfNumber) -> (r: bool)
    ensures
        r == at_most_minus_100(n@),
{
    n.negative && digits_at_least(n.int_digits.as_slice(), 100)
}


fn string_before_exec(tokens: &[ContentToken], i: usize) -> (r: Option<&Vec<u8>>)
    requires
        i <= tokens.len(),
    ensures
        match r {
            Some(v) => string_before(token_views(tokens@), i - 1) == Some(v@),
            None => string_before(token_views(tokens@), i - 1) is None,
        },
{
    let ghost toks = token_views(tokens@);
    let mut j = i;
    while j > 0
        invariant
            j <= i <= tokens.len(),
            toks == token_views(tokens@),
            string_before(toks, i - 1) == string_before(toks, j - 1),
        decreases j,
    {
        proof {
            assert(toks[j - 1] == tokens@[j - 1]@);
        }
        match &tokens[j - 1] {
            ContentToken::Operand(Operand::Str(s)) => {
                return Some(s);
            },
            ContentToken::Operator(_) => {
                return None;
            },
            _ => {},
        }
        j = j - 1;
    }
    None
}

fn name_before_exec(tokens: &[ContentToken], i: usize) -> (r: Option<&Vec<u8>>)
    requires
        i <= tokens.len(),
    ensures
        match r {
            Some(v) => name_before(token_views(tokens@), i - 1) == Some(v@),
            None => name_before(token_views(tokens@), i - 1) is None,
        },
{
    let ghost toks = token_views(tokens@);
    let mut j = i;
    while j > 0
        invariant
            j <= i <= tokens.len(),
            toks == token_views(tokens@),
            name_before(toks, i - 1) == name_before(toks, j - 1),
        decreases j,
    {
        proof {
            assert(toks[j - 1] == tokens@[j - 1]@);
        }
        match &tokens[j - 1] {
            ContentToken::Operand(Operand::Name(s)) => {
                return Some(s);
            },
            ContentToken::Operator(_) => {
                return None;
            },
            _ => {},
        }
        j = j - 1;
    }
    None
}

fn append_tj(
    text: &mut Vec<char>,
    items: &[ArrayItem],
    fonts: &[(String, Font)],
    font: &Option<Vec<u8>>,
)
    ensures
        final(text)@ == old(text)@ + tj_text(
            fonts@,
            opt_view(*font),
            items@.map_values(|x: ArrayItem| x@),
        ),
{
    let ghost iv = items@.map_values(|x: ArrayItem| x@);
    let ghost f = |it: ItemView|
        match it {
            ItemView::Str(s) => shown_text(fonts@, opt_view(*font), s),
            ItemView::Num(n) => if at_most_minus_100(n) {
                seq![' ']
            } else {
                Seq::empty()
            },
            ItemView::Other => Seq::empty(),
        };
    let ghost start = text@;
    let mut k: usize = 0;
    while k < items.len()
        invariant
            k <= items@.len(),
            iv == items@.map_values(|x: ArrayItem| x@),
            f == (|it: ItemView|
                match it {
                    ItemView::Str(s) => shown_text(fonts@, opt_view(*font), s),
                    ItemView::Num(n) => if at_most_minus_100(n) {
                        seq![' ']
                    } else {
                        Seq::empty()
                    },
                    ItemView::Other => Seq::empty(),
                }),
            text@ == start + concat_map(iv.take(k as int), f),
        decreases items@.len() - k,
    {
        proof {
            crate::seqs::lemma_concat_map_take(iv, k as int, f);
            assert(iv[k as int] == items@[k as int]@);
        }
        let ghost before = text@;
        match &items[k] {
            ArrayItem::Str(s) => {
                append_decoded_string(text, s.as_slice(), fonts, font);
            },
            ArrayItem::Number(n) => {
                if at_most_minus_hundred(n) {
                    text.push(' ');
                } else {
                    assert(before + Seq::<char>::empty() =~= before);
                }
            },
            ArrayItem::Other => {
                assert(before + Seq::<char>::empty() =~= before);
            },
        }
        proof {
            assert(text@ =~= before + f(iv[k as int]));
        }
        k = k + 1;
    }
    assert(iv.take(items@.len() as int) =~= iv);
}

/// Whether a character sequence is non-empty and does not end with `c`.
fn open_line_exec(text: &Vec<char>, c: char) -> (r: bool)
    ensures
        r == open_line(text@, c),
{
    text.len() > 0 && text[text.len() - 1] != c
}

fn apply_token(
    fonts: &[(String, Font)],
    tokens: &[ContentToken],
    i: usize,
    text: &mut Vec<char>,
    in_bt: &mut bool,
    font: &mut Option<Vec<u8>>,
    stack: &mut Vec<Option<Vec<u8>>>,
)
    requires
        i < tokens.len(),
    ensures
        text_step(
            fonts@,
            token_views(tokens@),
            i as int,
            (old(text)@, *old(in_bt), opt_view(*old(font)), stack_view(old(stack)@)),
        ) == (final(text)@, *final(in_bt), opt_view(*final(font)), stack_view(final(stack)@)),
{
    let ghost toks = token_views(tokens@);
    proof {
        assert(toks[i as int] == tokens@[i as int]@);
    }
    let op = match &tokens[i] {
        ContentToken::Operator(op) => op,
        _ => {
            return;
        },
    };
    let bt = *in_bt;
    let ghost st0 = (text@, *in_bt, opt_view(*font), stack_view(stack@));
    proof {
        assert(toks[i as int] == TokView::Operator(op@));
        assert(text_step(fonts@, toks, i as int, st0) == op_step(fonts@, toks, i as int, op@, st0));
    }
    if op_is2(op, 0x42, 0x54) {
        assert(op@ == seq![0x42u8, 0x54u8]);
        *in_bt = true;
    } else if op_is2(op, 0x45, 0x54) {
        assert(op@ == seq![0x45u8, 0x54u8]);
        *in_bt = false;
    } else if op_is1(op, 0x71) {
        let ghost sv = stack_view(stack@);
        let saved = copy_opt(font);
        stack.push(saved);
        proof {
            assert(stack_view(stack@) =~= sv.push(opt_view(*font)));
            assert(sv == st0.3);
            assert(opt_view(*font) == st0.2);
            assert(op@ == seq![0x71u8]);
            assert(op_step(fonts@, toks, i as int, op@, st0) == (st0.0, st0.1, st0.2, st0.3.push(st0.2)));
            assert(op_step(fonts@, toks, i as int, op@, st0).3 == stack_view(stack@));
        }
    } else if op_is1(op, 0x51) {
        let ghost sv = stack_view(stack@);
        let ghost old_stack = stack@;
        assert(op@ == seq![0x51u8]);
        match stack.pop() {
            Some(f) => {
                proof {
                    assert(stack@ == old_stack.drop_last());
                    assert(f == old_stack.last());
                    assert(stack_view(stack@) =~= sv.drop_last());
                    assert(sv.last() == opt_view(f));
                }
                *font = f;
                assert(op_step(fonts@, toks, i as int, op@, st0).3 == stack_view(stack@));
            },
            None => {
                *font = None;
                assert(op_step(fonts@, toks, i as int, op@, st0).3 == stack_view(stack@));
            },
        }
    } else if op_is2(op, 0x54, 0x66) && bt {
        assert(op@ == seq![0x54u8, 0x66u8]);
        if i >= 2 {
            match name_before_exec(tokens, i) {
                Some(n) => {
                    *font = Some(crate::content::lexer::copy_bytes(n.as_slice(), 0, n.len()));
                    proof {
                        assert(n@.subrange(0, n@.len() as int) =~= n@);
                    }
                },
                None => {},
            }
        }
    } else if (op_is2(op, 0x54, 0x6A) || op_is1(op, 0x27) || op_is1(op, 0x22)) && bt {
        assert(op@ == seq![0x54u8, 0x6Au8] || op@ == seq![0x27u8] || op@ == seq![0x22u8]);
        let ghost before = text@;
        match string_before_exec(tokens, i) {
            Some(s) => {
                append_decoded_string(text, s.as_slice(), fonts, font);
            },
            None => {},
        }
        if !op_is2(op, 0x54, 0x6A) {
            assert(op@ != seq![0x54u8, 0x6Au8]);
            text.push('\n');
        } else {
            assert(op@ == seq![0x54u8, 0x6Au8]);
        }
    } else if op_is2(op, 0x54, 0x4A) && bt {
        assert(op@ == seq![0x54u8, 0x4Au8]);
        if i >= 1 {
            match &tokens[i - 1] {
                ContentToken::Operand(Operand::Array(items)) => {
                    proof {
                        assert(toks[i - 1] == tokens@[i - 1]@);
                    }
                    append_tj(text, items.as_slice(), fonts, font);
                },
                _ => {
                    proof {
                        assert(toks[i - 1] == tokens@[i - 1]@);
                    }
                },
            }
        }
    } else if (op_is2(op, 0x54, 0x64) || op_is2(op, 0x54, 0x44)) && bt {
        assert(op@ == seq![0x54u8, 0x64u8] || op@ == seq![0x54u8, 0x44u8]);
        if i >= 1 {
            proof {
                assert(toks[i - 1] == tokens@[i - 1]@);
            }
            match &tokens[i - 1] {
                ContentToken::Operand(Operand::Number(n)) => {
                    if exceeds_half(n) && open_line_exec(text, '\n') {
                        text.push('\n');
                    }
                },
                _ => {},
            }
        }
    } else if op_is2(op, 0x54, 0x2A) && bt && open_line_exec(text, '\n') {
        assert(op@ == seq![0x54u8, 0x2Au8]);
        text.push('\n');
    } else if op_is2(op, 0x54, 0x6D) && bt && open_line_exec(text, '\n') && text[text.len()
        - 1] != ' ' {
        assert(op@ == seq![0x54u8, 0x6Du8]);
        text.push(' ');
    } else {
        assert(op@ != seq![0x42u8, 0x54u8]);
        assert(op@ != seq![0x45u8, 0x54u8]);
        assert(op@ != seq![0x71u8]);
        assert(op@ != seq![0x51u8]);
        assert(!(op@ == seq![0x54u8, 0x66u8] && bt));
        assert(!((op@ == seq![0x54u8, 0x6Au8] || op@ == seq![0x27u8] || op@ == seq![0x22u8]) && bt));
        assert(!(op@ == seq![0x54u8, 0x4Au8] && bt));
        assert(!((op@ == seq![0x54u8, 0x64u8] || op@ == seq![0x54u8, 0x44u8]) && bt));
        assert(!(op@ == seq![0x54u8, 0x2Au8] && bt && open_line(text@, '\n')));
    }
}

/// Extracts text from a content stream, decoding strings through the
/// fonts of the page: the text-showing operators inside `BT`..`ET`, a line
/// break for `'`, `"`, `T*` and for `Td`/`TD` with a vertical move over
/// 1/2, a space for `Tm` and for `TJ` adjustments of at most -100; the
/// result is trimmed.
pub fn extract_text_with_fonts(data: &[u8], fonts: &[(String, Font)]) -> (r: Result<String, PdfError>)
    ensures
        match r {
            Ok(s) => extracted_text(fonts@, data@) == Ok::<Seq<char>, (Seq<char>, bool)>(s@),
            Err(e) => lex_error_matches(lex_from(data@, 0), e),
        },
{
    let tokens = match tokenize_content_stream(data) {
        Ok(t) => t,
        Err(e) => {
            return Err(e);
        },
    };
    let ghost toks = token_views(tokens@);
    let mut text: Vec<char> = Vec::new();
    let mut in_bt = false;
    let mut font: Option<Vec<u8>> = None;
    let mut stack: Vec<Option<Vec<u8>>> = Vec::new();
    proof {
        assert(stack_view(stack@) =~= Seq::<Option<Seq<u8>>>::empty());
    }
    let mut i: usize = 0;
    while i < tokens.len()
        invariant
            i <= tokens@.len(),
            toks == token_views(tokens@),
            text_run(fonts@, toks, i as int) == (text@, in_bt, opt_view(font), stack_view(stack@)),
        decreases tokens@.len() - i,
    {
        apply_token(fonts, tokens.as_slice(), i, &mut text, &mut in_bt, &mut font, &mut stack);
        i = i + 1;
    }
    Ok(trim_chars(text.as_slice()))
}

/// Extracts text from a content stream without font information: strings
/// are read as UTF-16BE after a byte order mark, else as PDFDocEncoding.
pub fn extract_text_from_content(data: &[u8]) -> (r: Result<String, PdfError>)
    ensures
        match r {
            Ok(s) => extracted_text(Seq::empty(), data@) == Ok::<Seq<char>, (Seq<char>, bool)>(s@),
            Err(e) => lex_error_matches(lex_from(data@, 0), e),
        },
{
    let fonts: Vec<(String, Font)> = Vec::new();
    assert(fonts@ =~= Seq::<(String, Font)>::empty());
    extract_text_with_fonts(data, fonts.as_slice())
}

} // verus!
