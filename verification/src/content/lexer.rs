//! The content stream lexer: operands (numbers, strings, names, arrays,
//! dictionaries, keywords), operators and inline images, read from bytes.
use vstd::prelude::*;
use crate::error::{append_str, PdfError};
use crate::fonts::cmap::{hex_digit, hex_digit_of};
use crate::objects::{hex_pair_lower, utf8_text, write_hex};
use crate::unicode::string_from_chars;
use vstd::utf8::valid_utf8;

verus! {

// ---------------------------------------------------------------------------
// Byte classes
// ---------------------------------------------------------------------------

/// PDF white space: NUL, tab, line feed, form feed, carriage return, space.
pub open spec fn is_pdf_ws(b: u8) -> bool {
    b == 0 || b == 9 || b == 10 || b == 12 || b == 13 || b == 32
}

/// PDF delimiters: `( ) < > [ ] { } / %`.
pub open spec fn is_delim(b: u8) -> bool {
    b == 0x28 || b == 0x29 || b == 0x3C || b == 0x3E || b == 0x5B || b == 0x5D || b == 0x7B || b
        == 0x7D || b == 0x2F || b == 0x25
}

/// A regular byte: neither white space nor a delimiter.
pub open spec fn is_regular(b: u8) -> bool {
    !is_pdf_ws(b) && !is_delim(b)
}

pub fn is_pdf_ws_exec(b: u8) -> (r: bool)
    ensures
        r == is_pdf_ws(b),
{
    b == 0 || b == 9 || b == 10 || b == 12 || b == 13 || b == 32
}

fn is_regular_exec(b: u8) -> (r: bool)
    ensures
        r == is_regular(b),
{
    !(b == 0 || b == 9 || b == 10 || b == 12 || b == 13 || b == 32) && !(b == 0x28 || b == 0x29
        || b == 0x3C || b == 0x3E || b == 0x5B || b == 0x5D || b == 0x7B || b == 0x7D || b == 0x2F
        || b == 0x25)
}

/// The end of the line that starts at `i`: the next line feed or carriage
/// return, or the end.
pub open spec fn line_end(d: Seq<u8>, i: int) -> int
    decreases d.len() - i,
{
    if i < 0 || i >= d.len() || d[i] == 10 || d[i] == 13 {
        i
    } else {
        line_end(d, i + 1)
    }
}

pub proof fn lemma_line_end(d: Seq<u8>, i: int)
    requires
        0 <= i,
    ensures
        i <= line_end(d, i),
        line_end(d, i) <= d.len() || line_end(d, i) == i,
    decreases d.len() - i,
{
    if !(i >= d.len() || d[i] == 10 || d[i] == 13) {
        lemma_line_end(d, i + 1);
    }
}

/// The first position from `i` on that is not white space or inside a comment.
pub open spec fn skip_space(d: Seq<u8>, i: int) -> int
    decreases d.len() - i,
{
    if i < 0 || i >= d.len() {
        i
    } else if is_pdf_ws(d[i]) {
        skip_space(d, i + 1)
    } else if d[i] == 0x25 {
        proof {
            lemma_line_end(d, i + 1);
        }
        skip_space(d, line_end(d, i + 1))
    } else {
        i
    }
}

pub proof fn lemma_skip_space(d: Seq<u8>, i: int)
    requires
        0 <= i,
    ensures
        i <= skip_space(d, i),
        skip_space(d, i) <= d.len() || skip_space(d, i) == i,
        skip_space(d, i) < d.len() ==> !is_pdf_ws(d[skip_space(d, i)]) && d[skip_space(d, i)] != 0x25,
    decreases d.len() - i,
{
    if 0 <= i < d.len() {
        if is_pdf_ws(d[i]) {
            lemma_skip_space(d, i + 1);
        } else if d[i] == 0x25 {
            lemma_line_end(d, i + 1);
            lemma_skip_space(d, line_end(d, i + 1));
        }
    }
}

/// Skips white space and comments.
pub fn skip_space_exec(d: &[u8], i0: usize) -> (j: usize)
    requires
        i0 <= d.len(),
    ensures
        j == skip_space(d@, i0 as int),
        i0 <= j <= d.len(),
{
    let mut i = i0;
    proof {
        lemma_skip_space(d@, i0 as int);
    }
    while i < d.len()
        invariant
            i0 <= i <= d.len(),
            skip_space(d@, i0 as int) == skip_space(d@, i as int),
        decreases d.len() - i,
    {
        if is_pdf_ws_exec(d[i]) {
            i = i + 1;
        } else if d[i] == 0x25 {
            let mut k = i + 1;
            while k < d.len() && d[k] != 10 && d[k] != 13
                invariant
                    i < k <= d.len(),
                    line_end(d@, i + 1) == line_end(d@, k as int),
                decreases d.len() - k,
            {
                k = k + 1;
            }
            i = k;
        } else {
            return i;
        }
    }
    i
}

/// The end of the run of regular bytes that starts at `i`.
pub open spec fn regular_end(d: Seq<u8>, i: int) -> int
    decreases d.len() - i,
{
    if i < 0 || i >= d.len() || !is_regular(d[i]) {
        i
    } else {
        regular_end(d, i + 1)
    }
}

pub proof fn lemma_regular_end(d: Seq<u8>, i: int)
    requires
        0 <= i,
    ensures
        i <= regular_end(d, i),
        regular_end(d, i) <= d.len() || regular_end(d, i) == i,
    decreases d.len() - i,
{
    if !(i >= d.len() || !is_regular(d[i])) {
        lemma_regular_end(d, i + 1);
    }
}

fn regular_end_exec(d: &[u8], i0: usize) -> (j: usize)
    requires
        i0 <= d.len(),
    ensures
        j == regular_end(d@, i0 as int),
        i0 <= j <= d.len(),
{
    let mut i = i0;
    while i < d.len() && is_regular_exec(d[i])
        invariant
            i0 <= i <= d.len(),
            regular_end(d@, i0 as int) == regular_end(d@, i as int),
        decreases d.len() - i,
    {
        i = i + 1;
    }
    i
}

/// A copy of `d[from..to]`.
pub fn copy_bytes(d: &[u8], from: usize, to: usize) -> (r: Vec<u8>)
    requires
        from <= to <= d.len(),
    ensures
        r@ == d@.subrange(from as int, to as int),
{
    let mut v: Vec<u8> = Vec::new();
    let mut k = from;
    while k < to
        invariant
            from <= k <= to <= d.len(),
            v@ == d@.subrange(from as int, k as int),
        decreases to - k,
    {
        v.push(d[k]);
        k = k + 1;
        assert(v@ =~= d@.subrange(from as int, k as int));
    }
    v
}

/// Prepends bytes to the bytes of a parse result.
pub open spec fn prepend(p: Seq<u8>, r: Option<(Seq<u8>, int)>) -> Option<(Seq<u8>, int)> {
    match r {
        Some((s, k)) => Some((p + s, k)),
        None => None,
    }
}

// ---------------------------------------------------------------------------
// Literal strings
// ---------------------------------------------------------------------------

/// Whether a byte is an octal digit.
pub open spec fn is_octal(b: u8) -> bool {
    0x30 <= b <= 0x37
}

/// The end of the run of at most three octal digits that starts at `i`.
pub open spec fn octal_end(d: Seq<u8>, i: int) -> int {
    if i + 1 < d.len() && is_octal(d[i + 1]) {
        if i + 2 < d.len() && is_octal(d[i + 2]) {
            i + 3
        } else {
            i + 2
        }
    } else {
        i + 1
    }
}

/// The value of octal digits.
pub open spec fn octal_value(s: Seq<u8>) -> nat
    decreases s.len(),
{
    if s.len() == 0 {
        0
    } else {
        octal_value(s.drop_last()) * 8 + (s.last() - 0x30) as nat
    }
}

/// The byte that an escape `\c` stands for, for the one-letter escapes.
pub open spec fn simple_escape(c: u8) -> Option<u8> {
    if c == 0x6E {
        Some(10u8)
    } else if c == 0x72 {
        Some(13u8)
    } else if c == 0x74 {
        Some(9u8)
    } else if c == 0x62 {
        Some(8u8)
    } else if c == 0x66 {
        Some(12u8)
    } else if c == 0x28 || c == 0x29 || c == 0x5C {
        Some(c)
    } else {
        None
    }
}

/// The contents of a literal string from position `i` at parenthesis
/// nesting `depth`, and the position after its closing `)`; `None` where
/// the string is not closed. Escapes: `\n \r \t \b \f \( \) \\`, up to
/// three octal digits, a backslash before an end of line (both dropped),
/// and a backslash before any other byte (the backslash dropped). An end
/// of line (CR, LF, or CR LF) in the string reads as LF.
pub open spec fn lit_from(d: Seq<u8>, i: int, depth: nat) -> Option<(Seq<u8>, int)>
    decreases d.len() - i,
{
    if i < 0 || i >= d.len() {
        None
    } else {
        let b = d[i];
        if b == 0x29 {
            if depth == 0 {
                Some((Seq::empty(), i + 1))
            } else {
                prepend(seq![b], lit_from(d, i + 1, (depth - 1) as nat))
            }
        } else if b == 0x28 {
            prepend(seq![b], lit_from(d, i + 1, depth + 1))
        } else if b == 0x5C {
            if i + 1 >= d.len() {
                None
            } else {
                let c = d[i + 1];
                if simple_escape(c) is Some {
                    prepend(seq![simple_escape(c)->0], lit_from(d, i + 2, depth))
                } else if is_octal(c) {
                    let k = octal_end(d, i + 1);
                    prepend(
                        seq![(octal_value(d.subrange(i + 1, k)) % 256) as u8],
                        lit_from(d, k, depth),
                    )
                } else if c == 13 {
                    if i + 2 < d.len() && d[i + 2] == 10 {
                        lit_from(d, i + 3, depth)
                    } else {
                        lit_from(d, i + 2, depth)
                    }
                } else if c == 10 {
                    lit_from(d, i + 2, depth)
                } else {
                    prepend(seq![c], lit_from(d, i + 2, depth))
                }
            }
        } else if b == 13 {
            if i + 1 < d.len() && d[i + 1] == 10 {
                prepend(seq![10u8], lit_from(d, i + 2, depth))
            } else {
                prepend(seq![10u8], lit_from(d, i + 1, depth))
            }
        } else {
            prepend(seq![b], lit_from(d, i + 1, depth))
        }
    }
}

pub proof fn lemma_lit_from(d: Seq<u8>, i: int, depth: nat)
    requires
        0 <= i,
    ensures
        lit_from(d, i, depth) matches Some((_, k)) ==> i < k <= d.len(),
    decreases d.len() - i,
{
    if 0 <= i < d.len() {
        let b = d[i];
        if b == 0x29 {
            if depth > 0 {
                lemma_lit_from(d, i + 1, (depth - 1) as nat);
            }
        } else if b == 0x28 {
            lemma_lit_from(d, i + 1, depth + 1);
        } else if b == 0x5C {
            if i + 1 < d.len() {
                let c = d[i + 1];
                if simple_escape(c) is Some {
                    lemma_lit_from(d, i + 2, depth);
                } else if is_octal(c) {
                    lemma_lit_from(d, octal_end(d, i + 1), depth);
                } else if c == 13 {
                    if i + 2 < d.len() && d[i + 2] == 10 {
                        lemma_lit_from(d, i + 3, depth);
                    } else {
                        lemma_lit_from(d, i + 2, depth);
                    }
                } else {
                    lemma_lit_from(d, i + 2, depth);
                }
            }
        } else if b == 13 {
            if i + 1 < d.len() && d[i + 1] == 10 {
                lemma_lit_from(d, i + 2, depth);
            } else {
                lemma_lit_from(d, i + 1, depth);
            }
        } else {
            lemma_lit_from(d, i + 1, depth);
        }
    }
}

/// Reads a literal string whose contents start at `i0`.
fn read_literal(d: &[u8], i0: usize) -> (r: Option<(Vec<u8>, usize)>)
    requires
        i0 <= d.len(),
    ensures
        match r {
            Some((v, k)) => lit_from(d@, i0 as int, 0) == Some((v@, k as int)) && k <= d.len(),
            None => lit_from(d@, i0 as int, 0) is None,
        },
{
    let mut out: Vec<u8> = Vec::new();
    let mut i = i0;
    let mut depth: usize = 0;
    proof {
        lemma_lit_from(d@, i0 as int, 0);
        assert(out@ + Seq::<u8>::empty() =~= Seq::<u8>::empty());
    }
    while i < d.len()
        invariant
            i0 <= i <= d.len(),
            depth <= i - i0,
            lit_from(d@, i0 as int, 0) == prepend(out@, lit_from(d@, i as int, depth as nat)),
        decreases d.len() - i,
    {
        let ghost before = out@;
        let b = d[i];
        if b == 0x29 {
            if depth == 0 {
                assert(before + Seq::<u8>::empty() =~= before);
                return Some((out, i + 1));
            }
            out.push(b);
            depth = depth - 1;
            i = i + 1;
        } else if b == 0x28 {
            out.push(b);
            depth = depth + 1;
            i = i + 1;
        } else if b == 0x5C {
            if i + 1 >= d.len() {
                return None;
            }
            let c = d[i + 1];
            if c == 0x6E {
                out.push(10);
                i = i + 2;
            } else if c == 0x72 {
                out.push(13);
                i = i + 2;
            } else if c == 0x74 {
                out.push(9);
                i = i + 2;
            } else if c == 0x62 {
                out.push(8);
                i = i + 2;
            } else if c == 0x66 {
                out.push(12);
                i = i + 2;
            } else if c == 0x28 || c == 0x29 || c == 0x5C {
                out.push(c);
                i = i + 2;
            } else if 0x30 <= c && c <= 0x37 {
                let mut v: u32 = (c - 0x30) as u32;
                let mut k = i + 2;
                proof {
                    let s1 = d@.subrange(i + 1, i + 2);
                    assert(s1.drop_last() =~= Seq::<u8>::empty());
                    assert(octal_value(Seq::<u8>::empty()) == 0);
                    assert(s1.last() == c);
                    assert(octal_value(s1) == v);
                }
                if k < d.len() && 0x30 <= d[k] && d[k] <= 0x37 {
                    proof {
                        let s2 = d@.subrange(i + 1, i + 3);
                        assert(s2.drop_last() =~= d@.subrange(i + 1, i + 2));
                        assert(s2.last() == d@[k as int]);
                    }
                    v = v * 8 + (d[k] - 0x30) as u32;
                    k = k + 1;
                    assert(v == octal_value(d@.subrange(i + 1, k as int)));
                    if k < d.len() && 0x30 <= d[k] && d[k] <= 0x37 {
                        proof {
                            let s3 = d@.subrange(i + 1, i + 4);
                            assert(s3.drop_last() =~= d@.subrange(i + 1, i + 3));
                            assert(s3.last() == d@[k as int]);
                        }
                        v = v * 8 + (d[k] - 0x30) as u32;
                        k = k + 1;
                        assert(v == octal_value(d@.subrange(i + 1, k as int)));
                    }
                }
                assert(v == octal_value(d@.subrange(i + 1, k as int)));
                out.push((v % 256) as u8);
                i = k;
            } else if c == 13 {
                if i + 2 < d.len() && d[i + 2] == 10 {
                    i = i + 3;
                } else {
                    i = i + 2;
                }
            } else if c == 10 {
                i = i + 2;
            } else {
                out.push(c);
                i = i + 2;
            }
        } else if b == 13 {
            out.push(10);
            if i + 1 < d.len() && d[i + 1] == 10 {
                i = i + 2;
            } else {
                i = i + 1;
            }
        } else {
            out.push(b);
            i = i + 1;
        }
        proof {
            match lit_from(d@, i as int, depth as nat) {
                Some((s, k)) => {
                    assert(out@ + s =~= before + (out@.subrange(before.len() as int, out@.len() as int) + s));
                },
                None => {},
            }
        }
    }
    None
}

// ---------------------------------------------------------------------------
// Hex strings and names
// ---------------------------------------------------------------------------

/// The bytes of a hex string from position `i` (white space skipped, an
/// odd last digit padded with 0), with `high` the pending high digit, and
/// the position after its `>`; `None` on another byte or a missing `>`.
pub open spec fn hex_from(d: Seq<u8>, i: int, high: Option<u8>) -> Option<(Seq<u8>, int)>
    decreases d.len() - i,
{
    if i < 0 || i >= d.len() {
        None
    } else if d[i] == 0x3E {
        Some(
            (
                match high {
                    Some(h) => seq![(h * 16) as u8],
                    None => Seq::empty(),
                },
                i + 1,
            ),
        )
    } else if is_pdf_ws(d[i]) {
        hex_from(d, i + 1, high)
    } else {
        match hex_digit_of(d[i]) {
            None => None,
            Some(v) => match high {
                None => hex_from(d, i + 1, Some(v)),
                Some(h) => prepend(seq![(h * 16 + v) as u8], hex_from(d, i + 1, None)),
            },
        }
    }
}

fn read_hex_string(d: &[u8], i0: usize) -> (r: Option<(Vec<u8>, usize)>)
    requires
        i0 <= d.len(),
    ensures
        match r {
            Some((v, k)) => hex_from(d@, i0 as int, None) == Some((v@, k as int)) && i0 < k <= d.len(),
            None => hex_from(d@, i0 as int, None) is None,
        },
{
    let mut out: Vec<u8> = Vec::new();
    let mut high: Option<u8> = None;
    let mut i = i0;
    proof {
        assert(out@ + Seq::<u8>::empty() =~= Seq::<u8>::empty());
    }
    while i < d.len()
        invariant
            i0 <= i <= d.len(),
            high matches Some(h) ==> h < 16,
            hex_from(d@, i0 as int, None) == prepend(out@, hex_from(d@, i as int, high)),
        decreases d.len() - i,
    {
        let b = d[i];
        let ghost before = out@;
        if b == 0x3E {
            match high {
                Some(h) => out.push(h * 16),
                None => {},
            }
            return Some((out, i + 1));
        } else if is_pdf_ws_exec(b) {
            i = i + 1;
        } else {
            match hex_digit(b) {
                None => {
                    return None;
                },
                Some(v) => match high {
                    None => {
                        high = Some(v);
                        i = i + 1;
                    },
                    Some(h) => {
                        out.push(h * 16 + v);
                        high = None;
                        i = i + 1;
                        proof {
                            match hex_from(d@, i as int, None) {
                                Some((s, k)) => {
                                    assert(before + (seq![(h * 16 + v) as u8] + s) =~= out@ + s);
                                },
                                None => {},
                            }
                        }
                    },
                },
            }
        }
    }
    None
}

/// The bytes of a name from position `i`: regular bytes, with `#` and two
/// hex digits standing for one byte; and the position after it.
pub open spec fn name_from(d: Seq<u8>, i: int) -> (Seq<u8>, int)
    decreases d.len() - i,
{
    if i < 0 || i >= d.len() || !is_regular(d[i]) {
        (Seq::empty(), i)
    } else if d[i] == 0x23 && i + 2 < d.len() && hex_digit_of(d[i + 1]) is Some && hex_digit_of(
        d[i + 2],
    ) is Some {
        let r = name_from(d, i + 3);
        (
            seq![(hex_digit_of(d[i + 1])->0 * 16 + hex_digit_of(d[i + 2])->0) as u8] + r.0,
            r.1,
        )
    } else {
        let r = name_from(d, i + 1);
        (seq![d[i]] + r.0, r.1)
    }
}

pub proof fn lemma_name_from(d: Seq<u8>, i: int)
    requires
        0 <= i,
    ensures
        i <= name_from(d, i).1,
        name_from(d, i).1 <= d.len() || name_from(d, i).1 == i,
    decreases d.len() - i,
{
    if !(i >= d.len() || !is_regular(d[i])) {
        if d[i] == 0x23 && i + 2 < d.len() && hex_digit_of(d[i + 1]) is Some && hex_digit_of(d[i + 2]) is Some {
            lemma_name_from(d, i + 3);
        } else {
            lemma_name_from(d, i + 1);
        }
    }
}

fn read_name(d: &[u8], i0: usize) -> (r: (Vec<u8>, usize))
    requires
        i0 <= d.len(),
    ensures
        name_from(d@, i0 as int) == (r.0@, r.1 as int),
        i0 <= r.1 <= d.len(),
{
    let mut out: Vec<u8> = Vec::new();
    let mut i = i0;
    proof {
        lemma_name_from(d@, i0 as int);
    }
    while i < d.len() && is_regular_exec(d[i])
        invariant
            i0 <= i <= d.len(),
            name_from(d@, i0 as int) == (out@ + name_from(d@, i as int).0, name_from(d@, i as int).1),
        decreases d.len() - i,
    {
        let ghost before = out@;
        let b = d[i];
        let mut done = false;
        if b == 0x23 && d.len() - i > 2 {
            match (hex_digit(d[i + 1]), hex_digit(d[i + 2])) {
                (Some(h), Some(l)) => {
                    out.push(h * 16 + l);
                    i = i + 3;
                    done = true;
                },
                _ => {},
            }
        }
        if !done {
            out.push(b);
            i = i + 1;
        }
        proof {
            let r = name_from(d@, i as int);
            assert(before + (out@.subrange(before.len() as int, out@.len() as int) + r.0) =~= out@ + r.0);
        }
    }
    proof {
        assert(out@ + Seq::<u8>::empty() =~= out@);
    }
    (out, i)
}


// ---------------------------------------------------------------------------
// Numbers
// ---------------------------------------------------------------------------

/// A number operand as written: sign, the digits before and after the
/// decimal point (as digit values), and whether it had a decimal point.
#[derive(Debug, Clone, PartialEq, Eq)]
pub struct PdfNumber {
    /// Whether a minus sign came first.
    pub negative: bool,
    /// The digits before the decimal point, most significant first.
    pub int_digits: Vec<u8>,
    /// The digits after the decimal point.
    pub frac_digits: Vec<u8>,
    /// Whether the number had a decimal point (a real number).
    pub is_real: bool,
}

/// A number as plain values.
pub type NumView = (bool, Seq<u8>, Seq<u8>, bool);

impl View for PdfNumber {
    type V = NumView;

    open spec fn view(&self) -> NumView {
        (self.negative, self.int_digits@, self.frac_digits@, self.is_real)
    }
}

/// Whether a byte is an ASCII digit.
pub open spec fn is_digit_byte(b: u8) -> bool {
    0x30 <= b <= 0x39
}

/// The end of the run of digits that starts at `i`.
pub open spec fn digits_end(d: Seq<u8>, i: int) -> int
    decreases d.len() - i,
{
    if i < 0 || i >= d.len() || !is_digit_byte(d[i]) {
        i
    } else {
        digits_end(d, i + 1)
    }
}

pub proof fn lemma_digits_end(d: Seq<u8>, i: int)
    requires
        0 <= i,
    ensures
        i <= digits_end(d, i),
        digits_end(d, i) <= d.len() || digits_end(d, i) == i,
        forall|k: int| i <= k < digits_end(d, i) ==> is_digit_byte(#[trigger] d[k]),
    decreases d.len() - i,
{
    if !(i >= d.len() || !is_digit_byte(d[i])) {
        lemma_digits_end(d, i + 1);
    }
}

/// The digit values of digit bytes.
pub open spec fn digit_values(s: Seq<u8>) -> Seq<u8> {
    s.map_values(|b: u8| (b - 0x30) as u8)
}

/// Whether a byte can start a number.
pub open spec fn is_number_start(b: u8) -> bool {
    b == 0x2B || b == 0x2D || b == 0x2E || is_digit_byte(b)
}

/// The number at position `i` and the position after it: an optional
/// sign, digits, and an optional decimal point with digits, with at least
/// one digit in all.
pub open spec fn number_at(d: Seq<u8>, i: int) -> Option<(NumView, int)> {
    if i < 0 || i >= d.len() {
        None
    } else {
        let neg = d[i] == 0x2D;
        let s = if d[i] == 0x2B || d[i] == 0x2D {
            i + 1
        } else {
            i
        };
        let e1 = digits_end(d, s);
        if e1 < d.len() && d[e1] == 0x2E {
            let e2 = digits_end(d, e1 + 1);
            if e1 == s && e2 == e1 + 1 {
                None
            } else {
                Some(
                    (
                        (
                            neg,
                            digit_values(d.subrange(s, e1)),
                            digit_values(d.subrange(e1 + 1, e2)),
                            true,
                        ),
                        e2,
                    ),
                )
            }
        } else if e1 > s {
            Some(((neg, digit_values(d.subrange(s, e1)), Seq::empty(), false), e1))
        } else {
            None
        }
    }
}

fn digits_end_exec(d: &[u8], i0: usize) -> (j: usize)
    requires
        i0 <= d.len(),
    ensures
        j == digits_end(d@, i0 as int),
        i0 <= j <= d.len(),
{
    let mut i = i0;
    proof {
        lemma_digits_end(d@, i0 as int);
    }
    while i < d.len() && 0x30 <= d[i] && d[i] <= 0x39
        invariant
            i0 <= i <= d.len(),
            digits_end(d@, i0 as int) == digits_end(d@, i as int),
        decreases d.len() - i,
    {
        i = i + 1;
    }
    i
}

fn digit_values_exec(d: &[u8], from: usize, to: usize) -> (r: Vec<u8>)
    requires
        from <= to <= d.len(),
        forall|k: int| from <= k < to ==> is_digit_byte(#[trigger] d@[k]),
    ensures
        r@ == digit_values(d@.subrange(from as int, to as int)),
{
    let mut v: Vec<u8> = Vec::new();
    let mut k = from;
    while k < to
        invariant
            from <= k <= to <= d.len(),
            forall|j: int| from <= j < to ==> is_digit_byte(#[trigger] d@[j]),
            v@ == digit_values(d@.subrange(from as int, k as int)),
        decreases to - k,
    {
        v.push(d[k] - 0x30);
        k = k + 1;
        assert(v@ =~= digit_values(d@.subrange(from as int, k as int)));
    }
    v
}

fn read_number(d: &[u8], i: usize) -> (r: Option<(PdfNumber, usize)>)
    requires
        i < d.len(),
    ensures
        match r {
            Some((n, k)) => number_at(d@, i as int) == Some((n@, k as int)) && i < k <= d.len(),
            None => number_at(d@, i as int) is None,
        },
{
    let neg = d[i] == 0x2D;
    let s = if d[i] == 0x2B || d[i] == 0x2D { i + 1 } else { i };
    let e1 = digits_end_exec(d, s);
    proof {
        lemma_digits_end(d@, s as int);
    }
    if e1 < d.len() && d[e1] == 0x2E {
        let e2 = digits_end_exec(d, e1 + 1);
        proof {
            lemma_digits_end(d@, e1 + 1);
        }
        if e1 == s && e2 == e1 + 1 {
            return None;
        }
        let ip = digit_values_exec(d, s, e1);
        let fp = digit_values_exec(d, e1 + 1, e2);
        Some((PdfNumber { negative: neg, int_digits: ip, frac_digits: fp, is_real: true }, e2))
    } else if e1 > s {
        let ip = digit_values_exec(d, s, e1);
        Some((PdfNumber { negative: neg, int_digits: ip, frac_digits: Vec::new(), is_real: false }, e1))
    } else {
        None
    }
}

// ---------------------------------------------------------------------------
// Operands
// ---------------------------------------------------------------------------

/// An item of an array operand; nested arrays and dictionaries, names and
/// keywords are `Other`.
#[derive(Debug, Clone, PartialEq)]
pub enum ArrayItem {
    /// A number.
    Number(PdfNumber),
    /// A string (literal or hex), by its bytes.
    Str(Vec<u8>),
    /// Any other object.
    Other,
}

/// An operand of a content stream operator.
#[derive(Debug, PartialEq)]
pub enum Operand {
    /// A number.
    Number(PdfNumber),
    /// A string (literal or hex), by its bytes.
    Str(Vec<u8>),
    /// A name, by its bytes (without `/`, `#xx` decoded).
    Name(Vec<u8>),
    /// An array.
    Array(Vec<ArrayItem>),
    /// A dictionary: the objects between `<<` and `>>`, in order (keys and
    /// values alternating).
    Dict(Vec<Operand>),
    /// `true` or `false`.
    Boolean(bool),
    /// `null`.
    Null,
}

/// A token of a content stream.
#[derive(Debug, PartialEq)]
pub enum ContentToken {
    /// An operand.
    Operand(Operand),
    /// An operator, by its name's bytes.
    Operator(Vec<u8>),
    /// An inline image: the name-keyed entries of its dictionary (between
    /// `BI` and `ID`), in order, and its data bytes (between `ID` and `EI`).
    InlineImage {
        /// The entries whose key is a name: the name's bytes and the value.
        dict: Vec<(Vec<u8>, Operand)>,
        /// The image data.
        data: Vec<u8>,
    },
}

/// An array item as plain values.
pub enum ItemView {
    Num(NumView),
    Str(Seq<u8>),
    Other,
}

/// An operand as plain values.
pub enum OperandView {
    Num(NumView),
    Str(Seq<u8>),
    Name(Seq<u8>),
    Array(Seq<ItemView>),
    Dict(Seq<OperandView>),
    Bool(bool),
    Null,
}

/// A token as plain values.
pub enum TokView {
    Operand(OperandView),
    Operator(Seq<u8>),
    InlineImage(Seq<(Seq<u8>, OperandView)>, Seq<u8>),
}

/// The plain values of inline image dictionary entries.
pub open spec fn image_entries_view(es: Seq<(Vec<u8>, Operand)>) -> Seq<(Seq<u8>, OperandView)> {
    es.map_values(|e: (Vec<u8>, Operand)| (e.0@, e.1@))
}

impl View for ArrayItem {
    type V = ItemView;

    open spec fn view(&self) -> ItemView {
        match self {
            ArrayItem::Number(n) => ItemView::Num(n@),
            ArrayItem::Str(s) => ItemView::Str(s@),
            ArrayItem::Other => ItemView::Other,
        }
    }
}

/// The plain value of an operand.
pub open spec fn operand_view(o: Operand) -> OperandView
    decreases o, 1int,
{
    match o {
        Operand::Number(n) => OperandView::Num(n@),
        Operand::Str(s) => OperandView::Str(s@),
        Operand::Name(s) => OperandView::Name(s@),
        Operand::Array(v) => OperandView::Array(v@.map_values(|x: ArrayItem| x@)),
        Operand::Dict(v) => OperandView::Dict(operands_view(v@)),
        Operand::Boolean(b) => OperandView::Bool(b),
        Operand::Null => OperandView::Null,
    }
}

/// The plain values of a sequence of operands.
pub open spec fn operands_view(s: Seq<Operand>) -> Seq<OperandView>
    decreases s, 0int,
{
    if s.len() == 0 {
        Seq::empty()
    } else {
        operands_view(s.drop_last()).push(operand_view(s.last()))
    }
}

/// The plain values of operands, element by element.
pub proof fn lemma_operands_view(s: Seq<Operand>)
    ensures
        operands_view(s).len() == s.len(),
        forall|i: int| 0 <= i < s.len() ==> #[trigger] operands_view(s)[i] == operand_view(s[i]),
    decreases s.len(),
{
    if s.len() > 0 {
        lemma_operands_view(s.drop_last());
    }
}

impl View for Operand {
    type V = OperandView;

    open spec fn view(&self) -> OperandView {
        operand_view(*self)
    }
}

impl View for ContentToken {
    type V = TokView;

    open spec fn view(&self) -> TokView {
        match self {
            ContentToken::Operand(o) => TokView::Operand(o@),
            ContentToken::Operator(n) => TokView::Operator(n@),
            ContentToken::InlineImage { dict, data } => TokView::InlineImage(
                image_entries_view(dict@),
                data@,
            ),
        }
    }
}

/// The array item that an operand stands for inside an array.
pub open spec fn item_of(o: OperandView) -> ItemView {
    match o {
        OperandView::Num(n) => ItemView::Num(n),
        OperandView::Str(s) => ItemView::Str(s),
        _ => ItemView::Other,
    }
}

/// The keyword operand a word is: `true`, `false` or `null`.
pub open spec fn keyword_value(w: Seq<u8>) -> Option<OperandView> {
    if w == seq![0x74u8, 0x72u8, 0x75u8, 0x65u8] {
        Some(OperandView::Bool(true))
    } else if w == seq![0x66u8, 0x61u8, 0x6Cu8, 0x73u8, 0x65u8] {
        Some(OperandView::Bool(false))
    } else if w == seq![0x6Eu8, 0x75u8, 0x6Cu8, 0x6Cu8] {
        Some(OperandView::Null)
    } else {
        None
    }
}

/// The operand at position `i` and the position after it; `None` where
/// no operand starts there.
pub open spec fn object_at(d: Seq<u8>, i: int) -> Option<(OperandView, int)>
    decreases d.len() - i, 0int,
{
    if i < 0 || i >= d.len() {
        None
    } else {
        let b = d[i];
        if b == 0x28 {
            match lit_from(d, i + 1, 0) {
                Some((s, k)) => Some((OperandView::Str(s), k)),
                None => None,
            }
        } else if b == 0x3C {
            if i + 1 < d.len() && d[i + 1] == 0x3C {
                match dict_from(d, i + 2) {
                    Some((items, k)) => Some((OperandView::Dict(items), k)),
                    None => None,
                }
            } else {
                match hex_from(d, i + 1, None) {
                    Some((s, k)) => Some((OperandView::Str(s), k)),
                    None => None,
                }
            }
        } else if b == 0x5B {
            match array_from(d, i + 1) {
                Some((items, k)) => Some((OperandView::Array(items), k)),
                None => None,
            }
        } else if b == 0x2F {
            let r = name_from(d, i + 1);
            Some((OperandView::Name(r.0), r.1))
        } else if is_number_start(b) {
            match number_at(d, i) {
                Some((n, k)) => Some((OperandView::Num(n), k)),
                None => None,
            }
        } else if is_regular(b) {
            let e = regular_end(d, i);
            match keyword_value(d.subrange(i, e)) {
                Some(o) => Some((o, e)),
                None => None,
            }
        } else {
            None
        }
    }
}

/// The items of an array whose contents start at `j`, and the position
/// after its `]`.
pub open spec fn array_from(d: Seq<u8>, j: int) -> Option<(Seq<ItemView>, int)>
    decreases d.len() - j, 1int,
{
    if j < 0 || j > d.len() {
        None
    } else {
        proof {
            lemma_skip_space(d, j);
        }
        let k = skip_space(d, j);
        if k >= d.len() {
            None
        } else if d[k] == 0x5D {
            Some((Seq::empty(), k + 1))
        } else {
            match object_at(d, k) {
                None => None,
                Some((o, e)) => if e <= k || e > d.len() {
                    None
                } else {
                    match array_from(d, e) {
                        None => None,
                        Some((items, f)) => Some((seq![item_of(o)] + items, f)),
                    }
                },
            }
        }
    }
}

/// The objects of a dictionary whose contents start at `j`, and the
/// position after its `>>`.
pub open spec fn dict_from(d: Seq<u8>, j: int) -> Option<(Seq<OperandView>, int)>
    decreases d.len() - j, 1int,
{
    if j < 0 || j > d.len() {
        None
    } else {
        proof {
            lemma_skip_space(d, j);
        }
        let k = skip_space(d, j);
        if k >= d.len() {
            None
        } else if d[k] == 0x3E && k + 1 < d.len() && d[k + 1] == 0x3E {
            Some((Seq::empty(), k + 2))
        } else {
            match object_at(d, k) {
                None => None,
                Some((o, e)) => if e <= k || e > d.len() {
                    None
                } else {
                    match dict_from(d, e) {
                        None => None,
                        Some((items, f)) => Some((seq![o] + items, f)),
                    }
                },
            }
        }
    }
}

fn keyword_exec(d: &[u8], i: usize, e: usize) -> (r: Option<Operand>)
    requires
        i <= e <= d.len(),
    ensures
        match r {
            Some(o) => keyword_value(d@.subrange(i as int, e as int)) == Some(o@),
            None => keyword_value(d@.subrange(i as int, e as int)) is None,
        },
{
    let n = e - i;
    let ghost w = d@.subrange(i as int, e as int);
    if n == 4 && d[i] == 0x74 && d[i + 1] == 0x72 && d[i + 2] == 0x75 && d[i + 3] == 0x65 {
        assert(w =~= seq![0x74u8, 0x72u8, 0x75u8, 0x65u8]);
        let r = Operand::Boolean(true);
        assert(keyword_value(w) == Some(OperandView::Bool(true)));
        assert(r@ == OperandView::Bool(true));
        Some(r)
    } else if n == 5 && d[i] == 0x66 && d[i + 1] == 0x61 && d[i + 2] == 0x6C && d[i + 3] == 0x73 && d[i + 4] == 0x65 {
        assert(w =~= seq![0x66u8, 0x61u8, 0x6Cu8, 0x73u8, 0x65u8]);
        assert(w.len() != seq![0x74u8, 0x72u8, 0x75u8, 0x65u8].len());
        let r = Operand::Boolean(false);
        assert(keyword_value(w) == Some(OperandView::Bool(false)));
        assert(r@ == OperandView::Bool(false));
        Some(r)
    } else if n == 4 && d[i] == 0x6E && d[i + 1] == 0x75 && d[i + 2] == 0x6C && d[i + 3] == 0x6C {
        assert(w =~= seq![0x6Eu8, 0x75u8, 0x6Cu8, 0x6Cu8]);
        assert(w != seq![0x74u8, 0x72u8, 0x75u8, 0x65u8]) by {
            assert(w[0] == 0x6Eu8);
            assert(seq![0x74u8, 0x72u8, 0x75u8, 0x65u8][0] == 0x74u8);
        }
        assert(w.len() != seq![0x66u8, 0x61u8, 0x6Cu8, 0x73u8, 0x65u8].len());
        let r = Operand::Null;
        assert(keyword_value(w) == Some(OperandView::Null));
        assert(r@ == OperandView::Null);
        Some(r)
    } else {
        proof {
            if w =~= seq![0x74u8, 0x72u8, 0x75u8, 0x65u8] {
                assert(w[0] == d@[i as int] && w[1] == d@[i + 1] && w[2] == d@[i + 2] && w[3] == d@[i + 3]);
            }
            if w =~= seq![0x66u8, 0x61u8, 0x6Cu8, 0x73u8, 0x65u8] {
                assert(w[0] == d@[i as int] && w[1] == d@[i + 1] && w[2] == d@[i + 2] && w[3] == d@[i + 3] && w[4] == d@[i + 4]);
            }
            if w =~= seq![0x6Eu8, 0x75u8, 0x6Cu8, 0x6Cu8] {
                assert(w[0] == d@[i as int] && w[1] == d@[i + 1] && w[2] == d@[i + 2] && w[3] == d@[i + 3]);
            }
            assert(keyword_value(w) is None);
        }
        None
    }
}

fn item_of_exec(o: Operand) -> (r: ArrayItem)
    ensures
        r@ == item_of(o@),
{
    match o {
        Operand::Number(n) => ArrayItem::Number(n),
        Operand::Str(s) => ArrayItem::Str(s),
        _ => ArrayItem::Other,
    }
}

/// Reads the operand at position `i`.
pub fn read_object(d: &[u8], i: usize) -> (r: Option<(Operand, usize)>)
    requires
        i <= d.len(),
    ensures
        match r {
            Some((o, k)) => object_at(d@, i as int) == Some((o@, k as int)),
            None => object_at(d@, i as int) is None,
        },
    decreases d.len() - i, 0int,
{
    if i >= d.len() {
        return None;
    }
    let b = d[i];
    if b == 0x28 {
        match read_literal(d, i + 1) {
            Some((s, k)) => Some((Operand::Str(s), k)),
            None => None,
        }
    } else if b == 0x3C {
        if i + 1 < d.len() && d[i + 1] == 0x3C {
            match read_dict(d, i + 2) {
                Some((items, k)) => Some((Operand::Dict(items), k)),
                None => None,
            }
        } else {
            match read_hex_string(d, i + 1) {
                Some((s, k)) => Some((Operand::Str(s), k)),
                None => None,
            }
        }
    } else if b == 0x5B {
        match read_array(d, i + 1) {
            Some((items, k)) => Some((Operand::Array(items), k)),
            None => None,
        }
    } else if b == 0x2F {
        let (n, k) = read_name(d, i + 1);
        Some((Operand::Name(n), k))
    } else if b == 0x2B || b == 0x2D || b == 0x2E || (0x30 <= b && b <= 0x39) {
        match read_number(d, i) {
            Some((n, k)) => Some((Operand::Number(n), k)),
            None => None,
        }
    } else if is_regular_exec(b) {
        let e = regular_end_exec(d, i);
        match keyword_exec(d, i, e) {
            Some(o) => Some((o, e)),
            None => None,
        }
    } else {
        None
    }
}

fn read_array(d: &[u8], j: usize) -> (r: Option<(Vec<ArrayItem>, usize)>)
    requires
        j <= d.len(),
    ensures
        match r {
            Some((items, k)) => array_from(d@, j as int) == Some(
                (items@.map_values(|x: ArrayItem| x@), k as int),
            ),
            None => array_from(d@, j as int) is None,
        },
    decreases d.len() - j, 1int,
{
    let k = skip_space_exec(d, j);
    if k >= d.len() {
        return None;
    }
    if d[k] == 0x5D {
        let v: Vec<ArrayItem> = Vec::new();
        assert(v@.map_values(|x: ArrayItem| x@) =~= Seq::<ItemView>::empty());
        return Some((v, k + 1));
    }
    match read_object(d, k) {
        None => None,
        Some((o, e)) => {
            if e <= k || e > d.len() {
                return None;
            }
            match read_array(d, e) {
                None => None,
                Some((rest, f)) => {
                    let first = item_of_exec(o);
                    let mut items = rest;
                    let ghost rv = items@.map_values(|x: ArrayItem| x@);
                    let ghost old_items = items@;
                    items.insert(0, first);
                    assert(items@ == old_items.insert(0, first));
                    assert(items@.map_values(|x: ArrayItem| x@) =~= seq![first@] + rv);
                    Some((items, f))
                },
            }
        },
    }
}

fn read_dict(d: &[u8], j: usize) -> (r: Option<(Vec<Operand>, usize)>)
    requires
        j <= d.len(),
    ensures
        match r {
            Some((items, k)) => dict_from(d@, j as int) == Some((operands_view(items@), k as int)),
            None => dict_from(d@, j as int) is None,
        },
    decreases d.len() - j, 1int,
{
    let k = skip_space_exec(d, j);
    if k >= d.len() {
        return None;
    }
    if d[k] == 0x3E && k + 1 < d.len() && d[k + 1] == 0x3E {
        let v: Vec<Operand> = Vec::new();
        assert(operands_view(v@) =~= Seq::<OperandView>::empty());
        return Some((v, k + 2));
    }
    match read_object(d, k) {
        None => None,
        Some((o, e)) => {
            if e <= k || e > d.len() {
                return None;
            }
            match read_dict(d, e) {
                None => None,
                Some((rest, f)) => {
                    let ghost ov = o@;
                    let mut items = rest;
                    let ghost old_items = items@;
                    proof {
                        lemma_operands_view(old_items);
                    }
                    items.insert(0, o);
                    proof {
                        assert(items@ == old_items.insert(0, items@[0]));
                        lemma_operands_view(items@);
                        assert(operands_view(items@) =~= seq![ov] + operands_view(old_items)) by {
                            assert forall|q: int| 1 <= q < items@.len() implies items@[q] == old_items[q - 1] by {}
                        }
                    }
                    Some((items, f))
                },
            }
        },
    }
}


// ---------------------------------------------------------------------------
// Inline images and operators
// ---------------------------------------------------------------------------

/// The first position from `i` on that is not PDF white space.
pub open spec fn ws_end(d: Seq<u8>, i: int) -> int
    decreases d.len() - i,
{
    if i < 0 || i >= d.len() || !is_pdf_ws(d[i]) {
        i
    } else {
        ws_end(d, i + 1)
    }
}

pub proof fn lemma_ws_end(d: Seq<u8>, i: int)
    requires
        0 <= i,
    ensures
        i <= ws_end(d, i),
        ws_end(d, i) <= d.len() || ws_end(d, i) == i,
    decreases d.len() - i,
{
    if !(i >= d.len() || !is_pdf_ws(d[i])) {
        lemma_ws_end(d, i + 1);
    }
}

/// Whether an inline image starts at `j`: `BI` and a white-space byte.
pub open spec fn is_bi(d: Seq<u8>, j: int) -> bool {
    0 <= j && j + 2 < d.len() && d[j] == 0x42 && d[j + 1] == 0x49 && is_pdf_ws(d[j + 2])
}

/// The position of the `ID` that ends an inline image dictionary whose
/// key/value pairs start at `pos`, or the message of its error.
pub open spec fn bi_dict(d: Seq<u8>, pos: int) -> Result<int, Seq<char>>
    decreases d.len() - pos,
{
    if pos < 0 || pos > d.len() {
        Err("Inline image: ID marker not found"@)
    } else {
        proof {
            lemma_ws_end(d, pos);
        }
        let p = ws_end(d, pos);
        if p + 1 < d.len() && d[p] == 0x49 && d[p + 1] == 0x44 {
            Ok(p)
        } else if p >= d.len() {
            Err("Inline image: ID marker not found"@)
        } else {
            match object_at(d, p) {
                None => Err("Inline image dict key: invalid object"@),
                Some((_, k1)) => {
                    let p2 = skip_space(d, k1);
                    match object_at(d, p2) {
                        None => Err("Inline image dict value: invalid object"@),
                        Some((_, k2)) => if k2 <= pos || k2 > d.len() {
                            Err("Inline image dict value: invalid object"@)
                        } else {
                            bi_dict(d, k2)
                        },
                    }
                },
            }
        }
    }
}

/// The entries of an inline image dictionary from `pos` up to `ID` whose
/// key is a name: the name's bytes and the value, in order.
pub open spec fn bi_entries(d: Seq<u8>, pos: int) -> Seq<(Seq<u8>, OperandView)>
    decreases d.len() - pos,
{
    if pos < 0 || pos > d.len() {
        Seq::empty()
    } else {
        proof {
            lemma_ws_end(d, pos);
        }
        let p = ws_end(d, pos);
        if p + 1 < d.len() && d[p] == 0x49 && d[p + 1] == 0x44 {
            Seq::empty()
        } else if p >= d.len() {
            Seq::empty()
        } else {
            match object_at(d, p) {
                None => Seq::empty(),
                Some((key, k1)) => {
                    let p2 = skip_space(d, k1);
                    match object_at(d, p2) {
                        None => Seq::empty(),
                        Some((value, k2)) => if k2 <= pos || k2 > d.len() {
                            Seq::empty()
                        } else {
                            match key {
                                OperandView::Name(n) => seq![(n, value)] + bi_entries(d, k2),
                                _ => bi_entries(d, k2),
                            }
                        },
                    }
                },
            }
        }
    }
}

/// The position of the white-space byte before the `EI` that ends inline
/// image data, searching from `pos`.
pub open spec fn ei_from(d: Seq<u8>, pos: int) -> Option<int>
    decreases d.len() - pos,
{
    if pos < 0 || pos + 2 >= d.len() {
        None
    } else if is_pdf_ws(d[pos]) && d[pos + 1] == 0x45 && d[pos + 2] == 0x49 && (pos + 3 >= d.len()
        || is_pdf_ws(d[pos + 3])) {
        Some(pos)
    } else {
        ei_from(d, pos + 1)
    }
}

pub proof fn lemma_ei_from(d: Seq<u8>, pos: int)
    requires
        0 <= pos,
    ensures
        ei_from(d, pos) matches Some(q) ==> pos <= q && q + 2 < d.len(),
    decreases d.len() - pos,
{
    if !(pos + 2 >= d.len()) && !(is_pdf_ws(d[pos]) && d[pos + 1] == 0x45 && d[pos + 2] == 0x49 && (
    pos + 3 >= d.len() || is_pdf_ws(d[pos + 3]))) {
        lemma_ei_from(d, pos + 1);
    }
}

/// The data of an inline image that starts at `j` and the position after
/// its `EI`: the dictionary up to `ID`, one white-space byte, then the
/// data up to white space, `EI` and white space (or the end).
pub open spec fn inline_image_at(d: Seq<u8>, j: int) -> Result<(Seq<u8>, int), Seq<char>> {
    match bi_dict(d, j + 2) {
        Err(e) => Err(e),
        Ok(p) => {
            let s0 = p + 2;
            let s = if s0 < d.len() && is_pdf_ws(d[s0]) {
                s0 + 1
            } else {
                s0
            };
            match ei_from(d, s) {
                Some(q) => Ok((d.subrange(s, q), q + 3)),
                None => Err("Inline image: EI marker not found"@),
            }
        },
    }
}

/// The operator name at `j` and the position after it; an error where no
/// regular byte starts there (exact message) or the name is not UTF-8
/// (message starting as given).
pub open spec fn operator_at(d: Seq<u8>, j: int) -> Result<(Seq<u8>, int), (Seq<char>, bool)> {
    let e = regular_end(d, j);
    if e == j {
        Err(("Unexpected byte in content stream: 0x"@ + hex_pair_lower(d[j]), true))
    } else if !valid_utf8(d.subrange(j, e)) {
        Err(("Invalid operator name: "@, false))
    } else {
        Ok((d.subrange(j, e), e))
    }
}

/// Prepends a token to a token list result.
pub open spec fn prepend_tok(t: TokView, r: Result<Seq<TokView>, (Seq<char>, bool)>) -> Result<
    Seq<TokView>,
    (Seq<char>, bool),
> {
    match r {
        Ok(s) => Ok(seq![t] + s),
        Err(e) => Err(e),
    }
}

/// The tokens of a content stream from position `i` on, or its error
/// (message, and whether the message is exact or only its start).
pub open spec fn lex_from(d: Seq<u8>, i: int) -> Result<Seq<TokView>, (Seq<char>, bool)>
    decreases d.len() - i,
{
    if i < 0 || i > d.len() {
        Ok(Seq::empty())
    } else {
        proof {
            lemma_skip_space(d, i);
        }
        let j = skip_space(d, i);
        if j >= d.len() {
            Ok(Seq::empty())
        } else if is_bi(d, j) {
            match inline_image_at(d, j) {
                Err(m) => Err((m, true)),
                Ok((data, k)) => if k <= j || k > d.len() {
                    Err(("Inline image: EI marker not found"@, true))
                } else {
                    prepend_tok(TokView::InlineImage(bi_entries(d, j + 2), data), lex_from(d, k))
                },
            }
        } else {
            match object_at(d, j) {
                Some((o, k)) => if k <= j || k > d.len() {
                    Err(("Unexpected byte in content stream: 0x"@ + hex_pair_lower(d[j]), true))
                } else {
                    prepend_tok(TokView::Operand(o), lex_from(d, k))
                },
                None => match operator_at(d, j) {
                    Err(e) => Err(e),
                    Ok((n, k)) => {
                        proof {
                            lemma_regular_end(d, j);
                        }
                        prepend_tok(TokView::Operator(n), lex_from(d, k))
                    },
                },
            }
        }
    }
}

/// The views of tokens.
pub open spec fn token_views(t: Seq<ContentToken>) -> Seq<TokView> {
    t.map_values(|x: ContentToken| x@)
}

/// A UTF-8 decoding error of std.
#[verifier::external_type_specification]
#[verifier::external_body]
pub struct ExUtf8Error(std::str::Utf8Error);

/// std `str::from_utf8`: an error exactly when the bytes are not valid
/// UTF-8.
#[verifier::external_body]
fn utf8_error_of(bytes: &[u8]) -> (r: Option<std::str::Utf8Error>)
    ensures
        r is Some <==> !vstd::utf8::valid_utf8(bytes@),
{
    std::str::from_utf8(bytes).err()
}

/// The text of a UTF-8 decoding error (std `Utf8Error` display).
///
/// Nothing is claimed of the text.
#[verifier::external_body]
fn utf8_error_text(e: &std::str::Utf8Error) -> String {
    format!("{}", e)
}

fn parse_error(msg: &str) -> (r: PdfError)
    ensures
        r matches PdfError::ParseError(m) && m@ == msg@,
{
    let mut out: Vec<char> = Vec::new();
    append_str(&mut out, msg);
    PdfError::ParseError(string_from_chars(out.as_slice()))
}

fn unexpected_byte(b: u8) -> (r: PdfError)
    ensures
        r matches PdfError::ParseError(m) && m@ == "Unexpected byte in content stream: 0x"@ + hex_pair_lower(b),
{
    let mut out: Vec<char> = Vec::new();
    append_str(&mut out, "Unexpected byte in content stream: 0x");
    let one: Vec<u8> = vec![b];
    write_hex(&mut out, one.as_slice());
    proof {
        assert(one@ =~= Seq::<u8>::empty().push(b));
        crate::seqs::lemma_concat_map_push(Seq::<u8>::empty(), b, |x: u8| hex_pair_lower(x));
        assert(crate::seqs::concat_map(Seq::<u8>::empty(), |x: u8| hex_pair_lower(x)) =~= Seq::<char>::empty());
    }
    PdfError::ParseError(string_from_chars(out.as_slice()))
}

fn read_bi_dict(d: &[u8], pos0: usize) -> (r: Result<(usize, Vec<(Vec<u8>, Operand)>), PdfError>)
    requires
        pos0 <= d.len(),
    ensures
        match r {
            Ok((p, es)) => bi_dict(d@, pos0 as int) == Ok::<int, Seq<char>>(p as int) && p + 1 < d.len()
                && image_entries_view(es@) == bi_entries(d@, pos0 as int),
            Err(e) => bi_dict(d@, pos0 as int) is Err && (e matches PdfError::ParseError(m) && m@
                == bi_dict(d@, pos0 as int)->Err_0),
        },
{
    let mut pos = pos0;
    let mut entries: Vec<(Vec<u8>, Operand)> = Vec::new();
    assert(image_entries_view(entries@) + bi_entries(d@, pos0 as int) =~= bi_entries(d@, pos0 as int));
    while pos <= d.len()
        invariant
            pos0 <= pos <= d.len(),
            bi_dict(d@, pos0 as int) == bi_dict(d@, pos as int),
            image_entries_view(entries@) + bi_entries(d@, pos as int) == bi_entries(d@, pos0 as int),
        decreases d.len() - pos,
    {
        let mut p = pos;
        proof {
            lemma_ws_end(d@, pos as int);
        }
        while p < d.len() && is_pdf_ws_exec(d[p])
            invariant
                pos <= p <= d.len(),
                ws_end(d@, pos as int) == ws_end(d@, p as int),
            decreases d.len() - p,
        {
            p = p + 1;
        }
        if p < d.len() && d.len() - p > 1 && d[p] == 0x49 && d[p + 1] == 0x44 {
            assert(image_entries_view(entries@) + Seq::<(Seq<u8>, OperandView)>::empty() =~= image_entries_view(entries@));
            return Ok((p, entries));
        }
        if p >= d.len() {
            return Err(parse_error("Inline image: ID marker not found"));
        }
        match read_object(d, p) {
            None => {
                return Err(parse_error("Inline image dict key: invalid object"));
            },
            Some((key, k1)) => {
                proof {
                    lemma_object_at_bound(d@, p as int);
                }
                let p2 = skip_space_exec(d, k1);
                match read_object(d, p2) {
                    None => {
                        return Err(parse_error("Inline image dict value: invalid object"));
                    },
                    Some((value, k2)) => {
                        proof {
                            lemma_object_at_bound(d@, p2 as int);
                        }
                        if k2 <= pos || k2 > d.len() {
                            return Err(parse_error("Inline image dict value: invalid object"));
                        }
                        let ghost before = image_entries_view(entries@);
                        match key {
                            Operand::Name(n) => {
                                let ghost nv = n@;
                                let ghost vv = value@;
                                entries.push((n, value));
                                proof {
                                    assert(image_entries_view(entries@) =~= before + seq![(nv, vv)]);
                                    assert(before + seq![(nv, vv)] + bi_entries(d@, k2 as int) =~= before
                                        + (seq![(nv, vv)] + bi_entries(d@, k2 as int)));
                                }
                            },
                            _ => {},
                        }
                        pos = k2;
                    },
                }
            },
        }
    }
    Err(parse_error("Inline image: ID marker not found"))
}

/// The end position of an operand lies within the data.
pub proof fn lemma_object_at_bound(d: Seq<u8>, i: int)
    requires
        0 <= i,
    ensures
        object_at(d, i) matches Some((_, k)) ==> k <= d.len(),
{
    if 0 <= i < d.len() {
        let b = d[i];
        if b == 0x28 {
            lemma_lit_from(d, i + 1, 0);
        } else if b == 0x3C {
            if i + 1 < d.len() && d[i + 1] == 0x3C {
                lemma_dict_bound(d, i + 2);
            } else {
                lemma_hex_from_bound(d, i + 1, None);
            }
        } else if b == 0x5B {
            lemma_array_bound(d, i + 1);
        } else if b == 0x2F {
            lemma_name_from(d, i + 1);
        } else if is_number_start(b) {
            let s = if d[i] == 0x2B || d[i] == 0x2D { i + 1 } else { i };
            lemma_digits_end(d, s);
            let e1 = digits_end(d, s);
            if e1 < d.len() && d[e1] == 0x2E {
                lemma_digits_end(d, e1 + 1);
            }
        } else if is_regular(b) {
            lemma_regular_end(d, i);
        }
    }
}

pub proof fn lemma_hex_from_bound(d: Seq<u8>, i: int, high: Option<u8>)
    requires
        0 <= i,
    ensures
        hex_from(d, i, high) matches Some((_, k)) ==> k <= d.len(),
    decreases d.len() - i,
{
    if 0 <= i < d.len() && d[i] != 0x3E {
        if is_pdf_ws(d[i]) {
            lemma_hex_from_bound(d, i + 1, high);
        } else {
            match hex_digit_of(d[i]) {
                None => {},
                Some(v) => match high {
                    None => lemma_hex_from_bound(d, i + 1, Some(v)),
                    Some(_) => lemma_hex_from_bound(d, i + 1, None),
                },
            }
        }
    }
}

pub proof fn lemma_array_bound(d: Seq<u8>, j: int)
    requires
        0 <= j,
    ensures
        array_from(d, j) matches Some((_, k)) ==> k <= d.len(),
    decreases d.len() - j,
{
    if j <= d.len() {
        lemma_skip_space(d, j);
        let k = skip_space(d, j);
        if k < d.len() && d[k] != 0x5D {
            match object_at(d, k) {
                None => {},
                Some((_, e)) => if !(e <= k || e > d.len()) {
                    lemma_array_bound(d, e);
                },
            }
        }
    }
}

pub proof fn lemma_dict_bound(d: Seq<u8>, j: int)
    requires
        0 <= j,
    ensures
        dict_from(d, j) matches Some((_, k)) ==> k <= d.len(),
    decreases d.len() - j,
{
    if j <= d.len() {
        lemma_skip_space(d, j);
        let k = skip_space(d, j);
        if k < d.len() && !(d[k] == 0x3E && k + 1 < d.len() && d[k + 1] == 0x3E) {
            match object_at(d, k) {
                None => {},
                Some((_, e)) => if !(e <= k || e > d.len()) {
                    lemma_dict_bound(d, e);
                },
            }
        }
    }
}

fn read_inline_image(d: &[u8], j: usize) -> (r: Result<(Vec<(Vec<u8>, Operand)>, Vec<u8>, usize), PdfError>)
    requires
        j + 2 < d.len(),
    ensures
        match r {
            Ok((es, v, k)) => inline_image_at(d@, j as int) == Ok::<(Seq<u8>, int), Seq<char>>(
                (v@, k as int),
            ) && k <= d.len() && image_entries_view(es@) == bi_entries(d@, j + 2),
            Err(e) => inline_image_at(d@, j as int) is Err && (e matches PdfError::ParseError(m)
                && m@ == inline_image_at(d@, j as int)->Err_0),
        },
{
    let (p, entries) = match read_bi_dict(d, j + 2) {
        Ok(x) => x,
        Err(e) => {
            return Err(e);
        },
    };
    let s0 = p + 2;
    let s = if s0 < d.len() && is_pdf_ws_exec(d[s0]) { s0 + 1 } else { s0 };
    let mut q = s;
    proof {
        lemma_ei_from(d@, s as int);
    }
    while d.len() - q > 2
        invariant
            s <= q <= d.len(),
            ei_from(d@, s as int) == ei_from(d@, q as int),
            bi_dict(d@, j + 2) == Ok::<int, Seq<char>>(p as int),
            image_entries_view(entries@) == bi_entries(d@, j + 2),
            p + 1 < d.len(),
            s0 == p + 2,
            s as int == if s0 < d.len() && is_pdf_ws(d@[s0 as int]) {
                s0 + 1
            } else {
                s0 as int
            },
        decreases d.len() - q,
    {
        if is_pdf_ws_exec(d[q]) && d[q + 1] == 0x45 && d[q + 2] == 0x49 && (q + 3 >= d.len()
            || is_pdf_ws_exec(d[q + 3])) {
            let data = copy_bytes(d, s, q);
            assert(ei_from(d@, q as int) == Some(q as int));
            assert(ei_from(d@, s as int) == Some(q as int));
            assert(bi_dict(d@, j + 2) == Ok::<int, Seq<char>>(p as int));
            return Ok((entries, data, q + 3));
        }
        q = q + 1;
    }
    Err(parse_error("Inline image: EI marker not found"))
}

/// The error of a token-list result matches a `ParseError`.
pub open spec fn lex_error_matches(r: Result<Seq<TokView>, (Seq<char>, bool)>, e: PdfError) -> bool {
    r matches Err((m, exact)) && (e matches PdfError::ParseError(msg) && (exact ==> msg@ == m)
        && crate::seqs::starts_with(msg@, m))
}

/// Reads the next token at or after `i`; `None` at the end of the data.
fn lex_step(data: &[u8], i: usize) -> (r: Result<Option<(ContentToken, usize)>, PdfError>)
    requires
        i <= data.len(),
    ensures
        match r {
            Ok(None) => lex_from(data@, i as int) == Ok::<Seq<TokView>, (Seq<char>, bool)>(Seq::empty()),
            Ok(Some((t, k))) => i < k <= data.len() && lex_from(data@, i as int) == prepend_tok(
                t@,
                lex_from(data@, k as int),
            ),
            Err(e) => lex_error_matches(lex_from(data@, i as int), e),
        },
{
    let j = skip_space_exec(data, i);
    if j >= data.len() {
        return Ok(None);
    }
    let is_image = data.len() - j > 2 && data[j] == 0x42 && data[j + 1] == 0x49 && is_pdf_ws_exec(
        data[j + 2],
    );
    if is_image {
        match read_inline_image(data, j) {
            Err(e) => {
                proof {
                    let m = inline_image_at(data@, j as int)->Err_0;
                    assert(m.subrange(0, m.len() as int) =~= m);
                }
                Err(e)
            },
            Ok((dict, img, k)) => {
                if k <= j || k > data.len() {
                    let e = parse_error("Inline image: EI marker not found");
                    proof {
                        let m = "Inline image: EI marker not found"@;
                        assert(m.subrange(0, m.len() as int) =~= m);
                    }
                    return Err(e);
                }
                Ok(Some((ContentToken::InlineImage { dict, data: img }, k)))
            },
        }
    } else {
        match read_object(data, j) {
            Some((o, k)) => {
                proof {
                    lemma_object_at_bound(data@, j as int);
                }
                if k <= j || k > data.len() {
                    let e = unexpected_byte(data[j]);
                    proof {
                        let m = "Unexpected byte in content stream: 0x"@ + hex_pair_lower(data@[j as int]);
                        assert(m.subrange(0, m.len() as int) =~= m);
                    }
                    return Err(e);
                }
                Ok(Some((ContentToken::Operand(o), k)))
            },
            None => {
                let e = regular_end_exec(data, j);
                if e == j {
                    let err = unexpected_byte(data[j]);
                    proof {
                        let m = "Unexpected byte in content stream: 0x"@ + hex_pair_lower(data@[j as int]);
                        assert(m.subrange(0, m.len() as int) =~= m);
                    }
                    return Err(err);
                }
                let name = copy_bytes(data, j, e);
                match utf8_error_of(name.as_slice()) {
                    Some(ue) => {
                        let mut out: Vec<char> = Vec::new();
                        append_str(&mut out, "Invalid operator name: ");
                        let t = utf8_error_text(&ue);
                        append_str(&mut out, t.as_str());
                        proof {
                            reveal_strlit("Invalid operator name: ");
                            assert(out@.subrange(0, 23) =~= "Invalid operator name: "@);
                        }
                        return Err(PdfError::ParseError(string_from_chars(out.as_slice())));
                    },
                    None => {},
                }
                Ok(Some((ContentToken::Operator(name), e)))
            },
        }
    }
}

/// Splits a content stream into operands, operators and inline images.
pub fn tokenize_content_stream(data: &[u8]) -> (r: Result<Vec<ContentToken>, PdfError>)
    ensures
        match r {
            Ok(v) => lex_from(data@, 0) == Ok::<Seq<TokView>, (Seq<char>, bool)>(token_views(v@)),
            Err(e) => lex_error_matches(lex_from(data@, 0), e),
        },
{
    let mut tokens: Vec<ContentToken> = Vec::new();
    let mut i: usize = 0;
    proof {
        assert(token_views(tokens@) =~= Seq::<TokView>::empty());
        match lex_from(data@, 0) {
            Ok(s) => {
                assert(Seq::<TokView>::empty() + s =~= s);
            },
            Err(_) => {},
        }
    }
    while i < data.len()
        invariant
            i <= data.len(),
            lex_from(data@, 0) == match lex_from(data@, i as int) {
                Ok(s) => Ok(token_views(tokens@) + s),
                Err(e) => Err::<Seq<TokView>, (Seq<char>, bool)>(e),
            },
        decreases data.len() - i,
    {
        match lex_step(data, i) {
            Err(e) => {
                return Err(e);
            },
            Ok(None) => {
                i = data.len();
            },
            Ok(Some((t, k))) => {
                let ghost before = token_views(tokens@);
                let ghost tv = t@;
                tokens.push(t);
                proof {
                    assert(token_views(tokens@) =~= before.push(tv));
                    match lex_from(data@, k as int) {
                        Ok(s) => {
                            assert(before + (seq![tv] + s) =~= token_views(tokens@) + s);
                        },
                        Err(_) => {},
                    }
                }
                i = k;
            },
        }
    }
    proof {
        assert(token_views(tokens@) + Seq::<TokView>::empty() =~= token_views(tokens@));
    }
    Ok(tokens)
}

} // verus!
