//! Stream filters: decoding stream data from its stored form.
use vstd::prelude::*;
use crate::error::{append_str, PdfError, PdfResult};
use crate::fonts::cmap::{hex_digit, hex_digit_of};
use crate::objects::{hex_pair_lower, write_hex};
use crate::predictors::{predictor_result, PredictorParams, apply_predictor};
use crate::unicode::{str_eq, string_from_chars};

verus! {

/// The largest decoded stream, 256 MiB.
pub const MAX_DECODED_SIZE: u64 = 268435456;

/// ASCII white space: space, tab, line feed, form feed, carriage return.
pub open spec fn is_ascii_ws(b: u8) -> bool {
    b == 0x20 || b == 0x09 || b == 0x0A || b == 0x0C || b == 0x0D
}

fn is_ascii_ws_exec(b: u8) -> (r: bool)
    ensures
        r == is_ascii_ws(b),
{
    b == 0x20 || b == 0x09 || b == 0x0A || b == 0x0C || b == 0x0D
}

fn compression_error(msg: &str) -> (r: PdfError)
    ensures
        r matches PdfError::CompressionError(m) && m@ == msg@,
{
    let mut out: Vec<char> = Vec::new();
    append_str(&mut out, msg);
    PdfError::CompressionError(string_from_chars(out.as_slice()))
}

fn byte_error(prefix: &str, b: u8) -> (r: PdfError)
    ensures
        r matches PdfError::CompressionError(m) && m@ == prefix@ + hex_pair_lower(b),
{
    let mut out: Vec<char> = Vec::new();
    append_str(&mut out, prefix);
    let one: Vec<u8> = vec![b];
    write_hex(&mut out, one.as_slice());
    proof {
        assert(one@ =~= Seq::<u8>::empty().push(b));
        crate::seqs::lemma_concat_map_push(Seq::<u8>::empty(), b, |x: u8| hex_pair_lower(x));
        assert(crate::seqs::concat_map(Seq::<u8>::empty(), |x: u8| hex_pair_lower(x)) =~= Seq::<char>::empty());
    }
    PdfError::CompressionError(string_from_chars(out.as_slice()))
}

/// A decoding result with bytes prepended.
pub open spec fn prepend_ok(p: Seq<u8>, r: Result<Seq<u8>, Seq<char>>) -> Result<Seq<u8>, Seq<char>> {
    match r {
        Ok(s) => Ok(p + s),
        Err(e) => Err(e),
    }
}

/// `r` is the outcome `expected`, with errors as `CompressionError`.
pub open spec fn compression_result(expected: Result<Seq<u8>, Seq<char>>, r: PdfResult<Vec<u8>>) -> bool {
    match r {
        Ok(v) => expected == Ok::<Seq<u8>, Seq<char>>(v@),
        Err(e) => expected is Err && (e matches PdfError::CompressionError(m) && m@ == expected->Err_0),
    }
}

// ---------------------------------------------------------------------------
// ASCIIHexDecode
// ---------------------------------------------------------------------------

/// ASCIIHexDecode from position `i` with `high` the pending high digit:
/// hex digit pairs, white space skipped, up to `>` or the end; an odd
/// last digit is padded with 0.
pub open spec fn ascii_hex_from(d: Seq<u8>, i: int, high: Option<u8>) -> Result<Seq<u8>, Seq<char>>
    decreases d.len() - i,
{
    let pad = match high {
        Some(h) => seq![(h * 16) as u8],
        None => Seq::empty(),
    };
    if i < 0 || i >= d.len() || d[i] == 0x3E {
        Ok(pad)
    } else if is_ascii_ws(d[i]) {
        ascii_hex_from(d, i + 1, high)
    } else {
        match hex_digit_of(d[i]) {
            None => Err("Invalid hex digit in ASCIIHexDecode: 0x"@ + hex_pair_lower(d[i])),
            Some(v) => match high {
                None => ascii_hex_from(d, i + 1, Some(v)),
                Some(h) => prepend_ok(seq![(h * 16 + v) as u8], ascii_hex_from(d, i + 1, None)),
            },
        }
    }
}

/// Decodes ASCIIHexDecode data.
pub fn decode_ascii_hex(data: &[u8]) -> (r: PdfResult<Vec<u8>>)
    ensures
        compression_result(ascii_hex_from(data@, 0, None), r),
{
    let mut out: Vec<u8> = Vec::new();
    let mut high: Option<u8> = None;
    let mut i: usize = 0;
    proof {
        match ascii_hex_from(data@, 0, None) {
            Ok(s) => {
                assert(out@ + s =~= s);
            },
            Err(_) => {},
        }
    }
    while i < data.len()
        invariant
            i <= data.len(),
            high matches Some(h) ==> h < 16,
            ascii_hex_from(data@, 0, None) == prepend_ok(out@, ascii_hex_from(data@, i as int, high)),
        decreases data.len() - i,
    {
        let b = data[i];
        let ghost before = out@;
        if b == 0x3E {
            match high {
                Some(h) => {
                    out.push(h * 16);
                    assert(out@ =~= before + seq![(h * 16) as u8]);
                },
                None => {
                    assert(before + Seq::<u8>::empty() =~= before);
                },
            }
            return Ok(out);
        } else if is_ascii_ws_exec(b) {
            i = i + 1;
        } else {
            match hex_digit(b) {
                None => {
                    return Err(byte_error("Invalid hex digit in ASCIIHexDecode: 0x", b));
                },
                Some(v) => match high {
                    None => {
                        high = Some(v);
                        i = i + 1;
                    },
                    Some(h) => {
                        out.push(h * 16 + v);
                        high = None;
                        i = i + 1;
                        proof {
                            match ascii_hex_from(data@, i as int, None) {
                                Ok(s) => {
                                    assert(before + (seq![(h * 16 + v) as u8] + s) =~= out@ + s);
                                },
                                Err(_) => {},
                            }
                        }
                    },
                },
            }
        }
    }
    let ghost before = out@;
    match high {
        Some(h) => {
            out.push(h * 16);
            assert(out@ =~= before + seq![(h * 16) as u8]);
        },
        None => {
            assert(before + Seq::<u8>::empty() =~= before);
        },
    }
    Ok(out)
}

// ---------------------------------------------------------------------------
// ASCII85Decode
// ---------------------------------------------------------------------------

/// The base-85 value of digits.
pub open spec fn base85_value(g: Seq<u8>) -> nat
    decreases g.len(),
{
    if g.len() == 0 {
        0
    } else {
        base85_value(g.drop_last()) * 85 + g.last() as nat
    }
}

/// The four big-endian bytes of a 32-bit value.
pub open spec fn be4(v: nat) -> Seq<u8> {
    seq![
        ((v / 0x100_0000) % 256) as u8,
        ((v / 0x1_0000) % 256) as u8,
        ((v / 0x100) % 256) as u8,
        (v % 256) as u8,
    ]
}

/// A partial group padded with the digit 84 to five digits.
pub open spec fn pad85(g: Seq<u8>) -> Seq<u8> {
    g + Seq::new((5 - g.len()) as nat, |k: int| 84u8)
}

/// The bytes of the final partial group: none for fewer than two digits,
/// else the first `len - 1` bytes of the padded group's value.
pub open spec fn a85_final(g: Seq<u8>) -> Seq<u8> {
    if g.len() > 1 {
        be4(base85_value(pad85(g))).take(g.len() - 1)
    } else {
        Seq::empty()
    }
}

/// The message for a group whose value does not fit in 32 bits.
pub open spec fn a85_range_message() -> Seq<char> {
    "ASCII85: group value exceeds 2^32 - 1"@
}

/// The end of ASCII85 data with the digits `g` of a final partial group:
/// its bytes, or an error where the padded group's value does not fit in
/// 32 bits.
pub open spec fn a85_end(g: Seq<u8>) -> Result<Seq<u8>, Seq<char>> {
    if g.len() > 1 && base85_value(pad85(g)) > u32::MAX {
        Err(a85_range_message())
    } else {
        Ok(a85_final(g))
    }
}

/// ASCII85Decode from position `i` with the digits `g` of the group so far;
/// a group whose value exceeds 2^32 - 1 is an error.
pub open spec fn a85_from(d: Seq<u8>, i: int, g: Seq<u8>) -> Result<Seq<u8>, Seq<char>>
    decreases d.len() - i,
{
    if i < 0 || i >= d.len() {
        a85_end(g)
    } else {
        let b = d[i];
        if is_ascii_ws(b) {
            a85_from(d, i + 1, g)
        } else if b == 0x7E && i + 1 < d.len() && d[i + 1] == 0x3E {
            a85_end(g)
        } else if b == 0x7A {
            if g.len() != 0 {
                Err("ASCII85: 'z' in middle of group"@)
            } else {
                prepend_ok(seq![0u8, 0u8, 0u8, 0u8], a85_from(d, i + 1, g))
            }
        } else if !(0x21 <= b <= 0x75) {
            Err("ASCII85: invalid byte 0x"@ + hex_pair_lower(b))
        } else {
            let g2 = g.push((b - 0x21) as u8);
            if g2.len() == 5 {
                if base85_value(g2) > u32::MAX {
                    Err(a85_range_message())
                } else {
                    prepend_ok(be4(base85_value(g2)), a85_from(d, i + 1, Seq::empty()))
                }
            } else {
                a85_from(d, i + 1, g2)
            }
        }
    }
}

fn base85_exec(g: &Vec<u8>) -> (r: u64)
    requires
        g@.len() == 5,
        forall|k: int| 0 <= k < 5 ==> #[trigger] g@[k] < 85,
    ensures
        r == base85_value(g@),
{
    let mut acc: u64 = 0;
    let mut k: usize = 0;
    while k < 5
        invariant
            k <= 5,
            g@.len() == 5,
            forall|j: int| 0 <= j < 5 ==> #[trigger] g@[j] < 85,
            acc == base85_value(g@.take(k as int)),
            acc < pow85(k as nat),
        decreases 5 - k,
    {
        proof {
            assert(g@.take(k + 1).drop_last() =~= g@.take(k as int));
            reveal_with_fuel(pow85, 6);
        }
        acc = acc * 85 + g[k] as u64;
        k = k + 1;
    }
    assert(g@.take(5) =~= g@);
    acc
}

/// 85 to the power `k`.
pub open spec fn pow85(k: nat) -> nat
    decreases k,
{
    if k == 0 {
        1
    } else {
        85 * pow85((k - 1) as nat)
    }
}

fn push_be4(out: &mut Vec<u8>, v: u32)
    ensures
        final(out)@ == old(out)@ + be4(v as nat),
{
    out.push((v / 0x100_0000) as u8);
    out.push(((v / 0x1_0000) % 256) as u8);
    out.push(((v / 0x100) % 256) as u8);
    out.push((v % 256) as u8);
    assert(final(out)@ =~= old(out)@ + be4(v as nat));
}

/// The big-endian value of four bytes.
pub open spec fn be_word(b: Seq<u8>) -> nat {
    b[0] as nat * 16777216 + b[1] as nat * 65536 + b[2] as nat * 256 + b[3] as nat
}

/// The five base-85 digits of a 32-bit value, most significant first.
pub open spec fn a85_digits(v: nat) -> Seq<u8> {
    seq![
        (v / 85 / 85 / 85 / 85) as u8,
        ((v / 85 / 85 / 85) % 85) as u8,
        ((v / 85 / 85) % 85) as u8,
        ((v / 85) % 85) as u8,
        (v % 85) as u8,
    ]
}

/// The five characters of the ASCII85 encoding of a 32-bit value.
pub open spec fn a85_group(v: nat) -> Seq<u8> {
    a85_digits(v).map_values(|d: u8| (d + 0x21) as u8)
}

/// The ASCII85 encoding of bytes (without `z` abbreviations): five
/// characters for each group of four bytes, and for a final group of
/// `n` bytes (1 to 3) the first `n + 1` characters of the encoding of
/// that group padded with zero bytes.
pub open spec fn a85_encode(b: Seq<u8>) -> Seq<u8>
    decreases b.len(),
{
    if b.len() == 0 {
        Seq::empty()
    } else if b.len() >= 4 {
        a85_group(be_word(b.take(4))) + a85_encode(b.skip(4))
    } else {
        a85_group(be_word(b + Seq::new((4 - b.len()) as nat, |k: int| 0u8))).take(b.len() + 1int)
    }
}

proof fn lemma_a85_shift(p: Seq<u8>, d: Seq<u8>, i: int, g: Seq<u8>)
    requires
        0 <= i,
    ensures
        a85_from(p + d, i + p.len(), g) == a85_from(d, i, g),
    decreases d.len() - i,
{
    let pd = p + d;
    if i < d.len() {
        assert(pd[i + p.len()] == d[i]);
        if i + 1 < d.len() {
            assert(pd[i + 1 + p.len()] == d[i + 1]);
        }
        lemma_a85_shift(p, d, i + 1, g);
        lemma_a85_shift(p, d, i + 1, Seq::empty());
        lemma_a85_shift(p, d, i + 1, g.push((d[i] - 0x21) as u8));
    }
}

proof fn lemma_a85_digits(v: nat)
    requires
        v <= 0xFFFF_FFFF,
    ensures
        a85_digits(v).len() == 5,
        forall|k: int| 0 <= k < 5 ==> #[trigger] a85_digits(v)[k] <= 84,
        base85_value(a85_digits(v)) == v,
        a85_group(v).len() == 5,
        forall|k: int| 0 <= k < 5 ==> #[trigger] a85_group(v)[k] == a85_digits(v)[k] + 0x21,
{
    let q1 = v / 85;
    let q2 = q1 / 85;
    let q3 = q2 / 85;
    let q4 = q3 / 85;
    assert(q4 <= 84);
    let ds = a85_digits(v);
    assert(ds.take(1) =~= seq![q4 as u8]);
    reveal_with_fuel(base85_value, 6);
    assert(ds.drop_last().drop_last().drop_last().drop_last() =~= seq![q4 as u8]);
    assert(base85_value(seq![q4 as u8]) == q4) by {
        assert(seq![q4 as u8].drop_last() =~= Seq::<u8>::empty());
    }
    assert(base85_value(ds.drop_last().drop_last().drop_last()) == q3);
    assert(base85_value(ds.drop_last().drop_last()) == q2);
    assert(base85_value(ds.drop_last()) == q1);
}

proof fn lemma_div_parts(x: int, q: int, r: int, m: int)
    requires
        m > 0,
        0 <= r < m,
        x == q * m + r,
    ensures
        x / m == q,
        x % m == r,
{
    vstd::arithmetic::div_mod::lemma_fundamental_div_mod_converse(x, m, q, r);
}

proof fn lemma_be4_word(b: Seq<u8>)
    requires
        b.len() == 4,
    ensures
        be4(be_word(b)) == b,
        be_word(b) <= 0xFFFF_FFFF,
{
    let x = be_word(b) as int;
    let b0 = b[0] as int;
    let b1 = b[1] as int;
    let b2 = b[2] as int;
    let b3 = b[3] as int;
    lemma_div_parts(x, b0, b1 * 65536 + b2 * 256 + b3, 16777216);
    lemma_div_parts(x, b0 * 256 + b1, b2 * 256 + b3, 65536);
    lemma_div_parts(x, b0 * 65536 + b1 * 256 + b2, b3, 256);
    lemma_div_parts(b0 * 256 + b1, b0, b1, 256);
    lemma_div_parts(b0 * 65536 + b1 * 256 + b2, b0 * 256 + b1, b2, 256);
    lemma_div_parts(b0, 0, b0, 256);
    assert(be4(be_word(b)) =~= b);
}

/// Decoding a group of five digit characters gives its four bytes, and
/// decoding goes on after it.
proof fn lemma_a85_group_run(v: nat, rest: Seq<u8>)
    requires
        v <= 0xFFFF_FFFF,
    ensures
        a85_from(a85_group(v) + rest, 0, Seq::empty()) == prepend_ok(be4(v), a85_from(rest, 0, Seq::empty())),
{
    lemma_a85_digits(v);
    let c = a85_group(v);
    let d = c + rest;
    let ds = a85_digits(v);
    assert forall|k: int| 0 <= k < 4 implies a85_from(d, k, #[trigger] ds.take(k)) == a85_from(d, k + 1, ds.take(k + 1)) by {
        assert(d[k] == ds[k] + 0x21);
        assert(ds.take(k).push((d[k] - 0x21) as u8) =~= ds.take(k + 1));
    }
    assert(d[4] == ds[4] + 0x21);
    assert(ds.take(4).push((d[4] - 0x21) as u8) =~= ds);
    assert(a85_from(d, 4, ds.take(4)) == prepend_ok(be4(v), a85_from(d, 5, Seq::empty())));
    assert(ds.take(0) =~= Seq::<u8>::empty());
    lemma_a85_shift(c, rest, 0, Seq::empty());
    assert(a85_from(d, 0, ds.take(0)) == a85_from(d, 1, ds.take(1)));
    assert(a85_from(d, 1, ds.take(1)) == a85_from(d, 2, ds.take(2)));
    assert(a85_from(d, 2, ds.take(2)) == a85_from(d, 3, ds.take(3)));
    assert(a85_from(d, 3, ds.take(3)) == a85_from(d, 4, ds.take(4)));
}

proof fn lemma_base85_five(s: Seq<u8>)
    requires
        s.len() == 5,
    ensures
        base85_value(s) == (((s[0] as nat * 85 + s[1] as nat) * 85 + s[2] as nat) * 85 + s[3] as nat) * 85 + s[4] as nat,
{
    let s4 = s.drop_last();
    let s3 = s4.drop_last();
    let s2 = s3.drop_last();
    let s1 = s2.drop_last();
    assert(s1.drop_last() =~= Seq::<u8>::empty());
    assert(base85_value(s1.drop_last()) == 0);
    assert(s1.last() == s[0]);
    assert(base85_value(s1) == s[0] as nat);
    assert(base85_value(s2) == s[0] as nat * 85 + s[1] as nat);
    assert(base85_value(s3) == (s[0] as nat * 85 + s[1] as nat) * 85 + s[2] as nat);
    assert(base85_value(s4) == ((s[0] as nat * 85 + s[1] as nat) * 85 + s[2] as nat) * 85 + s[3] as nat);
}

/// The quotients of `v` by 85, 85^2, 85^3 and 85^4 and its digits.
proof fn lemma_base85_quotients(v: nat)
    requires
        v <= 0xFFFF_FFFF,
    ensures
        ({
            let q1 = v / 85;
            let q2 = q1 / 85;
            let q3 = q2 / 85;
            let q4 = q3 / 85;
            let ds = a85_digits(v);
            &&& ds[0] as int == q4 && ds[1] as int == q3 % 85 && ds[2] as int == q2 % 85
            &&& ds[3] as int == q1 % 85 && ds[4] as int == v % 85
            &&& q3 == q4 * 85 + q3 % 85
            &&& q2 == q3 * 85 + q2 % 85
            &&& q1 == q2 * 85 + q1 % 85
            &&& v == q1 * 85 + v % 85
            &&& q4 <= 84
        }),
{
    lemma_a85_digits(v);
}

/// The value of a final partial group of `n + 1` digits padded with the
/// digit 84 lies between the padded input's value and that value plus
/// 85^(4 - n) - 1, and so keeps its first `n` bytes.
proof fn lemma_a85_partial_value(b: Seq<u8>)
    requires
        1 <= b.len() <= 3,
    ensures
        ({
            let n = b.len() as int;
            let v = be_word(b + Seq::new((4 - n) as nat, |k: int| 0u8));
            let g = a85_digits(v).take(n + 1);
            &&& base85_value(pad85(g)) <= 0xFFFF_FFFF
            &&& be4(base85_value(pad85(g))).take(n) == b
        }),
{
    let n = b.len() as int;
    let z = Seq::new((4 - n) as nat, |k: int| 0u8);
    let w = b + z;
    let v = be_word(w);
    lemma_be4_word(w);
    lemma_base85_quotients(v);
    let ds = a85_digits(v);
    let g = ds.take(n + 1);
    let q1 = v / 85;
    let q2 = q1 / 85;
    let q3 = q2 / 85;
    let pg = pad85(g);
    assert(pg.len() == 5);
    lemma_base85_five(pg);
    let pv = base85_value(pg);
    let b0 = b[0] as int;
    if n == 1 {
        assert(pg[0] == ds[0] && pg[1] == ds[1] && pg[2] == 84 && pg[3] == 84 && pg[4] == 84);
        assert(pv == q3 * 614125 + 614124);
        assert(w[1] == 0 && w[2] == 0 && w[3] == 0);
        assert(v == b0 * 16777216);
        assert(v <= pv <= v + 614124);
        lemma_div_parts(pv as int, b0, pv - v, 16777216);
        lemma_div_parts(b0, 0, b0, 256);
        assert(be4(pv).take(1) =~= b);
    } else if n == 2 {
        let b1 = b[1] as int;
        assert(pg[0] == ds[0] && pg[1] == ds[1] && pg[2] == ds[2] && pg[3] == 84 && pg[4] == 84);
        assert(pv == q2 * 7225 + 7224);
        assert(w[2] == 0 && w[3] == 0);
        assert(v == b0 * 16777216 + b1 * 65536);
        assert(v <= pv <= v + 7224);
        lemma_div_parts(pv as int, b0, b1 * 65536 + (pv - v), 16777216);
        lemma_div_parts(pv as int, b0 * 256 + b1, pv - v, 65536);
        lemma_div_parts(b0 * 256 + b1, b0, b1, 256);
        lemma_div_parts(b0, 0, b0, 256);
        assert(be4(pv).take(2) =~= b);
    } else {
        let b1 = b[1] as int;
        let b2 = b[2] as int;
        assert(pg[0] == ds[0] && pg[1] == ds[1] && pg[2] == ds[2] && pg[3] == ds[3] && pg[4] == 84);
        assert(pv == q1 * 85 + 84);
        assert(w[3] == 0);
        assert(v == b0 * 16777216 + b1 * 65536 + b2 * 256);
        assert(v <= pv <= v + 84);
        lemma_div_parts(pv as int, b0, b1 * 65536 + b2 * 256 + (pv - v), 16777216);
        lemma_div_parts(pv as int, b0 * 256 + b1, b2 * 256 + (pv - v), 65536);
        lemma_div_parts(pv as int, b0 * 65536 + b1 * 256 + b2, pv - v, 256);
        lemma_div_parts(b0 * 65536 + b1 * 256 + b2, b0 * 256 + b1, b2, 256);
        lemma_div_parts(b0 * 256 + b1, b0, b1, 256);
        lemma_div_parts(b0, 0, b0, 256);
        assert(be4(pv).take(3) =~= b);
    }
}

proof fn lemma_a85_digit_step(d: Seq<u8>, k: int, ds: Seq<u8>)
    requires
        0 <= k < 4,
        k < d.len(),
        k < ds.len(),
        ds[k] <= 84,
        d[k] == ds[k] + 0x21,
    ensures
        a85_from(d, k, ds.take(k)) == a85_from(d, k + 1, ds.take(k + 1)),
{
    assert(ds.take(k).push((d[k] - 0x21) as u8) =~= ds.take(k + 1));
}

/// Decoding a final partial group of `n + 1` digit characters followed by
/// `~>` gives its `n` bytes.
proof fn lemma_a85_partial_run(b: Seq<u8>)
    requires
        1 <= b.len() <= 3,
    ensures
        a85_from(a85_encode(b) + seq![0x7Eu8, 0x3Eu8], 0, Seq::empty()) == Ok::<Seq<u8>, Seq<char>>(b),
{
    let n = b.len() as int;
    let v = be_word(b + Seq::new((4 - n) as nat, |k: int| 0u8));
    lemma_be4_word(b + Seq::new((4 - n) as nat, |k: int| 0u8));
    lemma_a85_digits(v);
    lemma_a85_partial_value(b);
    let ds = a85_digits(v);
    let c = a85_group(v).take(n + 1);
    assert(a85_encode(b) == c);
    let d = c + seq![0x7Eu8, 0x3Eu8];
    assert(d.len() == n + 3);
    assert(d[n + 1] == 0x7E && d[n + 2] == 0x3E);
    assert(a85_from(d, n + 1, ds.take(n + 1)) == a85_end(ds.take(n + 1)));
    assert(ds.take(0) =~= Seq::<u8>::empty());
    lemma_a85_digit_step(d, 0, ds);
    lemma_a85_digit_step(d, 1, ds);
    if n >= 2 {
        lemma_a85_digit_step(d, 2, ds);
    }
    if n >= 3 {
        lemma_a85_digit_step(d, 3, ds);
    }
}

/// ASCII85 decoding inverts encoding: the encoding of any bytes, followed
/// by the end marker `~>`, decodes to those bytes, whatever their length
/// (full groups of four bytes and a final group of one to three).
pub proof fn lemma_ascii85_round_trip(b: Seq<u8>)
    ensures
        a85_from(a85_encode(b) + seq![0x7Eu8, 0x3Eu8], 0, Seq::empty()) == Ok::<Seq<u8>, Seq<char>>(b),
    decreases b.len(),
{
    let end = seq![0x7Eu8, 0x3Eu8];
    if b.len() == 0 {
        assert(a85_encode(b) + end =~= end);
        assert(a85_final(Seq::<u8>::empty()) =~= b);
    } else if b.len() >= 4 {
        let v = be_word(b.take(4));
        lemma_be4_word(b.take(4));
        lemma_ascii85_round_trip(b.skip(4));
        assert(a85_encode(b) + end =~= a85_group(v) + (a85_encode(b.skip(4)) + end));
        lemma_a85_group_run(v, a85_encode(b.skip(4)) + end);
        assert(b.take(4) + b.skip(4) =~= b);
    } else {
        lemma_a85_partial_run(b);
    }
}

/// Decodes ASCII85Decode data; a group whose value exceeds 2^32 - 1 is an
/// error.
#[verifier::rlimit(60)]
pub fn decode_ascii85(data: &[u8]) -> (r: PdfResult<Vec<u8>>)
    ensures
        compression_result(a85_from(data@, 0, Seq::empty()), r),
{
    let mut out: Vec<u8> = Vec::new();
    let mut group: Vec<u8> = Vec::new();
    let mut i: usize = 0;
    let mut done = false;
    proof {
        match a85_from(data@, 0, Seq::empty()) {
            Ok(s) => {
                assert(out@ + s =~= s);
            },
            Err(_) => {},
        }
    }
    while i < data.len() && !done
        invariant
            i <= data.len(),
            group@.len() < 5,
            forall|k: int| 0 <= k < group@.len() ==> #[trigger] group@[k] < 85,
            !done ==> a85_from(data@, 0, Seq::empty()) == prepend_ok(out@, a85_from(data@, i as int, group@)),
            done ==> a85_from(data@, 0, Seq::empty()) == prepend_ok(out@, a85_end(group@)),
        decreases data.len() - i, if done { 0int } else { 1int },
    {
        let b = data[i];
        let ghost before = out@;
        if is_ascii_ws_exec(b) {
            i = i + 1;
        } else if b == 0x7E && i + 1 < data.len() && data[i + 1] == 0x3E {
            done = true;
        } else if b == 0x7A {
            if group.len() != 0 {
                return Err(compression_error("ASCII85: 'z' in middle of group"));
            }
            out.push(0);
            out.push(0);
            out.push(0);
            out.push(0);
            i = i + 1;
            proof {
                match a85_from(data@, i as int, group@) {
                    Ok(s) => {
                        assert(before + (seq![0u8, 0u8, 0u8, 0u8] + s) =~= out@ + s);
                    },
                    Err(_) => {},
                }
            }
        } else if !(0x21 <= b && b <= 0x75) {
            return Err(byte_error("ASCII85: invalid byte 0x", b));
        } else {
            group.push(b - 0x21);
            i = i + 1;
            if group.len() == 5 {
                let v = base85_exec(&group);
                if v > 0xFFFF_FFFFu64 {
                    return Err(compression_error("ASCII85: group value exceeds 2^32 - 1"));
                }
                push_be4(&mut out, v as u32);
                let ghost g5 = group@;
                group = Vec::new();
                proof {
                    match a85_from(data@, i as int, group@) {
                        Ok(s) => {
                            assert(before + (be4(base85_value(g5)) + s) =~= out@ + s);
                        },
                        Err(_) => {},
                    }
                }
            }
        }
    }
    if group.len() > 1 {
        let count = group.len();
        let ghost g0 = group@;
        while group.len() < 5
            invariant
                1 < count <= group@.len() <= 5,
                group@ == g0 + Seq::new((group@.len() - count) as nat, |k: int| 84u8),
                g0.len() == count,
                forall|k: int| 0 <= k < group@.len() ==> #[trigger] group@[k] < 85,
            decreases 5 - group@.len(),
        {
            group.push(84);
            assert(group@ =~= g0 + Seq::new((group@.len() - count) as nat, |k: int| 84u8));
        }
        assert(group@ =~= pad85(g0));
        let v = base85_exec(&group);
        if v > 0xFFFF_FFFFu64 {
            return Err(compression_error("ASCII85: group value exceeds 2^32 - 1"));
        }
        let mut bytes: Vec<u8> = Vec::new();
        push_be4(&mut bytes, v as u32);
        let mut k: usize = 0;
        let ghost before = out@;
        while k < count - 1
            invariant
                k <= count - 1,
                count <= 5,
                bytes@ == be4(v as nat),
                out@ == before + bytes@.take(k as int),
            decreases count - 1 - k,
        {
            out.push(bytes[k]);
            k = k + 1;
            assert(out@ =~= before + bytes@.take(k as int));
        }
    } else {
        assert(out@ + Seq::<u8>::empty() =~= out@);
    }
    Ok(out)
}

// ---------------------------------------------------------------------------
// RunLengthDecode
// ---------------------------------------------------------------------------

/// RunLengthDecode from position `i`, with `acc` decoded so far: a length
/// byte below 128 copies the next `n + 1` bytes, 128 ends the data, and
/// above 128 repeats the next byte `257 - n` times; decoding stops with an
/// error when a run is cut short or the output passes 256 MiB.
pub open spec fn rl_from(d: Seq<u8>, i: int, acc: Seq<u8>) -> Result<Seq<u8>, Seq<char>>
    decreases d.len() - i,
{
    if i < 0 || i >= d.len() {
        Ok(acc)
    } else {
        let n = d[i];
        if n < 128 {
            let count = n + 1;
            if i + 1 + count > d.len() {
                Err("RunLengthDecode: unexpected end of data in literal run"@)
            } else {
                let acc2 = acc + d.subrange(i + 1, i + 1 + count);
                if acc2.len() > MAX_DECODED_SIZE {
                    Err("RunLengthDecode output exceeds size limit"@)
                } else {
                    rl_from(d, i + 1 + count, acc2)
                }
            }
        } else if n == 128 {
            Ok(acc)
        } else {
            if i + 1 >= d.len() {
                Err("RunLengthDecode: unexpected end of data in repeat run"@)
            } else {
                let acc2 = acc + Seq::new((257 - n) as nat, |k: int| d[i + 1]);
                if acc2.len() > MAX_DECODED_SIZE {
                    Err("RunLengthDecode output exceeds size limit"@)
                } else {
                    rl_from(d, i + 2, acc2)
                }
            }
        }
    }
}

/// Decodes RunLengthDecode data.
pub fn decode_run_length(data: &[u8]) -> (r: PdfResult<Vec<u8>>)
    ensures
        compression_result(rl_from(data@, 0, Seq::empty()), r),
{
    let mut out: Vec<u8> = Vec::new();
    let mut i: usize = 0;
    let mut done = false;
    while i < data.len() && !done
        invariant
            i <= data.len(),
            out@.len() <= MAX_DECODED_SIZE,
            !done ==> rl_from(data@, 0, Seq::empty()) == rl_from(data@, i as int, out@),
            done ==> rl_from(data@, 0, Seq::empty()) == Ok::<Seq<u8>, Seq<char>>(out@),
        decreases data.len() - i, if done { 0int } else { 1int },
    {
        let n = data[i];
        let ghost before = out@;
        if n < 128 {
            let count = n as usize + 1;
            if data.len() - (i + 1) < count {
                return Err(compression_error("RunLengthDecode: unexpected end of data in literal run"));
            }
            let mut k: usize = 0;
            while k < count
                invariant
                    k <= count,
                    count == n + 1,
                    i + 1 + count <= data.len(),
                    out@ == before + data@.subrange(i + 1, i + 1 + k),
                decreases count - k,
            {
                out.push(data[i + 1 + k]);
                k = k + 1;
                assert(out@ =~= before + data@.subrange(i + 1, i + 1 + k));
            }
            i = i + 1 + count;
        } else if n == 128 {
            done = true;
        } else {
            if i + 1 >= data.len() {
                return Err(compression_error("RunLengthDecode: unexpected end of data in repeat run"));
            }
            let count = 257 - n as usize;
            let byte = data[i + 1];
            let mut k: usize = 0;
            while k < count
                invariant
                    k <= count,
                    count == 257 - n,
                    i + 1 < data.len(),
                    byte == data@[i + 1],
                    out@ == before + Seq::new(k as nat, |j: int| data@[i + 1]),
                decreases count - k,
            {
                out.push(byte);
                k = k + 1;
                assert(out@ =~= before + Seq::new(k as nat, |j: int| data@[i + 1]));
            }
            i = i + 2;
        }
        if out.len() as u64 > MAX_DECODED_SIZE {
            return Err(compression_error("RunLengthDecode output exceeds size limit"));
        }
    }
    Ok(out)
}


// ---------------------------------------------------------------------------
// FlateDecode
// ---------------------------------------------------------------------------

/// What flate2's zlib decoder gives for `data`, read to the end through a
/// limit of `limit` bytes; `None` where reading fails.
pub uninterp spec fn zlib_inflated(data: Seq<u8>, limit: u64) -> Option<Seq<u8>>;

/// What flate2's raw deflate decoder gives for `data`, read to the end
/// through a limit of `limit` bytes; `None` where reading fails.
pub uninterp spec fn deflate_inflated(data: Seq<u8>, limit: u64) -> Option<Seq<u8>>;

/// Reads `data` through flate2's `read::ZlibDecoder`, limited by
/// `Read::take(limit)`, with `read_to_end`. Claims that the outcome is a
/// function of the data and the limit, and that the output is at most
/// `limit` bytes long (what `take` documents).
#[verifier::external_body]
fn zlib_decode(data: &[u8], limit: u64) -> (r: Option<Vec<u8>>)
    ensures
        match r {
            Some(v) => zlib_inflated(data@, limit) == Some(v@) && v@.len() <= limit,
            None => zlib_inflated(data@, limit) is None,
        },
{
    let mut out = Vec::new();
    let mut reader = std::io::Read::take(flate2::read::ZlibDecoder::new(data), limit);
    match std::io::Read::read_to_end(&mut reader, &mut out) {
        Ok(_) => Some(out),
        Err(_) => None,
    }
}

/// Reads `data` through flate2's `read::DeflateDecoder`, limited by
/// `Read::take(limit)`, with `read_to_end`. Claims that the outcome is a
/// function of the data and the limit, and that the output is at most
/// `limit` bytes long.
#[verifier::external_body]
fn deflate_decode(data: &[u8], limit: u64) -> (r: Option<Vec<u8>>)
    ensures
        match r {
            Some(v) => deflate_inflated(data@, limit) == Some(v@) && v@.len() <= limit,
            None => deflate_inflated(data@, limit) is None,
        },
{
    let mut out = Vec::new();
    let mut reader = std::io::Read::take(flate2::read::DeflateDecoder::new(data), limit);
    match std::io::Read::read_to_end(&mut reader, &mut out) {
        Ok(_) => Some(out),
        Err(_) => None,
    }
}

/// FlateDecode: the zlib stream where it reads, else a non-empty raw
/// deflate stream, else an error.
pub open spec fn flate_result(data: Seq<u8>) -> Result<Seq<u8>, Seq<char>> {
    match zlib_inflated(data, MAX_DECODED_SIZE) {
        Some(v) => Ok(v),
        None => match deflate_inflated(data, MAX_DECODED_SIZE) {
            Some(v) => if v.len() > 0 {
                Ok(v)
            } else {
                Err("FlateDecode failed (tried both zlib and raw deflate)"@)
            },
            None => Err("FlateDecode failed (tried both zlib and raw deflate)"@),
        },
    }
}

/// Decodes FlateDecode data: zlib first, then raw deflate for streams
/// without the zlib wrapper.
pub fn decode_flate(data: &[u8]) -> (r: PdfResult<Vec<u8>>)
    ensures
        compression_result(flate_result(data@), r),
{
    match zlib_decode(data, MAX_DECODED_SIZE) {
        Some(v) => Ok(v),
        None => match deflate_decode(data, MAX_DECODED_SIZE) {
            Some(v) => {
                if v.len() > 0 {
                    Ok(v)
                } else {
                    Err(compression_error("FlateDecode failed (tried both zlib and raw deflate)"))
                }
            },
            None => Err(compression_error("FlateDecode failed (tried both zlib and raw deflate)")),
        },
    }
}

/// What flate2's zlib encoder at the default compression level gives for
/// `data`.
pub uninterp spec fn zlib_deflated(data: Seq<u8>) -> Seq<u8>;

/// Compresses `data` with flate2's `write::ZlibEncoder` at
/// `Compression::default()`: `write_all` then `finish`. Claims that this
/// succeeds (the output goes to a `Vec`, whose writes never fail, and
/// flate2's miniz_oxide backend reports an error only for a preset
/// dictionary or a misused stream, neither of which arises here), that the
/// output is a function of the data, and that flate2's zlib decoder reads
/// it back to the data (the encoder and decoder are each other's inverse,
/// read through any limit the data fits in).
#[verifier::external_body]
fn zlib_encode(data: &[u8]) -> (r: Option<Vec<u8>>)
    ensures
        r is Some,
        r matches Some(v) ==> v@ == zlib_deflated(data@),
        r matches Some(v) ==> forall|limit: u64|
            data@.len() <= limit ==> #[trigger] zlib_inflated(v@, limit) == Some(data@),
{
    let mut encoder = flate2::write::ZlibEncoder::new(Vec::new(), flate2::Compression::default());
    match std::io::Write::write_all(&mut encoder, data) {
        Ok(()) => {},
        Err(_) => return None,
    }
    encoder.finish().ok()
}

/// Compresses data with FlateDecode where that makes it smaller: the
/// compressed data and the filter name, or the data itself and no filter.
/// Compressed data decodes back to the data.
pub fn encode_flate(data: &[u8]) -> (r: PdfResult<(Vec<u8>, Option<&'static str>)>)
    ensures
        r is Ok,
        r matches Ok((v, f)) ==> if zlib_deflated(data@).len() < data@.len() {
            v@ == zlib_deflated(data@) && (f matches Some(n) && n@ == "FlateDecode"@)
        } else {
            v@ == data@ && f is None
        },
        data@.len() <= MAX_DECODED_SIZE ==> (r matches Ok((v, Some(_))) ==> flate_result(v@) == Ok::<Seq<u8>, Seq<char>>(data@)),
{
    let compressed = match zlib_encode(data) {
        Some(v) => v,
        None => return Err(compression_error("FlateDecode encode failed")),
    };
    if compressed.len() < data.len() {
        proof {
            if data@.len() <= MAX_DECODED_SIZE {
                assert(zlib_inflated(compressed@, MAX_DECODED_SIZE) == Some(data@));
            }
        }
        Ok((compressed, Some("FlateDecode")))
    } else {
        let v = crate::content::lexer::copy_bytes(data, 0, data.len());
        assert(v@ =~= data@);
        Ok((v, None))
    }
}

// ---------------------------------------------------------------------------
// LZWDecode
// ---------------------------------------------------------------------------

/// The LZW decoder of the `lzw` crate ("early change" variant, reading
/// most significant bits first), held opaque: its state is the crate's.
#[verifier::external_body]
struct LzwInner {
    dec: lzw::DecoderEarlyChange<lzw::MsbReader>,
}

/// An LZW decoder (MSB-first, early change, minimum code size 8) and the
/// inputs given to it so far, in order.
pub struct LzwDecoder {
    inner: LzwInner,
    fed: Ghost<Seq<Seq<u8>>>,
}

impl LzwDecoder {
    /// The inputs given to the decoder so far, in order.
    pub closed spec fn history(&self) -> Seq<Seq<u8>> {
        self.fed@
    }
}

/// What one `decode_bytes` call of a decoder made with minimum code size
/// 8 gives for `input` after the inputs `fed`: the number of input bytes
/// consumed and the bytes decoded, or `None` for an error. The decoder's
/// state is a function of what it was fed, so the result is too.
pub uninterp spec fn lzw_step(fed: Seq<Seq<u8>>, input: Seq<u8>) -> Option<(nat, Seq<u8>)>;

/// Creates an `lzw::DecoderEarlyChange` over an `lzw::MsbReader` with
/// minimum code size 8; it has been fed nothing.
#[verifier::external_body]
fn lzw_decoder(min_code_size: u8) -> (r: LzwDecoder)
    requires
        min_code_size == 8,
    ensures
        r.history() == Seq::<Seq<u8>>::empty(),
{
    LzwDecoder {
        inner: LzwInner { dec: lzw::DecoderEarlyChange::new(lzw::MsbReader::new(), min_code_size) },
        fed: Ghost(Seq::empty()),
    }
}

/// Calls `DecoderEarlyChange::decode_bytes`: the number of input bytes
/// consumed and the bytes decoded, or the error's text. Its outcome is
/// `lzw_step` of what the decoder was fed and the input, no more bytes
/// are consumed than given (the bit reader takes bytes from the input one
/// at a time), and the input joins the decoder's history.
#[verifier::external_body]
fn lzw_decode_bytes(decoder: &mut LzwDecoder, input: &[u8]) -> (r: Result<(usize, Vec<u8>), String>)
    ensures
        final(decoder).history() == old(decoder).history().push(input@),
        match r {
            Ok((c, v)) => lzw_step(old(decoder).history(), input@) == Some((c as nat, v@)) && c <= input.len(),
            Err(_) => lzw_step(old(decoder).history(), input@) is None,
        },
{
    let r = match decoder.inner.dec.decode_bytes(input) {
        Ok((consumed, decoded)) => Ok((consumed, decoded.to_vec())),
        Err(e) => Err(format!("{}", e)),
    };
    decoder.fed = Ghost(decoder.fed@.push(input@));
    r
}

/// How LZW decoding ends: the decoded bytes, a decoder error, or output
/// past the size limit.
pub enum LzwOutcome {
    Decoded(Seq<u8>),
    Failed,
    TooLarge,
}

/// LZW decoding of `data` from `pos`, the decoder having been fed `fed`
/// and `acc` decoded so far: feed the rest of the data, stop when it is
/// used up or a call consumes and decodes nothing, and fail when the
/// output passes the size limit.
pub open spec fn lzw_run_from(fed: Seq<Seq<u8>>, data: Seq<u8>, pos: int, acc: Seq<u8>) -> LzwOutcome
    decreases data.len() - pos, MAX_DECODED_SIZE - acc.len(),
{
    if acc.len() > MAX_DECODED_SIZE {
        LzwOutcome::TooLarge
    } else if pos < 0 || pos >= data.len() {
        LzwOutcome::Decoded(acc)
    } else {
        let input = data.skip(pos);
        match lzw_step(fed, input) {
            None => LzwOutcome::Failed,
            Some((c, out)) => if c == 0 && out.len() == 0 {
                LzwOutcome::Decoded(acc)
            } else if c > input.len() {
                LzwOutcome::Failed
            } else if acc.len() + out.len() > MAX_DECODED_SIZE {
                LzwOutcome::TooLarge
            } else {
                lzw_run_from(fed.push(input), data, pos + c, acc + out)
            },
        }
    }
}

/// `r` is the outcome of LZW decoding of `data`.
pub open spec fn lzw_result(data: Seq<u8>, r: PdfResult<Vec<u8>>) -> bool {
    match lzw_run(data) {
        LzwOutcome::Decoded(v) => r matches Ok(x) && x@ == v,
        LzwOutcome::Failed => r matches Err(PdfError::CompressionError(m)) && m@.take(18)
            == "LZWDecode failed: "@,
        LzwOutcome::TooLarge => r matches Err(PdfError::CompressionError(m)) && m@
            == "LZWDecode output exceeds size limit"@,
    }
}

/// LZW decoding of `data` with a fresh decoder.
pub open spec fn lzw_run(data: Seq<u8>) -> LzwOutcome {
    lzw_run_from(Seq::empty(), data, 0, Seq::empty())
}

/// Decodes LZWDecode data (MSB-first, early change, minimum code size 8),
/// feeding the decoder until the input is used up or it makes no progress.
pub fn decode_lzw(data: &[u8]) -> (r: PdfResult<Vec<u8>>)
    ensures
        lzw_result(data@, r),
{
    let mut decoder = lzw_decoder(8);
    let mut result: Vec<u8> = Vec::new();
    let mut pos: usize = 0;
    while pos < data.len()
        invariant
            pos <= data.len(),
            result@.len() <= MAX_DECODED_SIZE,
            lzw_run(data@) == lzw_run_from(decoder.history(), data@, pos as int, result@),
        decreases data.len() - pos, MAX_DECODED_SIZE - result@.len(),
    {
        let ghost fed = decoder.history();
        let rest = crate::fonts::font::slice_from(data, pos);
        assert(rest@ =~= data@.skip(pos as int));
        let (consumed, decoded) = match lzw_decode_bytes(&mut decoder, rest.as_slice()) {
            Ok(x) => x,
            Err(m) => {
                let mut out: Vec<char> = Vec::new();
                append_str(&mut out, "LZWDecode failed: ");
                append_str(&mut out, m.as_str());
                proof {
                    reveal_strlit("LZWDecode failed: ");
                    assert(out@.take(18) =~= "LZWDecode failed: "@);
                }
                return Err(PdfError::CompressionError(string_from_chars(out.as_slice())));
            },
        };
        if consumed == 0 && decoded.len() == 0 {
            return Ok(result);
        }
        if decoded.len() > MAX_DECODED_SIZE as usize - result.len() {
            return Err(compression_error("LZWDecode output exceeds size limit"));
        }
        let mut k: usize = 0;
        let ghost before = result@;
        while k < decoded.len()
            invariant
                k <= decoded@.len(),
                result@ == before + decoded@.take(k as int),
            decreases decoded@.len() - k,
        {
            result.push(decoded[k]);
            k = k + 1;
            assert(result@ =~= before + decoded@.take(k as int));
        }
        assert(decoded@.take(decoded@.len() as int) =~= decoded@);
        pos = pos + consumed;
    }
    Ok(result)
}


// ---------------------------------------------------------------------------
// CCITTFaxDecode
// ---------------------------------------------------------------------------

/// The lines that the `fax` crate's Group 4 decoder reports for `data` at
/// a page width of `width` pixels: for each line, the positions where the
/// colour changes, starting with white.
pub uninterp spec fn g4_transitions(data: Seq<u8>, width: u16) -> Seq<Seq<u16>>;

/// Runs `fax::decoder::decode_g4` (no height) over `data`, collecting the
/// colour-change positions of each line it reports. Claims that the lines
/// are a function of the data and the width.
#[verifier::external_body]
fn fax_g4_lines(data: &[u8], width: u16) -> (r: Vec<Vec<u16>>)
    ensures
        r@.map_values(|l: Vec<u16>| l@) == g4_transitions(data@, width),
{
    let mut lines: Vec<Vec<u16>> = Vec::new();
    let _ = fax::decoder::decode_g4(data.iter().copied(), width, None, |t: &[u16]| lines.push(t.to_vec()));
    lines
}

/// The pixels of a line (true for black) from its colour changes: runs
/// alternate white and black, each up to the next change position (none
/// where a position goes backwards), then the colour after the last run
/// fills the line; `width` pixels in all.
pub open spec fn line_pels(line: Seq<u16>, width: u16) -> Seq<bool> {
    let pad = line.len() % 2 == 1;
    (pel_runs(line, line.len() as int) + Seq::new(width as nat, |k: int| pad)).take(width as int)
}

/// The runs of the first `n` colour changes.
pub open spec fn pel_runs(line: Seq<u16>, n: int) -> Seq<bool>
    decreases n,
{
    if n <= 0 || n > line.len() {
        Seq::empty()
    } else {
        let prev = if n >= 2 {
            line[n - 2] as int
        } else {
            0
        };
        let len = if line[n - 1] as int > prev {
            line[n - 1] as int - prev
        } else {
            0
        };
        pel_runs(line, n - 1) + Seq::new(len as nat, |k: int| n % 2 == 0)
    }
}

/// The bit of a pixel at position `t` (0 to 7) of a byte, most significant first.
pub open spec fn bit_value(t: int) -> nat {
    if t == 0 {
        128
    } else if t == 1 {
        64
    } else if t == 2 {
        32
    } else if t == 3 {
        16
    } else if t == 4 {
        8
    } else if t == 5 {
        4
    } else if t == 6 {
        2
    } else {
        1
    }
}

/// The sum of the bits of the black pixels among the first `t` pixels of
/// the byte that starts at pixel `base`.
pub open spec fn packed_bits(pels: Seq<bool>, base: int, t: int) -> nat
    decreases t,
{
    if t <= 0 {
        0
    } else {
        packed_bits(pels, base, t - 1) + if base + t - 1 < pels.len() && pels[base + t - 1] {
            bit_value(t - 1)
        } else {
            0
        }
    }
}

/// Pixels packed into bytes, one bit per pixel, most significant first,
/// black as 1; `nbytes` bytes.
pub open spec fn pack_pels(pels: Seq<bool>, nbytes: nat) -> Seq<u8> {
    Seq::new(nbytes, |k: int| packed_bits(pels, 8 * k, 8) as u8)
}

/// CCITTFaxDecode at the standard fax width of 1728 pixels: each decoded
/// line packed into 216 bytes.
pub open spec fn fax_result(data: Seq<u8>) -> Seq<u8> {
    crate::seqs::concat_map(
        g4_transitions(data, 1728),
        |l: Seq<u16>| pack_pels(line_pels(l, 1728), 216),
    )
}

/// The smaller of two numbers.
pub open spec fn min_int(a: int, b: int) -> int {
    if a < b {
        a
    } else {
        b
    }
}

fn pels_exec(line: &Vec<u16>, width: u16) -> (r: Vec<bool>)
    ensures
        r@ == line_pels(line@, width),
{
    let mut out: Vec<bool> = Vec::new();
    let mut n: usize = 0;
    let w = width as usize;
    while n < line.len()
        invariant
            n <= line@.len(),
            w == width,
            out@ == pel_runs(line@, n as int).take(out@.len() as int),
            out@.len() == min_int(pel_runs(line@, n as int).len() as int, w as int),
        decreases line@.len() - n,
    {
        let prev: u16 = if n >= 1 { line[n - 1] } else { 0 };
        let len: u16 = if line[n] > prev { line[n] - prev } else { 0 };
        let black = (n + 1) % 2 == 0;
        let ghost runs = pel_runs(line@, n as int);
        let ghost run = Seq::new(len as nat, |j: int| (n + 1) % 2 == 0);
        proof {
            assert(pel_runs(line@, n + 1) == runs + run);
        }
        let mut k: u16 = 0;
        while k < len && out.len() < w
            invariant
                k <= len,
                w == width,
                run == Seq::new(len as nat, |j: int| (n + 1) % 2 == 0),
                black == ((n + 1) % 2 == 0),
                out@ == (runs + run).take(out@.len() as int),
                out@.len() == min_int(runs.len() + k, w as int),
            decreases len - k,
        {
            out.push(black);
            k = k + 1;
            assert(out@ =~= (runs + run).take(out@.len() as int));
        }
        n = n + 1;
    }
    let pad = line.len() % 2 == 1;
    let ghost runs = pel_runs(line@, line@.len() as int);
    let ghost base = out@;
    while out.len() < w
        invariant
            out@.len() <= w,
            w == width,
            base.len() <= out@.len(),
            base == runs.take(base.len() as int),
            base.len() == min_int(runs.len() as int, w as int),
            out@ == base + Seq::new((out@.len() - base.len()) as nat, |k: int| pad),
        decreases w - out@.len(),
    {
        out.push(pad);
        assert(out@ =~= base + Seq::new((out@.len() - base.len()) as nat, |k: int| pad));
    }
    proof {
        let full = runs + Seq::new(width as nat, |k: int| pad);
        assert(out@ =~= full.take(width as int));
    }
    out
}

fn pack_exec(pels: &Vec<bool>, nbytes: usize) -> (r: Vec<u8>)
    requires
        nbytes <= 1000,
    ensures
        r@ == pack_pels(pels@, nbytes as nat),
{
    let mut out: Vec<u8> = Vec::new();
    let mut k: usize = 0;
    while k < nbytes
        invariant
            k <= nbytes <= 1000,
            out@ == pack_pels(pels@, nbytes as nat).take(k as int),
        decreases nbytes - k,
    {
        let mut v: u32 = 0;
        let mut t: usize = 0;
        while t < 8
            invariant
                t <= 8,
                k < nbytes <= 1000,
                v == packed_bits(pels@, 8 * k as int, t as int),
                v < 256,
            decreases 8 - t,
        {
            let bit: u32 = if t == 0 { 128 } else if t == 1 { 64 } else if t == 2 { 32 } else if t == 3 {
                16
            } else if t == 4 { 8 } else if t == 5 { 4 } else if t == 6 { 2 } else { 1 };
            proof {
                lemma_packed_bits_bound(pels@, 8 * k as int, t as int + 1);
            }
            if 8 * k + t < pels.len() && pels[8 * k + t] {
                v = v + bit;
            }
            t = t + 1;
        }
        out.push(v as u8);
        k = k + 1;
        assert(out@ =~= pack_pels(pels@, nbytes as nat).take(k as int));
    }
    assert(out@ =~= pack_pels(pels@, nbytes as nat));
    out
}

proof fn lemma_packed_bits_bound(pels: Seq<bool>, base: int, t: int)
    requires
        0 <= t <= 8,
    ensures
        packed_bits(pels, base, t) < 256,
        packed_bits(pels, base, t) < pow2_from(t),
    decreases t,
{
    if t > 0 {
        lemma_packed_bits_bound(pels, base, t - 1);
    }
}

/// 256 minus the bit values from position `t` on: the bound on the first
/// `t` bits.
pub open spec fn pow2_from(t: int) -> nat {
    if t <= 0 {
        1
    } else if t == 1 {
        129
    } else if t == 2 {
        193
    } else if t == 3 {
        225
    } else if t == 4 {
        241
    } else if t == 5 {
        249
    } else if t == 6 {
        253
    } else if t == 7 {
        255
    } else {
        256
    }
}

/// Decodes CCITTFaxDecode (Group 4) data at the standard fax width of
/// 1728 pixels, one bit per pixel, black as 1.
pub fn decode_ccitt_fax(data: &[u8]) -> (r: PdfResult<Vec<u8>>)
    ensures
        r matches Ok(v) && v@ == fax_result(data@),
{
    let width: u16 = 1728;
    let lines = fax_g4_lines(data, width);
    let ghost lv = lines@.map_values(|l: Vec<u16>| l@);
    let ghost f = |l: Seq<u16>| pack_pels(line_pels(l, 1728), 216);
    let mut result: Vec<u8> = Vec::new();
    let mut i: usize = 0;
    while i < lines.len()
        invariant
            i <= lines@.len(),
            lv == lines@.map_values(|l: Vec<u16>| l@),
            width == 1728,
            f == (|l: Seq<u16>| pack_pels(line_pels(l, 1728), 216)),
            result@ == crate::seqs::concat_map(lv.take(i as int), f),
        decreases lines@.len() - i,
    {
        proof {
            crate::seqs::lemma_concat_map_take(lv, i as int, f);
        }
        let pels = pels_exec(&lines[i], width);
        let packed = pack_exec(&pels, 216);
        proof {
            assert(lv[i as int] == lines@[i as int]@);
            assert(f(lv[i as int]) == packed@);
        }
        let mut k: usize = 0;
        let ghost before = result@;
        while k < packed.len()
            invariant
                k <= packed@.len(),
                result@ == before + packed@.take(k as int),
            decreases packed@.len() - k,
        {
            result.push(packed[k]);
            k = k + 1;
            assert(result@ =~= before + packed@.take(k as int));
        }
        assert(packed@.take(packed@.len() as int) =~= packed@);
        i = i + 1;
    }
    assert(lv.take(lines@.len() as int) =~= lv);
    Ok(result)
}


// ---------------------------------------------------------------------------
// Filter dispatch
// ---------------------------------------------------------------------------

/// The standard filters.
#[derive(Debug, Clone, Copy, PartialEq, Eq, Structural)]
pub enum FilterKind {
    /// FlateDecode (`Fl`).
    Flate,
    /// ASCIIHexDecode (`AHx`).
    AsciiHex,
    /// ASCII85Decode (`A85`).
    Ascii85,
    /// LZWDecode (`LZW`).
    Lzw,
    /// RunLengthDecode (`RL`).
    RunLength,
    /// CCITTFaxDecode (`CCF`).
    CcittFax,
    /// DCTDecode (`DCT`): passed through.
    Dct,
    /// JPXDecode: passed through.
    Jpx,
}

/// The filter that a name (or its abbreviation) denotes.
pub open spec fn filter_kind(name: Seq<char>) -> Option<FilterKind> {
    if name == "FlateDecode"@ || name == "Fl"@ {
        Some(FilterKind::Flate)
    } else if name == "ASCIIHexDecode"@ || name == "AHx"@ {
        Some(FilterKind::AsciiHex)
    } else if name == "ASCII85Decode"@ || name == "A85"@ {
        Some(FilterKind::Ascii85)
    } else if name == "LZWDecode"@ || name == "LZW"@ {
        Some(FilterKind::Lzw)
    } else if name == "RunLengthDecode"@ || name == "RL"@ {
        Some(FilterKind::RunLength)
    } else if name == "CCITTFaxDecode"@ || name == "CCF"@ {
        Some(FilterKind::CcittFax)
    } else if name == "DCTDecode"@ || name == "DCT"@ {
        Some(FilterKind::Dct)
    } else if name == "JPXDecode"@ {
        Some(FilterKind::Jpx)
    } else {
        None
    }
}

/// `r` is the outcome of applying the standard filter `k` to `data`.
pub open spec fn kind_result(k: FilterKind, data: Seq<u8>, r: PdfResult<Vec<u8>>) -> bool {
    match k {
        FilterKind::Flate => compression_result(flate_result(data), r),
        FilterKind::AsciiHex => compression_result(ascii_hex_from(data, 0, None), r),
        FilterKind::Ascii85 => compression_result(a85_from(data, 0, Seq::empty()), r),
        FilterKind::Lzw => lzw_result(data, r),
        FilterKind::RunLength => compression_result(rl_from(data, 0, Seq::empty()), r),
        FilterKind::CcittFax => r matches Ok(v) && v@ == fax_result(data),
        FilterKind::Dct => r matches Ok(v) && v@ == data,
        FilterKind::Jpx => r matches Ok(v) && v@ == data,
    }
}

/// `r` is the outcome of applying the filter `name` to `data`.
pub open spec fn filter_result(name: Seq<char>, data: Seq<u8>, r: PdfResult<Vec<u8>>) -> bool {
    match filter_kind(name) {
        None => r matches Err(PdfError::UnsupportedFeature(m)) && m@ == "Stream filter: "@ + name,
        Some(k) => kind_result(k, data, r),
    }
}

/// Which standard filter a name (or its abbreviation) denotes.
pub fn filter_kind_of(name: &str) -> (r: Option<FilterKind>)
    ensures
        r == filter_kind(name@),
{
    if str_eq(name, "FlateDecode") || str_eq(name, "Fl") {
        Some(FilterKind::Flate)
    } else if str_eq(name, "ASCIIHexDecode") || str_eq(name, "AHx") {
        Some(FilterKind::AsciiHex)
    } else if str_eq(name, "ASCII85Decode") || str_eq(name, "A85") {
        Some(FilterKind::Ascii85)
    } else if str_eq(name, "LZWDecode") || str_eq(name, "LZW") {
        Some(FilterKind::Lzw)
    } else if str_eq(name, "RunLengthDecode") || str_eq(name, "RL") {
        Some(FilterKind::RunLength)
    } else if str_eq(name, "CCITTFaxDecode") || str_eq(name, "CCF") {
        Some(FilterKind::CcittFax)
    } else if str_eq(name, "DCTDecode") || str_eq(name, "DCT") {
        Some(FilterKind::Dct)
    } else if str_eq(name, "JPXDecode") {
        Some(FilterKind::Jpx)
    } else {
        None
    }
}

/// Applies the standard filter `k`.
fn apply_kind(k: FilterKind, data: &[u8]) -> (r: PdfResult<Vec<u8>>)
    ensures
        kind_result(k, data@, r),
{
    match k {
        FilterKind::Flate => decode_flate(data),
        FilterKind::AsciiHex => decode_ascii_hex(data),
        FilterKind::Ascii85 => decode_ascii85(data),
        FilterKind::Lzw => decode_lzw(data),
        FilterKind::RunLength => decode_run_length(data),
        FilterKind::CcittFax => decode_ccitt_fax(data),
        FilterKind::Dct | FilterKind::Jpx => {
            let v = crate::content::lexer::copy_bytes(data, 0, data.len());
            assert(v@ =~= data@);
            Ok(v)
        },
    }
}

/// Applies a single named filter to decode data; JPEG and JPEG 2000 data
/// pass through unchanged.
pub fn apply_filter(name: &str, data: &[u8]) -> (r: PdfResult<Vec<u8>>)
    ensures
        filter_result(name@, data@, r),
{
    match filter_kind_of(name) {
        Some(k) => apply_kind(k, data),
        None => {
            let mut out: Vec<char> = Vec::new();
            append_str(&mut out, "Stream filter: ");
            append_str(&mut out, name);
            Err(PdfError::UnsupportedFeature(string_from_chars(out.as_slice())))
        },
    }
}

// ---------------------------------------------------------------------------
// Stream decoding
// ---------------------------------------------------------------------------

/// An element of a `/Filter` array: a name, or another object, given by
/// its type name.
#[derive(Debug)]
pub enum FilterItem {
    /// A name object.
    Name(String),
    /// Any other object; the string is its type name.
    Other(String),
}

/// The `/Filter` entry of a stream dictionary.
#[derive(Debug)]
pub enum FilterValue {
    /// A single filter name.
    Name(String),
    /// An array of filters, applied in order.
    Array(Vec<FilterItem>),
    /// Any other object; the string is its type name.
    Other(String),
}

/// The `/DecodeParms` (or `/DP`) entry of a stream dictionary.
#[derive(Debug)]
pub enum ParmsValue {
    /// A single parameter dictionary, for the first filter.
    Dict(PredictorParams),
    /// One entry per filter; `None` where the element is not a dictionary.
    Array(Vec<Option<PredictorParams>>),
    /// Any other object.
    Other,
}

/// What stream decoding reads from a stream dictionary.
#[derive(Debug)]
pub struct StreamDict {
    /// The `/Filter` entry.
    pub filter: Option<FilterValue>,
    /// The `/DecodeParms` entry.
    pub decode_parms: Option<ParmsValue>,
    /// The abbreviated `/DP` entry, read where `/DecodeParms` is absent.
    pub dp: Option<ParmsValue>,
}

/// The names of a `/Filter` array from element `i` on, or the type name
/// of the first element that is not a name.
pub open spec fn item_names(items: Seq<FilterItem>, i: int) -> Result<Seq<Seq<char>>, Seq<char>>
    decreases items.len() - i,
{
    if i < 0 || i >= items.len() {
        Ok(Seq::empty())
    } else {
        match items[i] {
            FilterItem::Name(n) => match item_names(items, i + 1) {
                Ok(rest) => Ok(seq![n@] + rest),
                Err(t) => Err(t),
            },
            FilterItem::Other(t) => Err(t@),
        }
    }
}

/// The filter names of a `/Filter` value, or the type error
/// `(expected, found)`.
pub open spec fn filter_names(f: FilterValue) -> Result<Seq<Seq<char>>, (Seq<char>, Seq<char>)> {
    match f {
        FilterValue::Name(n) => Ok(seq![n@]),
        FilterValue::Array(items) => match item_names(items@, 0) {
            Ok(ns) => Ok(ns),
            Err(t) => Err(("Name"@, t)),
        },
        FilterValue::Other(t) => Err(("Name or Array"@, t@)),
    }
}

/// The views of a vector of strings.
pub open spec fn string_views(v: Seq<String>) -> Seq<Seq<char>> {
    v.map_values(|s: String| s@)
}

/// `r` is the outcome of reading the filter names of `f`.
pub open spec fn names_result(f: FilterValue, r: PdfResult<Vec<String>>) -> bool {
    match filter_names(f) {
        Ok(ns) => r matches Ok(v) && string_views(v@) == ns,
        Err((e, t)) => r matches Err(PdfError::TypeError { expected, found }) && expected@ == e && found@ == t,
    }
}

fn owned(s: &str) -> (r: String)
    ensures
        r@ == s@,
{
    let mut out: Vec<char> = Vec::new();
    append_str(&mut out, s);
    string_from_chars(out.as_slice())
}

fn type_error(expected: &str, found: &String) -> (r: PdfError)
    ensures
        r matches PdfError::TypeError { expected: e, found: f } && e@ == expected@ && f@ == found@,
{
    PdfError::TypeError { expected: owned(expected), found: found.clone() }
}

/// Extracts the filter names of a `/Filter` value: a single name or an
/// array of names.
pub fn extract_filter_names(filter_obj: &FilterValue) -> (r: PdfResult<Vec<String>>)
    ensures
        names_result(*filter_obj, r),
{
    match filter_obj {
        FilterValue::Name(n) => {
            let mut v: Vec<String> = Vec::new();
            v.push(n.clone());
            assert(string_views(v@) =~= seq![n@]);
            Ok(v)
        },
        FilterValue::Array(items) => {
            let mut names: Vec<String> = Vec::new();
            let mut i: usize = 0;
            while i < items.len()
                invariant
                    *filter_obj == FilterValue::Array(*items),
                    i <= items@.len(),
                    item_names(items@, i as int) is Ok ==> item_names(items@, 0) == (match item_names(items@, i as int) {
                        Ok(rest) => Ok::<Seq<Seq<char>>, Seq<char>>(string_views(names@) + rest),
                        Err(t) => Err(t),
                    }),
                    item_names(items@, i as int) is Err ==> item_names(items@, 0) == item_names(items@, i as int),
                decreases items@.len() - i,
            {
                match &items[i] {
                    FilterItem::Name(n) => {
                        let ghost before = string_views(names@);
                        names.push(n.clone());
                        proof {
                            assert(string_views(names@) =~= before + seq![n@]);
                            match item_names(items@, i + 1) {
                                Ok(rest) => {
                                    assert(before + (seq![n@] + rest) =~= (before + seq![n@]) + rest);
                                },
                                Err(_) => {},
                            }
                        }
                    },
                    FilterItem::Other(t) => {
                        assert(item_names(items@, i as int) == Err::<Seq<Seq<char>>, Seq<char>>(t@));
                        assert(item_names(items@, 0) == Err::<Seq<Seq<char>>, Seq<char>>(t@));
                        assert(filter_names(*filter_obj) == Err::<Seq<Seq<char>>, (Seq<char>, Seq<char>)>(("Name"@, t@)));
                        return Err(type_error("Name", t));
                    },
                }
                i = i + 1;
            }
            assert(string_views(names@) + Seq::<Seq<char>>::empty() =~= string_views(names@));
            Ok(names)
        },
        FilterValue::Other(t) => Err(type_error("Name or Array", t)),
    }
}

/// The parameter entry that decoding reads: `/DecodeParms`, else `/DP`.
pub open spec fn parms_entry(d: StreamDict) -> Option<ParmsValue> {
    match d.decode_parms {
        Some(p) => Some(p),
        None => d.dp,
    }
}

/// The decode parameters of each of `n` filters: a single dictionary
/// goes with the first filter, an array element with the filter of its
/// index; every other filter has none.
pub open spec fn parms_list(d: StreamDict, n: nat) -> Seq<Option<PredictorParams>> {
    Seq::new(n, |j: int| match parms_entry(d) {
        Some(ParmsValue::Dict(p)) => if j == 0 { Some(p) } else { None },
        Some(ParmsValue::Array(a)) => if j < a@.len() { a@[j] } else { None },
        _ => None,
    })
}

/// Extracts the decode parameters that go with each of `filter_count`
/// filters.
pub fn extract_decode_parms(dict: &StreamDict, filter_count: usize) -> (r: Vec<Option<PredictorParams>>)
    ensures
        r@ == parms_list(*dict, filter_count as nat),
{
    let entry = match &dict.decode_parms {
        Some(p) => Some(p),
        None => match &dict.dp {
            Some(p) => Some(p),
            None => None,
        },
    };
    let mut out: Vec<Option<PredictorParams>> = Vec::new();
    let mut j: usize = 0;
    while j < filter_count
        invariant
            j <= filter_count,
            out@.len() == j,
            entry == (match parms_entry(*dict) {
                Some(p) => Some(&p),
                None => None::<&ParmsValue>,
            }),
            forall|k: int| 0 <= k < j ==> out@[k] == #[trigger] parms_list(*dict, filter_count as nat)[k],
        decreases filter_count - j,
    {
        let item: Option<PredictorParams> = match entry {
            Some(ParmsValue::Dict(p)) => if j == 0 { Some(*p) } else { None },
            Some(ParmsValue::Array(a)) => if j < a.len() { a[j] } else { None },
            _ => None,
        };
        out.push(item);
        j = j + 1;
    }
    assert(out@ =~= parms_list(*dict, filter_count as nat));
    out
}

/// Data after a filter's predictor (if it has parameters) is undone.
pub open spec fn after_predictor(v: Seq<u8>, p: Option<PredictorParams>) -> Seq<u8> {
    match p {
        Some(pp) => predictor_result(v, pp),
        None => v,
    }
}

/// The input of filter `j` of a chain, given the outcomes `fr` of the
/// filters before it.
pub open spec fn chain_input(
    data: Seq<u8>,
    parms: Seq<Option<PredictorParams>>,
    fr: Seq<PdfResult<Vec<u8>>>,
    j: int,
) -> Seq<u8> {
    if j <= 0 {
        data
    } else {
        after_predictor(fr[j - 1]->Ok_0@, parms[j - 1])
    }
}

/// `fr` are the outcomes of the first filters of the chain `names`, each
/// applied to what the one before gave, all but the last successful.
#[verifier::opaque]
pub open spec fn chain_prefix(
    names: Seq<Seq<char>>,
    parms: Seq<Option<PredictorParams>>,
    data: Seq<u8>,
    fr: Seq<PdfResult<Vec<u8>>>,
) -> bool {
    &&& fr.len() <= names.len()
    &&& forall|j: int| 0 <= j < fr.len() ==> filter_result(names[j], chain_input(data, parms, fr, j), #[trigger] fr[j])
    &&& forall|j: int| 0 <= j < fr.len() - 1 ==> (#[trigger] fr[j]) is Ok
}

/// `r` ends the chain whose filter outcomes are `fr`: the first error, or
/// the last filter's output after its predictor.
pub open spec fn chain_outcome(
    names: Seq<Seq<char>>,
    parms: Seq<Option<PredictorParams>>,
    data: Seq<u8>,
    fr: Seq<PdfResult<Vec<u8>>>,
    r: PdfResult<Vec<u8>>,
) -> bool {
    &&& chain_prefix(names, parms, data, fr)
    &&& fr.len() >= 1
    &&& if fr.last() is Ok {
        fr.len() == names.len() && (r matches Ok(v) && v@ == chain_input(data, parms, fr, fr.len() as int))
    } else {
        r == fr.last()
    }
}

proof fn lemma_chain_extend(
    names: Seq<Seq<char>>,
    parms: Seq<Option<PredictorParams>>,
    data: Seq<u8>,
    fr: Seq<PdfResult<Vec<u8>>>,
    out: PdfResult<Vec<u8>>,
)
    requires
        chain_prefix(names, parms, data, fr),
        fr.len() < names.len(),
        forall|j: int| 0 <= j < fr.len() ==> (#[trigger] fr[j]) is Ok,
        filter_result(names[fr.len() as int], chain_input(data, parms, fr, fr.len() as int), out),
    ensures
        chain_prefix(names, parms, data, fr.push(out)),
        forall|j: int| 0 <= j < fr.len() ==> (#[trigger] fr.push(out)[j]) is Ok,
        out is Ok ==> chain_input(data, parms, fr.push(out), fr.len() + 1int) == after_predictor(out->Ok_0@, parms[fr.len() as int]),
{
    reveal(chain_prefix);
    let fr2 = fr.push(out);
    assert forall|j: int| 0 <= j < fr2.len() implies filter_result(names[j], chain_input(data, parms, fr2, j), #[trigger] fr2[j]) by {
        if j < fr.len() {
            assert(fr2[j] == fr[j]);
            if j > 0 {
                assert(fr2[j - 1] == fr[j - 1]);
            }
            assert(chain_input(data, parms, fr2, j) == chain_input(data, parms, fr, j));
        } else {
            if j > 0 {
                assert(fr2[j - 1] == fr[j - 1]);
            }
            assert(chain_input(data, parms, fr2, j) == chain_input(data, parms, fr, j));
        }
    }
    assert forall|j: int| 0 <= j < fr2.len() - 1 implies (#[trigger] fr2[j]) is Ok by {
        assert(fr2[j] == fr[j]);
    }
}

proof fn lemma_chain_start(names: Seq<Seq<char>>, parms: Seq<Option<PredictorParams>>, data: Seq<u8>)
    ensures
        chain_prefix(names, parms, data, Seq::empty()),
{
    reveal(chain_prefix);
}

/// `r` is the outcome of decoding the stream data `data` with dictionary
/// `d`.
pub open spec fn stream_result(d: StreamDict, data: Seq<u8>, r: PdfResult<Vec<u8>>) -> bool {
    match d.filter {
        None => r matches Ok(v) && v@ == data,
        Some(f) => {
            let fnames = filter_names(f);
            if fnames is Ok {
                let names = fnames->Ok_0;
                if names.len() == 0 {
                    r matches Ok(v) && v@ == data
                } else {
                    exists|fr: Seq<PdfResult<Vec<u8>>>| #[trigger] chain_outcome(names, parms_list(d, names.len()), data, fr, r)
                }
            } else {
                r matches Err(PdfError::TypeError { expected, found })
                    && expected@ == fnames->Err_0.0 && found@ == fnames->Err_0.1
            }
        },
    }
}

proof fn lemma_stream_result(
    dict: StreamDict,
    data: Seq<u8>,
    names: Seq<Seq<char>>,
    fr: Seq<PdfResult<Vec<u8>>>,
    r: PdfResult<Vec<u8>>,
)
    requires
        dict.filter is Some,
        filter_names(dict.filter->0) == Ok::<Seq<Seq<char>>, (Seq<char>, Seq<char>)>(names),
        names.len() > 0,
        chain_outcome(names, parms_list(dict, names.len()), data, fr, r),
    ensures
        stream_result(dict, data, r),
{
    let f = dict.filter->0;
    let fnames = filter_names(f);
    assert(fnames is Ok);
    assert(fnames->Ok_0 == names);
    assert(chain_outcome(fnames->Ok_0, parms_list(dict, fnames->Ok_0.len()), data, fr, r));
    assert(exists|x: Seq<PdfResult<Vec<u8>>>| #[trigger] chain_outcome(fnames->Ok_0, parms_list(dict, fnames->Ok_0.len()), data, x, r));
}

/// Decodes stream data through the filter pipeline of its dictionary,
/// undoing each filter's predictor after it; data without `/Filter`
/// comes back unchanged, as it does with an empty filter array.
pub fn decode_stream(data: &[u8], dict: &StreamDict) -> (r: PdfResult<Vec<u8>>)
    ensures
        stream_result(*dict, data@, r),
{
    let filter_obj = match &dict.filter {
        Some(f) => f,
        None => {
            let v = crate::content::lexer::copy_bytes(data, 0, data.len());
            assert(v@ =~= data@);
            return Ok(v);
        },
    };
    let filters = match extract_filter_names(filter_obj) {
        Ok(v) => v,
        Err(e) => return Err(e),
    };
    if filters.len() == 0 {
        let v = crate::content::lexer::copy_bytes(data, 0, data.len());
        assert(v@ =~= data@);
        assert(string_views(filters@).len() == 0);
        return Ok(v);
    }
    let parms = extract_decode_parms(dict, filters.len());
    let ghost names = string_views(filters@);
    let ghost pl = parms@;
    let ghost d = data@;
    let mut result = crate::content::lexer::copy_bytes(data, 0, data.len());
    assert(result@ =~= d);
    let ghost mut fr: Seq<PdfResult<Vec<u8>>> = Seq::empty();
    proof {
        lemma_chain_start(names, pl, d);
    }
    let mut i: usize = 0;
    while i < filters.len()
        invariant
            d == data@,
            dict.filter == Some(*filter_obj),
            filter_names(*filter_obj) == Ok::<Seq<Seq<char>>, (Seq<char>, Seq<char>)>(names),
            names == string_views(filters@),
            names.len() == filters@.len(),
            pl == parms@,
            pl == parms_list(*dict, names.len()),
            names.len() > 0,
            i <= filters@.len(),
            fr.len() == i,
            chain_prefix(names, pl, d, fr),
            forall|j: int| 0 <= j < i ==> (#[trigger] fr[j]) is Ok,
            result@ == chain_input(d, pl, fr, i as int),
        decreases filters@.len() - i,
    {
        assert(names[i as int] == filters@[i as int]@);
        let out = apply_filter(filters[i].as_str(), result.as_slice());
        let ghost fr2 = fr.push(out);
        proof {
            lemma_chain_extend(names, pl, d, fr, out);
        }
        match out {
            Err(e) => {
                let r: PdfResult<Vec<u8>> = Err(e);
                proof {
                    lemma_stream_result(*dict, d, names, fr2, r);
                }
                return r;
            },
            Ok(v) => {
                let next = match &parms[i] {
                    Some(p) => match apply_predictor(v.as_slice(), p) {
                        Ok(w) => w,
                        Err(e) => return Err(e),
                    },
                    None => v,
                };
                proof {
                    fr = fr2;
                }
                result = next;
            },
        }
        i = i + 1;
    }
    let r: PdfResult<Vec<u8>> = Ok(result);
    proof {
        lemma_stream_result(*dict, d, names, fr, r);
    }
    r
}

} // verus!
