//! PNG and TIFF predictors, undone after a stream filter.
use vstd::prelude::*;
use crate::error::PdfResult;

verus! {

/// The predictor entries of a `/DecodeParms` dictionary: each is the
/// integer stored under its key, `None` where the key is absent or does
/// not hold an integer.
#[derive(Debug, Clone, Copy, PartialEq, Eq, Structural)]
pub struct PredictorParams {
    /// `/Predictor`.
    pub predictor: Option<i64>,
    /// `/Columns`.
    pub columns: Option<i64>,
    /// `/Colors`.
    pub colors: Option<i64>,
    /// `/BitsPerComponent`.
    pub bits_per_component: Option<i64>,
}

/// `x` limited to `lo ..= hi`.
pub open spec fn clamp_spec(x: i64, lo: i64, hi: i64) -> int {
    if x < lo {
        lo as int
    } else if x > hi {
        hi as int
    } else {
        x as int
    }
}

fn clamp_i64(x: i64, lo: i64, hi: i64) -> (r: i64)
    requires
        lo <= hi,
    ensures
        r == clamp_spec(x, lo, hi),
{
    if x < lo {
        lo
    } else if x > hi {
        hi
    } else {
        x
    }
}

/// The value stored under a key, or its default.
pub open spec fn or_default(v: Option<i64>, d: i64) -> i64 {
    match v {
        Some(x) => x,
        None => d,
    }
}

/// Byte addition modulo 256.
pub open spec fn add8(a: u8, b: u8) -> u8 {
    if a + b > 255 {
        (a + b - 256) as u8
    } else {
        (a + b) as u8
    }
}

// ---------------------------------------------------------------------------
// TIFF predictor 2
// ---------------------------------------------------------------------------

/// The decoded byte at `i` under TIFF predictor 2 with rows of
/// `row_bytes` bytes: the first `colors` bytes of a row stay; every later
/// byte adds the decoded byte `colors` places before it.
pub open spec fn tiff_byte(data: Seq<u8>, row_bytes: nat, colors: nat, i: int) -> u8
    decreases i,
{
    if i < colors || i >= data.len() || row_bytes == 0 || colors == 0 || i % (row_bytes as int) < colors {
        data[i]
    } else {
        add8(data[i], tiff_byte(data, row_bytes, colors, i - colors))
    }
}

/// TIFF predictor 2 over 8-bit components; other depths pass unchanged.
pub open spec fn tiff_result(data: Seq<u8>, columns: nat, colors: nat, bpc: nat) -> Seq<u8> {
    if bpc != 8 || columns * colors == 0 {
        data
    } else {
        Seq::new(data.len(), |i: int| tiff_byte(data, columns * colors, colors, i))
    }
}

/// Undoes TIFF predictor 2 (horizontal differencing).
pub fn apply_tiff_predictor(data: &[u8], columns: usize, colors: usize, bpc: usize) -> (r: Vec<u8>)
    requires
        1 <= columns <= 100_000,
        1 <= colors <= 64,
    ensures
        r@ == tiff_result(data@, columns as nat, colors as nat, bpc as nat),
{
    assert(columns * colors <= 6_400_000) by (nonlinear_arith)
        requires
            columns <= 100_000,
            colors <= 64,
    ;
    assert(columns * colors >= 1) by (nonlinear_arith)
        requires
            columns >= 1,
            colors >= 1,
    ;
    let row_bytes = columns * colors;
    let mut result: Vec<u8> = Vec::new();
    let mut k: usize = 0;
    while k < data.len()
        invariant
            k <= data.len(),
            result@.len() == k,
            forall|j: int| 0 <= j < k ==> result@[j] == data@[j],
        decreases data.len() - k,
    {
        result.push(data[k]);
        k = k + 1;
    }
    if bpc != 8 {
        assert(result@ =~= data@);
        return result;
    }
    let ghost d = data@;
    let mut i: usize = 0;
    while i < result.len()
        invariant
            d == data@,
            result@.len() == d.len(),
            i <= d.len(),
            row_bytes == columns * colors,
            1 <= row_bytes,
            1 <= colors,
            forall|j: int| 0 <= j < i ==> result@[j] == tiff_byte(d, row_bytes as nat, colors as nat, j),
            forall|j: int| i <= j < d.len() ==> result@[j] == d[j],
        decreases d.len() - i,
    {
        if i >= colors && i % row_bytes >= colors {
            let prev = result[i - colors];
            let cur = result[i];
            result.set(i, cur.wrapping_add(prev));
        }
        i = i + 1;
    }
    assert(result@ =~= tiff_result(d, columns as nat, colors as nat, bpc as nat));
    result
}

// ---------------------------------------------------------------------------
// PNG predictors
// ---------------------------------------------------------------------------

/// The Paeth predictor of the PNG specification: of `a` (left), `b`
/// (up) and `c` (up-left), the one closest to `a + b - c`, ties going to
/// `a`, then `b`.
pub open spec fn paeth(a: u8, b: u8, c: u8) -> u8 {
    let p = a + b - c;
    let pa = if p >= a { p - a } else { a - p };
    let pb = if p >= b { p - b } else { b - p };
    let pc = if p >= c { p - c } else { c - p };
    if pa <= pb && pa <= pc {
        a
    } else if pb <= pc {
        b
    } else {
        c
    }
}

/// Computes the Paeth predictor.
pub fn paeth_predictor(a: u8, b: u8, c: u8) -> (r: u8)
    ensures
        r == paeth(a, b, c),
{
    let a16 = a as i16;
    let b16 = b as i16;
    let c16 = c as i16;
    let p = a16 + b16 - c16;
    let pa = if p >= a16 { p - a16 } else { a16 - p };
    let pb = if p >= b16 { p - b16 } else { b16 - p };
    let pc = if p >= c16 { p - c16 } else { c16 - p };
    if pa <= pb && pa <= pc {
        a
    } else if pb <= pc {
        b
    } else {
        c
    }
}

/// The PNG filter `ft` undone on byte `raw`, given its left, upper and
/// upper-left neighbours already decoded: 0 None, 1 Sub, 2 Up,
/// 3 Average, 4 Paeth; any other type is taken as None.
pub open spec fn png_unfilter(ft: u8, raw: u8, left: u8, up: u8, up_left: u8) -> u8 {
    if ft == 1 {
        add8(raw, left)
    } else if ft == 2 {
        add8(raw, up)
    } else if ft == 3 {
        add8(raw, ((left + up) / 2) as u8)
    } else if ft == 4 {
        add8(raw, paeth(left, up, up_left))
    } else {
        raw
    }
}

/// The decoded byte `i` of row `r`, rows being `row_total` bytes long
/// in `data` (a filter-type byte, then the row's bytes) with `bpp`
/// bytes per pixel; bytes before the first pixel and above the first
/// row count as 0.
pub open spec fn png_byte(data: Seq<u8>, row_total: nat, bpp: nat, r: nat, i: nat) -> u8
    decreases r, i,
{
    let start = r * row_total;
    let left: u8 = if i >= bpp && bpp > 0 {
        png_byte(data, row_total, bpp, r, (i - bpp) as nat)
    } else {
        0
    };
    let up: u8 = if r > 0 {
        png_byte(data, row_total, bpp, (r - 1) as nat, i)
    } else {
        0
    };
    let up_left: u8 = if r > 0 && i >= bpp && bpp > 0 {
        png_byte(data, row_total, bpp, (r - 1) as nat, (i - bpp) as nat)
    } else {
        0
    };
    png_unfilter(data[start as int], data[(start + 1 + i) as int], left, up, up_left)
}

/// Row `r` decoded: `row_bytes` bytes.
pub open spec fn png_row(data: Seq<u8>, row_total: nat, bpp: nat, r: nat) -> Seq<u8> {
    Seq::new((row_total - 1) as nat, |i: int| png_byte(data, row_total, bpp, r, i as nat))
}

/// The first `n` rows decoded, one after the other.
pub open spec fn png_rows(data: Seq<u8>, row_total: nat, bpp: nat, n: nat) -> Seq<u8>
    decreases n,
{
    if n == 0 {
        Seq::empty()
    } else {
        png_rows(data, row_total, bpp, (n - 1) as nat) + png_row(data, row_total, bpp, (n - 1) as nat)
    }
}

/// `a / b` rounded up.
pub open spec fn div_ceil(a: nat, b: nat) -> nat {
    if b == 0 {
        0
    } else {
        ((a + b - 1) as nat / b) as nat
    }
}

/// PNG predictor decoding: every complete row of `1 + row_bytes` bytes
/// decoded, a trailing partial row dropped; data passes unchanged where a
/// row would exceed 16 MiB.
pub open spec fn png_result(data: Seq<u8>, columns: nat, colors: nat, bpc: nat) -> Seq<u8> {
    let bpp = div_ceil(colors * bpc, 8);
    let row_bytes = div_ceil(columns * colors * bpc, 8);
    let row_total = 1 + row_bytes;
    if row_bytes == 0 || row_bytes > 16 * 1024 * 1024 {
        data
    } else {
        png_rows(data, row_total, bpp, data.len() / row_total)
    }
}

proof fn lemma_row_fits(r: nat, n: nat, rt: nat, len: nat)
    requires
        rt >= 1,
        r < n,
        n == len / rt,
    ensures
        r * rt + rt <= len,
        (r + 1) * rt == r * rt + rt,
{
    assert(n * rt <= len) by (nonlinear_arith)
        requires
            rt >= 1,
            n == len / rt,
    ;
    assert(r * rt + rt <= n * rt) by (nonlinear_arith)
        requires
            r < n,
            rt >= 1,
    ;
    assert((r + 1) * rt == r * rt + rt) by (nonlinear_arith);
}

/// Undoes the PNG predictors (10 to 15): each row begins with its filter
/// type byte.
#[verifier::rlimit(40)]
pub fn apply_png_predictor(data: &[u8], columns: usize, colors: usize, bpc: usize) -> (r: Vec<u8>)
    requires
        1 <= columns <= 100_000,
        1 <= colors <= 64,
        1 <= bpc <= 32,
    ensures
        r@ == png_result(data@, columns as nat, colors as nat, bpc as nat),
{
    let ghost d = data@;
    assert(colors * bpc <= 2048) by (nonlinear_arith)
        requires
            colors <= 64,
            bpc <= 32,
    ;
    assert(colors * bpc >= 1) by (nonlinear_arith)
        requires
            colors >= 1,
            bpc >= 1,
    ;
    assert(columns * colors * bpc <= 204_800_000) by (nonlinear_arith)
        requires
            columns <= 100_000,
            colors * bpc <= 2048,
    ;
    assert(columns * colors * bpc >= 1) by (nonlinear_arith)
        requires
            columns >= 1,
            colors * bpc >= 1,
    ;
    let cb = colors * bpc;
    assert(columns * cb <= 204_800_000 && columns * cb >= 1) by (nonlinear_arith)
        requires
            columns <= 100_000,
            columns >= 1,
            1 <= cb <= 2048,
    ;
    let bits = columns * cb;
    assert(bits == columns * colors * bpc) by (nonlinear_arith)
        requires
            cb == colors * bpc,
            bits == columns * cb,
    ;
    let bpp = (cb + 7) / 8;
    let row_bytes = (bits + 7) / 8;
    if row_bytes == 0 || row_bytes > 16 * 1024 * 1024 {
        let mut out: Vec<u8> = Vec::new();
        let mut k: usize = 0;
        while k < data.len()
            invariant
                k <= data.len(),
                out@ =~= data@.take(k as int),
            decreases data.len() - k,
        {
            out.push(data[k]);
            k = k + 1;
        }
        assert(data@.take(data.len() as int) =~= data@);
        return out;
    }
    let row_total = 1 + row_bytes;
    let num_rows = data.len() / row_total;
    let ghost rt = row_total as nat;
    let ghost bp = bpp as nat;
    assert(bp == div_ceil(colors as nat * bpc as nat, 8));
    assert(row_bytes == div_ceil(columns as nat * colors as nat * bpc as nat, 8));
    let mut result: Vec<u8> = Vec::new();
    let mut prev: Vec<u8> = Vec::new();
    let mut z: usize = 0;
    while z < row_bytes
        invariant
            z <= row_bytes,
            prev@.len() == z,
            forall|j: int| 0 <= j < z ==> prev@[j] == 0,
        decreases row_bytes - z,
    {
        prev.push(0);
        z = z + 1;
    }
    let mut row: usize = 0;
    let mut row_start: usize = 0;
    while row < num_rows
        invariant
            d == data@,
            rt == row_total,
            bp == bpp,
            1 <= bpp,
            row_total == 1 + row_bytes,
            1 <= row_bytes <= 16 * 1024 * 1024,
            num_rows == d.len() / rt,
            row <= num_rows,
            row_start == row * rt,
            prev@.len() == row_bytes,
            forall|j: int| 0 <= j < row_bytes ==> #[trigger] prev@[j] == (if row > 0 {
                png_byte(d, rt, bp, (row - 1) as nat, j as nat)
            } else {
                0u8
            }),
            result@ == png_rows(d, rt, bp, row as nat),
        decreases num_rows - row,
    {
        proof {
            lemma_row_fits(row as nat, num_rows as nat, rt, d.len());
        }
        let ft = data[row_start];
        let mut current: Vec<u8> = Vec::new();
        let mut i: usize = 0;
        while i < row_bytes
            invariant
                d == data@,
                rt == row_total,
                bp == bpp,
                1 <= bpp,
                row_total == 1 + row_bytes,
                row_start == row * rt,
                row_start + row_total <= d.len(),
                row_start + row_total <= data.len(),
                ft == d[row_start as int],
                prev@.len() == row_bytes,
                forall|j: int| 0 <= j < row_bytes ==> #[trigger] prev@[j] == (if row > 0 {
                    png_byte(d, rt, bp, (row - 1) as nat, j as nat)
                } else {
                    0u8
                }),
                i <= row_bytes,
                current@.len() == i,
                forall|j: int| 0 <= j < i ==> #[trigger] current@[j] == png_byte(d, rt, bp, row as nat, j as nat),
            decreases row_bytes - i,
        {
            let raw = data[row_start + 1 + i];
            let left: u8 = if i >= bpp { current[i - bpp] } else { 0 };
            let up = prev[i];
            let up_left: u8 = if i >= bpp { prev[i - bpp] } else { 0 };
            let v: u8 = if ft == 1 {
                raw.wrapping_add(left)
            } else if ft == 2 {
                raw.wrapping_add(up)
            } else if ft == 3 {
                raw.wrapping_add(((left as u16 + up as u16) / 2) as u8)
            } else if ft == 4 {
                raw.wrapping_add(paeth_predictor(left, up, up_left))
            } else {
                raw
            };
            assert(v == png_byte(d, rt, bp, row as nat, i as nat));
            current.push(v);
            i = i + 1;
        }
        proof {
            assert(current@ =~= png_row(d, rt, bp, row as nat));
            assert(png_rows(d, rt, bp, (row + 1) as nat) == png_rows(d, rt, bp, row as nat) + png_row(d, rt, bp, row as nat));
        }
        let mut k: usize = 0;
        let ghost before = result@;
        while k < current.len()
            invariant
                k <= current@.len(),
                result@ =~= before + current@.take(k as int),
            decreases current@.len() - k,
        {
            result.push(current[k]);
            k = k + 1;
        }
        assert(current@.take(current@.len() as int) =~= current@);
        prev = current;
        row = row + 1;
        row_start = row_start + row_total;
    }
    result
}

// ---------------------------------------------------------------------------
// Dispatch
// ---------------------------------------------------------------------------

/// The predictor named by the parameters undone on `data`: 1 (or none)
/// and unknown values leave it unchanged, 2 is the TIFF predictor,
/// 10 to 15 the PNG predictors. Columns are limited to 1..=100000,
/// colours to 1..=64 and bits per component to 1..=32.
pub open spec fn predictor_result(data: Seq<u8>, p: PredictorParams) -> Seq<u8> {
    let predictor = or_default(p.predictor, 1);
    let columns = clamp_spec(or_default(p.columns, 1), 1, 100_000) as nat;
    let colors = clamp_spec(or_default(p.colors, 1), 1, 64) as nat;
    let bpc = clamp_spec(or_default(p.bits_per_component, 8), 1, 32) as nat;
    if predictor == 2 {
        tiff_result(data, columns, colors, bpc)
    } else if 10 <= predictor <= 15 {
        png_result(data, columns, colors, bpc)
    } else {
        data
    }
}

fn value_or(v: Option<i64>, d: i64) -> (r: i64)
    ensures
        r == or_default(v, d),
{
    match v {
        Some(x) => x,
        None => d,
    }
}

/// Undoes the predictor that the decode parameters name.
pub fn apply_predictor(data: &[u8], parms: &PredictorParams) -> (r: PdfResult<Vec<u8>>)
    ensures
        r matches Ok(v) && v@ == predictor_result(data@, *parms),
{
    let predictor = value_or(parms.predictor, 1);
    let columns = clamp_i64(value_or(parms.columns, 1), 1, 100_000) as usize;
    let colors = clamp_i64(value_or(parms.colors, 1), 1, 64) as usize;
    let bpc = clamp_i64(value_or(parms.bits_per_component, 8), 1, 32) as usize;
    if predictor == 2 {
        Ok(apply_tiff_predictor(data, columns, colors, bpc))
    } else if 10 <= predictor && predictor <= 15 {
        Ok(apply_png_predictor(data, columns, colors, bpc))
    } else {
        let v = crate::content::lexer::copy_bytes(data, 0, data.len());
        assert(v@ =~= data@);
        Ok(v)
    }
}

/// Predictor 1, an absent predictor and any value other than 2 and 10
/// to 15 leave the data unchanged.
pub proof fn lemma_no_prediction_identity(data: Seq<u8>, p: PredictorParams)
    requires
        or_default(p.predictor, 1) != 2,
        !(10 <= or_default(p.predictor, 1) <= 15),
    ensures
        predictor_result(data, p) == data,
{
}

/// The TIFF predictor keeps the length of the data.
pub proof fn lemma_tiff_keeps_length(data: Seq<u8>, columns: nat, colors: nat, bpc: nat)
    ensures
        tiff_result(data, columns, colors, bpc).len() == data.len(),
{
}

/// Decoding `n` PNG rows of `row_total` bytes gives `row_total - 1` bytes
/// per row.
pub proof fn lemma_png_rows_length(data: Seq<u8>, row_total: nat, bpp: nat, n: nat)
    requires
        row_total >= 1,
    ensures
        png_rows(data, row_total, bpp, n).len() == n * (row_total - 1),
    decreases n,
{
    if n == 0 {
        assert(0 * (row_total - 1) == 0) by (nonlinear_arith);
    } else {
        lemma_png_rows_length(data, row_total, bpp, (n - 1) as nat);
        let m = (n - 1) as int;
        let w = (row_total - 1) as int;
        assert(m * w + w == (m + 1) * w) by (nonlinear_arith);
    }
}

} // verus!
