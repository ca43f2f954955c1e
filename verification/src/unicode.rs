//! Character and string helpers shared by the text-producing modules.
//!
//! The library builds text as sequences of `char` and turns them into a
//! `String` at the end; the few std calls this needs are declared here
//! with the behaviour the standard library documents for them.
use vstd::prelude::*;

verus! {

/// Appends one character to a `String` (std `String::push`).
///
/// Claims that the string's characters grow by exactly `c`.
#[verifier::external_body]
pub(crate) fn push_char(s: &mut String, c: char)
    ensures
        final(s)@ == old(s)@.push(c),
{
    s.push(c);
}

/// Builds a `String` from a slice of characters (std `String::from_iter`).
///
/// Claims that the resulting string holds exactly the given characters.
#[verifier::external_body]
pub(crate) fn string_from_chars(v: &[char]) -> (s: String)
    ensures
        s@ == v@,
{
    String::from_iter(v.iter())
}

/// Converts a code point to a `char` (std `char::from_u32`).
///
/// Claims the documented behaviour: `Some` exactly for Unicode scalar
/// values (below 0x110000 and outside the surrogate range), holding the
/// character with that code point.
#[verifier::external_body]
pub(crate) fn char_from_u32(v: u32) -> (r: Option<char>)
    ensures
        r is Some <==> is_scalar_value(v as int),
        r matches Some(c) ==> c as u32 == v,
{
    char::from_u32(v)
}

/// A Unicode scalar value: a code point that is not a surrogate.
pub open spec fn is_scalar_value(v: int) -> bool {
    (0 <= v < 0xD800) || (0xE000 <= v < 0x110000)
}

/// The characters of a string slice, in order.
pub fn str_chars(s: &str) -> (v: Vec<char>)
    ensures
        v@ == s@,
{
    let mut v: Vec<char> = Vec::new();
    for c in it: s.chars()
        invariant
            v@ == it.seq().take(it.index() as int),
            it.seq() == s@,
    {
        v.push(c);
    }
    v
}

/// ASCII lowercase of a character; other characters are unchanged.
pub open spec fn ascii_lower(c: char) -> char {
    if 'A' <= c <= 'Z' {
        (((c as u32) + 32) as u32) as char
    } else {
        c
    }
}

/// Executable ASCII lowercase.
pub fn to_ascii_lower(c: char) -> (r: char)
    ensures
        r == ascii_lower(c),
{
    if 'A' <= c && c <= 'Z' {
        let v: u32 = (c as u32) + 32;
        let r = char_from_u32(v);
        match r {
            Some(x) => {
                proof {
                    vstd::utf8::char_u32_cast(x, v);
                }
                x
            },
            None => c,
        }
    } else {
        c
    }
}

} // verus!

verus! {

/// The big-endian 16-bit units of a byte sequence; a trailing odd byte is
/// not part of any unit.
pub open spec fn be_units(bytes: Seq<u8>) -> Seq<u16> {
    Seq::new(
        (bytes.len() / 2) as nat,
        |i: int| (bytes[2 * i] as int * 256 + bytes[2 * i + 1] as int) as u16,
    )
}

/// Whether a 16-bit unit is a high (leading) surrogate.
pub open spec fn is_high_surrogate(u: u16) -> bool {
    0xD800 <= u <= 0xDBFF
}

/// Whether a 16-bit unit is a low (trailing) surrogate.
pub open spec fn is_low_surrogate(u: u16) -> bool {
    0xDC00 <= u <= 0xDFFF
}

/// The code point of a surrogate pair.
pub open spec fn surrogate_pair_value(hi: u16, lo: u16) -> int {
    0x10000 + (hi as int - 0xD800) * 0x400 + (lo as int - 0xDC00)
}

/// UTF-16 decoding: `None` when a surrogate is unpaired.
pub open spec fn utf16_decode(units: Seq<u16>) -> Option<Seq<char>>
    decreases units.len(),
{
    if units.len() == 0 {
        Some(Seq::empty())
    } else {
        let u = units[0];
        if !is_high_surrogate(u) && !is_low_surrogate(u) {
            match utf16_decode(units.drop_first()) {
                Some(rest) => Some(seq![(u as u32) as char] + rest),
                None => None,
            }
        } else if is_high_surrogate(u) && units.len() >= 2 && is_low_surrogate(units[1]) {
            match utf16_decode(units.subrange(2, units.len() as int)) {
                Some(rest) => Some(
                    seq![(surrogate_pair_value(u, units[1]) as u32) as char] + rest,
                ),
                None => None,
            }
        } else {
            None
        }
    }
}

/// Prepends a known prefix to an optional decoding.
pub open spec fn opt_prefix(pre: Seq<char>, rest: Option<Seq<char>>) -> Option<Seq<char>> {
    match rest {
        Some(r) => Some(pre + r),
        None => None,
    }
}

proof fn lemma_opt_prefix_push(pre: Seq<char>, c: char, rest: Option<Seq<char>>)
    ensures
        opt_prefix(pre.push(c), rest) == opt_prefix(pre, opt_prefix(seq![c], rest)),
{
    match rest {
        Some(r) => {
            assert(pre.push(c) + r =~= pre + (seq![c] + r));
        },
        None => {},
    }
}

/// Decodes big-endian UTF-16 bytes into characters; `None` on an unpaired
/// surrogate. A trailing odd byte is ignored.
pub fn decode_utf16_chars(bytes: &[u8]) -> (r: Option<Vec<char>>)
    ensures
        match r {
            Some(v) => utf16_decode(be_units(bytes@)) == Some(v@),
            None => utf16_decode(be_units(bytes@)) is None,
        },
{
    let ghost units = be_units(bytes@);
    let n: usize = bytes.len() / 2;
    let mut out: Vec<char> = Vec::new();
    let mut k: usize = 0;
    assert(units.subrange(0, units.len() as int) =~= units);
    while k < n
        invariant
            n == bytes.len() / 2,
            units == be_units(bytes@),
            units.len() == n,
            k <= n,
            utf16_decode(units) == opt_prefix(
                out@,
                utf16_decode(units.subrange(k as int, n as int)),
            ),
        decreases n - k,
    {
        let ghost rest = units.subrange(k as int, n as int);
        let u: u16 = ((bytes[2 * k] as u16) * 256 + (bytes[2 * k + 1] as u16)) as u16;
        assert(u == rest[0]);
        if u < 0xD800 || u > 0xDFFF {
            let c = char_from_u32(u as u32);
            match c {
                Some(ch) => {
                    proof {
                        vstd::utf8::char_u32_cast(ch, u as u32);
                        assert(rest.drop_first() =~= units.subrange(k + 1, n as int));
                        lemma_opt_prefix_push(
                            out@,
                            ch,
                            utf16_decode(units.subrange(k + 1, n as int)),
                        );
                    }
                    out.push(ch);
                    k = k + 1;
                },
                None => {
                    return None;
                },
            }
        } else if u <= 0xDBFF && k + 1 < n {
            let lo: u16 = ((bytes[2 * k + 2] as u16) * 256 + (bytes[2 * k + 3] as u16)) as u16;
            assert(lo == rest[1]);
            if lo >= 0xDC00 && lo <= 0xDFFF {
                let v: u32 = 0x10000 + ((u as u32) - 0xD800) * 0x400 + ((lo as u32) - 0xDC00);
                let c = char_from_u32(v);
                match c {
                    Some(ch) => {
                        proof {
                            vstd::utf8::char_u32_cast(ch, v);
                            assert(rest.subrange(2, rest.len() as int) =~= units.subrange(
                                k + 2,
                                n as int,
                            ));
                            lemma_opt_prefix_push(
                                out@,
                                ch,
                                utf16_decode(units.subrange(k + 2, n as int)),
                            );
                        }
                        out.push(ch);
                        k = k + 2;
                    },
                    None => {
                        return None;
                    },
                }
            } else {
                return None;
            }
        } else {
            return None;
        }
    }
    assert(units.subrange(n as int, n as int) =~= Seq::<u16>::empty());
    assert(out@ + Seq::<char>::empty() =~= out@);
    Some(out)
}

} // verus!

verus! {

/// The decimal digit characters of a natural number (no leading zeros;
/// `0` is written as `0`).
pub open spec fn decimal(n: nat) -> Seq<char>
    decreases n,
{
    if n < 10 {
        seq![((48 + n) as u8) as char]
    } else {
        decimal(n / 10) + seq![((48 + (n % 10)) as u8) as char]
    }
}

/// Appends the decimal form of `n`.
pub fn push_decimal(out: &mut Vec<char>, n: u64)
    ensures
        final(out)@ == old(out)@ + decimal(n as nat),
    decreases n,
{
    if n < 10 {
        out.push(((48 + n) as u8) as char);
    } else {
        push_decimal(out, n / 10);
        out.push(((48 + (n % 10)) as u8) as char);
        proof {
            assert(old(out)@ + decimal((n / 10) as nat) + seq![((48 + (n % 10)) as u8) as char]
                =~= old(out)@ + decimal(n as nat));
        }
    }
}

/// Appends the decimal form of a signed number (with a leading `-` when negative).
pub fn push_signed_decimal(out: &mut Vec<char>, n: i64)
    ensures
        final(out)@ == old(out)@ + signed_decimal(n as int),
{
    if n < 0 {
        out.push('-');
        let m: u64 = if n == i64::MIN {
            9223372036854775808u64
        } else {
            (-n) as u64
        };
        push_decimal(out, m);
        assert(old(out)@.push('-') + decimal(m as nat) =~= old(out)@ + (seq!['-'] + decimal(
            m as nat,
        )));
    } else {
        push_decimal(out, n as u64);
    }
}

/// The decimal form of an integer, with a leading `-` when negative.
pub open spec fn signed_decimal(n: int) -> Seq<char> {
    if n < 0 {
        seq!['-'] + decimal((-n) as nat)
    } else {
        decimal(n as nat)
    }
}

} // verus!

verus! {

/// Whether two character slices are equal.
pub fn chars_eq(a: &[char], b: &[char]) -> (r: bool)
    ensures
        r == (a@ == b@),
{
    if a.len() != b.len() {
        return false;
    }
    let mut i: usize = 0;
    while i < a.len()
        invariant
            i <= a.len(),
            a.len() == b.len(),
            forall|k: int| 0 <= k < i ==> a@[k] == b@[k],
        decreases a.len() - i,
    {
        if a[i] != b[i] {
            return false;
        }
        i = i + 1;
    }
    assert(a@ =~= b@);
    true
}

/// Whether two strings are equal.
pub fn str_eq(a: &str, b: &str) -> (r: bool)
    ensures
        r == (a@ == b@),
{
    let x = str_chars(a);
    let y = str_chars(b);
    chars_eq(x.as_slice(), y.as_slice())
}


/// Appends the characters of a string to a `String`.
pub fn push_str_chars(out: &mut String, s: &str)
    ensures
        final(out)@ == old(out)@ + s@,
{
    let v = str_chars(s);
    let mut i: usize = 0;
    let ghost start = out@;
    while i < v.len()
        invariant
            i <= v.len(),
            v@ == s@,
            out@ == start + v@.take(i as int),
        decreases v.len() - i,
    {
        push_char(out, v[i]);
        assert(v@.take(i + 1) =~= v@.take(i as int).push(v@[i as int]));
        i = i + 1;
    }
    assert(v@.take(v.len() as int) =~= v@);
}


/// Whether `pat` occurs in `hay` starting at `i`.
fn occurs_at(hay: &[char], pat: &[char], i: usize) -> (r: bool)
    requires
        i + pat.len() <= hay.len(),
    ensures
        r == (hay@.subrange(i as int, i + pat.len()) == pat@),
{
    let mut k: usize = 0;
    while k < pat.len()
        invariant
            k <= pat.len(),
            i + pat.len() <= hay.len(),
            forall|j: int| 0 <= j < k ==> hay@[i + j] == pat@[j],
        decreases pat.len() - k,
    {
        if hay[i + k] != pat[k] {
            assert(hay@.subrange(i as int, i + pat.len())[k as int] != pat@[k as int]);
            return false;
        }
        k = k + 1;
    }
    assert(hay@.subrange(i as int, i + pat.len()) =~= pat@);
    true
}

/// Whether `pat` occurs as a contiguous block of `hay`.
pub fn chars_contain(hay: &[char], pat: &[char]) -> (r: bool)
    ensures
        r == crate::seqs::contains_seq(hay@, pat@),
{
    if pat.len() > hay.len() {
        return false;
    }
    let last = hay.len() - pat.len();
    let mut i: usize = 0;
    while i <= last
        invariant
            last == hay.len() - pat.len(),
            pat.len() <= hay.len(),
            i <= last,
            forall|j: int| 0 <= j < i ==> #[trigger] hay@.subrange(j, j + pat.len()) != pat@,
        decreases last - i,
    {
        if occurs_at(hay, pat, i) {
            return true;
        }
        if i == last {
            assert forall|j: int| 0 <= j && j + pat@.len() <= hay@.len() implies #[trigger] hay@.subrange(j, j + pat.len()) != pat@ by {
                assert(j <= i);
            }
            return false;
        }
        i = i + 1;
    }
    false
}

/// Whether the string `pat` occurs in `hay`.
pub fn contains_str(hay: &[char], pat: &str) -> (r: bool)
    ensures
        r == crate::seqs::contains_seq(hay@, pat@),
{
    let p = str_chars(pat);
    chars_contain(hay, p.as_slice())
}

/// Whether a character is Unicode white space.
pub open spec fn is_white_space(c: char) -> bool {
    ('\u{9}' <= c <= '\u{d}') || c == ' ' || c == '\u{85}' || c == '\u{a0}' || c == '\u{1680}' || (
    '\u{2000}' <= c <= '\u{200a}') || c == '\u{2028}' || c == '\u{2029}' || c == '\u{202f}' || c
        == '\u{205f}' || c == '\u{3000}'
}

pub fn is_white_space_exec(c: char) -> (r: bool)
    ensures
        r == is_white_space(c),
{
    ('\u{9}' <= c && c <= '\u{d}') || c == ' ' || c == '\u{85}' || c == '\u{a0}' || c == '\u{1680}'
        || ('\u{2000}' <= c && c <= '\u{200a}') || c == '\u{2028}' || c == '\u{2029}' || c
        == '\u{202f}' || c == '\u{205f}' || c == '\u{3000}'
}

/// The number of white-space characters at the start of `s` from `i` on.
pub open spec fn ws_prefix_end(s: Seq<char>, i: int) -> int
    decreases s.len() - i,
{
    if i < 0 || i >= s.len() || !is_white_space(s[i]) {
        i
    } else {
        ws_prefix_end(s, i + 1)
    }
}

/// The start of the white space at the end of `s[..j]`.
pub open spec fn ws_suffix_start(s: Seq<char>, j: int) -> int
    decreases j,
{
    if j <= 0 || j > s.len() || !is_white_space(s[j - 1]) {
        j
    } else {
        ws_suffix_start(s, j - 1)
    }
}

/// `s` without white space at either end.
pub open spec fn trim(s: Seq<char>) -> Seq<char> {
    let a = ws_prefix_end(s, 0);
    let b = ws_suffix_start(s, s.len() as int);
    if a >= b {
        Seq::empty()
    } else {
        s.subrange(a, b)
    }
}

proof fn lemma_ws_prefix_end(s: Seq<char>, i: int)
    requires
        0 <= i <= s.len(),
    ensures
        i <= ws_prefix_end(s, i) <= s.len(),
    decreases s.len() - i,
{
    if i < s.len() && is_white_space(s[i]) {
        lemma_ws_prefix_end(s, i + 1);
    }
}

proof fn lemma_ws_suffix_start(s: Seq<char>, j: int)
    requires
        0 <= j <= s.len(),
    ensures
        0 <= ws_suffix_start(s, j) <= j,
    decreases j,
{
    if j > 0 && is_white_space(s[j - 1]) {
        lemma_ws_suffix_start(s, j - 1);
    }
}

/// Removes white space from both ends of a text.
pub fn trim_chars(s: &[char]) -> (r: String)
    ensures
        r@ == trim(s@),
{
    let mut a: usize = 0;
    proof {
        lemma_ws_prefix_end(s@, 0);
    }
    while a < s.len() && is_white_space_exec(s[a])
        invariant
            a <= s.len(),
            ws_prefix_end(s@, 0) == ws_prefix_end(s@, a as int),
        decreases s.len() - a,
    {
        a = a + 1;
    }
    let mut b: usize = s.len();
    while b > 0 && is_white_space_exec(s[b - 1])
        invariant
            b <= s.len(),
            ws_suffix_start(s@, s.len() as int) == ws_suffix_start(s@, b as int),
        decreases b,
    {
        b = b - 1;
    }
    if a >= b {
        return string_from_chars(&[]);
    }
    let mut v: Vec<char> = Vec::new();
    let mut k = a;
    while k < b
        invariant
            a <= k <= b <= s.len(),
            v@ == s@.subrange(a as int, k as int),
        decreases b - k,
    {
        v.push(s[k]);
        k = k + 1;
        assert(v@ =~= s@.subrange(a as int, k as int));
    }
    string_from_chars(v.as_slice())
}

} // verus!

