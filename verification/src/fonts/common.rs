//! The ToUnicode CMap written for an embedded font subset.
use vstd::prelude::*;
use vstd::relations::{sorted_by, total_ordering};
use crate::error::PdfResult;
use crate::filters::{encode_flate, zlib_deflated};
use crate::unicode::{decimal, push_decimal};

verus! {

/// An uppercase hexadecimal digit.
pub open spec fn hex_digit_char(d: nat) -> char {
    if d < 10 {
        ((48 + d) as u8) as char
    } else {
        ((55 + d) as u8) as char
    }
}

/// The uppercase hexadecimal digits of `n`, without leading zeros
/// (`0` for zero).
pub open spec fn hex_digits(n: nat) -> Seq<char>
    decreases n,
{
    if n < 16 {
        seq![hex_digit_char(n)]
    } else {
        hex_digits(n / 16) + seq![hex_digit_char(n % 16)]
    }
}

/// The hexadecimal digits of `n` left-padded with zeros to `width`.
pub open spec fn hex_padded(n: nat, width: nat) -> Seq<char> {
    let d = hex_digits(n);
    Seq::new(if width > d.len() { (width - d.len()) as nat } else { 0 }, |i: int| '0') + d
}

fn push_hex_digits(out: &mut Vec<char>, n: u32)
    ensures
        final(out)@ == old(out)@ + hex_digits(n as nat),
    decreases n,
{
    if n >= 16 {
        push_hex_digits(out, n / 16);
    }
    let d = n % 16;
    let c: char = if d < 10 { ((48 + d) as u8) as char } else { ((55 + d) as u8) as char };
    out.push(c);
}

fn push_hex_padded(out: &mut Vec<char>, n: u32, width: usize)
    ensures
        final(out)@ == old(out)@ + hex_padded(n as nat, width as nat),
{
    let mut digits: Vec<char> = Vec::new();
    push_hex_digits(&mut digits, n);
    assert(digits@ =~= hex_digits(n as nat));
    let ghost start = out@;
    let mut k: usize = digits.len();
    while k < width
        invariant
            digits@.len() <= k <= (if width > digits@.len() { width as int } else { digits@.len() as int }),
            out@ =~= start + Seq::new((k - digits@.len()) as nat, |i: int| '0'),
        decreases width - k,
    {
        out.push('0');
        k = k + 1;
    }
    let mut i: usize = 0;
    let ghost mid = out@;
    while i < digits.len()
        invariant
            i <= digits@.len(),
            out@ =~= mid + digits@.take(i as int),
        decreases digits@.len() - i,
    {
        out.push(digits[i]);
        i = i + 1;
    }
    assert(digits@.take(digits@.len() as int) =~= digits@);
}

/// The value of the first entry with key `k`.
pub open spec fn lookup(m: Seq<(u16, u16)>, k: u16) -> Option<u16>
    decreases m.len(),
{
    if m.len() == 0 {
        None
    } else if m[0].0 == k {
        Some(m[0].1)
    } else {
        lookup(m.drop_first(), k)
    }
}

/// The (new glyph, character) pairs of the characters whose glyph has a
/// new number, in the order of the characters.
pub open spec fn mapped_pairs(char_to_gid: Seq<(char, u16)>, old_to_new: Seq<(u16, u16)>) -> Seq<(u16, char)>
    decreases char_to_gid.len(),
{
    if char_to_gid.len() == 0 {
        Seq::empty()
    } else {
        let prev = mapped_pairs(char_to_gid.drop_last(), old_to_new);
        match lookup(old_to_new, char_to_gid.last().1) {
            Some(g) => prev.push((g, char_to_gid.last().0)),
            None => prev,
        }
    }
}

/// The order of pairs: by glyph, then by character.
pub open spec fn pair_leq() -> spec_fn((u16, char), (u16, char)) -> bool {
    |a: (u16, char), b: (u16, char)| a.0 < b.0 || (a.0 == b.0 && a.1 <= b.1)
}

/// The text of one `bfchar` line: the glyph in `2 * byte_width`
/// hexadecimal digits, the character in UTF-16 (a surrogate pair above
/// U+FFFF).
pub open spec fn bfchar_line(gid: u16, ch: char, byte_width: nat) -> Seq<char> {
    let u = ch as u32;
    let target = if u > 0xFFFF {
        let v = (u - 0x10000) as nat;
        hex_padded(0xD800 + v / 1024, 4) + hex_padded(0xDC00 + v % 1024, 4)
    } else {
        hex_padded(u as nat, 4)
    };
    seq!['<'] + hex_padded(gid as nat, 2 * byte_width) + "> <"@ + target + ">\n"@
}

/// The lines of a run of pairs.
pub open spec fn bfchar_lines(pairs: Seq<(u16, char)>, byte_width: nat) -> Seq<char>
    decreases pairs.len(),
{
    if pairs.len() == 0 {
        Seq::empty()
    } else {
        bfchar_lines(pairs.drop_last(), byte_width) + bfchar_line(pairs.last().0, pairs.last().1, byte_width)
    }
}

/// The `bfchar` blocks of the pairs from `start` on, 100 pairs a block.
pub open spec fn bfchar_blocks(pairs: Seq<(u16, char)>, byte_width: nat, start: int) -> Seq<char>
    decreases pairs.len() - start,
{
    if start < 0 || start >= pairs.len() {
        Seq::empty()
    } else {
        let end = if start + 100 < pairs.len() { start + 100 } else { pairs.len() as int };
        decimal((end - start) as nat) + " beginbfchar\n"@ + bfchar_lines(pairs.subrange(start, end), byte_width)
            + "endbfchar\n"@ + bfchar_blocks(pairs, byte_width, end)
    }
}

/// The lines before the mappings.
pub open spec fn cmap_header(byte_width: nat) -> Seq<char> {
    "/CIDInit /ProcSet findresource begin\n"@ + "12 dict begin\n"@ + "begincmap\n"@ + "/CIDSystemInfo\n"@
        + "<< /Registry (Adobe) /Ordering (UCS) /Supplement 0 >> def\n"@ + "/CMapName /Adobe-Identity-UCS def\n"@
        + "/CMapType 2 def\n"@ + "1 begincodespacerange\n"@ + (if byte_width == 1 {
        "<00> <FF>\n"@
    } else {
        "<0000> <FFFF>\n"@
    }) + "endcodespacerange\n"@
}

/// The lines after the mappings.
pub open spec fn cmap_trailer() -> Seq<char> {
    "endcmap\n"@ + "CMapName currentdict /CMap defineresource pop\n"@ + "end\n"@ + "end\n"@
}

/// The text of the ToUnicode CMap: header, the mappings sorted by glyph
/// (then character) in blocks of 100, trailer.
pub open spec fn to_unicode_text(char_to_gid: Seq<(char, u16)>, old_to_new: Seq<(u16, u16)>, byte_width: nat) -> Seq<char> {
    cmap_header(byte_width) + bfchar_blocks(mapped_pairs(char_to_gid, old_to_new).sort_by(pair_leq()), byte_width, 0)
        + cmap_trailer()
}

/// The bytes of an ASCII text.
pub open spec fn text_bytes(t: Seq<char>) -> Seq<u8> {
    t.map_values(|c: char| (c as u32) as u8)
}

/// Whether the characters of a map are strictly increasing (a map's keys
/// in order).
pub open spec fn chars_increasing(m: Seq<(char, u16)>) -> bool {
    forall|i: int, j: int| 0 <= i < j < m.len() ==> (m[i].0 as u32) < (#[trigger] m[j].0 as u32) && #[trigger] m[i].0 != m[j].0
}

proof fn lemma_pair_order()
    ensures
        total_ordering(pair_leq()),
{
}

fn sort_pairs(v: &Vec<(u16, char)>) -> (r: Vec<(u16, char)>)
    ensures
        r@ == v@.sort_by(pair_leq()),
{
    broadcast use vstd::seq_lib::group_to_multiset_ensures;
    let mut out: Vec<(u16, char)> = Vec::new();
    let mut i: usize = 0;
    while i < v.len()
        invariant
            i <= v@.len(),
            sorted_by(out@, pair_leq()),
            out@.to_multiset() == v@.take(i as int).to_multiset(),
        decreases v@.len() - i,
    {
        let x = v[i];
        let mut pos: usize = 0;
        while pos < out.len() && (out[pos].0 < x.0 || (out[pos].0 == x.0 && out[pos].1 <= x.1))
            invariant
                pos <= out@.len(),
                forall|k: int| 0 <= k < pos ==> (pair_leq())(out@[k], x),
            decreases out@.len() - pos,
        {
            pos = pos + 1;
        }
        let ghost old_out = out@;
        out.insert(pos, x);
        proof {
            lemma_pair_order();
            assert forall|a: int, b: int| 0 <= a < b < out@.len() implies #[trigger] (pair_leq())(out@[a], out@[b]) by {
                if a < pos && b < pos {
                    assert((pair_leq())(old_out[a], old_out[b]));
                } else if a < pos && b == pos {
                } else if a < pos {
                    assert((pair_leq())(old_out[a], old_out[b - 1]));
                } else if a == pos {
                    if pos < old_out.len() {
                        assert(!(pair_leq())(old_out[pos as int], x));
                        if b - 1 > pos {
                            assert((pair_leq())(old_out[pos as int], old_out[b - 1]));
                        }
                    }
                } else {
                    assert((pair_leq())(old_out[a - 1], old_out[b - 1]));
                }
            }
            vstd::seq_lib::to_multiset_insert(old_out, pos as int, x);
            assert(v@.take(i + 1) =~= v@.take(i as int).push(x));
            vstd::seq_lib::to_multiset_build(v@.take(i as int), x);
        }
        i = i + 1;
    }
    proof {
        assert(v@.take(v@.len() as int) =~= v@);
        lemma_pair_order();
        v@.lemma_sort_by_ensures(pair_leq());
        vstd::seq_lib::lemma_sorted_unique(out@, v@.sort_by(pair_leq()), pair_leq());
    }
    out
}

fn lookup_exec(m: &Vec<(u16, u16)>, k: u16) -> (r: Option<u16>)
    ensures
        r == lookup(m@, k),
{
    let mut i: usize = 0;
    assert(m@.skip(0) =~= m@);
    while i < m.len()
        invariant
            i <= m@.len(),
            lookup(m@, k) == lookup(m@.skip(i as int), k),
        decreases m@.len() - i,
    {
        assert(m@.skip(i as int).drop_first() =~= m@.skip(i + 1));
        if m[i].0 == k {
            return Some(m[i].1);
        }
        i = i + 1;
    }
    assert(m@.skip(i as int).len() == 0);
    None
}

fn push_str_chars(out: &mut Vec<char>, s: &str)
    ensures
        final(out)@ == old(out)@ + s@,
{
    crate::error::append_str(out, s);
}

fn push_bfchar_line(out: &mut Vec<char>, gid: u16, ch: char, byte_width: usize)
    requires
        byte_width <= 0x7FFF_FFFF,
    ensures
        final(out)@ == old(out)@ + bfchar_line(gid, ch, byte_width as nat),
{
    let ghost start = out@;
    out.push('<');
    push_hex_padded(out, gid as u32, byte_width * 2);
    push_str_chars(out, "> <");
    let u = ch as u32;
    let ghost mid = out@;
    if u > 0xFFFF {
        let v = u - 0x10000;
        push_hex_padded(out, 0xD800 + v / 1024, 4);
        push_hex_padded(out, 0xDC00 + v % 1024, 4);
    } else {
        push_hex_padded(out, u, 4);
    }
    push_str_chars(out, ">\n");
    assert(out@ =~= start + bfchar_line(gid, ch, byte_width as nat));
}

/// Writes the ToUnicode CMap of an embedded font subset, mapping each
/// new glyph number back to its character, and compresses it where that
/// helps: the stream data and its filter. `char_to_gid` holds each
/// character's original glyph, in character order; `old_to_new` each
/// original glyph's number in the subset.
pub fn build_to_unicode_cmap(
    char_to_gid: &Vec<(char, u16)>,
    old_to_new: &Vec<(u16, u16)>,
    byte_width: usize,
) -> (r: PdfResult<(Vec<u8>, Option<&'static str>)>)
    requires
        chars_increasing(char_to_gid@),
        byte_width <= 0x7FFF_FFFF,
    ensures
        ({
            let data = text_bytes(to_unicode_text(char_to_gid@, old_to_new@, byte_width as nat));
            r matches Ok((v, f)) && if zlib_deflated(data).len() < data.len() {
                v@ == zlib_deflated(data) && (f matches Some(n) && n@ == "FlateDecode"@)
            } else {
                v@ == data && f is None
            }
        }),
{
    let mut text: Vec<char> = Vec::new();
    push_str_chars(&mut text, "/CIDInit /ProcSet findresource begin\n");
    push_str_chars(&mut text, "12 dict begin\n");
    push_str_chars(&mut text, "begincmap\n");
    push_str_chars(&mut text, "/CIDSystemInfo\n");
    push_str_chars(&mut text, "<< /Registry (Adobe) /Ordering (UCS) /Supplement 0 >> def\n");
    push_str_chars(&mut text, "/CMapName /Adobe-Identity-UCS def\n");
    push_str_chars(&mut text, "/CMapType 2 def\n");
    push_str_chars(&mut text, "1 begincodespacerange\n");
    if byte_width == 1 {
        push_str_chars(&mut text, "<00> <FF>\n");
    } else {
        push_str_chars(&mut text, "<0000> <FFFF>\n");
    }
    push_str_chars(&mut text, "endcodespacerange\n");
    assert(text@ =~= cmap_header(byte_width as nat));
    let ghost head = text@;
    let mut pairs: Vec<(u16, char)> = Vec::new();
    let mut i: usize = 0;
    while i < char_to_gid.len()
        invariant
            i <= char_to_gid@.len(),
            pairs@ == mapped_pairs(char_to_gid@.take(i as int), old_to_new@),
        decreases char_to_gid@.len() - i,
    {
        let (ch, old) = char_to_gid[i];
        proof {
            assert(char_to_gid@.take(i + 1).drop_last() =~= char_to_gid@.take(i as int));
        }
        match lookup_exec(old_to_new, old) {
            Some(g) => {
                pairs.push((g, ch));
            },
            None => {},
        }
        i = i + 1;
    }
    assert(char_to_gid@.take(char_to_gid@.len() as int) =~= char_to_gid@);
    let sorted = sort_pairs(&pairs);
    let ghost sp = sorted@;
    let mut start: usize = 0;
    while start < sorted.len()
        invariant
            sp == sorted@,
            byte_width <= 0x7FFF_FFFF,
            start <= sorted@.len(),
            text@ + bfchar_blocks(sp, byte_width as nat, start as int) == head + bfchar_blocks(sp, byte_width as nat, 0),
        decreases sorted@.len() - start,
    {
        let end: usize = if sorted.len() - start > 100 { start + 100 } else { sorted.len() };
        let ghost before = text@;
        push_decimal(&mut text, (end - start) as u64);
        push_str_chars(&mut text, " beginbfchar\n");
        let ghost lines_start = text@;
        let mut k: usize = start;
        while k < end
            invariant
                start <= k <= end <= sorted@.len(),
                sp == sorted@,
                byte_width <= 0x7FFF_FFFF,
                text@ == lines_start + bfchar_lines(sp.subrange(start as int, k as int), byte_width as nat),
            decreases end - k,
        {
            let (g, c) = sorted[k];
            proof {
                assert(sp.subrange(start as int, k + 1).drop_last() =~= sp.subrange(start as int, k as int));
            }
            push_bfchar_line(&mut text, g, c, byte_width);
            k = k + 1;
        }
        push_str_chars(&mut text, "endbfchar\n");
        proof {
            assert(text@ + bfchar_blocks(sp, byte_width as nat, end as int) =~= before + bfchar_blocks(sp, byte_width as nat, start as int));
        }
        start = end;
    }
    let ghost body = text@;
    push_str_chars(&mut text, "endcmap\n");
    push_str_chars(&mut text, "CMapName currentdict /CMap defineresource pop\n");
    push_str_chars(&mut text, "end\n");
    push_str_chars(&mut text, "end\n");
    assert(text@ =~= to_unicode_text(char_to_gid@, old_to_new@, byte_width as nat));
    let mut data: Vec<u8> = Vec::new();
    let mut j: usize = 0;
    while j < text.len()
        invariant
            j <= text@.len(),
            data@ =~= text_bytes(text@.take(j as int)),
        decreases text@.len() - j,
    {
        data.push((text[j] as u32) as u8);
        j = j + 1;
    }
    assert(text@.take(text@.len() as int) =~= text@);
    encode_flate(data.as_slice())
}

/// The original glyph of a character, where it has one.
pub open spec fn char_glyph(m: Seq<(char, u16)>, c: char) -> Option<u16>
    decreases m.len(),
{
    if m.len() == 0 {
        None
    } else if m[0].0 == c {
        Some(m[0].1)
    } else {
        char_glyph(m.drop_first(), c)
    }
}

/// The bytes that stand for one character in a subset font's text: its
/// subset glyph number, big-endian in two bytes or in one byte (the low
/// byte); nothing where the character or its glyph is not in the subset.
pub open spec fn subset_char_bytes(char_to_gid: Seq<(char, u16)>, old_to_new: Seq<(u16, u16)>, two_bytes: bool, c: char) -> Seq<u8> {
    match char_glyph(char_to_gid, c) {
        Some(old) => match lookup(old_to_new, old) {
            Some(n) => if two_bytes {
                seq![(n / 256) as u8, (n % 256) as u8]
            } else {
                seq![(n % 256) as u8]
            },
            None => Seq::empty(),
        },
        None => Seq::empty(),
    }
}

fn char_glyph_exec(m: &Vec<(char, u16)>, c: char) -> (r: Option<u16>)
    ensures
        r == char_glyph(m@, c),
{
    let mut i: usize = 0;
    assert(m@.skip(0) =~= m@);
    while i < m.len()
        invariant
            i <= m@.len(),
            char_glyph(m@, c) == char_glyph(m@.skip(i as int), c),
        decreases m@.len() - i,
    {
        assert(m@.skip(i as int).drop_first() =~= m@.skip(i + 1));
        if m[i].0 == c {
            return Some(m[i].1);
        }
        i = i + 1;
    }
    assert(m@.skip(i as int).len() == 0);
    None
}

/// Encodes text for a subset font: each character by its subset glyph
/// number (two bytes, big-endian, for a composite font; one byte for a
/// simple font), characters without a glyph in the subset left out.
pub fn encode_subset_text(text: &str, char_to_gid: &Vec<(char, u16)>, old_to_new: &Vec<(u16, u16)>, two_bytes: bool) -> (r: Vec<u8>)
    ensures
        r@ == crate::seqs::concat_map(text@, |c: char| subset_char_bytes(char_to_gid@, old_to_new@, two_bytes, c)),
{
    let ghost f = |c: char| subset_char_bytes(char_to_gid@, old_to_new@, two_bytes, c);
    let chars = crate::unicode::str_chars(text);
    let mut out: Vec<u8> = Vec::new();
    let mut i: usize = 0;
    while i < chars.len()
        invariant
            i <= chars@.len(),
            chars@ == text@,
            f == (|c: char| subset_char_bytes(char_to_gid@, old_to_new@, two_bytes, c)),
            out@ == crate::seqs::concat_map(chars@.take(i as int), f),
        decreases chars@.len() - i,
    {
        proof {
            crate::seqs::lemma_concat_map_take(chars@, i as int, f);
        }
        let c = chars[i];
        match char_glyph_exec(char_to_gid, c) {
            Some(old) => match lookup_exec(old_to_new, old) {
                Some(n) => {
                    if two_bytes {
                        out.push((n / 256) as u8);
                        out.push((n % 256) as u8);
                    } else {
                        out.push((n % 256) as u8);
                    }
                },
                None => {},
            },
            None => {},
        }
        i = i + 1;
        assert(out@ =~= crate::seqs::concat_map(chars@.take(i as int), f));
    }
    assert(chars@.take(chars@.len() as int) =~= chars@);
    out
}

} // verus!
