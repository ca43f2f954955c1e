//! PDF character encoding tables and glyph-name mapping.
//!
//! PDFs reference characters by byte codes (0–255). An encoding maps each
//! code to a Unicode character; a font's `/Encoding` selects a base
//! encoding and may patch it with `/Differences`.
use vstd::prelude::*;
use crate::error::{append_str, PdfError, PdfResult};
use crate::unicode::{
    char_from_u32, is_scalar_value, push_signed_decimal, signed_decimal, str_chars, str_eq,
    string_from_chars,
};
use crate::fonts::glyph_list::{glyph_lookup, lookup_glyph};

verus! {

/// A character encoding: a table from byte codes (0–255) to characters;
/// `None` marks an undefined code.
#[derive(Debug)]
pub struct Encoding {
    table: Vec<Option<char>>,
}

impl View for Encoding {
    type V = Seq<Option<char>>;

    closed spec fn view(&self) -> Seq<Option<char>> {
        self.table@
    }
}

impl Clone for Encoding {
    fn clone(&self) -> (r: Self)
        ensures
            r@ == self@,
    {
        proof {
            use_type_invariant(self);
        }
        let mut table: Vec<Option<char>> = Vec::new();
        let mut i: usize = 0;
        while i < self.table.len()
            invariant
                i <= self.table@.len(),
                table@ == self.table@.take(i as int),
            decreases self.table@.len() - i,
        {
            table.push(self.table[i]);
            i = i + 1;
            assert(table@ =~= self.table@.take(i as int));
        }
        assert(self.table@.take(i as int) =~= self.table@);
        Encoding { table }
    }
}

impl Encoding {
    #[verifier::type_invariant]
    spec fn inv(self) -> bool {
        self.table@.len() == 256
    }
}

/// The table given by an entry function.
pub open spec fn table_of(f: spec_fn(u8) -> Option<char>) -> Seq<Option<char>> {
    Seq::new(256, |i: int| f(i as u8))
}

/// The Latin-1 identity entry: every byte maps to the character with the same code.
pub open spec fn latin1_entry(code: u8) -> Option<char> {
    Some(code as char)
}

/// The WinAnsiEncoding (ISO 32000-2, Annex D, Table D.1) entry for a byte code.
pub open spec fn win_ansi_entry(code: u8) -> Option<char> {
    match code {
        32u8 => Some(' '),
        33u8 => Some('!'),
        34u8 => Some('"'),
        35u8 => Some('#'),
        36u8 => Some('$'),
        37u8 => Some('%'),
        38u8 => Some('&'),
        39u8 => Some('\u{0027}'),
        40u8 => Some('('),
        41u8 => Some(')'),
        42u8 => Some('*'),
        43u8 => Some('+'),
        44u8 => Some(','),
        45u8 => Some('-'),
        46u8 => Some('.'),
        47u8 => Some('/'),
        48u8 => Some('0'),
        49u8 => Some('1'),
        50u8 => Some('2'),
        51u8 => Some('3'),
        52u8 => Some('4'),
        53u8 => Some('5'),
        54u8 => Some('6'),
        55u8 => Some('7'),
        56u8 => Some('8'),
        57u8 => Some('9'),
        58u8 => Some(':'),
        59u8 => Some(';'),
        60u8 => Some('<'),
        61u8 => Some('='),
        62u8 => Some('>'),
        63u8 => Some('?'),
        64u8 => Some('@'),
        65u8 => Some('A'),
        66u8 => Some('B'),
        67u8 => Some('C'),
        68u8 => Some('D'),
        69u8 => Some('E'),
        70u8 => Some('F'),
        71u8 => Some('G'),
        72u8 => Some('H'),
        73u8 => Some('I'),
        74u8 => Some('J'),
        75u8 => Some('K'),
        76u8 => Some('L'),
        77u8 => Some('M'),
        78u8 => Some('N'),
        79u8 => Some('O'),
        80u8 => Some('P'),
        81u8 => Some('Q'),
        82u8 => Some('R'),
        83u8 => Some('S'),
        84u8 => Some('T'),
        85u8 => Some('U'),
        86u8 => Some('V'),
        87u8 => Some('W'),
        88u8 => Some('X'),
        89u8 => Some('Y'),
        90u8 => Some('Z'),
        91u8 => Some('['),
        92u8 => Some('\u{005C}'),
        93u8 => Some(']'),
        94u8 => Some('^'),
        95u8 => Some('_'),
        96u8 => Some('`'),
        97u8 => Some('a'),
        98u8 => Some('b'),
        99u8 => Some('c'),
        100u8 => Some('d'),
        101u8 => Some('e'),
        102u8 => Some('f'),
        103u8 => Some('g'),
        104u8 => Some('h'),
        105u8 => Some('i'),
        106u8 => Some('j'),
        107u8 => Some('k'),
        108u8 => Some('l'),
        109u8 => Some('m'),
        110u8 => Some('n'),
        111u8 => Some('o'),
        112u8 => Some('p'),
        113u8 => Some('q'),
        114u8 => Some('r'),
        115u8 => Some('s'),
        116u8 => Some('t'),
        117u8 => Some('u'),
        118u8 => Some('v'),
        119u8 => Some('w'),
        120u8 => Some('x'),
        121u8 => Some('y'),
        122u8 => Some('z'),
        123u8 => Some('{'),
        124u8 => Some('|'),
        125u8 => Some('}'),
        126u8 => Some('~'),
        128u8 => Some('\u{20AC}'),
        130u8 => Some('\u{201A}'),
        131u8 => Some('\u{0192}'),
        132u8 => Some('\u{201E}'),
        133u8 => Some('\u{2026}'),
        134u8 => Some('\u{2020}'),
        135u8 => Some('\u{2021}'),
        136u8 => Some('\u{02C6}'),
        137u8 => Some('\u{2030}'),
        138u8 => Some('\u{0160}'),
        139u8 => Some('\u{2039}'),
        140u8 => Some('\u{0152}'),
        142u8 => Some('\u{017D}'),
        145u8 => Some('\u{2018}'),
        146u8 => Some('\u{2019}'),
        147u8 => Some('\u{201C}'),
        148u8 => Some('\u{201D}'),
        149u8 => Some('\u{2022}'),
        150u8 => Some('\u{2013}'),
        151u8 => Some('\u{2014}'),
        152u8 => Some('\u{02DC}'),
        153u8 => Some('\u{2122}'),
        154u8 => Some('\u{0161}'),
        155u8 => Some('\u{203A}'),
        156u8 => Some('\u{0153}'),
        158u8 => Some('\u{017E}'),
        159u8 => Some('\u{0178}'),
        160u8 => Some('\u{00A0}'),
        161u8 => Some('\u{00A1}'),
        162u8 => Some('\u{00A2}'),
        163u8 => Some('\u{00A3}'),
        164u8 => Some('\u{00A4}'),
        165u8 => Some('\u{00A5}'),
        166u8 => Some('\u{00A6}'),
        167u8 => Some('\u{00A7}'),
        168u8 => Some('\u{00A8}'),
        169u8 => Some('\u{00A9}'),
        170u8 => Some('\u{00AA}'),
        171u8 => Some('\u{00AB}'),
        172u8 => Some('\u{00AC}'),
        173u8 => Some('\u{00AD}'),
        174u8 => Some('\u{00AE}'),
        175u8 => Some('\u{00AF}'),
        176u8 => Some('\u{00B0}'),
        177u8 => Some('\u{00B1}'),
        178u8 => Some('\u{00B2}'),
        179u8 => Some('\u{00B3}'),
        180u8 => Some('\u{00B4}'),
        181u8 => Some('\u{00B5}'),
        182u8 => Some('\u{00B6}'),
        183u8 => Some('\u{00B7}'),
        184u8 => Some('\u{00B8}'),
        185u8 => Some('\u{00B9}'),
        186u8 => Some('\u{00BA}'),
        187u8 => Some('\u{00BB}'),
        188u8 => Some('\u{00BC}'),
        189u8 => Some('\u{00BD}'),
        190u8 => Some('\u{00BE}'),
        191u8 => Some('\u{00BF}'),
        192u8 => Some('\u{00C0}'),
        193u8 => Some('\u{00C1}'),
        194u8 => Some('\u{00C2}'),
        195u8 => Some('\u{00C3}'),
        196u8 => Some('\u{00C4}'),
        197u8 => Some('\u{00C5}'),
        198u8 => Some('\u{00C6}'),
        199u8 => Some('\u{00C7}'),
        200u8 => Some('\u{00C8}'),
        201u8 => Some('\u{00C9}'),
        202u8 => Some('\u{00CA}'),
        203u8 => Some('\u{00CB}'),
        204u8 => Some('\u{00CC}'),
        205u8 => Some('\u{00CD}'),
        206u8 => Some('\u{00CE}'),
        207u8 => Some('\u{00CF}'),
        208u8 => Some('\u{00D0}'),
        209u8 => Some('\u{00D1}'),
        210u8 => Some('\u{00D2}'),
        211u8 => Some('\u{00D3}'),
        212u8 => Some('\u{00D4}'),
        213u8 => Some('\u{00D5}'),
        214u8 => Some('\u{00D6}'),
        215u8 => Some('\u{00D7}'),
        216u8 => Some('\u{00D8}'),
        217u8 => Some('\u{00D9}'),
        218u8 => Some('\u{00DA}'),
        219u8 => Some('\u{00DB}'),
        220u8 => Some('\u{00DC}'),
        221u8 => Some('\u{00DD}'),
        222u8 => Some('\u{00DE}'),
        223u8 => Some('\u{00DF}'),
        224u8 => Some('\u{00E0}'),
        225u8 => Some('\u{00E1}'),
        226u8 => Some('\u{00E2}'),
        227u8 => Some('\u{00E3}'),
        228u8 => Some('\u{00E4}'),
        229u8 => Some('\u{00E5}'),
        230u8 => Some('\u{00E6}'),
        231u8 => Some('\u{00E7}'),
        232u8 => Some('\u{00E8}'),
        233u8 => Some('\u{00E9}'),
        234u8 => Some('\u{00EA}'),
        235u8 => Some('\u{00EB}'),
        236u8 => Some('\u{00EC}'),
        237u8 => Some('\u{00ED}'),
        238u8 => Some('\u{00EE}'),
        239u8 => Some('\u{00EF}'),
        240u8 => Some('\u{00F0}'),
        241u8 => Some('\u{00F1}'),
        242u8 => Some('\u{00F2}'),
        243u8 => Some('\u{00F3}'),
        244u8 => Some('\u{00F4}'),
        245u8 => Some('\u{00F5}'),
        246u8 => Some('\u{00F6}'),
        247u8 => Some('\u{00F7}'),
        248u8 => Some('\u{00F8}'),
        249u8 => Some('\u{00F9}'),
        250u8 => Some('\u{00FA}'),
        251u8 => Some('\u{00FB}'),
        252u8 => Some('\u{00FC}'),
        253u8 => Some('\u{00FD}'),
        254u8 => Some('\u{00FE}'),
        255u8 => Some('\u{00FF}'),
        _ => None,
    }
}

fn win_ansi_entry_exec(code: u8) -> (r: Option<char>)
    ensures
        r == win_ansi_entry(code),
{
    match code {
        32u8 => Some(' '),
        33u8 => Some('!'),
        34u8 => Some('"'),
        35u8 => Some('#'),
        36u8 => Some('$'),
        37u8 => Some('%'),
        38u8 => Some('&'),
        39u8 => Some('\u{0027}'),
        40u8 => Some('('),
        41u8 => Some(')'),
        42u8 => Some('*'),
        43u8 => Some('+'),
        44u8 => Some(','),
        45u8 => Some('-'),
        46u8 => Some('.'),
        47u8 => Some('/'),
        48u8 => Some('0'),
        49u8 => Some('1'),
        50u8 => Some('2'),
        51u8 => Some('3'),
        52u8 => Some('4'),
        53u8 => Some('5'),
        54u8 => Some('6'),
        55u8 => Some('7'),
        56u8 => Some('8'),
        57u8 => Some('9'),
        58u8 => Some(':'),
        59u8 => Some(';'),
        60u8 => Some('<'),
        61u8 => Some('='),
        62u8 => Some('>'),
        63u8 => Some('?'),
        64u8 => Some('@'),
        65u8 => Some('A'),
        66u8 => Some('B'),
        67u8 => Some('C'),
        68u8 => Some('D'),
        69u8 => Some('E'),
        70u8 => Some('F'),
        71u8 => Some('G'),
        72u8 => Some('H'),
        73u8 => Some('I'),
        74u8 => Some('J'),
        75u8 => Some('K'),
        76u8 => Some('L'),
        77u8 => Some('M'),
        78u8 => Some('N'),
        79u8 => Some('O'),
        80u8 => Some('P'),
        81u8 => Some('Q'),
        82u8 => Some('R'),
        83u8 => Some('S'),
        84u8 => Some('T'),
        85u8 => Some('U'),
        86u8 => Some('V'),
        87u8 => Some('W'),
        88u8 => Some('X'),
        89u8 => Some('Y'),
        90u8 => Some('Z'),
        91u8 => Some('['),
        92u8 => Some('\u{005C}'),
        93u8 => Some(']'),
        94u8 => Some('^'),
        95u8 => Some('_'),
        96u8 => Some('`'),
        97u8 => Some('a'),
        98u8 => Some('b'),
        99u8 => Some('c'),
        100u8 => Some('d'),
        101u8 => Some('e'),
        102u8 => Some('f'),
        103u8 => Some('g'),
        104u8 => Some('h'),
        105u8 => Some('i'),
        106u8 => Some('j'),
        107u8 => Some('k'),
        108u8 => Some('l'),
        109u8 => Some('m'),
        110u8 => Some('n'),
        111u8 => Some('o'),
        112u8 => Some('p'),
        113u8 => Some('q'),
        114u8 => Some('r'),
        115u8 => Some('s'),
        116u8 => Some('t'),
        117u8 => Some('u'),
        118u8 => Some('v'),
        119u8 => Some('w'),
        120u8 => Some('x'),
        121u8 => Some('y'),
        122u8 => Some('z'),
        123u8 => Some('{'),
        124u8 => Some('|'),
        125u8 => Some('}'),
        126u8 => Some('~'),
        128u8 => Some('\u{20AC}'),
        130u8 => Some('\u{201A}'),
        131u8 => Some('\u{0192}'),
        132u8 => Some('\u{201E}'),
        133u8 => Some('\u{2026}'),
        134u8 => Some('\u{2020}'),
        135u8 => Some('\u{2021}'),
        136u8 => Some('\u{02C6}'),
        137u8 => Some('\u{2030}'),
        138u8 => Some('\u{0160}'),
        139u8 => Some('\u{2039}'),
        140u8 => Some('\u{0152}'),
        142u8 => Some('\u{017D}'),
        145u8 => Some('\u{2018}'),
        146u8 => Some('\u{2019}'),
        147u8 => Some('\u{201C}'),
        148u8 => Some('\u{201D}'),
        149u8 => Some('\u{2022}'),
        150u8 => Some('\u{2013}'),
        151u8 => Some('\u{2014}'),
        152u8 => Some('\u{02DC}'),
        153u8 => Some('\u{2122}'),
        154u8 => Some('\u{0161}'),
        155u8 => Some('\u{203A}'),
        156u8 => Some('\u{0153}'),
        158u8 => Some('\u{017E}'),
        159u8 => Some('\u{0178}'),
        160u8 => Some('\u{00A0}'),
        161u8 => Some('\u{00A1}'),
        162u8 => Some('\u{00A2}'),
        163u8 => Some('\u{00A3}'),
        164u8 => Some('\u{00A4}'),
        165u8 => Some('\u{00A5}'),
        166u8 => Some('\u{00A6}'),
        167u8 => Some('\u{00A7}'),
        168u8 => Some('\u{00A8}'),
        169u8 => Some('\u{00A9}'),
        170u8 => Some('\u{00AA}'),
        171u8 => Some('\u{00AB}'),
        172u8 => Some('\u{00AC}'),
        173u8 => Some('\u{00AD}'),
        174u8 => Some('\u{00AE}'),
        175u8 => Some('\u{00AF}'),
        176u8 => Some('\u{00B0}'),
        177u8 => Some('\u{00B1}'),
        178u8 => Some('\u{00B2}'),
        179u8 => Some('\u{00B3}'),
        180u8 => Some('\u{00B4}'),
        181u8 => Some('\u{00B5}'),
        182u8 => Some('\u{00B6}'),
        183u8 => Some('\u{00B7}'),
        184u8 => Some('\u{00B8}'),
        185u8 => Some('\u{00B9}'),
        186u8 => Some('\u{00BA}'),
        187u8 => Some('\u{00BB}'),
        188u8 => Some('\u{00BC}'),
        189u8 => Some('\u{00BD}'),
        190u8 => Some('\u{00BE}'),
        191u8 => Some('\u{00BF}'),
        192u8 => Some('\u{00C0}'),
        193u8 => Some('\u{00C1}'),
        194u8 => Some('\u{00C2}'),
        195u8 => Some('\u{00C3}'),
        196u8 => Some('\u{00C4}'),
        197u8 => Some('\u{00C5}'),
        198u8 => Some('\u{00C6}'),
        199u8 => Some('\u{00C7}'),
        200u8 => Some('\u{00C8}'),
        201u8 => Some('\u{00C9}'),
        202u8 => Some('\u{00CA}'),
        203u8 => Some('\u{00CB}'),
        204u8 => Some('\u{00CC}'),
        205u8 => Some('\u{00CD}'),
        206u8 => Some('\u{00CE}'),
        207u8 => Some('\u{00CF}'),
        208u8 => Some('\u{00D0}'),
        209u8 => Some('\u{00D1}'),
        210u8 => Some('\u{00D2}'),
        211u8 => Some('\u{00D3}'),
        212u8 => Some('\u{00D4}'),
        213u8 => Some('\u{00D5}'),
        214u8 => Some('\u{00D6}'),
        215u8 => Some('\u{00D7}'),
        216u8 => Some('\u{00D8}'),
        217u8 => Some('\u{00D9}'),
        218u8 => Some('\u{00DA}'),
        219u8 => Some('\u{00DB}'),
        220u8 => Some('\u{00DC}'),
        221u8 => Some('\u{00DD}'),
        222u8 => Some('\u{00DE}'),
        223u8 => Some('\u{00DF}'),
        224u8 => Some('\u{00E0}'),
        225u8 => Some('\u{00E1}'),
        226u8 => Some('\u{00E2}'),
        227u8 => Some('\u{00E3}'),
        228u8 => Some('\u{00E4}'),
        229u8 => Some('\u{00E5}'),
        230u8 => Some('\u{00E6}'),
        231u8 => Some('\u{00E7}'),
        232u8 => Some('\u{00E8}'),
        233u8 => Some('\u{00E9}'),
        234u8 => Some('\u{00EA}'),
        235u8 => Some('\u{00EB}'),
        236u8 => Some('\u{00EC}'),
        237u8 => Some('\u{00ED}'),
        238u8 => Some('\u{00EE}'),
        239u8 => Some('\u{00EF}'),
        240u8 => Some('\u{00F0}'),
        241u8 => Some('\u{00F1}'),
        242u8 => Some('\u{00F2}'),
        243u8 => Some('\u{00F3}'),
        244u8 => Some('\u{00F4}'),
        245u8 => Some('\u{00F5}'),
        246u8 => Some('\u{00F6}'),
        247u8 => Some('\u{00F7}'),
        248u8 => Some('\u{00F8}'),
        249u8 => Some('\u{00F9}'),
        250u8 => Some('\u{00FA}'),
        251u8 => Some('\u{00FB}'),
        252u8 => Some('\u{00FC}'),
        253u8 => Some('\u{00FD}'),
        254u8 => Some('\u{00FE}'),
        255u8 => Some('\u{00FF}'),
        _ => None,
    }
}

/// The MacRomanEncoding entry for a byte code.
pub open spec fn mac_roman_entry(code: u8) -> Option<char> {
    match code {
        32u8 => Some(' '),
        33u8 => Some('!'),
        34u8 => Some('"'),
        35u8 => Some('#'),
        36u8 => Some('$'),
        37u8 => Some('%'),
        38u8 => Some('&'),
        39u8 => Some('\u{0027}'),
        40u8 => Some('('),
        41u8 => Some(')'),
        42u8 => Some('*'),
        43u8 => Some('+'),
        44u8 => Some(','),
        45u8 => Some('-'),
        46u8 => Some('.'),
        47u8 => Some('/'),
        48u8 => Some('0'),
        49u8 => Some('1'),
        50u8 => Some('2'),
        51u8 => Some('3'),
        52u8 => Some('4'),
        53u8 => Some('5'),
        54u8 => Some('6'),
        55u8 => Some('7'),
        56u8 => Some('8'),
        57u8 => Some('9'),
        58u8 => Some(':'),
        59u8 => Some(';'),
        60u8 => Some('<'),
        61u8 => Some('='),
        62u8 => Some('>'),
        63u8 => Some('?'),
        64u8 => Some('@'),
        65u8 => Some('A'),
        66u8 => Some('B'),
        67u8 => Some('C'),
        68u8 => Some('D'),
        69u8 => Some('E'),
        70u8 => Some('F'),
        71u8 => Some('G'),
        72u8 => Some('H'),
        73u8 => Some('I'),
        74u8 => Some('J'),
        75u8 => Some('K'),
        76u8 => Some('L'),
        77u8 => Some('M'),
        78u8 => Some('N'),
        79u8 => Some('O'),
        80u8 => Some('P'),
        81u8 => Some('Q'),
        82u8 => Some('R'),
        83u8 => Some('S'),
        84u8 => Some('T'),
        85u8 => Some('U'),
        86u8 => Some('V'),
        87u8 => Some('W'),
        88u8 => Some('X'),
        89u8 => Some('Y'),
        90u8 => Some('Z'),
        91u8 => Some('['),
        92u8 => Some('\u{005C}'),
        93u8 => Some(']'),
        94u8 => Some('^'),
        95u8 => Some('_'),
        96u8 => Some('`'),
        97u8 => Some('a'),
        98u8 => Some('b'),
        99u8 => Some('c'),
        100u8 => Some('d'),
        101u8 => Some('e'),
        102u8 => Some('f'),
        103u8 => Some('g'),
        104u8 => Some('h'),
        105u8 => Some('i'),
        106u8 => Some('j'),
        107u8 => Some('k'),
        108u8 => Some('l'),
        109u8 => Some('m'),
        110u8 => Some('n'),
        111u8 => Some('o'),
        112u8 => Some('p'),
        113u8 => Some('q'),
        114u8 => Some('r'),
        115u8 => Some('s'),
        116u8 => Some('t'),
        117u8 => Some('u'),
        118u8 => Some('v'),
        119u8 => Some('w'),
        120u8 => Some('x'),
        121u8 => Some('y'),
        122u8 => Some('z'),
        123u8 => Some('{'),
        124u8 => Some('|'),
        125u8 => Some('}'),
        126u8 => Some('~'),
        128u8 => Some('\u{00C4}'),
        129u8 => Some('\u{00C5}'),
        130u8 => Some('\u{00C7}'),
        131u8 => Some('\u{00C9}'),
        132u8 => Some('\u{00D1}'),
        133u8 => Some('\u{00D6}'),
        134u8 => Some('\u{00DC}'),
        135u8 => Some('\u{00E1}'),
        136u8 => Some('\u{00E0}'),
        137u8 => Some('\u{00E2}'),
        138u8 => Some('\u{00E4}'),
        139u8 => Some('\u{00E3}'),
        140u8 => Some('\u{00E5}'),
        141u8 => Some('\u{00E7}'),
        142u8 => Some('\u{00E9}'),
        143u8 => Some('\u{00E8}'),
        144u8 => Some('\u{00EA}'),
        145u8 => Some('\u{00EB}'),
        146u8 => Some('\u{00ED}'),
        147u8 => Some('\u{00EC}'),
        148u8 => Some('\u{00EE}'),
        149u8 => Some('\u{00EF}'),
        150u8 => Some('\u{00F1}'),
        151u8 => Some('\u{00F3}'),
        152u8 => Some('\u{00F2}'),
        153u8 => Some('\u{00F4}'),
        154u8 => Some('\u{00F6}'),
        155u8 => Some('\u{00F5}'),
        156u8 => Some('\u{00FA}'),
        157u8 => Some('\u{00F9}'),
        158u8 => Some('\u{00FB}'),
        159u8 => Some('\u{00FC}'),
        160u8 => Some('\u{2020}'),
        161u8 => Some('\u{00B0}'),
        162u8 => Some('\u{00A2}'),
        163u8 => Some('\u{00A3}'),
        164u8 => Some('\u{00A7}'),
        165u8 => Some('\u{2022}'),
        166u8 => Some('\u{00B6}'),
        167u8 => Some('\u{00DF}'),
        168u8 => Some('\u{00AE}'),
        169u8 => Some('\u{00A9}'),
        170u8 => Some('\u{2122}'),
        171u8 => Some('\u{00B4}'),
        172u8 => Some('\u{00A8}'),
        173u8 => Some('\u{2260}'),
        174u8 => Some('\u{00C6}'),
        175u8 => Some('\u{00D8}'),
        176u8 => Some('\u{221E}'),
        177u8 => Some('\u{00B1}'),
        178u8 => Some('\u{2264}'),
        179u8 => Some('\u{2265}'),
        180u8 => Some('\u{00A5}'),
        181u8 => Some('\u{00B5}'),
        182u8 => Some('\u{2202}'),
        183u8 => Some('\u{2211}'),
        184u8 => Some('\u{220F}'),
        185u8 => Some('\u{03C0}'),
        186u8 => Some('\u{222B}'),
        187u8 => Some('\u{00AA}'),
        188u8 => Some('\u{00BA}'),
        189u8 => Some('\u{2126}'),
        190u8 => Some('\u{00E6}'),
        191u8 => Some('\u{00F8}'),
        192u8 => Some('\u{00BF}'),
        193u8 => Some('\u{00A1}'),
        194u8 => Some('\u{00AC}'),
        195u8 => Some('\u{221A}'),
        196u8 => Some('\u{0192}'),
        197u8 => Some('\u{2248}'),
        198u8 => Some('\u{2206}'),
        199u8 => Some('\u{00AB}'),
        200u8 => Some('\u{00BB}'),
        201u8 => Some('\u{2026}'),
        202u8 => Some('\u{00A0}'),
        203u8 => Some('\u{00C0}'),
        204u8 => Some('\u{00C3}'),
        205u8 => Some('\u{00D5}'),
        206u8 => Some('\u{0152}'),
        207u8 => Some('\u{0153}'),
        208u8 => Some('\u{2013}'),
        209u8 => Some('\u{2014}'),
        210u8 => Some('\u{201C}'),
        211u8 => Some('\u{201D}'),
        212u8 => Some('\u{2018}'),
        213u8 => Some('\u{2019}'),
        214u8 => Some('\u{00F7}'),
        215u8 => Some('\u{25CA}'),
        216u8 => Some('\u{00FF}'),
        217u8 => Some('\u{0178}'),
        218u8 => Some('\u{2044}'),
        219u8 => Some('\u{20AC}'),
        220u8 => Some('\u{2039}'),
        221u8 => Some('\u{203A}'),
        222u8 => Some('\u{FB01}'),
        223u8 => Some('\u{FB02}'),
        224u8 => Some('\u{2021}'),
        225u8 => Some('\u{00B7}'),
        226u8 => Some('\u{201A}'),
        227u8 => Some('\u{201E}'),
        228u8 => Some('\u{2030}'),
        229u8 => Some('\u{00C2}'),
        230u8 => Some('\u{00CA}'),
        231u8 => Some('\u{00C1}'),
        232u8 => Some('\u{00CB}'),
        233u8 => Some('\u{00C8}'),
        234u8 => Some('\u{00CD}'),
        235u8 => Some('\u{00CE}'),
        236u8 => Some('\u{00CF}'),
        237u8 => Some('\u{00CC}'),
        238u8 => Some('\u{00D3}'),
        239u8 => Some('\u{00D4}'),
        241u8 => Some('\u{00D2}'),
        242u8 => Some('\u{00DA}'),
        243u8 => Some('\u{00DB}'),
        244u8 => Some('\u{00D9}'),
        245u8 => Some('\u{0131}'),
        246u8 => Some('\u{02C6}'),
        247u8 => Some('\u{02DC}'),
        248u8 => Some('\u{00AF}'),
        249u8 => Some('\u{02D8}'),
        250u8 => Some('\u{02D9}'),
        251u8 => Some('\u{02DA}'),
        252u8 => Some('\u{00B8}'),
        253u8 => Some('\u{02DD}'),
        254u8 => Some('\u{02DB}'),
        255u8 => Some('\u{02C7}'),
        _ => None,
    }
}

fn mac_roman_entry_exec(code: u8) -> (r: Option<char>)
    ensures
        r == mac_roman_entry(code),
{
    match code {
        32u8 => Some(' '),
        33u8 => Some('!'),
        34u8 => Some('"'),
        35u8 => Some('#'),
        36u8 => Some('$'),
        37u8 => Some('%'),
        38u8 => Some('&'),
        39u8 => Some('\u{0027}'),
        40u8 => Some('('),
        41u8 => Some(')'),
        42u8 => Some('*'),
        43u8 => Some('+'),
        44u8 => Some(','),
        45u8 => Some('-'),
        46u8 => Some('.'),
        47u8 => Some('/'),
        48u8 => Some('0'),
        49u8 => Some('1'),
        50u8 => Some('2'),
        51u8 => Some('3'),
        52u8 => Some('4'),
        53u8 => Some('5'),
        54u8 => Some('6'),
        55u8 => Some('7'),
        56u8 => Some('8'),
        57u8 => Some('9'),
        58u8 => Some(':'),
        59u8 => Some(';'),
        60u8 => Some('<'),
        61u8 => Some('='),
        62u8 => Some('>'),
        63u8 => Some('?'),
        64u8 => Some('@'),
        65u8 => Some('A'),
        66u8 => Some('B'),
        67u8 => Some('C'),
        68u8 => Some('D'),
        69u8 => Some('E'),
        70u8 => Some('F'),
        71u8 => Some('G'),
        72u8 => Some('H'),
        73u8 => Some('I'),
        74u8 => Some('J'),
        75u8 => Some('K'),
        76u8 => Some('L'),
        77u8 => Some('M'),
        78u8 => Some('N'),
        79u8 => Some('O'),
        80u8 => Some('P'),
        81u8 => Some('Q'),
        82u8 => Some('R'),
        83u8 => Some('S'),
        84u8 => Some('T'),
        85u8 => Some('U'),
        86u8 => Some('V'),
        87u8 => Some('W'),
        88u8 => Some('X'),
        89u8 => Some('Y'),
        90u8 => Some('Z'),
        91u8 => Some('['),
        92u8 => Some('\u{005C}'),
        93u8 => Some(']'),
        94u8 => Some('^'),
        95u8 => Some('_'),
        96u8 => Some('`'),
        97u8 => Some('a'),
        98u8 => Some('b'),
        99u8 => Some('c'),
        100u8 => Some('d'),
        101u8 => Some('e'),
        102u8 => Some('f'),
        103u8 => Some('g'),
        104u8 => Some('h'),
        105u8 => Some('i'),
        106u8 => Some('j'),
        107u8 => Some('k'),
        108u8 => Some('l'),
        109u8 => Some('m'),
        110u8 => Some('n'),
        111u8 => Some('o'),
        112u8 => Some('p'),
        113u8 => Some('q'),
        114u8 => Some('r'),
        115u8 => Some('s'),
        116u8 => Some('t'),
        117u8 => Some('u'),
        118u8 => Some('v'),
        119u8 => Some('w'),
        120u8 => Some('x'),
        121u8 => Some('y'),
        122u8 => Some('z'),
        123u8 => Some('{'),
        124u8 => Some('|'),
        125u8 => Some('}'),
        126u8 => Some('~'),
        128u8 => Some('\u{00C4}'),
        129u8 => Some('\u{00C5}'),
        130u8 => Some('\u{00C7}'),
        131u8 => Some('\u{00C9}'),
        132u8 => Some('\u{00D1}'),
        133u8 => Some('\u{00D6}'),
        134u8 => Some('\u{00DC}'),
        135u8 => Some('\u{00E1}'),
        136u8 => Some('\u{00E0}'),
        137u8 => Some('\u{00E2}'),
        138u8 => Some('\u{00E4}'),
        139u8 => Some('\u{00E3}'),
        140u8 => Some('\u{00E5}'),
        141u8 => Some('\u{00E7}'),
        142u8 => Some('\u{00E9}'),
        143u8 => Some('\u{00E8}'),
        144u8 => Some('\u{00EA}'),
        145u8 => Some('\u{00EB}'),
        146u8 => Some('\u{00ED}'),
        147u8 => Some('\u{00EC}'),
        148u8 => Some('\u{00EE}'),
        149u8 => Some('\u{00EF}'),
        150u8 => Some('\u{00F1}'),
        151u8 => Some('\u{00F3}'),
        152u8 => Some('\u{00F2}'),
        153u8 => Some('\u{00F4}'),
        154u8 => Some('\u{00F6}'),
        155u8 => Some('\u{00F5}'),
        156u8 => Some('\u{00FA}'),
        157u8 => Some('\u{00F9}'),
        158u8 => Some('\u{00FB}'),
        159u8 => Some('\u{00FC}'),
        160u8 => Some('\u{2020}'),
        161u8 => Some('\u{00B0}'),
        162u8 => Some('\u{00A2}'),
        163u8 => Some('\u{00A3}'),
        164u8 => Some('\u{00A7}'),
        165u8 => Some('\u{2022}'),
        166u8 => Some('\u{00B6}'),
        167u8 => Some('\u{00DF}'),
        168u8 => Some('\u{00AE}'),
        169u8 => Some('\u{00A9}'),
        170u8 => Some('\u{2122}'),
        171u8 => Some('\u{00B4}'),
        172u8 => Some('\u{00A8}'),
        173u8 => Some('\u{2260}'),
        174u8 => Some('\u{00C6}'),
        175u8 => Some('\u{00D8}'),
        176u8 => Some('\u{221E}'),
        177u8 => Some('\u{00B1}'),
        178u8 => Some('\u{2264}'),
        179u8 => Some('\u{2265}'),
        180u8 => Some('\u{00A5}'),
        181u8 => Some('\u{00B5}'),
        182u8 => Some('\u{2202}'),
        183u8 => Some('\u{2211}'),
        184u8 => Some('\u{220F}'),
        185u8 => Some('\u{03C0}'),
        186u8 => Some('\u{222B}'),
        187u8 => Some('\u{00AA}'),
        188u8 => Some('\u{00BA}'),
        189u8 => Some('\u{2126}'),
        190u8 => Some('\u{00E6}'),
        191u8 => Some('\u{00F8}'),
        192u8 => Some('\u{00BF}'),
        193u8 => Some('\u{00A1}'),
        194u8 => Some('\u{00AC}'),
        195u8 => Some('\u{221A}'),
        196u8 => Some('\u{0192}'),
        197u8 => Some('\u{2248}'),
        198u8 => Some('\u{2206}'),
        199u8 => Some('\u{00AB}'),
        200u8 => Some('\u{00BB}'),
        201u8 => Some('\u{2026}'),
        202u8 => Some('\u{00A0}'),
        203u8 => Some('\u{00C0}'),
        204u8 => Some('\u{00C3}'),
        205u8 => Some('\u{00D5}'),
        206u8 => Some('\u{0152}'),
        207u8 => Some('\u{0153}'),
        208u8 => Some('\u{2013}'),
        209u8 => Some('\u{2014}'),
        210u8 => Some('\u{201C}'),
        211u8 => Some('\u{201D}'),
        212u8 => Some('\u{2018}'),
        213u8 => Some('\u{2019}'),
        214u8 => Some('\u{00F7}'),
        215u8 => Some('\u{25CA}'),
        216u8 => Some('\u{00FF}'),
        217u8 => Some('\u{0178}'),
        218u8 => Some('\u{2044}'),
        219u8 => Some('\u{20AC}'),
        220u8 => Some('\u{2039}'),
        221u8 => Some('\u{203A}'),
        222u8 => Some('\u{FB01}'),
        223u8 => Some('\u{FB02}'),
        224u8 => Some('\u{2021}'),
        225u8 => Some('\u{00B7}'),
        226u8 => Some('\u{201A}'),
        227u8 => Some('\u{201E}'),
        228u8 => Some('\u{2030}'),
        229u8 => Some('\u{00C2}'),
        230u8 => Some('\u{00CA}'),
        231u8 => Some('\u{00C1}'),
        232u8 => Some('\u{00CB}'),
        233u8 => Some('\u{00C8}'),
        234u8 => Some('\u{00CD}'),
        235u8 => Some('\u{00CE}'),
        236u8 => Some('\u{00CF}'),
        237u8 => Some('\u{00CC}'),
        238u8 => Some('\u{00D3}'),
        239u8 => Some('\u{00D4}'),
        241u8 => Some('\u{00D2}'),
        242u8 => Some('\u{00DA}'),
        243u8 => Some('\u{00DB}'),
        244u8 => Some('\u{00D9}'),
        245u8 => Some('\u{0131}'),
        246u8 => Some('\u{02C6}'),
        247u8 => Some('\u{02DC}'),
        248u8 => Some('\u{00AF}'),
        249u8 => Some('\u{02D8}'),
        250u8 => Some('\u{02D9}'),
        251u8 => Some('\u{02DA}'),
        252u8 => Some('\u{00B8}'),
        253u8 => Some('\u{02DD}'),
        254u8 => Some('\u{02DB}'),
        255u8 => Some('\u{02C7}'),
        _ => None,
    }
}

/// The StandardEncoding (the Type 1 default) entry for a byte code.
pub open spec fn standard_entry(code: u8) -> Option<char> {
    match code {
        32u8 => Some(' '),
        33u8 => Some('!'),
        34u8 => Some('"'),
        35u8 => Some('#'),
        36u8 => Some('$'),
        37u8 => Some('%'),
        38u8 => Some('&'),
        39u8 => Some('\u{0027}'),
        40u8 => Some('('),
        41u8 => Some(')'),
        42u8 => Some('*'),
        43u8 => Some('+'),
        44u8 => Some(','),
        45u8 => Some('-'),
        46u8 => Some('.'),
        47u8 => Some('/'),
        48u8 => Some('0'),
        49u8 => Some('1'),
        50u8 => Some('2'),
        51u8 => Some('3'),
        52u8 => Some('4'),
        53u8 => Some('5'),
        54u8 => Some('6'),
        55u8 => Some('7'),
        56u8 => Some('8'),
        57u8 => Some('9'),
        58u8 => Some(':'),
        59u8 => Some(';'),
        60u8 => Some('<'),
        61u8 => Some('='),
        62u8 => Some('>'),
        63u8 => Some('?'),
        64u8 => Some('@'),
        65u8 => Some('A'),
        66u8 => Some('B'),
        67u8 => Some('C'),
        68u8 => Some('D'),
        69u8 => Some('E'),
        70u8 => Some('F'),
        71u8 => Some('G'),
        72u8 => Some('H'),
        73u8 => Some('I'),
        74u8 => Some('J'),
        75u8 => Some('K'),
        76u8 => Some('L'),
        77u8 => Some('M'),
        78u8 => Some('N'),
        79u8 => Some('O'),
        80u8 => Some('P'),
        81u8 => Some('Q'),
        82u8 => Some('R'),
        83u8 => Some('S'),
        84u8 => Some('T'),
        85u8 => Some('U'),
        86u8 => Some('V'),
        87u8 => Some('W'),
        88u8 => Some('X'),
        89u8 => Some('Y'),
        90u8 => Some('Z'),
        91u8 => Some('['),
        92u8 => Some('\u{005C}'),
        93u8 => Some(']'),
        94u8 => Some('^'),
        95u8 => Some('_'),
        96u8 => Some('`'),
        97u8 => Some('a'),
        98u8 => Some('b'),
        99u8 => Some('c'),
        100u8 => Some('d'),
        101u8 => Some('e'),
        102u8 => Some('f'),
        103u8 => Some('g'),
        104u8 => Some('h'),
        105u8 => Some('i'),
        106u8 => Some('j'),
        107u8 => Some('k'),
        108u8 => Some('l'),
        109u8 => Some('m'),
        110u8 => Some('n'),
        111u8 => Some('o'),
        112u8 => Some('p'),
        113u8 => Some('q'),
        114u8 => Some('r'),
        115u8 => Some('s'),
        116u8 => Some('t'),
        117u8 => Some('u'),
        118u8 => Some('v'),
        119u8 => Some('w'),
        120u8 => Some('x'),
        121u8 => Some('y'),
        122u8 => Some('z'),
        123u8 => Some('{'),
        124u8 => Some('|'),
        125u8 => Some('}'),
        126u8 => Some('~'),
        161u8 => Some('\u{00A1}'),
        162u8 => Some('\u{00A2}'),
        163u8 => Some('\u{00A3}'),
        164u8 => Some('\u{2044}'),
        165u8 => Some('\u{00A5}'),
        166u8 => Some('\u{0192}'),
        167u8 => Some('\u{00A7}'),
        168u8 => Some('\u{00A4}'),
        169u8 => Some('\u{0027}'),
        170u8 => Some('\u{201C}'),
        171u8 => Some('\u{00AB}'),
        172u8 => Some('\u{2039}'),
        173u8 => Some('\u{203A}'),
        174u8 => Some('\u{FB01}'),
        175u8 => Some('\u{FB02}'),
        177u8 => Some('\u{2013}'),
        178u8 => Some('\u{2020}'),
        179u8 => Some('\u{2021}'),
        180u8 => Some('\u{00B7}'),
        182u8 => Some('\u{00B6}'),
        183u8 => Some('\u{2022}'),
        184u8 => Some('\u{201A}'),
        185u8 => Some('\u{201E}'),
        186u8 => Some('\u{201D}'),
        187u8 => Some('\u{00BB}'),
        188u8 => Some('\u{2026}'),
        189u8 => Some('\u{2030}'),
        191u8 => Some('\u{00BF}'),
        193u8 => Some('`'),
        194u8 => Some('\u{00B4}'),
        195u8 => Some('\u{02C6}'),
        196u8 => Some('\u{02DC}'),
        197u8 => Some('\u{00AF}'),
        198u8 => Some('\u{02D8}'),
        199u8 => Some('\u{02D9}'),
        200u8 => Some('\u{00A8}'),
        202u8 => Some('\u{02DA}'),
        203u8 => Some('\u{00B8}'),
        205u8 => Some('\u{02DD}'),
        206u8 => Some('\u{02DB}'),
        207u8 => Some('\u{02C7}'),
        208u8 => Some('\u{2014}'),
        225u8 => Some('\u{00C6}'),
        227u8 => Some('\u{00AA}'),
        232u8 => Some('\u{0141}'),
        233u8 => Some('\u{00D8}'),
        234u8 => Some('\u{0152}'),
        235u8 => Some('\u{00BA}'),
        241u8 => Some('\u{00E6}'),
        245u8 => Some('\u{0131}'),
        248u8 => Some('\u{0142}'),
        249u8 => Some('\u{00F8}'),
        250u8 => Some('\u{0153}'),
        251u8 => Some('\u{00DF}'),
        _ => None,
    }
}

fn standard_entry_exec(code: u8) -> (r: Option<char>)
    ensures
        r == standard_entry(code),
{
    match code {
        32u8 => Some(' '),
        33u8 => Some('!'),
        34u8 => Some('"'),
        35u8 => Some('#'),
        36u8 => Some('$'),
        37u8 => Some('%'),
        38u8 => Some('&'),
        39u8 => Some('\u{0027}'),
        40u8 => Some('('),
        41u8 => Some(')'),
        42u8 => Some('*'),
        43u8 => Some('+'),
        44u8 => Some(','),
        45u8 => Some('-'),
        46u8 => Some('.'),
        47u8 => Some('/'),
        48u8 => Some('0'),
        49u8 => Some('1'),
        50u8 => Some('2'),
        51u8 => Some('3'),
        52u8 => Some('4'),
        53u8 => Some('5'),
        54u8 => Some('6'),
        55u8 => Some('7'),
        56u8 => Some('8'),
        57u8 => Some('9'),
        58u8 => Some(':'),
        59u8 => Some(';'),
        60u8 => Some('<'),
        61u8 => Some('='),
        62u8 => Some('>'),
        63u8 => Some('?'),
        64u8 => Some('@'),
        65u8 => Some('A'),
        66u8 => Some('B'),
        67u8 => Some('C'),
        68u8 => Some('D'),
        69u8 => Some('E'),
        70u8 => Some('F'),
        71u8 => Some('G'),
        72u8 => Some('H'),
        73u8 => Some('I'),
        74u8 => Some('J'),
        75u8 => Some('K'),
        76u8 => Some('L'),
        77u8 => Some('M'),
        78u8 => Some('N'),
        79u8 => Some('O'),
        80u8 => Some('P'),
        81u8 => Some('Q'),
        82u8 => Some('R'),
        83u8 => Some('S'),
        84u8 => Some('T'),
        85u8 => Some('U'),
        86u8 => Some('V'),
        87u8 => Some('W'),
        88u8 => Some('X'),
        89u8 => Some('Y'),
        90u8 => Some('Z'),
        91u8 => Some('['),
        92u8 => Some('\u{005C}'),
        93u8 => Some(']'),
        94u8 => Some('^'),
        95u8 => Some('_'),
        96u8 => Some('`'),
        97u8 => Some('a'),
        98u8 => Some('b'),
        99u8 => Some('c'),
        100u8 => Some('d'),
        101u8 => Some('e'),
        102u8 => Some('f'),
        103u8 => Some('g'),
        104u8 => Some('h'),
        105u8 => Some('i'),
        106u8 => Some('j'),
        107u8 => Some('k'),
        108u8 => Some('l'),
        109u8 => Some('m'),
        110u8 => Some('n'),
        111u8 => Some('o'),
        112u8 => Some('p'),
        113u8 => Some('q'),
        114u8 => Some('r'),
        115u8 => Some('s'),
        116u8 => Some('t'),
        117u8 => Some('u'),
        118u8 => Some('v'),
        119u8 => Some('w'),
        120u8 => Some('x'),
        121u8 => Some('y'),
        122u8 => Some('z'),
        123u8 => Some('{'),
        124u8 => Some('|'),
        125u8 => Some('}'),
        126u8 => Some('~'),
        161u8 => Some('\u{00A1}'),
        162u8 => Some('\u{00A2}'),
        163u8 => Some('\u{00A3}'),
        164u8 => Some('\u{2044}'),
        165u8 => Some('\u{00A5}'),
        166u8 => Some('\u{0192}'),
        167u8 => Some('\u{00A7}'),
        168u8 => Some('\u{00A4}'),
        169u8 => Some('\u{0027}'),
        170u8 => Some('\u{201C}'),
        171u8 => Some('\u{00AB}'),
        172u8 => Some('\u{2039}'),
        173u8 => Some('\u{203A}'),
        174u8 => Some('\u{FB01}'),
        175u8 => Some('\u{FB02}'),
        177u8 => Some('\u{2013}'),
        178u8 => Some('\u{2020}'),
        179u8 => Some('\u{2021}'),
        180u8 => Some('\u{00B7}'),
        182u8 => Some('\u{00B6}'),
        183u8 => Some('\u{2022}'),
        184u8 => Some('\u{201A}'),
        185u8 => Some('\u{201E}'),
        186u8 => Some('\u{201D}'),
        187u8 => Some('\u{00BB}'),
        188u8 => Some('\u{2026}'),
        189u8 => Some('\u{2030}'),
        191u8 => Some('\u{00BF}'),
        193u8 => Some('`'),
        194u8 => Some('\u{00B4}'),
        195u8 => Some('\u{02C6}'),
        196u8 => Some('\u{02DC}'),
        197u8 => Some('\u{00AF}'),
        198u8 => Some('\u{02D8}'),
        199u8 => Some('\u{02D9}'),
        200u8 => Some('\u{00A8}'),
        202u8 => Some('\u{02DA}'),
        203u8 => Some('\u{00B8}'),
        205u8 => Some('\u{02DD}'),
        206u8 => Some('\u{02DB}'),
        207u8 => Some('\u{02C7}'),
        208u8 => Some('\u{2014}'),
        225u8 => Some('\u{00C6}'),
        227u8 => Some('\u{00AA}'),
        232u8 => Some('\u{0141}'),
        233u8 => Some('\u{00D8}'),
        234u8 => Some('\u{0152}'),
        235u8 => Some('\u{00BA}'),
        241u8 => Some('\u{00E6}'),
        245u8 => Some('\u{0131}'),
        248u8 => Some('\u{0142}'),
        249u8 => Some('\u{00F8}'),
        250u8 => Some('\u{0153}'),
        251u8 => Some('\u{00DF}'),
        _ => None,
    }
}

/// The MacExpertEncoding (the commonly used subset) entry for a byte code.
pub open spec fn mac_expert_entry(code: u8) -> Option<char> {
    match code {
        32u8 => Some(' '),
        33u8 => Some('\u{F721}'),
        34u8 => Some('\u{F6E2}'),
        36u8 => Some('\u{F724}'),
        39u8 => Some('\u{F6E4}'),
        44u8 => Some('\u{F6E1}'),
        45u8 => Some('-'),
        46u8 => Some('\u{F6E3}'),
        48u8 => Some('\u{F730}'),
        49u8 => Some('\u{F731}'),
        50u8 => Some('\u{F732}'),
        51u8 => Some('\u{F733}'),
        52u8 => Some('\u{F734}'),
        53u8 => Some('\u{F735}'),
        54u8 => Some('\u{F736}'),
        55u8 => Some('\u{F737}'),
        56u8 => Some('\u{F738}'),
        57u8 => Some('\u{F739}'),
        86u8 => Some('\u{F726}'),
        172u8 => Some('\u{00BC}'),
        173u8 => Some('\u{00BD}'),
        174u8 => Some('\u{00BE}'),
        179u8 => Some('\u{2153}'),
        180u8 => Some('\u{2154}'),
        190u8 => Some('\u{215B}'),
        191u8 => Some('\u{215C}'),
        192u8 => Some('\u{215D}'),
        193u8 => Some('\u{215E}'),
        _ => None,
    }
}

fn mac_expert_entry_exec(code: u8) -> (r: Option<char>)
    ensures
        r == mac_expert_entry(code),
{
    match code {
        32u8 => Some(' '),
        33u8 => Some('\u{F721}'),
        34u8 => Some('\u{F6E2}'),
        36u8 => Some('\u{F724}'),
        39u8 => Some('\u{F6E4}'),
        44u8 => Some('\u{F6E1}'),
        45u8 => Some('-'),
        46u8 => Some('\u{F6E3}'),
        48u8 => Some('\u{F730}'),
        49u8 => Some('\u{F731}'),
        50u8 => Some('\u{F732}'),
        51u8 => Some('\u{F733}'),
        52u8 => Some('\u{F734}'),
        53u8 => Some('\u{F735}'),
        54u8 => Some('\u{F736}'),
        55u8 => Some('\u{F737}'),
        56u8 => Some('\u{F738}'),
        57u8 => Some('\u{F739}'),
        86u8 => Some('\u{F726}'),
        172u8 => Some('\u{00BC}'),
        173u8 => Some('\u{00BD}'),
        174u8 => Some('\u{00BE}'),
        179u8 => Some('\u{2153}'),
        180u8 => Some('\u{2154}'),
        190u8 => Some('\u{215B}'),
        191u8 => Some('\u{215C}'),
        192u8 => Some('\u{215D}'),
        193u8 => Some('\u{215E}'),
        _ => None,
    }
}

/// Which built-in table to fill.
enum BuiltinTable {
    WinAnsi,
    MacRoman,
    Standard,
    MacExpert,
    Latin1,
}

spec fn builtin_entry(t: BuiltinTable, code: u8) -> Option<char> {
    match t {
        BuiltinTable::WinAnsi => win_ansi_entry(code),
        BuiltinTable::MacRoman => mac_roman_entry(code),
        BuiltinTable::Standard => standard_entry(code),
        BuiltinTable::MacExpert => mac_expert_entry(code),
        BuiltinTable::Latin1 => latin1_entry(code),
    }
}

fn builtin_entry_exec(t: &BuiltinTable, code: u8) -> (r: Option<char>)
    ensures
        r == builtin_entry(*t, code),
{
    match t {
        BuiltinTable::WinAnsi => win_ansi_entry_exec(code),
        BuiltinTable::MacRoman => mac_roman_entry_exec(code),
        BuiltinTable::Standard => standard_entry_exec(code),
        BuiltinTable::MacExpert => mac_expert_entry_exec(code),
        BuiltinTable::Latin1 => Some(code as char),
    }
}

fn build_table(t: BuiltinTable) -> (v: Vec<Option<char>>)
    ensures
        v@.len() == 256,
        forall|i: int| 0 <= i < 256 ==> #[trigger] v@[i] == builtin_entry(t, i as u8),
{
    let mut v: Vec<Option<char>> = Vec::new();
    let mut i: usize = 0;
    while i < 256
        invariant
            i <= 256,
            v@.len() == i,
            forall|k: int| 0 <= k < i ==> #[trigger] v@[k] == builtin_entry(t, k as u8),
        decreases 256 - i,
    {
        v.push(builtin_entry_exec(&t, i as u8));
        i = i + 1;
    }
    v
}

impl Encoding {
    /// Creates an encoding from a raw lookup table of 256 entries.
    pub fn from_table(table: Vec<Option<char>>) -> (r: Encoding)
        requires
            table@.len() == 256,
        ensures
            r@ == table@,
    {
        Encoding { table }
    }

    /// The WinAnsiEncoding (most common in modern PDFs).
    pub fn win_ansi() -> (r: Encoding)
        ensures
            r@ == table_of(|c: u8| win_ansi_entry(c)),
    {
        let v = build_table(BuiltinTable::WinAnsi);
        assert(v@ =~= table_of(|c: u8| win_ansi_entry(c)));
        Encoding { table: v }
    }

    /// The MacRomanEncoding.
    pub fn mac_roman() -> (r: Encoding)
        ensures
            r@ == table_of(|c: u8| mac_roman_entry(c)),
    {
        let v = build_table(BuiltinTable::MacRoman);
        assert(v@ =~= table_of(|c: u8| mac_roman_entry(c)));
        Encoding { table: v }
    }

    /// The StandardEncoding (Type 1 default).
    pub fn standard() -> (r: Encoding)
        ensures
            r@ == table_of(|c: u8| standard_entry(c)),
    {
        let v = build_table(BuiltinTable::Standard);
        assert(v@ =~= table_of(|c: u8| standard_entry(c)));
        Encoding { table: v }
    }

    /// The MacExpertEncoding.
    pub fn mac_expert() -> (r: Encoding)
        ensures
            r@ == table_of(|c: u8| mac_expert_entry(c)),
    {
        let v = build_table(BuiltinTable::MacExpert);
        assert(v@ =~= table_of(|c: u8| mac_expert_entry(c)));
        Encoding { table: v }
    }

    /// A Latin-1 identity encoding (byte value = code point), the fallback
    /// when no encoding is specified.
    pub fn latin1() -> (r: Encoding)
        ensures
            r@ == table_of(|c: u8| latin1_entry(c)),
    {
        let v = build_table(BuiltinTable::Latin1);
        assert(v@ =~= table_of(|c: u8| latin1_entry(c)));
        Encoding { table: v }
    }

    /// Decodes a single byte code to a character.
    pub fn decode_byte(&self, code: u8) -> (r: Option<char>)
        ensures
            r == self@[code as int],
    {
        proof {
            use_type_invariant(self);
        }
        self.table[code as usize]
    }

    /// Decodes bytes to a string, skipping undefined codes.
    pub fn decode_bytes(&self, bytes: &[u8]) -> (r: String)
        ensures
            r@ == decode_with_table(self@, bytes@),
    {
        proof {
            use_type_invariant(self);
        }
        let mut out: Vec<char> = Vec::new();
        let mut i: usize = 0;
        while i < bytes.len()
            invariant
                i <= bytes.len(),
                self.table@.len() == 256,
                out@ == decode_with_table(self@, bytes@.take(i as int)),
            decreases bytes.len() - i,
        {
            let b = bytes[i];
            assert(bytes@.take(i + 1).drop_last() =~= bytes@.take(i as int));
            match self.table[b as usize] {
                Some(ch) => out.push(ch),
                None => {},
            }
            i = i + 1;
        }
        assert(bytes@.take(bytes.len() as int) =~= bytes@);
        string_from_chars(out.as_slice())
    }
}

/// Decoding of bytes through a table, dropping undefined codes.
pub open spec fn decode_with_table(table: Seq<Option<char>>, bytes: Seq<u8>) -> Seq<char>
    decreases bytes.len(),
{
    if bytes.len() == 0 {
        Seq::empty()
    } else {
        let prev = decode_with_table(table, bytes.drop_last());
        match table[bytes.last() as int] {
            Some(c) => prev.push(c),
            None => prev,
        }
    }
}


/// Whether a character is an ASCII hexadecimal digit.
pub open spec fn is_hex_digit(c: char) -> bool {
    ('0' <= c <= '9') || ('a' <= c <= 'f') || ('A' <= c <= 'F')
}

/// The value of an ASCII hexadecimal digit.
pub open spec fn hex_digit_value(c: char) -> nat {
    if '0' <= c <= '9' {
        (c as u32 - 48) as nat
    } else if 'a' <= c <= 'f' {
        (c as u32 - 87) as nat
    } else {
        (c as u32 - 55) as nat
    }
}

/// Whether every character of `s` is a hexadecimal digit.
pub open spec fn all_hex(s: Seq<char>) -> bool {
    forall|i: int| 0 <= i < s.len() ==> is_hex_digit(#[trigger] s[i])
}

/// The number that a string of hexadecimal digits denotes.
pub open spec fn hex_value(s: Seq<char>) -> nat
    decreases s.len(),
{
    if s.len() == 0 {
        0
    } else {
        hex_value(s.drop_last()) * 16 + hex_digit_value(s.last())
    }
}

/// Sixteen to the power `k`.
pub open spec fn pow16(k: nat) -> nat
    decreases k,
{
    if k == 0 {
        1
    } else {
        16 * pow16((k - 1) as nat)
    }
}

/// The number that a four-character base-16 numeral denotes: four hex
/// digits, or a `+` sign and three.
pub open spec fn four_char_hex(s: Seq<char>) -> Option<nat> {
    if s.len() != 4 {
        None
    } else if all_hex(s) {
        Some(hex_value(s))
    } else if s[0] == '+' && all_hex(s.drop_first()) {
        Some(hex_value(s.drop_first()))
    } else {
        None
    }
}

/// The character with code point `v`, if `v` is a Unicode scalar value.
pub open spec fn scalar(v: nat) -> Option<char> {
    if is_scalar_value(v as int) {
        Some(v as char)
    } else {
        None
    }
}

/// The character that a glyph name stands for: `uniXXXX`, then `uXXXX` to
/// `uXXXXXX`, then the glyph-name table.
pub open spec fn glyph_name_char(name: Seq<char>) -> Option<char> {
    let uni = name.skip(3);
    let u = name.skip(1);
    if name.len() >= 3 && name.take(3) == "uni"@ && four_char_hex(uni) is Some {
        scalar(four_char_hex(uni)->0)
    } else if name.len() >= 1 && name[0] == 'u' && 4 <= u.len() <= 6 && all_hex(u) {
        scalar(hex_value(u))
    } else {
        glyph_lookup(name)
    }
}

/// A string of `n` hexadecimal digits denotes a number below `16^n`.
proof fn lemma_hex_value_bound(s: Seq<char>)
    requires
        all_hex(s),
    ensures
        hex_value(s) < pow16(s.len()),
    decreases s.len(),
{
    if s.len() > 0 {
        let t = s.drop_last();
        assert forall|i: int| 0 <= i < t.len() implies is_hex_digit(#[trigger] t[i]) by {
            assert(t[i] == s[i]);
        }
        lemma_hex_value_bound(t);
        assert(is_hex_digit(s[s.len() - 1]));
        let d = hex_digit_value(s.last());
        assert(d < 16);
        let p = pow16(t.len());
        assert(hex_value(t) * 16 + d < 16 * p) by (nonlinear_arith)
            requires
                hex_value(t) < p,
                d < 16,
        ;
    }
}

/// The `uniXXXX` glyph names: `uni` and four hexadecimal digits stand for
/// the character with that code point, unless it is a surrogate.
pub proof fn lemma_uni_glyph_names(h: Seq<char>)
    requires
        h.len() == 4,
        all_hex(h),
        !(0xD800 <= hex_value(h) <= 0xDFFF),
    ensures
        glyph_name_char("uni"@ + h) == Some(hex_value(h) as char),
{
    reveal_strlit("uni");
    let name = "uni"@ + h;
    assert(name.take(3) =~= "uni"@);
    assert(name.skip(3) =~= h);
    lemma_hex_value_bound(h);
    reveal_with_fuel(pow16, 5);
    assert(pow16(4) == 65536);
}

fn hex_digit(c: char) -> (r: Option<u32>)
    ensures
        r is Some <==> is_hex_digit(c),
        r is Some ==> r->0 == hex_digit_value(c) && r->0 < 16,
{
    if '0' <= c && c <= '9' {
        Some((c as u32) - 48)
    } else if 'a' <= c && c <= 'f' {
        Some((c as u32) - 87)
    } else if 'A' <= c && c <= 'F' {
        Some((c as u32) - 55)
    } else {
        None
    }
}

/// Parses `s[start..]` as at most six hexadecimal digits.
fn parse_hex_chars(s: &[char], start: usize) -> (r: Option<u32>)
    requires
        start <= s.len(),
        s.len() - start <= 6,
    ensures
        r is Some <==> all_hex(s@.skip(start as int)),
        r is Some ==> r->0 == hex_value(s@.skip(start as int)),
{
    let mut acc: u32 = 0;
    let mut i: usize = start;
    proof {
        reveal_with_fuel(pow16, 7);
        assert(s@.subrange(start as int, start as int) =~= Seq::<char>::empty());
    }
    while i < s.len()
        invariant
            start <= i <= s.len(),
            s.len() - start <= 6,
            all_hex(s@.subrange(start as int, i as int)),
            acc == hex_value(s@.subrange(start as int, i as int)),
            acc < pow16((i - start) as nat),
            pow16((i - start) as nat) <= pow16(6),
        decreases s.len() - i,
    {
        let d = hex_digit(s[i]);
        match d {
            None => {
                assert(s@.skip(start as int)[i - start] == s@[i as int]);
                return None;
            },
            Some(v) => {
                proof {
                    reveal_with_fuel(pow16, 7);
                    assert(s@.subrange(start as int, i + 1).drop_last() =~= s@.subrange(start as int, i as int));
                    assert(pow16((i + 1 - start) as nat) == 16 * pow16((i - start) as nat));
                    assert(i + 1 - start <= 6);
                }
                acc = acc * 16 + v;
                i = i + 1;
                proof {
                    reveal_with_fuel(pow16, 7);
                    assert(pow16((i - start) as nat) <= pow16(6));
                }
            },
        }
    }
    assert(s@.subrange(start as int, s.len() as int) =~= s@.skip(start as int));
    Some(acc)
}

/// Looks up a glyph name and returns the character it stands for.
///
/// Handles the `uniXXXX` and `uXXXX`..`uXXXXXX` conventions before the
/// glyph-name table.
pub fn glyph_name_to_unicode(name: &str) -> (r: Option<char>)
    ensures
        r == glyph_name_char(name@),
{
    let cs = str_chars(name);
    let n = cs.len();
    proof {
        reveal_strlit("uni");
        assert("uni"@ =~= seq!['u', 'n', 'i']);
    }
    let is_uni = n >= 3 && cs[0] == 'u' && cs[1] == 'n' && cs[2] == 'i';
    proof {
        if cs@.len() >= 3 {
            let t = cs@.take(3);
            if t == seq!['u', 'n', 'i'] {
                assert(t[0] == 'u' && t[1] == 'n' && t[2] == 'i');
                assert(cs@[0] == 'u' && cs@[1] == 'n' && cs@[2] == 'i');
            }
            if is_uni {
                assert(t =~= seq!['u', 'n', 'i']);
            }
        }
        assert(is_uni <==> (cs@.len() >= 3 && cs@.take(3) == "uni"@));
    }
    if is_uni && n == 7 {
        let parsed = if cs[3] == '+' {
            parse_hex_chars(cs.as_slice(), 4)
        } else {
            parse_hex_chars(cs.as_slice(), 3)
        };
        proof {
            let rest = cs@.skip(3);
            assert(rest.drop_first() =~= cs@.skip(4));
            if cs@[3] == '+' {
                assert(!is_hex_digit(rest[0]));
            }
        }
        if let Some(v) = parsed {
            let r = char_from_u32(v);
            proof {
                if let Some(c) = r {
                    vstd::utf8::char_u32_cast(c, v);
                }
            }
            return r;
        }
    }
    if n >= 1 && cs[0] == 'u' && 5 <= n && n <= 7 {
        let parsed = parse_hex_chars(cs.as_slice(), 1);
        if let Some(v) = parsed {
            let r = char_from_u32(v);
            proof {
                if let Some(c) = r {
                    vstd::utf8::char_u32_cast(c, v);
                }
            }
            return r;
        }
    }
    lookup_glyph(cs.as_slice())
}


/// An entry of a `/Differences` array: a code, a glyph name, or anything
/// else (which is ignored).
#[derive(Debug, Clone)]
pub enum DiffItem {
    /// An integer: the code that the following names start at.
    Code(i64),
    /// A glyph name for the current code.
    Name(String),
    /// Any other object.
    Other,
}

/// The value of a font's `/Encoding` entry, as far as encodings read it.
#[derive(Debug, Clone)]
pub enum EncodingObject {
    /// A name such as `/WinAnsiEncoding`.
    Name(String),
    /// An encoding dictionary.
    Dictionary {
        /// `/BaseEncoding`, where it is a name.
        base_encoding: Option<String>,
        /// `/Differences`, where present.
        differences: Option<DiffsEntry>,
    },
    /// Any other object, by its type name.
    Other(String),
}

/// The `/Differences` entry of an encoding dictionary.
#[derive(Debug, Clone)]
pub enum DiffsEntry {
    /// An array.
    Array(Vec<DiffItem>),
    /// Any other object, by its type name.
    Other(String),
}

/// The state while a `/Differences` array is applied: the table, the
/// current code, and the message of the error met, if any.
pub type DiffState = (Seq<Option<char>>, Option<u8>, Option<Seq<char>>);

/// One step of applying a `/Differences` array.
pub open spec fn diff_step(st: DiffState, item: DiffItem) -> DiffState {
    if st.2 is Some {
        st
    } else {
        match item {
            DiffItem::Code(n) => {
                if n < 0 || n > 255 {
                    (st.0, st.1, Some("Differences code out of range: "@ + signed_decimal(n as int)))
                } else {
                    (st.0, Some(n as u8), None)
                }
            },
            DiffItem::Name(name) => match st.1 {
                None => (st.0, None, Some("Differences: name without preceding code"@)),
                Some(c) => {
                    let t = match glyph_name_char(name@) {
                        Some(ch) => st.0.update(c as int, Some(ch)),
                        None => st.0,
                    };
                    (t, Some(if c == 255 { 0u8 } else { (c + 1) as u8 }), None)
                },
            },
            DiffItem::Other => st,
        }
    }
}

/// The state after applying the items of a `/Differences` array in order;
/// the first error stops the work.
pub open spec fn apply_diffs(table: Seq<Option<char>>, items: Seq<DiffItem>) -> DiffState
    decreases items.len(),
{
    if items.len() == 0 {
        (table, None, None)
    } else {
        diff_step(apply_diffs(table, items.drop_last()), items.last())
    }
}

/// The table of a named encoding, if the name is known.
pub open spec fn named_encoding(name: Seq<char>) -> Option<Seq<Option<char>>> {
    if name == "WinAnsiEncoding"@ {
        Some(table_of(|c: u8| win_ansi_entry(c)))
    } else if name == "MacRomanEncoding"@ {
        Some(table_of(|c: u8| mac_roman_entry(c)))
    } else if name == "StandardEncoding"@ {
        Some(table_of(|c: u8| standard_entry(c)))
    } else if name == "MacExpertEncoding"@ {
        Some(table_of(|c: u8| mac_expert_entry(c)))
    } else {
        None
    }
}

/// `r` is the outcome of looking up the named encoding `name`.
pub open spec fn named_result(name: Seq<char>, r: PdfResult<Encoding>) -> bool {
    match r {
        Ok(e) => named_encoding(name) == Some(e@),
        Err(e) => named_encoding(name) is None && (e matches PdfError::UnsupportedFeature(m) && m@
            == "Unknown encoding: "@ + name),
    }
}

/// `r` is the outcome of applying `items` to `table`.
pub open spec fn diffs_result(table: Seq<Option<char>>, items: Seq<DiffItem>, r: PdfResult<Encoding>) -> bool {
    let fin = apply_diffs(table, items);
    match r {
        Ok(e) => fin.2 is None && e@ == fin.0,
        Err(e) => fin.2 is Some && (e matches PdfError::InvalidFont(m) && m@ == fin.2->0),
    }
}

/// `r` is the outcome of building an encoding from `obj`.
pub open spec fn encoding_object_result(obj: EncodingObject, r: PdfResult<Encoding>) -> bool {
    match obj {
        EncodingObject::Name(n) => named_result(n@, r),
        EncodingObject::Other(t) => r matches Err(PdfError::TypeError { expected, found })
            && expected@ == "Name or Dictionary"@ && found@ == t@,
        EncodingObject::Dictionary { base_encoding, differences } => {
            let base = match base_encoding {
                Some(b) => named_encoding(b@),
                None => Some(table_of(|c: u8| standard_entry(c))),
            };
            match base {
                None => named_result(base_encoding->0@, r),
                Some(t) => match differences {
                    None => r matches Ok(e) && e@ == t,
                    Some(DiffsEntry::Other(ty)) => r matches Err(PdfError::TypeError { expected, found })
                        && expected@ == "Array"@ && found@ == ty@,
                    Some(DiffsEntry::Array(items)) => diffs_result(t, items@, r),
                },
            }
        },
    }
}

impl Encoding {
    /// Builds an encoding from a named encoding.
    pub fn from_name(name: &str) -> (r: PdfResult<Encoding>)
        ensures
            named_result(name@, r),
    {
        proof {
            reveal_strlit("WinAnsiEncoding");
            reveal_strlit("MacRomanEncoding");
            reveal_strlit("StandardEncoding");
            reveal_strlit("MacExpertEncoding");
        }
        if str_eq(name, "WinAnsiEncoding") {
            Ok(Self::win_ansi())
        } else if str_eq(name, "MacRomanEncoding") {
            Ok(Self::mac_roman())
        } else if str_eq(name, "StandardEncoding") {
            Ok(Self::standard())
        } else if str_eq(name, "MacExpertEncoding") {
            Ok(Self::mac_expert())
        } else {
            let mut out: Vec<char> = Vec::new();
            append_str(&mut out, "Unknown encoding: ");
            append_str(&mut out, name);
            proof {
                reveal_strlit("Unknown encoding: ");
            }
            Err(PdfError::UnsupportedFeature(string_from_chars(out.as_slice())))
        }
    }

    /// Builds an encoding from a font's `/Encoding` entry: a name, or a
    /// dictionary with `/BaseEncoding` (else StandardEncoding) and
    /// `/Differences`.
    pub fn from_object(obj: &EncodingObject) -> (r: PdfResult<Encoding>)
        ensures
            encoding_object_result(*obj, r),
    {
        match obj {
            EncodingObject::Name(n) => Self::from_name(n.as_str()),
            EncodingObject::Other(t) => {
                let mut out: Vec<char> = Vec::new();
                append_str(&mut out, "Name or Dictionary");
                Err(PdfError::TypeError {
                    expected: string_from_chars(out.as_slice()),
                    found: t.clone(),
                })
            },
            EncodingObject::Dictionary { base_encoding, differences } => {
                let mut enc = match base_encoding {
                    Some(b) => match Self::from_name(b.as_str()) {
                        Ok(e) => e,
                        Err(e) => {
                            return Err(e);
                        },
                    },
                    None => Self::standard(),
                };
                match differences {
                    None => Ok(enc),
                    Some(DiffsEntry::Other(ty)) => {
                        let mut out: Vec<char> = Vec::new();
                        append_str(&mut out, "Array");
                        Err(PdfError::TypeError {
                            expected: string_from_chars(out.as_slice()),
                            found: ty.clone(),
                        })
                    },
                    Some(DiffsEntry::Array(items)) => {
                        match enc.apply_differences(items.as_slice()) {
                            Ok(()) => Ok(enc),
                            Err(e) => Err(e),
                        }
                    },
                }
            },
        }
    }

    /// Applies a `/Differences` array: each integer sets the current
    /// code; each name maps the current code (where the glyph name is
    /// known) and moves to the next code.
    pub fn apply_differences(&mut self, arr: &[DiffItem]) -> (r: PdfResult<()>)
        ensures
            final(self)@ == apply_diffs(old(self)@, arr@).0,
            match r {
                Ok(_) => apply_diffs(old(self)@, arr@).2 is None,
                Err(e) => apply_diffs(old(self)@, arr@).2 is Some && (e matches PdfError::InvalidFont(m)
                    && m@ == apply_diffs(old(self)@, arr@).2->0),
            },
    {
        proof {
            use_type_invariant(&*self);
        }
        let ghost t0 = self@;
        let mut t: Vec<Option<char>> = self.clone().table;
        let mut current: Option<u8> = None;
        let mut i: usize = 0;
        while i < arr.len()
            invariant
                i <= arr.len(),
                t@.len() == 256,
                self@ == old(self)@,
                t0 == old(self)@,
                apply_diffs(t0, arr@.take(i as int)) == (t@, current, None::<Seq<char>>),
            decreases arr.len() - i,
        {
            proof {
                assert(arr@.take(i + 1).drop_last() =~= arr@.take(i as int));
                assert(arr@.take(i + 1).last() == arr@[i as int]);
            }
            match &arr[i] {
                DiffItem::Code(n) => {
                    if *n < 0 || *n > 255 {
                        let mut out: Vec<char> = Vec::new();
                        append_str(&mut out, "Differences code out of range: ");
                        push_signed_decimal(&mut out, *n);
                        proof {
                            reveal_strlit("Differences code out of range: ");
                            lemma_apply_diffs_stops(t0, arr@, i as int + 1);
                        }
                        self.table = t;
                        return Err(PdfError::InvalidFont(string_from_chars(out.as_slice())));
                    }
                    current = Some(*n as u8);
                },
                DiffItem::Name(name) => {
                    match current {
                        None => {
                            let mut out: Vec<char> = Vec::new();
                            append_str(&mut out, "Differences: name without preceding code");
                            proof {
                                reveal_strlit("Differences: name without preceding code");
                                lemma_apply_diffs_stops(t0, arr@, i as int + 1);
                            }
                            self.table = t;
                        return Err(PdfError::InvalidFont(string_from_chars(out.as_slice())));
                        },
                        Some(code) => {
                            match glyph_name_to_unicode(name.as_str()) {
                                Some(ch) => {
                                    t.set(code as usize, Some(ch));
                                },
                                None => {},
                            }
                            current = Some(if code == 255 { 0u8 } else { code + 1 });
                        },
                    }
                },
                DiffItem::Other => {},
            }
            i = i + 1;
        }
        proof {
            assert(arr@.take(arr.len() as int) =~= arr@);
        }
        self.table = t;
        Ok(())
    }
}

/// Once applying a prefix of a `/Differences` array has met an error,
/// the longer prefixes keep the same state.
proof fn lemma_apply_diffs_stops(t: Seq<Option<char>>, items: Seq<DiffItem>, i: int)
    requires
        0 <= i <= items.len(),
        apply_diffs(t, items.take(i)).2 is Some,
    ensures
        apply_diffs(t, items) == apply_diffs(t, items.take(i)),
    decreases items.len() - i,
{
    if i < items.len() {
        assert(items.take(i + 1).drop_last() =~= items.take(i));
        lemma_apply_diffs_stops(t, items, i + 1);
    } else {
        assert(items.take(i) =~= items);
    }
}


/// Whether a `/Differences` item describes an array element.
pub open spec fn diff_item_models(it: DiffItem, o: crate::objects::object::ObjView) -> bool {
    match it {
        DiffItem::Code(n) => o == crate::objects::object::ObjView::Integer(n),
        DiffItem::Name(s) => o matches crate::objects::object::ObjView::Name(n) && s@ == n,
        DiffItem::Other => !(o is Integer) && !(o is Name),
    }
}

/// Whether an encoding model describes an `/Encoding` object.
pub open spec fn encoding_models(m: EncodingObject, o: crate::objects::object::ObjView) -> bool {
    match m {
        EncodingObject::Name(s) => o matches crate::objects::object::ObjView::Name(n) && s@ == n,
        EncodingObject::Dictionary { base_encoding, differences } => o matches crate::objects::object::ObjView::Dictionary(es) && (
        match crate::objects::object::lookup(es, "BaseEncoding"@) {
            Some(crate::objects::object::ObjView::Name(n)) => base_encoding matches Some(b) && b@ == n,
            _ => base_encoding is None,
        }) && (match crate::objects::object::lookup(es, "Differences"@) {
            None => differences is None,
            Some(crate::objects::object::ObjView::Array(items)) => differences matches Some(
                DiffsEntry::Array(v),
            ) && v@.len() == items.len() && forall|j: int|
                0 <= j < items.len() ==> diff_item_models(#[trigger] v@[j], items[j]),
            Some(x) => differences matches Some(DiffsEntry::Other(t)) && t@
                == crate::objects::object::kind_name_of(x),
        }),
        EncodingObject::Other(t) => !(o is Name) && !(o is Dictionary) && t@
            == crate::objects::object::kind_name_of(o),
    }
}

impl EncodingObject {
    /// What encodings read of an `/Encoding` object: a name, or the
    /// `/BaseEncoding` name and `/Differences` array of a dictionary.
    pub fn of(obj: &crate::objects::Object) -> (r: EncodingObject)
        ensures
            encoding_models(r, obj@),
    {
        match obj {
            crate::objects::Object::Name(n) => EncodingObject::Name(n.0.clone()),
            crate::objects::Object::Dictionary(d) => {
                let base_encoding = match d.get("BaseEncoding") {
                    Some(crate::objects::Object::Name(n)) => Some(n.0.clone()),
                    _ => None,
                };
                let differences = match d.get("Differences") {
                    None => None,
                    Some(crate::objects::Object::Array(items)) => {
                        let ghost ov = crate::objects::object::objects_view(items@);
                        proof {
                            crate::objects::object::lemma_objects_view(items@);
                        }
                        let mut v: Vec<DiffItem> = Vec::new();
                        let mut i: usize = 0;
                        while i < items.len()
                            invariant
                                i <= items.len(),
                                v@.len() == i,
                                ov == crate::objects::object::objects_view(items@),
                                ov.len() == items@.len(),
                                forall|j: int|
                                    0 <= j < items@.len() ==> #[trigger] ov[j]
                                        == crate::objects::object::object_view(items@[j]),
                                forall|j: int| 0 <= j < i ==> diff_item_models(#[trigger] v@[j], ov[j]),
                            decreases items.len() - i,
                        {
                            let it = match &items[i] {
                                crate::objects::Object::Integer(n) => DiffItem::Code(*n),
                                crate::objects::Object::Name(n) => DiffItem::Name(n.0.clone()),
                                _ => DiffItem::Other,
                            };
                            assert(ov[i as int] == crate::objects::object::object_view(items@[i as int]));
                            v.push(it);
                            i = i + 1;
                        }
                        Some(DiffsEntry::Array(v))
                    },
                    Some(other) => Some(DiffsEntry::Other(other.kind_name().to_owned())),
                };
                EncodingObject::Dictionary { base_encoding, differences }
            },
            other => EncodingObject::Other(other.kind_name().to_owned()),
        }
    }
}

} // verus!
