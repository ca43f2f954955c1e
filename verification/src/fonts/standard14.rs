//! The 14 standard PDF fonts, which every viewer has built in, with their
//! glyph widths in WinAnsiEncoding.
use vstd::prelude::*;
use crate::objects::PdfName;
use crate::unicode::str_eq;
use vstd::string::StringSliceAdditionalSpecFns;

verus! {

/// Which width table a standard font uses.
#[derive(Debug, Clone, Copy, PartialEq, Eq, Structural)]
pub enum WidthTable {
    /// Courier and its variants: every glyph is 600 units wide.
    Courier,
    /// Helvetica and Helvetica-Oblique.
    Helvetica,
    /// Helvetica-Bold and Helvetica-BoldOblique.
    HelveticaBold,
    /// Times-Roman and Times-Italic.
    TimesRoman,
    /// Times-Bold and Times-BoldItalic.
    TimesBold,
    /// Symbol.
    Symbol,
    /// ZapfDingbats.
    ZapfDingbats,
}

/// One of the 14 standard PDF fonts. Glyph widths are in 1/1000 of a
/// text-space unit.
#[derive(Debug, Clone, Copy)]
pub struct Standard14Font {
    name: &'static str,
    widths: WidthTable,
}

/// The number of standard fonts.
pub const STANDARD_14_COUNT: usize = 14;

/// The PostScript name of standard font `i`, in alphabetical order.
pub open spec fn standard14_name(i: int) -> Seq<char> {
    if i == 0 {
        "Courier"@
    } else if i == 1 {
        "Courier-Bold"@
    } else if i == 2 {
        "Courier-BoldOblique"@
    } else if i == 3 {
        "Courier-Oblique"@
    } else if i == 4 {
        "Helvetica"@
    } else if i == 5 {
        "Helvetica-Bold"@
    } else if i == 6 {
        "Helvetica-BoldOblique"@
    } else if i == 7 {
        "Helvetica-Oblique"@
    } else if i == 8 {
        "Symbol"@
    } else if i == 9 {
        "Times-Bold"@
    } else if i == 10 {
        "Times-BoldItalic"@
    } else if i == 11 {
        "Times-Italic"@
    } else if i == 12 {
        "Times-Roman"@
    } else {
        "ZapfDingbats"@
    }
}

/// The width table of standard font `i`.
pub open spec fn standard14_table(i: int) -> WidthTable {
    if i <= 3 {
        WidthTable::Courier
    } else if i == 4 || i == 7 {
        WidthTable::Helvetica
    } else if i == 5 || i == 6 {
        WidthTable::HelveticaBold
    } else if i == 8 {
        WidthTable::Symbol
    } else if i == 9 || i == 10 {
        WidthTable::TimesBold
    } else if i == 11 || i == 12 {
        WidthTable::TimesRoman
    } else {
        WidthTable::ZapfDingbats
    }
}

/// Whether `name` is the name of a standard font.
pub open spec fn is_standard14_name(name: Seq<char>) -> bool {
    exists|i: int| 0 <= i < 14 && standard14_name(i) == name
}

fn standard14_entry(i: usize) -> (r: (&'static str, WidthTable))
    requires
        i < 14,
    ensures
        r.0@ == standard14_name(i as int),
        r.1 == standard14_table(i as int),
{
    proof {
        reveal_strlit("Courier");
        reveal_strlit("Courier-Bold");
        reveal_strlit("Courier-BoldOblique");
        reveal_strlit("Courier-Oblique");
        reveal_strlit("Helvetica");
        reveal_strlit("Helvetica-Bold");
        reveal_strlit("Helvetica-BoldOblique");
        reveal_strlit("Helvetica-Oblique");
        reveal_strlit("Symbol");
        reveal_strlit("Times-Bold");
        reveal_strlit("Times-BoldItalic");
        reveal_strlit("Times-Italic");
        reveal_strlit("Times-Roman");
        reveal_strlit("ZapfDingbats");
    }
    match i {
        0 => ("Courier", WidthTable::Courier),
        1 => ("Courier-Bold", WidthTable::Courier),
        2 => ("Courier-BoldOblique", WidthTable::Courier),
        3 => ("Courier-Oblique", WidthTable::Courier),
        4 => ("Helvetica", WidthTable::Helvetica),
        5 => ("Helvetica-Bold", WidthTable::HelveticaBold),
        6 => ("Helvetica-BoldOblique", WidthTable::HelveticaBold),
        7 => ("Helvetica-Oblique", WidthTable::Helvetica),
        8 => ("Symbol", WidthTable::Symbol),
        9 => ("Times-Bold", WidthTable::TimesBold),
        10 => ("Times-BoldItalic", WidthTable::TimesBold),
        11 => ("Times-Italic", WidthTable::TimesRoman),
        12 => ("Times-Roman", WidthTable::TimesRoman),
        _ => ("ZapfDingbats", WidthTable::ZapfDingbats),
    }
}

/// The Helvetica width of a WinAnsiEncoding code, in 1/1000 text-space units.
pub open spec fn helvetica_width(code: u8) -> u16 {
    match code {
        32u8 => 278,
        33u8 => 278,
        34u8 => 355,
        35u8 => 556,
        36u8 => 556,
        37u8 => 889,
        38u8 => 667,
        39u8 => 191,
        40u8 => 333,
        41u8 => 333,
        42u8 => 389,
        43u8 => 584,
        44u8 => 278,
        45u8 => 333,
        46u8 => 278,
        47u8 => 278,
        48u8 => 556,
        49u8 => 556,
        50u8 => 556,
        51u8 => 556,
        52u8 => 556,
        53u8 => 556,
        54u8 => 556,
        55u8 => 556,
        56u8 => 556,
        57u8 => 556,
        58u8 => 278,
        59u8 => 278,
        60u8 => 584,
        61u8 => 584,
        62u8 => 584,
        63u8 => 556,
        64u8 => 1015,
        65u8 => 667,
        66u8 => 667,
        67u8 => 722,
        68u8 => 722,
        69u8 => 667,
        70u8 => 611,
        71u8 => 778,
        72u8 => 722,
        73u8 => 278,
        74u8 => 500,
        75u8 => 667,
        76u8 => 556,
        77u8 => 833,
        78u8 => 722,
        79u8 => 778,
        80u8 => 667,
        81u8 => 778,
        82u8 => 722,
        83u8 => 667,
        84u8 => 611,
        85u8 => 722,
        86u8 => 667,
        87u8 => 944,
        88u8 => 667,
        89u8 => 667,
        90u8 => 611,
        91u8 => 278,
        92u8 => 278,
        93u8 => 278,
        94u8 => 469,
        95u8 => 556,
        96u8 => 333,
        97u8 => 556,
        98u8 => 556,
        99u8 => 500,
        100u8 => 556,
        101u8 => 556,
        102u8 => 278,
        103u8 => 556,
        104u8 => 556,
        105u8 => 222,
        106u8 => 222,
        107u8 => 500,
        108u8 => 222,
        109u8 => 833,
        110u8 => 556,
        111u8 => 556,
        112u8 => 556,
        113u8 => 556,
        114u8 => 333,
        115u8 => 500,
        116u8 => 278,
        117u8 => 556,
        118u8 => 500,
        119u8 => 722,
        120u8 => 500,
        121u8 => 500,
        122u8 => 500,
        123u8 => 334,
        124u8 => 260,
        125u8 => 334,
        126u8 => 584,
        128u8 => 556,
        130u8 => 222,
        131u8 => 556,
        132u8 => 333,
        133u8 => 1000,
        134u8 => 556,
        135u8 => 556,
        136u8 => 333,
        137u8 => 1000,
        138u8 => 667,
        139u8 => 333,
        140u8 => 1000,
        142u8 => 611,
        145u8 => 222,
        146u8 => 222,
        147u8 => 333,
        148u8 => 333,
        149u8 => 350,
        150u8 => 556,
        151u8 => 1000,
        152u8 => 333,
        153u8 => 1000,
        154u8 => 500,
        155u8 => 333,
        156u8 => 944,
        158u8 => 500,
        159u8 => 667,
        160u8 => 278,
        161u8 => 333,
        162u8 => 556,
        163u8 => 556,
        164u8 => 556,
        165u8 => 556,
        166u8 => 260,
        167u8 => 556,
        168u8 => 333,
        169u8 => 737,
        170u8 => 370,
        171u8 => 556,
        172u8 => 584,
        173u8 => 333,
        174u8 => 737,
        175u8 => 333,
        176u8 => 400,
        177u8 => 584,
        178u8 => 333,
        179u8 => 333,
        180u8 => 333,
        181u8 => 556,
        182u8 => 537,
        183u8 => 278,
        184u8 => 333,
        185u8 => 333,
        186u8 => 365,
        187u8 => 556,
        188u8 => 834,
        189u8 => 834,
        190u8 => 834,
        191u8 => 611,
        192u8 => 667,
        193u8 => 667,
        194u8 => 667,
        195u8 => 667,
        196u8 => 667,
        197u8 => 667,
        198u8 => 1000,
        199u8 => 722,
        200u8 => 667,
        201u8 => 667,
        202u8 => 667,
        203u8 => 667,
        204u8 => 278,
        205u8 => 278,
        206u8 => 278,
        207u8 => 278,
        208u8 => 722,
        209u8 => 722,
        210u8 => 778,
        211u8 => 778,
        212u8 => 778,
        213u8 => 778,
        214u8 => 778,
        215u8 => 584,
        216u8 => 778,
        217u8 => 722,
        218u8 => 722,
        219u8 => 722,
        220u8 => 722,
        221u8 => 667,
        222u8 => 667,
        223u8 => 611,
        224u8 => 556,
        225u8 => 556,
        226u8 => 556,
        227u8 => 556,
        228u8 => 556,
        229u8 => 556,
        230u8 => 889,
        231u8 => 500,
        232u8 => 556,
        233u8 => 556,
        234u8 => 556,
        235u8 => 556,
        236u8 => 278,
        237u8 => 278,
        238u8 => 278,
        239u8 => 278,
        240u8 => 556,
        241u8 => 556,
        242u8 => 556,
        243u8 => 556,
        244u8 => 556,
        245u8 => 556,
        246u8 => 556,
        247u8 => 584,
        248u8 => 611,
        249u8 => 556,
        250u8 => 556,
        251u8 => 556,
        252u8 => 556,
        253u8 => 500,
        254u8 => 556,
        255u8 => 500,
        _ => 0,
    }
}

fn helvetica_width_exec(code: u8) -> (r: u16)
    ensures
        r == helvetica_width(code),
{
    match code {
        32u8 => 278,
        33u8 => 278,
        34u8 => 355,
        35u8 => 556,
        36u8 => 556,
        37u8 => 889,
        38u8 => 667,
        39u8 => 191,
        40u8 => 333,
        41u8 => 333,
        42u8 => 389,
        43u8 => 584,
        44u8 => 278,
        45u8 => 333,
        46u8 => 278,
        47u8 => 278,
        48u8 => 556,
        49u8 => 556,
        50u8 => 556,
        51u8 => 556,
        52u8 => 556,
        53u8 => 556,
        54u8 => 556,
        55u8 => 556,
        56u8 => 556,
        57u8 => 556,
        58u8 => 278,
        59u8 => 278,
        60u8 => 584,
        61u8 => 584,
        62u8 => 584,
        63u8 => 556,
        64u8 => 1015,
        65u8 => 667,
        66u8 => 667,
        67u8 => 722,
        68u8 => 722,
        69u8 => 667,
        70u8 => 611,
        71u8 => 778,
        72u8 => 722,
        73u8 => 278,
        74u8 => 500,
        75u8 => 667,
        76u8 => 556,
        77u8 => 833,
        78u8 => 722,
        79u8 => 778,
        80u8 => 667,
        81u8 => 778,
        82u8 => 722,
        83u8 => 667,
        84u8 => 611,
        85u8 => 722,
        86u8 => 667,
        87u8 => 944,
        88u8 => 667,
        89u8 => 667,
        90u8 => 611,
        91u8 => 278,
        92u8 => 278,
        93u8 => 278,
        94u8 => 469,
        95u8 => 556,
        96u8 => 333,
        97u8 => 556,
        98u8 => 556,
        99u8 => 500,
        100u8 => 556,
        101u8 => 556,
        102u8 => 278,
        103u8 => 556,
        104u8 => 556,
        105u8 => 222,
        106u8 => 222,
        107u8 => 500,
        108u8 => 222,
        109u8 => 833,
        110u8 => 556,
        111u8 => 556,
        112u8 => 556,
        113u8 => 556,
        114u8 => 333,
        115u8 => 500,
        116u8 => 278,
        117u8 => 556,
        118u8 => 500,
        119u8 => 722,
        120u8 => 500,
        121u8 => 500,
        122u8 => 500,
        123u8 => 334,
        124u8 => 260,
        125u8 => 334,
        126u8 => 584,
        128u8 => 556,
        130u8 => 222,
        131u8 => 556,
        132u8 => 333,
        133u8 => 1000,
        134u8 => 556,
        135u8 => 556,
        136u8 => 333,
        137u8 => 1000,
        138u8 => 667,
        139u8 => 333,
        140u8 => 1000,
        142u8 => 611,
        145u8 => 222,
        146u8 => 222,
        147u8 => 333,
        148u8 => 333,
        149u8 => 350,
        150u8 => 556,
        151u8 => 1000,
        152u8 => 333,
        153u8 => 1000,
        154u8 => 500,
        155u8 => 333,
        156u8 => 944,
        158u8 => 500,
        159u8 => 667,
        160u8 => 278,
        161u8 => 333,
        162u8 => 556,
        163u8 => 556,
        164u8 => 556,
        165u8 => 556,
        166u8 => 260,
        167u8 => 556,
        168u8 => 333,
        169u8 => 737,
        170u8 => 370,
        171u8 => 556,
        172u8 => 584,
        173u8 => 333,
        174u8 => 737,
        175u8 => 333,
        176u8 => 400,
        177u8 => 584,
        178u8 => 333,
        179u8 => 333,
        180u8 => 333,
        181u8 => 556,
        182u8 => 537,
        183u8 => 278,
        184u8 => 333,
        185u8 => 333,
        186u8 => 365,
        187u8 => 556,
        188u8 => 834,
        189u8 => 834,
        190u8 => 834,
        191u8 => 611,
        192u8 => 667,
        193u8 => 667,
        194u8 => 667,
        195u8 => 667,
        196u8 => 667,
        197u8 => 667,
        198u8 => 1000,
        199u8 => 722,
        200u8 => 667,
        201u8 => 667,
        202u8 => 667,
        203u8 => 667,
        204u8 => 278,
        205u8 => 278,
        206u8 => 278,
        207u8 => 278,
        208u8 => 722,
        209u8 => 722,
        210u8 => 778,
        211u8 => 778,
        212u8 => 778,
        213u8 => 778,
        214u8 => 778,
        215u8 => 584,
        216u8 => 778,
        217u8 => 722,
        218u8 => 722,
        219u8 => 722,
        220u8 => 722,
        221u8 => 667,
        222u8 => 667,
        223u8 => 611,
        224u8 => 556,
        225u8 => 556,
        226u8 => 556,
        227u8 => 556,
        228u8 => 556,
        229u8 => 556,
        230u8 => 889,
        231u8 => 500,
        232u8 => 556,
        233u8 => 556,
        234u8 => 556,
        235u8 => 556,
        236u8 => 278,
        237u8 => 278,
        238u8 => 278,
        239u8 => 278,
        240u8 => 556,
        241u8 => 556,
        242u8 => 556,
        243u8 => 556,
        244u8 => 556,
        245u8 => 556,
        246u8 => 556,
        247u8 => 584,
        248u8 => 611,
        249u8 => 556,
        250u8 => 556,
        251u8 => 556,
        252u8 => 556,
        253u8 => 500,
        254u8 => 556,
        255u8 => 500,
        _ => 0,
    }
}

/// The Helvetica-Bold width of a WinAnsiEncoding code, in 1/1000 text-space units.
pub open spec fn helvetica_bold_width(code: u8) -> u16 {
    match code {
        32u8 => 278,
        33u8 => 333,
        34u8 => 474,
        35u8 => 556,
        36u8 => 556,
        37u8 => 889,
        38u8 => 722,
        39u8 => 238,
        40u8 => 333,
        41u8 => 333,
        42u8 => 389,
        43u8 => 584,
        44u8 => 278,
        45u8 => 333,
        46u8 => 278,
        47u8 => 278,
        48u8 => 556,
        49u8 => 556,
        50u8 => 556,
        51u8 => 556,
        52u8 => 556,
        53u8 => 556,
        54u8 => 556,
        55u8 => 556,
        56u8 => 556,
        57u8 => 556,
        58u8 => 333,
        59u8 => 333,
        60u8 => 584,
        61u8 => 584,
        62u8 => 584,
        63u8 => 611,
        64u8 => 975,
        65u8 => 722,
        66u8 => 722,
        67u8 => 722,
        68u8 => 722,
        69u8 => 667,
        70u8 => 611,
        71u8 => 778,
        72u8 => 722,
        73u8 => 278,
        74u8 => 556,
        75u8 => 722,
        76u8 => 611,
        77u8 => 833,
        78u8 => 722,
        79u8 => 778,
        80u8 => 667,
        81u8 => 778,
        82u8 => 722,
        83u8 => 667,
        84u8 => 611,
        85u8 => 722,
        86u8 => 667,
        87u8 => 944,
        88u8 => 667,
        89u8 => 667,
        90u8 => 611,
        91u8 => 333,
        92u8 => 278,
        93u8 => 333,
        94u8 => 584,
        95u8 => 556,
        96u8 => 333,
        97u8 => 556,
        98u8 => 611,
        99u8 => 556,
        100u8 => 611,
        101u8 => 556,
        102u8 => 333,
        103u8 => 611,
        104u8 => 611,
        105u8 => 278,
        106u8 => 278,
        107u8 => 556,
        108u8 => 278,
        109u8 => 889,
        110u8 => 611,
        111u8 => 611,
        112u8 => 611,
        113u8 => 611,
        114u8 => 389,
        115u8 => 556,
        116u8 => 333,
        117u8 => 611,
        118u8 => 556,
        119u8 => 778,
        120u8 => 556,
        121u8 => 556,
        122u8 => 500,
        123u8 => 389,
        124u8 => 280,
        125u8 => 389,
        126u8 => 584,
        128u8 => 556,
        130u8 => 278,
        131u8 => 556,
        132u8 => 500,
        133u8 => 1000,
        134u8 => 556,
        135u8 => 556,
        136u8 => 333,
        137u8 => 1000,
        138u8 => 667,
        139u8 => 333,
        140u8 => 1000,
        142u8 => 611,
        145u8 => 278,
        146u8 => 278,
        147u8 => 500,
        148u8 => 500,
        149u8 => 350,
        150u8 => 556,
        151u8 => 1000,
        152u8 => 333,
        153u8 => 1000,
        154u8 => 556,
        155u8 => 333,
        156u8 => 944,
        158u8 => 500,
        159u8 => 667,
        160u8 => 278,
        161u8 => 333,
        162u8 => 556,
        163u8 => 556,
        164u8 => 556,
        165u8 => 556,
        166u8 => 280,
        167u8 => 556,
        168u8 => 333,
        169u8 => 737,
        170u8 => 370,
        171u8 => 556,
        172u8 => 584,
        173u8 => 333,
        174u8 => 737,
        175u8 => 333,
        176u8 => 400,
        177u8 => 584,
        178u8 => 333,
        179u8 => 333,
        180u8 => 333,
        181u8 => 611,
        182u8 => 556,
        183u8 => 278,
        184u8 => 333,
        185u8 => 333,
        186u8 => 365,
        187u8 => 556,
        188u8 => 834,
        189u8 => 834,
        190u8 => 834,
        191u8 => 611,
        192u8 => 722,
        193u8 => 722,
        194u8 => 722,
        195u8 => 722,
        196u8 => 722,
        197u8 => 722,
        198u8 => 1000,
        199u8 => 722,
        200u8 => 667,
        201u8 => 667,
        202u8 => 667,
        203u8 => 667,
        204u8 => 278,
        205u8 => 278,
        206u8 => 278,
        207u8 => 278,
        208u8 => 722,
        209u8 => 722,
        210u8 => 778,
        211u8 => 778,
        212u8 => 778,
        213u8 => 778,
        214u8 => 778,
        215u8 => 584,
        216u8 => 778,
        217u8 => 722,
        218u8 => 722,
        219u8 => 722,
        220u8 => 722,
        221u8 => 667,
        222u8 => 667,
        223u8 => 611,
        224u8 => 556,
        225u8 => 556,
        226u8 => 556,
        227u8 => 556,
        228u8 => 556,
        229u8 => 556,
        230u8 => 889,
        231u8 => 556,
        232u8 => 556,
        233u8 => 556,
        234u8 => 556,
        235u8 => 556,
        236u8 => 278,
        237u8 => 278,
        238u8 => 278,
        239u8 => 278,
        240u8 => 611,
        241u8 => 611,
        242u8 => 611,
        243u8 => 611,
        244u8 => 611,
        245u8 => 611,
        246u8 => 611,
        247u8 => 584,
        248u8 => 611,
        249u8 => 611,
        250u8 => 611,
        251u8 => 611,
        252u8 => 611,
        253u8 => 556,
        254u8 => 611,
        255u8 => 556,
        _ => 0,
    }
}

fn helvetica_bold_width_exec(code: u8) -> (r: u16)
    ensures
        r == helvetica_bold_width(code),
{
    match code {
        32u8 => 278,
        33u8 => 333,
        34u8 => 474,
        35u8 => 556,
        36u8 => 556,
        37u8 => 889,
        38u8 => 722,
        39u8 => 238,
        40u8 => 333,
        41u8 => 333,
        42u8 => 389,
        43u8 => 584,
        44u8 => 278,
        45u8 => 333,
        46u8 => 278,
        47u8 => 278,
        48u8 => 556,
        49u8 => 556,
        50u8 => 556,
        51u8 => 556,
        52u8 => 556,
        53u8 => 556,
        54u8 => 556,
        55u8 => 556,
        56u8 => 556,
        57u8 => 556,
        58u8 => 333,
        59u8 => 333,
        60u8 => 584,
        61u8 => 584,
        62u8 => 584,
        63u8 => 611,
        64u8 => 975,
        65u8 => 722,
        66u8 => 722,
        67u8 => 722,
        68u8 => 722,
        69u8 => 667,
        70u8 => 611,
        71u8 => 778,
        72u8 => 722,
        73u8 => 278,
        74u8 => 556,
        75u8 => 722,
        76u8 => 611,
        77u8 => 833,
        78u8 => 722,
        79u8 => 778,
        80u8 => 667,
        81u8 => 778,
        82u8 => 722,
        83u8 => 667,
        84u8 => 611,
        85u8 => 722,
        86u8 => 667,
        87u8 => 944,
        88u8 => 667,
        89u8 => 667,
        90u8 => 611,
        91u8 => 333,
        92u8 => 278,
        93u8 => 333,
        94u8 => 584,
        95u8 => 556,
        96u8 => 333,
        97u8 => 556,
        98u8 => 611,
        99u8 => 556,
        100u8 => 611,
        101u8 => 556,
        102u8 => 333,
        103u8 => 611,
        104u8 => 611,
        105u8 => 278,
        106u8 => 278,
        107u8 => 556,
        108u8 => 278,
        109u8 => 889,
        110u8 => 611,
        111u8 => 611,
        112u8 => 611,
        113u8 => 611,
        114u8 => 389,
        115u8 => 556,
        116u8 => 333,
        117u8 => 611,
        118u8 => 556,
        119u8 => 778,
        120u8 => 556,
        121u8 => 556,
        122u8 => 500,
        123u8 => 389,
        124u8 => 280,
        125u8 => 389,
        126u8 => 584,
        128u8 => 556,
        130u8 => 278,
        131u8 => 556,
        132u8 => 500,
        133u8 => 1000,
        134u8 => 556,
        135u8 => 556,
        136u8 => 333,
        137u8 => 1000,
        138u8 => 667,
        139u8 => 333,
        140u8 => 1000,
        142u8 => 611,
        145u8 => 278,
        146u8 => 278,
        147u8 => 500,
        148u8 => 500,
        149u8 => 350,
        150u8 => 556,
        151u8 => 1000,
        152u8 => 333,
        153u8 => 1000,
        154u8 => 556,
        155u8 => 333,
        156u8 => 944,
        158u8 => 500,
        159u8 => 667,
        160u8 => 278,
        161u8 => 333,
        162u8 => 556,
        163u8 => 556,
        164u8 => 556,
        165u8 => 556,
        166u8 => 280,
        167u8 => 556,
        168u8 => 333,
        169u8 => 737,
        170u8 => 370,
        171u8 => 556,
        172u8 => 584,
        173u8 => 333,
        174u8 => 737,
        175u8 => 333,
        176u8 => 400,
        177u8 => 584,
        178u8 => 333,
        179u8 => 333,
        180u8 => 333,
        181u8 => 611,
        182u8 => 556,
        183u8 => 278,
        184u8 => 333,
        185u8 => 333,
        186u8 => 365,
        187u8 => 556,
        188u8 => 834,
        189u8 => 834,
        190u8 => 834,
        191u8 => 611,
        192u8 => 722,
        193u8 => 722,
        194u8 => 722,
        195u8 => 722,
        196u8 => 722,
        197u8 => 722,
        198u8 => 1000,
        199u8 => 722,
        200u8 => 667,
        201u8 => 667,
        202u8 => 667,
        203u8 => 667,
        204u8 => 278,
        205u8 => 278,
        206u8 => 278,
        207u8 => 278,
        208u8 => 722,
        209u8 => 722,
        210u8 => 778,
        211u8 => 778,
        212u8 => 778,
        213u8 => 778,
        214u8 => 778,
        215u8 => 584,
        216u8 => 778,
        217u8 => 722,
        218u8 => 722,
        219u8 => 722,
        220u8 => 722,
        221u8 => 667,
        222u8 => 667,
        223u8 => 611,
        224u8 => 556,
        225u8 => 556,
        226u8 => 556,
        227u8 => 556,
        228u8 => 556,
        229u8 => 556,
        230u8 => 889,
        231u8 => 556,
        232u8 => 556,
        233u8 => 556,
        234u8 => 556,
        235u8 => 556,
        236u8 => 278,
        237u8 => 278,
        238u8 => 278,
        239u8 => 278,
        240u8 => 611,
        241u8 => 611,
        242u8 => 611,
        243u8 => 611,
        244u8 => 611,
        245u8 => 611,
        246u8 => 611,
        247u8 => 584,
        248u8 => 611,
        249u8 => 611,
        250u8 => 611,
        251u8 => 611,
        252u8 => 611,
        253u8 => 556,
        254u8 => 611,
        255u8 => 556,
        _ => 0,
    }
}

/// The Times-Roman width of a WinAnsiEncoding code, in 1/1000 text-space units.
pub open spec fn times_roman_width(code: u8) -> u16 {
    match code {
        32u8 => 250,
        33u8 => 333,
        34u8 => 408,
        35u8 => 500,
        36u8 => 500,
        37u8 => 833,
        38u8 => 778,
        39u8 => 180,
        40u8 => 333,
        41u8 => 333,
        42u8 => 500,
        43u8 => 564,
        44u8 => 250,
        45u8 => 333,
        46u8 => 250,
        47u8 => 278,
        48u8 => 500,
        49u8 => 500,
        50u8 => 500,
        51u8 => 500,
        52u8 => 500,
        53u8 => 500,
        54u8 => 500,
        55u8 => 500,
        56u8 => 500,
        57u8 => 500,
        58u8 => 278,
        59u8 => 278,
        60u8 => 564,
        61u8 => 564,
        62u8 => 564,
        63u8 => 444,
        64u8 => 921,
        65u8 => 722,
        66u8 => 667,
        67u8 => 667,
        68u8 => 722,
        69u8 => 611,
        70u8 => 556,
        71u8 => 722,
        72u8 => 722,
        73u8 => 333,
        74u8 => 389,
        75u8 => 722,
        76u8 => 611,
        77u8 => 889,
        78u8 => 722,
        79u8 => 722,
        80u8 => 556,
        81u8 => 722,
        82u8 => 667,
        83u8 => 556,
        84u8 => 611,
        85u8 => 722,
        86u8 => 722,
        87u8 => 944,
        88u8 => 722,
        89u8 => 722,
        90u8 => 611,
        91u8 => 333,
        92u8 => 278,
        93u8 => 333,
        94u8 => 469,
        95u8 => 500,
        96u8 => 333,
        97u8 => 444,
        98u8 => 500,
        99u8 => 444,
        100u8 => 500,
        101u8 => 444,
        102u8 => 333,
        103u8 => 500,
        104u8 => 500,
        105u8 => 278,
        106u8 => 278,
        107u8 => 500,
        108u8 => 278,
        109u8 => 778,
        110u8 => 500,
        111u8 => 500,
        112u8 => 500,
        113u8 => 500,
        114u8 => 333,
        115u8 => 389,
        116u8 => 278,
        117u8 => 500,
        118u8 => 500,
        119u8 => 722,
        120u8 => 500,
        121u8 => 500,
        122u8 => 444,
        123u8 => 480,
        124u8 => 200,
        125u8 => 480,
        126u8 => 541,
        128u8 => 500,
        130u8 => 333,
        131u8 => 500,
        132u8 => 444,
        133u8 => 1000,
        134u8 => 500,
        135u8 => 500,
        136u8 => 333,
        137u8 => 1000,
        138u8 => 556,
        139u8 => 333,
        140u8 => 889,
        142u8 => 611,
        145u8 => 333,
        146u8 => 333,
        147u8 => 444,
        148u8 => 444,
        149u8 => 350,
        150u8 => 500,
        151u8 => 1000,
        152u8 => 333,
        153u8 => 980,
        154u8 => 389,
        155u8 => 333,
        156u8 => 722,
        158u8 => 444,
        159u8 => 722,
        160u8 => 250,
        161u8 => 333,
        162u8 => 500,
        163u8 => 500,
        164u8 => 500,
        165u8 => 500,
        166u8 => 200,
        167u8 => 500,
        168u8 => 333,
        169u8 => 760,
        170u8 => 276,
        171u8 => 500,
        172u8 => 564,
        173u8 => 333,
        174u8 => 760,
        175u8 => 333,
        176u8 => 400,
        177u8 => 564,
        178u8 => 300,
        179u8 => 300,
        180u8 => 333,
        181u8 => 500,
        182u8 => 453,
        183u8 => 250,
        184u8 => 333,
        185u8 => 300,
        186u8 => 310,
        187u8 => 500,
        188u8 => 750,
        189u8 => 750,
        190u8 => 750,
        191u8 => 444,
        192u8 => 722,
        193u8 => 722,
        194u8 => 722,
        195u8 => 722,
        196u8 => 722,
        197u8 => 722,
        198u8 => 889,
        199u8 => 667,
        200u8 => 611,
        201u8 => 611,
        202u8 => 611,
        203u8 => 611,
        204u8 => 333,
        205u8 => 333,
        206u8 => 333,
        207u8 => 333,
        208u8 => 722,
        209u8 => 722,
        210u8 => 722,
        211u8 => 722,
        212u8 => 722,
        213u8 => 722,
        214u8 => 722,
        215u8 => 564,
        216u8 => 722,
        217u8 => 722,
        218u8 => 722,
        219u8 => 722,
        220u8 => 722,
        221u8 => 722,
        222u8 => 556,
        223u8 => 500,
        224u8 => 444,
        225u8 => 444,
        226u8 => 444,
        227u8 => 444,
        228u8 => 444,
        229u8 => 444,
        230u8 => 667,
        231u8 => 444,
        232u8 => 444,
        233u8 => 444,
        234u8 => 444,
        235u8 => 444,
        236u8 => 278,
        237u8 => 278,
        238u8 => 278,
        239u8 => 278,
        240u8 => 500,
        241u8 => 500,
        242u8 => 500,
        243u8 => 500,
        244u8 => 500,
        245u8 => 500,
        246u8 => 500,
        247u8 => 564,
        248u8 => 500,
        249u8 => 500,
        250u8 => 500,
        251u8 => 500,
        252u8 => 500,
        253u8 => 500,
        254u8 => 500,
        255u8 => 500,
        _ => 0,
    }
}

fn times_roman_width_exec(code: u8) -> (r: u16)
    ensures
        r == times_roman_width(code),
{
    match code {
        32u8 => 250,
        33u8 => 333,
        34u8 => 408,
        35u8 => 500,
        36u8 => 500,
        37u8 => 833,
        38u8 => 778,
        39u8 => 180,
        40u8 => 333,
        41u8 => 333,
        42u8 => 500,
        43u8 => 564,
        44u8 => 250,
        45u8 => 333,
        46u8 => 250,
        47u8 => 278,
        48u8 => 500,
        49u8 => 500,
        50u8 => 500,
        51u8 => 500,
        52u8 => 500,
        53u8 => 500,
        54u8 => 500,
        55u8 => 500,
        56u8 => 500,
        57u8 => 500,
        58u8 => 278,
        59u8 => 278,
        60u8 => 564,
        61u8 => 564,
        62u8 => 564,
        63u8 => 444,
        64u8 => 921,
        65u8 => 722,
        66u8 => 667,
        67u8 => 667,
        68u8 => 722,
        69u8 => 611,
        70u8 => 556,
        71u8 => 722,
        72u8 => 722,
        73u8 => 333,
        74u8 => 389,
        75u8 => 722,
        76u8 => 611,
        77u8 => 889,
        78u8 => 722,
        79u8 => 722,
        80u8 => 556,
        81u8 => 722,
        82u8 => 667,
        83u8 => 556,
        84u8 => 611,
        85u8 => 722,
        86u8 => 722,
        87u8 => 944,
        88u8 => 722,
        89u8 => 722,
        90u8 => 611,
        91u8 => 333,
        92u8 => 278,
        93u8 => 333,
        94u8 => 469,
        95u8 => 500,
        96u8 => 333,
        97u8 => 444,
        98u8 => 500,
        99u8 => 444,
        100u8 => 500,
        101u8 => 444,
        102u8 => 333,
        103u8 => 500,
        104u8 => 500,
        105u8 => 278,
        106u8 => 278,
        107u8 => 500,
        108u8 => 278,
        109u8 => 778,
        110u8 => 500,
        111u8 => 500,
        112u8 => 500,
        113u8 => 500,
        114u8 => 333,
        115u8 => 389,
        116u8 => 278,
        117u8 => 500,
        118u8 => 500,
        119u8 => 722,
        120u8 => 500,
        121u8 => 500,
        122u8 => 444,
        123u8 => 480,
        124u8 => 200,
        125u8 => 480,
        126u8 => 541,
        128u8 => 500,
        130u8 => 333,
        131u8 => 500,
        132u8 => 444,
        133u8 => 1000,
        134u8 => 500,
        135u8 => 500,
        136u8 => 333,
        137u8 => 1000,
        138u8 => 556,
        139u8 => 333,
        140u8 => 889,
        142u8 => 611,
        145u8 => 333,
        146u8 => 333,
        147u8 => 444,
        148u8 => 444,
        149u8 => 350,
        150u8 => 500,
        151u8 => 1000,
        152u8 => 333,
        153u8 => 980,
        154u8 => 389,
        155u8 => 333,
        156u8 => 722,
        158u8 => 444,
        159u8 => 722,
        160u8 => 250,
        161u8 => 333,
        162u8 => 500,
        163u8 => 500,
        164u8 => 500,
        165u8 => 500,
        166u8 => 200,
        167u8 => 500,
        168u8 => 333,
        169u8 => 760,
        170u8 => 276,
        171u8 => 500,
        172u8 => 564,
        173u8 => 333,
        174u8 => 760,
        175u8 => 333,
        176u8 => 400,
        177u8 => 564,
        178u8 => 300,
        179u8 => 300,
        180u8 => 333,
        181u8 => 500,
        182u8 => 453,
        183u8 => 250,
        184u8 => 333,
        185u8 => 300,
        186u8 => 310,
        187u8 => 500,
        188u8 => 750,
        189u8 => 750,
        190u8 => 750,
        191u8 => 444,
        192u8 => 722,
        193u8 => 722,
        194u8 => 722,
        195u8 => 722,
        196u8 => 722,
        197u8 => 722,
        198u8 => 889,
        199u8 => 667,
        200u8 => 611,
        201u8 => 611,
        202u8 => 611,
        203u8 => 611,
        204u8 => 333,
        205u8 => 333,
        206u8 => 333,
        207u8 => 333,
        208u8 => 722,
        209u8 => 722,
        210u8 => 722,
        211u8 => 722,
        212u8 => 722,
        213u8 => 722,
        214u8 => 722,
        215u8 => 564,
        216u8 => 722,
        217u8 => 722,
        218u8 => 722,
        219u8 => 722,
        220u8 => 722,
        221u8 => 722,
        222u8 => 556,
        223u8 => 500,
        224u8 => 444,
        225u8 => 444,
        226u8 => 444,
        227u8 => 444,
        228u8 => 444,
        229u8 => 444,
        230u8 => 667,
        231u8 => 444,
        232u8 => 444,
        233u8 => 444,
        234u8 => 444,
        235u8 => 444,
        236u8 => 278,
        237u8 => 278,
        238u8 => 278,
        239u8 => 278,
        240u8 => 500,
        241u8 => 500,
        242u8 => 500,
        243u8 => 500,
        244u8 => 500,
        245u8 => 500,
        246u8 => 500,
        247u8 => 564,
        248u8 => 500,
        249u8 => 500,
        250u8 => 500,
        251u8 => 500,
        252u8 => 500,
        253u8 => 500,
        254u8 => 500,
        255u8 => 500,
        _ => 0,
    }
}

/// The Times-Bold width of a WinAnsiEncoding code, in 1/1000 text-space units.
pub open spec fn times_bold_width(code: u8) -> u16 {
    match code {
        32u8 => 250,
        33u8 => 333,
        34u8 => 555,
        35u8 => 500,
        36u8 => 500,
        37u8 => 1000,
        38u8 => 833,
        39u8 => 278,
        40u8 => 333,
        41u8 => 333,
        42u8 => 500,
        43u8 => 570,
        44u8 => 250,
        45u8 => 333,
        46u8 => 250,
        47u8 => 278,
        48u8 => 500,
        49u8 => 500,
        50u8 => 500,
        51u8 => 500,
        52u8 => 500,
        53u8 => 500,
        54u8 => 500,
        55u8 => 500,
        56u8 => 500,
        57u8 => 500,
        58u8 => 333,
        59u8 => 333,
        60u8 => 570,
        61u8 => 570,
        62u8 => 570,
        63u8 => 500,
        64u8 => 930,
        65u8 => 722,
        66u8 => 667,
        67u8 => 722,
        68u8 => 722,
        69u8 => 667,
        70u8 => 611,
        71u8 => 778,
        72u8 => 778,
        73u8 => 389,
        74u8 => 500,
        75u8 => 778,
        76u8 => 667,
        77u8 => 944,
        78u8 => 722,
        79u8 => 778,
        80u8 => 611,
        81u8 => 778,
        82u8 => 722,
        83u8 => 556,
        84u8 => 667,
        85u8 => 722,
        86u8 => 722,
        87u8 => 1000,
        88u8 => 722,
        89u8 => 722,
        90u8 => 667,
        91u8 => 333,
        92u8 => 278,
        93u8 => 333,
        94u8 => 581,
        95u8 => 500,
        96u8 => 333,
        97u8 => 500,
        98u8 => 556,
        99u8 => 444,
        100u8 => 556,
        101u8 => 444,
        102u8 => 333,
        103u8 => 500,
        104u8 => 556,
        105u8 => 278,
        106u8 => 333,
        107u8 => 556,
        108u8 => 278,
        109u8 => 833,
        110u8 => 556,
        111u8 => 500,
        112u8 => 556,
        113u8 => 556,
        114u8 => 444,
        115u8 => 389,
        116u8 => 333,
        117u8 => 556,
        118u8 => 500,
        119u8 => 722,
        120u8 => 500,
        121u8 => 500,
        122u8 => 444,
        123u8 => 394,
        124u8 => 220,
        125u8 => 394,
        126u8 => 520,
        128u8 => 500,
        130u8 => 333,
        131u8 => 500,
        132u8 => 500,
        133u8 => 1000,
        134u8 => 500,
        135u8 => 500,
        136u8 => 333,
        137u8 => 1000,
        138u8 => 556,
        139u8 => 333,
        140u8 => 1000,
        142u8 => 667,
        145u8 => 333,
        146u8 => 333,
        147u8 => 500,
        148u8 => 500,
        149u8 => 350,
        150u8 => 500,
        151u8 => 1000,
        152u8 => 333,
        153u8 => 1000,
        154u8 => 389,
        155u8 => 333,
        156u8 => 722,
        158u8 => 444,
        159u8 => 722,
        160u8 => 250,
        161u8 => 333,
        162u8 => 500,
        163u8 => 500,
        164u8 => 500,
        165u8 => 500,
        166u8 => 220,
        167u8 => 500,
        168u8 => 333,
        169u8 => 747,
        170u8 => 300,
        171u8 => 500,
        172u8 => 570,
        173u8 => 333,
        174u8 => 747,
        175u8 => 333,
        176u8 => 400,
        177u8 => 570,
        178u8 => 300,
        179u8 => 300,
        180u8 => 333,
        181u8 => 556,
        182u8 => 540,
        183u8 => 250,
        184u8 => 333,
        185u8 => 300,
        186u8 => 330,
        187u8 => 500,
        188u8 => 750,
        189u8 => 750,
        190u8 => 750,
        191u8 => 500,
        192u8 => 722,
        193u8 => 722,
        194u8 => 722,
        195u8 => 722,
        196u8 => 722,
        197u8 => 722,
        198u8 => 1000,
        199u8 => 722,
        200u8 => 667,
        201u8 => 667,
        202u8 => 667,
        203u8 => 667,
        204u8 => 389,
        205u8 => 389,
        206u8 => 389,
        207u8 => 389,
        208u8 => 722,
        209u8 => 722,
        210u8 => 778,
        211u8 => 778,
        212u8 => 778,
        213u8 => 778,
        214u8 => 778,
        215u8 => 570,
        216u8 => 778,
        217u8 => 722,
        218u8 => 722,
        219u8 => 722,
        220u8 => 722,
        221u8 => 722,
        222u8 => 611,
        223u8 => 556,
        224u8 => 500,
        225u8 => 500,
        226u8 => 500,
        227u8 => 500,
        228u8 => 500,
        229u8 => 500,
        230u8 => 722,
        231u8 => 444,
        232u8 => 444,
        233u8 => 444,
        234u8 => 444,
        235u8 => 444,
        236u8 => 278,
        237u8 => 278,
        238u8 => 278,
        239u8 => 278,
        240u8 => 500,
        241u8 => 556,
        242u8 => 500,
        243u8 => 500,
        244u8 => 500,
        245u8 => 500,
        246u8 => 500,
        247u8 => 570,
        248u8 => 500,
        249u8 => 556,
        250u8 => 556,
        251u8 => 556,
        252u8 => 556,
        253u8 => 500,
        254u8 => 556,
        255u8 => 500,
        _ => 0,
    }
}

fn times_bold_width_exec(code: u8) -> (r: u16)
    ensures
        r == times_bold_width(code),
{
    match code {
        32u8 => 250,
        33u8 => 333,
        34u8 => 555,
        35u8 => 500,
        36u8 => 500,
        37u8 => 1000,
        38u8 => 833,
        39u8 => 278,
        40u8 => 333,
        41u8 => 333,
        42u8 => 500,
        43u8 => 570,
        44u8 => 250,
        45u8 => 333,
        46u8 => 250,
        47u8 => 278,
        48u8 => 500,
        49u8 => 500,
        50u8 => 500,
        51u8 => 500,
        52u8 => 500,
        53u8 => 500,
        54u8 => 500,
        55u8 => 500,
        56u8 => 500,
        57u8 => 500,
        58u8 => 333,
        59u8 => 333,
        60u8 => 570,
        61u8 => 570,
        62u8 => 570,
        63u8 => 500,
        64u8 => 930,
        65u8 => 722,
        66u8 => 667,
        67u8 => 722,
        68u8 => 722,
        69u8 => 667,
        70u8 => 611,
        71u8 => 778,
        72u8 => 778,
        73u8 => 389,
        74u8 => 500,
        75u8 => 778,
        76u8 => 667,
        77u8 => 944,
        78u8 => 722,
        79u8 => 778,
        80u8 => 611,
        81u8 => 778,
        82u8 => 722,
        83u8 => 556,
        84u8 => 667,
        85u8 => 722,
        86u8 => 722,
        87u8 => 1000,
        88u8 => 722,
        89u8 => 722,
        90u8 => 667,
        91u8 => 333,
        92u8 => 278,
        93u8 => 333,
        94u8 => 581,
        95u8 => 500,
        96u8 => 333,
        97u8 => 500,
        98u8 => 556,
        99u8 => 444,
        100u8 => 556,
        101u8 => 444,
        102u8 => 333,
        103u8 => 500,
        104u8 => 556,
        105u8 => 278,
        106u8 => 333,
        107u8 => 556,
        108u8 => 278,
        109u8 => 833,
        110u8 => 556,
        111u8 => 500,
        112u8 => 556,
        113u8 => 556,
        114u8 => 444,
        115u8 => 389,
        116u8 => 333,
        117u8 => 556,
        118u8 => 500,
        119u8 => 722,
        120u8 => 500,
        121u8 => 500,
        122u8 => 444,
        123u8 => 394,
        124u8 => 220,
        125u8 => 394,
        126u8 => 520,
        128u8 => 500,
        130u8 => 333,
        131u8 => 500,
        132u8 => 500,
        133u8 => 1000,
        134u8 => 500,
        135u8 => 500,
        136u8 => 333,
        137u8 => 1000,
        138u8 => 556,
        139u8 => 333,
        140u8 => 1000,
        142u8 => 667,
        145u8 => 333,
        146u8 => 333,
        147u8 => 500,
        148u8 => 500,
        149u8 => 350,
        150u8 => 500,
        151u8 => 1000,
        152u8 => 333,
        153u8 => 1000,
        154u8 => 389,
        155u8 => 333,
        156u8 => 722,
        158u8 => 444,
        159u8 => 722,
        160u8 => 250,
        161u8 => 333,
        162u8 => 500,
        163u8 => 500,
        164u8 => 500,
        165u8 => 500,
        166u8 => 220,
        167u8 => 500,
        168u8 => 333,
        169u8 => 747,
        170u8 => 300,
        171u8 => 500,
        172u8 => 570,
        173u8 => 333,
        174u8 => 747,
        175u8 => 333,
        176u8 => 400,
        177u8 => 570,
        178u8 => 300,
        179u8 => 300,
        180u8 => 333,
        181u8 => 556,
        182u8 => 540,
        183u8 => 250,
        184u8 => 333,
        185u8 => 300,
        186u8 => 330,
        187u8 => 500,
        188u8 => 750,
        189u8 => 750,
        190u8 => 750,
        191u8 => 500,
        192u8 => 722,
        193u8 => 722,
        194u8 => 722,
        195u8 => 722,
        196u8 => 722,
        197u8 => 722,
        198u8 => 1000,
        199u8 => 722,
        200u8 => 667,
        201u8 => 667,
        202u8 => 667,
        203u8 => 667,
        204u8 => 389,
        205u8 => 389,
        206u8 => 389,
        207u8 => 389,
        208u8 => 722,
        209u8 => 722,
        210u8 => 778,
        211u8 => 778,
        212u8 => 778,
        213u8 => 778,
        214u8 => 778,
        215u8 => 570,
        216u8 => 778,
        217u8 => 722,
        218u8 => 722,
        219u8 => 722,
        220u8 => 722,
        221u8 => 722,
        222u8 => 611,
        223u8 => 556,
        224u8 => 500,
        225u8 => 500,
        226u8 => 500,
        227u8 => 500,
        228u8 => 500,
        229u8 => 500,
        230u8 => 722,
        231u8 => 444,
        232u8 => 444,
        233u8 => 444,
        234u8 => 444,
        235u8 => 444,
        236u8 => 278,
        237u8 => 278,
        238u8 => 278,
        239u8 => 278,
        240u8 => 500,
        241u8 => 556,
        242u8 => 500,
        243u8 => 500,
        244u8 => 500,
        245u8 => 500,
        246u8 => 500,
        247u8 => 570,
        248u8 => 500,
        249u8 => 556,
        250u8 => 556,
        251u8 => 556,
        252u8 => 556,
        253u8 => 500,
        254u8 => 556,
        255u8 => 500,
        _ => 0,
    }
}

/// The Symbol width of a WinAnsiEncoding code, in 1/1000 text-space units.
pub open spec fn symbol_width(code: u8) -> u16 {
    match code {
        32u8 => 250,
        33u8 => 333,
        34u8 => 713,
        35u8 => 500,
        36u8 => 549,
        37u8 => 833,
        38u8 => 778,
        39u8 => 439,
        40u8 => 333,
        41u8 => 333,
        42u8 => 500,
        43u8 => 549,
        44u8 => 250,
        45u8 => 549,
        46u8 => 250,
        47u8 => 278,
        48u8 => 500,
        49u8 => 500,
        50u8 => 500,
        51u8 => 500,
        52u8 => 500,
        53u8 => 500,
        54u8 => 500,
        55u8 => 500,
        56u8 => 500,
        57u8 => 500,
        58u8 => 278,
        59u8 => 278,
        60u8 => 549,
        61u8 => 549,
        62u8 => 549,
        63u8 => 444,
        64u8 => 549,
        65u8 => 722,
        66u8 => 667,
        67u8 => 722,
        68u8 => 612,
        69u8 => 611,
        70u8 => 763,
        71u8 => 603,
        72u8 => 722,
        73u8 => 333,
        74u8 => 631,
        75u8 => 722,
        76u8 => 686,
        77u8 => 889,
        78u8 => 722,
        79u8 => 722,
        80u8 => 768,
        81u8 => 741,
        82u8 => 556,
        83u8 => 592,
        84u8 => 611,
        85u8 => 690,
        86u8 => 439,
        87u8 => 768,
        88u8 => 645,
        89u8 => 795,
        90u8 => 611,
        91u8 => 333,
        92u8 => 863,
        93u8 => 333,
        94u8 => 658,
        95u8 => 500,
        96u8 => 500,
        97u8 => 631,
        98u8 => 549,
        99u8 => 549,
        100u8 => 494,
        101u8 => 439,
        102u8 => 521,
        103u8 => 411,
        104u8 => 603,
        105u8 => 329,
        106u8 => 603,
        107u8 => 549,
        108u8 => 549,
        109u8 => 576,
        110u8 => 521,
        111u8 => 549,
        112u8 => 549,
        113u8 => 521,
        114u8 => 549,
        115u8 => 603,
        116u8 => 439,
        117u8 => 576,
        118u8 => 713,
        119u8 => 686,
        120u8 => 493,
        121u8 => 686,
        122u8 => 494,
        123u8 => 480,
        124u8 => 200,
        125u8 => 480,
        126u8 => 549,
        128u8 => 500,
        129u8 => 500,
        130u8 => 500,
        131u8 => 500,
        132u8 => 500,
        133u8 => 500,
        134u8 => 500,
        135u8 => 500,
        136u8 => 500,
        137u8 => 500,
        138u8 => 500,
        139u8 => 500,
        140u8 => 500,
        141u8 => 500,
        142u8 => 500,
        143u8 => 500,
        144u8 => 500,
        145u8 => 500,
        146u8 => 500,
        147u8 => 500,
        148u8 => 500,
        149u8 => 500,
        150u8 => 500,
        151u8 => 500,
        152u8 => 500,
        153u8 => 500,
        154u8 => 500,
        155u8 => 500,
        156u8 => 500,
        157u8 => 500,
        158u8 => 500,
        159u8 => 500,
        160u8 => 500,
        161u8 => 500,
        162u8 => 500,
        163u8 => 500,
        164u8 => 500,
        165u8 => 500,
        166u8 => 500,
        167u8 => 500,
        168u8 => 500,
        169u8 => 500,
        170u8 => 500,
        171u8 => 500,
        172u8 => 500,
        173u8 => 500,
        174u8 => 500,
        175u8 => 500,
        176u8 => 500,
        177u8 => 500,
        178u8 => 500,
        179u8 => 500,
        180u8 => 500,
        181u8 => 500,
        182u8 => 500,
        183u8 => 500,
        184u8 => 500,
        185u8 => 500,
        186u8 => 500,
        187u8 => 500,
        188u8 => 500,
        189u8 => 500,
        190u8 => 500,
        191u8 => 500,
        192u8 => 500,
        193u8 => 500,
        194u8 => 500,
        195u8 => 500,
        196u8 => 500,
        197u8 => 500,
        198u8 => 500,
        199u8 => 500,
        200u8 => 500,
        201u8 => 500,
        202u8 => 500,
        203u8 => 500,
        204u8 => 500,
        205u8 => 500,
        206u8 => 500,
        207u8 => 500,
        208u8 => 500,
        209u8 => 500,
        210u8 => 500,
        211u8 => 500,
        212u8 => 500,
        213u8 => 500,
        214u8 => 500,
        215u8 => 500,
        216u8 => 500,
        217u8 => 500,
        218u8 => 500,
        219u8 => 500,
        220u8 => 500,
        221u8 => 500,
        222u8 => 500,
        223u8 => 500,
        224u8 => 500,
        225u8 => 500,
        226u8 => 500,
        227u8 => 500,
        228u8 => 500,
        229u8 => 500,
        230u8 => 500,
        231u8 => 500,
        232u8 => 500,
        233u8 => 500,
        234u8 => 500,
        235u8 => 500,
        236u8 => 500,
        237u8 => 500,
        238u8 => 500,
        239u8 => 500,
        240u8 => 500,
        241u8 => 500,
        242u8 => 500,
        243u8 => 500,
        244u8 => 500,
        245u8 => 500,
        246u8 => 500,
        247u8 => 500,
        248u8 => 500,
        249u8 => 500,
        250u8 => 500,
        251u8 => 500,
        252u8 => 500,
        253u8 => 500,
        254u8 => 500,
        255u8 => 500,
        _ => 0,
    }
}

fn symbol_width_exec(code: u8) -> (r: u16)
    ensures
        r == symbol_width(code),
{
    match code {
        32u8 => 250,
        33u8 => 333,
        34u8 => 713,
        35u8 => 500,
        36u8 => 549,
        37u8 => 833,
        38u8 => 778,
        39u8 => 439,
        40u8 => 333,
        41u8 => 333,
        42u8 => 500,
        43u8 => 549,
        44u8 => 250,
        45u8 => 549,
        46u8 => 250,
        47u8 => 278,
        48u8 => 500,
        49u8 => 500,
        50u8 => 500,
        51u8 => 500,
        52u8 => 500,
        53u8 => 500,
        54u8 => 500,
        55u8 => 500,
        56u8 => 500,
        57u8 => 500,
        58u8 => 278,
        59u8 => 278,
        60u8 => 549,
        61u8 => 549,
        62u8 => 549,
        63u8 => 444,
        64u8 => 549,
        65u8 => 722,
        66u8 => 667,
        67u8 => 722,
        68u8 => 612,
        69u8 => 611,
        70u8 => 763,
        71u8 => 603,
        72u8 => 722,
        73u8 => 333,
        74u8 => 631,
        75u8 => 722,
        76u8 => 686,
        77u8 => 889,
        78u8 => 722,
        79u8 => 722,
        80u8 => 768,
        81u8 => 741,
        82u8 => 556,
        83u8 => 592,
        84u8 => 611,
        85u8 => 690,
        86u8 => 439,
        87u8 => 768,
        88u8 => 645,
        89u8 => 795,
        90u8 => 611,
        91u8 => 333,
        92u8 => 863,
        93u8 => 333,
        94u8 => 658,
        95u8 => 500,
        96u8 => 500,
        97u8 => 631,
        98u8 => 549,
        99u8 => 549,
        100u8 => 494,
        101u8 => 439,
        102u8 => 521,
        103u8 => 411,
        104u8 => 603,
        105u8 => 329,
        106u8 => 603,
        107u8 => 549,
        108u8 => 549,
        109u8 => 576,
        110u8 => 521,
        111u8 => 549,
        112u8 => 549,
        113u8 => 521,
        114u8 => 549,
        115u8 => 603,
        116u8 => 439,
        117u8 => 576,
        118u8 => 713,
        119u8 => 686,
        120u8 => 493,
        121u8 => 686,
        122u8 => 494,
        123u8 => 480,
        124u8 => 200,
        125u8 => 480,
        126u8 => 549,
        128u8 => 500,
        129u8 => 500,
        130u8 => 500,
        131u8 => 500,
        132u8 => 500,
        133u8 => 500,
        134u8 => 500,
        135u8 => 500,
        136u8 => 500,
        137u8 => 500,
        138u8 => 500,
        139u8 => 500,
        140u8 => 500,
        141u8 => 500,
        142u8 => 500,
        143u8 => 500,
        144u8 => 500,
        145u8 => 500,
        146u8 => 500,
        147u8 => 500,
        148u8 => 500,
        149u8 => 500,
        150u8 => 500,
        151u8 => 500,
        152u8 => 500,
        153u8 => 500,
        154u8 => 500,
        155u8 => 500,
        156u8 => 500,
        157u8 => 500,
        158u8 => 500,
        159u8 => 500,
        160u8 => 500,
        161u8 => 500,
        162u8 => 500,
        163u8 => 500,
        164u8 => 500,
        165u8 => 500,
        166u8 => 500,
        167u8 => 500,
        168u8 => 500,
        169u8 => 500,
        170u8 => 500,
        171u8 => 500,
        172u8 => 500,
        173u8 => 500,
        174u8 => 500,
        175u8 => 500,
        176u8 => 500,
        177u8 => 500,
        178u8 => 500,
        179u8 => 500,
        180u8 => 500,
        181u8 => 500,
        182u8 => 500,
        183u8 => 500,
        184u8 => 500,
        185u8 => 500,
        186u8 => 500,
        187u8 => 500,
        188u8 => 500,
        189u8 => 500,
        190u8 => 500,
        191u8 => 500,
        192u8 => 500,
        193u8 => 500,
        194u8 => 500,
        195u8 => 500,
        196u8 => 500,
        197u8 => 500,
        198u8 => 500,
        199u8 => 500,
        200u8 => 500,
        201u8 => 500,
        202u8 => 500,
        203u8 => 500,
        204u8 => 500,
        205u8 => 500,
        206u8 => 500,
        207u8 => 500,
        208u8 => 500,
        209u8 => 500,
        210u8 => 500,
        211u8 => 500,
        212u8 => 500,
        213u8 => 500,
        214u8 => 500,
        215u8 => 500,
        216u8 => 500,
        217u8 => 500,
        218u8 => 500,
        219u8 => 500,
        220u8 => 500,
        221u8 => 500,
        222u8 => 500,
        223u8 => 500,
        224u8 => 500,
        225u8 => 500,
        226u8 => 500,
        227u8 => 500,
        228u8 => 500,
        229u8 => 500,
        230u8 => 500,
        231u8 => 500,
        232u8 => 500,
        233u8 => 500,
        234u8 => 500,
        235u8 => 500,
        236u8 => 500,
        237u8 => 500,
        238u8 => 500,
        239u8 => 500,
        240u8 => 500,
        241u8 => 500,
        242u8 => 500,
        243u8 => 500,
        244u8 => 500,
        245u8 => 500,
        246u8 => 500,
        247u8 => 500,
        248u8 => 500,
        249u8 => 500,
        250u8 => 500,
        251u8 => 500,
        252u8 => 500,
        253u8 => 500,
        254u8 => 500,
        255u8 => 500,
        _ => 0,
    }
}

/// The ZapfDingbats width of a WinAnsiEncoding code, in 1/1000 text-space units.
pub open spec fn zapf_dingbats_width(code: u8) -> u16 {
    match code {
        32u8 => 278,
        33u8 => 974,
        34u8 => 961,
        35u8 => 974,
        36u8 => 980,
        37u8 => 719,
        38u8 => 789,
        39u8 => 790,
        40u8 => 791,
        41u8 => 690,
        42u8 => 960,
        43u8 => 939,
        44u8 => 549,
        45u8 => 855,
        46u8 => 911,
        47u8 => 933,
        48u8 => 911,
        49u8 => 945,
        50u8 => 974,
        51u8 => 755,
        52u8 => 846,
        53u8 => 762,
        54u8 => 761,
        55u8 => 571,
        56u8 => 677,
        57u8 => 763,
        58u8 => 760,
        59u8 => 759,
        60u8 => 754,
        61u8 => 494,
        62u8 => 552,
        63u8 => 537,
        64u8 => 577,
        65u8 => 692,
        66u8 => 786,
        67u8 => 788,
        68u8 => 788,
        69u8 => 790,
        70u8 => 793,
        71u8 => 794,
        72u8 => 816,
        73u8 => 823,
        74u8 => 789,
        75u8 => 841,
        76u8 => 823,
        77u8 => 833,
        78u8 => 816,
        79u8 => 831,
        80u8 => 923,
        81u8 => 744,
        82u8 => 723,
        83u8 => 749,
        84u8 => 790,
        85u8 => 792,
        86u8 => 695,
        87u8 => 776,
        88u8 => 768,
        89u8 => 792,
        90u8 => 759,
        91u8 => 707,
        92u8 => 708,
        93u8 => 682,
        94u8 => 701,
        95u8 => 826,
        96u8 => 815,
        97u8 => 789,
        98u8 => 789,
        99u8 => 707,
        100u8 => 687,
        101u8 => 696,
        102u8 => 689,
        103u8 => 786,
        104u8 => 787,
        105u8 => 713,
        106u8 => 791,
        107u8 => 785,
        108u8 => 791,
        109u8 => 873,
        110u8 => 761,
        111u8 => 762,
        112u8 => 762,
        113u8 => 759,
        114u8 => 759,
        115u8 => 892,
        116u8 => 892,
        117u8 => 788,
        118u8 => 784,
        119u8 => 438,
        120u8 => 138,
        121u8 => 277,
        122u8 => 415,
        123u8 => 392,
        124u8 => 392,
        125u8 => 668,
        126u8 => 668,
        128u8 => 390,
        129u8 => 390,
        130u8 => 317,
        131u8 => 317,
        132u8 => 276,
        133u8 => 276,
        134u8 => 509,
        135u8 => 509,
        136u8 => 410,
        137u8 => 410,
        138u8 => 234,
        139u8 => 234,
        140u8 => 334,
        141u8 => 334,
        160u8 => 278,
        161u8 => 732,
        162u8 => 544,
        163u8 => 544,
        164u8 => 910,
        165u8 => 667,
        166u8 => 760,
        167u8 => 760,
        168u8 => 776,
        169u8 => 595,
        170u8 => 694,
        171u8 => 626,
        172u8 => 788,
        173u8 => 788,
        174u8 => 788,
        175u8 => 788,
        176u8 => 788,
        177u8 => 788,
        178u8 => 788,
        179u8 => 788,
        180u8 => 788,
        181u8 => 788,
        182u8 => 788,
        183u8 => 788,
        184u8 => 788,
        185u8 => 788,
        186u8 => 788,
        187u8 => 788,
        188u8 => 788,
        189u8 => 788,
        190u8 => 788,
        191u8 => 788,
        192u8 => 788,
        193u8 => 788,
        194u8 => 788,
        195u8 => 788,
        196u8 => 788,
        197u8 => 788,
        198u8 => 788,
        199u8 => 788,
        200u8 => 788,
        201u8 => 788,
        202u8 => 788,
        203u8 => 788,
        204u8 => 788,
        205u8 => 788,
        206u8 => 788,
        207u8 => 788,
        208u8 => 788,
        209u8 => 788,
        210u8 => 788,
        211u8 => 788,
        212u8 => 894,
        213u8 => 838,
        214u8 => 1016,
        215u8 => 458,
        216u8 => 748,
        217u8 => 924,
        218u8 => 748,
        219u8 => 918,
        220u8 => 927,
        221u8 => 928,
        222u8 => 928,
        223u8 => 834,
        224u8 => 873,
        225u8 => 828,
        226u8 => 924,
        227u8 => 924,
        228u8 => 917,
        229u8 => 930,
        230u8 => 931,
        231u8 => 463,
        232u8 => 883,
        233u8 => 836,
        234u8 => 836,
        235u8 => 867,
        236u8 => 867,
        237u8 => 696,
        238u8 => 696,
        239u8 => 874,
        241u8 => 874,
        242u8 => 760,
        243u8 => 946,
        244u8 => 771,
        245u8 => 865,
        246u8 => 771,
        247u8 => 888,
        248u8 => 967,
        249u8 => 888,
        250u8 => 831,
        251u8 => 873,
        252u8 => 927,
        253u8 => 970,
        254u8 => 918,
        _ => 0,
    }
}

fn zapf_dingbats_width_exec(code: u8) -> (r: u16)
    ensures
        r == zapf_dingbats_width(code),
{
    match code {
        32u8 => 278,
        33u8 => 974,
        34u8 => 961,
        35u8 => 974,
        36u8 => 980,
        37u8 => 719,
        38u8 => 789,
        39u8 => 790,
        40u8 => 791,
        41u8 => 690,
        42u8 => 960,
        43u8 => 939,
        44u8 => 549,
        45u8 => 855,
        46u8 => 911,
        47u8 => 933,
        48u8 => 911,
        49u8 => 945,
        50u8 => 974,
        51u8 => 755,
        52u8 => 846,
        53u8 => 762,
        54u8 => 761,
        55u8 => 571,
        56u8 => 677,
        57u8 => 763,
        58u8 => 760,
        59u8 => 759,
        60u8 => 754,
        61u8 => 494,
        62u8 => 552,
        63u8 => 537,
        64u8 => 577,
        65u8 => 692,
        66u8 => 786,
        67u8 => 788,
        68u8 => 788,
        69u8 => 790,
        70u8 => 793,
        71u8 => 794,
        72u8 => 816,
        73u8 => 823,
        74u8 => 789,
        75u8 => 841,
        76u8 => 823,
        77u8 => 833,
        78u8 => 816,
        79u8 => 831,
        80u8 => 923,
        81u8 => 744,
        82u8 => 723,
        83u8 => 749,
        84u8 => 790,
        85u8 => 792,
        86u8 => 695,
        87u8 => 776,
        88u8 => 768,
        89u8 => 792,
        90u8 => 759,
        91u8 => 707,
        92u8 => 708,
        93u8 => 682,
        94u8 => 701,
        95u8 => 826,
        96u8 => 815,
        97u8 => 789,
        98u8 => 789,
        99u8 => 707,
        100u8 => 687,
        101u8 => 696,
        102u8 => 689,
        103u8 => 786,
        104u8 => 787,
        105u8 => 713,
        106u8 => 791,
        107u8 => 785,
        108u8 => 791,
        109u8 => 873,
        110u8 => 761,
        111u8 => 762,
        112u8 => 762,
        113u8 => 759,
        114u8 => 759,
        115u8 => 892,
        116u8 => 892,
        117u8 => 788,
        118u8 => 784,
        119u8 => 438,
        120u8 => 138,
        121u8 => 277,
        122u8 => 415,
        123u8 => 392,
        124u8 => 392,
        125u8 => 668,
        126u8 => 668,
        128u8 => 390,
        129u8 => 390,
        130u8 => 317,
        131u8 => 317,
        132u8 => 276,
        133u8 => 276,
        134u8 => 509,
        135u8 => 509,
        136u8 => 410,
        137u8 => 410,
        138u8 => 234,
        139u8 => 234,
        140u8 => 334,
        141u8 => 334,
        160u8 => 278,
        161u8 => 732,
        162u8 => 544,
        163u8 => 544,
        164u8 => 910,
        165u8 => 667,
        166u8 => 760,
        167u8 => 760,
        168u8 => 776,
        169u8 => 595,
        170u8 => 694,
        171u8 => 626,
        172u8 => 788,
        173u8 => 788,
        174u8 => 788,
        175u8 => 788,
        176u8 => 788,
        177u8 => 788,
        178u8 => 788,
        179u8 => 788,
        180u8 => 788,
        181u8 => 788,
        182u8 => 788,
        183u8 => 788,
        184u8 => 788,
        185u8 => 788,
        186u8 => 788,
        187u8 => 788,
        188u8 => 788,
        189u8 => 788,
        190u8 => 788,
        191u8 => 788,
        192u8 => 788,
        193u8 => 788,
        194u8 => 788,
        195u8 => 788,
        196u8 => 788,
        197u8 => 788,
        198u8 => 788,
        199u8 => 788,
        200u8 => 788,
        201u8 => 788,
        202u8 => 788,
        203u8 => 788,
        204u8 => 788,
        205u8 => 788,
        206u8 => 788,
        207u8 => 788,
        208u8 => 788,
        209u8 => 788,
        210u8 => 788,
        211u8 => 788,
        212u8 => 894,
        213u8 => 838,
        214u8 => 1016,
        215u8 => 458,
        216u8 => 748,
        217u8 => 924,
        218u8 => 748,
        219u8 => 918,
        220u8 => 927,
        221u8 => 928,
        222u8 => 928,
        223u8 => 834,
        224u8 => 873,
        225u8 => 828,
        226u8 => 924,
        227u8 => 924,
        228u8 => 917,
        229u8 => 930,
        230u8 => 931,
        231u8 => 463,
        232u8 => 883,
        233u8 => 836,
        234u8 => 836,
        235u8 => 867,
        236u8 => 867,
        237u8 => 696,
        238u8 => 696,
        239u8 => 874,
        241u8 => 874,
        242u8 => 760,
        243u8 => 946,
        244u8 => 771,
        245u8 => 865,
        246u8 => 771,
        247u8 => 888,
        248u8 => 967,
        249u8 => 888,
        250u8 => 831,
        251u8 => 873,
        252u8 => 927,
        253u8 => 970,
        254u8 => 918,
        _ => 0,
    }
}

/// The width of a WinAnsiEncoding code in a width table.
pub open spec fn table_width(t: WidthTable, code: u8) -> u16 {
    match t {
        WidthTable::Courier => 600,
        WidthTable::Helvetica => helvetica_width(code),
        WidthTable::HelveticaBold => helvetica_bold_width(code),
        WidthTable::TimesRoman => times_roman_width(code),
        WidthTable::TimesBold => times_bold_width(code),
        WidthTable::Symbol => symbol_width(code),
        WidthTable::ZapfDingbats => zapf_dingbats_width(code),
    }
}

/// The sum of the widths of bytes in a width table.
pub open spec fn bytes_width(t: WidthTable, bytes: Seq<u8>) -> nat
    decreases bytes.len(),
{
    if bytes.len() == 0 {
        0
    } else {
        bytes_width(t, bytes.drop_last()) + table_width(t, bytes.last()) as nat
    }
}

proof fn lemma_width_prefix(t: WidthTable, s: Seq<u8>, i: int)
    requires
        0 <= i <= s.len(),
    ensures
        bytes_width(t, s.take(i)) <= bytes_width(t, s),
    decreases s.len() - i,
{
    if i == s.len() {
        assert(s.take(i) =~= s);
    } else {
        lemma_width_prefix(t, s, i + 1);
        assert(s.take(i + 1).drop_last() =~= s.take(i));
    }
}

impl Standard14Font {
    /// The PostScript name of the font.
    pub closed spec fn spec_name(&self) -> Seq<char> {
        self.name@
    }

    /// The width table of the font.
    pub closed spec fn spec_table(&self) -> WidthTable {
        self.widths
    }

    /// Looks up a standard font by its PostScript name; `None` for any
    /// other name.
    pub fn from_name(name: &str) -> (r: Option<Standard14Font>)
        ensures
            r is Some <==> is_standard14_name(name@),
            r matches Some(f) ==> f.spec_name() == name@ && (exists|i: int|
                0 <= i < 14 && standard14_name(i) == name@ && f.spec_table() == standard14_table(i)),
    {
        let mut i: usize = 0;
        while i < STANDARD_14_COUNT
            invariant
                i <= 14,
                forall|k: int| 0 <= k < i ==> standard14_name(k) != name@,
            decreases 14 - i,
        {
            let (n, t) = standard14_entry(i);
            if str_eq(n, name) {
                return Some(Standard14Font { name: n, widths: t });
            }
            i = i + 1;
        }
        None
    }

    /// The PostScript name of the font.
    pub fn name(&self) -> (r: &'static str)
        ensures
            r@ == self.spec_name(),
    {
        self.name
    }

    /// The glyph width of a WinAnsiEncoding code, in 1/1000 text-space units.
    pub fn glyph_width(&self, code: u8) -> (r: u16)
        ensures
            r == table_width(self.spec_table(), code),
    {
        match self.widths {
            WidthTable::Courier => 600,
            WidthTable::Helvetica => helvetica_width_exec(code),
            WidthTable::HelveticaBold => helvetica_bold_width_exec(code),
            WidthTable::TimesRoman => times_roman_width_exec(code),
            WidthTable::TimesBold => times_bold_width_exec(code),
            WidthTable::Symbol => symbol_width_exec(code),
            WidthTable::ZapfDingbats => zapf_dingbats_width_exec(code),
        }
    }

    /// The total width of the bytes of a string, in 1/1000 text-space
    /// units; multiplied by the font size over 1000 it gives the width in
    /// points. The total is a 32-bit sum.
    pub fn text_width_units(&self, text: &str) -> (r: u32)
        requires
            bytes_width(self.spec_table(), text.spec_bytes()) <= u32::MAX,
        ensures
            r == bytes_width(self.spec_table(), text.spec_bytes()),
    {
        let bytes = text.as_bytes();
        let mut total: u32 = 0;
        let mut i: usize = 0;
        while i < bytes.len()
            invariant
                i <= bytes.len(),
                bytes@ == text.spec_bytes(),
                total == bytes_width(self.spec_table(), bytes@.take(i as int)),
                bytes_width(self.spec_table(), bytes@) <= u32::MAX,
            decreases bytes.len() - i,
        {
            proof {
                assert(bytes@.take(i + 1).drop_last() =~= bytes@.take(i as int));
                lemma_width_prefix(self.spec_table(), bytes@, i + 1);
            }
            let w = self.glyph_width(bytes[i]);
            total = total + w as u32;
            i = i + 1;
        }
        assert(bytes@.take(bytes.len() as int) =~= bytes@);
        total
    }

    /// The entries of the `/Font` dictionary for this font: `/Type /Font`,
    /// `/Subtype /Type1`, `/BaseFont` with the font's name and `/Encoding
    /// /WinAnsiEncoding`.
    pub fn to_font_dictionary(&self) -> (r: Vec<(PdfName, PdfName)>)
        ensures
            r@.len() == 4,
            r@[0].0.0@ == "Type"@ && r@[0].1.0@ == "Font"@,
            r@[1].0.0@ == "Subtype"@ && r@[1].1.0@ == "Type1"@,
            r@[2].0.0@ == "BaseFont"@ && r@[2].1.0@ == self.spec_name(),
            r@[3].0.0@ == "Encoding"@ && r@[3].1.0@ == "WinAnsiEncoding"@,
    {
        let mut v: Vec<(PdfName, PdfName)> = Vec::new();
        v.push((PdfName::new("Type"), PdfName::new("Font")));
        v.push((PdfName::new("Subtype"), PdfName::new("Type1")));
        v.push((PdfName::new("BaseFont"), PdfName::new(self.name)));
        v.push((PdfName::new("Encoding"), PdfName::new("WinAnsiEncoding")));
        v
    }

    /// The names of all 14 standard fonts.
    pub fn all_names() -> (r: Vec<&'static str>)
        ensures
            r@.len() == 14,
            forall|i: int| 0 <= i < 14 ==> #[trigger] r@[i]@ == standard14_name(i),
    {
        let mut v: Vec<&'static str> = Vec::new();
        let mut i: usize = 0;
        while i < STANDARD_14_COUNT
            invariant
                i <= 14,
                v@.len() == i,
                forall|k: int| 0 <= k < i ==> #[trigger] v@[k]@ == standard14_name(k),
            decreases 14 - i,
        {
            let (n, _) = standard14_entry(i);
            v.push(n);
            i = i + 1;
        }
        v
    }
}

/// Every name that `all_names` lists is one that `from_name` finds.
pub proof fn lemma_all_names_recognized()
    ensures
        forall|i: int| 0 <= i < 14 ==> is_standard14_name(#[trigger] standard14_name(i)),
{
    assert forall|i: int| 0 <= i < 14 implies is_standard14_name(#[trigger] standard14_name(i)) by {
        assert(standard14_name(i) == standard14_name(i));
    }
}

} // verus!
