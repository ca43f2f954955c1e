//! The glyph-name table: common glyph names with the characters they stand for.
use vstd::prelude::*;

verus! {

/// The number of entries of the glyph-name table.
pub const GLYPH_LIST_LEN: usize = 257;

/// The name (as UTF-8 bytes) of entry `i` of the glyph-name table.
pub open spec fn glyph_list_name(i: u16) -> Seq<u8> {
    match i {
        0u16 => seq![65u8],
        1u16 => seq![65u8, 69u8],
        2u16 => seq![65u8, 97u8, 99u8, 117u8, 116u8, 101u8],
        3u16 => seq![65u8, 99u8, 105u8, 114u8, 99u8, 117u8, 109u8, 102u8, 108u8, 101u8, 120u8],
        4u16 => seq![65u8, 100u8, 105u8, 101u8, 114u8, 101u8, 115u8, 105u8, 115u8],
        5u16 => seq![65u8, 103u8, 114u8, 97u8, 118u8, 101u8],
        6u16 => seq![65u8, 114u8, 105u8, 110u8, 103u8],
        7u16 => seq![65u8, 116u8, 105u8, 108u8, 100u8, 101u8],
        8u16 => seq![66u8],
        9u16 => seq![67u8],
        10u16 => seq![67u8, 99u8, 101u8, 100u8, 105u8, 108u8, 108u8, 97u8],
        11u16 => seq![68u8],
        12u16 => seq![69u8],
        13u16 => seq![69u8, 97u8, 99u8, 117u8, 116u8, 101u8],
        14u16 => seq![69u8, 99u8, 105u8, 114u8, 99u8, 117u8, 109u8, 102u8, 108u8, 101u8, 120u8],
        15u16 => seq![69u8, 100u8, 105u8, 101u8, 114u8, 101u8, 115u8, 105u8, 115u8],
        16u16 => seq![69u8, 103u8, 114u8, 97u8, 118u8, 101u8],
        17u16 => seq![69u8, 116u8, 104u8],
        18u16 => seq![70u8],
        19u16 => seq![71u8],
        20u16 => seq![72u8],
        21u16 => seq![73u8],
        22u16 => seq![73u8, 97u8, 99u8, 117u8, 116u8, 101u8],
        23u16 => seq![73u8, 99u8, 105u8, 114u8, 99u8, 117u8, 109u8, 102u8, 108u8, 101u8, 120u8],
        24u16 => seq![73u8, 100u8, 105u8, 101u8, 114u8, 101u8, 115u8, 105u8, 115u8],
        25u16 => seq![73u8, 103u8, 114u8, 97u8, 118u8, 101u8],
        26u16 => seq![74u8],
        27u16 => seq![75u8],
        28u16 => seq![76u8],
        29u16 => seq![76u8, 115u8, 108u8, 97u8, 115u8, 104u8],
        30u16 => seq![77u8],
        31u16 => seq![78u8],
        32u16 => seq![78u8, 116u8, 105u8, 108u8, 100u8, 101u8],
        33u16 => seq![79u8],
        34u16 => seq![79u8, 69u8],
        35u16 => seq![79u8, 97u8, 99u8, 117u8, 116u8, 101u8],
        36u16 => seq![79u8, 99u8, 105u8, 114u8, 99u8, 117u8, 109u8, 102u8, 108u8, 101u8, 120u8],
        37u16 => seq![79u8, 100u8, 105u8, 101u8, 114u8, 101u8, 115u8, 105u8, 115u8],
        38u16 => seq![79u8, 103u8, 114u8, 97u8, 118u8, 101u8],
        39u16 => seq![79u8, 115u8, 108u8, 97u8, 115u8, 104u8],
        40u16 => seq![79u8, 116u8, 105u8, 108u8, 100u8, 101u8],
        41u16 => seq![80u8],
        42u16 => seq![81u8],
        43u16 => seq![82u8],
        44u16 => seq![83u8],
        45u16 => seq![83u8, 99u8, 97u8, 114u8, 111u8, 110u8],
        46u16 => seq![84u8],
        47u16 => seq![84u8, 104u8, 111u8, 114u8, 110u8],
        48u16 => seq![85u8],
        49u16 => seq![85u8, 97u8, 99u8, 117u8, 116u8, 101u8],
        50u16 => seq![85u8, 99u8, 105u8, 114u8, 99u8, 117u8, 109u8, 102u8, 108u8, 101u8, 120u8],
        51u16 => seq![85u8, 100u8, 105u8, 101u8, 114u8, 101u8, 115u8, 105u8, 115u8],
        52u16 => seq![85u8, 103u8, 114u8, 97u8, 118u8, 101u8],
        53u16 => seq![86u8],
        54u16 => seq![87u8],
        55u16 => seq![88u8],
        56u16 => seq![89u8],
        57u16 => seq![89u8, 100u8, 105u8, 101u8, 114u8, 101u8, 115u8, 105u8, 115u8],
        58u16 => seq![90u8],
        59u16 => seq![90u8, 99u8, 97u8, 114u8, 111u8, 110u8],
        60u16 => seq![97u8],
        61u16 => seq![97u8, 97u8, 99u8, 117u8, 116u8, 101u8],
        62u16 => seq![97u8, 99u8, 105u8, 114u8, 99u8, 117u8, 109u8, 102u8, 108u8, 101u8, 120u8],
        63u16 => seq![97u8, 99u8, 117u8, 116u8, 101u8],
        64u16 => seq![97u8, 100u8, 105u8, 101u8, 114u8, 101u8, 115u8, 105u8, 115u8],
        65u16 => seq![97u8, 101u8],
        66u16 => seq![97u8, 103u8, 114u8, 97u8, 118u8, 101u8],
        67u16 => seq![97u8, 109u8, 112u8, 101u8, 114u8, 115u8, 97u8, 110u8, 100u8],
        68u16 => seq![97u8, 114u8, 105u8, 110u8, 103u8],
        69u16 => seq![97u8, 115u8, 99u8, 105u8, 105u8, 99u8, 105u8, 114u8, 99u8, 117u8, 109u8],
        70u16 => seq![97u8, 115u8, 99u8, 105u8, 105u8, 116u8, 105u8, 108u8, 100u8, 101u8],
        71u16 => seq![97u8, 115u8, 116u8, 101u8, 114u8, 105u8, 115u8, 107u8],
        72u16 => seq![97u8, 116u8],
        73u16 => seq![97u8, 116u8, 105u8, 108u8, 100u8, 101u8],
        74u16 => seq![98u8],
        75u16 => seq![98u8, 97u8, 99u8, 107u8, 115u8, 108u8, 97u8, 115u8, 104u8],
        76u16 => seq![98u8, 97u8, 114u8],
        77u16 => seq![98u8, 114u8, 97u8, 99u8, 101u8, 108u8, 101u8, 102u8, 116u8],
        78u16 => seq![98u8, 114u8, 97u8, 99u8, 101u8, 114u8, 105u8, 103u8, 104u8, 116u8],
        79u16 => seq![98u8, 114u8, 97u8, 99u8, 107u8, 101u8, 116u8, 108u8, 101u8, 102u8, 116u8],
        80u16 => seq![98u8, 114u8, 97u8, 99u8, 107u8, 101u8, 116u8, 114u8, 105u8, 103u8, 104u8, 116u8],
        81u16 => seq![98u8, 114u8, 101u8, 118u8, 101u8],
        82u16 => seq![98u8, 114u8, 111u8, 107u8, 101u8, 110u8, 98u8, 97u8, 114u8],
        83u16 => seq![98u8, 117u8, 108u8, 108u8, 101u8, 116u8],
        84u16 => seq![99u8],
        85u16 => seq![99u8, 97u8, 114u8, 111u8, 110u8],
        86u16 => seq![99u8, 99u8, 101u8, 100u8, 105u8, 108u8, 108u8, 97u8],
        87u16 => seq![99u8, 101u8, 100u8, 105u8, 108u8, 108u8, 97u8],
        88u16 => seq![99u8, 101u8, 110u8, 116u8],
        89u16 => seq![99u8, 105u8, 114u8, 99u8, 117u8, 109u8, 102u8, 108u8, 101u8, 120u8],
        90u16 => seq![99u8, 111u8, 108u8, 111u8, 110u8],
        91u16 => seq![99u8, 111u8, 109u8, 109u8, 97u8],
        92u16 => seq![99u8, 111u8, 112u8, 121u8, 114u8, 105u8, 103u8, 104u8, 116u8],
        93u16 => seq![99u8, 117u8, 114u8, 114u8, 101u8, 110u8, 99u8, 121u8],
        94u16 => seq![100u8],
        95u16 => seq![100u8, 97u8, 103u8, 103u8, 101u8, 114u8],
        96u16 => seq![100u8, 97u8, 103u8, 103u8, 101u8, 114u8, 100u8, 98u8, 108u8],
        97u16 => seq![100u8, 101u8, 103u8, 114u8, 101u8, 101u8],
        98u16 => seq![100u8, 105u8, 101u8, 114u8, 101u8, 115u8, 105u8, 115u8],
        99u16 => seq![100u8, 105u8, 118u8, 105u8, 100u8, 101u8],
        100u16 => seq![100u8, 111u8, 108u8, 108u8, 97u8, 114u8],
        101u16 => seq![100u8, 111u8, 116u8, 97u8, 99u8, 99u8, 101u8, 110u8, 116u8],
        102u16 => seq![100u8, 111u8, 116u8, 108u8, 101u8, 115u8, 115u8, 105u8],
        103u16 => seq![101u8],
        104u16 => seq![101u8, 97u8, 99u8, 117u8, 116u8, 101u8],
        105u16 => seq![101u8, 99u8, 105u8, 114u8, 99u8, 117u8, 109u8, 102u8, 108u8, 101u8, 120u8],
        106u16 => seq![101u8, 100u8, 105u8, 101u8, 114u8, 101u8, 115u8, 105u8, 115u8],
        107u16 => seq![101u8, 103u8, 114u8, 97u8, 118u8, 101u8],
        108u16 => seq![101u8, 105u8, 103u8, 104u8, 116u8],
        109u16 => seq![101u8, 108u8, 108u8, 105u8, 112u8, 115u8, 105u8, 115u8],
        110u16 => seq![101u8, 109u8, 100u8, 97u8, 115u8, 104u8],
        111u16 => seq![101u8, 110u8, 100u8, 97u8, 115u8, 104u8],
        112u16 => seq![101u8, 113u8, 117u8, 97u8, 108u8],
        113u16 => seq![101u8, 116u8, 104u8],
        114u16 => seq![101u8, 120u8, 99u8, 108u8, 97u8, 109u8],
        115u16 => seq![101u8, 120u8, 99u8, 108u8, 97u8, 109u8, 100u8, 111u8, 119u8, 110u8],
        116u16 => seq![102u8],
        117u16 => seq![102u8, 105u8],
        118u16 => seq![102u8, 105u8, 118u8, 101u8],
        119u16 => seq![102u8, 108u8],
        120u16 => seq![102u8, 108u8, 111u8, 114u8, 105u8, 110u8],
        121u16 => seq![102u8, 111u8, 117u8, 114u8],
        122u16 => seq![102u8, 114u8, 97u8, 99u8, 116u8, 105u8, 111u8, 110u8],
        123u16 => seq![103u8],
        124u16 => seq![103u8, 101u8, 114u8, 109u8, 97u8, 110u8, 100u8, 98u8, 108u8, 115u8],
        125u16 => seq![103u8, 114u8, 97u8, 118u8, 101u8],
        126u16 => seq![103u8, 114u8, 101u8, 97u8, 116u8, 101u8, 114u8],
        127u16 => seq![103u8, 117u8, 105u8, 108u8, 108u8, 101u8, 109u8, 111u8, 116u8, 108u8, 101u8, 102u8, 116u8],
        128u16 => seq![103u8, 117u8, 105u8, 108u8, 108u8, 101u8, 109u8, 111u8, 116u8, 114u8, 105u8, 103u8, 104u8, 116u8],
        129u16 => seq![103u8, 117u8, 105u8, 108u8, 115u8, 105u8, 110u8, 103u8, 108u8, 108u8, 101u8, 102u8, 116u8],
        130u16 => seq![103u8, 117u8, 105u8, 108u8, 115u8, 105u8, 110u8, 103u8, 108u8, 114u8, 105u8, 103u8, 104u8, 116u8],
        131u16 => seq![104u8],
        132u16 => seq![104u8, 117u8, 110u8, 103u8, 97u8, 114u8, 117u8, 109u8, 108u8, 97u8, 117u8, 116u8],
        133u16 => seq![104u8, 121u8, 112u8, 104u8, 101u8, 110u8],
        134u16 => seq![105u8],
        135u16 => seq![105u8, 97u8, 99u8, 117u8, 116u8, 101u8],
        136u16 => seq![105u8, 99u8, 105u8, 114u8, 99u8, 117u8, 109u8, 102u8, 108u8, 101u8, 120u8],
        137u16 => seq![105u8, 100u8, 105u8, 101u8, 114u8, 101u8, 115u8, 105u8, 115u8],
        138u16 => seq![105u8, 103u8, 114u8, 97u8, 118u8, 101u8],
        139u16 => seq![106u8],
        140u16 => seq![107u8],
        141u16 => seq![108u8],
        142u16 => seq![108u8, 101u8, 115u8, 115u8],
        143u16 => seq![108u8, 111u8, 103u8, 105u8, 99u8, 97u8, 108u8, 110u8, 111u8, 116u8],
        144u16 => seq![108u8, 115u8, 108u8, 97u8, 115u8, 104u8],
        145u16 => seq![109u8],
        146u16 => seq![109u8, 97u8, 99u8, 114u8, 111u8, 110u8],
        147u16 => seq![109u8, 105u8, 110u8, 117u8, 115u8],
        148u16 => seq![109u8, 117u8],
        149u16 => seq![109u8, 117u8, 108u8, 116u8, 105u8, 112u8, 108u8, 121u8],
        150u16 => seq![110u8],
        151u16 => seq![110u8, 105u8, 110u8, 101u8],
        152u16 => seq![110u8, 116u8, 105u8, 108u8, 100u8, 101u8],
        153u16 => seq![110u8, 117u8, 109u8, 98u8, 101u8, 114u8, 115u8, 105u8, 103u8, 110u8],
        154u16 => seq![111u8],
        155u16 => seq![111u8, 97u8, 99u8, 117u8, 116u8, 101u8],
        156u16 => seq![111u8, 99u8, 105u8, 114u8, 99u8, 117u8, 109u8, 102u8, 108u8, 101u8, 120u8],
        157u16 => seq![111u8, 100u8, 105u8, 101u8, 114u8, 101u8, 115u8, 105u8, 115u8],
        158u16 => seq![111u8, 101u8],
        159u16 => seq![111u8, 103u8, 111u8, 110u8, 101u8, 107u8],
        160u16 => seq![111u8, 103u8, 114u8, 97u8, 118u8, 101u8],
        161u16 => seq![111u8, 110u8, 101u8],
        162u16 => seq![111u8, 110u8, 101u8, 104u8, 97u8, 108u8, 102u8],
        163u16 => seq![111u8, 110u8, 101u8, 113u8, 117u8, 97u8, 114u8, 116u8, 101u8, 114u8],
        164u16 => seq![111u8, 110u8, 101u8, 115u8, 117u8, 112u8, 101u8, 114u8, 105u8, 111u8, 114u8],
        165u16 => seq![111u8, 114u8, 100u8, 102u8, 101u8, 109u8, 105u8, 110u8, 105u8, 110u8, 101u8],
        166u16 => seq![111u8, 114u8, 100u8, 109u8, 97u8, 115u8, 99u8, 117u8, 108u8, 105u8, 110u8, 101u8],
        167u16 => seq![111u8, 115u8, 108u8, 97u8, 115u8, 104u8],
        168u16 => seq![111u8, 116u8, 105u8, 108u8, 100u8, 101u8],
        169u16 => seq![112u8],
        170u16 => seq![112u8, 97u8, 114u8, 97u8, 103u8, 114u8, 97u8, 112u8, 104u8],
        171u16 => seq![112u8, 97u8, 114u8, 101u8, 110u8, 108u8, 101u8, 102u8, 116u8],
        172u16 => seq![112u8, 97u8, 114u8, 101u8, 110u8, 114u8, 105u8, 103u8, 104u8, 116u8],
        173u16 => seq![112u8, 101u8, 114u8, 99u8, 101u8, 110u8, 116u8],
        174u16 => seq![112u8, 101u8, 114u8, 105u8, 111u8, 100u8],
        175u16 => seq![112u8, 101u8, 114u8, 105u8, 111u8, 100u8, 99u8, 101u8, 110u8, 116u8, 101u8, 114u8, 101u8, 100u8],
        176u16 => seq![112u8, 101u8, 114u8, 116u8, 104u8, 111u8, 117u8, 115u8, 97u8, 110u8, 100u8],
        177u16 => seq![112u8, 108u8, 117u8, 115u8],
        178u16 => seq![112u8, 108u8, 117u8, 115u8, 109u8, 105u8, 110u8, 117u8, 115u8],
        179u16 => seq![113u8],
        180u16 => seq![113u8, 117u8, 101u8, 115u8, 116u8, 105u8, 111u8, 110u8],
        181u16 => seq![113u8, 117u8, 101u8, 115u8, 116u8, 105u8, 111u8, 110u8, 100u8, 111u8, 119u8, 110u8],
        182u16 => seq![113u8, 117u8, 111u8, 116u8, 101u8, 100u8, 98u8, 108u8],
        183u16 => seq![113u8, 117u8, 111u8, 116u8, 101u8, 100u8, 98u8, 108u8, 98u8, 97u8, 115u8, 101u8],
        184u16 => seq![113u8, 117u8, 111u8, 116u8, 101u8, 100u8, 98u8, 108u8, 108u8, 101u8, 102u8, 116u8],
        185u16 => seq![113u8, 117u8, 111u8, 116u8, 101u8, 100u8, 98u8, 108u8, 114u8, 105u8, 103u8, 104u8, 116u8],
        186u16 => seq![113u8, 117u8, 111u8, 116u8, 101u8, 108u8, 101u8, 102u8, 116u8],
        187u16 => seq![113u8, 117u8, 111u8, 116u8, 101u8, 114u8, 105u8, 103u8, 104u8, 116u8],
        188u16 => seq![113u8, 117u8, 111u8, 116u8, 101u8, 115u8, 105u8, 110u8, 103u8, 108u8, 98u8, 97u8, 115u8, 101u8],
        189u16 => seq![113u8, 117u8, 111u8, 116u8, 101u8, 115u8, 105u8, 110u8, 103u8, 108u8, 101u8],
        190u16 => seq![114u8],
        191u16 => seq![114u8, 101u8, 103u8, 105u8, 115u8, 116u8, 101u8, 114u8, 101u8, 100u8],
        192u16 => seq![114u8, 105u8, 110u8, 103u8],
        193u16 => seq![115u8],
        194u16 => seq![115u8, 99u8, 97u8, 114u8, 111u8, 110u8],
        195u16 => seq![115u8, 101u8, 99u8, 116u8, 105u8, 111u8, 110u8],
        196u16 => seq![115u8, 101u8, 109u8, 105u8, 99u8, 111u8, 108u8, 111u8, 110u8],
        197u16 => seq![115u8, 101u8, 118u8, 101u8, 110u8],
        198u16 => seq![115u8, 105u8, 120u8],
        199u16 => seq![115u8, 108u8, 97u8, 115u8, 104u8],
        200u16 => seq![115u8, 112u8, 97u8, 99u8, 101u8],
        201u16 => seq![115u8, 116u8, 101u8, 114u8, 108u8, 105u8, 110u8, 103u8],
        202u16 => seq![116u8],
        203u16 => seq![116u8, 104u8, 111u8, 114u8, 110u8],
        204u16 => seq![116u8, 104u8, 114u8, 101u8, 101u8],
        205u16 => seq![116u8, 104u8, 114u8, 101u8, 101u8, 113u8, 117u8, 97u8, 114u8, 116u8, 101u8, 114u8, 115u8],
        206u16 => seq![116u8, 104u8, 114u8, 101u8, 101u8, 115u8, 117u8, 112u8, 101u8, 114u8, 105u8, 111u8, 114u8],
        207u16 => seq![116u8, 105u8, 108u8, 100u8, 101u8],
        208u16 => seq![116u8, 114u8, 97u8, 100u8, 101u8, 109u8, 97u8, 114u8, 107u8],
        209u16 => seq![116u8, 119u8, 111u8],
        210u16 => seq![116u8, 119u8, 111u8, 115u8, 117u8, 112u8, 101u8, 114u8, 105u8, 111u8, 114u8],
        211u16 => seq![117u8],
        212u16 => seq![117u8, 97u8, 99u8, 117u8, 116u8, 101u8],
        213u16 => seq![117u8, 99u8, 105u8, 114u8, 99u8, 117u8, 109u8, 102u8, 108u8, 101u8, 120u8],
        214u16 => seq![117u8, 100u8, 105u8, 101u8, 114u8, 101u8, 115u8, 105u8, 115u8],
        215u16 => seq![117u8, 103u8, 114u8, 97u8, 118u8, 101u8],
        216u16 => seq![117u8, 110u8, 100u8, 101u8, 114u8, 115u8, 99u8, 111u8, 114u8, 101u8],
        217u16 => seq![118u8],
        218u16 => seq![119u8],
        219u16 => seq![120u8],
        220u16 => seq![121u8],
        221u16 => seq![121u8, 97u8, 99u8, 117u8, 116u8, 101u8],
        222u16 => seq![121u8, 100u8, 105u8, 101u8, 114u8, 101u8, 115u8, 105u8, 115u8],
        223u16 => seq![121u8, 101u8, 110u8],
        224u16 => seq![122u8],
        225u16 => seq![122u8, 99u8, 97u8, 114u8, 111u8, 110u8],
        226u16 => seq![122u8, 101u8, 114u8, 111u8],
        227u16 => seq![69u8, 117u8, 114u8, 111u8],
        228u16 => seq![68u8, 101u8, 108u8, 116u8, 97u8],
        229u16 => seq![79u8, 109u8, 101u8, 103u8, 97u8],
        230u16 => seq![80u8, 105u8],
        231u16 => seq![83u8, 105u8, 103u8, 109u8, 97u8],
        232u16 => seq![97u8, 108u8, 112u8, 104u8, 97u8],
        233u16 => seq![98u8, 101u8, 116u8, 97u8],
        234u16 => seq![103u8, 97u8, 109u8, 109u8, 97u8],
        235u16 => seq![100u8, 101u8, 108u8, 116u8, 97u8],
        236u16 => seq![101u8, 112u8, 115u8, 105u8, 108u8, 111u8, 110u8],
        237u16 => seq![116u8, 104u8, 101u8, 116u8, 97u8],
        238u16 => seq![108u8, 97u8, 109u8, 98u8, 100u8, 97u8],
        239u16 => seq![112u8, 105u8],
        240u16 => seq![115u8, 105u8, 103u8, 109u8, 97u8],
        241u16 => seq![116u8, 97u8, 117u8],
        242u16 => seq![112u8, 104u8, 105u8],
        243u16 => seq![111u8, 109u8, 101u8, 103u8, 97u8],
        244u16 => seq![105u8, 110u8, 102u8, 105u8, 110u8, 105u8, 116u8, 121u8],
        245u16 => seq![112u8, 97u8, 114u8, 116u8, 105u8, 97u8, 108u8, 100u8, 105u8, 102u8, 102u8],
        246u16 => seq![105u8, 110u8, 116u8, 101u8, 103u8, 114u8, 97u8, 108u8],
        247u16 => seq![112u8, 114u8, 111u8, 100u8, 117u8, 99u8, 116u8],
        248u16 => seq![115u8, 117u8, 109u8, 109u8, 97u8, 116u8, 105u8, 111u8, 110u8],
        249u16 => seq![114u8, 97u8, 100u8, 105u8, 99u8, 97u8, 108u8],
        250u16 => seq![97u8, 112u8, 112u8, 114u8, 111u8, 120u8, 101u8, 113u8, 117u8, 97u8, 108u8],
        251u16 => seq![110u8, 111u8, 116u8, 101u8, 113u8, 117u8, 97u8, 108u8],
        252u16 => seq![108u8, 101u8, 115u8, 115u8, 101u8, 113u8, 117u8, 97u8, 108u8],
        253u16 => seq![103u8, 114u8, 101u8, 97u8, 116u8, 101u8, 114u8, 101u8, 113u8, 117u8, 97u8, 108u8],
        254u16 => seq![108u8, 111u8, 122u8, 101u8, 110u8, 103u8, 101u8],
        255u16 => seq![110u8, 98u8, 115u8, 112u8, 97u8, 99u8, 101u8],
        256u16 => seq![115u8, 102u8, 116u8, 104u8, 121u8, 112u8, 104u8, 101u8, 110u8],
        _ => Seq::empty(),
    }
}

/// The character of entry `i` of the glyph-name table.
pub open spec fn glyph_list_char(i: u16) -> char {
    match i {
        0u16 => 'A',
        1u16 => '\u{00C6}',
        2u16 => '\u{00C1}',
        3u16 => '\u{00C2}',
        4u16 => '\u{00C4}',
        5u16 => '\u{00C0}',
        6u16 => '\u{00C5}',
        7u16 => '\u{00C3}',
        8u16 => 'B',
        9u16 => 'C',
        10u16 => '\u{00C7}',
        11u16 => 'D',
        12u16 => 'E',
        13u16 => '\u{00C9}',
        14u16 => '\u{00CA}',
        15u16 => '\u{00CB}',
        16u16 => '\u{00C8}',
        17u16 => '\u{00D0}',
        18u16 => 'F',
        19u16 => 'G',
        20u16 => 'H',
        21u16 => 'I',
        22u16 => '\u{00CD}',
        23u16 => '\u{00CE}',
        24u16 => '\u{00CF}',
        25u16 => '\u{00CC}',
        26u16 => 'J',
        27u16 => 'K',
        28u16 => 'L',
        29u16 => '\u{0141}',
        30u16 => 'M',
        31u16 => 'N',
        32u16 => '\u{00D1}',
        33u16 => 'O',
        34u16 => '\u{0152}',
        35u16 => '\u{00D3}',
        36u16 => '\u{00D4}',
        37u16 => '\u{00D6}',
        38u16 => '\u{00D2}',
        39u16 => '\u{00D8}',
        40u16 => '\u{00D5}',
        41u16 => 'P',
        42u16 => 'Q',
        43u16 => 'R',
        44u16 => 'S',
        45u16 => '\u{0160}',
        46u16 => 'T',
        47u16 => '\u{00DE}',
        48u16 => 'U',
        49u16 => '\u{00DA}',
        50u16 => '\u{00DB}',
        51u16 => '\u{00DC}',
        52u16 => '\u{00D9}',
        53u16 => 'V',
        54u16 => 'W',
        55u16 => 'X',
        56u16 => 'Y',
        57u16 => '\u{0178}',
        58u16 => 'Z',
        59u16 => '\u{017D}',
        60u16 => 'a',
        61u16 => '\u{00E1}',
        62u16 => '\u{00E2}',
        63u16 => '\u{00B4}',
        64u16 => '\u{00E4}',
        65u16 => '\u{00E6}',
        66u16 => '\u{00E0}',
        67u16 => '&',
        68u16 => '\u{00E5}',
        69u16 => '^',
        70u16 => '~',
        71u16 => '*',
        72u16 => '@',
        73u16 => '\u{00E3}',
        74u16 => 'b',
        75u16 => '\u{005C}',
        76u16 => '|',
        77u16 => '{',
        78u16 => '}',
        79u16 => '[',
        80u16 => ']',
        81u16 => '\u{02D8}',
        82u16 => '\u{00A6}',
        83u16 => '\u{2022}',
        84u16 => 'c',
        85u16 => '\u{02C7}',
        86u16 => '\u{00E7}',
        87u16 => '\u{00B8}',
        88u16 => '\u{00A2}',
        89u16 => '\u{02C6}',
        90u16 => ':',
        91u16 => ',',
        92u16 => '\u{00A9}',
        93u16 => '\u{00A4}',
        94u16 => 'd',
        95u16 => '\u{2020}',
        96u16 => '\u{2021}',
        97u16 => '\u{00B0}',
        98u16 => '\u{00A8}',
        99u16 => '\u{00F7}',
        100u16 => '$',
        101u16 => '\u{02D9}',
        102u16 => '\u{0131}',
        103u16 => 'e',
        104u16 => '\u{00E9}',
        105u16 => '\u{00EA}',
        106u16 => '\u{00EB}',
        107u16 => '\u{00E8}',
        108u16 => '8',
        109u16 => '\u{2026}',
        110u16 => '\u{2014}',
        111u16 => '\u{2013}',
        112u16 => '=',
        113u16 => '\u{00F0}',
        114u16 => '!',
        115u16 => '\u{00A1}',
        116u16 => 'f',
        117u16 => '\u{FB01}',
        118u16 => '5',
        119u16 => '\u{FB02}',
        120u16 => '\u{0192}',
        121u16 => '4',
        122u16 => '\u{2044}',
        123u16 => 'g',
        124u16 => '\u{00DF}',
        125u16 => '`',
        126u16 => '>',
        127u16 => '\u{00AB}',
        128u16 => '\u{00BB}',
        129u16 => '\u{2039}',
        130u16 => '\u{203A}',
        131u16 => 'h',
        132u16 => '\u{02DD}',
        133u16 => '-',
        134u16 => 'i',
        135u16 => '\u{00ED}',
        136u16 => '\u{00EE}',
        137u16 => '\u{00EF}',
        138u16 => '\u{00EC}',
        139u16 => 'j',
        140u16 => 'k',
        141u16 => 'l',
        142u16 => '<',
        143u16 => '\u{00AC}',
        144u16 => '\u{0142}',
        145u16 => 'm',
        146u16 => '\u{00AF}',
        147u16 => '\u{2212}',
        148u16 => '\u{00B5}',
        149u16 => '\u{00D7}',
        150u16 => 'n',
        151u16 => '9',
        152u16 => '\u{00F1}',
        153u16 => '#',
        154u16 => 'o',
        155u16 => '\u{00F3}',
        156u16 => '\u{00F4}',
        157u16 => '\u{00F6}',
        158u16 => '\u{0153}',
        159u16 => '\u{02DB}',
        160u16 => '\u{00F2}',
        161u16 => '1',
        162u16 => '\u{00BD}',
        163u16 => '\u{00BC}',
        164u16 => '\u{00B9}',
        165u16 => '\u{00AA}',
        166u16 => '\u{00BA}',
        167u16 => '\u{00F8}',
        168u16 => '\u{00F5}',
        169u16 => 'p',
        170u16 => '\u{00B6}',
        171u16 => '(',
        172u16 => ')',
        173u16 => '%',
        174u16 => '.',
        175u16 => '\u{00B7}',
        176u16 => '\u{2030}',
        177u16 => '+',
        178u16 => '\u{00B1}',
        179u16 => 'q',
        180u16 => '?',
        181u16 => '\u{00BF}',
        182u16 => '"',
        183u16 => '\u{201E}',
        184u16 => '\u{201C}',
        185u16 => '\u{201D}',
        186u16 => '\u{2018}',
        187u16 => '\u{2019}',
        188u16 => '\u{201A}',
        189u16 => '\u{0027}',
        190u16 => 'r',
        191u16 => '\u{00AE}',
        192u16 => '\u{02DA}',
        193u16 => 's',
        194u16 => '\u{0161}',
        195u16 => '\u{00A7}',
        196u16 => ';',
        197u16 => '7',
        198u16 => '6',
        199u16 => '/',
        200u16 => ' ',
        201u16 => '\u{00A3}',
        202u16 => 't',
        203u16 => '\u{00FE}',
        204u16 => '3',
        205u16 => '\u{00BE}',
        206u16 => '\u{00B3}',
        207u16 => '\u{02DC}',
        208u16 => '\u{2122}',
        209u16 => '2',
        210u16 => '\u{00B2}',
        211u16 => 'u',
        212u16 => '\u{00FA}',
        213u16 => '\u{00FB}',
        214u16 => '\u{00FC}',
        215u16 => '\u{00F9}',
        216u16 => '_',
        217u16 => 'v',
        218u16 => 'w',
        219u16 => 'x',
        220u16 => 'y',
        221u16 => '\u{00FD}',
        222u16 => '\u{00FF}',
        223u16 => '\u{00A5}',
        224u16 => 'z',
        225u16 => '\u{017E}',
        226u16 => '0',
        227u16 => '\u{20AC}',
        228u16 => '\u{0394}',
        229u16 => '\u{2126}',
        230u16 => '\u{03A0}',
        231u16 => '\u{03A3}',
        232u16 => '\u{03B1}',
        233u16 => '\u{03B2}',
        234u16 => '\u{03B3}',
        235u16 => '\u{03B4}',
        236u16 => '\u{03B5}',
        237u16 => '\u{03B8}',
        238u16 => '\u{03BB}',
        239u16 => '\u{03C0}',
        240u16 => '\u{03C3}',
        241u16 => '\u{03C4}',
        242u16 => '\u{03C6}',
        243u16 => '\u{03C9}',
        244u16 => '\u{221E}',
        245u16 => '\u{2202}',
        246u16 => '\u{222B}',
        247u16 => '\u{220F}',
        248u16 => '\u{2211}',
        249u16 => '\u{221A}',
        250u16 => '\u{2248}',
        251u16 => '\u{2260}',
        252u16 => '\u{2264}',
        253u16 => '\u{2265}',
        254u16 => '\u{25CA}',
        255u16 => '\u{00A0}',
        256u16 => '\u{00AD}',
        _ => '\u{0}',
    }
}

fn glyph_list_entry(i: usize) -> (r: (&'static [u8], char))
    requires
        i < GLYPH_LIST_LEN,
    ensures
        r.0@ == glyph_list_name(i as u16),
        r.1 == glyph_list_char(i as u16),
{
    match i {
        0 => (&[65u8], 'A'),
        1 => (&[65u8, 69u8], '\u{00C6}'),
        2 => (&[65u8, 97u8, 99u8, 117u8, 116u8, 101u8], '\u{00C1}'),
        3 => (&[65u8, 99u8, 105u8, 114u8, 99u8, 117u8, 109u8, 102u8, 108u8, 101u8, 120u8], '\u{00C2}'),
        4 => (&[65u8, 100u8, 105u8, 101u8, 114u8, 101u8, 115u8, 105u8, 115u8], '\u{00C4}'),
        5 => (&[65u8, 103u8, 114u8, 97u8, 118u8, 101u8], '\u{00C0}'),
        6 => (&[65u8, 114u8, 105u8, 110u8, 103u8], '\u{00C5}'),
        7 => (&[65u8, 116u8, 105u8, 108u8, 100u8, 101u8], '\u{00C3}'),
        8 => (&[66u8], 'B'),
        9 => (&[67u8], 'C'),
        10 => (&[67u8, 99u8, 101u8, 100u8, 105u8, 108u8, 108u8, 97u8], '\u{00C7}'),
        11 => (&[68u8], 'D'),
        12 => (&[69u8], 'E'),
        13 => (&[69u8, 97u8, 99u8, 117u8, 116u8, 101u8], '\u{00C9}'),
        14 => (&[69u8, 99u8, 105u8, 114u8, 99u8, 117u8, 109u8, 102u8, 108u8, 101u8, 120u8], '\u{00CA}'),
        15 => (&[69u8, 100u8, 105u8, 101u8, 114u8, 101u8, 115u8, 105u8, 115u8], '\u{00CB}'),
        16 => (&[69u8, 103u8, 114u8, 97u8, 118u8, 101u8], '\u{00C8}'),
        17 => (&[69u8, 116u8, 104u8], '\u{00D0}'),
        18 => (&[70u8], 'F'),
        19 => (&[71u8], 'G'),
        20 => (&[72u8], 'H'),
        21 => (&[73u8], 'I'),
        22 => (&[73u8, 97u8, 99u8, 117u8, 116u8, 101u8], '\u{00CD}'),
        23 => (&[73u8, 99u8, 105u8, 114u8, 99u8, 117u8, 109u8, 102u8, 108u8, 101u8, 120u8], '\u{00CE}'),
        24 => (&[73u8, 100u8, 105u8, 101u8, 114u8, 101u8, 115u8, 105u8, 115u8], '\u{00CF}'),
        25 => (&[73u8, 103u8, 114u8, 97u8, 118u8, 101u8], '\u{00CC}'),
        26 => (&[74u8], 'J'),
        27 => (&[75u8], 'K'),
        28 => (&[76u8], 'L'),
        29 => (&[76u8, 115u8, 108u8, 97u8, 115u8, 104u8], '\u{0141}'),
        30 => (&[77u8], 'M'),
        31 => (&[78u8], 'N'),
        32 => (&[78u8, 116u8, 105u8, 108u8, 100u8, 101u8], '\u{00D1}'),
        33 => (&[79u8], 'O'),
        34 => (&[79u8, 69u8], '\u{0152}'),
        35 => (&[79u8, 97u8, 99u8, 117u8, 116u8, 101u8], '\u{00D3}'),
        36 => (&[79u8, 99u8, 105u8, 114u8, 99u8, 117u8, 109u8, 102u8, 108u8, 101u8, 120u8], '\u{00D4}'),
        37 => (&[79u8, 100u8, 105u8, 101u8, 114u8, 101u8, 115u8, 105u8, 115u8], '\u{00D6}'),
        38 => (&[79u8, 103u8, 114u8, 97u8, 118u8, 101u8], '\u{00D2}'),
        39 => (&[79u8, 115u8, 108u8, 97u8, 115u8, 104u8], '\u{00D8}'),
        40 => (&[79u8, 116u8, 105u8, 108u8, 100u8, 101u8], '\u{00D5}'),
        41 => (&[80u8], 'P'),
        42 => (&[81u8], 'Q'),
        43 => (&[82u8], 'R'),
        44 => (&[83u8], 'S'),
        45 => (&[83u8, 99u8, 97u8, 114u8, 111u8, 110u8], '\u{0160}'),
        46 => (&[84u8], 'T'),
        47 => (&[84u8, 104u8, 111u8, 114u8, 110u8], '\u{00DE}'),
        48 => (&[85u8], 'U'),
        49 => (&[85u8, 97u8, 99u8, 117u8, 116u8, 101u8], '\u{00DA}'),
        50 => (&[85u8, 99u8, 105u8, 114u8, 99u8, 117u8, 109u8, 102u8, 108u8, 101u8, 120u8], '\u{00DB}'),
        51 => (&[85u8, 100u8, 105u8, 101u8, 114u8, 101u8, 115u8, 105u8, 115u8], '\u{00DC}'),
        52 => (&[85u8, 103u8, 114u8, 97u8, 118u8, 101u8], '\u{00D9}'),
        53 => (&[86u8], 'V'),
        54 => (&[87u8], 'W'),
        55 => (&[88u8], 'X'),
        56 => (&[89u8], 'Y'),
        57 => (&[89u8, 100u8, 105u8, 101u8, 114u8, 101u8, 115u8, 105u8, 115u8], '\u{0178}'),
        58 => (&[90u8], 'Z'),
        59 => (&[90u8, 99u8, 97u8, 114u8, 111u8, 110u8], '\u{017D}'),
        60 => (&[97u8], 'a'),
        61 => (&[97u8, 97u8, 99u8, 117u8, 116u8, 101u8], '\u{00E1}'),
        62 => (&[97u8, 99u8, 105u8, 114u8, 99u8, 117u8, 109u8, 102u8, 108u8, 101u8, 120u8], '\u{00E2}'),
        63 => (&[97u8, 99u8, 117u8, 116u8, 101u8], '\u{00B4}'),
        64 => (&[97u8, 100u8, 105u8, 101u8, 114u8, 101u8, 115u8, 105u8, 115u8], '\u{00E4}'),
        65 => (&[97u8, 101u8], '\u{00E6}'),
        66 => (&[97u8, 103u8, 114u8, 97u8, 118u8, 101u8], '\u{00E0}'),
        67 => (&[97u8, 109u8, 112u8, 101u8, 114u8, 115u8, 97u8, 110u8, 100u8], '&'),
        68 => (&[97u8, 114u8, 105u8, 110u8, 103u8], '\u{00E5}'),
        69 => (&[97u8, 115u8, 99u8, 105u8, 105u8, 99u8, 105u8, 114u8, 99u8, 117u8, 109u8], '^'),
        70 => (&[97u8, 115u8, 99u8, 105u8, 105u8, 116u8, 105u8, 108u8, 100u8, 101u8], '~'),
        71 => (&[97u8, 115u8, 116u8, 101u8, 114u8, 105u8, 115u8, 107u8], '*'),
        72 => (&[97u8, 116u8], '@'),
        73 => (&[97u8, 116u8, 105u8, 108u8, 100u8, 101u8], '\u{00E3}'),
        74 => (&[98u8], 'b'),
        75 => (&[98u8, 97u8, 99u8, 107u8, 115u8, 108u8, 97u8, 115u8, 104u8], '\u{005C}'),
        76 => (&[98u8, 97u8, 114u8], '|'),
        77 => (&[98u8, 114u8, 97u8, 99u8, 101u8, 108u8, 101u8, 102u8, 116u8], '{'),
        78 => (&[98u8, 114u8, 97u8, 99u8, 101u8, 114u8, 105u8, 103u8, 104u8, 116u8], '}'),
        79 => (&[98u8, 114u8, 97u8, 99u8, 107u8, 101u8, 116u8, 108u8, 101u8, 102u8, 116u8], '['),
        80 => (&[98u8, 114u8, 97u8, 99u8, 107u8, 101u8, 116u8, 114u8, 105u8, 103u8, 104u8, 116u8], ']'),
        81 => (&[98u8, 114u8, 101u8, 118u8, 101u8], '\u{02D8}'),
        82 => (&[98u8, 114u8, 111u8, 107u8, 101u8, 110u8, 98u8, 97u8, 114u8], '\u{00A6}'),
        83 => (&[98u8, 117u8, 108u8, 108u8, 101u8, 116u8], '\u{2022}'),
        84 => (&[99u8], 'c'),
        85 => (&[99u8, 97u8, 114u8, 111u8, 110u8], '\u{02C7}'),
        86 => (&[99u8, 99u8, 101u8, 100u8, 105u8, 108u8, 108u8, 97u8], '\u{00E7}'),
        87 => (&[99u8, 101u8, 100u8, 105u8, 108u8, 108u8, 97u8], '\u{00B8}'),
        88 => (&[99u8, 101u8, 110u8, 116u8], '\u{00A2}'),
        89 => (&[99u8, 105u8, 114u8, 99u8, 117u8, 109u8, 102u8, 108u8, 101u8, 120u8], '\u{02C6}'),
        90 => (&[99u8, 111u8, 108u8, 111u8, 110u8], ':'),
        91 => (&[99u8, 111u8, 109u8, 109u8, 97u8], ','),
        92 => (&[99u8, 111u8, 112u8, 121u8, 114u8, 105u8, 103u8, 104u8, 116u8], '\u{00A9}'),
        93 => (&[99u8, 117u8, 114u8, 114u8, 101u8, 110u8, 99u8, 121u8], '\u{00A4}'),
        94 => (&[100u8], 'd'),
        95 => (&[100u8, 97u8, 103u8, 103u8, 101u8, 114u8], '\u{2020}'),
        96 => (&[100u8, 97u8, 103u8, 103u8, 101u8, 114u8, 100u8, 98u8, 108u8], '\u{2021}'),
        97 => (&[100u8, 101u8, 103u8, 114u8, 101u8, 101u8], '\u{00B0}'),
        98 => (&[100u8, 105u8, 101u8, 114u8, 101u8, 115u8, 105u8, 115u8], '\u{00A8}'),
        99 => (&[100u8, 105u8, 118u8, 105u8, 100u8, 101u8], '\u{00F7}'),
        100 => (&[100u8, 111u8, 108u8, 108u8, 97u8, 114u8], '$'),
        101 => (&[100u8, 111u8, 116u8, 97u8, 99u8, 99u8, 101u8, 110u8, 116u8], '\u{02D9}'),
        102 => (&[100u8, 111u8, 116u8, 108u8, 101u8, 115u8, 115u8, 105u8], '\u{0131}'),
        103 => (&[101u8], 'e'),
        104 => (&[101u8, 97u8, 99u8, 117u8, 116u8, 101u8], '\u{00E9}'),
        105 => (&[101u8, 99u8, 105u8, 114u8, 99u8, 117u8, 109u8, 102u8, 108u8, 101u8, 120u8], '\u{00EA}'),
        106 => (&[101u8, 100u8, 105u8, 101u8, 114u8, 101u8, 115u8, 105u8, 115u8], '\u{00EB}'),
        107 => (&[101u8, 103u8, 114u8, 97u8, 118u8, 101u8], '\u{00E8}'),
        108 => (&[101u8, 105u8, 103u8, 104u8, 116u8], '8'),
        109 => (&[101u8, 108u8, 108u8, 105u8, 112u8, 115u8, 105u8, 115u8], '\u{2026}'),
        110 => (&[101u8, 109u8, 100u8, 97u8, 115u8, 104u8], '\u{2014}'),
        111 => (&[101u8, 110u8, 100u8, 97u8, 115u8, 104u8], '\u{2013}'),
        112 => (&[101u8, 113u8, 117u8, 97u8, 108u8], '='),
        113 => (&[101u8, 116u8, 104u8], '\u{00F0}'),
        114 => (&[101u8, 120u8, 99u8, 108u8, 97u8, 109u8], '!'),
        115 => (&[101u8, 120u8, 99u8, 108u8, 97u8, 109u8, 100u8, 111u8, 119u8, 110u8], '\u{00A1}'),
        116 => (&[102u8], 'f'),
        117 => (&[102u8, 105u8], '\u{FB01}'),
        118 => (&[102u8, 105u8, 118u8, 101u8], '5'),
        119 => (&[102u8, 108u8], '\u{FB02}'),
        120 => (&[102u8, 108u8, 111u8, 114u8, 105u8, 110u8], '\u{0192}'),
        121 => (&[102u8, 111u8, 117u8, 114u8], '4'),
        122 => (&[102u8, 114u8, 97u8, 99u8, 116u8, 105u8, 111u8, 110u8], '\u{2044}'),
        123 => (&[103u8], 'g'),
        124 => (&[103u8, 101u8, 114u8, 109u8, 97u8, 110u8, 100u8, 98u8, 108u8, 115u8], '\u{00DF}'),
        125 => (&[103u8, 114u8, 97u8, 118u8, 101u8], '`'),
        126 => (&[103u8, 114u8, 101u8, 97u8, 116u8, 101u8, 114u8], '>'),
        127 => (&[103u8, 117u8, 105u8, 108u8, 108u8, 101u8, 109u8, 111u8, 116u8, 108u8, 101u8, 102u8, 116u8], '\u{00AB}'),
        128 => (&[103u8, 117u8, 105u8, 108u8, 108u8, 101u8, 109u8, 111u8, 116u8, 114u8, 105u8, 103u8, 104u8, 116u8], '\u{00BB}'),
        129 => (&[103u8, 117u8, 105u8, 108u8, 115u8, 105u8, 110u8, 103u8, 108u8, 108u8, 101u8, 102u8, 116u8], '\u{2039}'),
        130 => (&[103u8, 117u8, 105u8, 108u8, 115u8, 105u8, 110u8, 103u8, 108u8, 114u8, 105u8, 103u8, 104u8, 116u8], '\u{203A}'),
        131 => (&[104u8], 'h'),
        132 => (&[104u8, 117u8, 110u8, 103u8, 97u8, 114u8, 117u8, 109u8, 108u8, 97u8, 117u8, 116u8], '\u{02DD}'),
        133 => (&[104u8, 121u8, 112u8, 104u8, 101u8, 110u8], '-'),
        134 => (&[105u8], 'i'),
        135 => (&[105u8, 97u8, 99u8, 117u8, 116u8, 101u8], '\u{00ED}'),
        136 => (&[105u8, 99u8, 105u8, 114u8, 99u8, 117u8, 109u8, 102u8, 108u8, 101u8, 120u8], '\u{00EE}'),
        137 => (&[105u8, 100u8, 105u8, 101u8, 114u8, 101u8, 115u8, 105u8, 115u8], '\u{00EF}'),
        138 => (&[105u8, 103u8, 114u8, 97u8, 118u8, 101u8], '\u{00EC}'),
        139 => (&[106u8], 'j'),
        140 => (&[107u8], 'k'),
        141 => (&[108u8], 'l'),
        142 => (&[108u8, 101u8, 115u8, 115u8], '<'),
        143 => (&[108u8, 111u8, 103u8, 105u8, 99u8, 97u8, 108u8, 110u8, 111u8, 116u8], '\u{00AC}'),
        144 => (&[108u8, 115u8, 108u8, 97u8, 115u8, 104u8], '\u{0142}'),
        145 => (&[109u8], 'm'),
        146 => (&[109u8, 97u8, 99u8, 114u8, 111u8, 110u8], '\u{00AF}'),
        147 => (&[109u8, 105u8, 110u8, 117u8, 115u8], '\u{2212}'),
        148 => (&[109u8, 117u8], '\u{00B5}'),
        149 => (&[109u8, 117u8, 108u8, 116u8, 105u8, 112u8, 108u8, 121u8], '\u{00D7}'),
        150 => (&[110u8], 'n'),
        151 => (&[110u8, 105u8, 110u8, 101u8], '9'),
        152 => (&[110u8, 116u8, 105u8, 108u8, 100u8, 101u8], '\u{00F1}'),
        153 => (&[110u8, 117u8, 109u8, 98u8, 101u8, 114u8, 115u8, 105u8, 103u8, 110u8], '#'),
        154 => (&[111u8], 'o'),
        155 => (&[111u8, 97u8, 99u8, 117u8, 116u8, 101u8], '\u{00F3}'),
        156 => (&[111u8, 99u8, 105u8, 114u8, 99u8, 117u8, 109u8, 102u8, 108u8, 101u8, 120u8], '\u{00F4}'),
        157 => (&[111u8, 100u8, 105u8, 101u8, 114u8, 101u8, 115u8, 105u8, 115u8], '\u{00F6}'),
        158 => (&[111u8, 101u8], '\u{0153}'),
        159 => (&[111u8, 103u8, 111u8, 110u8, 101u8, 107u8], '\u{02DB}'),
        160 => (&[111u8, 103u8, 114u8, 97u8, 118u8, 101u8], '\u{00F2}'),
        161 => (&[111u8, 110u8, 101u8], '1'),
        162 => (&[111u8, 110u8, 101u8, 104u8, 97u8, 108u8, 102u8], '\u{00BD}'),
        163 => (&[111u8, 110u8, 101u8, 113u8, 117u8, 97u8, 114u8, 116u8, 101u8, 114u8], '\u{00BC}'),
        164 => (&[111u8, 110u8, 101u8, 115u8, 117u8, 112u8, 101u8, 114u8, 105u8, 111u8, 114u8], '\u{00B9}'),
        165 => (&[111u8, 114u8, 100u8, 102u8, 101u8, 109u8, 105u8, 110u8, 105u8, 110u8, 101u8], '\u{00AA}'),
        166 => (&[111u8, 114u8, 100u8, 109u8, 97u8, 115u8, 99u8, 117u8, 108u8, 105u8, 110u8, 101u8], '\u{00BA}'),
        167 => (&[111u8, 115u8, 108u8, 97u8, 115u8, 104u8], '\u{00F8}'),
        168 => (&[111u8, 116u8, 105u8, 108u8, 100u8, 101u8], '\u{00F5}'),
        169 => (&[112u8], 'p'),
        170 => (&[112u8, 97u8, 114u8, 97u8, 103u8, 114u8, 97u8, 112u8, 104u8], '\u{00B6}'),
        171 => (&[112u8, 97u8, 114u8, 101u8, 110u8, 108u8, 101u8, 102u8, 116u8], '('),
        172 => (&[112u8, 97u8, 114u8, 101u8, 110u8, 114u8, 105u8, 103u8, 104u8, 116u8], ')'),
        173 => (&[112u8, 101u8, 114u8, 99u8, 101u8, 110u8, 116u8], '%'),
        174 => (&[112u8, 101u8, 114u8, 105u8, 111u8, 100u8], '.'),
        175 => (&[112u8, 101u8, 114u8, 105u8, 111u8, 100u8, 99u8, 101u8, 110u8, 116u8, 101u8, 114u8, 101u8, 100u8], '\u{00B7}'),
        176 => (&[112u8, 101u8, 114u8, 116u8, 104u8, 111u8, 117u8, 115u8, 97u8, 110u8, 100u8], '\u{2030}'),
        177 => (&[112u8, 108u8, 117u8, 115u8], '+'),
        178 => (&[112u8, 108u8, 117u8, 115u8, 109u8, 105u8, 110u8, 117u8, 115u8], '\u{00B1}'),
        179 => (&[113u8], 'q'),
        180 => (&[113u8, 117u8, 101u8, 115u8, 116u8, 105u8, 111u8, 110u8], '?'),
        181 => (&[113u8, 117u8, 101u8, 115u8, 116u8, 105u8, 111u8, 110u8, 100u8, 111u8, 119u8, 110u8], '\u{00BF}'),
        182 => (&[113u8, 117u8, 111u8, 116u8, 101u8, 100u8, 98u8, 108u8], '"'),
        183 => (&[113u8, 117u8, 111u8, 116u8, 101u8, 100u8, 98u8, 108u8, 98u8, 97u8, 115u8, 101u8], '\u{201E}'),
        184 => (&[113u8, 117u8, 111u8, 116u8, 101u8, 100u8, 98u8, 108u8, 108u8, 101u8, 102u8, 116u8], '\u{201C}'),
        185 => (&[113u8, 117u8, 111u8, 116u8, 101u8, 100u8, 98u8, 108u8, 114u8, 105u8, 103u8, 104u8, 116u8], '\u{201D}'),
        186 => (&[113u8, 117u8, 111u8, 116u8, 101u8, 108u8, 101u8, 102u8, 116u8], '\u{2018}'),
        187 => (&[113u8, 117u8, 111u8, 116u8, 101u8, 114u8, 105u8, 103u8, 104u8, 116u8], '\u{2019}'),
        188 => (&[113u8, 117u8, 111u8, 116u8, 101u8, 115u8, 105u8, 110u8, 103u8, 108u8, 98u8, 97u8, 115u8, 101u8], '\u{201A}'),
        189 => (&[113u8, 117u8, 111u8, 116u8, 101u8, 115u8, 105u8, 110u8, 103u8, 108u8, 101u8], '\u{0027}'),
        190 => (&[114u8], 'r'),
        191 => (&[114u8, 101u8, 103u8, 105u8, 115u8, 116u8, 101u8, 114u8, 101u8, 100u8], '\u{00AE}'),
        192 => (&[114u8, 105u8, 110u8, 103u8], '\u{02DA}'),
        193 => (&[115u8], 's'),
        194 => (&[115u8, 99u8, 97u8, 114u8, 111u8, 110u8], '\u{0161}'),
        195 => (&[115u8, 101u8, 99u8, 116u8, 105u8, 111u8, 110u8], '\u{00A7}'),
        196 => (&[115u8, 101u8, 109u8, 105u8, 99u8, 111u8, 108u8, 111u8, 110u8], ';'),
        197 => (&[115u8, 101u8, 118u8, 101u8, 110u8], '7'),
        198 => (&[115u8, 105u8, 120u8], '6'),
        199 => (&[115u8, 108u8, 97u8, 115u8, 104u8], '/'),
        200 => (&[115u8, 112u8, 97u8, 99u8, 101u8], ' '),
        201 => (&[115u8, 116u8, 101u8, 114u8, 108u8, 105u8, 110u8, 103u8], '\u{00A3}'),
        202 => (&[116u8], 't'),
        203 => (&[116u8, 104u8, 111u8, 114u8, 110u8], '\u{00FE}'),
        204 => (&[116u8, 104u8, 114u8, 101u8, 101u8], '3'),
        205 => (&[116u8, 104u8, 114u8, 101u8, 101u8, 113u8, 117u8, 97u8, 114u8, 116u8, 101u8, 114u8, 115u8], '\u{00BE}'),
        206 => (&[116u8, 104u8, 114u8, 101u8, 101u8, 115u8, 117u8, 112u8, 101u8, 114u8, 105u8, 111u8, 114u8], '\u{00B3}'),
        207 => (&[116u8, 105u8, 108u8, 100u8, 101u8], '\u{02DC}'),
        208 => (&[116u8, 114u8, 97u8, 100u8, 101u8, 109u8, 97u8, 114u8, 107u8], '\u{2122}'),
        209 => (&[116u8, 119u8, 111u8], '2'),
        210 => (&[116u8, 119u8, 111u8, 115u8, 117u8, 112u8, 101u8, 114u8, 105u8, 111u8, 114u8], '\u{00B2}'),
        211 => (&[117u8], 'u'),
        212 => (&[117u8, 97u8, 99u8, 117u8, 116u8, 101u8], '\u{00FA}'),
        213 => (&[117u8, 99u8, 105u8, 114u8, 99u8, 117u8, 109u8, 102u8, 108u8, 101u8, 120u8], '\u{00FB}'),
        214 => (&[117u8, 100u8, 105u8, 101u8, 114u8, 101u8, 115u8, 105u8, 115u8], '\u{00FC}'),
        215 => (&[117u8, 103u8, 114u8, 97u8, 118u8, 101u8], '\u{00F9}'),
        216 => (&[117u8, 110u8, 100u8, 101u8, 114u8, 115u8, 99u8, 111u8, 114u8, 101u8], '_'),
        217 => (&[118u8], 'v'),
        218 => (&[119u8], 'w'),
        219 => (&[120u8], 'x'),
        220 => (&[121u8], 'y'),
        221 => (&[121u8, 97u8, 99u8, 117u8, 116u8, 101u8], '\u{00FD}'),
        222 => (&[121u8, 100u8, 105u8, 101u8, 114u8, 101u8, 115u8, 105u8, 115u8], '\u{00FF}'),
        223 => (&[121u8, 101u8, 110u8], '\u{00A5}'),
        224 => (&[122u8], 'z'),
        225 => (&[122u8, 99u8, 97u8, 114u8, 111u8, 110u8], '\u{017E}'),
        226 => (&[122u8, 101u8, 114u8, 111u8], '0'),
        227 => (&[69u8, 117u8, 114u8, 111u8], '\u{20AC}'),
        228 => (&[68u8, 101u8, 108u8, 116u8, 97u8], '\u{0394}'),
        229 => (&[79u8, 109u8, 101u8, 103u8, 97u8], '\u{2126}'),
        230 => (&[80u8, 105u8], '\u{03A0}'),
        231 => (&[83u8, 105u8, 103u8, 109u8, 97u8], '\u{03A3}'),
        232 => (&[97u8, 108u8, 112u8, 104u8, 97u8], '\u{03B1}'),
        233 => (&[98u8, 101u8, 116u8, 97u8], '\u{03B2}'),
        234 => (&[103u8, 97u8, 109u8, 109u8, 97u8], '\u{03B3}'),
        235 => (&[100u8, 101u8, 108u8, 116u8, 97u8], '\u{03B4}'),
        236 => (&[101u8, 112u8, 115u8, 105u8, 108u8, 111u8, 110u8], '\u{03B5}'),
        237 => (&[116u8, 104u8, 101u8, 116u8, 97u8], '\u{03B8}'),
        238 => (&[108u8, 97u8, 109u8, 98u8, 100u8, 97u8], '\u{03BB}'),
        239 => (&[112u8, 105u8], '\u{03C0}'),
        240 => (&[115u8, 105u8, 103u8, 109u8, 97u8], '\u{03C3}'),
        241 => (&[116u8, 97u8, 117u8], '\u{03C4}'),
        242 => (&[112u8, 104u8, 105u8], '\u{03C6}'),
        243 => (&[111u8, 109u8, 101u8, 103u8, 97u8], '\u{03C9}'),
        244 => (&[105u8, 110u8, 102u8, 105u8, 110u8, 105u8, 116u8, 121u8], '\u{221E}'),
        245 => (&[112u8, 97u8, 114u8, 116u8, 105u8, 97u8, 108u8, 100u8, 105u8, 102u8, 102u8], '\u{2202}'),
        246 => (&[105u8, 110u8, 116u8, 101u8, 103u8, 114u8, 97u8, 108u8], '\u{222B}'),
        247 => (&[112u8, 114u8, 111u8, 100u8, 117u8, 99u8, 116u8], '\u{220F}'),
        248 => (&[115u8, 117u8, 109u8, 109u8, 97u8, 116u8, 105u8, 111u8, 110u8], '\u{2211}'),
        249 => (&[114u8, 97u8, 100u8, 105u8, 99u8, 97u8, 108u8], '\u{221A}'),
        250 => (&[97u8, 112u8, 112u8, 114u8, 111u8, 120u8, 101u8, 113u8, 117u8, 97u8, 108u8], '\u{2248}'),
        251 => (&[110u8, 111u8, 116u8, 101u8, 113u8, 117u8, 97u8, 108u8], '\u{2260}'),
        252 => (&[108u8, 101u8, 115u8, 115u8, 101u8, 113u8, 117u8, 97u8, 108u8], '\u{2264}'),
        253 => (&[103u8, 114u8, 101u8, 97u8, 116u8, 101u8, 114u8, 101u8, 113u8, 117u8, 97u8, 108u8], '\u{2265}'),
        254 => (&[108u8, 111u8, 122u8, 101u8, 110u8, 103u8, 101u8], '\u{25CA}'),
        255 => (&[110u8, 98u8, 115u8, 112u8, 97u8, 99u8, 101u8], '\u{00A0}'),
        _ => (&[115u8, 102u8, 116u8, 104u8, 121u8, 112u8, 104u8, 101u8, 110u8], '\u{00AD}'),
    }
}


/// Whether the bytes spell out `name`, one byte per character.
pub open spec fn spells(bytes: Seq<u8>, name: Seq<char>) -> bool {
    bytes.len() == name.len() && forall|k: int| 0 <= k < bytes.len() ==> bytes[k] as u32 == name[k] as u32
}

/// The character that the glyph-name table gives for `name`, searching from entry `i` on.
pub open spec fn glyph_lookup_from(name: Seq<char>, i: int) -> Option<char>
    decreases GLYPH_LIST_LEN - i,
{
    if i < 0 || i >= GLYPH_LIST_LEN {
        None
    } else if spells(glyph_list_name(i as u16), name) {
        Some(glyph_list_char(i as u16))
    } else {
        glyph_lookup_from(name, i + 1)
    }
}

/// The character that the glyph-name table gives for `name`, if any.
pub open spec fn glyph_lookup(name: Seq<char>) -> Option<char> {
    glyph_lookup_from(name, 0)
}

pub(crate) fn bytes_spell(bytes: &[u8], name: &[char]) -> (r: bool)
    ensures
        r == spells(bytes@, name@),
{
    if bytes.len() != name.len() {
        return false;
    }
    let mut i: usize = 0;
    while i < bytes.len()
        invariant
            i <= bytes.len(),
            bytes.len() == name.len(),
            forall|k: int| 0 <= k < i ==> bytes@[k] as u32 == name@[k] as u32,
        decreases bytes.len() - i,
    {
        let b: u32 = bytes[i] as u32;
        let c: u32 = name[i] as u32;
        if b != c {
            return false;
        }
        i = i + 1;
    }
    true
}

/// Looks a glyph name up in the glyph-name table.
pub fn lookup_glyph(name: &[char]) -> (r: Option<char>)
    ensures
        r == glyph_lookup(name@),
{
    let mut i: usize = 0;
    while i < GLYPH_LIST_LEN
        invariant
            i <= GLYPH_LIST_LEN,
            glyph_lookup_from(name@, 0) == glyph_lookup_from(name@, i as int),
        decreases GLYPH_LIST_LEN - i,
    {
        let (bytes, c) = glyph_list_entry(i);
        if bytes_spell(bytes, name) {
            return Some(c);
        }
        i = i + 1;
    }
    None
}

} // verus!
