//! The Huffman code of string literals, byte by byte, and what a string in it spells.

use vstd::prelude::*;

use super::huffman;

verus! {

// The codes.

/// The codes of the bytes 0 to 31.
pub proof fn codes_0_to_31()
    ensures
        huffman::symbol_of(13, 0x1ff8) == Some(0u8),
        huffman::symbol_of(23, 0x7fffd8) == Some(1u8),
        huffman::symbol_of(28, 0xfffffe2) == Some(2u8),
        huffman::symbol_of(28, 0xfffffe3) == Some(3u8),
        huffman::symbol_of(28, 0xfffffe4) == Some(4u8),
        huffman::symbol_of(28, 0xfffffe5) == Some(5u8),
        huffman::symbol_of(28, 0xfffffe6) == Some(6u8),
        huffman::symbol_of(28, 0xfffffe7) == Some(7u8),
        huffman::symbol_of(28, 0xfffffe8) == Some(8u8),
        huffman::symbol_of(24, 0xffffea) == Some(9u8),
        huffman::symbol_of(30, 0x3ffffffc) == Some(10u8),
        huffman::symbol_of(28, 0xfffffe9) == Some(11u8),
        huffman::symbol_of(28, 0xfffffea) == Some(12u8),
        huffman::symbol_of(30, 0x3ffffffd) == Some(13u8),
        huffman::symbol_of(28, 0xfffffeb) == Some(14u8),
        huffman::symbol_of(28, 0xfffffec) == Some(15u8),
        huffman::symbol_of(28, 0xfffffed) == Some(16u8),
        huffman::symbol_of(28, 0xfffffee) == Some(17u8),
        huffman::symbol_of(28, 0xfffffef) == Some(18u8),
        huffman::symbol_of(28, 0xffffff0) == Some(19u8),
        huffman::symbol_of(28, 0xffffff1) == Some(20u8),
        huffman::symbol_of(28, 0xffffff2) == Some(21u8),
        huffman::symbol_of(30, 0x3ffffffe) == Some(22u8),
        huffman::symbol_of(28, 0xffffff3) == Some(23u8),
        huffman::symbol_of(28, 0xffffff4) == Some(24u8),
        huffman::symbol_of(28, 0xffffff5) == Some(25u8),
        huffman::symbol_of(28, 0xffffff6) == Some(26u8),
        huffman::symbol_of(28, 0xffffff7) == Some(27u8),
        huffman::symbol_of(28, 0xffffff8) == Some(28u8),
        huffman::symbol_of(28, 0xffffff9) == Some(29u8),
        huffman::symbol_of(28, 0xffffffa) == Some(30u8),
        huffman::symbol_of(28, 0xffffffb) == Some(31u8),
{
}

/// The codes of the bytes 32 to 63.
pub proof fn codes_32_to_63()
    ensures
        huffman::symbol_of(6, 0x14) == Some(32u8),
        huffman::symbol_of(10, 0x3f8) == Some(33u8),
        huffman::symbol_of(10, 0x3f9) == Some(34u8),
        huffman::symbol_of(12, 0xffa) == Some(35u8),
        huffman::symbol_of(13, 0x1ff9) == Some(36u8),
        huffman::symbol_of(6, 0x15) == Some(37u8),
        huffman::symbol_of(8, 0xf8) == Some(38u8),
        huffman::symbol_of(11, 0x7fa) == Some(39u8),
        huffman::symbol_of(10, 0x3fa) == Some(40u8),
        huffman::symbol_of(10, 0x3fb) == Some(41u8),
        huffman::symbol_of(8, 0xf9) == Some(42u8),
        huffman::symbol_of(11, 0x7fb) == Some(43u8),
        huffman::symbol_of(8, 0xfa) == Some(44u8),
        huffman::symbol_of(6, 0x16) == Some(45u8),
        huffman::symbol_of(6, 0x17) == Some(46u8),
        huffman::symbol_of(6, 0x18) == Some(47u8),
        huffman::symbol_of(5, 0x0) == Some(48u8),
        huffman::symbol_of(5, 0x1) == Some(49u8),
        huffman::symbol_of(5, 0x2) == Some(50u8),
        huffman::symbol_of(6, 0x19) == Some(51u8),
        huffman::symbol_of(6, 0x1a) == Some(52u8),
        huffman::symbol_of(6, 0x1b) == Some(53u8),
        huffman::symbol_of(6, 0x1c) == Some(54u8),
        huffman::symbol_of(6, 0x1d) == Some(55u8),
        huffman::symbol_of(6, 0x1e) == Some(56u8),
        huffman::symbol_of(6, 0x1f) == Some(57u8),
        huffman::symbol_of(7, 0x5c) == Some(58u8),
        huffman::symbol_of(8, 0xfb) == Some(59u8),
        huffman::symbol_of(15, 0x7ffc) == Some(60u8),
        huffman::symbol_of(6, 0x20) == Some(61u8),
        huffman::symbol_of(12, 0xffb) == Some(62u8),
        huffman::symbol_of(10, 0x3fc) == Some(63u8),
{
}

/// The codes of the bytes 64 to 95.
pub proof fn codes_64_to_95()
    ensures
        huffman::symbol_of(13, 0x1ffa) == Some(64u8),
        huffman::symbol_of(6, 0x21) == Some(65u8),
        huffman::symbol_of(7, 0x5d) == Some(66u8),
        huffman::symbol_of(7, 0x5e) == Some(67u8),
        huffman::symbol_of(7, 0x5f) == Some(68u8),
        huffman::symbol_of(7, 0x60) == Some(69u8),
        huffman::symbol_of(7, 0x61) == Some(70u8),
        huffman::symbol_of(7, 0x62) == Some(71u8),
        huffman::symbol_of(7, 0x63) == Some(72u8),
        huffman::symbol_of(7, 0x64) == Some(73u8),
        huffman::symbol_of(7, 0x65) == Some(74u8),
        huffman::symbol_of(7, 0x66) == Some(75u8),
        huffman::symbol_of(7, 0x67) == Some(76u8),
        huffman::symbol_of(7, 0x68) == Some(77u8),
        huffman::symbol_of(7, 0x69) == Some(78u8),
        huffman::symbol_of(7, 0x6a) == Some(79u8),
        huffman::symbol_of(7, 0x6b) == Some(80u8),
        huffman::symbol_of(7, 0x6c) == Some(81u8),
        huffman::symbol_of(7, 0x6d) == Some(82u8),
        huffman::symbol_of(7, 0x6e) == Some(83u8),
        huffman::symbol_of(7, 0x6f) == Some(84u8),
        huffman::symbol_of(7, 0x70) == Some(85u8),
        huffman::symbol_of(7, 0x71) == Some(86u8),
        huffman::symbol_of(7, 0x72) == Some(87u8),
        huffman::symbol_of(8, 0xfc) == Some(88u8),
        huffman::symbol_of(7, 0x73) == Some(89u8),
        huffman::symbol_of(8, 0xfd) == Some(90u8),
        huffman::symbol_of(13, 0x1ffb) == Some(91u8),
        huffman::symbol_of(19, 0x7fff0) == Some(92u8),
        huffman::symbol_of(13, 0x1ffc) == Some(93u8),
        huffman::symbol_of(14, 0x3ffc) == Some(94u8),
        huffman::symbol_of(6, 0x22) == Some(95u8),
{
}

/// The codes of the bytes 96 to 127.
pub proof fn codes_96_to_127()
    ensures
        huffman::symbol_of(15, 0x7ffd) == Some(96u8),
        huffman::symbol_of(5, 0x3) == Some(97u8),
        huffman::symbol_of(6, 0x23) == Some(98u8),
        huffman::symbol_of(5, 0x4) == Some(99u8),
        huffman::symbol_of(6, 0x24) == Some(100u8),
        huffman::symbol_of(5, 0x5) == Some(101u8),
        huffman::symbol_of(6, 0x25) == Some(102u8),
        huffman::symbol_of(6, 0x26) == Some(103u8),
        huffman::symbol_of(6, 0x27) == Some(104u8),
        huffman::symbol_of(5, 0x6) == Some(105u8),
        huffman::symbol_of(7, 0x74) == Some(106u8),
        huffman::symbol_of(7, 0x75) == Some(107u8),
        huffman::symbol_of(6, 0x28) == Some(108u8),
        huffman::symbol_of(6, 0x29) == Some(109u8),
        huffman::symbol_of(6, 0x2a) == Some(110u8),
        huffman::symbol_of(5, 0x7) == Some(111u8),
        huffman::symbol_of(6, 0x2b) == Some(112u8),
        huffman::symbol_of(7, 0x76) == Some(113u8),
        huffman::symbol_of(6, 0x2c) == Some(114u8),
        huffman::symbol_of(5, 0x8) == Some(115u8),
        huffman::symbol_of(5, 0x9) == Some(116u8),
        huffman::symbol_of(6, 0x2d) == Some(117u8),
        huffman::symbol_of(7, 0x77) == Some(118u8),
        huffman::symbol_of(7, 0x78) == Some(119u8),
        huffman::symbol_of(7, 0x79) == Some(120u8),
        huffman::symbol_of(7, 0x7a) == Some(121u8),
        huffman::symbol_of(7, 0x7b) == Some(122u8),
        huffman::symbol_of(15, 0x7ffe) == Some(123u8),
        huffman::symbol_of(11, 0x7fc) == Some(124u8),
        huffman::symbol_of(14, 0x3ffd) == Some(125u8),
        huffman::symbol_of(13, 0x1ffd) == Some(126u8),
        huffman::symbol_of(28, 0xffffffc) == Some(127u8),
{
}

/// The codes of the bytes 128 to 159.
pub proof fn codes_128_to_159()
    ensures
        huffman::symbol_of(20, 0xfffe6) == Some(128u8),
        huffman::symbol_of(22, 0x3fffd2) == Some(129u8),
        huffman::symbol_of(20, 0xfffe7) == Some(130u8),
        huffman::symbol_of(20, 0xfffe8) == Some(131u8),
        huffman::symbol_of(22, 0x3fffd3) == Some(132u8),
        huffman::symbol_of(22, 0x3fffd4) == Some(133u8),
        huffman::symbol_of(22, 0x3fffd5) == Some(134u8),
        huffman::symbol_of(23, 0x7fffd9) == Some(135u8),
        huffman::symbol_of(22, 0x3fffd6) == Some(136u8),
        huffman::symbol_of(23, 0x7fffda) == Some(137u8),
        huffman::symbol_of(23, 0x7fffdb) == Some(138u8),
        huffman::symbol_of(23, 0x7fffdc) == Some(139u8),
        huffman::symbol_of(23, 0x7fffdd) == Some(140u8),
        huffman::symbol_of(23, 0x7fffde) == Some(141u8),
        huffman::symbol_of(24, 0xffffeb) == Some(142u8),
        huffman::symbol_of(23, 0x7fffdf) == Some(143u8),
        huffman::symbol_of(24, 0xffffec) == Some(144u8),
        huffman::symbol_of(24, 0xffffed) == Some(145u8),
        huffman::symbol_of(22, 0x3fffd7) == Some(146u8),
        huffman::symbol_of(23, 0x7fffe0) == Some(147u8),
        huffman::symbol_of(24, 0xffffee) == Some(148u8),
        huffman::symbol_of(23, 0x7fffe1) == Some(149u8),
        huffman::symbol_of(23, 0x7fffe2) == Some(150u8),
        huffman::symbol_of(23, 0x7fffe3) == Some(151u8),
        huffman::symbol_of(23, 0x7fffe4) == Some(152u8),
        huffman::symbol_of(21, 0x1fffdc) == Some(153u8),
        huffman::symbol_of(22, 0x3fffd8) == Some(154u8),
        huffman::symbol_of(23, 0x7fffe5) == Some(155u8),
        huffman::symbol_of(22, 0x3fffd9) == Some(156u8),
        huffman::symbol_of(23, 0x7fffe6) == Some(157u8),
        huffman::symbol_of(23, 0x7fffe7) == Some(158u8),
        huffman::symbol_of(24, 0xffffef) == Some(159u8),
{
}

/// The codes of the bytes 160 to 191.
pub proof fn codes_160_to_191()
    ensures
        huffman::symbol_of(22, 0x3fffda) == Some(160u8),
        huffman::symbol_of(21, 0x1fffdd) == Some(161u8),
        huffman::symbol_of(20, 0xfffe9) == Some(162u8),
        huffman::symbol_of(22, 0x3fffdb) == Some(163u8),
        huffman::symbol_of(22, 0x3fffdc) == Some(164u8),
        huffman::symbol_of(23, 0x7fffe8) == Some(165u8),
        huffman::symbol_of(23, 0x7fffe9) == Some(166u8),
        huffman::symbol_of(21, 0x1fffde) == Some(167u8),
        huffman::symbol_of(23, 0x7fffea) == Some(168u8),
        huffman::symbol_of(22, 0x3fffdd) == Some(169u8),
        huffman::symbol_of(22, 0x3fffde) == Some(170u8),
        huffman::symbol_of(24, 0xfffff0) == Some(171u8),
        huffman::symbol_of(21, 0x1fffdf) == Some(172u8),
        huffman::symbol_of(22, 0x3fffdf) == Some(173u8),
        huffman::symbol_of(23, 0x7fffeb) == Some(174u8),
        huffman::symbol_of(23, 0x7fffec) == Some(175u8),
        huffman::symbol_of(21, 0x1fffe0) == Some(176u8),
        huffman::symbol_of(21, 0x1fffe1) == Some(177u8),
        huffman::symbol_of(22, 0x3fffe0) == Some(178u8),
        huffman::symbol_of(21, 0x1fffe2) == Some(179u8),
        huffman::symbol_of(23, 0x7fffed) == Some(180u8),
        huffman::symbol_of(22, 0x3fffe1) == Some(181u8),
        huffman::symbol_of(23, 0x7fffee) == Some(182u8),
        huffman::symbol_of(23, 0x7fffef) == Some(183u8),
        huffman::symbol_of(20, 0xfffea) == Some(184u8),
        huffman::symbol_of(22, 0x3fffe2) == Some(185u8),
        huffman::symbol_of(22, 0x3fffe3) == Some(186u8),
        huffman::symbol_of(22, 0x3fffe4) == Some(187u8),
        huffman::symbol_of(23, 0x7ffff0) == Some(188u8),
        huffman::symbol_of(22, 0x3fffe5) == Some(189u8),
        huffman::symbol_of(22, 0x3fffe6) == Some(190u8),
        huffman::symbol_of(23, 0x7ffff1) == Some(191u8),
{
}

/// The codes of the bytes 192 to 223.
pub proof fn codes_192_to_223()
    ensures
        huffman::symbol_of(26, 0x3ffffe0) == Some(192u8),
        huffman::symbol_of(26, 0x3ffffe1) == Some(193u8),
        huffman::symbol_of(20, 0xfffeb) == Some(194u8),
        huffman::symbol_of(19, 0x7fff1) == Some(195u8),
        huffman::symbol_of(22, 0x3fffe7) == Some(196u8),
        huffman::symbol_of(23, 0x7ffff2) == Some(197u8),
        huffman::symbol_of(22, 0x3fffe8) == Some(198u8),
        huffman::symbol_of(25, 0x1ffffec) == Some(199u8),
        huffman::symbol_of(26, 0x3ffffe2) == Some(200u8),
        huffman::symbol_of(26, 0x3ffffe3) == Some(201u8),
        huffman::symbol_of(26, 0x3ffffe4) == Some(202u8),
        huffman::symbol_of(27, 0x7ffffde) == Some(203u8),
        huffman::symbol_of(27, 0x7ffffdf) == Some(204u8),
        huffman::symbol_of(26, 0x3ffffe5) == Some(205u8),
        huffman::symbol_of(24, 0xfffff1) == Some(206u8),
        huffman::symbol_of(25, 0x1ffffed) == Some(207u8),
        huffman::symbol_of(19, 0x7fff2) == Some(208u8),
        huffman::symbol_of(21, 0x1fffe3) == Some(209u8),
        huffman::symbol_of(26, 0x3ffffe6) == Some(210u8),
        huffman::symbol_of(27, 0x7ffffe0) == Some(211u8),
        huffman::symbol_of(27, 0x7ffffe1) == Some(212u8),
        huffman::symbol_of(26, 0x3ffffe7) == Some(213u8),
        huffman::symbol_of(27, 0x7ffffe2) == Some(214u8),
        huffman::symbol_of(24, 0xfffff2) == Some(215u8),
        huffman::symbol_of(21, 0x1fffe4) == Some(216u8),
        huffman::symbol_of(21, 0x1fffe5) == Some(217u8),
        huffman::symbol_of(26, 0x3ffffe8) == Some(218u8),
        huffman::symbol_of(26, 0x3ffffe9) == Some(219u8),
        huffman::symbol_of(28, 0xffffffd) == Some(220u8),
        huffman::symbol_of(27, 0x7ffffe3) == Some(221u8),
        huffman::symbol_of(27, 0x7ffffe4) == Some(222u8),
        huffman::symbol_of(27, 0x7ffffe5) == Some(223u8),
{
}

/// The codes of the bytes 224 to 255.
pub proof fn codes_224_to_255()
    ensures
        huffman::symbol_of(20, 0xfffec) == Some(224u8),
        huffman::symbol_of(24, 0xfffff3) == Some(225u8),
        huffman::symbol_of(20, 0xfffed) == Some(226u8),
        huffman::symbol_of(21, 0x1fffe6) == Some(227u8),
        huffman::symbol_of(22, 0x3fffe9) == Some(228u8),
        huffman::symbol_of(21, 0x1fffe7) == Some(229u8),
        huffman::symbol_of(21, 0x1fffe8) == Some(230u8),
        huffman::symbol_of(23, 0x7ffff3) == Some(231u8),
        huffman::symbol_of(22, 0x3fffea) == Some(232u8),
        huffman::symbol_of(22, 0x3fffeb) == Some(233u8),
        huffman::symbol_of(25, 0x1ffffee) == Some(234u8),
        huffman::symbol_of(25, 0x1ffffef) == Some(235u8),
        huffman::symbol_of(24, 0xfffff4) == Some(236u8),
        huffman::symbol_of(24, 0xfffff5) == Some(237u8),
        huffman::symbol_of(26, 0x3ffffea) == Some(238u8),
        huffman::symbol_of(23, 0x7ffff4) == Some(239u8),
        huffman::symbol_of(26, 0x3ffffeb) == Some(240u8),
        huffman::symbol_of(27, 0x7ffffe6) == Some(241u8),
        huffman::symbol_of(26, 0x3ffffec) == Some(242u8),
        huffman::symbol_of(26, 0x3ffffed) == Some(243u8),
        huffman::symbol_of(27, 0x7ffffe7) == Some(244u8),
        huffman::symbol_of(27, 0x7ffffe8) == Some(245u8),
        huffman::symbol_of(27, 0x7ffffe9) == Some(246u8),
        huffman::symbol_of(27, 0x7ffffea) == Some(247u8),
        huffman::symbol_of(27, 0x7ffffeb) == Some(248u8),
        huffman::symbol_of(28, 0xffffffe) == Some(249u8),
        huffman::symbol_of(27, 0x7ffffec) == Some(250u8),
        huffman::symbol_of(27, 0x7ffffed) == Some(251u8),
        huffman::symbol_of(27, 0x7ffffee) == Some(252u8),
        huffman::symbol_of(27, 0x7ffffef) == Some(253u8),
        huffman::symbol_of(27, 0x7fffff0) == Some(254u8),
        huffman::symbol_of(26, 0x3ffffee) == Some(255u8),
{
}

/// The codes of each length are consecutive numbers, and there are no others.
pub proof fn code_ranges(len: u8, code: nat)
    ensures
        huffman::symbol_of(len, code) is Some <==> match len {
            5 => 0 <= code < 10,
            6 => 20 <= code < 46,
            7 => 92 <= code < 124,
            8 => 248 <= code < 254,
            10 => 1016 <= code < 1021,
            11 => 2042 <= code < 2045,
            12 => 4090 <= code < 4092,
            13 => 8184 <= code < 8190,
            14 => 16380 <= code < 16382,
            15 => 32764 <= code < 32767,
            19 => 524272 <= code < 524275,
            20 => 1048550 <= code < 1048558,
            21 => 2097116 <= code < 2097129,
            22 => 4194258 <= code < 4194284,
            23 => 8388568 <= code < 8388597,
            24 => 16777194 <= code < 16777206,
            25 => 33554412 <= code < 33554416,
            26 => 67108832 <= code < 67108847,
            27 => 134217694 <= code < 134217713,
            28 => 268435426 <= code < 268435455,
            30 => 1073741820 <= code < 1073741823,
            _ => false,
        },
{
}

// What a string in the code spells.

/// A bit of a byte, the most significant first.
pub open spec fn bit_of(b: u8, i: int) -> bool {
    if i == 0 {
        b >= 128
    } else if i == 1 {
        (b / 64) % 2 == 1
    } else if i == 2 {
        (b / 32) % 2 == 1
    } else if i == 3 {
        (b / 16) % 2 == 1
    } else if i == 4 {
        (b / 8) % 2 == 1
    } else if i == 5 {
        (b / 4) % 2 == 1
    } else if i == 6 {
        (b / 2) % 2 == 1
    } else {
        b % 2 == 1
    }
}

/// The bits of some bytes.
pub open spec fn bits_of(raw: Seq<u8>) -> Seq<bool> {
    Seq::new(8 * raw.len(), |i: int| bit_of(raw[i / 8], i % 8))
}

/// The number that some bits stand for.
pub open spec fn bits_value(bits: Seq<bool>) -> nat
    decreases bits.len(),
{
    if bits.len() == 0 {
        0
    } else {
        2 * bits_value(bits.drop_last()) + (if bits.last() {
            1nat
        } else {
            0
        })
    }
}

/// Whether some bits are the code of a byte.
pub open spec fn is_code(bits: Seq<bool>, b: u8) -> bool {
    bits.len() <= 30 && huffman::symbol_of(bits.len() as u8, bits_value(bits)) == Some(b)
}

/// Whether some bits spell a string: the codes of its bytes in order, and then fewer than eight
/// bits, all of them set.
pub open spec fn spells(bits: Seq<bool>, v: Seq<u8>) -> bool
    decreases v.len(),
{
    if v.len() == 0 {
        bits.len() < 8 && forall|i: int| 0 <= i < bits.len() ==> #[trigger] bits[i]
    } else {
        exists|n: int|
            0 < n <= bits.len() && is_code(#[trigger] bits.take(n), v[0]) && spells(
                bits.skip(n),
                v.skip(1),
            )
    }
}

/// The bits of a byte are its digits to the base two, most significant first.
pub proof fn byte_is_its_bits(b: u8)
    ensures
        b == (if bit_of(b, 0) {
            128int
        } else {
            0
        }) + (if bit_of(b, 1) {
            64int
        } else {
            0
        }) + (if bit_of(b, 2) {
            32int
        } else {
            0
        }) + (if bit_of(b, 3) {
            16int
        } else {
            0
        }) + (if bit_of(b, 4) {
            8int
        } else {
            0
        }) + (if bit_of(b, 5) {
            4int
        } else {
            0
        }) + (if bit_of(b, 6) {
            2int
        } else {
            0
        }) + (if bit_of(b, 7) {
            1int
        } else {
            0
        }),
{
    let n = b as int;
    assert(n == 2 * (n / 2) + n % 2);
    assert(n / 2 == 2 * (n / 4) + (n / 2) % 2);
    assert(n / 4 == 2 * (n / 8) + (n / 4) % 2);
    assert(n / 8 == 2 * (n / 16) + (n / 8) % 2);
    assert(n / 16 == 2 * (n / 32) + (n / 16) % 2);
    assert(n / 32 == 2 * (n / 64) + (n / 32) % 2);
    assert(n / 64 == 2 * (n / 128) + (n / 64) % 2);
    assert(n / 128 == if n >= 128 {
        1int
    } else {
        0
    });
}

/// The bits of bytes are those of each byte in turn, and the number that bits stand for doubles
/// with each further bit.
pub proof fn bits_follow_each_other(raw: Seq<u8>, i: int, j: int, bits: Seq<bool>, bit: bool)
    requires
        0 <= i < raw.len(),
        0 <= j < 8,
    ensures
        bits_of(raw).len() == 8 * raw.len(),
        bits_of(raw)[8 * i + j] == bit_of(raw[i], j),
        bits_value(Seq::empty()) == 0,
        bits_value(bits.push(bit)) == 2 * bits_value(bits) + (if bit {
            1int
        } else {
            0
        }),
{
    assert((8 * i + j) / 8 == i && (8 * i + j) % 8 == j);
    assert(bits.push(bit).drop_last() == bits);
}

/// Only padding spells the empty string. The code of a byte in front of what spells a string
/// spells the byte in front of the string.
pub proof fn spelling_is_code_by_code(code: Seq<bool>, b: u8, bits: Seq<bool>, v: Seq<u8>)
    ensures
        is_code(code, b) ==> huffman::symbol_of(code.len() as u8, bits_value(code)) == Some(b),
        code.len() <= 30 && huffman::symbol_of(code.len() as u8, bits_value(code)) == Some(b)
            ==> is_code(code, b),
        spells(bits, Seq::empty()) <==> bits.len() < 8 && !bits.contains(false),
        code.len() > 0 && is_code(code, b) && spells(bits, v) ==> spells(
            code + bits,
            seq![b] + v,
        ),
{
    if bits.len() < 8 && !bits.contains(false) {
        assert forall|i: int| 0 <= i < bits.len() implies #[trigger] bits[i] by {
            if !bits[i] {
                assert(bits.contains(false));
            }
        }
    }
    if code.len() > 0 && is_code(code, b) && spells(bits, v) {
        let all = code + bits;
        let n = code.len() as int;
        assert(all.take(n) == code);
        assert(all.skip(n) == bits);
        assert((seq![b] + v).skip(1) == v);
        assert((seq![b] + v)[0] == b);
        assert(is_code(all.take(n), (seq![b] + v)[0]));
    }
}

/// A string in the code is decoded exactly to what it spells. What spells nothing is not decoded.
pub proof fn decoding_is_spelling(raw: Seq<u8>, v: Seq<u8>)
    ensures
        huffman::decoded(raw) == Some(v) <==> spells(bits_of(raw), v),
{
    let all = bits_of(raw);
    assert(all.skip(0) == all);
    assert(all.subrange(0, 0) == Seq::<bool>::empty());
    spelled_from(raw, 0, 0, 0, v);
}

/// The smallest number that starts a code of more than `len` bits.
spec fn beyond(len: nat) -> nat {
    match len as u8 {
        5 => 10,
        6 => 46,
        7 => 124,
        8 => 254,
        9 => 508,
        10 => 1021,
        11 => 2045,
        12 => 4092,
        13 => 8190,
        14 => 16382,
        15 => 32767,
        16 => 65534,
        17 => 131068,
        18 => 262136,
        19 => 524275,
        20 => 1048558,
        21 => 2097129,
        22 => 4194284,
        23 => 8388597,
        24 => 16777206,
        25 => 33554416,
        26 => 67108847,
        27 => 134217713,
        28 => 268435455,
        29 => 536870910,
        30 => 1073741823,
        _ => 0,
    }
}

/// Where the codes of each length lie.
proof fn code_bounds(len: nat, code: nat)
    requires
        len <= 30,
    ensures
        len >= 1 ==> beyond(len) >= 2 * beyond((len - 1) as nat),
        huffman::symbol_of(len as u8, code) is Some ==> {
            &&& len >= 1
            &&& code < beyond(len)
            &&& code >= 2 * beyond((len - 1) as nat)
        },
{
    code_ranges(len as u8, code);
}

/// The beginning of a code is no code.
proof fn prefix_is_no_code(bits: Seq<bool>, n: int, m: int, b: u8)
    requires
        0 <= m < n <= bits.len(),
        is_code(bits.take(n), b),
    ensures
        m <= 30,
        huffman::symbol_of(m as u8, bits_value(bits.take(m))) is None,
{
    code_bounds(n as nat, bits_value(bits.take(n)));
    assert(bits.take(n).drop_last() == bits.take(n - 1));
    prefix_is_beyond(bits, n - 1, m);
    code_bounds(m as nat, bits_value(bits.take(m)));
}

proof fn prefix_is_beyond(bits: Seq<bool>, n: int, m: int)
    requires
        0 <= m <= n <= bits.len(),
        n <= 30,
        bits_value(bits.take(n)) >= beyond(n as nat),
    ensures
        bits_value(bits.take(m)) >= beyond(m as nat),
    decreases n - m,
{
    if m < n {
        code_bounds(n as nat, 0);
        assert(bits.take(n).drop_last() == bits.take(n - 1));
        prefix_is_beyond(bits, n - 1, m);
    }
}

/// Fewer than eight bits that are all set are the largest number of their length, which is no
/// code.
proof fn ones(bits: Seq<bool>)
    requires
        bits.len() < 8,
    ensures
        (forall|i: int| 0 <= i < bits.len() ==> #[trigger] bits[i]) <==> huffman::is_padding(
            bits.len() as u8,
            bits_value(bits),
        ),
        huffman::is_padding(bits.len() as u8, bits_value(bits)) ==> huffman::symbol_of(
            bits.len() as u8,
            bits_value(bits),
        ) is None,
        bits_value(bits) <= top(bits.len()),
    decreases bits.len(),
{
    code_ranges(bits.len() as u8, bits_value(bits));
    if bits.len() > 0 {
        let shorter = bits.drop_last();
        ones(shorter);
        assert forall|i: int| 0 <= i < shorter.len() implies #[trigger] shorter[i] == bits[i] by {}
        if forall|i: int| 0 <= i < bits.len() ==> #[trigger] bits[i] {
            assert forall|i: int| 0 <= i < shorter.len() implies #[trigger] shorter[i] by {
                assert(bits[i]);
            }
            assert(bits[bits.len() - 1]);
        }
        if huffman::is_padding(bits.len() as u8, bits_value(bits)) {
            assert forall|i: int| 0 <= i < bits.len() implies #[trigger] bits[i] by {
                if i < shorter.len() {
                    assert(shorter[i]);
                }
            }
        }
    }
}

/// The largest number of fewer than eight bits.
spec fn top(len: nat) -> nat {
    match len as u8 {
        0 => 0,
        1 => 1,
        2 => 3,
        3 => 7,
        4 => 15,
        5 => 31,
        6 => 63,
        _ => 127,
    }
}

/// The bit that the decoder sees is the bit that there is.
proof fn bit_is_seen(raw: Seq<u8>, at: nat)
    requires
        at < 8 * raw.len(),
    ensures
        huffman::bit_at(raw, at) == (if bits_of(raw)[at as int] {
            1nat
        } else {
            0
        }),
{
    let b = raw[at as int / 8];
    let i = at as int % 8;
    assert(i == at % 8);
    assert(bits_of(raw)[at as int] == bit_of(b, i));
    if i == 0 {
        assert(huffman::weight(at % 8) == 128);
        assert((b as nat / 128) % 2 == (if b >= 128 { 1nat } else { 0 }));
    } else if i == 7 {
        assert(huffman::weight(at % 8) == 1);
        assert(b as nat / 1 == b);
    }
}

/// Whether no beginning of some bits is a code.
spec fn undecided(bits: Seq<bool>, len: nat) -> bool {
    forall|m: int|
        0 < m <= len ==> huffman::symbol_of(m as u8, bits_value(#[trigger] bits.take(m))) is None
}

/// What is left to decode, from a code that has begun, is decoded exactly to what it spells.
proof fn spelled_from(raw: Seq<u8>, at: nat, len: u8, code: nat, v: Seq<u8>)
    requires
        len <= at <= 8 * raw.len(),
        len <= 30,
        code == bits_value(bits_of(raw).subrange(at - len, at as int)),
        undecided(bits_of(raw).skip(at - len), len as nat),
    ensures
        huffman::unpack(raw, at, len, code) == Some(v) <==> spells(
            bits_of(raw).skip(at - len),
            v,
        ),
    decreases 8 * raw.len() - at,
{
    let all = bits_of(raw);
    let rest = all.skip(at - len);
    let begun = all.subrange(at - len, at as int);
    assert(rest.take(len as int) == begun);
    if at >= 8 * raw.len() {
        assert(rest == begun);
        if len < 8 {
            ones(rest);
        }
        if v.len() > 0 && spells(rest, v) {
            let n = choose|n: int|
                0 < n <= rest.len() && is_code(#[trigger] rest.take(n), v[0]) && spells(
                    rest.skip(n),
                    v.skip(1),
                );
            assert(huffman::symbol_of(n as u8, bits_value(rest.take(n))) is None);
        }
        if v.len() == 0 {
            assert(v == Seq::<u8>::empty());
        }
    } else if len >= 30 {
        if v.len() > 0 && spells(rest, v) {
            let n = choose|n: int|
                0 < n <= rest.len() && is_code(#[trigger] rest.take(n), v[0]) && spells(
                    rest.skip(n),
                    v.skip(1),
                );
            assert(huffman::symbol_of(n as u8, bits_value(rest.take(n))) is None);
        }
    } else {
        let longer = (len + 1) as u8;
        bit_is_seen(raw, at);
        let next = 2 * code + huffman::bit_at(raw, at);
        let grown = all.subrange(at - len, (at + 1) as int);
        assert(grown.drop_last() == begun);
        assert(grown.last() == all[at as int]);
        assert(next == bits_value(grown));
        assert(rest.take(longer as int) == grown);
        match huffman::symbol_of(longer, next) {
            Some(b) => {
                a_byte_is_spelled(raw, at, len, b, v);
            },
            None => {
                assert(all.skip(at + 1 - longer) == rest);
                assert forall|m: int| 0 < m <= longer implies huffman::symbol_of(
                    m as u8,
                    bits_value(#[trigger] rest.take(m)),
                ) is None by {
                    if m == longer {
                        assert(rest.take(m) == grown);
                    }
                }
                spelled_from(raw, at + 1, longer, next, v);
            },
        }
    }
}

/// The step at which a code is complete.
proof fn a_byte_is_spelled(raw: Seq<u8>, at: nat, len: u8, b: u8, v: Seq<u8>)
    requires
        len <= at < 8 * raw.len(),
        len < 30,
        undecided(bits_of(raw).skip(at - len), len as nat),
        is_code(bits_of(raw).skip(at - len).take(len + 1), b),
    ensures
        (match huffman::unpack(raw, at + 1, 0, 0) {
            Some(rest) => Some(seq![b] + rest),
            None => None,
        }) == Some(v) <==> spells(bits_of(raw).skip(at - len), v),
    decreases 8 * raw.len() - at, 0nat,
{
    let all = bits_of(raw);
    let rest = all.skip(at - len);
    let n = len + 1;
    assert(rest.skip(n) == all.skip((at + 1) as int));
    assert(all.subrange((at + 1) as int, (at + 1) as int) == Seq::<bool>::empty());
    assert(all.skip(at + 1 - 0) == all.skip((at + 1) as int));
    if v.len() == 0 {
        if spells(rest, v) {
            let head = rest.take(n);
            assert forall|i: int| 0 <= i < head.len() implies #[trigger] head[i] by {
                assert(rest[i]);
            }
            ones(head);
        }
    } else {
        let w = v.skip(1);
        spelled_from(raw, at + 1, 0, 0, w);
        if spells(rest, v) {
            let k = choose|k: int|
                0 < k <= rest.len() && is_code(#[trigger] rest.take(k), v[0]) && spells(
                    rest.skip(k),
                    v.skip(1),
                );
            if k < n {
                assert(huffman::symbol_of(k as u8, bits_value(rest.take(k))) is None);
            } else if k > n {
                prefix_is_no_code(rest, k, n, v[0]);
            }
            assert(k == n);
            assert(v == seq![b] + w);
        }
        if let Some(x) = huffman::unpack(raw, at + 1, 0, 0) {
            if seq![b] + x == v {
                assert(x == w);
                assert(is_code(rest.take(n), v[0]));
            }
        }
    }
}

} // verus!
