//! The Huffman code of string literals.
//!
//! The codes of one length are consecutive numbers, so a row of the table is the first code of
//! a length and the bytes that it and its successors stand for.

use vstd::prelude::*;

verus! {

/// The first code of `len` bits and the bytes that the codes of `len` bits stand for, in order.
pub open spec fn code_row(len: u8) -> (nat, Seq<u8>) {
    match len {
        5 => (0, seq![
            48u8, 49, 50, 97, 99, 101, 105, 111, 115, 116,
        ]),
        6 => (20, seq![
            32u8, 37, 45, 46, 47, 51, 52, 53, 54, 55, 56, 57, 61, 65, 95, 98, 100, 102, 103,
            104, 108, 109, 110, 112, 114, 117,
        ]),
        7 => (92, seq![
            58u8, 66, 67, 68, 69, 70, 71, 72, 73, 74, 75, 76, 77, 78, 79, 80, 81, 82, 83, 84,
            85, 86, 87, 89, 106, 107, 113, 118, 119, 120, 121, 122,
        ]),
        8 => (248, seq![
            38u8, 42, 44, 59, 88, 90,
        ]),
        10 => (1016, seq![
            33u8, 34, 40, 41, 63,
        ]),
        11 => (2042, seq![
            39u8, 43, 124,
        ]),
        12 => (4090, seq![
            35u8, 62,
        ]),
        13 => (8184, seq![
            0u8, 36, 64, 91, 93, 126,
        ]),
        14 => (16380, seq![
            94u8, 125,
        ]),
        15 => (32764, seq![
            60u8, 96, 123,
        ]),
        19 => (524272, seq![
            92u8, 195, 208,
        ]),
        20 => (1048550, seq![
            128u8, 130, 131, 162, 184, 194, 224, 226,
        ]),
        21 => (2097116, seq![
            153u8, 161, 167, 172, 176, 177, 179, 209, 216, 217, 227, 229, 230,
        ]),
        22 => (4194258, seq![
            129u8, 132, 133, 134, 136, 146, 154, 156, 160, 163, 164, 169, 170, 173, 178, 181,
            185, 186, 187, 189, 190, 196, 198, 228, 232, 233,
        ]),
        23 => (8388568, seq![
            1u8, 135, 137, 138, 139, 140, 141, 143, 147, 149, 150, 151, 152, 155, 157, 158, 165,
            166, 168, 174, 175, 180, 182, 183, 188, 191, 197, 231, 239,
        ]),
        24 => (16777194, seq![
            9u8, 142, 144, 145, 148, 159, 171, 206, 215, 225, 236, 237,
        ]),
        25 => (33554412, seq![
            199u8, 207, 234, 235,
        ]),
        26 => (67108832, seq![
            192u8, 193, 200, 201, 202, 205, 210, 213, 218, 219, 238, 240, 242, 243, 255,
        ]),
        27 => (134217694, seq![
            203u8, 204, 211, 212, 214, 221, 222, 223, 241, 244, 245, 246, 247, 248, 250, 251,
            252, 253, 254,
        ]),
        28 => (268435426, seq![
            2u8, 3, 4, 5, 6, 7, 8, 11, 12, 14, 15, 16, 17, 18, 19, 20, 21, 23, 24, 25, 26, 27,
            28, 29, 30, 31, 127, 220, 249,
        ]),
        30 => (1073741820, seq![
            10u8, 13, 22,
        ]),
        _ => (0, Seq::empty()),
    }
}

/// The byte that the code of `len` bits with value `code` stands for.
pub open spec fn symbol_of(len: u8, code: nat) -> Option<u8> {
    let (first, row) = code_row(len);
    if first <= code < first + row.len() {
        Some(row[code - first])
    } else {
        None
    }
}

/// The bit at position `at`, counted from the most significant bit of the first byte.
pub open spec fn bit_at(raw: Seq<u8>, at: nat) -> nat {
    (raw[at as int / 8] as nat / weight(at % 8)) % 2
}

/// The value of the bit at position `i` of a byte.
pub open spec fn weight(i: nat) -> nat {
    if i == 0 {
        128
    } else if i == 1 {
        64
    } else if i == 2 {
        32
    } else if i == 3 {
        16
    } else if i == 4 {
        8
    } else if i == 5 {
        4
    } else if i == 6 {
        2
    } else {
        1
    }
}

/// Whether the `len` bits of `code` may end a string: fewer than eight bits, all of them set.
pub open spec fn is_padding(len: u8, code: nat) -> bool {
    len < 8 && code == (if len == 0 {
        0
    } else {
        (2 * weight((8 - len) as nat) - 1) as nat
    })
}

/// The longest code of a byte.
pub const MAX_CODE_LEN: u8 = 30;

/// Decodes the bits from position `at`, after `len` bits with value `code` of a code that has
/// begun. There is no result if a code stands for nothing or the padding is not right.
pub open spec fn unpack(raw: Seq<u8>, at: nat, len: u8, code: nat) -> Option<Seq<u8>>
    decreases 8 * raw.len() - at,
{
    if at >= 8 * raw.len() {
        if is_padding(len, code) {
            Some(Seq::empty())
        } else {
            None
        }
    } else if len >= MAX_CODE_LEN {
        None
    } else {
        let longer = (len + 1) as u8;
        let next = 2 * code + bit_at(raw, at);
        match symbol_of(longer, next) {
            Some(byte) => match unpack(raw, at + 1, 0, 0) {
                Some(rest) => Some(seq![byte] + rest),
                None => None,
            },
            None => unpack(raw, at + 1, longer, next),
        }
    }
}

/// The string that `raw` encodes.
pub open spec fn decoded(raw: Seq<u8>) -> Option<Seq<u8>> {
    unpack(raw, 0, 0, 0)
}

/// `rest` after `done`.
spec fn after(done: Seq<u8>, rest: Option<Seq<u8>>) -> Option<Seq<u8>> {
    match rest {
        Some(r) => Some(done + r),
        None => None,
    }
}

fn pick(row: &[u8], first: u32, code: u32) -> (r: Option<u8>)
    ensures
        r == (if first <= code < first + row@.len() {
            Some(row@[code - first])
        } else {
            None::<u8>
        }),
{
    if code >= first && ((code - first) as usize) < row.len() {
        Some(row[(code - first) as usize])
    } else {
        None
    }
}

fn symbol(len: u8, code: u32) -> (r: Option<u8>)
    ensures
        r == symbol_of(len, code as nat),
{
    match len {
        5 => {
            let list = [
                48u8, 49, 50, 97, 99, 101, 105, 111, 115, 116,
            ];
            assert(list@ == code_row(len).1);
            pick(&list, 0, code)
        },
        6 => {
            let list = [
                32u8, 37, 45, 46, 47, 51, 52, 53, 54, 55, 56, 57, 61, 65, 95, 98, 100, 102, 103,
                104, 108, 109, 110, 112, 114, 117,
            ];
            assert(list@ == code_row(len).1);
            pick(&list, 20, code)
        },
        7 => {
            let list = [
                58u8, 66, 67, 68, 69, 70, 71, 72, 73, 74, 75, 76, 77, 78, 79, 80, 81, 82, 83,
                84, 85, 86, 87, 89, 106, 107, 113, 118, 119, 120, 121, 122,
            ];
            assert(list@ == code_row(len).1);
            pick(&list, 92, code)
        },
        8 => {
            let list = [
                38u8, 42, 44, 59, 88, 90,
            ];
            assert(list@ == code_row(len).1);
            pick(&list, 248, code)
        },
        10 => {
            let list = [
                33u8, 34, 40, 41, 63,
            ];
            assert(list@ == code_row(len).1);
            pick(&list, 1016, code)
        },
        11 => {
            let list = [
                39u8, 43, 124,
            ];
            assert(list@ == code_row(len).1);
            pick(&list, 2042, code)
        },
        12 => {
            let list = [
                35u8, 62,
            ];
            assert(list@ == code_row(len).1);
            pick(&list, 4090, code)
        },
        13 => {
            let list = [
                0u8, 36, 64, 91, 93, 126,
            ];
            assert(list@ == code_row(len).1);
            pick(&list, 8184, code)
        },
        14 => {
            let list = [
                94u8, 125,
            ];
            assert(list@ == code_row(len).1);
            pick(&list, 16380, code)
        },
        15 => {
            let list = [
                60u8, 96, 123,
            ];
            assert(list@ == code_row(len).1);
            pick(&list, 32764, code)
        },
        19 => {
            let list = [
                92u8, 195, 208,
            ];
            assert(list@ == code_row(len).1);
            pick(&list, 524272, code)
        },
        20 => {
            let list = [
                128u8, 130, 131, 162, 184, 194, 224, 226,
            ];
            assert(list@ == code_row(len).1);
            pick(&list, 1048550, code)
        },
        21 => {
            let list = [
                153u8, 161, 167, 172, 176, 177, 179, 209, 216, 217, 227, 229, 230,
            ];
            assert(list@ == code_row(len).1);
            pick(&list, 2097116, code)
        },
        22 => {
            let list = [
                129u8, 132, 133, 134, 136, 146, 154, 156, 160, 163, 164, 169, 170, 173, 178,
                181, 185, 186, 187, 189, 190, 196, 198, 228, 232, 233,
            ];
            assert(list@ == code_row(len).1);
            pick(&list, 4194258, code)
        },
        23 => {
            let list = [
                1u8, 135, 137, 138, 139, 140, 141, 143, 147, 149, 150, 151, 152, 155, 157, 158,
                165, 166, 168, 174, 175, 180, 182, 183, 188, 191, 197, 231, 239,
            ];
            assert(list@ == code_row(len).1);
            pick(&list, 8388568, code)
        },
        24 => {
            let list = [
                9u8, 142, 144, 145, 148, 159, 171, 206, 215, 225, 236, 237,
            ];
            assert(list@ == code_row(len).1);
            pick(&list, 16777194, code)
        },
        25 => {
            let list = [
                199u8, 207, 234, 235,
            ];
            assert(list@ == code_row(len).1);
            pick(&list, 33554412, code)
        },
        26 => {
            let list = [
                192u8, 193, 200, 201, 202, 205, 210, 213, 218, 219, 238, 240, 242, 243, 255,
            ];
            assert(list@ == code_row(len).1);
            pick(&list, 67108832, code)
        },
        27 => {
            let list = [
                203u8, 204, 211, 212, 214, 221, 222, 223, 241, 244, 245, 246, 247, 248, 250,
                251, 252, 253, 254,
            ];
            assert(list@ == code_row(len).1);
            pick(&list, 134217694, code)
        },
        28 => {
            let list = [
                2u8, 3, 4, 5, 6, 7, 8, 11, 12, 14, 15, 16, 17, 18, 19, 20, 21, 23, 24, 25, 26,
                27, 28, 29, 30, 31, 127, 220, 249,
            ];
            assert(list@ == code_row(len).1);
            pick(&list, 268435426, code)
        },
        30 => {
            let list = [
                10u8, 13, 22,
            ];
            assert(list@ == code_row(len).1);
            pick(&list, 1073741820, code)
        },
        _ => None,
    }
}

fn bit_weight(i: usize) -> (r: u8)
    requires
        i < 8,
    ensures
        r == weight(i as nat),
{
    match i {
        0 => 128,
        1 => 64,
        2 => 32,
        3 => 16,
        4 => 8,
        5 => 4,
        6 => 2,
        _ => 1,
    }
}

/// A code of fewer than 30 bits can grow by one bit within 32 bits.
proof fn code_grows(len: u8, code: nat)
    requires
        len < MAX_CODE_LEN,
        code < vstd::arithmetic::power2::pow2(len as nat),
    ensures
        2 * code + 1 < vstd::arithmetic::power2::pow2((len + 1) as nat),
        vstd::arithmetic::power2::pow2((len + 1) as nat) <= 0x4000_0000,
{
    vstd::arithmetic::power2::lemma_pow2_unfold((len + 1) as nat);
    vstd::arithmetic::power2::lemma2_to64();
    if len + 1 < 30 {
        vstd::arithmetic::power2::lemma_pow2_strictly_increases((len + 1) as nat, 30);
    }
}

/// The string that `raw` encodes, if it is valid Huffman code.
pub fn decode(raw: &[u8]) -> (r: Option<Vec<u8>>)
    ensures
        match r {
            Some(v) => decoded(raw@) == Some(v@),
            None => decoded(raw@) is None,
        },
{
    let mut out: Vec<u8> = Vec::new();
    let mut len: u8 = 0;
    let mut code: u32 = 0;
    let mut byte: usize = 0;
    proof {
        vstd::arithmetic::power2::lemma2_to64();
        assert(decoded(raw@) == after(out@, decoded(raw@))) by {
            if decoded(raw@) is Some {
                assert(out@ + decoded(raw@).unwrap() == decoded(raw@).unwrap());
            }
        }
    }
    while byte < raw.len()
        invariant
            byte <= raw@.len(),
            len <= MAX_CODE_LEN,
            code < vstd::arithmetic::power2::pow2(len as nat),
            decoded(raw@) == after(out@, unpack(raw@, 8 * byte as nat, len, code as nat)),
        decreases raw@.len() - byte,
    {
        let current: u8 = raw[byte];
        let mut i: usize = 0;
        while i < 8
            invariant
                i <= 8,
                byte < raw@.len(),
                current == raw@[byte as int],
                len <= MAX_CODE_LEN,
                code < vstd::arithmetic::power2::pow2(len as nat),
                decoded(raw@) == after(
                    out@,
                    unpack(raw@, 8 * byte as nat + i as nat, len, code as nat),
                ),
            decreases 8 - i,
        {
            let ghost at = 8 * byte as nat + i as nat;
            if len >= MAX_CODE_LEN {
                return None;
            }
            let bit: u32 = ((current / bit_weight(i)) % 2) as u32;
            proof {
                assert(bit_at(raw@, at) == bit) by {
                    assert(at as int / 8 == byte && at % 8 == i);
                }
                code_grows(len, code as nat);
                vstd::arithmetic::power2::lemma2_to64();
            }
            let longer: u8 = len + 1;
            let next: u32 = 2 * code + bit;
            match symbol(longer, next) {
                Some(b) => {
                    let ghost before = out@;
                    out.push(b);
                    len = 0;
                    code = 0;
                    proof {
                        let rest = unpack(raw@, at + 1, 0, 0);
                        if rest is Some {
                            assert(before + (seq![b] + rest.unwrap()) == out@ + rest.unwrap());
                        }
                    }
                },
                None => {
                    len = longer;
                    code = next;
                },
            }
            i = i + 1;
        }
        byte = byte + 1;
    }
    let padding: u32 = if len == 0 || len >= 8 {
        0
    } else {
        2 * (bit_weight((8 - len) as usize) as u32) - 1
    };
    if len < 8 && code == padding {
        proof {
            assert(out@ + Seq::<u8>::empty() == out@);
        }
        Some(out)
    } else {
        None
    }
}

} // verus!
