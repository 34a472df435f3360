//! String literals: a length with a prefix, then that many bytes.
//!
//! The bit above the length's prefix tells whether the bytes are Huffman code. Strings are
//! always written plain.

use vstd::prelude::*;

use super::{huffman, prefix_int, DecoderError};

verus! {

/// The plain encoding of `v`, its length with a prefix of `limit` values below the bits `high`.
pub open spec fn string_bytes(limit: nat, high: nat, v: Seq<u8>) -> Seq<u8> {
    prefix_int::int_bytes(limit, high, v.len()) + v
}

/// Whether the bit above a prefix of `limit` values is set.
pub open spec fn huffman_bit(limit: nat, first: u8) -> bool {
    (first as nat / limit) % 2 == 1
}

/// Reads a string whose length has a prefix of `limit` values: the string and the bytes used.
pub open spec fn parse_string(limit: nat, s: Seq<u8>) -> Result<(Seq<u8>, nat), DecoderError> {
    match prefix_int::parse_int(limit, s) {
        Err(e) => Err(e),
        Ok((len, used)) => if used + len > s.len() {
            Err(DecoderError::UnexpectedEnd)
        } else {
            let raw = s.subrange(used as int, used + len);
            if huffman_bit(limit, s[0]) {
                match huffman::decoded(raw) {
                    Some(v) => Ok((v, (used + len) as nat)),
                    None => Err(DecoderError::InvalidString),
                }
            } else {
                Ok((raw, (used + len) as nat))
            }
        },
    }
}

/// A string takes at least one byte and no more than there are.
pub proof fn parse_string_len(limit: nat, s: Seq<u8>)
    ensures
        parse_string(limit, s) matches Ok((_, used)) ==> 1 <= used <= s.len(),
{
    prefix_int::parse_int_len(limit, s);
}

/// A result of a parser over values means the same as one over their models.
pub open spec fn same_model<T: View>(
    r: Result<(T, usize), DecoderError>,
    s: Result<(T::V, nat), DecoderError>,
) -> bool {
    match r {
        Ok((v, used)) => s == Ok::<(T::V, nat), DecoderError>((v@, used as nat)),
        Err(e) => s == Err::<(T::V, nat), DecoderError>(e),
    }
}

/// Reads a string whose length has a prefix of `limit` values from the start of `buf`.
pub fn decode(limit: u16, buf: &[u8]) -> (r: Result<(Vec<u8>, usize), DecoderError>)
    requires
        2 <= limit <= 256,
    ensures
        same_model(r, parse_string(limit as nat, buf@)),
        r matches Ok((_, used)) ==> 1 <= used <= buf@.len(),
{
    match prefix_int::decode(limit, buf) {
        Err(e) => Err(e),
        Ok((len, used)) => {
            if len > (buf.len() - used) as u64 {
                return Err(DecoderError::UnexpectedEnd);
            }
            let end: usize = used + len as usize;
            let raw = &buf[used..end];
            assert(buf[0] as nat / limit as nat == (buf[0] as u16 / limit) as nat);
            if (buf[0] as u16 / limit) % 2 == 1 {
                match huffman::decode(raw) {
                    Some(v) => Ok((v, end)),
                    None => Err(DecoderError::InvalidString),
                }
            } else {
                Ok((vstd::slice::slice_to_vec(raw), end))
            }
        },
    }
}

/// Appends the plain encoding of `value`.
pub fn encode(out: &mut Vec<u8>, limit: u16, high: u8, value: &[u8])
    requires
        2 <= limit <= 256,
        high + limit <= 256,
    ensures
        final(out)@ == old(out)@ + string_bytes(limit as nat, high as nat, value@),
{
    prefix_int::encode(out, limit, high, value.len() as u64);
    out.extend_from_slice(value);
    assert(out@ == old(out)@ + string_bytes(limit as nat, high as nat, value@));
}

/// Reading a string gives back what was written, whatever follows it.
pub proof fn string_round_trip(limit: nat, high: nat, v: Seq<u8>, rest: Seq<u8>)
    requires
        2 <= limit <= 256,
        high % limit == 0,
        (high / limit) % 2 == 0,
        high + limit <= 256,
        v.len() <= u64::MAX,
    ensures
        parse_string(limit, string_bytes(limit, high, v) + rest) == Ok::<
            (Seq<u8>, nat),
            DecoderError,
        >((v, string_bytes(limit, high, v).len())),
        string_bytes(limit, high, v).len() >= 1,
        high <= string_bytes(limit, high, v)[0] < high + limit,
{
    let head = prefix_int::int_bytes(limit, high, v.len());
    let s = string_bytes(limit, high, v) + rest;
    prefix_int::int_round_trip(limit, high, v.len(), v + rest);
    assert(s == head + (v + rest));
    assert(s.subrange(head.len() as int, (head.len() + v.len()) as int) == v);
    assert(s[0] == head[0]);
    assert(s[0] as nat / limit == high / limit) by {
        let k = (s[0] - high) as int;
        vstd::arithmetic::div_mod::lemma_fundamental_div_mod(high as int, limit as int);
        vstd::arithmetic::div_mod::lemma_fundamental_div_mod_converse(
            s[0] as int,
            limit as int,
            high as int / limit as int,
            k,
        );
    }
}

} // verus!
