//! Integers that start within a byte.
//!
//! An integer with an `n`-bit prefix takes the low `n` bits of its first byte, whose high bits
//! belong to something else. A value that does not fit in the prefix continues in groups of
//! seven bits, least significant first.

use vstd::prelude::*;

use super::DecoderError;

verus! {

/// The number of bytes that may follow the first one.
pub const MAX_TAIL: usize = 10;

/// The continuation of an integer: seven bits per byte, the last byte below 128.
pub open spec fn tail_bytes(v: nat) -> Seq<u8>
    decreases v,
{
    if v < 128 {
        seq![v as u8]
    } else {
        seq![(v % 128 + 128) as u8] + tail_bytes(v / 128)
    }
}

/// The encoding of `v` with a prefix of `limit` values below the high bits `high`.
pub open spec fn int_bytes(limit: nat, high: nat, v: nat) -> Seq<u8> {
    if v < limit - 1 {
        seq![(high + v) as u8]
    } else {
        seq![(high + limit - 1) as u8] + tail_bytes((v - (limit - 1)) as nat)
    }
}

/// Reads the continuation of an integer from at most `room` bytes.
pub open spec fn parse_tail(s: Seq<u8>, room: nat) -> Result<(u64, nat), DecoderError>
    decreases room,
{
    if room == 0 {
        Err(DecoderError::InvalidInteger)
    } else if s.len() == 0 {
        Err(DecoderError::UnexpectedEnd)
    } else if s[0] < 128 {
        Ok((s[0] as u64, 1))
    } else {
        match parse_tail(s.skip(1), (room - 1) as nat) {
            Ok((v, used)) => if v * 128 + (s[0] - 128) <= u64::MAX {
                Ok(((v * 128 + (s[0] - 128)) as u64, used + 1))
            } else {
                Err(DecoderError::InvalidInteger)
            },
            Err(e) => Err(e),
        }
    }
}

/// Reads an integer whose prefix has `limit` values: the integer and its length.
pub open spec fn parse_int(limit: nat, s: Seq<u8>) -> Result<(u64, nat), DecoderError> {
    if s.len() == 0 {
        Err(DecoderError::UnexpectedEnd)
    } else if s[0] as nat % limit < limit - 1 {
        Ok(((s[0] as nat % limit) as u64, 1))
    } else {
        match parse_tail(s.skip(1), MAX_TAIL as nat) {
            Ok((v, used)) => if v + (limit - 1) <= u64::MAX {
                Ok(((v + (limit - 1)) as u64, used + 1))
            } else {
                Err(DecoderError::InvalidInteger)
            },
            Err(e) => Err(e),
        }
    }
}

/// A result of a parser that counts in `usize` means the same as one that counts in `nat`.
pub open spec fn same_parse<T>(
    r: Result<(T, usize), DecoderError>,
    s: Result<(T, nat), DecoderError>,
) -> bool {
    match r {
        Ok((v, used)) => s == Ok::<(T, nat), DecoderError>((v, used as nat)),
        Err(e) => s == Err::<(T, nat), DecoderError>(e),
    }
}

proof fn parse_tail_len(s: Seq<u8>, room: nat)
    ensures
        parse_tail(s, room) matches Ok((_, used)) ==> 1 <= used <= s.len(),
    decreases room,
{
    if room > 0 && s.len() > 0 && s[0] >= 128 {
        parse_tail_len(s.skip(1), (room - 1) as nat);
    }
}

/// An integer takes at least one byte and no more than there are.
pub proof fn parse_int_len(limit: nat, s: Seq<u8>)
    ensures
        parse_int(limit, s) matches Ok((_, used)) ==> 1 <= used <= s.len(),
{
    if s.len() > 0 {
        parse_tail_len(s.skip(1), MAX_TAIL as nat);
    }
}

fn decode_tail(buf: &[u8], room: usize) -> (r: Result<(u64, usize), DecoderError>)
    ensures
        same_parse(r, parse_tail(buf@, room as nat)),
        r matches Ok((_, used)) ==> 1 <= used <= buf@.len(),
    decreases room,
{
    if room == 0 {
        return Err(DecoderError::InvalidInteger);
    }
    if buf.len() == 0 {
        return Err(DecoderError::UnexpectedEnd);
    }
    let first: u8 = buf[0];
    if first < 128 {
        return Ok((first as u64, 1));
    }
    let rest = &buf[1..buf.len()];
    assert(rest@ == buf@.skip(1));
    match decode_tail(rest, room - 1) {
        Ok((v, used)) => {
            let low: u64 = (first - 128) as u64;
            if v <= (u64::MAX - low) / 128 {
                Ok((v * 128 + low, used + 1))
            } else {
                Err(DecoderError::InvalidInteger)
            }
        },
        Err(e) => Err(e),
    }
}

/// Reads an integer whose prefix has `limit` values from the start of `buf`.
pub fn decode(limit: u16, buf: &[u8]) -> (r: Result<(u64, usize), DecoderError>)
    requires
        2 <= limit <= 256,
    ensures
        same_parse(r, parse_int(limit as nat, buf@)),
        r matches Ok((_, used)) ==> 1 <= used <= buf@.len(),
{
    if buf.len() == 0 {
        return Err(DecoderError::UnexpectedEnd);
    }
    let low: u64 = (buf[0] as u16 % limit) as u64;
    let max: u64 = (limit - 1) as u64;
    if low < max {
        return Ok((low, 1));
    }
    let rest = &buf[1..buf.len()];
    assert(rest@ == buf@.skip(1));
    match decode_tail(rest, MAX_TAIL) {
        Ok((v, used)) => if v <= u64::MAX - max {
            Ok((v + max, used + 1))
        } else {
            Err(DecoderError::InvalidInteger)
        },
        Err(e) => Err(e),
    }
}

/// Appends the encoding of `value` with a prefix of `limit` values below the bits `high`.
pub fn encode(out: &mut Vec<u8>, limit: u16, high: u8, value: u64)
    requires
        2 <= limit <= 256,
        high + limit <= 256,
    ensures
        final(out)@ == old(out)@ + int_bytes(limit as nat, high as nat, value as nat),
{
    let max: u64 = (limit - 1) as u64;
    if value < max {
        out.push(high + value as u8);
        assert(out@ == old(out)@ + int_bytes(limit as nat, high as nat, value as nat));
        return;
    }
    out.push(high + max as u8);
    let mut rest: u64 = value - max;
    let ghost start = out@;
    let ghost whole = tail_bytes(rest as nat);
    assert(out@ + whole == old(out)@ + int_bytes(limit as nat, high as nat, value as nat));
    while rest >= 128
        invariant
            start + whole == out@ + tail_bytes(rest as nat),
        decreases rest,
    {
        let ghost before = out@;
        out.push((rest % 128) as u8 + 128);
        assert(before + tail_bytes(rest as nat) == out@ + tail_bytes((rest / 128) as nat));
        rest = rest / 128;
    }
    let ghost before = out@;
    out.push(rest as u8);
    assert(out@ == before + tail_bytes(rest as nat));
}

/// Reading a continuation gives back the value that was written, whatever follows it.
proof fn tail_round_trip(v: nat, room: nat, rest: Seq<u8>)
    requires
        v <= u64::MAX,
        room >= 1,
        fits(v, room),
    ensures
        parse_tail(tail_bytes(v) + rest, room) == Ok::<(u64, nat), DecoderError>(
            (v as u64, tail_bytes(v).len()),
        ),
    decreases v,
{
    reveal_with_fuel(fits, 2);
    let s = tail_bytes(v) + rest;
    if v < 128 {
        assert(s[0] == v as u8);
    } else {
        assert(s.skip(1) == tail_bytes(v / 128) + rest);
        assert(s[0] == (v % 128 + 128) as u8);
        tail_round_trip(v / 128, (room - 1) as nat, rest);
    }
}

/// Whether `room` groups of seven bits hold `v`.
pub open spec fn fits(v: nat, room: nat) -> bool
    decreases room,
{
    if room == 0 {
        v == 0
    } else {
        fits(v / 128, (room - 1) as nat)
    }
}

/// Every integer of 64 bits fits in the bytes that may follow the first one.
proof fn all_fit(v: nat)
    requires
        v <= u64::MAX,
    ensures
        fits(v, MAX_TAIL as nat),
{
    reveal_with_fuel(fits, 11);
}

/// Reading an integer gives back the value that was written, whatever follows it.
pub proof fn int_round_trip(limit: nat, high: nat, v: nat, rest: Seq<u8>)
    requires
        2 <= limit <= 256,
        high % limit == 0,
        high + limit <= 256,
        v <= u64::MAX,
    ensures
        parse_int(limit, int_bytes(limit, high, v) + rest) == Ok::<(u64, nat), DecoderError>(
            (v as u64, int_bytes(limit, high, v).len()),
        ),
        int_bytes(limit, high, v).len() >= 1,
        high <= int_bytes(limit, high, v)[0] < high + limit,
{
    let s = int_bytes(limit, high, v) + rest;
    let low: int = if v < limit - 1 { v as int } else { limit - 1 };
    assert(s[0] == (high + low) as u8);
    assert(s[0] as int == high + low);
    assert(s[0] as nat % limit == low) by {
        vstd::arithmetic::div_mod::lemma_fundamental_div_mod(high as int, limit as int);
        vstd::arithmetic::div_mod::lemma_mod_multiples_vanish(high as int / limit as int, low, limit as int);
        vstd::arithmetic::div_mod::lemma_small_mod(low as nat, limit);
    }
    if v >= limit - 1 {
        let t = (v - (limit - 1)) as nat;
        assert(s.skip(1) == tail_bytes(t) + rest);
        all_fit(t);
        tail_round_trip(t, MAX_TAIL as nat, rest);
    }
}

} // verus!
