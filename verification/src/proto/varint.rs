//! The variable-length integers of QUIC.

use vstd::prelude::*;

verus! {

/// The largest integer that can be written.
pub const MAX: u64 = 0x3fff_ffff_ffff_ffff;

/// The encoding of an integer: its two highest bits tell its length.
pub open spec fn bytes_of(v: u64) -> Seq<u8> {
    if v < 0x40 {
        seq![v as u8]
    } else if v < 0x4000 {
        seq![(0x40 + v / 0x100) as u8, (v % 0x100) as u8]
    } else if v < 0x4000_0000 {
        seq![
            (0x80 + v / 0x100_0000) as u8,
            (v / 0x1_0000 % 0x100) as u8,
            (v / 0x100 % 0x100) as u8,
            (v % 0x100) as u8,
        ]
    } else {
        seq![
            (0xc0 + v / 0x100_0000_0000_0000) as u8,
            (v / 0x1_0000_0000_0000 % 0x100) as u8,
            (v / 0x100_0000_0000 % 0x100) as u8,
            (v / 0x1_0000_0000 % 0x100) as u8,
            (v / 0x100_0000 % 0x100) as u8,
            (v / 0x1_0000 % 0x100) as u8,
            (v / 0x100 % 0x100) as u8,
            (v % 0x100) as u8,
        ]
    }
}

/// The length of an integer that starts with `first`.
pub open spec fn length_of(first: u8) -> nat {
    if first < 0x40 {
        1
    } else if first < 0x80 {
        2
    } else if first < 0xc0 {
        4
    } else {
        8
    }
}

/// The number that `n` bytes stand for, most significant first.
pub open spec fn number(s: Seq<u8>, n: nat) -> nat
    decreases n,
{
    if n == 0 {
        0
    } else {
        number(s, (n - 1) as nat) * 256 + s[n - 1] as nat
    }
}

/// Reads an integer: the integer and its length, if it is complete.
pub open spec fn parse(s: Seq<u8>) -> Option<(u64, nat)> {
    if s.len() == 0 || s.len() < length_of(s[0]) {
        None
    } else {
        let n = length_of(s[0]);
        Some((number(s.update(0, s[0] % 0x40), n) as u64, n))
    }
}

/// Reads an integer from the start of `buf`, if it is complete.
pub fn decode(buf: &[u8]) -> (r: Option<(u64, usize)>)
    ensures
        match r {
            Some((v, used)) => parse(buf@) == Some((v, used as nat)) && 1 <= used <= buf@.len() && v
                <= MAX,
            None => parse(buf@) is None,
        },
{
    if buf.len() == 0 {
        return None;
    }
    let first: u8 = buf[0];
    let head: u64 = (first % 0x40) as u64;
    proof {
        reveal_with_fuel(number, 9);
    }
    if first < 0x40 {
        Some((head, 1))
    } else if first < 0x80 {
        if buf.len() < 2 {
            return None;
        }
        Some((head * 0x100 + buf[1] as u64, 2))
    } else if first < 0xc0 {
        if buf.len() < 4 {
            return None;
        }
        let v: u64 = ((head * 0x100 + buf[1] as u64) * 0x100 + buf[2] as u64) * 0x100
            + buf[3] as u64;
        Some((v, 4))
    } else {
        if buf.len() < 8 {
            return None;
        }
        let high: u64 = ((head * 0x100 + buf[1] as u64) * 0x100 + buf[2] as u64) * 0x100
            + buf[3] as u64;
        let v: u64 = (((high * 0x100 + buf[4] as u64) * 0x100 + buf[5] as u64) * 0x100
            + buf[6] as u64) * 0x100 + buf[7] as u64;
        Some((v, 8))
    }
}

/// Appends the encoding of an integer.
pub fn encode(out: &mut Vec<u8>, v: u64)
    requires
        v <= MAX,
    ensures
        final(out)@ == old(out)@ + bytes_of(v),
{
    if v < 0x40 {
        out.push(v as u8);
    } else if v < 0x4000 {
        out.push((0x40 + v / 0x100) as u8);
        out.push((v % 0x100) as u8);
    } else if v < 0x4000_0000 {
        out.push((0x80 + v / 0x100_0000) as u8);
        out.push((v / 0x1_0000 % 0x100) as u8);
        out.push((v / 0x100 % 0x100) as u8);
        out.push((v % 0x100) as u8);
    } else {
        out.push((0xc0 + v / 0x100_0000_0000_0000) as u8);
        out.push((v / 0x1_0000_0000_0000 % 0x100) as u8);
        out.push((v / 0x100_0000_0000 % 0x100) as u8);
        out.push((v / 0x1_0000_0000 % 0x100) as u8);
        out.push((v / 0x100_0000 % 0x100) as u8);
        out.push((v / 0x1_0000 % 0x100) as u8);
        out.push((v / 0x100 % 0x100) as u8);
        out.push((v % 0x100) as u8);
    }
    assert(out@ == old(out)@ + bytes_of(v));
}

/// The bytes of a number below `64 * 256^7`, most significant first.
proof fn eight_bytes(u: Seq<u8>, v: u64)
    requires
        u.len() >= 8,
        v <= MAX,
        u[0] == v / 0x100_0000_0000_0000,
        u[1] == v / 0x1_0000_0000_0000 % 0x100,
        u[2] == v / 0x100_0000_0000 % 0x100,
        u[3] == v / 0x1_0000_0000 % 0x100,
        u[4] == v / 0x100_0000 % 0x100,
        u[5] == v / 0x1_0000 % 0x100,
        u[6] == v / 0x100 % 0x100,
        u[7] == v % 0x100,
    ensures
        number(u, 8) == v,
{
    assert(number(u, 0) == 0);
    assert(number(u, 1) == v / 0x100_0000_0000_0000);
    assert(number(u, 2) == v / 0x1_0000_0000_0000);
    assert(number(u, 3) == v / 0x100_0000_0000);
    assert(number(u, 4) == v / 0x1_0000_0000);
    assert(number(u, 5) == v / 0x100_0000);
    assert(number(u, 6) == v / 0x1_0000);
    assert(number(u, 7) == v / 0x100);
}

/// Reading an integer gives back what was written, whatever follows it.
pub proof fn round_trip(v: u64, rest: Seq<u8>)
    requires
        v <= MAX,
    ensures
        parse(bytes_of(v) + rest) == Some((v, bytes_of(v).len())),
{
    let s = bytes_of(v) + rest;
    let n = bytes_of(v).len();
    assert(forall|i: int| 0 <= i < n ==> s[i] == bytes_of(v)[i]);
    let u = s.update(0, s[0] % 0x40);
    assert(number(u, 0) == 0);
    assert(number(u, 1) == u[0]);
    if v < 0x40 {
        assert(u[0] == v);
    } else if v < 0x4000 {
        assert(u[0] == v / 0x100);
        assert(number(u, 2) == v);
    } else if v < 0x4000_0000 {
        assert(u[0] == v / 0x100_0000);
        assert(number(u, 2) == v / 0x1_0000);
        assert(number(u, 3) == v / 0x100);
        assert(number(u, 4) == v);
    } else {
        assert(u[0] == v / 0x100_0000_0000_0000);
        eight_bytes(u, v);
    }
}

/// An integer takes at least one byte and no more than there are, and does not exceed the
/// largest.
pub proof fn parse_len(s: Seq<u8>)
    ensures
        parse(s) matches Some((v, used)) ==> 1 <= used <= s.len() && v <= MAX,
{
    reveal_with_fuel(number, 9);
}

/// More bytes change nothing about an integer that is complete.
pub proof fn parse_extends(s: Seq<u8>, more: Seq<u8>)
    requires
        parse(s) is Some,
    ensures
        parse(s + more) == parse(s),
{
    assert((s + more)[0] == s[0]);
    let n = length_of(s[0]);
    let a = s.update(0, s[0] % 0x40);
    let b = (s + more).update(0, s[0] % 0x40);
    same_number(a, b, n);
}

/// A number depends on its own bytes only.
proof fn same_number(a: Seq<u8>, b: Seq<u8>, n: nat)
    requires
        forall|i: int| 0 <= i < n ==> a[i] == b[i],
    ensures
        number(a, n) == number(b, n),
    decreases n,
{
    if n > 0 {
        same_number(a, b, (n - 1) as nat);
    }
}

} // verus!
