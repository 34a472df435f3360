//! How the bytes of header blocks and of the two QPACK streams are to be read.
//!
//! Every statement here is about all bytes of some form, also about forms that this encoder
//! does not write.

use vstd::prelude::*;

use super::decoder::InstructionView;
use super::dynamic::TableView;
use super::encoder::Report;
use super::{
    decoder, dynamic, encoder, huffman, prefix_int, prefix_string, static_table, DecoderError,
    DynamicTableError, EncoderError, FieldView,
};

verus! {

// Integers.

/// The number that groups of seven bits stand for, least significant first.
pub open spec fn group_value(groups: Seq<u8>) -> nat
    decreases groups.len(),
{
    if groups.len() == 0 {
        0
    } else {
        groups[0] as nat % 128 + 128 * group_value(groups.skip(1))
    }
}

/// Whether some bytes are the whole continuation of an integer: the last one, and only it, is
/// below 128.
pub open spec fn is_continuation(groups: Seq<u8>) -> bool {
    &&& groups.len() > 0
    &&& groups.last() < 128
    &&& forall|i: int| 0 <= i < groups.len() - 1 ==> #[trigger] groups[i] >= 128
}

proof fn continuation_is_read(groups: Seq<u8>, rest: Seq<u8>, room: nat)
    requires
        is_continuation(groups),
        groups.len() <= room,
    ensures
        prefix_int::parse_tail(groups + rest, room) == (if group_value(groups) <= u64::MAX {
            Ok::<(u64, nat), DecoderError>((group_value(groups) as u64, groups.len()))
        } else {
            Err(DecoderError::InvalidInteger)
        }),
    decreases room,
{
    let s = groups + rest;
    assert(s[0] == groups[0]);
    if groups.len() == 1 {
        assert(group_value(groups.skip(1)) == 0);
        assert(groups[0] == groups.last());
    } else {
        assert(groups[0] >= 128);
        let next = groups.skip(1);
        assert(s.skip(1) == next + rest);
        assert(next.last() == groups.last());
        assert forall|i: int| 0 <= i < next.len() - 1 implies #[trigger] next[i] >= 128 by {
            assert(next[i] == groups[i + 1]);
        }
        continuation_is_read(next, rest, (room - 1) as nat);
        assert(groups[0] as nat % 128 == groups[0] - 128);
    }
}

/// An integer that fits in its prefix is what the prefix holds.
pub proof fn short_integer(limit: nat, s: Seq<u8>)
    requires
        2 <= limit <= 256,
        s.len() > 0,
        s[0] as nat % limit < limit - 1,
    ensures
        prefix_int::parse_int(limit, s) == Ok::<(u64, nat), DecoderError>(
            ((s[0] as nat % limit) as u64, 1),
        ),
{
}

/// An integer that does not fit in its prefix is the largest prefix and the number that the
/// groups after it stand for. One that 64 bits do not hold is invalid.
pub proof fn long_integer(limit: nat, first: u8, groups: Seq<u8>, rest: Seq<u8>)
    requires
        2 <= limit <= 256,
        first as nat % limit == limit - 1,
        is_continuation(groups),
        groups.len() <= 10,
    ensures
        prefix_int::parse_int(limit, seq![first] + groups + rest) == (if limit - 1 + group_value(
            groups,
        ) <= u64::MAX {
            Ok::<(u64, nat), DecoderError>(
                ((limit - 1 + group_value(groups)) as u64, 1 + groups.len()),
            )
        } else {
            Err(DecoderError::InvalidInteger)
        }),
{
    let s = seq![first] + groups + rest;
    assert(s[0] == first);
    assert(s.skip(1) == groups + rest);
    continuation_is_read(groups, rest, 10);
}

/// An integer of which the end has not arrived is incomplete.
pub proof fn unfinished_integer(limit: nat, s: Seq<u8>)
    requires
        2 <= limit <= 256,
        s.len() <= 10,
        s.len() > 0 ==> s[0] as nat % limit == limit - 1,
        forall|i: int| 1 <= i < s.len() ==> #[trigger] s[i] >= 128,
    ensures
        prefix_int::parse_int(limit, s) == Err::<(u64, nat), DecoderError>(
            DecoderError::UnexpectedEnd,
        ),
{
    if s.len() > 0 {
        unfinished_tail(s.skip(1), 10);
    }
}

proof fn unfinished_tail(s: Seq<u8>, room: nat)
    requires
        s.len() < room,
        forall|i: int| 0 <= i < s.len() ==> #[trigger] s[i] >= 128,
    ensures
        prefix_int::parse_tail(s, room) == Err::<(u64, nat), DecoderError>(
            DecoderError::UnexpectedEnd,
        ),
    decreases room,
{
    if s.len() > 0 {
        assert(s[0] >= 128);
        assert forall|i: int| 0 <= i < s.skip(1).len() implies #[trigger] s.skip(1)[i] >= 128 by {
            assert(s.skip(1)[i] == s[i + 1]);
        }
        unfinished_tail(s.skip(1), (room - 1) as nat);
    }
}

/// An integer that goes on for more than ten groups is invalid.
pub proof fn endless_integer(limit: nat, s: Seq<u8>)
    requires
        2 <= limit <= 256,
        s.len() >= 11,
        s[0] as nat % limit == limit - 1,
        forall|i: int| 1 <= i <= 10 ==> #[trigger] s[i] >= 128,
    ensures
        prefix_int::parse_int(limit, s) == Err::<(u64, nat), DecoderError>(
            DecoderError::InvalidInteger,
        ),
{
    endless_tail(s.skip(1), 10);
}

proof fn endless_tail(s: Seq<u8>, room: nat)
    requires
        s.len() >= room,
        forall|i: int| 0 <= i < room ==> #[trigger] s[i] >= 128,
    ensures
        prefix_int::parse_tail(s, room) == Err::<(u64, nat), DecoderError>(
            DecoderError::InvalidInteger,
        ),
    decreases room,
{
    if room > 0 {
        assert(s[0] >= 128);
        assert forall|i: int| 0 <= i < room - 1 implies #[trigger] s.skip(1)[i] >= 128 by {
            assert(s.skip(1)[i] == s[i + 1]);
        }
        endless_tail(s.skip(1), (room - 1) as nat);
    }
}

/// An integer is written in the shortest way: in its prefix if it fits, and otherwise with as
/// many groups as it needs. The bits above the prefix are the given ones.
pub proof fn written_integer(limit: nat, high: nat, v: nat)
    requires
        2 <= limit <= 256,
        high % limit == 0,
        high + limit <= 256,
    ensures
        ({
            let s = prefix_int::int_bytes(limit, high, v);
            if v < limit - 1 {
                s == seq![(high + v) as u8]
            } else {
                &&& s[0] == high + limit - 1
                &&& is_continuation(s.skip(1))
                &&& group_value(s.skip(1)) == v - (limit - 1)
                &&& s.len() > 2 ==> s.last() != 0
            }
        }),
{
    if v >= limit - 1 {
        let w = (v - (limit - 1)) as nat;
        let s = prefix_int::int_bytes(limit, high, v);
        assert(s.skip(1) == prefix_int::tail_bytes(w));
        written_tail(w);
        assert(s.last() == s.skip(1).last());
    }
}

proof fn written_tail(v: nat)
    ensures
        is_continuation(prefix_int::tail_bytes(v)),
        group_value(prefix_int::tail_bytes(v)) == v,
        v > 0 ==> prefix_int::tail_bytes(v).last() != 0,
        v < 128 ==> prefix_int::tail_bytes(v).len() == 1,
    decreases v,
{
    let s = prefix_int::tail_bytes(v);
    if v < 128 {
        assert(group_value(s.skip(1)) == 0);
    } else {
        let rest = prefix_int::tail_bytes(v / 128);
        written_tail(v / 128);
        assert(s.skip(1) == rest);
        assert(s.last() == rest.last());
        assert forall|i: int| 0 <= i < s.len() - 1 implies #[trigger] s[i] >= 128 by {
            if i > 0 {
                assert(s[i] == rest[i - 1]);
            }
        }
    }
}

// Strings.

/// A string literal is the bytes after its length, or what their Huffman code stands for if the
/// bit above the length says so.
pub proof fn string_literal(limit: nat, high: nat, raw: Seq<u8>, rest: Seq<u8>)
    requires
        2 <= limit <= 128,
        high % limit == 0,
        high + limit <= 256,
        raw.len() <= u64::MAX,
    ensures
        ({
            let head = prefix_int::int_bytes(limit, high, raw.len());
            let r = prefix_string::parse_string(limit, head + raw + rest);
            if (high / limit) % 2 == 0 {
                r == Ok::<(Seq<u8>, nat), DecoderError>((raw, head.len() + raw.len()))
            } else {
                match huffman::decoded(raw) {
                    Some(text) => r == Ok::<(Seq<u8>, nat), DecoderError>(
                        (text, head.len() + raw.len()),
                    ),
                    None => r == Err::<(Seq<u8>, nat), DecoderError>(DecoderError::InvalidString),
                }
            }
        }),
{
    let head = prefix_int::int_bytes(limit, high, raw.len());
    let s = head + raw + rest;
    prefix_int::int_round_trip(limit, high, raw.len(), raw + rest);
    assert(s == head + (raw + rest));
    assert(s[0] == head[0]);
    assert(s.subrange(head.len() as int, (head.len() + raw.len()) as int) == raw);
    assert(s[0] as nat / limit == high / limit) by {
        same_quotient(s[0] as nat, high, limit);
    }
}

/// A string literal of which the end has not arrived is incomplete.
pub proof fn unfinished_string(limit: nat, high: nat, len: u64, raw: Seq<u8>)
    requires
        2 <= limit <= 128,
        high % limit == 0,
        high + limit <= 256,
        raw.len() < len,
    ensures
        prefix_string::parse_string(limit, prefix_int::int_bytes(limit, high, len as nat) + raw)
            == Err::<(Seq<u8>, nat), DecoderError>(DecoderError::UnexpectedEnd),
{
    prefix_int::int_round_trip(limit, high, len as nat, raw);
}

proof fn same_quotient(x: nat, high: nat, limit: nat)
    requires
        limit > 0,
        high % limit == 0,
        high <= x < high + limit,
    ensures
        x / limit == high / limit,
{
    vstd::arithmetic::div_mod::lemma_fundamental_div_mod(high as int, limit as int);
    let q = high as int / limit as int;
    assert(x == q * limit as int + (x - high)) by (nonlinear_arith)
        requires
            high == limit as int * q,
    ;
    vstd::arithmetic::div_mod::lemma_fundamental_div_mod_converse(
        x as int,
        limit as int,
        q,
        x - high,
    );
}

// The lines of a header block.

/// The entry of the dynamic table with an absolute index, if the table holds it.
pub open spec fn held(t: TableView, index: int) -> bool {
    t.dropped <= index < t.dropped + t.fields.len()
}

/// An indexed field line, `1T` and an index of six bits or more: the static entry with that
/// index, or the dynamic entry that many before the last one below the base.
pub proof fn indexed_line(t: TableView, base: nat, s: Seq<u8>, i: u64, used: nat)
    requires
        s.len() > 0,
        s[0] >= 128,
        prefix_int::parse_int(64, s) == Ok::<(u64, nat), DecoderError>((i, used)),
    ensures
        ({
            let r = decoder::parse_line(t, base, s);
            let at = base - 1 - i;
            if s[0] >= 192 {
                if i < 99 {
                    r == Ok::<(FieldView, nat), DecoderError>((static_table::entry(i), used))
                } else {
                    r == Err::<(FieldView, nat), DecoderError>(DecoderError::InvalidStaticIndex(i))
                }
            } else if held(t, at) {
                r == Ok::<(FieldView, nat), DecoderError>((t.fields[at - t.dropped], used))
            } else {
                r == Err::<(FieldView, nat), DecoderError>(DecoderError::InvalidIndex(i))
            }
        }),
{
    reveal(decoder::parse_line);
}

/// An indexed field line with an index past the base, `0001` and four bits or more.
pub proof fn indexed_line_past_base(t: TableView, base: nat, s: Seq<u8>, i: u64, used: nat)
    requires
        s.len() > 0,
        16 <= s[0] < 32,
        prefix_int::parse_int(16, s) == Ok::<(u64, nat), DecoderError>((i, used)),
    ensures
        ({
            let r = decoder::parse_line(t, base, s);
            let at = base + i;
            if held(t, at) {
                r == Ok::<(FieldView, nat), DecoderError>((t.fields[at - t.dropped], used))
            } else {
                r == Err::<(FieldView, nat), DecoderError>(DecoderError::InvalidIndex(i))
            }
        }),
{
    reveal(decoder::parse_line);
}

/// A literal field line with a name reference, `01NT`, an index of four bits or more, and a
/// value: the name of the static entry with that index, or of the dynamic entry that many before
/// the last one below the base.
pub proof fn literal_line_with_name_reference(
    t: TableView,
    base: nat,
    s: Seq<u8>,
    i: u64,
    used: nat,
    value: Seq<u8>,
    more: nat,
)
    requires
        s.len() > 0,
        64 <= s[0] < 128,
        prefix_int::parse_int(16, s) == Ok::<(u64, nat), DecoderError>((i, used)),
        prefix_string::parse_string(128, s.skip(used as int)) == Ok::<
            (Seq<u8>, nat),
            DecoderError,
        >((value, more)),
    ensures
        ({
            let r = decoder::parse_line(t, base, s);
            let at = base - 1 - i;
            if (s[0] / 16) % 2 == 1 {
                if i < 99 {
                    r == Ok::<(FieldView, nat), DecoderError>(
                        ((static_table::entry(i).0, value), used + more),
                    )
                } else {
                    r == Err::<(FieldView, nat), DecoderError>(DecoderError::InvalidStaticIndex(i))
                }
            } else if held(t, at) {
                r == Ok::<(FieldView, nat), DecoderError>(
                    ((t.fields[at - t.dropped].0, value), used + more),
                )
            } else {
                r == Err::<(FieldView, nat), DecoderError>(DecoderError::InvalidIndex(i))
            }
        }),
{
    reveal(decoder::parse_line);
}

/// A literal field line with a name reference past the base, `0000N`, an index of three bits or
/// more, and a value.
pub proof fn literal_line_with_name_past_base(
    t: TableView,
    base: nat,
    s: Seq<u8>,
    i: u64,
    used: nat,
    value: Seq<u8>,
    more: nat,
)
    requires
        s.len() > 0,
        s[0] < 16,
        prefix_int::parse_int(8, s) == Ok::<(u64, nat), DecoderError>((i, used)),
        prefix_string::parse_string(128, s.skip(used as int)) == Ok::<
            (Seq<u8>, nat),
            DecoderError,
        >((value, more)),
    ensures
        ({
            let r = decoder::parse_line(t, base, s);
            let at = base + i;
            if held(t, at) {
                r == Ok::<(FieldView, nat), DecoderError>(
                    ((t.fields[at - t.dropped].0, value), used + more),
                )
            } else {
                r == Err::<(FieldView, nat), DecoderError>(DecoderError::InvalidIndex(i))
            }
        }),
{
    reveal(decoder::parse_line);
}

/// A literal field line with a literal name, `001N`, the name and the value.
pub proof fn literal_line(
    t: TableView,
    base: nat,
    s: Seq<u8>,
    name: Seq<u8>,
    used: nat,
    value: Seq<u8>,
    more: nat,
)
    requires
        s.len() > 0,
        32 <= s[0] < 64,
        prefix_string::parse_string(8, s) == Ok::<(Seq<u8>, nat), DecoderError>((name, used)),
        prefix_string::parse_string(128, s.skip(used as int)) == Ok::<
            (Seq<u8>, nat),
            DecoderError,
        >((value, more)),
    ensures
        decoder::parse_line(t, base, s) == Ok::<(FieldView, nat), DecoderError>(
            ((name, value), used + more),
        ),
{
    reveal(decoder::parse_line);
}

/// A line whose index, name or value cannot be read is no line, for the same reason.
pub proof fn broken_line(t: TableView, base: nat, s: Seq<u8>, e: DecoderError)
    ensures
        s.len() == 0 ==> decoder::parse_line(t, base, s) == Err::<(FieldView, nat), DecoderError>(
            DecoderError::UnexpectedEnd,
        ),
        s.len() > 0 && s[0] >= 128 && prefix_int::parse_int(64, s) == Err::<
            (u64, nat),
            DecoderError,
        >(e) ==> decoder::parse_line(t, base, s) == Err::<(FieldView, nat), DecoderError>(e),
        s.len() > 0 && (64 <= s[0] < 128 || 16 <= s[0] < 32) && prefix_int::parse_int(16, s)
            == Err::<(u64, nat), DecoderError>(e) ==> decoder::parse_line(t, base, s) == Err::<
            (FieldView, nat),
            DecoderError,
        >(e),
        s.len() > 0 && s[0] < 16 && prefix_int::parse_int(8, s) == Err::<(u64, nat), DecoderError>(
            e,
        ) ==> decoder::parse_line(t, base, s) == Err::<(FieldView, nat), DecoderError>(e),
        s.len() > 0 && 32 <= s[0] < 64 && prefix_string::parse_string(8, s) == Err::<
            (Seq<u8>, nat),
            DecoderError,
        >(e) ==> decoder::parse_line(t, base, s) == Err::<(FieldView, nat), DecoderError>(e),
        s.len() > 0 && 64 <= s[0] < 128 ==> (prefix_int::parse_int(16, s) matches Ok((_, used))
            ==> prefix_string::parse_string(128, s.skip(used as int)) == Err::<
            (Seq<u8>, nat),
            DecoderError,
        >(e) ==> decoder::parse_line(t, base, s) == Err::<(FieldView, nat), DecoderError>(e)),
        s.len() > 0 && s[0] < 16 ==> (prefix_int::parse_int(8, s) matches Ok((_, used))
            ==> prefix_string::parse_string(128, s.skip(used as int)) == Err::<
            (Seq<u8>, nat),
            DecoderError,
        >(e) ==> decoder::parse_line(t, base, s) == Err::<(FieldView, nat), DecoderError>(e)),
        s.len() > 0 && 32 <= s[0] < 64 ==> (prefix_string::parse_string(8, s) matches Ok((_, used))
            ==> prefix_string::parse_string(128, s.skip(used as int)) == Err::<
            (Seq<u8>, nat),
            DecoderError,
        >(e) ==> decoder::parse_line(t, base, s) == Err::<(FieldView, nat), DecoderError>(e)),
{
    reveal(decoder::parse_line);
}

/// The lines of a block are read one after another; the first one that is broken makes the block
/// broken.
pub proof fn line_by_line(t: TableView, base: nat, s: Seq<u8>)
    ensures
        s.len() == 0 ==> decoder::lines(t, base, s) == Ok::<Seq<FieldView>, DecoderError>(
            Seq::empty(),
        ),
        s.len() > 0 ==> (decoder::parse_line(t, base, s) matches Err(e) ==> decoder::lines(
            t,
            base,
            s,
        ) == Err::<Seq<FieldView>, DecoderError>(e)),
        s.len() > 0 ==> (decoder::parse_line(t, base, s) matches Ok((f, used))
            ==> match decoder::lines(t, base, s.skip(used as int)) {
            Ok(rest) => decoder::lines(t, base, s) == Ok::<Seq<FieldView>, DecoderError>(
                seq![f] + rest,
            ),
            Err(e) => decoder::lines(t, base, s) == Err::<Seq<FieldView>, DecoderError>(e),
        }),
{
}

// The prefix of a header block.

/// The number of required insertions is zero if it is written as zero. Otherwise it is the one
/// positive number among the twice as many as the table can hold entries, around what has
/// arrived, that is written so; if there is none, the block is invalid.
pub proof fn required_insertions(encoded: u64, max_entries: nat, inserted: nat, n: nat)
    ensures
        encoded == 0 ==> (decoder::required_count(encoded, max_entries, inserted) == Some(n) <==> n
            == 0),
        encoded > 0 ==> (decoder::required_count(encoded, max_entries, inserted) == Some(n) <==> {
            &&& n > 0
            &&& max_entries > 0
            &&& n % (2 * max_entries) + 1 == encoded
            &&& n <= inserted + max_entries
            &&& n + max_entries > inserted
        }),
{
    if encoded > 0 && max_entries > 0 {
        let full = (2 * max_entries) as int;
        let max_value = (inserted + max_entries) as int;
        let floor = max_value - max_value % full;
        let candidate = floor + encoded - 1;
        vstd::arithmetic::div_mod::lemma_fundamental_div_mod(max_value, full);
        vstd::arithmetic::div_mod::lemma_mod_bound(max_value, full);
        let p = max_value / full;
        if encoded <= full {
            // Both candidates leave the same remainder.
            assert(candidate == full * p + (encoded - 1));
            vstd::arithmetic::div_mod::lemma_fundamental_div_mod_converse(
                candidate,
                full,
                p,
                encoded - 1,
            );
            assert(candidate - full == full * (p - 1) + (encoded - 1)) by (nonlinear_arith)
                requires
                    candidate == full * p + (encoded - 1),
            ;
            vstd::arithmetic::div_mod::lemma_fundamental_div_mod_converse(
                candidate - full,
                full,
                p - 1,
                encoded - 1,
            );
        }
        // A number with that remainder in the range is one of the two.
        let r = n as int;
        vstd::arithmetic::div_mod::lemma_fundamental_div_mod(r, full);
        vstd::arithmetic::div_mod::lemma_mod_bound(r, full);
        let q = r / full;
        if n % (2 * max_entries) + 1 == encoded && n <= inserted + max_entries && n + max_entries
            > inserted {
            assert(encoded <= full);
            assert(candidate - r == full * (p - q)) by (nonlinear_arith)
                requires
                    candidate == full * p + (encoded - 1),
                    r == full * q + (encoded - 1),
            ;
            assert(p - q == 0 || p - q == 1) by (nonlinear_arith)
                requires
                    full > 0,
                    candidate - r == full * (p - q),
                    -full < candidate - r,
                    candidate - r < 2 * full,
            ;
            assert(candidate - r == 0 || candidate - r == full) by (nonlinear_arith)
                requires
                    candidate - r == full * (p - q),
                    p - q == 0 || p - q == 1,
            ;
        }
    }
}

/// The prefix of a block: the required insertions as they are written, then the distance of the
/// base from them, with its sign. What the base comes to has to be a number of 64 bits.
pub proof fn block_prefix(
    t: TableView,
    s: Seq<u8>,
    encoded: u64,
    used: nat,
    delta: u64,
    more: nat,
)
    requires
        prefix_int::parse_int(256, s) == Ok::<(u64, nat), DecoderError>((encoded, used)),
        prefix_int::parse_int(128, s.skip(used as int)) == Ok::<(u64, nat), DecoderError>(
            (delta, more),
        ),
    ensures
        ({
            let r = decoder::parse_prefix(t, s);
            match decoder::required_count(encoded, t.max_capacity / 32, t.inserted()) {
                None => r == Err::<(nat, nat, nat), DecoderError>(DecoderError::BadBaseIndex),
                Some(n) => {
                    let base = if s[used as int] < 128 {
                        n + delta
                    } else {
                        n - delta - 1
                    };
                    if 0 <= base <= u64::MAX && n <= usize::MAX {
                        r == Ok::<(nat, nat, nat), DecoderError>((n, base as nat, used + more))
                    } else {
                        r == Err::<(nat, nat, nat), DecoderError>(DecoderError::BadBaseIndex)
                    }
                },
            }
        }),
{
    required_insertions(
        encoded,
        t.max_entries(),
        t.inserted(),
        decoder::required_count(encoded, t.max_entries(), t.inserted()).unwrap_or(0),
    );
}

/// A block whose prefix cannot be read is no block, for the same reason.
pub proof fn broken_prefix(t: TableView, s: Seq<u8>, e: DecoderError)
    ensures
        prefix_int::parse_int(256, s) == Err::<(u64, nat), DecoderError>(e)
            ==> decoder::block_fields(t, s) == Err::<Seq<FieldView>, DecoderError>(e),
        prefix_int::parse_int(256, s) matches Ok((_, used)) ==> prefix_int::parse_int(
            128,
            s.skip(used as int),
        ) == Err::<(u64, nat), DecoderError>(e) ==> decoder::block_fields(t, s) == Err::<
            Seq<FieldView>,
            DecoderError,
        >(e),
        decoder::parse_prefix(t, s) == Err::<(nat, nat, nat), DecoderError>(e)
            ==> decoder::block_fields(t, s) == Err::<Seq<FieldView>, DecoderError>(e),
{
}

/// A block waits exactly if it requires more insertions than there have been, and says how many;
/// otherwise it is what its lines say.
pub proof fn block_waits_or_reads(t: TableView, s: Seq<u8>, required: nat, base: nat, used: nat)
    requires
        decoder::parse_prefix(t, s) == Ok::<(nat, nat, nat), DecoderError>((required, base, used)),
    ensures
        if required > t.dropped + t.fields.len() {
            decoder::block_fields(t, s) == Err::<Seq<FieldView>, DecoderError>(
                DecoderError::MissingRefs(required as usize),
            ) && required <= usize::MAX
        } else {
            decoder::block_fields(t, s) == decoder::lines(t, base, s.skip(used as int))
        },
{
}

// The instructions of the encoder stream.

/// An insertion with a name reference, `1T`, an index of six bits or more, and a value: the name
/// of the static entry with that index, or of the dynamic entry that many before the newest one.
pub proof fn insertion_with_name_reference(
    t: TableView,
    s: Seq<u8>,
    i: u64,
    used: nat,
    value: Seq<u8>,
    more: nat,
)
    requires
        s.len() > 0,
        s[0] >= 128,
        prefix_int::parse_int(64, s) == Ok::<(u64, nat), DecoderError>((i, used)),
        prefix_string::parse_string(128, s.skip(used as int)) == Ok::<
            (Seq<u8>, nat),
            DecoderError,
        >((value, more)),
    ensures
        ({
            let r = decoder::parse_instruction(t, s);
            let at = t.fields.len() - 1 - i;
            if s[0] >= 192 {
                if i < 99 {
                    r == Ok::<(InstructionView, nat), DecoderError>(
                        (
                            InstructionView::Insert((static_table::entry(i).0, value)),
                            used + more,
                        ),
                    )
                } else {
                    r == Err::<(InstructionView, nat), DecoderError>(
                        DecoderError::InvalidStaticIndex(i),
                    )
                }
            } else if at >= 0 {
                r == Ok::<(InstructionView, nat), DecoderError>(
                    (InstructionView::Insert((t.fields[at].0, value)), used + more),
                )
            } else {
                r == Err::<(InstructionView, nat), DecoderError>(DecoderError::InvalidIndex(i))
            }
        }),
{
    reveal(decoder::parse_instruction);
}

/// An insertion with a literal name, `01`, the name and the value.
pub proof fn insertion_with_literal_name(
    t: TableView,
    s: Seq<u8>,
    name: Seq<u8>,
    used: nat,
    value: Seq<u8>,
    more: nat,
)
    requires
        s.len() > 0,
        64 <= s[0] < 128,
        prefix_string::parse_string(32, s) == Ok::<(Seq<u8>, nat), DecoderError>((name, used)),
        prefix_string::parse_string(128, s.skip(used as int)) == Ok::<
            (Seq<u8>, nat),
            DecoderError,
        >((value, more)),
    ensures
        decoder::parse_instruction(t, s) == Ok::<(InstructionView, nat), DecoderError>(
            (InstructionView::Insert((name, value)), used + more),
        ),
{
    reveal(decoder::parse_instruction);
}

/// A change of the capacity, `001` and a number of five bits or more; and a duplication, `000`
/// and the place of an entry, counted back from the newest one.
pub proof fn capacity_or_duplicate(t: TableView, s: Seq<u8>, n: u64, used: nat)
    requires
        s.len() > 0,
        s[0] < 64,
        prefix_int::parse_int(32, s) == Ok::<(u64, nat), DecoderError>((n, used)),
    ensures
        ({
            let r = decoder::parse_instruction(t, s);
            let at = t.fields.len() - 1 - n;
            if s[0] >= 32 {
                r == Ok::<(InstructionView, nat), DecoderError>(
                    (InstructionView::Capacity(n), used),
                )
            } else if at >= 0 {
                r == Ok::<(InstructionView, nat), DecoderError>(
                    (InstructionView::Insert(t.fields[at]), used),
                )
            } else {
                r == Err::<(InstructionView, nat), DecoderError>(DecoderError::InvalidIndex(n))
            }
        }),
{
    reveal(decoder::parse_instruction);
}

/// An instruction of which an index, a name or a value cannot be read is no instruction, for the
/// same reason.
pub proof fn broken_instruction(t: TableView, s: Seq<u8>, e: DecoderError)
    ensures
        s.len() == 0 ==> decoder::parse_instruction(t, s) == Err::<
            (InstructionView, nat),
            DecoderError,
        >(DecoderError::UnexpectedEnd),
        s.len() > 0 && s[0] >= 128 && prefix_int::parse_int(64, s) == Err::<
            (u64, nat),
            DecoderError,
        >(e) ==> decoder::parse_instruction(t, s) == Err::<(InstructionView, nat), DecoderError>(e),
        s.len() > 0 && 64 <= s[0] < 128 && prefix_string::parse_string(32, s) == Err::<
            (Seq<u8>, nat),
            DecoderError,
        >(e) ==> decoder::parse_instruction(t, s) == Err::<(InstructionView, nat), DecoderError>(e),
        s.len() > 0 && s[0] < 64 && prefix_int::parse_int(32, s) == Err::<(u64, nat), DecoderError>(
            e,
        ) ==> decoder::parse_instruction(t, s) == Err::<(InstructionView, nat), DecoderError>(e),
        s.len() > 0 && s[0] >= 128 ==> (prefix_int::parse_int(64, s) matches Ok((_, used))
            ==> prefix_string::parse_string(128, s.skip(used as int)) == Err::<
            (Seq<u8>, nat),
            DecoderError,
        >(e) ==> decoder::parse_instruction(t, s) == Err::<(InstructionView, nat), DecoderError>(e)),
        s.len() > 0 && 64 <= s[0] < 128 ==> (prefix_string::parse_string(32, s) matches Ok((_, used))
            ==> prefix_string::parse_string(128, s.skip(used as int)) == Err::<
            (Seq<u8>, nat),
            DecoderError,
        >(e) ==> decoder::parse_instruction(t, s) == Err::<(InstructionView, nat), DecoderError>(e)),
{
    reveal(decoder::parse_instruction);
}

/// Complete instructions are carried out one after another: insertions insert, a capacity
/// becomes the capacity. What is incomplete is left for later; the first that is invalid, or that
/// the table refuses, ends the run.
pub proof fn instruction_by_instruction(t: TableView, s: Seq<u8>)
    ensures
        match decoder::parse_instruction(t, s) {
            Err(DecoderError::UnexpectedEnd) => decoder::run(t, s) == (
                t,
                0nat,
                Ok::<(), DecoderError>(()),
            ),
            Err(e) => decoder::run(t, s) == (t, 0nat, Err::<(), DecoderError>(e)),
            Ok((i, used)) => {
                let changed = match i {
                    InstructionView::Insert(f) => t.put(f),
                    InstructionView::Capacity(n) => t.with_capacity(n as nat),
                };
                match changed {
                    Err(e) => decoder::run(t, s) == (
                        t,
                        0nat,
                        Err::<(), DecoderError>(DecoderError::DynamicTable(e)),
                    ),
                    Ok(next) => {
                        let (last, more, r) = decoder::run(next, s.skip(used as int));
                        decoder::run(t, s) == (last, used + more, r)
                    },
                }
            },
        },
{
}

// The reports of the decoder stream.

/// A report is an acknowledgment, `1` and a stream; a cancellation, `01` and a stream; or an
/// increment, `00` and a count.
pub proof fn report_kinds(s: Seq<u8>, n: u64, used: nat)
    requires
        s.len() > 0,
    ensures
        s[0] >= 128 && prefix_int::parse_int(128, s) == Ok::<(u64, nat), DecoderError>((n, used))
            ==> encoder::parse_report(s) == Ok::<(Report, nat), DecoderError>(
            (Report::Acknowledgment(n), used),
        ),
        64 <= s[0] < 128 && prefix_int::parse_int(64, s) == Ok::<(u64, nat), DecoderError>(
            (n, used),
        ) ==> encoder::parse_report(s) == Ok::<(Report, nat), DecoderError>(
            (Report::Cancellation(n), used),
        ),
        s[0] < 64 && prefix_int::parse_int(64, s) == Ok::<(u64, nat), DecoderError>((n, used))
            ==> encoder::parse_report(s) == Ok::<(Report, nat), DecoderError>(
            (Report::Increment(n), used),
        ),
{
}

/// A report of which the number cannot be read is no report, for the same reason.
pub proof fn broken_report(s: Seq<u8>, e: DecoderError)
    ensures
        s.len() == 0 ==> encoder::parse_report(s) == Err::<(Report, nat), DecoderError>(
            DecoderError::UnexpectedEnd,
        ),
        s.len() > 0 && s[0] >= 128 && prefix_int::parse_int(128, s) == Err::<
            (u64, nat),
            DecoderError,
        >(e) ==> encoder::parse_report(s) == Err::<(Report, nat), DecoderError>(e),
        s.len() > 0 && s[0] < 128 && prefix_int::parse_int(64, s) == Err::<(u64, nat), DecoderError>(
            e,
        ) ==> encoder::parse_report(s) == Err::<(Report, nat), DecoderError>(e),
{
}

/// Complete reports are heeded one after another. What is incomplete is left for later; the first
/// that is invalid ends the run.
pub proof fn report_by_report(t: TableView, s: Seq<u8>)
    ensures
        match encoder::parse_report(s) {
            Err(DecoderError::UnexpectedEnd) => encoder::run(t, s) == (
                t,
                0nat,
                Ok::<(), EncoderError>(()),
            ),
            Err(_) => encoder::run(t, s) == (
                t,
                0nat,
                Err::<(), EncoderError>(EncoderError::InvalidInteger),
            ),
            Ok((report, used)) => {
                let changed = match report {
                    Report::Acknowledgment(stream) => t.acknowledged(stream),
                    Report::Cancellation(stream) => Ok(t.cancelled(stream)),
                    Report::Increment(n) => t.incremented(n),
                };
                match changed {
                    Err(e) => encoder::run(t, s) == (t, 0nat, Err::<(), EncoderError>(e)),
                    Ok(next) => {
                        let (last, more, r) = encoder::run(next, s.skip(used as int));
                        encoder::run(t, s) == (last, used + more, r)
                    },
                }
            },
        },
{
}

/// The acknowledgment of a block names its stream.
pub proof fn acknowledgment_names_its_stream(stream: u64, rest: Seq<u8>)
    ensures
        encoder::parse_report(decoder::ack_bytes(stream) + rest) == Ok::<
            (Report, nat),
            DecoderError,
        >((Report::Acknowledgment(stream), decoder::ack_bytes(stream).len())),
{
    prefix_int::int_round_trip(128, 128, stream as nat, rest);
    assert((decoder::ack_bytes(stream) + rest)[0] == decoder::ack_bytes(stream)[0]);
}

/// New insertions are confirmed with their number, in one report; without new ones nothing is
/// written.
pub proof fn confirmation_counts_insertions(before: nat, after: nat, rest: Seq<u8>)
    requires
        after - before <= u64::MAX,
    ensures
        after <= before ==> decoder::confirmation(before, after) == Seq::<u8>::empty(),
        after > before ==> encoder::parse_report(decoder::confirmation(before, after) + rest)
            == Ok::<(Report, nat), DecoderError>(
            (
                Report::Increment((after - before) as u64),
                decoder::confirmation(before, after).len(),
            ),
        ),
{
    if after > before {
        let n = (after - before) as nat;
        prefix_int::int_round_trip(64, 0, n, rest);
        let s = decoder::confirmation(before, after);
        assert((s + rest)[0] == s[0]);
    }
}

// The dynamic table.

/// An entry takes the lengths of its name and its value, and 32 more; a list of entries takes
/// what they take together.
pub proof fn sizes_add_up(fields: Seq<FieldView>, f: FieldView)
    ensures
        dynamic::size(f) == f.0.len() + f.1.len() + 32,
        dynamic::mem(Seq::<FieldView>::empty()) == 0,
        dynamic::mem(fields.push(f)) == dynamic::mem(fields) + f.0.len() + f.1.len() + 32,
{
    dynamic::mem_push(fields, f);
}

/// Whether a table has dropped its oldest entries, as many as needed for the others to take no
/// more than a limit, and no more than that.
pub open spec fn makes_room(t: TableView, n: TableView, limit: nat) -> bool {
    &&& t.dropped <= n.dropped <= t.dropped + t.fields.len()
    &&& n.fields == t.fields.skip(n.dropped - t.dropped)
    &&& dynamic::mem(n.fields) <= limit
    &&& n.dropped > t.dropped ==> dynamic::mem(t.fields.skip(n.dropped - t.dropped - 1)) > limit
}

proof fn trimming_makes_room(t: TableView, limit: nat)
    ensures
        makes_room(t, t.trimmed(limit), limit),
{
    dynamic::cut_fits(t.fields, limit);
    cut_is_needed(t.fields, limit);
}

proof fn cut_is_needed(fields: Seq<FieldView>, limit: nat)
    ensures
        dynamic::cut(fields, limit) > 0 ==> dynamic::mem(
            fields.skip(dynamic::cut(fields, limit) - 1),
        ) > limit,
    decreases fields.len(),
{
    if fields.len() > 0 && dynamic::mem(fields) > limit {
        cut_is_needed(fields.skip(1), limit);
        dynamic::cut_fits(fields.skip(1), limit);
        let k = dynamic::cut(fields.skip(1), limit);
        if k > 0 {
            assert(fields.skip(1).skip(k - 1) == fields.skip(k as int));
        } else {
            assert(fields.skip(0) == fields);
        }
    }
}

/// An insertion appends the field, after the oldest entries went that leave no room for it. It is
/// refused exactly if the field alone is larger than the capacity, or the insertions cannot be
/// counted. Nothing else changes.
pub proof fn insertion_appends(t: TableView, f: FieldView)
    ensures
        if f.0.len() + f.1.len() + 32 > t.capacity || t.dropped + t.fields.len() >= usize::MAX {
            t.put(f) == Err::<TableView, DynamicTableError>(DynamicTableError::MaxTableSizeReached)
        } else {
            &&& t.put(f) matches Ok(n)
            &&& n.fields.len() > 0
            &&& n.fields.last() == f
            &&& makes_room(
                t,
                TableView { fields: n.fields.drop_last(), ..n },
                (t.capacity - (f.0.len() + f.1.len() + 32)) as nat,
            )
            &&& n == (TableView { fields: n.fields, dropped: n.dropped, ..t })
        },
{
    if dynamic::size(f) <= t.capacity {
        let limit = (t.capacity - dynamic::size(f)) as nat;
        trimming_makes_room(t, limit);
        assert(t.trimmed(limit).fields.push(f).drop_last() == t.trimmed(limit).fields);
    }
}

/// Another capacity is taken up to the maximum, and the oldest entries go that leave the others
/// no room in it. Nothing else changes.
pub proof fn capacity_is_taken(t: TableView, capacity: nat)
    ensures
        if capacity > t.max_capacity {
            t.with_capacity(capacity) == Err::<TableView, DynamicTableError>(
                DynamicTableError::MaximumTableSizeTooLarge,
            )
        } else {
            &&& t.with_capacity(capacity) matches Ok(n)
            &&& makes_room(t, n, capacity)
            &&& n == (TableView { fields: n.fields, dropped: n.dropped, capacity, ..t })
        },
{
    trimming_makes_room(t, capacity);
}

/// Another maximum is taken up to `2^30 - 1`, as the capacity too, and the oldest entries go that
/// leave the others no room in it. Nothing else changes.
pub proof fn maximum_is_taken(t: TableView, max: nat)
    ensures
        if max > 1073741823 {
            t.with_max_mem_size(max) == Err::<TableView, DynamicTableError>(
                DynamicTableError::MaximumTableSizeTooLarge,
            )
        } else {
            &&& t.with_max_mem_size(max) matches Ok(n)
            &&& makes_room(t, n, max)
            &&& n == (TableView {
                fields: n.fields,
                dropped: n.dropped,
                capacity: max,
                max_capacity: max,
                ..t
            })
        },
{
    trimming_makes_room(t, max);
}

/// Another number of blocked streams is taken up to `2^16 - 1`. Nothing else changes.
pub proof fn blocked_limit_is_taken(t: TableView, max: nat)
    ensures
        if max > 65535 {
            t.with_max_blocked(max) == Err::<TableView, DynamicTableError>(
                DynamicTableError::MaxBlockedStreamsTooLarge,
            )
        } else {
            t.with_max_blocked(max) == Ok::<TableView, DynamicTableError>(
                TableView { max_blocked: max, ..t },
            )
        },
{
}

/// An acknowledgment takes the oldest outstanding block of its stream off the list, and confirms
/// the insertions that it required. It is refused exactly if the stream has none. Nothing else
/// changes.
pub proof fn acknowledgment_takes_the_oldest(t: TableView, stream: u64)
    ensures
        match t.acknowledged(stream) {
            Err(e) => {
                &&& e == EncoderError::UnknownStreamId(stream)
                &&& forall|i: int|
                    0 <= i < t.sections.len() ==> (#[trigger] t.sections[i]).stream != stream
            },
            Ok(n) => exists|k: int|
                {
                    &&& 0 <= k < t.sections.len()
                    &&& (#[trigger] t.sections[k]).stream == stream
                    &&& forall|i: int| 0 <= i < k ==> (#[trigger] t.sections[i]).stream != stream
                    &&& n == (TableView {
                        sections: t.sections.remove(k),
                        known_received: if t.sections[k].required > t.known_received {
                            t.sections[k].required as nat
                        } else {
                            t.known_received
                        },
                        ..t
                    })
                },
        },
{
    oldest_is_first(t.sections, stream, 0);
    if let Some(k) = dynamic::oldest_of(t.sections, stream, 0) {
        assert(t.sections[k].stream == stream);
    }
}

proof fn oldest_is_first(sections: Seq<dynamic::Section>, stream: u64, from: int)
    requires
        0 <= from <= sections.len(),
    ensures
        match dynamic::oldest_of(sections, stream, from) {
            None => forall|i: int|
                from <= i < sections.len() ==> (#[trigger] sections[i]).stream != stream,
            Some(k) => {
                &&& from <= k < sections.len()
                &&& sections[k].stream == stream
                &&& forall|i: int| from <= i < k ==> (#[trigger] sections[i]).stream != stream
            },
        },
    decreases sections.len() - from,
{
    if from < sections.len() && sections[from].stream != stream {
        oldest_is_first(sections, stream, from + 1);
    }
}

/// A cancellation takes all outstanding blocks of its stream off the list, and no others. Nothing
/// else changes.
pub proof fn cancellation_takes_all(t: TableView, stream: u64)
    ensures
        t.cancelled(stream) == (TableView {
            sections: t.sections.filter(|s: dynamic::Section| s.stream != stream),
            ..t
        }),
{
}

/// An increment confirms that many more insertions. It is refused exactly if it is zero or above
/// what was inserted. Nothing else changes.
pub proof fn increment_confirms(t: TableView, n: u64)
    ensures
        if n == 0 || t.known_received + n > t.dropped + t.fields.len() {
            t.incremented(n) == Err::<TableView, EncoderError>(EncoderError::InvalidIncrement(n))
        } else {
            t.incremented(n) == Ok::<TableView, EncoderError>(
                TableView { known_received: t.known_received + n as nat, ..t },
            )
        },
{
}

/// The newest entry that equals a field is found, if there is one.
pub proof fn newest_is_found(fields: Seq<FieldView>, f: FieldView)
    ensures
        match dynamic::newest(fields, f) {
            None => forall|i: int| 0 <= i < fields.len() ==> #[trigger] fields[i] != f,
            Some(k) => {
                &&& k < fields.len()
                &&& fields[k as int] == f
                &&& forall|i: int| k < i < fields.len() ==> #[trigger] fields[i] != f
            },
        },
    decreases fields.len(),
{
    if fields.len() > 0 && fields.last() != f {
        let shorter = fields.drop_last();
        newest_is_found(shorter, f);
        assert forall|i: int|
            0 <= i < fields.len() - 1 implies #[trigger] fields[i] == shorter[i] by {}
    }
}

/// An entry is found by its absolute index, counted from the first insertion, while it is held.
pub proof fn entries_keep_their_index(t: TableView, i: int)
    ensures
        t.lookup(i) == (if held(t, i) {
            Some(t.fields[i - t.dropped])
        } else {
            None::<FieldView>
        }),
        t.inserted() == t.dropped + t.fields.len(),
{
}

/// A block is blocked while fewer insertions are confirmed than it requires; all such blocks
/// count.
pub proof fn blocked_blocks_count(t: TableView, section: dynamic::Section)
    ensures
        (TableView { sections: Seq::empty(), ..t }).blocked() == 0,
        (TableView { sections: t.sections.push(section), ..t }).blocked() == t.blocked() + (
        if section.required > t.known_received {
            1nat
        } else {
            0
        }),
{
    assert(t.sections.push(section).drop_last() == t.sections);
}

// What the encoder writes.

/// A block is remembered as outstanding, with its stream and what it requires.
pub proof fn block_is_remembered(e: TableView, stream: u64, fields: Seq<FieldView>)
    requires
        e.wf(),
    ensures
        ({
            let b = encoder::encoded(e, stream, fields);
            &&& b.table.sections.len() == e.sections.len() + 1
            &&& b.table.sections.drop_last() == e.sections
            &&& b.table.sections.last().stream == stream
            &&& b.table.sections.last().required == b.required
            &&& b.table.known_received == e.known_received
            &&& b.table.capacity == e.capacity
            &&& b.table.max_capacity == e.max_capacity
            &&& b.table.max_blocked == e.max_blocked
        }),
{
    let base = e.inserted();
    let may_block = e.blocked() < e.max_blocked;
    encoder::with_fields_wf(encoder::start(e), base, e, may_block, fields);
    let b = encoder::encoded(e, stream, fields);
    assert(b.table.sections.drop_last() == e.sections);
}

/// A block requires no insertion that it does not use: the last one that it requires is one of
/// its fields.
pub proof fn nothing_required_in_vain(e: TableView, stream: u64, fields: Seq<FieldView>)
    requires
        e.wf(),
    ensures
        ({
            let b = encoder::encoded(e, stream, fields);
            b.required > 0 ==> {
                &&& b.table.lookup(b.required - 1) matches Some(f)
                &&& fields.contains(f)
            }
        }),
{
    required_is_used(e, e.blocked() < e.max_blocked, fields);
}

proof fn required_is_used(e: TableView, may_block: bool, fields: Seq<FieldView>)
    requires
        e.wf(),
    ensures
        ({
            let b = encoder::with_fields(encoder::start(e), e.inserted(), may_block, fields);
            b.required > 0 ==> {
                &&& b.table.lookup(b.required - 1) matches Some(f)
                &&& fields.contains(f)
            }
        }),
    decreases fields.len(),
{
    if fields.len() > 0 {
        let base = e.inserted();
        let head = fields.drop_last();
        let f = fields.last();
        let b = encoder::with_fields(encoder::start(e), base, may_block, head);
        required_is_used(e, may_block, head);
        encoder::with_fields_wf(encoder::start(e), base, e, may_block, head);
        encoder::with_fields_wf(encoder::start(e), base, e, may_block, fields);
        dynamic::newest_is_right(b.table.fields, f);
        dynamic::put_keeps(b.table, f);
        assert(fields[fields.len() - 1] == f);
        if b.required > 0 {
            let g = b.table.lookup(b.required - 1)->0;
            let i = choose|i: int| 0 <= i < head.len() && head[i] == g;
            assert(fields[i] == g);
        }
    }
}

/// How a block and its table grow with one more field. A field of the static table needs no
/// insertion. One that the dynamic table holds is referred to, if the block may wait or the entry
/// is confirmed. Another one is inserted, if the block may wait and nothing is dropped for it that
/// may still be needed. In all other cases it is spelled out.
pub proof fn field_by_field(e: TableView, stream: u64, fields: Seq<FieldView>, f: FieldView)
    requires
        e.wf(),
    ensures
        ({
            let b = encoder::encoded(e, stream, fields);
            let c = encoder::encoded(e, stream, fields.push(f));
            let may_block = e.blocked() < e.max_blocked;
            let same = c.table.fields == b.table.fields && c.table.dropped == b.table.dropped
                && c.instructions == b.instructions;
            if exists|i: u64| i < 99 && #[trigger] static_table::entry(i) == f {
                same && c.required == b.required
            } else if referable(b.table, may_block, f) {
                &&& same
                &&& c.required == (if newest_index(b.table, f) >= b.required {
                    newest_index(b.table, f) + 1
                } else {
                    b.required
                })
            } else if may_block && insertable(b, f) {
                &&& c.table.fields.len() > 0
                &&& c.table.fields.last() == f
                &&& c.table.inserted() == b.table.inserted() + 1
                &&& c.required == b.table.inserted() + 1
                &&& c.instructions.len() > b.instructions.len()
            } else {
                same && c.required == b.required
            }
        }),
{
    let base = e.inserted();
    let may_block = e.blocked() < e.max_blocked;
    let all = fields.push(f);
    assert(all.drop_last() == fields);
    let b = encoder::with_fields(encoder::start(e), base, may_block, fields);
    encoder::with_fields_wf(encoder::start(e), base, e, may_block, fields);
    static_entries_are_found(f);
    newest_is_found(b.table.fields, f);
    dynamic::put_keeps(b.table, f);
    insertion_appends(b.table, f);
    insertion_is_written(f);
    let full = encoder::encoded(e, stream, fields);
    assert(full.table.fields == b.table.fields);
    assert(encoder::insertion_bytes(f).len() > 0);
    if b.table.can_insert(f, b.lowest) {
        assert(insertable(full, f));
    }
    if insertable(full, f) {
        let n = b.table.put(f)->Ok_0;
        assert(full.table.sections.drop_last() == b.table.sections);
        assert forall|i: int| 0 <= i < b.table.sections.len() implies n.dropped == b.table.dropped
            || n.dropped <= (#[trigger] b.table.sections[i]).lowest by {
            assert(full.table.sections[i] == b.table.sections[i]);
        }
    }
}

proof fn insertion_is_written(f: FieldView)
    ensures
        encoder::insertion_bytes(f).len() > 0,
{
    if let Some(i) = static_table::find_name_from(f.0, 0) {
        assert(prefix_int::int_bytes(64, 192, i as nat).len() > 0);
    }
}

/// The absolute index of the newest entry that equals a field.
pub open spec fn newest_index(t: TableView, f: FieldView) -> nat {
    (t.dropped + dynamic::newest(t.fields, f).unwrap_or(0)) as nat
}

/// Whether a block may refer to an entry that equals a field.
pub open spec fn referable(t: TableView, may_block: bool, f: FieldView) -> bool {
    t.fields.contains(f) && (may_block || newest_index(t, f) < t.known_received)
}

/// Whether a field can be inserted while a block is written: it fits, and every entry that goes
/// for it is confirmed and not referred to by this block or an outstanding one.
pub open spec fn insertable(b: encoder::BlockView, f: FieldView) -> bool {
    b.table.put(f) matches Ok(n) && (n.dropped == b.table.dropped || {
        &&& n.dropped <= b.table.known_received
        &&& n.dropped <= b.lowest
        &&& forall|i: int|
            0 <= i < b.table.sections.len() - 1 ==> n.dropped <= (
            #[trigger] b.table.sections[i]).lowest
    })
}

// What the words used above mean.

/// Seven bits to a group: a number is its lowest group and 128 times the rest of its groups. Only
/// the last group of an integer is below 128.
pub proof fn groups_make_up_a_number(group: u8, groups: Seq<u8>)
    ensures
        group_value(Seq::empty()) == 0,
        group < 128 ==> group_value(seq![group] + groups) == group + 128 * group_value(groups),
        group >= 128 ==> group_value(seq![group] + groups) == group - 128 + 128 * group_value(
            groups,
        ),
        !is_continuation(Seq::empty()),
        is_continuation(seq![group]) <==> group < 128,
        groups.len() > 0 ==> (is_continuation(seq![group] + groups) <==> group >= 128
            && is_continuation(groups)),
{
    let all = seq![group] + groups;
    assert(all.skip(1) == groups);
    assert(seq![group].skip(1) == Seq::<u8>::empty());
    if groups.len() > 0 {
        assert(all.last() == groups.last());
        if is_continuation(all) {
            assert forall|i: int| 0 <= i < groups.len() - 1 implies #[trigger] groups[i] >= 128 by {
                assert(all[i + 1] == groups[i]);
            }
            assert(all[0] == group);
        }
        if group >= 128 && is_continuation(groups) {
            assert forall|i: int| 0 <= i < all.len() - 1 implies #[trigger] all[i] >= 128 by {
                if i > 0 {
                    assert(all[i] == groups[i - 1]);
                }
            }
        }
    }
}

/// A table holds the entries that were inserted and not dropped. A block may refer to an entry
/// that it holds if the entry was confirmed or the block may wait for it, and a field may take the
/// place of entries that nobody refers to any more.
pub proof fn tables_hold_entries(
    t: TableView,
    n: TableView,
    index: int,
    limit: nat,
    f: FieldView,
    b: encoder::BlockView,
)
    ensures
        held(t, index) <==> t.dropped <= index && index - t.dropped < t.fields.len(),
        makes_room(t, n, limit) ==> t.dropped <= n.dropped && n.dropped + n.fields.len()
            == t.dropped + t.fields.len() && dynamic::mem(n.fields) <= limit,
        makes_room(t, n, limit) ==> forall|i: int|
            0 <= i < n.fields.len() ==> #[trigger] n.fields[i] == t.fields[n.dropped + i
                - t.dropped],
        makes_room(t, n, limit) && n.dropped > t.dropped ==> dynamic::mem(t.fields.skip(n.dropped - t.dropped - 1)) > limit,
        t.fields.contains(f) ==> held(t, newest_index(t, f) as int) && t.fields[newest_index(t, f)
            - t.dropped] == f && forall|i: int|
            newest_index(t, f) - t.dropped < i < t.fields.len() ==> #[trigger] t.fields[i] != f,
        referable(t, true, f) <==> t.fields.contains(f),
        referable(t, false, f) <==> t.fields.contains(f) && newest_index(t, f) < t.known_received,
        insertable(b, f) ==> b.table.put(f) is Ok,
        b.table.put(f) matches Ok(after) ==> {
            let gone = after.dropped;
            &&& gone == b.table.dropped ==> insertable(b, f)
            &&& insertable(b, f) && gone > b.table.dropped ==> gone <= b.table.known_received
                && gone <= b.lowest
            &&& insertable(b, f) && gone > b.table.dropped ==> forall|i: int|
                0 <= i < b.table.sections.len() - 1 ==> gone <= (
                #[trigger] b.table.sections[i]).lowest
            &&& gone <= b.table.known_received && gone <= b.lowest && (forall|i: int|
                0 <= i < b.table.sections.len() ==> gone <= (
                #[trigger] b.table.sections[i]).lowest) ==> insertable(b, f)
        },
{
    newest_is_found(t.fields, f);
    if makes_room(t, n, limit) {
        assert(n.fields.len() == t.fields.len() - (n.dropped - t.dropped));
    }
}

// What readers return.

/// A reader returns what its model says: the same number of bytes and the same value, or the
/// same error.
pub proof fn readings_are_faithful<T: View>(
    v: T,
    used: usize,
    e: DecoderError,
    told: Result<(T, nat), DecoderError>,
    model: Result<(T::V, nat), DecoderError>,
    value: Result<T::V, DecoderError>,
)
    ensures
        prefix_int::same_parse(Ok((v, used)), told) ==> told is Ok && (told->Ok_0).0 == v && (
        told->Ok_0).1 == used,
        prefix_int::same_parse(Err::<(T, usize), DecoderError>(e), told) ==> told is Err
            && told->Err_0 == e,
        prefix_string::same_model(Ok((v, used)), model) ==> model is Ok && (model->Ok_0).0 == v@
            && (model->Ok_0).1 == used,
        prefix_string::same_model(Err::<(T, usize), DecoderError>(e), model) ==> model is Err
            && model->Err_0 == e,
        decoder::same_result(Ok(v), value) ==> value is Ok && value->Ok_0 == v@,
        decoder::same_result(Err::<T, DecoderError>(e), value) ==> value is Err && value->Err_0
            == e,
{
}

// The static table.

/// An entry is the name and the value of its row, in UTF-8.
pub proof fn static_entries_are_text(index: u64)
    ensures
        static_table::entry(index) == (
            vstd::utf8::encode_utf8(static_table::row(index).0),
            vstd::utf8::encode_utf8(static_table::row(index).1),
        ),
{
}

/// The entries 0 to 24 of the static table.
pub proof fn static_entries_0_to_24()
    ensures
        static_table::row(0) == (":authority"@, ""@),
        static_table::row(1) == (":path"@, "/"@),
        static_table::row(2) == ("age"@, "0"@),
        static_table::row(3) == ("content-disposition"@, ""@),
        static_table::row(4) == ("content-length"@, "0"@),
        static_table::row(5) == ("cookie"@, ""@),
        static_table::row(6) == ("date"@, ""@),
        static_table::row(7) == ("etag"@, ""@),
        static_table::row(8) == ("if-modified-since"@, ""@),
        static_table::row(9) == ("if-none-match"@, ""@),
        static_table::row(10) == ("last-modified"@, ""@),
        static_table::row(11) == ("link"@, ""@),
        static_table::row(12) == ("location"@, ""@),
        static_table::row(13) == ("referer"@, ""@),
        static_table::row(14) == ("set-cookie"@, ""@),
        static_table::row(15) == (":method"@, "CONNECT"@),
        static_table::row(16) == (":method"@, "DELETE"@),
        static_table::row(17) == (":method"@, "GET"@),
        static_table::row(18) == (":method"@, "HEAD"@),
        static_table::row(19) == (":method"@, "OPTIONS"@),
        static_table::row(20) == (":method"@, "POST"@),
        static_table::row(21) == (":method"@, "PUT"@),
        static_table::row(22) == (":scheme"@, "http"@),
        static_table::row(23) == (":scheme"@, "https"@),
        static_table::row(24) == (":status"@, "103"@),
{
}

/// The entries 25 to 49 of the static table.
pub proof fn static_entries_25_to_49()
    ensures
        static_table::row(25) == (":status"@, "200"@),
        static_table::row(26) == (":status"@, "304"@),
        static_table::row(27) == (":status"@, "404"@),
        static_table::row(28) == (":status"@, "503"@),
        static_table::row(29) == ("accept"@, "*/*"@),
        static_table::row(30) == ("accept"@, "application/dns-message"@),
        static_table::row(31) == ("accept-encoding"@, "gzip, deflate, br"@),
        static_table::row(32) == ("accept-ranges"@, "bytes"@),
        static_table::row(33) == ("access-control-allow-headers"@, "cache-control"@),
        static_table::row(34) == ("access-control-allow-headers"@, "content-type"@),
        static_table::row(35) == ("access-control-allow-origin"@, "*"@),
        static_table::row(36) == ("cache-control"@, "max-age=0"@),
        static_table::row(37) == ("cache-control"@, "max-age=2592000"@),
        static_table::row(38) == ("cache-control"@, "max-age=604800"@),
        static_table::row(39) == ("cache-control"@, "no-cache"@),
        static_table::row(40) == ("cache-control"@, "no-store"@),
        static_table::row(41) == ("cache-control"@, "public, max-age=31536000"@),
        static_table::row(42) == ("content-encoding"@, "br"@),
        static_table::row(43) == ("content-encoding"@, "gzip"@),
        static_table::row(44) == ("content-type"@, "application/dns-message"@),
        static_table::row(45) == ("content-type"@, "application/javascript"@),
        static_table::row(46) == ("content-type"@, "application/json"@),
        static_table::row(47) == ("content-type"@, "application/x-www-form-urlencoded"@),
        static_table::row(48) == ("content-type"@, "image/gif"@),
        static_table::row(49) == ("content-type"@, "image/jpeg"@),
{
}

/// The entries 50 to 74 of the static table.
pub proof fn static_entries_50_to_74()
    ensures
        static_table::row(50) == ("content-type"@, "image/png"@),
        static_table::row(51) == ("content-type"@, "text/css"@),
        static_table::row(52) == ("content-type"@, "text/html; charset=utf-8"@),
        static_table::row(53) == ("content-type"@, "text/plain"@),
        static_table::row(54) == ("content-type"@, "text/plain;charset=utf-8"@),
        static_table::row(55) == ("range"@, "bytes=0-"@),
        static_table::row(56) == ("strict-transport-security"@, "max-age=31536000"@),
        static_table::row(57) == ("strict-transport-security"@, "max-age=31536000; includesubdomains"@),
        static_table::row(58) == ("strict-transport-security"@, "max-age=31536000; includesubdomains; preload"@),
        static_table::row(59) == ("vary"@, "accept-encoding"@),
        static_table::row(60) == ("vary"@, "origin"@),
        static_table::row(61) == ("x-content-type-options"@, "nosniff"@),
        static_table::row(62) == ("x-xss-protection"@, "1; mode=block"@),
        static_table::row(63) == (":status"@, "100"@),
        static_table::row(64) == (":status"@, "204"@),
        static_table::row(65) == (":status"@, "206"@),
        static_table::row(66) == (":status"@, "302"@),
        static_table::row(67) == (":status"@, "400"@),
        static_table::row(68) == (":status"@, "403"@),
        static_table::row(69) == (":status"@, "421"@),
        static_table::row(70) == (":status"@, "425"@),
        static_table::row(71) == (":status"@, "500"@),
        static_table::row(72) == ("accept-language"@, ""@),
        static_table::row(73) == ("access-control-allow-credentials"@, "FALSE"@),
        static_table::row(74) == ("access-control-allow-credentials"@, "TRUE"@),
{
}

/// The entries 75 to 98 of the static table, which has 99.
pub proof fn static_entries_75_to_98()
    ensures
        static_table::STATIC_LEN == 99,
        static_table::row(75) == ("access-control-allow-headers"@, "*"@),
        static_table::row(76) == ("access-control-allow-methods"@, "get"@),
        static_table::row(77) == ("access-control-allow-methods"@, "get, post, options"@),
        static_table::row(78) == ("access-control-allow-methods"@, "options"@),
        static_table::row(79) == ("access-control-expose-headers"@, "content-length"@),
        static_table::row(80) == ("access-control-request-headers"@, "content-type"@),
        static_table::row(81) == ("access-control-request-method"@, "get"@),
        static_table::row(82) == ("access-control-request-method"@, "post"@),
        static_table::row(83) == ("alt-svc"@, "clear"@),
        static_table::row(84) == ("authorization"@, ""@),
        static_table::row(85) == ("content-security-policy"@, "script-src 'none'; object-src 'none'; base-uri 'none'"@),
        static_table::row(86) == ("early-data"@, "1"@),
        static_table::row(87) == ("expect-ct"@, ""@),
        static_table::row(88) == ("forwarded"@, ""@),
        static_table::row(89) == ("if-range"@, ""@),
        static_table::row(90) == ("origin"@, ""@),
        static_table::row(91) == ("purpose"@, "prefetch"@),
        static_table::row(92) == ("server"@, ""@),
        static_table::row(93) == ("timing-allow-origin"@, "*"@),
        static_table::row(94) == ("upgrade-insecure-requests"@, "1"@),
        static_table::row(95) == ("user-agent"@, ""@),
        static_table::row(96) == ("x-forwarded-for"@, ""@),
        static_table::row(97) == ("x-frame-options"@, "deny"@),
        static_table::row(98) == ("x-frame-options"@, "sameorigin"@),
{
}

/// A field is found in the static table if it is there, at the first place that holds it; so is a
/// name.
pub proof fn static_entries_are_found(f: FieldView)
    ensures
        match static_table::find_from(f, 0) {
            None => forall|i: u64| i < 99 ==> #[trigger] static_table::entry(i) != f,
            Some(k) => k < 99 && static_table::entry(k) == f && forall|i: u64|
                i < k ==> #[trigger] static_table::entry(i) != f,
        },
        match static_table::find_name_from(f.0, 0) {
            None => forall|i: u64| i < 99 ==> (#[trigger] static_table::entry(i)).0 != f.0,
            Some(k) => k < 99 && static_table::entry(k).0 == f.0 && forall|i: u64|
                i < k ==> (#[trigger] static_table::entry(i)).0 != f.0,
        },
{
    first_is_found(f, 0);
    first_name_is_found(f.0, 0);
}

proof fn first_is_found(f: FieldView, from: u64)
    requires
        from <= 99,
    ensures
        match static_table::find_from(f, from) {
            None => forall|i: u64| from <= i < 99 ==> #[trigger] static_table::entry(i) != f,
            Some(k) => from <= k < 99 && static_table::entry(k) == f && forall|i: u64|
                from <= i < k ==> #[trigger] static_table::entry(i) != f,
        },
    decreases 99 - from,
{
    if from < 99 && static_table::entry(from) != f {
        first_is_found(f, (from + 1) as u64);
    }
}

proof fn first_name_is_found(name: Seq<u8>, from: u64)
    requires
        from <= 99,
    ensures
        match static_table::find_name_from(name, from) {
            None => forall|i: u64| from <= i < 99 ==> (#[trigger] static_table::entry(i)).0 != name,
            Some(k) => from <= k < 99 && static_table::entry(k).0 == name && forall|i: u64|
                from <= i < k ==> (#[trigger] static_table::entry(i)).0 != name,
        },
    decreases 99 - from,
{
    if from < 99 && static_table::entry(from).0 != name {
        first_name_is_found(name, (from + 1) as u64);
    }
}

} // verus!
