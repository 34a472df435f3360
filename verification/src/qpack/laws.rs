//! What holds between the encoding and the decoding side.

use vstd::prelude::*;

use super::dynamic::TableView;
use super::encoder::{BlockView, Report};
use super::{
    decoder, dynamic, encoder, prefix_int, prefix_string, static_table, DecoderError, EncoderError,
    FieldView,
};

verus! {

// What a parser made of some bytes does not change when more bytes follow.

proof fn tail_settled(s: Seq<u8>, x: Seq<u8>, room: nat)
    requires
        prefix_int::parse_tail(s, room) != Err::<(u64, nat), DecoderError>(
            DecoderError::UnexpectedEnd,
        ),
    ensures
        prefix_int::parse_tail(s + x, room) == prefix_int::parse_tail(s, room),
    decreases room,
{
    if room > 0 && s.len() > 0 {
        assert((s + x)[0] == s[0]);
        if s[0] >= 128 {
            assert((s + x).skip(1) == s.skip(1) + x);
            tail_settled(s.skip(1), x, (room - 1) as nat);
        }
    }
}

proof fn int_settled(limit: nat, s: Seq<u8>, x: Seq<u8>)
    requires
        prefix_int::parse_int(limit, s) != Err::<(u64, nat), DecoderError>(
            DecoderError::UnexpectedEnd,
        ),
    ensures
        prefix_int::parse_int(limit, s + x) == prefix_int::parse_int(limit, s),
{
    assert((s + x)[0] == s[0]);
    if s[0] as nat % limit >= limit - 1 {
        assert((s + x).skip(1) == s.skip(1) + x);
        tail_settled(s.skip(1), x, prefix_int::MAX_TAIL as nat);
    }
}

proof fn string_settled(limit: nat, s: Seq<u8>, x: Seq<u8>)
    requires
        prefix_string::parse_string(limit, s) != Err::<(Seq<u8>, nat), DecoderError>(
            DecoderError::UnexpectedEnd,
        ),
    ensures
        prefix_string::parse_string(limit, s + x) == prefix_string::parse_string(limit, s),
{
    int_settled(limit, s, x);
    prefix_int::parse_int_len(limit, s);
    if let Ok((len, used)) = prefix_int::parse_int(limit, s) {
        assert((s + x)[0] == s[0]);
        assert((s + x).subrange(used as int, used + len) == s.subrange(used as int, used + len));
    }
}

proof fn value_settled(
    name: Result<Seq<u8>, DecoderError>,
    s: Seq<u8>,
    used: nat,
    x: Seq<u8>,
)
    requires
        used <= s.len(),
        decoder::with_value(name, s, used) != Err::<(FieldView, nat), DecoderError>(
            DecoderError::UnexpectedEnd,
        ),
        name != Err::<Seq<u8>, DecoderError>(DecoderError::UnexpectedEnd),
    ensures
        decoder::with_value(name, s + x, used) == decoder::with_value(name, s, used),
{
    assert((s + x).skip(used as int) == s.skip(used as int) + x);
    string_settled(128, s.skip(used as int), x);
}

proof fn instruction_settled(t: TableView, s: Seq<u8>, x: Seq<u8>)
    requires
        decoder::parse_instruction(t, s) != Err::<(decoder::InstructionView, nat), DecoderError>(
            DecoderError::UnexpectedEnd,
        ),
    ensures
        decoder::parse_instruction(t, s + x) == decoder::parse_instruction(t, s),
{
    reveal(decoder::parse_instruction);
    assert((s + x)[0] == s[0]);
    if s[0] >= 128 {
        int_settled(64, s, x);
        prefix_int::parse_int_len(64, s);
        if let Ok((index, used)) = prefix_int::parse_int(64, s) {
            let name = decoder::name_before(t, s[0] >= 192, t.inserted() as int, index);
            value_settled(name, s, used, x);
        }
    } else if s[0] >= 64 {
        string_settled(32, s, x);
        prefix_string::parse_string_len(32, s);
        if let Ok((name, used)) = prefix_string::parse_string(32, s) {
            value_settled(Ok(name), s, used, x);
        }
    } else {
        int_settled(32, s, x);
    }
}

proof fn line_settled(t: TableView, base: nat, s: Seq<u8>, x: Seq<u8>)
    requires
        decoder::parse_line(t, base, s) is Ok,
    ensures
        decoder::parse_line(t, base, s + x) == decoder::parse_line(t, base, s),
{
    reveal(decoder::parse_line);
    assert((s + x)[0] == s[0]);
    if s[0] >= 128 {
        int_settled(64, s, x);
    } else if s[0] >= 64 {
        int_settled(16, s, x);
        prefix_int::parse_int_len(16, s);
        if let Ok((index, used)) = prefix_int::parse_int(16, s) {
            let name = decoder::name_before(t, (s[0] / 16) % 2 == 1, base as int, index);
            value_settled(name, s, used, x);
        }
    } else if s[0] >= 32 {
        string_settled(8, s, x);
        prefix_string::parse_string_len(8, s);
        if let Ok((name, used)) = prefix_string::parse_string(8, s) {
            value_settled(Ok(name), s, used, x);
        }
    } else if s[0] >= 16 {
        int_settled(16, s, x);
    } else {
        int_settled(8, s, x);
        prefix_int::parse_int_len(8, s);
        if let Ok((index, used)) = prefix_int::parse_int(8, s) {
            let name = match decoder::field_after(t, base, index) {
                Ok(f) => Ok(f.0),
                Err(e) => Err(e),
            };
            value_settled(name, s, used, x);
        }
    }
}

/// It does not matter in what pieces the encoder stream arrives: going on after a piece with
/// what it left over is the same as taking everything at once.
pub proof fn encoder_stream_in_pieces(t: TableView, s: Seq<u8>, x: Seq<u8>)
    ensures
        ({
            let (mid, used, r) = decoder::run(t, s);
            let (last, more, end) = decoder::run(mid, s.skip(used as int) + x);
            decoder::run(t, s + x) == (if r is Ok {
                (last, used + more, end)
            } else {
                (mid, used, r)
            })
        }),
    decreases s.len(),
{
    match decoder::parse_instruction(t, s) {
        Err(DecoderError::UnexpectedEnd) => {
            assert(s.skip(0) == s);
        },
        Err(_) => {
            instruction_settled(t, s, x);
        },
        Ok((i, used)) => {
            instruction_settled(t, s, x);
            decoder::parse_instruction_len(t, s);
            if let Ok(next) = decoder::apply(t, i) {
                let rest = s.skip(used as int);
                assert((s + x).skip(used as int) == rest + x);
                encoder_stream_in_pieces(next, rest, x);
                decoder::run_grows(next, rest);
                let more = decoder::run(next, rest).1;
                assert(rest.skip(more as int) == s.skip((used + more) as int));
            }
        },
    }
}

proof fn report_settled(s: Seq<u8>, x: Seq<u8>)
    requires
        encoder::parse_report(s) != Err::<(Report, nat), DecoderError>(DecoderError::UnexpectedEnd),
    ensures
        encoder::parse_report(s + x) == encoder::parse_report(s),
{
    assert((s + x)[0] == s[0]);
    if s[0] >= 128 {
        int_settled(128, s, x);
    } else {
        int_settled(64, s, x);
    }
}

/// It does not matter in what pieces the decoder stream arrives: going on after a piece with
/// what it left over is the same as taking everything at once.
pub proof fn decoder_stream_in_pieces(t: TableView, s: Seq<u8>, x: Seq<u8>)
    ensures
        ({
            let (mid, used, r) = encoder::run(t, s);
            let (last, more, end) = encoder::run(mid, s.skip(used as int) + x);
            encoder::run(t, s + x) == (if r is Ok {
                (last, used + more, end)
            } else {
                (mid, used, r)
            })
        }),
    decreases s.len(),
{
    match encoder::parse_report(s) {
        Err(DecoderError::UnexpectedEnd) => {
            assert(s.skip(0) == s);
        },
        Err(_) => {
            report_settled(s, x);
        },
        Ok((report, used)) => {
            report_settled(s, x);
            encoder::parse_report_len(s);
            if let Ok(next) = encoder::heed(t, report) {
                let rest = s.skip(used as int);
                assert((s + x).skip(used as int) == rest + x);
                decoder_stream_in_pieces(next, rest, x);
                encoder::run_len(next, rest);
                let more = encoder::run(next, rest).1;
                assert(rest.skip(more as int) == s.skip((used + more) as int));
            }
        },
    }
}

// What the encoder writes is what the decoder reads.

/// Whether the lengths in a field are numbers that can be written.
pub open spec fn writable(f: FieldView) -> bool {
    f.0.len() <= u64::MAX && f.1.len() <= u64::MAX
}

/// A name or an index, then a plain value.
proof fn value_reads_back(name: Seq<u8>, head: Seq<u8>, value: Seq<u8>)
    requires
        value.len() <= u64::MAX,
    ensures
        decoder::with_value(
            Ok(name),
            head + prefix_string::string_bytes(128, 0, value),
            head.len(),
        ) == Ok::<(FieldView, nat), DecoderError>(
            ((name, value), head.len() + prefix_string::string_bytes(128, 0, value).len()),
        ),
{
    let tail = prefix_string::string_bytes(128, 0, value);
    assert((head + tail).skip(head.len() as int) == tail + Seq::<u8>::empty());
    prefix_string::string_round_trip(128, 0, value, Seq::empty());
}

/// The announcement of an insertion reads back as that insertion.
proof fn insertion_reads_back(t: TableView, f: FieldView)
    requires
        writable(f),
    ensures
        decoder::parse_instruction(t, encoder::insertion_bytes(f)) == Ok::<
            (decoder::InstructionView, nat),
            DecoderError,
        >((decoder::InstructionView::Insert(f), encoder::insertion_bytes(f).len())),
{
    reveal(decoder::parse_instruction);
    let tail = prefix_string::string_bytes(128, 0, f.1);
    let s = encoder::insertion_bytes(f);
    static_table::find_name_is_right(f.0, 0);
    match static_table::find_name_from(f.0, 0) {
        Some(i) => {
            let head = prefix_int::int_bytes(64, 192, i as nat);
            prefix_int::int_round_trip(64, 192, i as nat, tail);
            assert(s[0] == head[0]);
            value_reads_back(f.0, head, f.1);
        },
        None => {
            let head = prefix_string::string_bytes(32, 64, f.0);
            prefix_string::string_round_trip(32, 64, f.0, tail);
            assert(s[0] == head[0]);
            value_reads_back(f.0, head, f.1);
        },
    }
}

/// A line that spells out a field reads back as that field.
proof fn literal_reads_back(t: TableView, base: nat, f: FieldView)
    requires
        writable(f),
    ensures
        decoder::parse_line(t, base, encoder::literal_bytes(f)) == Ok::<
            (FieldView, nat),
            DecoderError,
        >((f, encoder::literal_bytes(f).len())),
{
    reveal(decoder::parse_line);
    let tail = prefix_string::string_bytes(128, 0, f.1);
    let s = encoder::literal_bytes(f);
    static_table::find_name_is_right(f.0, 0);
    match static_table::find_name_from(f.0, 0) {
        Some(i) => {
            let head = prefix_int::int_bytes(16, 80, i as nat);
            prefix_int::int_round_trip(16, 80, i as nat, tail);
            assert(s[0] == head[0]);
            value_reads_back(f.0, head, f.1);
        },
        None => {
            let head = prefix_string::string_bytes(8, 32, f.0);
            prefix_string::string_round_trip(8, 32, f.0, tail);
            assert(s[0] == head[0]);
            value_reads_back(f.0, head, f.1);
        },
    }
}

/// A line with an index of the static table reads back as the field there.
proof fn static_reads_back(t: TableView, base: nat, i: u64)
    requires
        i < static_table::STATIC_LEN,
    ensures
        decoder::parse_line(t, base, prefix_int::int_bytes(64, 192, i as nat)) == Ok::<
            (FieldView, nat),
            DecoderError,
        >((static_table::entry(i), prefix_int::int_bytes(64, 192, i as nat).len())),
{
    reveal(decoder::parse_line);
    let s = prefix_int::int_bytes(64, 192, i as nat);
    assert(s == s + Seq::<u8>::empty());
    prefix_int::int_round_trip(64, 192, i as nat, Seq::empty());
}

/// A line that refers to an entry reads back as that entry.
proof fn reference_reads_back(t: TableView, base: nat, index: nat)
    requires
        index <= u64::MAX,
        base <= u64::MAX,
        t.lookup(index as int) is Some,
    ensures
        decoder::parse_line(t, base, encoder::reference_bytes(base, index)) == Ok::<
            (FieldView, nat),
            DecoderError,
        >((t.lookup(index as int).unwrap(), encoder::reference_bytes(base, index).len())),
{
    reveal(decoder::parse_line);
    let s = encoder::reference_bytes(base, index);
    assert(s == s + Seq::<u8>::empty());
    if index < base {
        prefix_int::int_round_trip(64, 128, (base - 1 - index) as nat, Seq::empty());
    } else {
        prefix_int::int_round_trip(16, 16, (index - base) as nat, Seq::empty());
    }
}

/// Lines after lines.
proof fn lines_append(t: TableView, base: nat, s: Seq<u8>, x: Seq<u8>)
    requires
        decoder::lines(t, base, s) is Ok,
        decoder::lines(t, base, x) is Ok,
    ensures
        decoder::lines(t, base, s + x) == Ok::<Seq<FieldView>, DecoderError>(
            decoder::lines(t, base, s)->Ok_0 + decoder::lines(t, base, x)->Ok_0,
        ),
    decreases s.len(),
{
    let tail = decoder::lines(t, base, x)->Ok_0;
    if s.len() == 0 {
        assert(s + x == x);
        assert(Seq::<FieldView>::empty() + tail == tail);
    } else {
        decoder::parse_line_len(t, base, s);
        line_settled(t, base, s, x);
        let (f, used) = decoder::parse_line(t, base, s)->Ok_0;
        let rest = s.skip(used as int);
        assert((s + x).skip(used as int) == rest + x);
        lines_append(t, base, rest, x);
        let more = decoder::lines(t, base, rest)->Ok_0;
        assert(seq![f] + (more + tail) == (seq![f] + more) + tail);
    }
}

/// One line alone.
proof fn one_line(t: TableView, base: nat, s: Seq<u8>, f: FieldView)
    requires
        decoder::parse_line(t, base, s) == Ok::<(FieldView, nat), DecoderError>((f, s.len())),
    ensures
        decoder::lines(t, base, s) == Ok::<Seq<FieldView>, DecoderError>(seq![f]),
{
    reveal(decoder::parse_line);
    assert(s.len() > 0);
    assert(s.skip(s.len() as int).len() == 0);
    reveal_with_fuel(decoder::lines, 2);
    assert(seq![f] + Seq::<FieldView>::empty() == seq![f]);
}

/// Whether a table holds everything that a block may refer to.
pub open spec fn serves(t: TableView, b: BlockView) -> bool {
    forall|i: int|
        b.lowest <= i < b.table.inserted() ==> #[trigger] t.lookup(i) == b.table.lookup(i)
}

/// The lines of a block read back as its fields, from any table that holds what it refers to.
proof fn lines_read_back(
    e: TableView,
    may_block: bool,
    fields: Seq<FieldView>,
    t: TableView,
)
    requires
        e.wf(),
        forall|i: int| 0 <= i < fields.len() ==> #[trigger] writable(fields[i]),
        serves(t, encoder::with_fields(encoder::start(e), e.inserted(), may_block, fields)),
    ensures
        decoder::lines(
            t,
            e.inserted(),
            encoder::with_fields(encoder::start(e), e.inserted(), may_block, fields).block,
        ) == Ok::<Seq<FieldView>, DecoderError>(fields),
    decreases fields.len(),
{
    let base = e.inserted();
    let zero = encoder::start(e);
    if fields.len() == 0 {
        assert(fields == Seq::<FieldView>::empty());
    } else {
        let head = fields.drop_last();
        let f = fields.last();
        let b = encoder::with_fields(zero, base, may_block, head);
        let c = encoder::with_field(b, base, may_block, f);
        encoder::with_fields_wf(zero, base, e, may_block, head);
        encoder::with_field_wf(b, base, e, may_block, f);
        dynamic::put_keeps(b.table, f);
        dynamic::newest_is_right(b.table.fields, f);
        static_table::find_is_right(f, 0);
        assert(writable(fields[fields.len() - 1]));
        assert(serves(t, b)) by {
            assert forall|i: int| b.lowest <= i < b.table.inserted() implies #[trigger] t.lookup(i)
                == b.table.lookup(i) by {
                assert(t.lookup(i) == c.table.lookup(i));
            }
        }
        assert forall|i: int| 0 <= i < head.len() implies #[trigger] writable(head[i]) by {
            assert(head[i] == fields[i]);
        }
        lines_read_back(e, may_block, head, t);
        let line = if static_table::find_from(f, 0) is Some {
            let i = static_table::find_from(f, 0).unwrap();
            static_reads_back(t, base, i);
            prefix_int::int_bytes(64, 192, i as nat)
        } else if encoder::usable(b.table, may_block, f) is Some {
            let i = encoder::usable(b.table, may_block, f).unwrap();
            assert(t.lookup(i as int) == c.table.lookup(i as int));
            reference_reads_back(t, base, i);
            encoder::reference_bytes(base, i)
        } else if may_block && b.table.can_insert(f, b.lowest) {
            let i = b.table.inserted();
            assert(t.lookup(i as int) == c.table.lookup(i as int));
            reference_reads_back(t, base, i);
            encoder::reference_bytes(base, i)
        } else {
            literal_reads_back(t, base, f);
            encoder::literal_bytes(f)
        };
        assert(c.block == b.block + line);
        one_line(t, base, line, f);
        lines_append(t, base, b.block, line);
        assert(head + seq![f] == fields);
    }
}

/// Whether a decoder's table holds what an encoder's does.
pub open spec fn in_sync(e: TableView, d: TableView) -> bool {
    &&& d.fields == e.fields
    &&& d.dropped == e.dropped
    &&& d.capacity == e.capacity
    &&& d.max_capacity == e.max_capacity
}

/// The insertions of a block bring a decoder's table in step with the encoder's.
proof fn insertions_read_back(e: TableView, may_block: bool, fields: Seq<FieldView>, d: TableView)
    requires
        e.wf(),
        in_sync(e, d),
        forall|i: int| 0 <= i < fields.len() ==> #[trigger] writable(fields[i]),
    ensures
        ({
            let b = encoder::with_fields(encoder::start(e), e.inserted(), may_block, fields);
            let (last, used, r) = decoder::run(d, b.instructions);
            r is Ok && used == b.instructions.len() && in_sync(b.table, last) && last == (TableView {
                fields: last.fields,
                dropped: last.dropped,
                ..d
            })
        }),
    decreases fields.len(),
{
    let base = e.inserted();
    let zero = encoder::start(e);
    if fields.len() == 0 {
        reveal(decoder::parse_instruction);
        assert(decoder::run(d, Seq::<u8>::empty()).1 == 0);
    } else {
        let head = fields.drop_last();
        let f = fields.last();
        let b = encoder::with_fields(zero, base, may_block, head);
        let c = encoder::with_field(b, base, may_block, f);
        assert forall|i: int| 0 <= i < head.len() implies #[trigger] writable(head[i]) by {
            assert(head[i] == fields[i]);
        }
        assert(writable(fields[fields.len() - 1]));
        insertions_read_back(e, may_block, head, d);
        let (mid, used, r) = decoder::run(d, b.instructions);
        if static_table::find_from(f, 0) is None && encoder::usable(b.table, may_block, f) is None
            && may_block && b.table.can_insert(f, b.lowest) {
            let x = encoder::insertion_bytes(f);
            assert(c.instructions == b.instructions + x);
            encoder_stream_in_pieces(d, b.instructions, x);
            assert(b.instructions.skip(used as int) + x == x);
            insertion_reads_back(mid, f);
            let next = b.table.put(f)->Ok_0;
            let mine = mid.put(f)->Ok_0;
            assert(mid.put(f) is Ok);
            assert(in_sync(next, mine));
            assert(x.skip(x.len() as int).len() == 0);
            assert(decoder::run(mid, x) == (mine, x.len(), Ok::<(), DecoderError>(()))) by {
                let none = x.skip(x.len() as int);
                assert(decoder::parse_instruction(mine, none) == Err::<
                    (decoder::InstructionView, nat),
                    DecoderError,
                >(DecoderError::UnexpectedEnd)) by {
                    reveal(decoder::parse_instruction);
                }
                assert(decoder::run(mine, none) == (mine, 0nat, Ok::<(), DecoderError>(())));
            }
        }
    }
}

/// A count that was written modulo `2 * max_entries` reads back for a decoder that is less than
/// `max_entries` insertions away.
proof fn count_reads_back(required: nat, max_entries: nat, inserted: nat)
    requires
        required > 0,
        1 <= max_entries <= dynamic::MAX_CAPACITY,
        inserted < required + max_entries,
        required <= inserted + max_entries,
    ensures
        encoder::wire_count(required, max_entries) <= 2 * max_entries,
        decoder::required_count(
            encoder::wire_count(required, max_entries) as u64,
            max_entries,
            inserted,
        ) == Some(required),
{
    let full = (2 * max_entries) as int;
    let max_value = (inserted + max_entries) as int;
    let r = required as int;
    vstd::arithmetic::div_mod::lemma_fundamental_div_mod(r, full);
    vstd::arithmetic::div_mod::lemma_fundamental_div_mod(max_value, full);
    vstd::arithmetic::div_mod::lemma_mod_bound(r, full);
    vstd::arithmetic::div_mod::lemma_mod_bound(max_value, full);
    let q = r / full;
    let p = max_value / full;
    let candidate = max_value - max_value % full + r % full;
    assert(candidate - r == full * (p - q)) by (nonlinear_arith)
        requires
            r == full * q + r % full,
            max_value == full * p + max_value % full,
            candidate == max_value - max_value % full + r % full,
    ;
    assert(p - q == 0 || p - q == 1) by (nonlinear_arith)
        requires
            full > 0,
            candidate - r == full * (p - q),
            -full < candidate - r,
            candidate - r < 2 * full,
    ;
    if p - q == 0 {
        assert(full * (p - q) == 0) by (nonlinear_arith)
            requires
                p - q == 0,
        ;
    } else {
        assert(full * (p - q) == full) by (nonlinear_arith)
            requires
                p - q == 1,
        ;
    }
}

/// The prefix of a block reads back.
proof fn prefix_reads_back(required: nat, base: nat, t: TableView, rest: Seq<u8>)
    requires
        t.wf(),
        required <= usize::MAX,
        base <= usize::MAX,
        required > 0 ==> {
            &&& t.max_entries() >= 1
            &&& t.inserted() < required + t.max_entries()
            &&& required <= t.inserted() + t.max_entries()
        },
    ensures
        decoder::parse_prefix(
            t,
            encoder::prefix_bytes(required, base, t.max_entries()) + rest,
        ) == Ok::<(nat, nat, nat), DecoderError>(
            (required, base, encoder::prefix_bytes(required, base, t.max_entries()).len()),
        ),
{
    let count = encoder::wire_count(required, t.max_entries());
    if required > 0 {
        count_reads_back(required, t.max_entries(), t.inserted());
    }
    let head = prefix_int::int_bytes(256, 0, count);
    let sign = if base >= required {
        prefix_int::int_bytes(128, 0, (base - required) as nat)
    } else {
        prefix_int::int_bytes(128, 128, (required - base - 1) as nat)
    };
    let s = encoder::prefix_bytes(required, base, t.max_entries()) + rest;
    assert(s == head + (sign + rest));
    prefix_int::int_round_trip(256, 0, count, sign + rest);
    assert(s.skip(head.len() as int) == sign + rest);
    if base >= required {
        prefix_int::int_round_trip(128, 0, (base - required) as nat, rest);
    } else {
        prefix_int::int_round_trip(128, 128, (required - base - 1) as nat, rest);
    }
    assert(s[head.len() as int] == sign[0]);
}

/// The entries that a block refers to are fewer than the table can hold.
proof fn references_are_near(b: BlockView, base: nat, e: TableView)
    requires
        e.wf(),
        encoder::block_wf(b, base, e),
        b.required > 0,
    ensures
        e.max_entries() >= 1,
        b.table.inserted() < b.required + e.max_entries(),
        b.table.inserted() <= base + e.max_entries(),
{
    dynamic::few_entries(b.table.fields);
    assert(b.table.fields.len() <= e.max_entries());
}

/// Decoding gives back what was encoded: a decoder that was in step with the encoder and has
/// taken the insertions that came with a block is in step again, and reads the block as the
/// fields that it was made from.
pub proof fn decode_gives_back(e: TableView, d: TableView, stream: u64, fields: Seq<FieldView>)
    requires
        e.wf(),
        d.wf(),
        in_sync(e, d),
        forall|i: int| 0 <= i < fields.len() ==> #[trigger] writable(fields[i]),
    ensures
        ({
            let b = encoder::encoded(e, stream, fields);
            let (last, used, r) = decoder::run(d, b.instructions);
            &&& r is Ok
            &&& used == b.instructions.len()
            &&& in_sync(b.table, last)
            &&& last.wf()
            &&& decoder::block_fields(last, b.block) == Ok::<Seq<FieldView>, DecoderError>(fields)
        }),
{
    let base = e.inserted();
    let may_block = e.blocked() < e.max_blocked;
    let zero = encoder::start(e);
    let b = encoder::with_fields(zero, base, may_block, fields);
    encoder::with_fields_wf(zero, base, e, may_block, fields);
    insertions_read_back(e, may_block, fields, d);
    let last = decoder::run(d, b.instructions).0;
    assert(serves(last, b)) by {
        assert forall|i: int| b.lowest <= i < b.table.inserted() implies #[trigger] last.lookup(i)
            == b.table.lookup(i) by {}
    }
    lines_read_back(e, may_block, fields, last);
    if b.required > 0 {
        references_are_near(b, base, e);
    }
    assert(last.wf()) by {
        assert(last.inserted() == b.table.inserted());
        assert(last.sections == d.sections);
    }
    prefix_reads_back(b.required, base, last, b.block);
    let prefix = encoder::prefix_bytes(b.required, base, e.max_entries());
    assert((prefix + b.block).skip(prefix.len() as int) == b.block);
}

/// A block that relies on insertions which a decoder in step with the encoder has not taken yet
/// is reported as blocked, with the number of insertions that it waits for.
pub proof fn decode_waits(e: TableView, d: TableView, stream: u64, fields: Seq<FieldView>)
    requires
        e.wf(),
        d.wf(),
        in_sync(e, d),
        encoder::encoded(e, stream, fields).required > d.inserted(),
    ensures
        decoder::block_fields(d, encoder::encoded(e, stream, fields).block) == Err::<
            Seq<FieldView>,
            DecoderError,
        >(DecoderError::MissingRefs(encoder::encoded(e, stream, fields).required as usize)),
{
    let base = e.inserted();
    let may_block = e.blocked() < e.max_blocked;
    let zero = encoder::start(e);
    let b = encoder::with_fields(zero, base, may_block, fields);
    encoder::with_fields_wf(zero, base, e, may_block, fields);
    references_are_near(b, base, e);
    prefix_reads_back(b.required, base, d, b.block);
}

/// A block that relies on no insertion is read by every decoder.
pub proof fn decode_without_table(e: TableView, d: TableView, stream: u64, fields: Seq<FieldView>)
    requires
        e.wf(),
        d.wf(),
        encoder::encoded(e, stream, fields).required == 0,
        forall|i: int| 0 <= i < fields.len() ==> #[trigger] writable(fields[i]),
    ensures
        decoder::block_fields(d, encoder::encoded(e, stream, fields).block) == Ok::<
            Seq<FieldView>,
            DecoderError,
        >(fields),
{
    let base = e.inserted();
    let may_block = e.blocked() < e.max_blocked;
    let zero = encoder::start(e);
    let b = encoder::with_fields(zero, base, may_block, fields);
    encoder::with_fields_wf(zero, base, e, may_block, fields);
    lines_read_back(e, may_block, fields, d);
    prefix_reads_back(0, base, d, b.block);
    let prefix = encoder::prefix_bytes(0, base, e.max_entries());
    assert(prefix == encoder::prefix_bytes(0, base, d.max_entries()));
    assert((prefix + b.block).skip(prefix.len() as int) == b.block);
}

/// Without capacity nothing is inserted, and no block relies on an insertion.
pub proof fn nothing_inserted_without_capacity(e: TableView, stream: u64, fields: Seq<FieldView>)
    requires
        e.fields.len() == 0,
        e.capacity == 0,
    ensures
        encoder::encoded(e, stream, fields).required == 0,
        encoder::encoded(e, stream, fields).instructions == Seq::<u8>::empty(),
        encoder::encoded(e, stream, fields).table.fields == e.fields,
{
    lines_without_capacity(e, e.blocked() < e.max_blocked, fields);
}

proof fn lines_without_capacity(e: TableView, may_block: bool, fields: Seq<FieldView>)
    requires
        e.fields.len() == 0,
        e.capacity == 0,
    ensures
        ({
            let b = encoder::with_fields(encoder::start(e), e.inserted(), may_block, fields);
            b.required == 0 && b.instructions == Seq::<u8>::empty() && b.table == e
        }),
    decreases fields.len(),
{
    if fields.len() > 0 {
        lines_without_capacity(e, may_block, fields.drop_last());
        assert(dynamic::newest(e.fields, fields.last()) is None);
    }
}

// What the encoder keeps true.

/// A block that may not wait refers only to confirmed insertions.
proof fn unblocked_refers_to_confirmed(e: TableView, may_block: bool, fields: Seq<FieldView>)
    requires
        e.wf(),
        !may_block,
    ensures
        ({
            let b = encoder::with_fields(encoder::start(e), e.inserted(), may_block, fields);
            b.required <= e.known_received && b.table == e
        }),
    decreases fields.len(),
{
    if fields.len() > 0 {
        unblocked_refers_to_confirmed(e, may_block, fields.drop_last());
    }
}

/// A new block counts only if it needs insertions that are not confirmed.
proof fn blocked_push(sections: Seq<dynamic::Section>, s: dynamic::Section, known: nat)
    ensures
        dynamic::blocked_in(sections.push(s), known) == dynamic::blocked_in(sections, known) + (
        if s.required > known {
            1nat
        } else {
            0
        }),
{
    assert(sections.push(s).drop_last() == sections);
}

/// Encoding never lets more blocks wait for insertions than the peer allows.
pub proof fn blocked_within_limit(e: TableView, stream: u64, fields: Seq<FieldView>)
    requires
        e.wf(),
        e.blocked() <= e.max_blocked,
    ensures
        encoder::encoded(e, stream, fields).table.blocked() <= e.max_blocked,
        encoder::encoded(e, stream, fields).table.max_blocked == e.max_blocked,
{
    let may_block = e.blocked() < e.max_blocked;
    let b = encoder::with_fields(encoder::start(e), e.inserted(), may_block, fields);
    encoder::with_fields_wf(encoder::start(e), e.inserted(), e, may_block, fields);
    if !may_block {
        unblocked_refers_to_confirmed(e, may_block, fields);
    }
    blocked_push(
        e.sections,
        dynamic::Section { stream, required: b.required as usize, lowest: b.lowest as usize },
        e.known_received,
    );
}

/// Whether everything that an outstanding block refers to is still in the table, and nothing
/// went that the decoder had not confirmed.
pub open spec fn holds_references(t: TableView) -> bool {
    &&& t.dropped <= t.known_received
    &&& forall|i: int|
        0 <= i < t.sections.len() ==> t.dropped <= (#[trigger] t.sections[i]).lowest
}

proof fn fields_hold_references(e: TableView, may_block: bool, fields: Seq<FieldView>)
    requires
        e.wf(),
        holds_references(e),
    ensures
        holds_references(
            encoder::with_fields(encoder::start(e), e.inserted(), may_block, fields).table,
        ),
    decreases fields.len(),
{
    if fields.len() > 0 {
        fields_hold_references(e, may_block, fields.drop_last());
        encoder::with_fields_wf(encoder::start(e), e.inserted(), e, may_block, fields.drop_last());
    }
}

/// Encoding never drops an entry that an outstanding block, this one among them, refers to, or
/// that the decoder has not confirmed.
pub proof fn encoding_holds_references(e: TableView, stream: u64, fields: Seq<FieldView>)
    requires
        e.wf(),
        holds_references(e),
    ensures
        holds_references(encoder::encoded(e, stream, fields).table),
{
    let may_block = e.blocked() < e.max_blocked;
    let b = encoder::with_fields(encoder::start(e), e.inserted(), may_block, fields);
    encoder::with_fields_wf(encoder::start(e), e.inserted(), e, may_block, fields);
    fields_hold_references(e, may_block, fields);
    let t = encoder::encoded(e, stream, fields).table;
    assert forall|i: int| 0 <= i < t.sections.len() implies t.dropped <= (
    #[trigger] t.sections[i]).lowest by {
        if i < e.sections.len() {
            assert(t.sections[i] == b.table.sections[i]);
        }
    }
}

/// No report of the decoder breaks this either.
pub proof fn report_holds_references(e: TableView, report: Report)
    requires
        holds_references(e),
    ensures
        encoder::heed(e, report) matches Ok(t) ==> holds_references(t),
{
    match report {
        Report::Acknowledgment(stream) => {
            if let Ok(t) = encoder::heed(e, report) {
                oldest_is_there(e.sections, stream, 0);
                let k = dynamic::oldest_of(e.sections, stream, 0).unwrap();
                assert forall|i: int| 0 <= i < t.sections.len() implies t.dropped <= (
                #[trigger] t.sections[i]).lowest by {
                    let j = if i < k { i } else { i + 1 };
                    assert(t.sections[i] == e.sections[j]);
                }
            }
        },
        Report::Cancellation(stream) => {
            let keep = |s: dynamic::Section| s.stream != stream;
            let t = e.cancelled(stream);
            assert forall|i: int| 0 <= i < t.sections.len() implies t.dropped <= (
            #[trigger] t.sections[i]).lowest by {
                filtered_is_from(e.sections, keep, i);
            }
        },
        Report::Increment(_) => {},
    }
}

proof fn filtered_is_from(
    all: Seq<dynamic::Section>,
    keep: spec_fn(dynamic::Section) -> bool,
    i: int,
)
    requires
        0 <= i < all.filter(keep).len(),
    ensures
        exists|j: int| 0 <= j < all.len() && #[trigger] all[j] == all.filter(keep)[i],
    decreases all.len(),
{
    reveal(Seq::filter);
    if all.len() > 0 {
        let head = all.drop_last();
        if i < head.filter(keep).len() {
            filtered_is_from(head, keep, i);
            let j = choose|j: int| 0 <= j < head.len() && #[trigger] head[j] == head.filter(keep)[i];
            assert(all[j] == all.filter(keep)[i]);
        } else {
            assert(all[all.len() - 1] == all.filter(keep)[i]);
        }
    }
}

proof fn oldest_is_there(sections: Seq<dynamic::Section>, stream: u64, from: int)
    requires
        0 <= from,
    ensures
        dynamic::oldest_of(sections, stream, from) matches Some(k) ==> from <= k < sections.len()
            && sections[k].stream == stream,
        dynamic::oldest_of(sections, stream, from) is None ==> forall|k: int|
            from <= k < sections.len() ==> (#[trigger] sections[k]).stream != stream,
    decreases sections.len() - from,
{
    if from < sections.len() && sections[from].stream != stream {
        oldest_is_there(sections, stream, from + 1);
    }
}

/// The encoder accepts the acknowledgment of a block that it encoded, and has one outstanding
/// block less then.
pub proof fn acknowledgment_accepted(e: TableView, stream: u64, fields: Seq<FieldView>)
    ensures
        ({
            let t = encoder::encoded(e, stream, fields).table;
            let (last, used, r) = encoder::run(t, decoder::ack_bytes(stream));
            &&& r is Ok
            &&& used == decoder::ack_bytes(stream).len()
            &&& last.sections.len() == t.sections.len() - 1
        }),
{
    let t = encoder::encoded(e, stream, fields).table;
    let s = decoder::ack_bytes(stream);
    assert(s == s + Seq::<u8>::empty());
    prefix_int::int_round_trip(128, 128, stream as nat, Seq::empty());
    oldest_is_there(t.sections, stream, 0);
    assert(t.sections[t.sections.len() - 1].stream == stream);
    let next = t.acknowledged(stream)->Ok_0;
    assert(s.skip(s.len() as int).len() == 0);
    assert(encoder::run(next, s.skip(s.len() as int)) == (next, 0nat, Ok::<(), EncoderError>(())));
}

/// When the decoder has confirmed everything before a block, the encoder accepts its
/// confirmation of the insertions for that block, and everything is confirmed again.
pub proof fn confirmation_accepted(e: TableView, d: TableView, stream: u64, fields: Seq<FieldView>)
    requires
        e.wf(),
        d.wf(),
        in_sync(e, d),
        e.known_received == e.inserted(),
        forall|i: int| 0 <= i < fields.len() ==> #[trigger] writable(fields[i]),
    ensures
        ({
            let b = encoder::encoded(e, stream, fields);
            let report = decoder::confirmation(
                d.inserted(),
                decoder::run(d, b.instructions).0.inserted(),
            );
            let (last, used, r) = encoder::run(b.table, report);
            &&& r is Ok
            &&& used == report.len()
            &&& last == (TableView { known_received: b.table.inserted(), ..b.table })
        }),
{
    let b = encoder::encoded(e, stream, fields);
    let may_block = e.blocked() < e.max_blocked;
    encoder::with_fields_wf(encoder::start(e), e.inserted(), e, may_block, fields);
    decode_gives_back(e, d, stream, fields);
    let n = (b.table.inserted() - d.inserted()) as nat;
    if n > 0 {
        let s = decoder::increment_bytes(n);
        assert(s == s + Seq::<u8>::empty());
        prefix_int::int_round_trip(64, 0, n, Seq::empty());
        let next = b.table.incremented(n as u64)->Ok_0;
        assert(s.skip(s.len() as int).len() == 0);
        assert(encoder::run(next, s.skip(s.len() as int)) == (
            next,
            0nat,
            Ok::<(), EncoderError>(()),
        ));
    } else {
        assert(encoder::run(b.table, Seq::<u8>::empty()) == (
            b.table,
            0nat,
            Ok::<(), EncoderError>(()),
        ));
    }
}

} // verus!
