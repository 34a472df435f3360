//! The decoding side: header blocks, and the insertions that the peer's encoder announces.

use bytes::BytesMut;
use vstd::prelude::*;

use crate::buffer;

use super::dynamic::{DynamicTable, TableView};
use super::{
    dynamic, models, prefix_int, prefix_string, static_table, DecoderError, FieldView, HeaderField,
};

verus! {

/// What the peer's encoder asks the dynamic table for.
pub enum InstructionView {
    /// To insert a field.
    Insert(FieldView),
    /// To take another capacity.
    Capacity(u64),
}

/// The name of the field at an index of the static table, or relative to `from` back in the
/// dynamic table.
pub open spec fn name_before(t: TableView, is_static: bool, from: int, index: u64) -> Result<
    Seq<u8>,
    DecoderError,
> {
    match field_before(t, is_static, from, index) {
        Ok(f) => Ok(f.0),
        Err(e) => Err(e),
    }
}

/// The field at an index of the static table, or relative to `from` back in the dynamic table.
pub open spec fn field_before(t: TableView, is_static: bool, from: int, index: u64) -> Result<
    FieldView,
    DecoderError,
> {
    if is_static {
        if index < static_table::STATIC_LEN {
            Ok(static_table::entry(index))
        } else {
            Err(DecoderError::InvalidStaticIndex(index))
        }
    } else {
        match t.lookup(from - 1 - index) {
            Some(f) => Ok(f),
            None => Err(DecoderError::InvalidIndex(index)),
        }
    }
}

/// The field at an index after `base` in the dynamic table.
pub open spec fn field_after(t: TableView, base: nat, index: u64) -> Result<FieldView, DecoderError> {
    match t.lookup(base + index) {
        Some(f) => Ok(f),
        None => Err(DecoderError::InvalidIndex(index)),
    }
}

/// A name, then a string literal that stands `used` bytes into `s`: the field and the bytes
/// that it takes.
pub open spec fn with_value(
    name: Result<Seq<u8>, DecoderError>,
    s: Seq<u8>,
    used: nat,
) -> Result<(FieldView, nat), DecoderError> {
    match prefix_string::parse_string(128, s.skip(used as int)) {
        Err(e) => Err(e),
        Ok((value, more)) => match name {
            Err(e) => Err(e),
            Ok(name) => Ok(((name, value), used + more)),
        },
    }
}

/// Reads one instruction of the encoder stream.
#[verifier::opaque]
pub open spec fn parse_instruction(t: TableView, s: Seq<u8>) -> Result<
    (InstructionView, nat),
    DecoderError,
> {
    if s.len() == 0 {
        Err(DecoderError::UnexpectedEnd)
    } else if s[0] >= 128 {
        match prefix_int::parse_int(64, s) {
            Err(e) => Err(e),
            Ok((index, used)) => match with_value(
                name_before(t, s[0] >= 192, t.inserted() as int, index),
                s,
                used,
            ) {
                Err(e) => Err(e),
                Ok((f, used)) => Ok((InstructionView::Insert(f), used)),
            },
        }
    } else if s[0] >= 64 {
        match prefix_string::parse_string(32, s) {
            Err(e) => Err(e),
            Ok((name, used)) => match with_value(Ok(name), s, used) {
                Err(e) => Err(e),
                Ok((f, used)) => Ok((InstructionView::Insert(f), used)),
            },
        }
    } else {
        match prefix_int::parse_int(32, s) {
            Err(e) => Err(e),
            Ok((n, used)) => if s[0] >= 32 {
                Ok((InstructionView::Capacity(n), used))
            } else {
                match field_before(t, false, t.inserted() as int, n) {
                    Err(e) => Err(e),
                    Ok(f) => Ok((InstructionView::Insert(f), used)),
                }
            },
        }
    }
}

/// An instruction takes at least one byte and no more than there are.
pub proof fn parse_instruction_len(t: TableView, s: Seq<u8>)
    ensures
        parse_instruction(t, s) matches Ok((_, used)) ==> 1 <= used <= s.len(),
{
    reveal(parse_instruction);
    prefix_int::parse_int_len(64, s);
    prefix_int::parse_int_len(32, s);
    prefix_string::parse_string_len(32, s);
    if let Ok((_, used)) = prefix_int::parse_int(64, s) {
        prefix_string::parse_string_len(128, s.skip(used as int));
    }
    if let Ok((_, used)) = prefix_string::parse_string(32, s) {
        prefix_string::parse_string_len(128, s.skip(used as int));
    }
}

/// The table after an instruction.
pub open spec fn apply(t: TableView, i: InstructionView) -> Result<TableView, DecoderError> {
    match (match i {
        InstructionView::Insert(f) => t.put(f),
        InstructionView::Capacity(n) => t.with_capacity(n as nat),
    }) {
        Ok(t) => Ok(t),
        Err(e) => Err(DecoderError::DynamicTable(e)),
    }
}

/// The table after all complete instructions in `s`, the bytes that they take, and whether all
/// of them were valid. The first invalid one ends the run.
pub open spec fn run(t: TableView, s: Seq<u8>) -> (TableView, nat, Result<(), DecoderError>)
    decreases s.len(),
{
    match parse_instruction(t, s) {
        Err(e) => (
            t,
            0,
            if e == DecoderError::UnexpectedEnd {
                Ok(())
            } else {
                Err(e)
            },
        ),
        Ok((i, used)) => match apply(t, i) {
            Err(e) => (t, 0, Err(e)),
            Ok(next) => {
                proof {
                    parse_instruction_len(t, s);
                }
                let (last, more, r) = run(next, s.skip(used as int));
                (last, used + more, r)
            },
        },
    }
}

/// The number of required insertions that `encoded` stands for, in a table with at most
/// `max_entries` entries that has seen `inserted` insertions.
pub open spec fn required_count(encoded: u64, max_entries: nat, inserted: nat) -> Option<nat> {
    if encoded == 0 {
        Some(0)
    } else if encoded > 2 * max_entries {
        None
    } else {
        let full = 2 * max_entries;
        let max_value = inserted + max_entries;
        let candidate = max_value - max_value % full + encoded - 1;
        if candidate <= max_value {
            if candidate == 0 {
                None
            } else {
                Some(candidate as nat)
            }
        } else if candidate <= full {
            None
        } else {
            Some((candidate - full) as nat)
        }
    }
}

/// Where a block starts counting, from the required insertions and a signed distance.
pub open spec fn base_of(required: nat, negative: bool, delta: u64) -> Option<nat> {
    if negative {
        if required > delta {
            Some((required - delta - 1) as nat)
        } else {
            None
        }
    } else if required + delta <= u64::MAX {
        Some(required + delta as nat)
    } else {
        None
    }
}

/// Reads the prefix of a header block: the required insertions, the base, and the bytes used.
pub open spec fn parse_prefix(t: TableView, s: Seq<u8>) -> Result<(nat, nat, nat), DecoderError> {
    match prefix_int::parse_int(256, s) {
        Err(e) => Err(e),
        Ok((encoded, used)) => match prefix_int::parse_int(128, s.skip(used as int)) {
            Err(e) => Err(e),
            Ok((delta, more)) => match required_count(encoded, t.max_entries(), t.inserted()) {
                None => Err(DecoderError::BadBaseIndex),
                Some(required) => match base_of(required, s[used as int] >= 128, delta) {
                    None => Err(DecoderError::BadBaseIndex),
                    Some(base) => if required > usize::MAX {
                        Err(DecoderError::BadBaseIndex)
                    } else {
                        Ok((required, base, used + more))
                    },
                },
            },
        },
    }
}

/// Reads one line of a header block: the field and the bytes used.
#[verifier::opaque]
pub open spec fn parse_line(t: TableView, base: nat, s: Seq<u8>) -> Result<
    (FieldView, nat),
    DecoderError,
> {
    if s.len() == 0 {
        Err(DecoderError::UnexpectedEnd)
    } else if s[0] >= 128 {
        match prefix_int::parse_int(64, s) {
            Err(e) => Err(e),
            Ok((index, used)) => match field_before(t, s[0] >= 192, base as int, index) {
                Err(e) => Err(e),
                Ok(f) => Ok((f, used)),
            },
        }
    } else if s[0] >= 64 {
        match prefix_int::parse_int(16, s) {
            Err(e) => Err(e),
            Ok((index, used)) => with_value(
                name_before(t, (s[0] / 16) % 2 == 1, base as int, index),
                s,
                used,
            ),
        }
    } else if s[0] >= 32 {
        match prefix_string::parse_string(8, s) {
            Err(e) => Err(e),
            Ok((name, used)) => with_value(Ok(name), s, used),
        }
    } else if s[0] >= 16 {
        match prefix_int::parse_int(16, s) {
            Err(e) => Err(e),
            Ok((index, used)) => match field_after(t, base, index) {
                Err(e) => Err(e),
                Ok(f) => Ok((f, used)),
            },
        }
    } else {
        match prefix_int::parse_int(8, s) {
            Err(e) => Err(e),
            Ok((index, used)) => with_value(
                match field_after(t, base, index) {
                    Ok(f) => Ok(f.0),
                    Err(e) => Err(e),
                },
                s,
                used,
            ),
        }
    }
}

/// A line takes at least one byte and no more than there are.
pub proof fn parse_line_len(t: TableView, base: nat, s: Seq<u8>)
    ensures
        parse_line(t, base, s) matches Ok((_, used)) ==> 1 <= used <= s.len(),
{
    reveal(parse_line);
    prefix_int::parse_int_len(64, s);
    prefix_int::parse_int_len(16, s);
    prefix_int::parse_int_len(8, s);
    prefix_string::parse_string_len(8, s);
    if let Ok((_, used)) = prefix_int::parse_int(16, s) {
        prefix_string::parse_string_len(128, s.skip(used as int));
    }
    if let Ok((_, used)) = prefix_int::parse_int(8, s) {
        prefix_string::parse_string_len(128, s.skip(used as int));
    }
    if let Ok((_, used)) = prefix_string::parse_string(8, s) {
        prefix_string::parse_string_len(128, s.skip(used as int));
    }
}

/// Reads the lines of a header block.
pub open spec fn lines(t: TableView, base: nat, s: Seq<u8>) -> Result<Seq<FieldView>, DecoderError>
    decreases s.len(),
{
    if s.len() == 0 {
        Ok(Seq::empty())
    } else {
        match parse_line(t, base, s) {
            Err(e) => Err(e),
            Ok((f, used)) => {
                proof {
                    parse_line_len(t, base, s);
                }
                match lines(t, base, s.skip(used as int)) {
                    Err(e) => Err(e),
                    Ok(rest) => Ok(seq![f] + rest),
                }
            },
        }
    }
}

/// The fields of a header block.
pub open spec fn block_fields(t: TableView, s: Seq<u8>) -> Result<Seq<FieldView>, DecoderError> {
    match parse_prefix(t, s) {
        Err(e) => Err(e),
        Ok((required, base, used)) => if required > t.inserted() {
            Err(DecoderError::MissingRefs(required as usize))
        } else {
            lines(t, base, s.skip(used as int))
        },
    }
}

/// What is written to the decoder stream after `n` insertions.
pub open spec fn increment_bytes(n: nat) -> Seq<u8> {
    prefix_int::int_bytes(64, 0, n)
}

/// What is written to the decoder stream when the count of insertions went from one number to
/// another.
pub open spec fn confirmation(before: nat, after: nat) -> Seq<u8> {
    if after > before {
        increment_bytes((after - before) as nat)
    } else {
        Seq::empty()
    }
}

/// What is written to the decoder stream after a block of `stream` was decoded.
pub open spec fn ack_bytes(stream: u64) -> Seq<u8> {
    prefix_int::int_bytes(128, 128, stream as nat)
}

/// What the peer's encoder asks the dynamic table for.
pub enum Instruction {
    Insert(HeaderField),
    Capacity(u64),
}

impl View for Instruction {
    type V = InstructionView;

    open spec fn view(&self) -> InstructionView {
        match self {
            Instruction::Insert(f) => InstructionView::Insert(f@),
            Instruction::Capacity(n) => InstructionView::Capacity(*n),
        }
    }
}

/// A result over values means the same as one over their models.
pub open spec fn same_result<T: View>(
    r: Result<T, DecoderError>,
    s: Result<T::V, DecoderError>,
) -> bool {
    match r {
        Ok(v) => s == Ok::<T::V, DecoderError>(v@),
        Err(e) => s == Err::<T::V, DecoderError>(e),
    }
}

fn get_before(t: &DynamicTable, is_static: bool, from: u64, index: u64) -> (r: Result<
    HeaderField,
    DecoderError,
>)
    requires
        t.wf(),
    ensures
        same_result(r, field_before(t@, is_static, from as int, index)),
{
    if is_static {
        if index < static_table::STATIC_LEN {
            Ok(static_table::get(index))
        } else {
            Err(DecoderError::InvalidStaticIndex(index))
        }
    } else if index >= from {
        Err(DecoderError::InvalidIndex(index))
    } else {
        match t.get(from - 1 - index) {
            Some(f) => Ok(f),
            None => Err(DecoderError::InvalidIndex(index)),
        }
    }
}

fn get_after(t: &DynamicTable, base: u64, index: u64) -> (r: Result<HeaderField, DecoderError>)
    requires
        t.wf(),
    ensures
        same_result(r, field_after(t@, base as nat, index)),
{
    if index > u64::MAX - base {
        proof {
            t.wf_model();
        }
        return Err(DecoderError::InvalidIndex(index));
    }
    match t.get(base + index) {
        Some(f) => Ok(f),
        None => Err(DecoderError::InvalidIndex(index)),
    }
}

fn get_value(name: Result<Vec<u8>, DecoderError>, buf: &[u8], used: usize) -> (r: Result<
    (HeaderField, usize),
    DecoderError,
>)
    requires
        used <= buf@.len(),
    ensures
        prefix_string::same_model(
            r,
            with_value(
                match name {
                    Ok(n) => Ok(n@),
                    Err(e) => Err(e),
                },
                buf@,
                used as nat,
            ),
        ),
        r matches Ok((_, end)) ==> used < end <= buf@.len(),
{
    let rest = &buf[used..buf.len()];
    assert(rest@ == buf@.skip(used as int));
    match prefix_string::decode(128, rest) {
        Err(e) => Err(e),
        Ok((value, more)) => match name {
            Err(e) => Err(e),
            Ok(name) => Ok((HeaderField { name, value }, used + more)),
        },
    }
}

fn only_name(r: Result<HeaderField, DecoderError>) -> (n: Result<Vec<u8>, DecoderError>)
    ensures
        match r {
            Ok(f) => n == Ok::<Vec<u8>, DecoderError>(f.name),
            Err(e) => n == Err::<Vec<u8>, DecoderError>(e),
        },
{
    match r {
        Ok(f) => Ok(f.name),
        Err(e) => Err(e),
    }
}

fn read_instruction(t: &DynamicTable, buf: &[u8]) -> (r: Result<(Instruction, usize), DecoderError>)
    requires
        t.wf(),
    ensures
        prefix_string::same_model(r, parse_instruction(t@, buf@)),
        r matches Ok((_, used)) ==> 1 <= used <= buf@.len(),
{
    proof {
        reveal(parse_instruction);
    }
    if buf.len() == 0 {
        return Err(DecoderError::UnexpectedEnd);
    }
    let first: u8 = buf[0];
    let inserted: u64 = t.total_inserted() as u64;
    if first >= 128 {
        match prefix_int::decode(64, buf) {
            Err(e) => Err(e),
            Ok((index, used)) => {
                let name = only_name(get_before(t, first >= 192, inserted, index));
                match get_value(name, buf, used) {
                    Err(e) => Err(e),
                    Ok((f, used)) => Ok((Instruction::Insert(f), used)),
                }
            },
        }
    } else if first >= 64 {
        match prefix_string::decode(32, buf) {
            Err(e) => Err(e),
            Ok((name, used)) => match get_value(Ok(name), buf, used) {
                Err(e) => Err(e),
                Ok((f, used)) => Ok((Instruction::Insert(f), used)),
            },
        }
    } else {
        match prefix_int::decode(32, buf) {
            Err(e) => Err(e),
            Ok((n, used)) => if first >= 32 {
                Ok((Instruction::Capacity(n), used))
            } else {
                match get_before(t, false, inserted, n) {
                    Err(e) => Err(e),
                    Ok(f) => Ok((Instruction::Insert(f), used)),
                }
            },
        }
    }
}

/// What a run of instructions starting `pos` bytes into a buffer comes to, counted from the
/// start of the buffer.
spec fn run_from(t: TableView, s: Seq<u8>, pos: nat) -> (TableView, nat, Result<(), DecoderError>) {
    let (last, used, r) = run(t, s.skip(pos as int));
    (last, pos + used, r)
}

/// No run removes insertions from the count.
pub proof fn run_grows(t: TableView, s: Seq<u8>)
    ensures
        run(t, s).0.inserted() >= t.inserted(),
        t.inserted() <= usize::MAX ==> run(t, s).0.inserted() <= usize::MAX,
        run(t, s).1 <= s.len(),
    decreases s.len(),
{
    if let Ok((i, used)) = parse_instruction(t, s) {
        parse_instruction_len(t, s);
        if let Ok(next) = apply(t, i) {
            match i {
                InstructionView::Insert(f) => {
                    dynamic::cut_fits(t.fields, (t.capacity - dynamic::size(f)) as nat);
                },
                InstructionView::Capacity(n) => {
                    dynamic::cut_fits(t.fields, n as nat);
                },
            }
            run_grows(next, s.skip(used as int));
        }
    }
}

/// Takes complete instructions from the front of `read`, applies them to the table and confirms
/// the insertions among them on the decoder stream. The result is the number of insertions that
/// the table has seen.
pub fn on_encoder_recv(table: &mut DynamicTable, read: &mut &[u8], write: &mut BytesMut) -> (r:
    Result<usize, DecoderError>)
    requires
        old(table).wf(),
    ensures
        final(table).wf(),
        final(table)@ == run(old(table)@, (*old(read))@).0,
        match run(old(table)@, (*old(read))@).2 {
            Ok(_) => {
                &&& r == Ok::<usize, DecoderError>(final(table)@.inserted() as usize)
                &&& (*final(read))@ == (*old(read))@.skip(
                    run(old(table)@, (*old(read))@).1 as int,
                )
                &&& buffer::buffered(*final(write)) == buffer::buffered(*old(write))
                    + confirmation(old(table)@.inserted(), final(table)@.inserted())
            },
            Err(e) => {
                &&& r == Err::<usize, DecoderError>(e)
                &&& (*final(read))@ == (*old(read))@
                &&& buffer::buffered(*final(write)) == buffer::buffered(*old(write))
            },
        },
{
    let buf: &[u8] = *read;
    let before: usize = table.total_inserted();
    let ghost start = table@;
    let mut pos: usize = 0;
    proof {
        assert(buf@.skip(0) == buf@);
        run_grows(start, buf@);
    }
    loop
        invariant
            table.wf(),
            start == old(table)@,
            before == start.inserted(),
            buf@ == (*old(read))@,
            (*read)@ == buf@,
            buffer::buffered(*write) == buffer::buffered(*old(write)),
            pos <= buf@.len(),
            run(start, buf@) == run_from(table@, buf@, pos as nat),
            run(start, buf@).0.inserted() >= start.inserted(),
        ensures
            run(start, buf@) == (table@, pos as nat, Ok::<(), DecoderError>(())),
        decreases buf@.len() - pos,
    {
        let rest = &buf[pos..buf.len()];
        assert(rest@ == buf@.skip(pos as int));
        match read_instruction(table, rest) {
            Err(DecoderError::UnexpectedEnd) => {
                break;
            },
            Err(e) => {
                return Err(e);
            },
            Ok((instruction, used)) => {
                let ghost t = table@;
                let ghost view = instruction@;
                let outcome = match instruction {
                    Instruction::Insert(f) => table.put(f),
                    Instruction::Capacity(n) => table.set_capacity(n),
                };
                match outcome {
                    Err(e) => {
                        return Err(DecoderError::DynamicTable(e));
                    },
                    Ok(_) => {},
                }
                assert(apply(t, view) == Ok::<TableView, DecoderError>(table@));
                assert(buf@.skip(pos as int).skip(used as int) == buf@.skip(pos + used));
                pos = pos + used;
            },
        }
    }
    let after: usize = table.total_inserted();
    if after != before {
        let mut increment: Vec<u8> = Vec::new();
        prefix_int::encode(&mut increment, 64, 0, (after - before) as u64);
        write.extend_from_slice(increment.as_slice());
        assert(increment@ == increment_bytes((after - before) as nat));
    }
    *read = &buf[pos..buf.len()];
    Ok(after)
}

fn read_required(encoded: u64, max_entries: usize, inserted: usize) -> (r: Option<u128>)
    requires
        max_entries <= dynamic::MAX_CAPACITY,
    ensures
        match r {
            Some(n) => required_count(encoded, max_entries as nat, inserted as nat) == Some(
                n as nat,
            ),
            None => required_count(encoded, max_entries as nat, inserted as nat) is None,
        },
{
    if encoded == 0 {
        return Some(0);
    }
    let full: u128 = 2 * max_entries as u128;
    if encoded as u128 > full {
        return None;
    }
    let max_value: u128 = inserted as u128 + max_entries as u128;
    proof {
        vstd::arithmetic::div_mod::lemma_mod_decreases(max_value as nat, full as nat);
    }
    let candidate: u128 = max_value - max_value % full + encoded as u128 - 1;
    if candidate <= max_value {
        if candidate == 0 {
            None
        } else {
            Some(candidate)
        }
    } else if candidate <= full {
        None
    } else {
        Some(candidate - full)
    }
}

fn read_base(required: usize, negative: bool, delta: u64) -> (r: Option<u64>)
    ensures
        match r {
            Some(n) => base_of(required as nat, negative, delta) == Some(n as nat),
            None => base_of(required as nat, negative, delta) is None,
        },
{
    if negative {
        if required as u64 > delta {
            Some(required as u64 - delta - 1)
        } else {
            None
        }
    } else if delta <= u64::MAX - required as u64 {
        Some(required as u64 + delta)
    } else {
        None
    }
}

fn read_prefix(t: &DynamicTable, buf: &[u8]) -> (r: Result<(usize, u64, usize), DecoderError>)
    requires
        t.wf(),
    ensures
        match r {
            Ok((required, base, used)) => parse_prefix(t@, buf@) == Ok::<
                (nat, nat, nat),
                DecoderError,
            >((required as nat, base as nat, used as nat)) && used <= buf@.len(),
            Err(e) => parse_prefix(t@, buf@) == Err::<(nat, nat, nat), DecoderError>(e),
        },
{
    proof {
        t.wf_model();
    }
    match prefix_int::decode(256, buf) {
        Err(e) => Err(e),
        Ok((encoded, used)) => {
            let rest = &buf[used..buf.len()];
            assert(rest@ == buf@.skip(used as int));
            match prefix_int::decode(128, rest) {
                Err(e) => Err(e),
                Ok((delta, more)) => {
                    let max_entries: usize = t.max_capacity() / dynamic::ENTRY_OVERHEAD;
                    match read_required(encoded, max_entries, t.total_inserted()) {
                        None => Err(DecoderError::BadBaseIndex),
                        Some(required) => {
                            if required > usize::MAX as u128 {
                                return Err(DecoderError::BadBaseIndex);
                            }
                            match read_base(required as usize, rest[0] >= 128, delta) {
                                None => Err(DecoderError::BadBaseIndex),
                                Some(base) => Ok((required as usize, base, used + more)),
                            }
                        },
                    }
                },
            }
        },
    }
}

fn read_line(t: &DynamicTable, base: u64, buf: &[u8]) -> (r: Result<
    (HeaderField, usize),
    DecoderError,
>)
    requires
        t.wf(),
    ensures
        prefix_string::same_model(r, parse_line(t@, base as nat, buf@)),
        r matches Ok((_, used)) ==> 1 <= used <= buf@.len(),
{
    proof {
        reveal(parse_line);
    }
    if buf.len() == 0 {
        return Err(DecoderError::UnexpectedEnd);
    }
    let first: u8 = buf[0];
    if first >= 128 {
        match prefix_int::decode(64, buf) {
            Err(e) => Err(e),
            Ok((index, used)) => match get_before(t, first >= 192, base, index) {
                Err(e) => Err(e),
                Ok(f) => Ok((f, used)),
            },
        }
    } else if first >= 64 {
        match prefix_int::decode(16, buf) {
            Err(e) => Err(e),
            Ok((index, used)) => {
                let name = only_name(get_before(t, (first / 16) % 2 == 1, base, index));
                get_value(name, buf, used)
            },
        }
    } else if first >= 32 {
        match prefix_string::decode(8, buf) {
            Err(e) => Err(e),
            Ok((name, used)) => get_value(Ok(name), buf, used),
        }
    } else if first >= 16 {
        match prefix_int::decode(16, buf) {
            Err(e) => Err(e),
            Ok((index, used)) => match get_after(t, base, index) {
                Err(e) => Err(e),
                Ok(f) => Ok((f, used)),
            },
        }
    } else {
        match prefix_int::decode(8, buf) {
            Err(e) => Err(e),
            Ok((index, used)) => {
                let name = only_name(get_after(t, base, index));
                get_value(name, buf, used)
            },
        }
    }
}

/// The fields `done`, then those of a block's remaining lines.
spec fn lines_after(
    done: Seq<FieldView>,
    rest: Result<Seq<FieldView>, DecoderError>,
) -> Result<Seq<FieldView>, DecoderError> {
    match rest {
        Ok(r) => Ok(done + r),
        Err(e) => Err(e),
    }
}

/// Decodes a header block.
pub fn decode_header(table: &DynamicTable, buf: &[u8]) -> (r: Result<Vec<HeaderField>, DecoderError>)
    requires
        table.wf(),
    ensures
        match r {
            Ok(v) => block_fields(table@, buf@) == Ok::<Seq<FieldView>, DecoderError>(models(v@)),
            Err(e) => block_fields(table@, buf@) == Err::<Seq<FieldView>, DecoderError>(e),
        },
{
    match read_prefix(table, buf) {
        Err(e) => Err(e),
        Ok((required, base, used)) => {
            if required > table.total_inserted() {
                return Err(DecoderError::MissingRefs(required));
            }
            let mut out: Vec<HeaderField> = Vec::new();
            let mut pos: usize = used;
            let ghost whole = lines(table@, base as nat, buf@.skip(used as int));
            proof {
                if let Ok(w) = whole {
                    assert(models(out@) + w == w);
                }
            }
            while pos < buf.len()
                invariant
                    table.wf(),
                    pos <= buf@.len(),
                    whole == lines_after(
                        models(out@),
                        lines(table@, base as nat, buf@.skip(pos as int)),
                    ),
                    block_fields(table@, buf@) == whole,
                decreases buf@.len() - pos,
            {
                let rest = &buf[pos..buf.len()];
                assert(rest@ == buf@.skip(pos as int));
                match read_line(table, base, rest) {
                    Err(e) => {
                        return Err(e);
                    },
                    Ok((f, used)) => {
                        let ghost before = models(out@);
                        let ghost view = f@;
                        out.push(f);
                        proof {
                            assert(models(out@) == before.push(view));
                            assert(buf@.skip(pos as int).skip(used as int) == buf@.skip(
                                pos + used,
                            ));
                            let more = lines(table@, base as nat, buf@.skip(pos + used));
                            if let Ok(m) = more {
                                assert(before + (seq![view] + m) == models(out@) + m);
                            }
                        }
                        pos = pos + used;
                    },
                }
            }
            proof {
                assert(lines(table@, base as nat, buf@.skip(pos as int)) == Ok::<
                    Seq<FieldView>,
                    DecoderError,
                >(Seq::<FieldView>::empty()));
                assert(models(out@) + Seq::<FieldView>::empty() == models(out@));
            }
            Ok(out)
        },
    }
}

/// Acknowledges a header block of `stream` on the decoder stream.
pub fn ack_header(stream: u64, write: &mut BytesMut)
    ensures
        buffer::buffered(*final(write)) == buffer::buffered(*old(write)) + ack_bytes(stream),
{
    let mut ack: Vec<u8> = Vec::new();
    prefix_int::encode(&mut ack, 128, 128, stream);
    write.extend_from_slice(ack.as_slice());
    assert(ack@ == ack_bytes(stream));
}

} // verus!
