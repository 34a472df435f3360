//! The encoding side: header blocks, and what the peer's decoder confirms.

use bytes::BytesMut;
use vstd::prelude::*;

use crate::buffer;

use super::dynamic::{DynamicTable, Section, TableView};
use super::{
    dynamic, models, prefix_int, prefix_string, static_table, DecoderError, EncoderError, FieldView,
    HeaderField,
};

verus! {

/// A header block that is being written.
pub struct BlockView {
    /// The table, with the insertions made for the block.
    pub table: TableView,
    /// The lines of the block.
    pub block: Seq<u8>,
    /// The insertions, as they go to the encoder stream.
    pub instructions: Seq<u8>,
    /// The number of insertions that the decoder needs to have seen.
    pub required: nat,
    /// The lowest absolute index that the block refers to.
    pub lowest: nat,
}

/// A block without lines.
pub open spec fn start(t: TableView) -> BlockView {
    BlockView {
        table: t,
        block: Seq::empty(),
        instructions: Seq::empty(),
        required: 0,
        lowest: usize::MAX as nat,
    }
}

/// The announcement of an insertion.
pub open spec fn insertion_bytes(f: FieldView) -> Seq<u8> {
    match static_table::find_name_from(f.0, 0) {
        Some(i) => prefix_int::int_bytes(64, 192, i as nat) + prefix_string::string_bytes(
            128,
            0,
            f.1,
        ),
        None => prefix_string::string_bytes(32, 64, f.0) + prefix_string::string_bytes(128, 0, f.1),
    }
}

/// A line that spells out a value, and its name unless the static table has it.
pub open spec fn literal_bytes(f: FieldView) -> Seq<u8> {
    match static_table::find_name_from(f.0, 0) {
        Some(i) => prefix_int::int_bytes(16, 80, i as nat) + prefix_string::string_bytes(
            128,
            0,
            f.1,
        ),
        None => prefix_string::string_bytes(8, 32, f.0) + prefix_string::string_bytes(128, 0, f.1),
    }
}

/// A line that refers to an entry of the dynamic table.
pub open spec fn reference_bytes(base: nat, index: nat) -> Seq<u8> {
    if index < base {
        prefix_int::int_bytes(64, 128, (base - 1 - index) as nat)
    } else {
        prefix_int::int_bytes(16, 16, (index - base) as nat)
    }
}

/// The block after a line that refers to an entry of the dynamic table.
pub open spec fn with_reference(b: BlockView, base: nat, index: nat) -> BlockView {
    BlockView {
        block: b.block + reference_bytes(base, index),
        required: if index + 1 > b.required {
            index + 1
        } else {
            b.required
        },
        lowest: if index < b.lowest {
            index
        } else {
            b.lowest
        },
        ..b
    }
}

/// The absolute index of an entry that a block may refer to for the field `f`. An entry that the
/// decoder has not confirmed serves only a block that may wait.
pub open spec fn usable(t: TableView, may_block: bool, f: FieldView) -> Option<nat> {
    match dynamic::newest(t.fields, f) {
        Some(k) => if may_block || t.dropped + k < t.known_received {
            Some(t.dropped + k)
        } else {
            None
        },
        None => None,
    }
}

/// The block after the line of one more field.
pub open spec fn with_field(b: BlockView, base: nat, may_block: bool, f: FieldView) -> BlockView {
    if static_table::find_from(f, 0) is Some {
        BlockView {
            block: b.block + prefix_int::int_bytes(
                64,
                192,
                static_table::find_from(f, 0).unwrap() as nat,
            ),
            ..b
        }
    } else if usable(b.table, may_block, f) is Some {
        with_reference(b, base, usable(b.table, may_block, f).unwrap())
    } else if may_block && b.table.can_insert(f, b.lowest) {
        with_reference(
            BlockView {
                table: b.table.put(f)->Ok_0,
                instructions: b.instructions + insertion_bytes(f),
                ..b
            },
            base,
            b.table.inserted(),
        )
    } else {
        BlockView { block: b.block + literal_bytes(f), ..b }
    }
}

/// The block after the lines of some more fields.
pub open spec fn with_fields(
    b: BlockView,
    base: nat,
    may_block: bool,
    fields: Seq<FieldView>,
) -> BlockView
    decreases fields.len(),
{
    if fields.len() == 0 {
        b
    } else {
        with_field(
            with_fields(b, base, may_block, fields.drop_last()),
            base,
            may_block,
            fields.last(),
        )
    }
}

/// How the number of required insertions is written.
pub open spec fn wire_count(required: nat, max_entries: nat) -> nat {
    if required == 0 {
        0
    } else {
        required % (2 * max_entries) + 1
    }
}

/// The prefix of a header block.
pub open spec fn prefix_bytes(required: nat, base: nat, max_entries: nat) -> Seq<u8> {
    prefix_int::int_bytes(256, 0, wire_count(required, max_entries)) + (if base >= required {
        prefix_int::int_bytes(128, 0, (base - required) as nat)
    } else {
        prefix_int::int_bytes(128, 128, (required - base - 1) as nat)
    })
}

/// The complete block for some fields, and the table that remembers it.
pub open spec fn encoded(t: TableView, stream: u64, fields: Seq<FieldView>) -> BlockView {
    let base = t.inserted();
    let b = with_fields(start(t), base, t.blocked() < t.max_blocked, fields);
    BlockView {
        table: TableView {
            sections: b.table.sections.push(
                Section { stream, required: b.required as usize, lowest: b.lowest as usize },
            ),
            ..b.table
        },
        block: prefix_bytes(b.required, base, t.max_entries()) + b.block,
        ..b
    }
}

/// A header block that is being written.
struct Block {
    lines: Vec<u8>,
    instructions: Vec<u8>,
    required: usize,
    lowest: usize,
}

impl Block {
    spec fn with_table(&self, table: TableView) -> BlockView {
        BlockView {
            table,
            block: self.lines@,
            instructions: self.instructions@,
            required: self.required as nat,
            lowest: self.lowest as nat,
        }
    }

    fn refer(&mut self, base: usize, index: usize)
        requires
            index < usize::MAX,
        ensures
            forall|t: TableView|
                #![trigger final(self).with_table(t)]
                final(self).with_table(t) == with_reference(
                    old(self).with_table(t),
                    base as nat,
                    index as nat,
                ),
    {
        if index < base {
            prefix_int::encode(&mut self.lines, 64, 128, (base - 1 - index) as u64);
        } else {
            prefix_int::encode(&mut self.lines, 16, 16, (index - base) as u64);
        }
        if index + 1 > self.required {
            self.required = index + 1;
        }
        if index < self.lowest {
            self.lowest = index;
        }
    }

    fn announce(&mut self, field: &HeaderField)
        ensures
            final(self).instructions@ == old(self).instructions@ + insertion_bytes(field@),
            final(self).lines == old(self).lines,
            final(self).required == old(self).required,
            final(self).lowest == old(self).lowest,
    {
        match static_table::find_name(field.name.as_slice()) {
            Some(i) => {
                prefix_int::encode(&mut self.instructions, 64, 192, i);
            },
            None => {
                prefix_string::encode(&mut self.instructions, 32, 64, field.name.as_slice());
            },
        }
        prefix_string::encode(&mut self.instructions, 128, 0, field.value.as_slice());
        assert(self.instructions@ == old(self).instructions@ + insertion_bytes(field@));
    }

    fn spell(&mut self, field: &HeaderField)
        ensures
            final(self).lines@ == old(self).lines@ + literal_bytes(field@),
            final(self).instructions == old(self).instructions,
            final(self).required == old(self).required,
            final(self).lowest == old(self).lowest,
    {
        match static_table::find_name(field.name.as_slice()) {
            Some(i) => {
                prefix_int::encode(&mut self.lines, 16, 80, i);
            },
            None => {
                prefix_string::encode(&mut self.lines, 8, 32, field.name.as_slice());
            },
        }
        prefix_string::encode(&mut self.lines, 128, 0, field.value.as_slice());
        assert(self.lines@ == old(self).lines@ + literal_bytes(field@));
    }
}

/// What a block keeps true of itself and the table while it is written.
pub open spec fn block_wf(b: BlockView, base: nat, t: TableView) -> bool {
    &&& b.table.wf()
    &&& b.table.sections == t.sections
    &&& b.table.known_received == t.known_received
    &&& b.table.capacity == t.capacity
    &&& b.table.max_capacity == t.max_capacity
    &&& b.table.max_blocked == t.max_blocked
    &&& base == t.inserted()
    &&& b.table.inserted() >= base
    &&& b.required <= b.table.inserted()
    &&& b.required > 0 ==> b.table.dropped <= b.lowest < b.required
    &&& b.required == 0 ==> b.lowest == usize::MAX
    &&& b.table.inserted() > base ==> b.required > 0 && b.lowest <= base
}

/// A line keeps it true.
pub proof fn with_field_wf(b: BlockView, base: nat, t: TableView, may_block: bool, f: FieldView)
    requires
        block_wf(b, base, t),
    ensures
        block_wf(with_field(b, base, may_block, f), base, t),
{
    dynamic::newest_is_right(b.table.fields, f);
    dynamic::put_keeps(b.table, f);
}

/// Lines keep it true.
pub proof fn with_fields_wf(
    b: BlockView,
    base: nat,
    t: TableView,
    may_block: bool,
    fields: Seq<FieldView>,
)
    requires
        block_wf(b, base, t),
    ensures
        block_wf(with_fields(b, base, may_block, fields), base, t),
    decreases fields.len(),
{
    if fields.len() > 0 {
        with_fields_wf(b, base, t, may_block, fields.drop_last());
        with_field_wf(
            with_fields(b, base, may_block, fields.drop_last()),
            base,
            t,
            may_block,
            fields.last(),
        );
    }
}

/// A table that remembers one more block is still a table.
pub proof fn encoded_wf(t: TableView, stream: u64, fields: Seq<FieldView>)
    requires
        t.wf(),
    ensures
        encoded(t, stream, fields).table.wf(),
{
    with_fields_wf(start(t), t.inserted(), t, t.blocked() < t.max_blocked, fields);
}


/// A block that refers to the dynamic table has a table with room for an entry.
proof fn referring_has_room(b: BlockView, base: nat, t: TableView)
    requires
        block_wf(b, base, t),
        b.required > 0,
    ensures
        t.max_entries() >= 1,
        t.max_entries() <= dynamic::MAX_CAPACITY,
{
    assert(b.table.fields.len() > 0);
    dynamic::few_entries(b.table.fields);
    assert(b.table.max_capacity >= dynamic::ENTRY_OVERHEAD);
}

fn encode_field(
    table: &mut DynamicTable,
    block: &mut Block,
    base: usize,
    may_block: bool,
    field: &HeaderField,
    Ghost(t): Ghost<TableView>,
)
    requires
        old(table).wf(),
        block_wf(old(block).with_table(old(table)@), base as nat, t),
    ensures
        final(table).wf(),
        final(block).with_table(final(table)@) == with_field(
            old(block).with_table(old(table)@),
            base as nat,
            may_block,
            field@,
        ),
        block_wf(final(block).with_table(final(table)@), base as nat, t),
{
    proof {
        with_field_wf(old(block).with_table(old(table)@), base as nat, t, may_block, field@);
        table.wf_model();
        dynamic::newest_is_right(table@.fields, field@);
        dynamic::put_keeps(table@, field@);
        static_table::find_is_right(field@, 0);
    }
    match static_table::find(field) {
        Some(i) => {
            prefix_int::encode(&mut block.lines, 64, 192, i);
            return ;
        },
        None => {},
    }
    match table.find(field) {
        Some(index) => {
            if may_block || index < table.known_received() {
                block.refer(base, index);
                return ;
            }
        },
        None => {},
    }
    if may_block && table.can_insert(field, block.lowest) {
        let index: usize = table.total_inserted();
        block.announce(field);
        match table.put(field.duplicate()) {
            Ok(_) => {
                block.refer(base, index);
            },
            Err(_) => {
                assert(false);
            },
        }
    } else {
        block.spell(field);
    }
}

fn write_prefix(out: &mut Vec<u8>, required: usize, base: usize, max_entries: usize)
    requires
        max_entries <= dynamic::MAX_CAPACITY,
        required > 0 ==> max_entries >= 1,
    ensures
        final(out)@ == old(out)@ + prefix_bytes(
            required as nat,
            base as nat,
            max_entries as nat,
        ),
{
    let count: u64 = if required == 0 {
        0
    } else {
        required as u64 % (2 * max_entries as u64) + 1
    };
    prefix_int::encode(out, 256, 0, count);
    if base >= required {
        prefix_int::encode(out, 128, 0, (base - required) as u64);
    } else {
        prefix_int::encode(out, 128, 128, (required - base - 1) as u64);
    }
    assert(out@ == old(out)@ + prefix_bytes(required as nat, base as nat, max_entries as nat));
}

/// Encodes a header block for `stream`. The block is appended to `block` and the insertions that
/// it relies on to `encoder`. The result is the number of insertions that the decoder needs to
/// have seen.
pub fn encode(
    table: &mut DynamicTable,
    stream: u64,
    block: &mut BytesMut,
    encoder: &mut BytesMut,
    fields: &[HeaderField],
) -> (required: usize)
    requires
        old(table).wf(),
    ensures
        final(table).wf(),
        final(table)@ == encoded(old(table)@, stream, models(fields@)).table,
        buffer::buffered(*final(block)) == buffer::buffered(*old(block)) + encoded(
            old(table)@,
            stream,
            models(fields@),
        ).block,
        buffer::buffered(*final(encoder)) == buffer::buffered(*old(encoder)) + encoded(
            old(table)@,
            stream,
            models(fields@),
        ).instructions,
        required == encoded(old(table)@, stream, models(fields@)).required,
{
    let ghost t = table@;
    let ghost all = models(fields@);
    let base: usize = table.total_inserted();
    let may_block: bool = table.may_block();
    let max_entries: usize = table.max_capacity() / dynamic::ENTRY_OVERHEAD;
    let mut written = Block {
        lines: Vec::new(),
        instructions: Vec::new(),
        required: 0,
        lowest: usize::MAX,
    };
    proof {
        table.wf_model();
        assert(written.with_table(t) == start(t));
        assert(all.take(0) == Seq::<FieldView>::empty());
    }
    let mut i: usize = 0;
    while i < fields.len()
        invariant
            i <= fields@.len(),
            all == models(fields@),
            table.wf(),
            may_block == (t.blocked() < t.max_blocked),
            block_wf(written.with_table(table@), base as nat, t),
            written.with_table(table@) == with_fields(
                start(t),
                base as nat,
                may_block,
                all.take(i as int),
            ),
        decreases fields@.len() - i,
    {
        encode_field(table, &mut written, base, may_block, &fields[i], Ghost(t));
        proof {
            assert(all.take(i + 1).drop_last() == all.take(i as int));
            assert(all.take(i + 1).last() == fields@[i as int]@);
        }
        i = i + 1;
    }
    proof {
        assert(all.take(i as int) == all);
        if written.required > 0 {
            referring_has_room(written.with_table(table@), base as nat, t);
        }
        assert(t.max_entries() <= dynamic::MAX_CAPACITY);
    }
    let mut prefix: Vec<u8> = Vec::new();
    write_prefix(&mut prefix, written.required, base, max_entries);
    block.extend_from_slice(prefix.as_slice());
    block.extend_from_slice(written.lines.as_slice());
    encoder.extend_from_slice(written.instructions.as_slice());
    table.track(Section { stream, required: written.required, lowest: written.lowest });
    proof {
        assert(buffer::buffered(*block) == buffer::buffered(*old(block)) + encoded(
            t,
            stream,
            all,
        ).block);
    }
    written.required
}

/// What the peer's decoder reports.
#[derive(Clone, Copy, Debug, PartialEq, Eq, Structural)]
pub enum Report {
    /// A header block of a stream was decoded.
    Acknowledgment(u64),
    /// A stream was given up.
    Cancellation(u64),
    /// More insertions were received.
    Increment(u64),
}

/// Reads one report of the decoder stream.
pub open spec fn parse_report(s: Seq<u8>) -> Result<(Report, nat), DecoderError> {
    if s.len() == 0 {
        Err(DecoderError::UnexpectedEnd)
    } else if s[0] >= 128 {
        match prefix_int::parse_int(128, s) {
            Ok((n, used)) => Ok((Report::Acknowledgment(n), used)),
            Err(e) => Err(e),
        }
    } else {
        match prefix_int::parse_int(64, s) {
            Ok((n, used)) => if s[0] >= 64 {
                Ok((Report::Cancellation(n), used))
            } else {
                Ok((Report::Increment(n), used))
            },
            Err(e) => Err(e),
        }
    }
}

/// A report takes at least one byte and no more than there are.
pub proof fn parse_report_len(s: Seq<u8>)
    ensures
        parse_report(s) matches Ok((_, used)) ==> 1 <= used <= s.len(),
{
    prefix_int::parse_int_len(128, s);
    prefix_int::parse_int_len(64, s);
}

/// The table after a report.
pub open spec fn heed(t: TableView, r: Report) -> Result<TableView, EncoderError> {
    match r {
        Report::Acknowledgment(stream) => t.acknowledged(stream),
        Report::Cancellation(stream) => Ok(t.cancelled(stream)),
        Report::Increment(n) => t.incremented(n),
    }
}

/// The table after all complete reports in `s`, the bytes that they take, and whether all of
/// them were valid. The first invalid one ends the run.
pub open spec fn run(t: TableView, s: Seq<u8>) -> (TableView, nat, Result<(), EncoderError>)
    decreases s.len(),
{
    match parse_report(s) {
        Err(e) => (
            t,
            0,
            if e == DecoderError::UnexpectedEnd {
                Ok(())
            } else {
                Err(EncoderError::InvalidInteger)
            },
        ),
        Ok((report, used)) => match heed(t, report) {
            Err(e) => (t, 0, Err(e)),
            Ok(next) => {
                proof {
                    parse_report_len(s);
                }
                let (last, more, r) = run(next, s.skip(used as int));
                (last, used + more, r)
            },
        },
    }
}

/// Complete reports take no more bytes than there are.
pub proof fn run_len(t: TableView, s: Seq<u8>)
    ensures
        run(t, s).1 <= s.len(),
    decreases s.len(),
{
    if let Ok((report, used)) = parse_report(s) {
        parse_report_len(s);
        if let Ok(next) = heed(t, report) {
            run_len(next, s.skip(used as int));
        }
    }
}

fn read_report(buf: &[u8]) -> (r: Result<(Report, usize), DecoderError>)
    ensures
        prefix_int::same_parse(r, parse_report(buf@)),
        r matches Ok((_, used)) ==> 1 <= used <= buf@.len(),
{
    if buf.len() == 0 {
        return Err(DecoderError::UnexpectedEnd);
    }
    let first: u8 = buf[0];
    if first >= 128 {
        match prefix_int::decode(128, buf) {
            Ok((n, used)) => Ok((Report::Acknowledgment(n), used)),
            Err(e) => Err(e),
        }
    } else {
        match prefix_int::decode(64, buf) {
            Ok((n, used)) => if first >= 64 {
                Ok((Report::Cancellation(n), used))
            } else {
                Ok((Report::Increment(n), used))
            },
            Err(e) => Err(e),
        }
    }
}

/// What a run of reports starting `pos` bytes into a buffer comes to, counted from the start of
/// the buffer.
spec fn run_from(t: TableView, s: Seq<u8>, pos: nat) -> (TableView, nat, Result<(), EncoderError>) {
    let (last, used, r) = run(t, s.skip(pos as int));
    (last, pos + used, r)
}

/// Takes complete reports from the front of `read` and applies them to the table.
pub fn on_decoder_recv(table: &mut DynamicTable, read: &mut &[u8]) -> (r: Result<(), EncoderError>)
    requires
        old(table).wf(),
    ensures
        final(table).wf(),
        final(table)@ == run(old(table)@, (*old(read))@).0,
        r == run(old(table)@, (*old(read))@).2,
        (*final(read))@ == (if r is Ok {
            (*old(read))@.skip(run(old(table)@, (*old(read))@).1 as int)
        } else {
            (*old(read))@
        }),
{
    let buf: &[u8] = *read;
    let ghost t = table@;
    let mut pos: usize = 0;
    assert(buf@.skip(0) == buf@);
    loop
        invariant
            table.wf(),
            t == old(table)@,
            buf@ == (*old(read))@,
            (*read)@ == buf@,
            pos <= buf@.len(),
            run(t, buf@) == run_from(table@, buf@, pos as nat),
        ensures
            run(t, buf@) == (table@, pos as nat, Ok::<(), EncoderError>(())),
        decreases buf@.len() - pos,
    {
        let rest = &buf[pos..buf.len()];
        assert(rest@ == buf@.skip(pos as int));
        match read_report(rest) {
            Err(DecoderError::UnexpectedEnd) => {
                break;
            },
            Err(_) => {
                return Err(EncoderError::InvalidInteger);
            },
            Ok((report, used)) => {
                let ghost before = table@;
                let outcome = match report {
                    Report::Acknowledgment(stream) => table.acknowledge(stream),
                    Report::Cancellation(stream) => {
                        table.cancel(stream);
                        Ok(())
                    },
                    Report::Increment(n) => table.increment(n),
                };
                match outcome {
                    Err(e) => {
                        return Err(e);
                    },
                    Ok(_) => {},
                }
                assert(heed(before, report) == Ok::<TableView, EncoderError>(table@));
                assert(buf@.skip(pos as int).skip(used as int) == buf@.skip(pos + used));
                pos = pos + used;
            },
        }
    }
    *read = &buf[pos..buf.len()];
    Ok(())
}

} // verus!
