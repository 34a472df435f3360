//! The dynamic table of header fields.
//!
//! The encoder and the decoder of a direction each hold a copy. The encoder's copy also knows
//! which insertions the decoder has confirmed and which header blocks are outstanding, so that
//! it never drops an entry that the decoder may still need.

use std::collections::VecDeque;

use vstd::prelude::*;

use super::{models, static_table, DynamicTableError, EncoderError, FieldView, HeaderField};

verus! {

/// The largest capacity that a table may be given.
pub const MAX_CAPACITY: usize = 1073741823;

/// The largest number of streams that may be blocked.
pub const MAX_BLOCKED: usize = 65535;

/// What an entry takes of the capacity besides the bytes of its name and its value.
pub const ENTRY_OVERHEAD: usize = 32;

/// A header block that was sent and has not been acknowledged.
#[derive(Clone, Copy, Debug, PartialEq, Eq, Structural)]
pub struct Section {
    /// The stream that carries the block.
    pub stream: u64,
    /// The number of insertions that the decoder needs to have seen.
    pub required: usize,
    /// The lowest absolute index that the block refers to, or the largest number if there is
    /// none.
    pub lowest: usize,
}

/// The model of a dynamic table.
pub struct TableView {
    /// The entries, oldest first.
    pub fields: Seq<FieldView>,
    /// The number of entries that were dropped.
    pub dropped: nat,
    /// What the entries may take together.
    pub capacity: nat,
    /// The largest capacity that may be asked for.
    pub max_capacity: nat,
    /// The number of outstanding blocks that may wait for insertions.
    pub max_blocked: nat,
    /// The number of insertions that the decoder has confirmed.
    pub known_received: nat,
    /// The outstanding blocks, oldest first.
    pub sections: Seq<Section>,
}

/// What a field takes of the capacity.
pub open spec fn size(f: FieldView) -> nat {
    f.0.len() + f.1.len() + ENTRY_OVERHEAD as nat
}

/// What a list of fields takes of the capacity.
pub open spec fn mem(fields: Seq<FieldView>) -> nat
    decreases fields.len(),
{
    if fields.len() == 0 {
        0
    } else {
        size(fields[0]) + mem(fields.skip(1))
    }
}

/// How many of the oldest entries have to go for the rest to take at most `limit`.
pub open spec fn cut(fields: Seq<FieldView>, limit: nat) -> nat
    decreases fields.len(),
{
    if fields.len() == 0 || mem(fields) <= limit {
        0
    } else {
        1 + cut(fields.skip(1), limit)
    }
}

/// The number of blocks that need more than `known` insertions.
pub open spec fn blocked_in(sections: Seq<Section>, known: nat) -> nat
    decreases sections.len(),
{
    if sections.len() == 0 {
        0
    } else {
        blocked_in(sections.drop_last(), known) + (if sections.last().required > known {
            1nat
        } else {
            0
        })
    }
}

/// The place of the oldest block of a stream, from `from` on.
pub open spec fn oldest_of(sections: Seq<Section>, stream: u64, from: int) -> Option<int>
    decreases sections.len() - from,
{
    if from < 0 || from >= sections.len() {
        None
    } else if sections[from].stream == stream {
        Some(from)
    } else {
        oldest_of(sections, stream, from + 1)
    }
}

/// The place of the newest entry that equals `f`.
pub open spec fn newest(fields: Seq<FieldView>, f: FieldView) -> Option<nat>
    decreases fields.len(),
{
    if fields.len() == 0 {
        None
    } else if fields.last() == f {
        Some((fields.len() - 1) as nat)
    } else {
        newest(fields.drop_last(), f)
    }
}

impl TableView {
    /// The number of insertions so far.
    pub open spec fn inserted(self) -> nat {
        self.dropped + self.fields.len()
    }

    /// The entry with an absolute index, counted from the first insertion.
    pub open spec fn lookup(self, index: int) -> Option<FieldView> {
        if self.dropped <= index < self.inserted() {
            Some(self.fields[index - self.dropped])
        } else {
            None
        }
    }

    /// The number of entries that the table can hold at its largest.
    pub open spec fn max_entries(self) -> nat {
        self.max_capacity / ENTRY_OVERHEAD as nat
    }

    /// The table after the oldest entries went that do not fit in `limit`.
    pub open spec fn trimmed(self, limit: nat) -> TableView {
        let k = cut(self.fields, limit);
        TableView { fields: self.fields.skip(k as int), dropped: self.dropped + k, ..self }
    }

    /// The table after an insertion.
    pub open spec fn put(self, f: FieldView) -> Result<TableView, DynamicTableError> {
        if size(f) > self.capacity || self.inserted() >= usize::MAX {
            Err(DynamicTableError::MaxTableSizeReached)
        } else {
            let room = self.trimmed((self.capacity - size(f)) as nat);
            Ok(TableView { fields: room.fields.push(f), ..room })
        }
    }

    /// The table with another capacity, asked for by the encoder.
    pub open spec fn with_capacity(self, capacity: nat) -> Result<TableView, DynamicTableError> {
        if capacity > self.max_capacity {
            Err(DynamicTableError::MaximumTableSizeTooLarge)
        } else {
            Ok(TableView { capacity, ..self.trimmed(capacity) })
        }
    }

    /// The table with another maximum, which is its capacity too.
    pub open spec fn with_max_mem_size(self, max: nat) -> Result<TableView, DynamicTableError> {
        if max > MAX_CAPACITY {
            Err(DynamicTableError::MaximumTableSizeTooLarge)
        } else {
            Ok(TableView { capacity: max, max_capacity: max, ..self.trimmed(max) })
        }
    }

    /// The table with another number of streams that may be blocked.
    pub open spec fn with_max_blocked(self, max: nat) -> Result<TableView, DynamicTableError> {
        if max > MAX_BLOCKED {
            Err(DynamicTableError::MaxBlockedStreamsTooLarge)
        } else {
            Ok(TableView { max_blocked: max, ..self })
        }
    }

    /// Whether the decoder no longer needs the entries below absolute index `n`, while a block
    /// is being written that refers to nothing below `lowest`.
    pub open spec fn safe_to_drop(self, lowest: nat, n: nat) -> bool {
        &&& n <= self.known_received
        &&& n <= lowest
        &&& forall|i: int| 0 <= i < self.sections.len() ==> n <= (#[trigger] self.sections[i]).lowest
    }

    /// Whether the encoder may insert a field while it writes a block that refers to nothing
    /// below `lowest`.
    pub open spec fn can_insert(self, f: FieldView, lowest: nat) -> bool {
        match self.put(f) {
            Ok(t) => t.dropped == self.dropped || self.safe_to_drop(lowest, t.dropped),
            Err(_) => false,
        }
    }

    /// The number of outstanding blocks that may be waiting for insertions.
    pub open spec fn blocked(self) -> nat {
        blocked_in(self.sections, self.known_received)
    }

    /// The table after the oldest block of a stream was acknowledged.
    pub open spec fn acknowledged(self, stream: u64) -> Result<TableView, EncoderError> {
        match oldest_of(self.sections, stream, 0) {
            None => Err(EncoderError::UnknownStreamId(stream)),
            Some(i) => Ok(
                TableView {
                    known_received: if self.sections[i].required > self.known_received {
                        self.sections[i].required as nat
                    } else {
                        self.known_received
                    },
                    sections: self.sections.remove(i),
                    ..self
                },
            ),
        }
    }

    /// The table after the decoder gave up a stream.
    pub open spec fn cancelled(self, stream: u64) -> TableView {
        TableView { sections: self.sections.filter(|s: Section| s.stream != stream), ..self }
    }

    /// The table after the decoder confirmed `n` more insertions.
    pub open spec fn incremented(self, n: u64) -> Result<TableView, EncoderError> {
        if n == 0 || self.known_received + n > self.inserted() {
            Err(EncoderError::InvalidIncrement(n))
        } else {
            Ok(TableView { known_received: self.known_received + n as nat, ..self })
        }
    }

    /// What holds of every table.
    pub open spec fn wf(self) -> bool {
        &&& mem(self.fields) <= self.capacity <= self.max_capacity <= MAX_CAPACITY
        &&& self.max_blocked <= MAX_BLOCKED
        &&& self.inserted() <= usize::MAX
        &&& self.known_received <= self.inserted()
        &&& forall|i: int|
            0 <= i < self.sections.len() ==> (#[trigger] self.sections[i]).required <= self.inserted()
    }
}

/// A dynamic table.
#[derive(Debug)]
pub struct DynamicTable {
    fields: VecDeque<HeaderField>,
    mem: usize,
    dropped: usize,
    capacity: usize,
    max_capacity: usize,
    max_blocked: usize,
    known_received: usize,
    sections: Vec<Section>,
}

impl View for DynamicTable {
    type V = TableView;

    closed spec fn view(&self) -> TableView {
        TableView {
            fields: models(self.fields@),
            dropped: self.dropped as nat,
            capacity: self.capacity as nat,
            max_capacity: self.max_capacity as nat,
            max_blocked: self.max_blocked as nat,
            known_received: self.known_received as nat,
            sections: self.sections@,
        }
    }
}

/// Dropping the oldest entry frees what it took.
proof fn mem_skip(fields: Seq<FieldView>, i: int)
    requires
        0 <= i < fields.len(),
    ensures
        mem(fields.skip(i)) == size(fields[i]) + mem(fields.skip(i + 1)),
{
    assert(fields.skip(i).skip(1) == fields.skip(i + 1));
}

/// A new entry takes what it takes.
pub proof fn mem_push(fields: Seq<FieldView>, f: FieldView)
    ensures
        mem(fields.push(f)) == mem(fields) + size(f),
    decreases fields.len(),
{
    if fields.len() == 0 {
        assert(fields.push(f).skip(1) == Seq::<FieldView>::empty());
        assert(mem(Seq::<FieldView>::empty()) == 0);
    } else {
        assert(fields.push(f).skip(1) == fields.skip(1).push(f));
        mem_push(fields.skip(1), f);
    }
}

/// What is left after a cut fits.
pub proof fn cut_fits(fields: Seq<FieldView>, limit: nat)
    ensures
        cut(fields, limit) <= fields.len(),
        mem(fields.skip(cut(fields, limit) as int)) <= limit,
    decreases fields.len(),
{
    if fields.len() == 0 {
        assert(fields.skip(0) == fields);
    } else if mem(fields) <= limit {
        assert(fields.skip(0) == fields);
    } else {
        cut_fits(fields.skip(1), limit);
        let k = cut(fields.skip(1), limit);
        assert(fields.skip(1).skip(k as int) == fields.skip(k as int + 1));
    }
}

/// An insertion adds one entry and keeps the entries that it does not drop.
pub proof fn put_keeps(t: TableView, f: FieldView)
    requires
        t.wf(),
    ensures
        t.put(f) matches Ok(n) ==> {
            &&& n.wf()
            &&& n.inserted() == t.inserted() + 1
            &&& n.dropped >= t.dropped
            &&& n.lookup(t.inserted() as int) == Some(f)
            &&& forall|i: int|
                n.dropped <= i < t.inserted() ==> #[trigger] n.lookup(i) == t.lookup(i)
        },
{
    if let Ok(n) = t.put(f) {
        let limit = (t.capacity - size(f)) as nat;
        cut_fits(t.fields, limit);
        mem_push(t.trimmed(limit).fields, f);
    }
}

/// The entry that a search finds equals the field that was searched.
pub proof fn newest_is_right(fields: Seq<FieldView>, f: FieldView)
    ensures
        newest(fields, f) matches Some(k) ==> k < fields.len() && fields[k as int] == f,
        newest(fields, f) is None ==> !fields.contains(f),
    decreases fields.len(),
{
    if fields.len() > 0 && fields.last() != f {
        newest_is_right(fields.drop_last(), f);
        if newest(fields, f) is None && fields.contains(f) {
            let k = choose|k: int| 0 <= k < fields.len() && fields[k] == f;
            assert(fields.drop_last()[k] == f);
        }
    }
}

/// No more entries fit than the capacity has room for their overhead.
pub proof fn few_entries(fields: Seq<FieldView>)
    ensures
        mem(fields) >= ENTRY_OVERHEAD * fields.len(),
    decreases fields.len(),
{
    if fields.len() > 0 {
        few_entries(fields.skip(1));
    }
}

impl DynamicTable {
    /// Whether the table is in a state that its operations can reach.
    pub closed spec fn wf(&self) -> bool {
        &&& self@.wf()
        &&& self.mem == mem(self@.fields)
    }

    /// What holds of the model of every table in such a state.
    pub proof fn wf_model(&self)
        requires
            self.wf(),
        ensures
            self@.wf(),
    {
    }

    /// A table without entries or capacity.
    pub fn new() -> (t: DynamicTable)
        ensures
            t.wf(),
            t@ == (TableView {
                fields: Seq::empty(),
                dropped: 0,
                capacity: 0,
                max_capacity: 0,
                max_blocked: 0,
                known_received: 0,
                sections: Seq::empty(),
            }),
    {
        let t = DynamicTable {
            fields: VecDeque::new(),
            mem: 0,
            dropped: 0,
            capacity: 0,
            max_capacity: 0,
            max_blocked: 0,
            known_received: 0,
            sections: Vec::new(),
        };
        assert(models(t.fields@) == Seq::<FieldView>::empty());
        t
    }

    /// The number of insertions so far.
    pub fn total_inserted(&self) -> (n: usize)
        requires
            self.wf(),
        ensures
            n == self@.inserted(),
    {
        self.dropped + self.fields.len()
    }

    /// What a field takes of the capacity.
    fn field_size(field: &HeaderField) -> (n: u128)
        ensures
            n == size(field@),
    {
        field.name.len() as u128 + field.value.len() as u128 + ENTRY_OVERHEAD as u128
    }

    /// How many of the oldest entries have to go for the rest to take at most `limit`.
    fn surplus(&self, limit: usize) -> (k: usize)
        requires
            self.wf(),
        ensures
            k == cut(self@.fields, limit as nat),
            k <= self@.fields.len(),
    {
        let mut left: usize = self.mem;
        let mut k: usize = 0;
        let ghost fields = self@.fields;
        assert(fields.skip(0) == fields);
        while k < self.fields.len() && left > limit
            invariant
                fields == models(self.fields@),
                k <= fields.len(),
                left == mem(fields.skip(k as int)),
                cut(fields, limit as nat) == k + cut(fields.skip(k as int), limit as nat),
            decreases fields.len() - k,
        {
            proof {
                mem_skip(fields, k as int);
                assert(fields.skip(k as int).skip(1) == fields.skip(k + 1));
            }
            left = left - Self::field_size(&self.fields[k]) as usize;
            k = k + 1;
        }
        k
    }

    /// Drops the `k` oldest entries.
    fn drop_oldest(&mut self, k: usize)
        requires
            old(self).wf(),
            k <= old(self)@.fields.len(),
        ensures
            final(self).mem == mem(final(self)@.fields),
            final(self)@ == (TableView {
                fields: old(self)@.fields.skip(k as int),
                dropped: old(self)@.dropped + k as nat,
                ..old(self)@
            }),
    {
        let ghost fields = self@.fields;
        let mut i: usize = 0;
        assert(fields.skip(0) == fields);
        while i < k
            invariant
                i <= k <= fields.len(),
                fields == old(self)@.fields,
                old(self).wf(),
                self.mem == mem(self@.fields),
                self@ == (TableView {
                    fields: fields.skip(i as int),
                    dropped: old(self)@.dropped + i as nat,
                    ..old(self)@
                }),
            decreases k - i,
        {
            proof {
                mem_skip(fields, i as int);
            }
            let ghost before = self.fields@;
            assert(models(before) == fields.skip(i as int));
            assert(before.len() == fields.len() - i);
            match self.fields.pop_front() {
                Some(f) => {
                    assert(models(before)[0] == f@);
                    assert(models(self.fields@) == models(before).skip(1));
                    assert(fields.skip(i as int).skip(1) == fields.skip(i + 1));
                    self.mem = self.mem - Self::field_size(&f) as usize;
                    self.dropped = self.dropped + 1;
                },
                None => {},
            }
            i = i + 1;
        }
    }

    /// Inserts a field. Entries that no longer fit beside it go, oldest first.
    pub fn put(&mut self, field: HeaderField) -> (r: Result<(), DynamicTableError>)
        requires
            old(self).wf(),
        ensures
            final(self).wf(),
            match r {
                Ok(_) => old(self)@.put(field@) == Ok::<TableView, DynamicTableError>(final(self)@),
                Err(e) => old(self)@.put(field@) == Err::<TableView, DynamicTableError>(e)
                    && final(self)@ == old(self)@,
            },
    {
        let need: u128 = Self::field_size(&field);
        if need > self.capacity as u128 || self.total_inserted() == usize::MAX {
            return Err(DynamicTableError::MaxTableSizeReached);
        }
        let limit: usize = self.capacity - need as usize;
        let k: usize = self.surplus(limit);
        proof {
            cut_fits(self@.fields, limit as nat);
        }
        self.drop_oldest(k);
        let ghost room = self@;
        let ghost view = field@;
        self.mem = self.mem + need as usize;
        self.fields.push_back(field);
        proof {
            mem_push(room.fields, view);
            assert(models(self.fields@) == room.fields.push(view));
        }
        Ok(())
    }

    /// Gives the table another capacity, as the encoder asks.
    pub fn set_capacity(&mut self, capacity: u64) -> (r: Result<(), DynamicTableError>)
        requires
            old(self).wf(),
        ensures
            final(self).wf(),
            match r {
                Ok(_) => old(self)@.with_capacity(capacity as nat) == Ok::<
                    TableView,
                    DynamicTableError,
                >(final(self)@),
                Err(e) => old(self)@.with_capacity(capacity as nat) == Err::<
                    TableView,
                    DynamicTableError,
                >(e) && final(self)@ == old(self)@,
            },
    {
        if capacity > self.max_capacity as u64 {
            return Err(DynamicTableError::MaximumTableSizeTooLarge);
        }
        let k: usize = self.surplus(capacity as usize);
        proof {
            cut_fits(self@.fields, capacity as nat);
        }
        self.drop_oldest(k);
        self.capacity = capacity as usize;
        Ok(())
    }

    /// Gives the table another maximum and as much capacity.
    pub fn set_max_mem_size(&mut self, max: usize) -> (r: Result<(), DynamicTableError>)
        requires
            old(self).wf(),
        ensures
            final(self).wf(),
            match r {
                Ok(_) => old(self)@.with_max_mem_size(max as nat) == Ok::<
                    TableView,
                    DynamicTableError,
                >(final(self)@),
                Err(e) => old(self)@.with_max_mem_size(max as nat) == Err::<
                    TableView,
                    DynamicTableError,
                >(e) && final(self)@ == old(self)@,
            },
    {
        if max > MAX_CAPACITY {
            return Err(DynamicTableError::MaximumTableSizeTooLarge);
        }
        let k: usize = self.surplus(max);
        proof {
            cut_fits(self@.fields, max as nat);
        }
        self.drop_oldest(k);
        self.capacity = max;
        self.max_capacity = max;
        Ok(())
    }

    /// Sets how many outstanding blocks may wait for insertions.
    pub fn set_max_blocked(&mut self, max: usize) -> (r: Result<(), DynamicTableError>)
        requires
            old(self).wf(),
        ensures
            final(self).wf(),
            match r {
                Ok(_) => old(self)@.with_max_blocked(max as nat) == Ok::<
                    TableView,
                    DynamicTableError,
                >(final(self)@),
                Err(e) => old(self)@.with_max_blocked(max as nat) == Err::<
                    TableView,
                    DynamicTableError,
                >(e) && final(self)@ == old(self)@,
            },
    {
        if max > MAX_BLOCKED {
            return Err(DynamicTableError::MaxBlockedStreamsTooLarge);
        }
        self.max_blocked = max;
        Ok(())
    }

    /// A copy of the entry with an absolute index.
    pub fn get(&self, index: u64) -> (r: Option<HeaderField>)
        requires
            self.wf(),
        ensures
            match r {
                Some(f) => self@.lookup(index as int) == Some(f@),
                None => self@.lookup(index as int) is None,
            },
    {
        if index < self.dropped as u64 || index - self.dropped as u64 >= self.fields.len() as u64 {
            return None;
        }
        Some(self.fields[(index - self.dropped as u64) as usize].duplicate())
    }

    /// The absolute index of the newest entry that equals `field`.
    pub fn find(&self, field: &HeaderField) -> (r: Option<usize>)
        requires
            self.wf(),
        ensures
            match r {
                Some(i) => newest(self@.fields, field@) is Some && i == self@.dropped + newest(
                    self@.fields,
                    field@,
                ).unwrap(),
                None => newest(self@.fields, field@) is None,
            },
    {
        let ghost fields = self@.fields;
        let mut i: usize = self.fields.len();
        assert(fields.take(i as int) == fields);
        while i > 0
            invariant
                self.wf(),
                fields == self@.fields,
                i <= fields.len(),
                newest(fields, field@) == newest(fields.take(i as int), field@),
            decreases i,
        {
            let entry = &self.fields[i - 1];
            assert(fields.take(i as int).last() == entry@);
            assert(fields.take(i as int).drop_last() == fields.take(i - 1));
            if static_table::same_bytes(entry.name.as_slice(), field.name.as_slice())
                && static_table::same_bytes(entry.value.as_slice(), field.value.as_slice()) {
                return Some(self.dropped + (i - 1));
            }
            i = i - 1;
        }
        None
    }

    /// Whether an insertion fits and drops nothing that the decoder may still need, while a
    /// block is being written that refers to nothing below `lowest`.
    pub fn can_insert(&self, field: &HeaderField, lowest: usize) -> (r: bool)
        requires
            self.wf(),
        ensures
            r == self@.can_insert(field@, lowest as nat),
    {
        let need: u128 = Self::field_size(field);
        if need > self.capacity as u128 || self.total_inserted() == usize::MAX {
            return false;
        }
        let k: usize = self.surplus(self.capacity - need as usize);
        if k == 0 {
            return true;
        }
        let n: usize = self.dropped + k;
        if n > self.known_received || n > lowest {
            return false;
        }
        let mut i: usize = 0;
        #[verifier::loop_isolation(false)]
        while i < self.sections.len()
            invariant
                i <= self.sections@.len(),
                forall|j: int| 0 <= j < i ==> n <= (#[trigger] self.sections@[j]).lowest,
            decreases self.sections@.len() - i,
        {
            if n > self.sections[i].lowest {
                assert(!self@.safe_to_drop(lowest as nat, n as nat)) by {
                    assert(self@.sections[i as int].lowest < n);
                }
                return false;
            }
            i = i + 1;
        }
        true
    }

    /// Whether one more block may wait for insertions.
    pub fn may_block(&self) -> (r: bool)
        requires
            self.wf(),
        ensures
            r == (self@.blocked() < self@.max_blocked),
    {
        let mut n: usize = 0;
        let mut i: usize = 0;
        assert(self.sections@.take(0) == Seq::<Section>::empty());
        while i < self.sections.len()
            invariant
                n <= i <= self.sections@.len(),
                n == blocked_in(self.sections@.take(i as int), self.known_received as nat),
            decreases self.sections@.len() - i,
        {
            assert(self.sections@.take(i + 1).drop_last() == self.sections@.take(i as int));
            if self.sections[i].required > self.known_received {
                n = n + 1;
            }
            i = i + 1;
        }
        assert(self.sections@.take(i as int) == self.sections@);
        n < self.max_blocked
    }

    /// The largest capacity that the table may be given.
    pub fn max_capacity(&self) -> (n: usize)
        requires
            self.wf(),
        ensures
            n == self@.max_capacity,
    {
        self.max_capacity
    }

    /// The number of insertions that the decoder has confirmed.
    pub fn known_received(&self) -> (n: usize)
        requires
            self.wf(),
        ensures
            n == self@.known_received,
    {
        self.known_received
    }

    /// Remembers a block until it is acknowledged.
    pub fn track(&mut self, section: Section)
        requires
            old(self).wf(),
            section.required <= old(self)@.inserted(),
        ensures
            final(self).wf(),
            final(self)@ == (TableView {
                sections: old(self)@.sections.push(section),
                ..old(self)@
            }),
    {
        self.sections.push(section);
        assert(self.mem == old(self).mem && self.fields == old(self).fields);
    }

    /// Forgets the oldest block of a stream, which the decoder acknowledged.
    pub fn acknowledge(&mut self, stream: u64) -> (r: Result<(), EncoderError>)
        requires
            old(self).wf(),
        ensures
            final(self).wf(),
            match r {
                Ok(_) => old(self)@.acknowledged(stream) == Ok::<TableView, EncoderError>(
                    final(self)@,
                ),
                Err(e) => old(self)@.acknowledged(stream) == Err::<TableView, EncoderError>(e)
                    && final(self)@ == old(self)@,
            },
    {
        let mut i: usize = 0;
        while i < self.sections.len()
            invariant
                i <= self.sections@.len(),
                self@ == old(self)@,
                self.wf(),
                oldest_of(self.sections@, stream, 0) == oldest_of(
                    self.sections@,
                    stream,
                    i as int,
                ),
            decreases self.sections@.len() - i,
        {
            if self.sections[i].stream == stream {
                let ghost before = self@;
                let section = self.sections.remove(i);
                if section.required > self.known_received {
                    self.known_received = section.required;
                }
                proof {
                    assert(before.sections[i as int] == section);
                    assert forall|j: int| 0 <= j < self@.sections.len() implies (
                    #[trigger] self@.sections[j]).required <= self@.inserted() by {
                        let k = if j < i { j } else { j + 1 };
                        assert(self@.sections[j] == before.sections[k]);
                    }
                }
                return Ok(());
            }
            i = i + 1;
        }
        Err(EncoderError::UnknownStreamId(stream))
    }

    /// Forgets all blocks of a stream, which the decoder gave up.
    pub fn cancel(&mut self, stream: u64)
        requires
            old(self).wf(),
        ensures
            final(self).wf(),
            final(self)@ == old(self)@.cancelled(stream),
    {
        let ghost keep = |s: Section| s.stream != stream;
        let ghost all = self.sections@;
        let mut left: Vec<Section> = Vec::new();
        let mut i: usize = 0;
        assert(all.take(0).filter(keep) == Seq::<Section>::empty()) by {
            reveal(Seq::filter);
        }
        while i < self.sections.len()
            invariant
                all == self.sections@,
                i <= all.len(),
                keep == (|s: Section| s.stream != stream),
                left@ == all.take(i as int).filter(keep),
                forall|j: int| 0 <= j < left@.len() ==> all.contains(#[trigger] left@[j]),
            decreases all.len() - i,
        {
            proof {
                reveal(Seq::filter);
                assert(all.take(i + 1).drop_last() == all.take(i as int));
            }
            let section = self.sections[i];
            if section.stream != stream {
                left.push(section);
            }
            i = i + 1;
        }
        assert(all.take(i as int) == all);
        assert forall|j: int| 0 <= j < left@.len() implies (#[trigger] left@[j]).required
            <= self@.inserted() by {
            assert(all.contains(left@[j]));
            let k = choose|k: int| 0 <= k < all.len() && all[k] == left@[j];
            assert(self@.sections[k].required <= self@.inserted());
        }
        self.sections = left;
    }

    /// Counts `n` more insertions as confirmed.
    pub fn increment(&mut self, n: u64) -> (r: Result<(), EncoderError>)
        requires
            old(self).wf(),
        ensures
            final(self).wf(),
            match r {
                Ok(_) => old(self)@.incremented(n) == Ok::<TableView, EncoderError>(final(self)@),
                Err(e) => old(self)@.incremented(n) == Err::<TableView, EncoderError>(e)
                    && final(self)@ == old(self)@,
            },
    {
        if n == 0 || n > (self.total_inserted() - self.known_received) as u64 {
            return Err(EncoderError::InvalidIncrement(n));
        }
        self.known_received = self.known_received + n as usize;
        Ok(())
    }
}

} // verus!
