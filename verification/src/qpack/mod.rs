//! QPACK, the header compression of HTTP/3.

use vstd::prelude::*;

pub mod codes;
pub mod decoder;
pub mod dynamic;
pub mod encoder;
pub mod huffman;
pub mod laws;
pub mod prefix_int;
pub mod prefix_string;
pub mod static_table;
pub mod wire;

verus! {

/// The model of a header field: its name and its value.
pub type FieldView = (Seq<u8>, Seq<u8>);

/// A header field, as bytes.
#[derive(Clone, Debug, PartialEq, Eq)]
pub struct HeaderField {
    pub name: Vec<u8>,
    pub value: Vec<u8>,
}

impl View for HeaderField {
    type V = FieldView;

    open spec fn view(&self) -> FieldView {
        (self.name@, self.value@)
    }
}

impl HeaderField {
    /// A field with the same name and value.
    pub fn duplicate(&self) -> (r: HeaderField)
        ensures
            r@ == self@,
    {
        HeaderField {
            name: vstd::slice::slice_to_vec(self.name.as_slice()),
            value: vstd::slice::slice_to_vec(self.value.as_slice()),
        }
    }
}

/// The models of a list of fields.
pub open spec fn models(fields: Seq<HeaderField>) -> Seq<FieldView> {
    fields.map_values(|f: HeaderField| f@)
}

/// What a dynamic table refuses.
#[derive(Clone, Copy, Debug, PartialEq, Eq, Structural)]
pub enum DynamicTableError {
    /// A field is larger than the capacity of the table.
    MaxTableSizeReached,
    /// A capacity is above what the table may have.
    MaximumTableSizeTooLarge,
    /// A number of blocked streams is above what the protocol allows.
    MaxBlockedStreamsTooLarge,
}

/// Why bytes from the peer could not be decoded.
#[derive(Clone, Copy, Debug, PartialEq, Eq, Structural)]
pub enum DecoderError {
    /// The bytes end before the item does.
    UnexpectedEnd,
    /// An integer does not fit in 64 bits.
    InvalidInteger,
    /// A string literal is not valid Huffman code.
    InvalidString,
    /// An index is outside of the static table.
    InvalidStaticIndex(u64),
    /// An index refers to no entry of the dynamic table.
    InvalidIndex(u64),
    /// The prefix of a header block holds an impossible count or base.
    BadBaseIndex,
    /// The header block refers to insertions that have not arrived yet.
    MissingRefs(usize),
    /// The peer asked the dynamic table for something that it refuses.
    DynamicTable(DynamicTableError),
}

/// Why bytes on the decoder stream were rejected.
#[derive(Clone, Copy, Debug, PartialEq, Eq, Structural)]
pub enum EncoderError {
    /// An integer does not fit in 64 bits.
    InvalidInteger,
    /// A header block was acknowledged that is not outstanding.
    UnknownStreamId(u64),
    /// More insertions were acknowledged than were made.
    InvalidIncrement(u64),
}

} // verus!
