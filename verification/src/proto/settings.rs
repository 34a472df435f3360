//! The settings that each end announces once.

use bytes::BytesMut;
use vstd::prelude::*;

use crate::buffer;

use super::{frame, varint};

verus! {

/// The identifier of the setting `qpack_max_table_capacity`.
pub const QPACK_MAX_TABLE_CAPACITY: u64 = 0x1;

/// The identifier of the setting `max_header_list_size`.
pub const MAX_HEADER_LIST_SIZE: u64 = 0x6;

/// The identifier of the setting `qpack_blocked_streams`.
pub const QPACK_BLOCKED_STREAMS: u64 = 0x7;

/// What an end allows its peer.
#[derive(Clone, Copy, Debug, PartialEq, Eq, Structural)]
pub struct Settings {
    /// The number of header fields that a message may have.
    pub max_header_list_size: u64,
    /// The capacity that the dynamic table of the peer's encoder may have.
    pub qpack_max_table_capacity: u64,
    /// The number of streams that may wait for insertions in the dynamic table.
    pub qpack_blocked_streams: u64,
}

/// No dynamic table, and no limit on the header fields.
pub open spec fn defaults() -> Settings {
    Settings {
        max_header_list_size: varint::MAX,
        qpack_max_table_capacity: 0,
        qpack_blocked_streams: 0,
    }
}

impl Default for Settings {
    fn default() -> (r: Settings)
        ensures
            r == defaults(),
    {
        Settings {
            max_header_list_size: varint::MAX,
            qpack_max_table_capacity: 0,
            qpack_blocked_streams: 0,
        }
    }
}

/// Whether all values can be written.
pub open spec fn writable(s: Settings) -> bool {
    &&& s.max_header_list_size <= varint::MAX
    &&& s.qpack_max_table_capacity <= varint::MAX
    &&& s.qpack_blocked_streams <= varint::MAX
}

/// The contents of a settings frame.
pub open spec fn payload(s: Settings) -> Seq<u8> {
    varint::bytes_of(QPACK_MAX_TABLE_CAPACITY) + varint::bytes_of(s.qpack_max_table_capacity)
        + varint::bytes_of(MAX_HEADER_LIST_SIZE) + varint::bytes_of(s.max_header_list_size)
        + varint::bytes_of(QPACK_BLOCKED_STREAMS) + varint::bytes_of(s.qpack_blocked_streams)
}

/// The settings with one of them replaced. An unknown identifier changes nothing.
pub open spec fn with(s: Settings, id: u64, value: u64) -> Settings {
    if id == QPACK_MAX_TABLE_CAPACITY {
        Settings { qpack_max_table_capacity: value, ..s }
    } else if id == MAX_HEADER_LIST_SIZE {
        Settings { max_header_list_size: value, ..s }
    } else if id == QPACK_BLOCKED_STREAMS {
        Settings { qpack_blocked_streams: value, ..s }
    } else {
        s
    }
}

/// Reads the contents of a settings frame on top of some settings.
pub open spec fn parse_payload(s: Seq<u8>, so_far: Settings) -> Option<Settings>
    decreases s.len(),
{
    if s.len() == 0 {
        Some(so_far)
    } else {
        match varint::parse(s) {
            None => None,
            Some((id, used)) => {
                proof {
                    varint::parse_len(s);
                }
                let rest = s.skip(used as int);
                match varint::parse(rest) {
                    None => None,
                    Some((value, more)) => {
                        proof {
                            varint::parse_len(rest);
                        }
                        parse_payload(rest.skip(more as int), with(so_far, id, value))
                    },
                }
            },
        }
    }
}

impl Settings {
    /// Appends the settings frame.
    pub fn encode(&self, out: &mut BytesMut)
        requires
            writable(*self),
        ensures
            buffer::buffered(*final(out)) == buffer::buffered(*old(out)) + frame::frame_bytes(
                frame::SETTINGS,
                payload(*self),
            ),
    {
        let mut contents: Vec<u8> = Vec::new();
        varint::encode(&mut contents, QPACK_MAX_TABLE_CAPACITY);
        varint::encode(&mut contents, self.qpack_max_table_capacity);
        varint::encode(&mut contents, MAX_HEADER_LIST_SIZE);
        varint::encode(&mut contents, self.max_header_list_size);
        varint::encode(&mut contents, QPACK_BLOCKED_STREAMS);
        varint::encode(&mut contents, self.qpack_blocked_streams);
        assert(contents@ == payload(*self));
        frame::encode_frame(out, frame::SETTINGS, contents.as_slice());
    }

    /// Reads the contents of a settings frame.
    pub fn decode(buf: &[u8]) -> (r: Option<Settings>)
        ensures
            r == parse_payload(buf@, defaults()),
    {
        let mut settings = Settings::default();
        let mut pos: usize = 0;
        assert(buf@.skip(0) == buf@);
        while pos < buf.len()
            invariant
                pos <= buf@.len(),
                parse_payload(buf@, defaults()) == parse_payload(buf@.skip(pos as int), settings),
            decreases buf@.len() - pos,
        {
            let rest = &buf[pos..buf.len()];
            assert(rest@ == buf@.skip(pos as int));
            match varint::decode(rest) {
                None => {
                    return None;
                },
                Some((id, used)) => {
                    let tail = &rest[used..rest.len()];
                    assert(tail@ == rest@.skip(used as int));
                    match varint::decode(tail) {
                        None => {
                            return None;
                        },
                        Some((value, more)) => {
                            assert(tail@.skip(more as int) == buf@.skip(pos + used + more));
                            if id == QPACK_MAX_TABLE_CAPACITY {
                                settings.qpack_max_table_capacity = value;
                            } else if id == MAX_HEADER_LIST_SIZE {
                                settings.max_header_list_size = value;
                            } else if id == QPACK_BLOCKED_STREAMS {
                                settings.qpack_blocked_streams = value;
                            }
                            pos = pos + used + more;
                        },
                    }
                },
            }
        }
        Some(settings)
    }
}

/// One setting in front of others.
proof fn one_setting(id: u64, value: u64, rest: Seq<u8>, so_far: Settings)
    requires
        id <= varint::MAX,
        value <= varint::MAX,
    ensures
        parse_payload(varint::bytes_of(id) + varint::bytes_of(value) + rest, so_far)
            == parse_payload(rest, with(so_far, id, value)),
{
    let a = varint::bytes_of(id);
    let b = varint::bytes_of(value);
    let s = a + b + rest;
    assert(s == a + (b + rest));
    varint::round_trip(id, b + rest);
    assert(s.skip(a.len() as int) == b + rest);
    varint::round_trip(value, rest);
    assert((b + rest).skip(b.len() as int) == rest);
    varint::parse_len(s);
}

/// Reading settings gives back what was written.
pub proof fn round_trip(s: Settings)
    requires
        writable(s),
    ensures
        parse_payload(payload(s), defaults()) == Some(s),
{
    let c = varint::bytes_of(QPACK_BLOCKED_STREAMS) + varint::bytes_of(s.qpack_blocked_streams);
    let b = varint::bytes_of(MAX_HEADER_LIST_SIZE) + varint::bytes_of(s.max_header_list_size) + c;
    let a = varint::bytes_of(QPACK_MAX_TABLE_CAPACITY) + varint::bytes_of(
        s.qpack_max_table_capacity,
    ) + b;
    assert(payload(s) == a);
    let s1 = with(defaults(), QPACK_MAX_TABLE_CAPACITY, s.qpack_max_table_capacity);
    let s2 = with(s1, MAX_HEADER_LIST_SIZE, s.max_header_list_size);
    one_setting(QPACK_MAX_TABLE_CAPACITY, s.qpack_max_table_capacity, b, defaults());
    one_setting(MAX_HEADER_LIST_SIZE, s.max_header_list_size, c, s1);
    one_setting(QPACK_BLOCKED_STREAMS, s.qpack_blocked_streams, Seq::empty(), s2);
    assert(c + Seq::<u8>::empty() == c);
}

} // verus!
