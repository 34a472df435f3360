//! How integers, settings, frames and stream types are to be read and written.

use vstd::prelude::*;

use super::frame;
use super::frame::{FrameError, FrameView};
use super::settings;
use super::settings::Settings;
use super::varint;

verus! {

/// An integer: the two highest bits of its first byte tell whether it takes one, two, four or
/// eight bytes, and the other bits are the number, most significant first.
pub proof fn integer_value(s: Seq<u8>)
    ensures
        s.len() == 0 ==> varint::parse(s) is None,
        s.len() > 0 && s[0] < 64 ==> varint::parse(s) == Some((s[0] as u64, 1nat)),
        s.len() > 0 && 64 <= s[0] < 128 ==> varint::parse(s) == (if s.len() < 2 {
            None
        } else {
            Some((((s[0] - 64) * 256 + s[1]) as u64, 2nat))
        }),
        s.len() > 0 && 128 <= s[0] < 192 ==> varint::parse(s) == (if s.len() < 4 {
            None
        } else {
            Some(
                (
                    ((((s[0] - 128) * 256 + s[1]) * 256 + s[2]) * 256 + s[3]) as u64,
                    4nat,
                ),
            )
        }),
        s.len() > 0 && 192 <= s[0] ==> varint::parse(s) == (if s.len() < 8 {
            None
        } else {
            Some(
                (
                    ((((((((s[0] - 192) * 256 + s[1]) * 256 + s[2]) * 256 + s[3]) * 256 + s[4])
                        * 256 + s[5]) * 256 + s[6]) * 256 + s[7]) as u64,
                    8nat,
                ),
            )
        }),
{
    reveal_with_fuel(varint::number, 9);
}

/// An integer is written with as few bytes as it can be, and reads back.
pub proof fn written_integer(v: u64, rest: Seq<u8>)
    requires
        v <= 4611686018427387903,
    ensures
        varint::bytes_of(v).len() == (if v < 64 {
            1nat
        } else if v < 16384 {
            2
        } else if v < 1073741824 {
            4
        } else {
            8
        }),
        varint::parse(varint::bytes_of(v) + rest) == Some((v, varint::bytes_of(v).len())),
        varint::MAX == 4611686018427387903,
{
    varint::round_trip(v, rest);
}

/// Without settings from the peer there is no dynamic table, no stream may be blocked, and the
/// number of header fields has no limit that could be written.
pub proof fn default_settings()
    ensures
        settings::defaults().max_header_list_size == 4611686018427387903,
        settings::defaults().qpack_max_table_capacity == 0,
        settings::defaults().qpack_blocked_streams == 0,
{
}

/// Settings are read pair by pair: each is an identifier and a value. The identifiers 1, 6 and 7
/// stand for the three settings; others are passed over.
pub proof fn pair_by_pair(id: u64, value: u64, rest: Seq<u8>, so_far: Settings)
    requires
        id <= 4611686018427387903,
        value <= 4611686018427387903,
    ensures
        settings::parse_payload(varint::bytes_of(id) + varint::bytes_of(value) + rest, so_far)
            == settings::parse_payload(
            rest,
            Settings {
                qpack_max_table_capacity: if id == 1 {
                    value
                } else {
                    so_far.qpack_max_table_capacity
                },
                max_header_list_size: if id == 6 {
                    value
                } else {
                    so_far.max_header_list_size
                },
                qpack_blocked_streams: if id == 7 {
                    value
                } else {
                    so_far.qpack_blocked_streams
                },
            },
        ),
        settings::parse_payload(Seq::empty(), so_far) == Some(so_far),
{
    let a = varint::bytes_of(id);
    let b = varint::bytes_of(value);
    let s = a + b + rest;
    assert(s == a + (b + rest));
    varint::round_trip(id, b + rest);
    varint::round_trip(value, rest);
    assert(s.skip(a.len() as int) == b + rest);
    assert((b + rest).skip(b.len() as int) == rest);
    assert(s.len() > 0);
}

/// What is written for settings: all three of them, each once.
pub proof fn written_settings(s: Settings)
    ensures
        settings::payload(s) == seq![1u8] + varint::bytes_of(s.qpack_max_table_capacity) + seq![6u8]
            + varint::bytes_of(s.max_header_list_size) + seq![7u8] + varint::bytes_of(
            s.qpack_blocked_streams,
        ),
{
}

/// Settings that end within a pair are malformed.
pub proof fn broken_settings(s: Seq<u8>, so_far: Settings)
    ensures
        s.len() > 0 && varint::parse(s) is None ==> settings::parse_payload(s, so_far) is None,
        s.len() > 0 ==> (varint::parse(s) matches Some((_, used)) ==> varint::parse(
            s.skip(used as int),
        ) is None ==> settings::parse_payload(s, so_far) is None),
{
}

/// What the contents of a frame are, by its type. A type that is not known has no frame.
pub proof fn frame_kinds(kind: u64, contents: Seq<u8>)
    ensures
        kind == 0 ==> frame::frame_of(kind, contents) == Ok::<Option<FrameView>, FrameError>(
            Some(FrameView::Data(contents)),
        ),
        kind == 1 ==> frame::frame_of(kind, contents) == Ok::<Option<FrameView>, FrameError>(
            Some(FrameView::Headers(contents)),
        ),
        kind == 4 ==> frame::frame_of(kind, contents) == (match settings::parse_payload(
            contents,
            Settings {
                max_header_list_size: 4611686018427387903,
                qpack_max_table_capacity: 0,
                qpack_blocked_streams: 0,
            },
        ) {
            Some(s) => Ok::<Option<FrameView>, FrameError>(Some(FrameView::Settings(s))),
            None => Err(FrameError::Malformed),
        }),
        kind != 0 && kind != 1 && kind != 3 && kind != 4 && kind != 7 && kind != 13
            ==> frame::frame_of(kind, contents) == Ok::<Option<FrameView>, FrameError>(None),
{
}

/// The frames whose contents are one number: nothing may follow it.
pub proof fn number_frames(kind: u64, contents: Seq<u8>)
    requires
        kind == 3 || kind == 7 || kind == 13,
    ensures
        match varint::parse(contents) {
            Some((n, used)) => if used == contents.len() {
                frame::frame_of(kind, contents) == Ok::<Option<FrameView>, FrameError>(
                    Some(
                        if kind == 3 {
                            FrameView::CancelPush(n)
                        } else if kind == 7 {
                            FrameView::Goaway(n)
                        } else {
                            FrameView::MaxPushId(n)
                        },
                    ),
                )
            } else {
                frame::frame_of(kind, contents) == Err::<Option<FrameView>, FrameError>(
                    FrameError::Malformed,
                )
            },
            None => frame::frame_of(kind, contents) == Err::<Option<FrameView>, FrameError>(
                FrameError::Malformed,
            ),
        },
{
}

/// A frame is its type, the length of its contents, and that many bytes. It is incomplete until
/// they are all there.
pub proof fn frame_layout(s: Seq<u8>, kind: u64, used: nat, len: u64, more: nat)
    requires
        varint::parse(s) == Some((kind, used)),
        varint::parse(s.skip(used as int)) == Some((len, more)),
    ensures
        if used + more + len > s.len() {
            frame::parse(s) == Err::<(Option<FrameView>, nat), FrameError>(FrameError::Incomplete)
        } else {
            match frame::frame_of(kind, s.subrange((used + more) as int, used + more + len)) {
                Ok(f) => frame::parse(s) == Ok::<(Option<FrameView>, nat), FrameError>(
                    (f, (used + more + len) as nat),
                ),
                Err(e) => frame::parse(s) == Err::<(Option<FrameView>, nat), FrameError>(e),
            }
        },
{
}

/// A frame of which the type or the length is not there is incomplete.
pub proof fn unfinished_frame(s: Seq<u8>)
    ensures
        varint::parse(s) is None ==> frame::parse(s) == Err::<(Option<FrameView>, nat), FrameError>(
            FrameError::Incomplete,
        ),
        varint::parse(s) matches Some((_, used)) ==> varint::parse(s.skip(used as int)) is None
            ==> frame::parse(s) == Err::<(Option<FrameView>, nat), FrameError>(
            FrameError::Incomplete,
        ),
{
}

/// What is written for a frame: its type, the length of its contents, and the contents.
pub proof fn written_frame(kind: u64, contents: Seq<u8>)
    requires
        contents.len() <= u64::MAX,
    ensures
        frame::frame_bytes(kind, contents) == varint::bytes_of(kind) + varint::bytes_of(
            contents.len() as u64,
        ) + contents,
        frame::DATA == 0,
        frame::HEADERS == 1,
        frame::CANCEL_PUSH == 3,
        frame::SETTINGS == 4,
        frame::GOAWAY == 7,
        frame::MAX_PUSH_ID == 13,
{
}

} // verus!
