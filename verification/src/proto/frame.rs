//! The frames that streams carry.

use bytes::{Bytes, BytesMut};
use vstd::prelude::*;

use crate::buffer;

use super::settings::Settings;
use super::{settings, varint};

verus! {

/// The type of data frames.
pub const DATA: u64 = 0x0;

/// The type of headers frames.
pub const HEADERS: u64 = 0x1;

/// The type of cancel push frames.
pub const CANCEL_PUSH: u64 = 0x3;

/// The type of settings frames.
pub const SETTINGS: u64 = 0x4;

/// The type of goaway frames.
pub const GOAWAY: u64 = 0x7;

/// The type of max push id frames.
pub const MAX_PUSH_ID: u64 = 0xd;

/// A part of a message body.
#[derive(Debug, PartialEq)]
pub struct DataFrame {
    pub payload: Bytes,
}

/// An encoded header block.
#[derive(Debug, PartialEq)]
pub struct HeadersFrame {
    pub encoded: Bytes,
}

/// A frame.
#[derive(Debug, PartialEq)]
pub enum HttpFrame {
    Data(DataFrame),
    Headers(HeadersFrame),
    CancelPush(u64),
    Settings(Settings),
    Goaway(u64),
    MaxPushId(u64),
}

/// The model of a frame.
pub enum FrameView {
    Data(Seq<u8>),
    Headers(Seq<u8>),
    CancelPush(u64),
    Settings(Settings),
    Goaway(u64),
    MaxPushId(u64),
}

impl View for HttpFrame {
    type V = FrameView;

    open spec fn view(&self) -> FrameView {
        match self {
            HttpFrame::Data(f) => FrameView::Data(buffer::frozen(f.payload)),
            HttpFrame::Headers(f) => FrameView::Headers(buffer::frozen(f.encoded)),
            HttpFrame::CancelPush(id) => FrameView::CancelPush(*id),
            HttpFrame::Settings(s) => FrameView::Settings(*s),
            HttpFrame::Goaway(id) => FrameView::Goaway(*id),
            HttpFrame::MaxPushId(id) => FrameView::MaxPushId(*id),
        }
    }
}

/// Why there is no frame.
#[derive(Clone, Copy, Debug, PartialEq, Eq, Structural)]
pub enum FrameError {
    /// The bytes end before the frame does.
    Incomplete,
    /// The contents of the frame are not what its type asks for.
    Malformed,
}

/// A frame with a type and contents.
pub open spec fn frame_bytes(kind: u64, contents: Seq<u8>) -> Seq<u8> {
    varint::bytes_of(kind) + varint::bytes_of(contents.len() as u64) + contents
}

/// The number that makes up the contents of a frame.
pub open spec fn only_number(contents: Seq<u8>) -> Result<u64, FrameError> {
    match varint::parse(contents) {
        Some((v, used)) => if used == contents.len() {
            Ok(v)
        } else {
            Err(FrameError::Malformed)
        },
        None => Err(FrameError::Malformed),
    }
}

/// The frame with a type and contents. There is none for an unknown type.
pub open spec fn frame_of(kind: u64, contents: Seq<u8>) -> Result<Option<FrameView>, FrameError> {
    if kind == DATA {
        Ok(Some(FrameView::Data(contents)))
    } else if kind == HEADERS {
        Ok(Some(FrameView::Headers(contents)))
    } else if kind == SETTINGS {
        match settings::parse_payload(contents, settings::defaults()) {
            Some(s) => Ok(Some(FrameView::Settings(s))),
            None => Err(FrameError::Malformed),
        }
    } else if kind == CANCEL_PUSH || kind == GOAWAY || kind == MAX_PUSH_ID {
        match only_number(contents) {
            Ok(id) => Ok(
                Some(
                    if kind == CANCEL_PUSH {
                        FrameView::CancelPush(id)
                    } else if kind == GOAWAY {
                        FrameView::Goaway(id)
                    } else {
                        FrameView::MaxPushId(id)
                    },
                ),
            ),
            Err(e) => Err(e),
        }
    } else {
        Ok(None)
    }
}

/// Reads a frame: the frame, if its type is known, and the bytes that it takes.
pub open spec fn parse(s: Seq<u8>) -> Result<(Option<FrameView>, nat), FrameError> {
    match varint::parse(s) {
        None => Err(FrameError::Incomplete),
        Some((kind, used)) => match varint::parse(s.skip(used as int)) {
            None => Err(FrameError::Incomplete),
            Some((len, more)) => {
                let start = used + more;
                if start + len > s.len() {
                    Err(FrameError::Incomplete)
                } else {
                    match frame_of(kind, s.subrange(start as int, start + len)) {
                        Ok(f) => Ok((f, (start + len) as nat)),
                        Err(e) => Err(e),
                    }
                }
            },
        },
    }
}

/// Appends a frame with a type and contents.
pub fn encode_frame(out: &mut BytesMut, kind: u64, contents: &[u8])
    requires
        kind <= varint::MAX,
        contents@.len() <= varint::MAX,
    ensures
        buffer::buffered(*final(out)) == buffer::buffered(*old(out)) + frame_bytes(kind, contents@),
{
    let mut head: Vec<u8> = Vec::new();
    varint::encode(&mut head, kind);
    varint::encode(&mut head, contents.len() as u64);
    out.extend_from_slice(head.as_slice());
    out.extend_from_slice(contents);
    assert(buffer::buffered(*out) == buffer::buffered(*old(out)) + frame_bytes(kind, contents@));
}

/// An immutable copy of some bytes.
fn copy(contents: &[u8]) -> (r: Bytes)
    ensures
        buffer::frozen(r) == contents@,
{
    let mut b = BytesMut::with_capacity(0);
    b.extend_from_slice(contents);
    assert(buffer::buffered(b) == contents@);
    b.freeze()
}

fn read_number(contents: &[u8]) -> (r: Result<u64, FrameError>)
    ensures
        r == only_number(contents@),
{
    match varint::decode(contents) {
        Some((v, used)) => if used == contents.len() {
            Ok(v)
        } else {
            Err(FrameError::Malformed)
        },
        None => Err(FrameError::Malformed),
    }
}

impl HeadersFrame {
    /// Appends the frame.
    pub fn encode(&self, out: &mut BytesMut)
        requires
            buffer::frozen(self.encoded).len() <= varint::MAX,
        ensures
            buffer::buffered(*final(out)) == buffer::buffered(*old(out)) + frame_bytes(
                HEADERS,
                buffer::frozen(self.encoded),
            ),
    {
        encode_frame(out, HEADERS, self.encoded.as_ref());
    }
}

impl DataFrame {
    /// Appends the frame.
    pub fn encode(&self, out: &mut BytesMut)
        requires
            buffer::frozen(self.payload).len() <= varint::MAX,
        ensures
            buffer::buffered(*final(out)) == buffer::buffered(*old(out)) + frame_bytes(
                DATA,
                buffer::frozen(self.payload),
            ),
    {
        encode_frame(out, DATA, self.payload.as_ref());
    }
}

impl HttpFrame {
    fn from_parts(kind: u64, contents: &[u8]) -> (r: Result<Option<HttpFrame>, FrameError>)
        ensures
            match r {
                Ok(Some(f)) => frame_of(kind, contents@) == Ok::<Option<FrameView>, FrameError>(
                    Some(f@),
                ),
                Ok(None) => frame_of(kind, contents@) == Ok::<Option<FrameView>, FrameError>(None),
                Err(e) => frame_of(kind, contents@) == Err::<Option<FrameView>, FrameError>(e),
            },
    {
        if kind == DATA {
            Ok(Some(HttpFrame::Data(DataFrame { payload: copy(contents) })))
        } else if kind == HEADERS {
            Ok(Some(HttpFrame::Headers(HeadersFrame { encoded: copy(contents) })))
        } else if kind == SETTINGS {
            match Settings::decode(contents) {
                Some(s) => Ok(Some(HttpFrame::Settings(s))),
                None => Err(FrameError::Malformed),
            }
        } else if kind == CANCEL_PUSH || kind == GOAWAY || kind == MAX_PUSH_ID {
            match read_number(contents) {
                Ok(id) => Ok(
                    Some(
                        if kind == CANCEL_PUSH {
                            HttpFrame::CancelPush(id)
                        } else if kind == GOAWAY {
                            HttpFrame::Goaway(id)
                        } else {
                            HttpFrame::MaxPushId(id)
                        },
                    ),
                ),
                Err(e) => Err(e),
            }
        } else {
            Ok(None)
        }
    }

    /// Reads a frame from the start of `buf`: the frame, if its type is known, and the bytes that
    /// it takes.
    pub fn decode(buf: &[u8]) -> (r: Result<(Option<HttpFrame>, usize), FrameError>)
        ensures
            match r {
                Ok((Some(f), used)) => parse(buf@) == Ok::<(Option<FrameView>, nat), FrameError>(
                    (Some(f@), used as nat),
                ) && 1 <= used <= buf@.len(),
                Ok((None, used)) => parse(buf@) == Ok::<(Option<FrameView>, nat), FrameError>(
                    (None, used as nat),
                ) && 1 <= used <= buf@.len(),
                Err(e) => parse(buf@) == Err::<(Option<FrameView>, nat), FrameError>(e),
            },
    {
        match varint::decode(buf) {
            None => Err(FrameError::Incomplete),
            Some((kind, used)) => {
                let rest = &buf[used..buf.len()];
                assert(rest@ == buf@.skip(used as int));
                match varint::decode(rest) {
                    None => Err(FrameError::Incomplete),
                    Some((len, more)) => {
                        let start: usize = used + more;
                        if len > (buf.len() - start) as u64 {
                            return Err(FrameError::Incomplete);
                        }
                        let end: usize = start + len as usize;
                        match HttpFrame::from_parts(kind, &buf[start..end]) {
                            Ok(f) => Ok((f, end)),
                            Err(e) => Err(e),
                        }
                    },
                }
            },
        }
    }
}

/// Reading a frame gives back the type and the contents that were written, whatever follows it.
pub proof fn round_trip(kind: u64, contents: Seq<u8>, rest: Seq<u8>)
    requires
        kind <= varint::MAX,
        contents.len() <= varint::MAX,
    ensures
        parse(frame_bytes(kind, contents) + rest) == (match frame_of(kind, contents) {
            Ok(f) => Ok::<(Option<FrameView>, nat), FrameError>(
                (f, frame_bytes(kind, contents).len()),
            ),
            Err(e) => Err(e),
        }),
{
    let a = varint::bytes_of(kind);
    let b = varint::bytes_of(contents.len() as u64);
    let s = frame_bytes(kind, contents) + rest;
    assert(s == a + (b + (contents + rest)));
    varint::round_trip(kind, b + (contents + rest));
    assert(varint::parse(s) == Some((kind, a.len())));
    assert(s.skip(a.len() as int) == b + (contents + rest));
    varint::round_trip(contents.len() as u64, contents + rest);
    assert(varint::parse(s.skip(a.len() as int)) == Some((contents.len() as u64, b.len())));
    assert(s.subrange((a.len() + b.len()) as int, (a.len() + b.len() + contents.len()) as int)
        == contents);
}

/// A settings frame reads back as the settings that it was made from.
pub proof fn settings_round_trip(s: Settings, rest: Seq<u8>)
    requires
        settings::writable(s),
    ensures
        parse(frame_bytes(SETTINGS, settings::payload(s)) + rest) == Ok::<
            (Option<FrameView>, nat),
            FrameError,
        >((Some(FrameView::Settings(s)), frame_bytes(SETTINGS, settings::payload(s)).len())),
{
    settings::round_trip(s);
    round_trip(SETTINGS, settings::payload(s), rest);
}

} // verus!
