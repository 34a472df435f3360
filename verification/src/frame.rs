//! Frames on a stream that arrives in pieces.

use bytes::BytesMut;
use vstd::prelude::*;

use crate::buffer;
use crate::proto::frame::{FrameError, FrameView, HttpFrame};
use crate::proto::{frame, varint};

verus! {

/// Collects the bytes of a stream and splits them into frames.
#[derive(Debug)]
pub struct FrameDecoder {
    pub buffer: BytesMut,
}

/// What there is at the start of some bytes: a frame, none yet, or an error; and the bytes that
/// are done with. Frames of unknown types are passed over.
pub open spec fn next_frame(s: Seq<u8>) -> (Result<Option<FrameView>, FrameError>, nat)
    decreases s.len(),
{
    match frame::parse(s) {
        Err(FrameError::Incomplete) => (Ok(None), 0),
        Err(e) => (Err(e), 0),
        Ok((Some(f), used)) => (Ok(Some(f)), used),
        Ok((None, used)) => {
            proof {
                parse_len(s);
            }
            let (r, more) = next_frame(s.skip(used as int));
            (r, used + more)
        },
    }
}

/// A frame takes at least one byte, and no more bytes than there are.
pub proof fn parse_len(s: Seq<u8>)
    ensures
        frame::parse(s) matches Ok((_, used)) ==> 1 <= used <= s.len(),
{
    varint::parse_len(s);
    if let Some((kind, used)) = varint::parse(s) {
        varint::parse_len(s.skip(used as int));
    }
}

/// The model of what there is at the start of some bytes.
pub open spec fn frame_model(r: Result<Option<HttpFrame>, FrameError>) -> Result<
    Option<FrameView>,
    FrameError,
> {
    match r {
        Ok(Some(f)) => Ok(Some(f@)),
        Ok(None) => Ok(None),
        Err(e) => Err(e),
    }
}

impl FrameDecoder {
    /// A decoder of a stream of which nothing has arrived.
    pub fn new() -> (d: FrameDecoder)
        ensures
            buffer::buffered(d.buffer) == Seq::<u8>::empty(),
    {
        FrameDecoder { buffer: BytesMut::with_capacity(2048) }
    }

    /// Adds bytes that arrived.
    pub fn push(&mut self, data: &[u8])
        ensures
            buffer::buffered(final(self).buffer) == buffer::buffered(old(self).buffer) + data@,
    {
        self.buffer.extend_from_slice(data);
    }

    /// Takes the next frame, if it is complete.
    pub fn next(&mut self) -> (r: Result<Option<HttpFrame>, FrameError>)
        ensures
            frame_model(r) == next_frame(buffer::buffered(old(self).buffer)).0,
            buffer::buffered(final(self).buffer) == buffer::buffered(old(self).buffer).skip(
                next_frame(buffer::buffered(old(self).buffer)).1 as int,
            ),
    {
        let ghost all = buffer::buffered(self.buffer);
        let ghost mut done: nat = 0;
        assert(all.skip(0) == all);
        loop
            invariant
                all == buffer::buffered(old(self).buffer),
                done <= all.len(),
                buffer::buffered(self.buffer) == all.skip(done as int),
                next_frame(all).0 == next_frame(all.skip(done as int)).0,
                next_frame(all).1 == done + next_frame(all.skip(done as int)).1,
            decreases all.len() - done,
        {
            let ghost here = buffer::buffered(self.buffer);
            match HttpFrame::decode(self.buffer.as_ref()) {
                Err(FrameError::Incomplete) => {
                    return Ok(None);
                },
                Err(e) => {
                    return Err(e);
                },
                Ok((f, used)) => {
                    self.buffer.advance(used);
                    assert(here.skip(used as int) == all.skip((done + used) as int));
                    if f.is_some() {
                        return Ok(f);
                    }
                    proof {
                        done = done + used as nat;
                    }
                },
            }
        }
    }

    /// Whether nothing is left of an incomplete frame.
    pub fn is_empty(&self) -> (r: bool)
        ensures
            r == (buffer::buffered(self.buffer).len() == 0),
    {
        self.buffer.is_empty()
    }
}

/// More bytes change nothing about a frame that is complete, nor about an error.
pub proof fn settled_by_prefix(s: Seq<u8>, more: Seq<u8>)
    requires
        next_frame(s).0 != Ok::<Option<FrameView>, FrameError>(None),
    ensures
        next_frame(s + more) == next_frame(s),
    decreases s.len(),
{
    parse_extends(s, more);
    if let Ok((None, used)) = frame::parse(s) {
        parse_len(s);
        assert((s + more).skip(used as int) == s.skip(used as int) + more);
        settled_by_prefix(s.skip(used as int), more);
    }
}

/// More bytes change nothing about what is complete.
proof fn parse_extends(s: Seq<u8>, more: Seq<u8>)
    requires
        frame::parse(s) != Err::<(Option<FrameView>, nat), FrameError>(FrameError::Incomplete),
    ensures
        frame::parse(s + more) == frame::parse(s),
{
    varint::parse_extends(s, more);
    varint::parse_len(s);
    if let Some((kind, used)) = varint::parse(s) {
        let rest = s.skip(used as int);
        assert((s + more).skip(used as int) == rest + more);
        varint::parse_extends(rest, more);
        varint::parse_len(rest);
        if let Some((len, n)) = varint::parse(rest) {
            let start = used + n;
            if start + len <= s.len() {
                assert((s + more).subrange(start as int, start + len) == s.subrange(
                    start as int,
                    start + len,
                ));
            }
        }
    }
}

/// A frame that was written is read back, whatever follows it.
pub proof fn written_frame_is_next(kind: u64, contents: Seq<u8>, rest: Seq<u8>)
    requires
        kind <= varint::MAX,
        contents.len() <= varint::MAX,
        frame::frame_of(kind, contents) matches Ok(Some(_)),
    ensures
        next_frame(frame::frame_bytes(kind, contents) + rest) == (
            frame::frame_of(kind, contents),
            frame::frame_bytes(kind, contents).len(),
        ),
{
    frame::round_trip(kind, contents, rest);
}

/// Frames are taken off the bytes one after another: a frame that is complete is handed out with
/// its bytes, one of an unknown type is passed over, and what is incomplete is left. A malformed
/// frame is an error, and stays where it is.
pub proof fn frame_by_frame(s: Seq<u8>)
    ensures
        match frame::parse(s) {
            Err(FrameError::Incomplete) => next_frame(s) == (
                Ok::<Option<FrameView>, FrameError>(None),
                0nat,
            ),
            Err(FrameError::Malformed) => next_frame(s) == (
                Err::<Option<FrameView>, FrameError>(FrameError::Malformed),
                0nat,
            ),
            Ok((Some(f), used)) => next_frame(s) == (
                Ok::<Option<FrameView>, FrameError>(Some(f)),
                used,
            ),
            Ok((None, used)) => {
                let (r, more) = next_frame(s.skip(used as int));
                next_frame(s) == (r, used + more)
            },
        },
{
}

/// A frame that was read, or the error, is modelled by itself.
pub proof fn frame_model_is_faithful(f: HttpFrame, e: FrameError)
    ensures
        frame_model(Ok(Some(f))) == Ok::<Option<FrameView>, FrameError>(Some(f@)),
        frame_model(Ok(None)) == Ok::<Option<FrameView>, FrameError>(None),
        frame_model(Err(e)) == Err::<Option<FrameView>, FrameError>(e),
{
}

} // verus!
