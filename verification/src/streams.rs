//! The unidirectional streams of a connection.
//!
//! The first thing on each of them is its type.

use vstd::prelude::*;

use crate::error::Error;
use crate::proto::varint;
use crate::StreamId;

verus! {

/// The type of control streams.
pub const CONTROL: u64 = 0x0;

/// The type of push streams.
pub const PUSH: u64 = 0x1;

/// The type of encoder streams.
pub const ENCODER: u64 = 0x2;

/// The type of decoder streams.
pub const DECODER: u64 = 0x3;

/// The unidirectional streams that this end opens.
#[derive(Clone, Copy, Debug, PartialEq, Eq, Structural)]
pub enum StreamType {
    Control,
    Encoder,
    Decoder,
}

/// The number of a type of stream.
pub open spec fn type_number(ty: StreamType) -> u64 {
    match ty {
        StreamType::Control => CONTROL,
        StreamType::Encoder => ENCODER,
        StreamType::Decoder => DECODER,
    }
}

impl StreamType {
    /// What a stream of this type starts with.
    pub fn announce(self) -> (r: Vec<u8>)
        ensures
            r@ == varint::bytes_of(type_number(self)),
    {
        let ty: u64 = match self {
            StreamType::Control => CONTROL,
            StreamType::Encoder => ENCODER,
            StreamType::Decoder => DECODER,
        };
        let mut out: Vec<u8> = Vec::new();
        varint::encode(&mut out, ty);
        out
    }
}

/// What a unidirectional stream of the peer turned out to be.
#[derive(Clone, Copy, Debug, PartialEq, Eq, Structural)]
pub enum NewUni {
    Control(StreamId),
    Push(StreamId),
    Encoder(StreamId),
    Decoder(StreamId),
}

/// What a stream is that starts with the given bytes, once they hold its type.
pub open spec fn uni_of(s: Seq<u8>, id: StreamId) -> Option<Result<NewUni, Error>> {
    match varint::parse(s) {
        None => None,
        Some((ty, _)) => Some(
            if ty == CONTROL {
                Ok(NewUni::Control(id))
            } else if ty == PUSH {
                Ok(NewUni::Push(id))
            } else if ty == ENCODER {
                Ok(NewUni::Encoder(id))
            } else if ty == DECODER {
                Ok(NewUni::Decoder(id))
            } else {
                Err(Error::UnknownStream(ty))
            },
        ),
    }
}

/// Finds out what a stream is from the bytes that it starts with, once they hold its type.
pub fn resolve(buf: &[u8], id: StreamId) -> (r: Option<Result<NewUni, Error>>)
    ensures
        r == uni_of(buf@, id),
{
    match varint::decode(buf) {
        None => None,
        Some((ty, _)) => Some(
            if ty == CONTROL {
                Ok(NewUni::Control(id))
            } else if ty == PUSH {
                Ok(NewUni::Push(id))
            } else if ty == ENCODER {
                Ok(NewUni::Encoder(id))
            } else if ty == DECODER {
                Ok(NewUni::Decoder(id))
            } else {
                Err(Error::UnknownStream(ty))
            },
        ),
    }
}

/// A stream that this end opens is recognised by the peer, whatever follows its type.
pub proof fn announced_is_resolved(ty: StreamType, id: StreamId, rest: Seq<u8>)
    ensures
        uni_of(varint::bytes_of(type_number(ty)) + rest, id) == Some(
            Ok::<NewUni, Error>(
                match ty {
                    StreamType::Control => NewUni::Control(id),
                    StreamType::Encoder => NewUni::Encoder(id),
                    StreamType::Decoder => NewUni::Decoder(id),
                },
            ),
        ),
{
    varint::round_trip(type_number(ty), rest);
}

} // verus!
