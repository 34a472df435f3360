//! Errors, and the codes that tell the peer about them.

use vstd::prelude::*;

use crate::proto::connection;
use crate::proto::frame::FrameError;
use crate::qpack::{DecoderError, DynamicTableError, EncoderError};
use crate::text;

verus! {

/// Why a connection is closed.
#[derive(Clone, Copy, Debug, PartialEq, Eq, Structural)]
pub enum ErrorCode {
    NoError,
    StreamCreationError,
    ClosedCriticalStream,
    FrameUnexpected,
    FrameError,
    MissingSettings,
}

/// The number that stands for a code.
pub open spec fn code_number(code: ErrorCode) -> u32 {
    match code {
        ErrorCode::NoError => 0x100,
        ErrorCode::StreamCreationError => 0x103,
        ErrorCode::ClosedCriticalStream => 0x104,
        ErrorCode::FrameUnexpected => 0x105,
        ErrorCode::FrameError => 0x106,
        ErrorCode::MissingSettings => 0x10a,
    }
}

impl ErrorCode {
    /// The number that stands for the code.
    pub fn code(self) -> (n: u32)
        ensures
            n == code_number(self),
    {
        match self {
            ErrorCode::NoError => 0x100,
            ErrorCode::StreamCreationError => 0x103,
            ErrorCode::ClosedCriticalStream => 0x104,
            ErrorCode::FrameUnexpected => 0x105,
            ErrorCode::FrameError => 0x106,
            ErrorCode::MissingSettings => 0x10a,
        }
    }
}

/// The code and the message for a control stream on which no frame could be read.
pub open spec fn failure_of(e: FrameError) -> (ErrorCode, Seq<char>) {
    (
        ErrorCode::FrameError,
        match e {
            FrameError::Incomplete => "incomplete frame"@,
            FrameError::Malformed => "malformed frame"@,
        },
    )
}

/// The code and the message for a control stream on which no frame could be read.
pub fn frame_failure(e: FrameError) -> (r: (ErrorCode, String))
    ensures
        (r.0, r.1@) == failure_of(e),
        r.0 == ErrorCode::FrameError,
        r.1@ == (match e {
            FrameError::Incomplete => "incomplete frame"@,
            FrameError::Malformed => "malformed frame"@,
        }),
{
    let message = match e {
        FrameError::Incomplete => "incomplete frame",
        FrameError::Malformed => "malformed frame",
    };
    (ErrorCode::FrameError, message.to_owned())
}

/// What can go wrong.
#[derive(Debug, PartialEq)]
pub enum Error {
    /// The protocol was violated, or a message cannot be sent.
    Proto(connection::Error),
    /// This end is in a state that it should not be in.
    Internal(&'static str),
    /// The peer did something unexpected.
    Peer(String),
    /// A unidirectional stream has a type that is not known.
    UnknownStream(u64),
    /// An operation was driven on after it had finished.
    Poll,
    /// The transport failed.
    Transport(String),
}

/// The model of an error.
pub enum ErrorView {
    Proto(connection::ErrorView),
    Internal(Seq<char>),
    Peer(Seq<char>),
    UnknownStream(u64),
    Poll,
    Transport(Seq<char>),
}

impl View for Error {
    type V = ErrorView;

    open spec fn view(&self) -> ErrorView {
        match self {
            Error::Proto(e) => ErrorView::Proto(e@),
            Error::Internal(s) => ErrorView::Internal(s@),
            Error::Peer(s) => ErrorView::Peer(s@),
            Error::UnknownStream(n) => ErrorView::UnknownStream(*n),
            Error::Poll => ErrorView::Poll,
            Error::Transport(s) => ErrorView::Transport(s@),
        }
    }
}

impl Error {
    /// An error about the peer.
    pub fn peer(message: &str) -> (e: Error)
        ensures
            e@ == ErrorView::Peer(message@),
    {
        Error::Peer(message.to_owned())
    }
}

impl From<connection::Error> for Error {
    fn from(err: connection::Error) -> (r: Error) {
        Error::Proto(err)
    }
}

impl vstd::std_specs::convert::FromSpecImpl<connection::Error> for Error {
    open spec fn obeys_from_spec() -> bool {
        true
    }

    open spec fn from_spec(err: connection::Error) -> Error {
        Error::Proto(err)
    }
}

/// How a refusal of the dynamic table is written in messages.
pub open spec fn table_error_text(e: DynamicTableError) -> Seq<char> {
    match e {
        DynamicTableError::MaxTableSizeReached => "MaxTableSizeReached"@,
        DynamicTableError::MaximumTableSizeTooLarge => "MaximumTableSizeTooLarge"@,
        DynamicTableError::MaxBlockedStreamsTooLarge => "MaxBlockedStreamsTooLarge"@,
    }
}

/// How an error of the decoder is written in messages.
pub open spec fn decoder_error_text(e: DecoderError) -> Seq<char> {
    match e {
        DecoderError::UnexpectedEnd => "UnexpectedEnd"@,
        DecoderError::InvalidInteger => "InvalidInteger"@,
        DecoderError::InvalidString => "InvalidString"@,
        DecoderError::InvalidStaticIndex(n) => "InvalidStaticIndex("@ + text::decimal_text(n as nat)
            + ")"@,
        DecoderError::InvalidIndex(n) => "InvalidIndex("@ + text::decimal_text(n as nat) + ")"@,
        DecoderError::BadBaseIndex => "BadBaseIndex"@,
        DecoderError::MissingRefs(n) => "MissingRefs("@ + text::decimal_text(n as nat) + ")"@,
        DecoderError::DynamicTable(t) => "DynamicTable("@ + table_error_text(t) + ")"@,
    }
}

/// How an error of the encoder is written in messages.
pub open spec fn encoder_error_text(e: EncoderError) -> Seq<char> {
    match e {
        EncoderError::InvalidInteger => "InvalidInteger"@,
        EncoderError::UnknownStreamId(n) => "UnknownStreamId("@ + text::decimal_text(n as nat)
            + ")"@,
        EncoderError::InvalidIncrement(n) => "InvalidIncrement("@ + text::decimal_text(n as nat)
            + ")"@,
    }
}

/// How an error of the protocol is written in messages.
pub open spec fn proto_error_text(e: connection::ErrorView) -> Seq<char> {
    match e {
        connection::ErrorView::HeaderListTooLarge => "HeaderListTooLarge"@,
        connection::ErrorView::InvalidHeaderName(s) => "InvalidHeaderName("@ + text::quoted(s)
            + ")"@,
        connection::ErrorView::InvalidHeaderValue(s) => "InvalidHeaderValue("@ + text::quoted(s)
            + ")"@,
        connection::ErrorView::InvalidRequest(s) => "InvalidRequest("@ + text::quoted(s) + ")"@,
        connection::ErrorView::InvalidResponse(s) => "InvalidResponse("@ + text::quoted(s) + ")"@,
        connection::ErrorView::Settings(s) => "Settings { reason: "@ + text::quoted(s) + " }"@,
        connection::ErrorView::Encode(reason) => "EncodeError { reason: "@ + encoder_error_text(
            reason,
        ) + " }"@,
        connection::ErrorView::Decode(reason) => "DecodeError { reason: "@ + decoder_error_text(
            reason,
        ) + " }"@,
    }
}

/// How an error is written in messages.
pub open spec fn debug_text(e: ErrorView) -> Seq<char> {
    match e {
        ErrorView::Proto(p) => "Proto("@ + proto_error_text(p) + ")"@,
        ErrorView::Internal(s) => "Internal("@ + text::quoted(s) + ")"@,
        ErrorView::Peer(s) => "Peer("@ + text::quoted(s) + ")"@,
        ErrorView::UnknownStream(n) => "UnknownStream("@ + text::decimal_text(n as nat) + ")"@,
        ErrorView::Poll => "Poll"@,
        ErrorView::Transport(s) => "Transport("@ + text::quoted(s) + ")"@,
    }
}

fn table_error_debug(e: DynamicTableError) -> (r: String)
    ensures
        r@ == table_error_text(e),
{
    match e {
        DynamicTableError::MaxTableSizeReached => "MaxTableSizeReached".to_owned(),
        DynamicTableError::MaximumTableSizeTooLarge => "MaximumTableSizeTooLarge".to_owned(),
        DynamicTableError::MaxBlockedStreamsTooLarge => "MaxBlockedStreamsTooLarge".to_owned(),
    }
}

fn decoder_error_debug(e: DecoderError) -> (r: String)
    ensures
        r@ == decoder_error_text(e),
{
    match e {
        DecoderError::UnexpectedEnd => "UnexpectedEnd".to_owned(),
        DecoderError::InvalidInteger => "InvalidInteger".to_owned(),
        DecoderError::InvalidString => "InvalidString".to_owned(),
        DecoderError::InvalidStaticIndex(n) => text::wrap(
            "InvalidStaticIndex(",
            text::decimal(n).as_str(),
            ")",
        ),
        DecoderError::InvalidIndex(n) => text::wrap("InvalidIndex(", text::decimal(n).as_str(), ")"),
        DecoderError::BadBaseIndex => "BadBaseIndex".to_owned(),
        DecoderError::MissingRefs(n) => text::wrap(
            "MissingRefs(",
            text::decimal(n as u64).as_str(),
            ")",
        ),
        DecoderError::DynamicTable(t) => text::wrap(
            "DynamicTable(",
            table_error_debug(t).as_str(),
            ")",
        ),
    }
}

fn encoder_error_debug(e: EncoderError) -> (r: String)
    ensures
        r@ == encoder_error_text(e),
{
    match e {
        EncoderError::InvalidInteger => "InvalidInteger".to_owned(),
        EncoderError::UnknownStreamId(n) => text::wrap(
            "UnknownStreamId(",
            text::decimal(n).as_str(),
            ")",
        ),
        EncoderError::InvalidIncrement(n) => text::wrap(
            "InvalidIncrement(",
            text::decimal(n).as_str(),
            ")",
        ),
    }
}

fn proto_error_debug(e: &connection::Error) -> (r: String)
    ensures
        r@ == proto_error_text(e@),
{
    match e {
        connection::Error::HeaderListTooLarge => "HeaderListTooLarge".to_owned(),
        connection::Error::InvalidHeaderName(s) => text::wrap(
            "InvalidHeaderName(",
            text::quote(s.as_str()).as_str(),
            ")",
        ),
        connection::Error::InvalidHeaderValue(s) => text::wrap(
            "InvalidHeaderValue(",
            text::quote(s.as_str()).as_str(),
            ")",
        ),
        connection::Error::InvalidRequest(s) => text::wrap(
            "InvalidRequest(",
            text::quote(s.as_str()).as_str(),
            ")",
        ),
        connection::Error::InvalidResponse(s) => text::wrap(
            "InvalidResponse(",
            text::quote(s.as_str()).as_str(),
            ")",
        ),
        connection::Error::Settings { reason } => text::wrap(
            "Settings { reason: ",
            text::quote(reason.as_str()).as_str(),
            " }",
        ),
        connection::Error::EncodeError { reason } => text::wrap(
            "EncodeError { reason: ",
            encoder_error_debug(*reason).as_str(),
            " }",
        ),
        connection::Error::DecodeError { reason } => text::wrap(
            "DecodeError { reason: ",
            decoder_error_debug(*reason).as_str(),
            " }",
        ),
    }
}

impl Error {
    /// The error as it is written in messages.
    pub fn debug(&self) -> (r: String)
        ensures
            r@ == debug_text(self@),
    {
        match self {
            Error::Proto(p) => text::wrap("Proto(", proto_error_debug(p).as_str(), ")"),
            Error::Internal(s) => text::wrap("Internal(", text::quote(s).as_str(), ")"),
            Error::Peer(s) => text::wrap("Peer(", text::quote(s.as_str()).as_str(), ")"),
            Error::UnknownStream(n) => text::wrap(
                "UnknownStream(",
                text::decimal(*n).as_str(),
                ")",
            ),
            Error::Poll => "Poll".to_owned(),
            Error::Transport(s) => text::wrap("Transport(", text::quote(s.as_str()).as_str(), ")"),
        }
    }
}

/// Takes what must be there.
pub fn try_take<T>(item: &mut Option<T>, message: &'static str) -> (r: Result<T, Error>)
    ensures
        match *old(item) {
            Some(v) => r == Ok::<T, Error>(v),
            None => r matches Err(e) && e@ == ErrorView::Internal(message@),
        },
        *final(item) is None,
{
    match item.take() {
        Some(v) => Ok(v),
        None => Err(Error::Internal(message)),
    }
}

} // verus!
