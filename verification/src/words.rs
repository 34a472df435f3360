//! How numbers, bytes and errors are put in words.

use vstd::prelude::*;
use vstd::std_specs::convert::FromSpec;

use crate::error::{ErrorCode, ErrorView};
use crate::proto::connection;
use crate::proto::connection::ErrorView as ProtoErrorView;
use crate::proto::frame::FrameError;
use crate::qpack::{DecoderError, DynamicTableError, EncoderError};
use crate::{error, text};

verus! {

/// A number is written with its decimal digits, the most significant first: a number below ten is
/// its digit, and any other one is the number without its last digit, and then that digit.
pub proof fn decimal_digits(n: nat)
    ensures
        n < 10 ==> text::decimal_text(n) == seq![(48 + n) as char],
        n >= 10 ==> text::decimal_text(n) == text::decimal_text(n / 10).push((48 + n % 10) as char),
{
    one_digit(n % 10);
    if n < 10 {
        one_digit(n);
    } else {
        assert(text::decimal_text(n / 10) + seq![(48 + n % 10) as char] == text::decimal_text(
            n / 10,
        ).push((48 + n % 10) as char));
    }
}

proof fn one_digit(d: nat)
    requires
        d < 10,
    ensures
        text::digit_text(d) == seq![(48 + d) as char],
{
    reveal_strlit("0");
    reveal_strlit("1");
    reveal_strlit("2");
    reveal_strlit("3");
    reveal_strlit("4");
    reveal_strlit("5");
    reveal_strlit("6");
    reveal_strlit("7");
    reveal_strlit("8");
    reveal_strlit("9");
    assert(text::digit_text(d) == seq![(48 + d) as char]);
}

/// Bytes are written as a list in brackets, with a comma and a space between two of them.
pub proof fn bytes_as_a_list(s: Seq<u8>, b: u8)
    ensures
        text::list_text(Seq::empty()) == seq!['[', ']'],
        text::list_text(seq![b]) == seq!['['] + text::decimal_text(b as nat) + seq![']'],
        s.len() > 0 ==> text::list_text(s.push(b)) == text::list_text(s).drop_last() + seq![
            ',',
            ' ',
        ] + text::decimal_text(b as nat) + seq![']'],
{
    reveal_strlit("[");
    reveal_strlit("]");
    reveal_strlit(", ");
    assert("["@ == seq!['[']);
    assert("]"@ == seq![']']);
    assert(", "@ == seq![',', ' ']);
    assert(text::list_text(Seq::empty()) == seq!['[', ']']);
    if s.len() > 0 {
        assert(s.push(b).drop_last() == s);
        let inner = text::numbers_text(s);
        assert(text::list_text(s) == (seq!['['] + inner).push(']'));
        assert(text::list_text(s).drop_last() == seq!['['] + inner);
        assert(text::list_text(s.push(b)) == text::list_text(s).drop_last() + seq![',', ' ']
            + text::decimal_text(b as nat) + seq![']']);
    }
}

/// A name, and a value in brackets after it.
pub open spec fn holding(name: Seq<char>, value: Seq<char>) -> Seq<char> {
    name + seq!['('] + value + seq![')']
}

/// The brackets stand directly behind the name and around the value.
pub proof fn value_is_in_brackets(name: Seq<char>, value: Seq<char>)
    ensures
        holding(name, value) == (name.push('(') + value).push(')'),
{
    assert(holding(name, value) == (name.push('(') + value).push(')'));
}

/// How the errors of the two QPACK streams and of the table are told.
pub proof fn compression_errors_in_words(n: u64, m: usize, t: DynamicTableError)
    ensures
        error::table_error_text(DynamicTableError::MaxTableSizeReached) == "MaxTableSizeReached"@,
        error::table_error_text(DynamicTableError::MaximumTableSizeTooLarge)
            == "MaximumTableSizeTooLarge"@,
        error::table_error_text(DynamicTableError::MaxBlockedStreamsTooLarge)
            == "MaxBlockedStreamsTooLarge"@,
        error::decoder_error_text(DecoderError::UnexpectedEnd) == "UnexpectedEnd"@,
        error::decoder_error_text(DecoderError::InvalidInteger) == "InvalidInteger"@,
        error::decoder_error_text(DecoderError::InvalidString) == "InvalidString"@,
        error::decoder_error_text(DecoderError::BadBaseIndex) == "BadBaseIndex"@,
        error::decoder_error_text(DecoderError::InvalidStaticIndex(n)) == holding(
            "InvalidStaticIndex"@,
            text::decimal_text(n as nat),
        ),
        error::decoder_error_text(DecoderError::InvalidIndex(n)) == holding(
            "InvalidIndex"@,
            text::decimal_text(n as nat),
        ),
        error::decoder_error_text(DecoderError::MissingRefs(m)) == holding(
            "MissingRefs"@,
            text::decimal_text(m as nat),
        ),
        error::decoder_error_text(DecoderError::DynamicTable(t)) == holding(
            "DynamicTable"@,
            error::table_error_text(t),
        ),
        error::encoder_error_text(EncoderError::InvalidInteger) == "InvalidInteger"@,
        error::encoder_error_text(EncoderError::UnknownStreamId(n)) == holding(
            "UnknownStreamId"@,
            text::decimal_text(n as nat),
        ),
        error::encoder_error_text(EncoderError::InvalidIncrement(n)) == holding(
            "InvalidIncrement"@,
            text::decimal_text(n as nat),
        ),
{
    brackets();
    reveal_strlit("InvalidStaticIndex");
    reveal_strlit("InvalidStaticIndex(");
    reveal_strlit("InvalidIndex");
    reveal_strlit("InvalidIndex(");
    reveal_strlit("MissingRefs");
    reveal_strlit("MissingRefs(");
    reveal_strlit("DynamicTable");
    reveal_strlit("DynamicTable(");
    reveal_strlit("UnknownStreamId");
    reveal_strlit("UnknownStreamId(");
    reveal_strlit("InvalidIncrement");
    reveal_strlit("InvalidIncrement(");
    assert("InvalidStaticIndex("@ == "InvalidStaticIndex"@ + seq!['(']);
    assert("InvalidIndex("@ == "InvalidIndex"@ + seq!['(']);
    assert("MissingRefs("@ == "MissingRefs"@ + seq!['(']);
    assert("DynamicTable("@ == "DynamicTable"@ + seq!['(']);
    assert("UnknownStreamId("@ == "UnknownStreamId"@ + seq!['(']);
    assert("InvalidIncrement("@ == "InvalidIncrement"@ + seq!['(']);
}

proof fn brackets()
    ensures
        ")"@ == seq![')'],
{
    reveal_strlit(")");
    assert(")"@ == seq![')']);
}

/// How the errors of a connection are told.
pub proof fn protocol_errors_in_words(s: Seq<char>, d: DecoderError, e: EncoderError)
    ensures
        error::proto_error_text(ProtoErrorView::HeaderListTooLarge) == "HeaderListTooLarge"@,
        error::proto_error_text(ProtoErrorView::InvalidHeaderName(s)) == holding(
            "InvalidHeaderName"@,
            text::quoted(s),
        ),
        error::proto_error_text(ProtoErrorView::InvalidHeaderValue(s)) == holding(
            "InvalidHeaderValue"@,
            text::quoted(s),
        ),
        error::proto_error_text(ProtoErrorView::InvalidRequest(s)) == holding(
            "InvalidRequest"@,
            text::quoted(s),
        ),
        error::proto_error_text(ProtoErrorView::InvalidResponse(s)) == holding(
            "InvalidResponse"@,
            text::quoted(s),
        ),
        error::proto_error_text(ProtoErrorView::Settings(s)) == "Settings"@ + " { reason: "@
            + text::quoted(s) + " }"@,
        error::proto_error_text(ProtoErrorView::Encode(e)) == "EncodeError"@ + " { reason: "@
            + error::encoder_error_text(e) + " }"@,
        error::proto_error_text(ProtoErrorView::Decode(d)) == "DecodeError"@ + " { reason: "@
            + error::decoder_error_text(d) + " }"@,
{
    brackets();
    reveal_strlit("InvalidHeaderName");
    reveal_strlit("InvalidHeaderName(");
    reveal_strlit("InvalidHeaderValue");
    reveal_strlit("InvalidHeaderValue(");
    reveal_strlit("InvalidRequest");
    reveal_strlit("InvalidRequest(");
    reveal_strlit("InvalidResponse");
    reveal_strlit("InvalidResponse(");
    reveal_strlit("Settings");
    reveal_strlit("EncodeError");
    reveal_strlit("DecodeError");
    reveal_strlit(" { reason: ");
    reveal_strlit("Settings { reason: ");
    reveal_strlit("EncodeError { reason: ");
    reveal_strlit("DecodeError { reason: ");
    assert("InvalidHeaderName("@ == "InvalidHeaderName"@ + seq!['(']);
    assert("InvalidHeaderValue("@ == "InvalidHeaderValue"@ + seq!['(']);
    assert("InvalidRequest("@ == "InvalidRequest"@ + seq!['(']);
    assert("InvalidResponse("@ == "InvalidResponse"@ + seq!['(']);
    assert("Settings { reason: "@ == "Settings"@ + " { reason: "@);
    assert("EncodeError { reason: "@ == "EncodeError"@ + " { reason: "@);
    assert("DecodeError { reason: "@ == "DecodeError"@ + " { reason: "@);
}

/// How errors are told.
pub proof fn errors_in_words(s: Seq<char>, n: u64, p: ProtoErrorView)
    ensures
        error::debug_text(ErrorView::Proto(p)) == holding("Proto"@, error::proto_error_text(p)),
        error::debug_text(ErrorView::Internal(s)) == holding("Internal"@, text::quoted(s)),
        error::debug_text(ErrorView::Peer(s)) == holding("Peer"@, text::quoted(s)),
        error::debug_text(ErrorView::UnknownStream(n)) == holding(
            "UnknownStream"@,
            text::decimal_text(n as nat),
        ),
        error::debug_text(ErrorView::Poll) == "Poll"@,
        error::debug_text(ErrorView::Transport(s)) == holding("Transport"@, text::quoted(s)),
{
    brackets();
    reveal_strlit("Proto");
    reveal_strlit("Proto(");
    reveal_strlit("Internal");
    reveal_strlit("Internal(");
    reveal_strlit("Peer");
    reveal_strlit("Peer(");
    reveal_strlit("UnknownStream");
    reveal_strlit("UnknownStream(");
    reveal_strlit("Transport");
    reveal_strlit("Transport(");
    assert("Proto("@ == "Proto"@ + seq!['(']);
    assert("Internal("@ == "Internal"@ + seq!['(']);
    assert("Peer("@ == "Peer"@ + seq!['(']);
    assert("UnknownStream("@ == "UnknownStream"@ + seq!['(']);
    assert("Transport("@ == "Transport"@ + seq!['(']);
}

/// The codes that the peer is told have these numbers.
pub proof fn codes_have_numbers()
    ensures
        error::code_number(ErrorCode::NoError) == 0x100,
        error::code_number(ErrorCode::StreamCreationError) == 0x103,
        error::code_number(ErrorCode::ClosedCriticalStream) == 0x104,
        error::code_number(ErrorCode::FrameUnexpected) == 0x105,
        error::code_number(ErrorCode::FrameError) == 0x106,
        error::code_number(ErrorCode::MissingSettings) == 0x10a,
{
}

/// A control stream on which no frame can be read fails with the code for frames, and the message
/// says what is wrong with the frame.
pub proof fn frame_failures_in_words(e: FrameError)
    ensures
        error::failure_of(e).0 == ErrorCode::FrameError,
        e == FrameError::Incomplete ==> error::failure_of(e).1 == "incomplete frame"@,
        e == FrameError::Malformed ==> error::failure_of(e).1 == "malformed frame"@,
{
}

/// An error that is passed on stays the error that it was.
pub proof fn errors_are_passed_on(
    encoder: EncoderError,
    decoder: DecoderError,
    proto: connection::Error,
)
    ensures
        <connection::Error as FromSpec<EncoderError>>::from_spec(encoder)@ == ProtoErrorView::Encode(
            encoder,
        ),
        <connection::Error as FromSpec<DecoderError>>::from_spec(decoder)@ == ProtoErrorView::Decode(
            decoder,
        ),
        <error::Error as FromSpec<connection::Error>>::from_spec(proto)@ == ErrorView::Proto(proto@),
{
}

} // verus!
