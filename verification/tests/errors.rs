use quinn_h3::error::{try_take, Error, ErrorCode};
use quinn_h3::proto::connection::Error as ProtoError;
use quinn_h3::proto::headers;
use quinn_h3::qpack::{DecoderError, DynamicTableError, EncoderError};
use quinn_h3::text;

#[test]
fn messages_are_those_of_debug() {
    let proto = vec![
        ProtoError::HeaderListTooLarge,
        ProtoError::InvalidHeaderName("a \"quoted\" \n name".to_string()),
        ProtoError::InvalidHeaderValue("[1, 2]".to_string()),
        ProtoError::InvalidRequest("missing method".to_string()),
        ProtoError::InvalidResponse("missing status".to_string()),
        ProtoError::Settings {
            reason: "setting too large".to_string(),
        },
        ProtoError::EncodeError {
            reason: EncoderError::InvalidInteger,
        },
        ProtoError::EncodeError {
            reason: EncoderError::UnknownStreamId(12),
        },
        ProtoError::EncodeError {
            reason: EncoderError::InvalidIncrement(u64::MAX),
        },
        ProtoError::DecodeError {
            reason: DecoderError::UnexpectedEnd,
        },
        ProtoError::DecodeError {
            reason: DecoderError::InvalidInteger,
        },
        ProtoError::DecodeError {
            reason: DecoderError::InvalidString,
        },
        ProtoError::DecodeError {
            reason: DecoderError::InvalidStaticIndex(99),
        },
        ProtoError::DecodeError {
            reason: DecoderError::InvalidIndex(0),
        },
        ProtoError::DecodeError {
            reason: DecoderError::BadBaseIndex,
        },
        ProtoError::DecodeError {
            reason: DecoderError::MissingRefs(10),
        },
        ProtoError::DecodeError {
            reason: DecoderError::DynamicTable(DynamicTableError::MaxTableSizeReached),
        },
        ProtoError::DecodeError {
            reason: DecoderError::DynamicTable(DynamicTableError::MaximumTableSizeTooLarge),
        },
        ProtoError::DecodeError {
            reason: DecoderError::DynamicTable(DynamicTableError::MaxBlockedStreamsTooLarge),
        },
    ];
    let mut errors: Vec<Error> = proto.into_iter().map(Error::from).collect();
    errors.push(Error::Internal("header none"));
    errors.push(Error::peer("caf\u{e9} \\ \t"));
    errors.push(Error::UnknownStream(84));
    errors.push(Error::Poll);
    errors.push(Error::Transport("closed".to_string()));
    for e in errors.iter() {
        assert_eq!(e.debug(), format!("{:?}", e));
    }
}

#[test]
fn codes_have_their_numbers() {
    assert_eq!(ErrorCode::NoError.code(), 0x100);
    assert_eq!(ErrorCode::StreamCreationError.code(), 0x103);
    assert_eq!(ErrorCode::ClosedCriticalStream.code(), 0x104);
    assert_eq!(ErrorCode::FrameUnexpected.code(), 0x105);
    assert_eq!(ErrorCode::FrameError.code(), 0x106);
    assert_eq!(ErrorCode::MissingSettings.code(), 0x10a);
}

#[test]
fn what_must_be_there_is_taken() {
    let mut item = Some(5);
    assert_eq!(try_take(&mut item, "gone"), Ok(5));
    assert_eq!(try_take(&mut item, "gone"), Err(Error::Internal("gone")));
}

#[test]
fn header_errors_are_restated() {
    assert_eq!(
        ProtoError::from(headers::Error::MissingMethod),
        ProtoError::InvalidRequest("missing method".to_string())
    );
    assert_eq!(
        ProtoError::from(headers::Error::MissingStatus),
        ProtoError::InvalidResponse("missing status".to_string())
    );
    assert_eq!(
        ProtoError::from(headers::Error::InvalidHeaderName("n".to_string())),
        ProtoError::InvalidHeaderName("n".to_string())
    );
    assert_eq!(
        ProtoError::from(headers::Error::InvalidHeaderValue("v".to_string())),
        ProtoError::InvalidHeaderValue("v".to_string())
    );
    assert_eq!(
        ProtoError::from(headers::Error::InvalidRequest("r".to_string())),
        ProtoError::InvalidRequest("r".to_string())
    );
}

#[test]
fn table_errors_are_restated() {
    let restated = |e: DynamicTableError, reason: &str| {
        assert_eq!(
            ProtoError::from(e),
            ProtoError::Settings {
                reason: reason.to_string()
            }
        );
    };
    restated(
        DynamicTableError::MaxTableSizeReached,
        "dynamic table error: max table size reached",
    );
    restated(
        DynamicTableError::MaximumTableSizeTooLarge,
        "dynamic table error: maximum table size too large",
    );
    restated(
        DynamicTableError::MaxBlockedStreamsTooLarge,
        "dynamic table error: max blocked streams too large",
    );
}

#[test]
fn texts_are_put_together() {
    assert_eq!(text::decimal(0), "0");
    assert_eq!(text::decimal(907), "907");
    assert_eq!(text::decimal(u64::MAX), u64::MAX.to_string());
    assert_eq!(text::list(&[]), "[]");
    assert_eq!(text::list(&[1, 20, 255]), "[1, 20, 255]");
    assert_eq!(text::join("a", "b"), "ab");
    assert_eq!(text::wrap("a", "b", "c"), "abc");
}
