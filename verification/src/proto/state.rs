//! What each operation of a connection changes, and what it leaves alone.

use bytes::Bytes;
use vstd::prelude::*;

use crate::qpack::dynamic::TableView;
use crate::qpack::{DecoderError, DynamicTableError, FieldView};
use crate::{buffer, qpack, text, StreamId};

use super::connection;
use super::connection::{ConnectionView, DecodeResult, DecodeView, Error, ErrorView};
use super::frame::HeadersFrame;
use super::headers;
use super::headers::Fault;
use super::settings::Settings;

verus! {

/// A table without entries, for which the peer may not use any.
pub open spec fn empty_table() -> TableView {
    TableView {
        fields: Seq::empty(),
        dropped: 0,
        capacity: 0,
        max_capacity: 0,
        max_blocked: 0,
        known_received: 0,
        sections: Seq::empty(),
    }
}

/// Settings are refused exactly if they ask for more blocked streams or a larger table than a
/// table takes, and the refusal says which.
pub proof fn refused_settings(s: Settings)
    ensures
        connection::settings_refusal(s) == (if s.qpack_blocked_streams as usize > 65535 {
            Some("dynamic table error: max blocked streams too large"@)
        } else if s.qpack_max_table_capacity as usize > 1073741823 {
            Some("dynamic table error: maximum table size too large"@)
        } else {
            None
        }),
{
    refusals_in_words();
}

/// How the refusals of a table are told.
pub proof fn refusals_in_words()
    ensures
        connection::refusal_text(DynamicTableError::MaxTableSizeReached)
            == "dynamic table error: max table size reached"@,
        connection::refusal_text(DynamicTableError::MaximumTableSizeTooLarge)
            == "dynamic table error: maximum table size too large"@,
        connection::refusal_text(DynamicTableError::MaxBlockedStreamsTooLarge)
            == "dynamic table error: max blocked streams too large"@,
{
    reveal_strlit("dynamic table error: ");
    reveal_strlit("max table size reached");
    reveal_strlit("maximum table size too large");
    reveal_strlit("max blocked streams too large");
    reveal_strlit("dynamic table error: max table size reached");
    reveal_strlit("dynamic table error: maximum table size too large");
    reveal_strlit("dynamic table error: max blocked streams too large");
    assert(connection::refusal_text(DynamicTableError::MaxTableSizeReached)
        == "dynamic table error: max table size reached"@);
    assert(connection::refusal_text(DynamicTableError::MaximumTableSizeTooLarge)
        == "dynamic table error: maximum table size too large"@);
    assert(connection::refusal_text(DynamicTableError::MaxBlockedStreamsTooLarge)
        == "dynamic table error: max blocked streams too large"@);
}

/// A new connection keeps its settings, allows its peer what they say, may itself not use a
/// dynamic table yet, and has nothing to send but its settings.
pub proof fn new_connection(s: Settings)
    ensures
        ({
            let c = connection::opened(s);
            &&& c.local_settings == s
            &&& c.remote_settings is None
            &&& c.decoder_table == (TableView {
                capacity: s.qpack_max_table_capacity as usize as nat,
                max_capacity: s.qpack_max_table_capacity as usize as nat,
                max_blocked: s.qpack_blocked_streams as usize as nat,
                ..empty_table()
            })
            &&& c.encoder_table == empty_table()
            &&& c.pending_encoder == Seq::<u8>::empty()
            &&& c.pending_decoder == Seq::<u8>::empty()
        }),
        connection::idle(s) == (ConnectionView {
            decoder_table: empty_table(),
            pending_control: Seq::empty(),
            ..connection::opened(s)
        }),
{
}

/// The peer's settings become the remote settings, exactly as they are. The encoder takes up the
/// table and the number of blocked streams that they allow, as far as a table can have them, and
/// nothing else changes.
pub proof fn remote_settings_are_taken(c: ConnectionView, s: Settings)
    ensures
        ({
            let after = connection::with_remote_settings(c, s);
            let t = after.encoder_table;
            &&& after.remote_settings == Some(s)
            &&& after == (ConnectionView { remote_settings: Some(s), encoder_table: t, ..c })
            &&& t.max_capacity == (if s.qpack_max_table_capacity as usize <= 1073741823 {
                s.qpack_max_table_capacity as usize as nat
            } else {
                c.encoder_table.max_capacity
            })
            &&& t.capacity == (if s.qpack_max_table_capacity as usize <= 1073741823 {
                s.qpack_max_table_capacity as usize as nat
            } else {
                c.encoder_table.capacity
            })
            &&& t.max_blocked == (if s.qpack_blocked_streams as usize <= 65535 {
                s.qpack_blocked_streams as usize as nat
            } else {
                c.encoder_table.max_blocked
            })
            &&& if s.qpack_max_table_capacity as usize <= 1073741823 {
                qpack::wire::makes_room(
                    c.encoder_table,
                    t,
                    s.qpack_max_table_capacity as usize as nat,
                )
            } else {
                t.fields == c.encoder_table.fields && t.dropped == c.encoder_table.dropped
            }
            &&& t.known_received == c.encoder_table.known_received
            &&& t.sections == c.encoder_table.sections
        }),
{
    qpack::wire::maximum_is_taken(c.encoder_table, s.qpack_max_table_capacity as usize as nat);
}

/// A header is refused exactly if the peer has announced a limit and it has more fields than
/// that; then nothing changes. Otherwise it is encoded for its stream, and what the encoder has
/// to say goes after what is still to be sent.
pub proof fn header_is_encoded(c: ConnectionView, stream: StreamId, fields: Seq<FieldView>)
    ensures
        ({
            let (r, after) = connection::encoding(c, stream, fields);
            let b = qpack::encoder::encoded(c.encoder_table, stream.0, fields);
            if c.remote_settings is Some && fields.len() > c.remote_settings->0.max_header_list_size {
                r == Err::<(nat, Seq<u8>), ErrorView>(ErrorView::HeaderListTooLarge) && after == c
            } else {
                &&& r == Ok::<(nat, Seq<u8>), ErrorView>((b.required, b.block))
                &&& after == (ConnectionView {
                    encoder_table: b.table,
                    pending_encoder: c.pending_encoder + b.instructions,
                    ..c
                })
            }
        }),
{
}

/// The limit that a peer announces is heeded from the moment that it is known: a header with more
/// fields is refused, and one with as many or fewer is not.
pub proof fn announced_limit_is_heeded(
    c: ConnectionView,
    s: Settings,
    stream: StreamId,
    fields: Seq<FieldView>,
)
    ensures
        connection::encoding(connection::with_remote_settings(c, s), stream, fields).0 == Err::<
            (nat, Seq<u8>),
            ErrorView,
        >(ErrorView::HeaderListTooLarge) <==> fields.len() > s.max_header_list_size,
{
}

/// A header block that waits, or that cannot be decoded, changes nothing. One that is decoded is
/// acknowledged for its stream, whether or not its fields make up a header; the header is what
/// they make up.
pub proof fn header_is_decoded(c: ConnectionView, stream: StreamId, block: Seq<u8>)
    ensures
        ({
            let (r, after) = connection::decoding(c, stream, block);
            match qpack::decoder::block_fields(c.decoder_table, block) {
                Err(DecoderError::MissingRefs(n)) => r == Ok::<DecodeView, ErrorView>(
                    DecodeView::MissingRefs(n),
                ) && after == c,
                Err(e) => r == Err::<DecodeView, ErrorView>(ErrorView::Decode(e)) && after == c,
                Ok(fields) => {
                    &&& after == (ConnectionView {
                        pending_decoder: c.pending_decoder + qpack::decoder::ack_bytes(stream.0),
                        ..c
                    })
                    &&& match headers::parse(fields) {
                        Ok(h) => r == Ok::<DecodeView, ErrorView>(DecodeView::Decoded(h)),
                        Err(_) => r is Err,
                    }
                },
            }
        }),
{
}

/// How the faults of a header are told: an invalid name or value by its bytes, an invalid method
/// by what the method parser says.
pub proof fn faults_in_words(c: ConnectionView, stream: StreamId, block: Seq<u8>, fields: Seq<
    FieldView,
>)
    requires
        qpack::decoder::block_fields(c.decoder_table, block) == Ok::<Seq<FieldView>, DecoderError>(
            fields,
        ),
    ensures
        ({
            let r = connection::decoding(c, stream, block).0;
            match headers::parse(fields) {
                Ok(_) => r is Ok,
                Err(Fault::Name(name)) => r == Err::<DecodeView, ErrorView>(
                    ErrorView::InvalidHeaderName(text::list_text(name)),
                ),
                Err(Fault::Value(name, value)) => r == Err::<DecodeView, ErrorView>(
                    ErrorView::InvalidHeaderValue(
                        text::list_text(name) + seq![' '] + text::list_text(value),
                    ),
                ),
                Err(Fault::Method) => r == Err::<DecodeView, ErrorView>(
                    ErrorView::InvalidRequest("InvalidMethod"@),
                ),
            }
        }),
{
    reveal_strlit(" ");
    assert(" "@ == seq![' ']);
}

/// An error about a header tells the same on a connection; what is missing is told in words.
pub proof fn header_errors_in_words(s: String)
    ensures
        connection::header_error(headers::Error::MissingMethod) == ErrorView::InvalidRequest(
            "missing method"@,
        ),
        connection::header_error(headers::Error::MissingStatus) == ErrorView::InvalidResponse(
            "missing status"@,
        ),
        connection::header_error(headers::Error::InvalidHeaderName(s))
            == ErrorView::InvalidHeaderName(s@),
        connection::header_error(headers::Error::InvalidHeaderValue(s))
            == ErrorView::InvalidHeaderValue(s@),
        connection::header_error(headers::Error::InvalidRequest(s)) == ErrorView::InvalidRequest(
            s@,
        ),
{
}

/// Bytes of the encoder stream change the table as the instructions in them say, and new
/// insertions are confirmed after what is still to be sent; if an instruction is invalid, nothing
/// is confirmed. The number that is given back is that of all insertions so far, and the complete
/// instructions are taken off the bytes.
pub proof fn encoder_bytes_are_taken(c: ConnectionView, s: Seq<u8>)
    ensures
        ({
            let (table, used, r) = qpack::decoder::run(c.decoder_table, s);
            let after = connection::after_encoder_bytes(c, s);
            match r {
                Ok(_) => {
                    &&& connection::encoder_bytes(c, s) == (
                        Ok::<nat, ErrorView>(table.dropped + table.fields.len()),
                        s.skip(used as int),
                    )
                    &&& after == (ConnectionView {
                        decoder_table: table,
                        pending_decoder: c.pending_decoder + qpack::decoder::confirmation(
                            c.decoder_table.dropped + c.decoder_table.fields.len(),
                            table.dropped + table.fields.len(),
                        ),
                        ..c
                    })
                },
                Err(e) => {
                    &&& connection::encoder_bytes(c, s) == (
                        Err::<nat, ErrorView>(ErrorView::Decode(e)),
                        s,
                    )
                    &&& after == (ConnectionView { decoder_table: table, ..c })
                },
            }
        }),
{
}

/// Bytes of the decoder stream change the table as the reports in them say, and nothing else. The
/// complete reports are taken off the bytes, unless one is invalid.
pub proof fn decoder_bytes_are_taken(c: ConnectionView, s: Seq<u8>)
    ensures
        ({
            let (table, used, r) = qpack::encoder::run(c.encoder_table, s);
            let (outcome, left, after) = connection::decoder_bytes(c, s);
            &&& after == (ConnectionView { encoder_table: table, ..c })
            &&& match r {
                Ok(_) => outcome == Ok::<(), ErrorView>(()) && left == s.skip(used as int),
                Err(e) => outcome == Err::<(), ErrorView>(ErrorView::Encode(e)) && left == s,
            }
        }),
{
}

/// What is to be sent on a stream is handed out whole, once; then there is nothing more for that
/// stream, and the others keep what they have.
pub proof fn pending_is_handed_out(c: ConnectionView, r: Option<Bytes>, bytes: Seq<u8>)
    ensures
        connection::hands_out(r, bytes) <==> match r {
            Some(b) => bytes.len() > 0 && buffer::frozen(b) == bytes,
            None => bytes.len() == 0,
        },
        connection::control_sent(c) == (ConnectionView { pending_control: Seq::empty(), ..c }),
        connection::encoder_sent(c) == (ConnectionView { pending_encoder: Seq::empty(), ..c }),
        connection::decoder_sent(c) == (ConnectionView { pending_decoder: Seq::empty(), ..c }),
{
}

/// A model keeps everything that an error or a result tells.
pub proof fn models_are_faithful(e: Error, r: Result<DecodeResult, Error>)
    ensures
        e@ == (match e {
            Error::HeaderListTooLarge => ErrorView::HeaderListTooLarge,
            Error::InvalidHeaderName(s) => ErrorView::InvalidHeaderName(s@),
            Error::InvalidHeaderValue(s) => ErrorView::InvalidHeaderValue(s@),
            Error::InvalidRequest(s) => ErrorView::InvalidRequest(s@),
            Error::InvalidResponse(s) => ErrorView::InvalidResponse(s@),
            Error::Settings { reason } => ErrorView::Settings(reason@),
            Error::EncodeError { reason } => ErrorView::Encode(reason),
            Error::DecodeError { reason } => ErrorView::Decode(reason),
        }),
        connection::decoding_model(r) == (match r {
            Ok(DecodeResult::Decoded(h)) => Ok(DecodeView::Decoded(h@)),
            Ok(DecodeResult::MissingRefs(n)) => Ok(DecodeView::MissingRefs(n)),
            Err(err) => Err(err@),
        }),
{
}

/// So do the models of what encoding a header and reading the streams of the peer come to.
pub proof fn result_models_are_faithful(
    encoded: Result<(usize, HeadersFrame), Error>,
    inserted: Result<usize, Error>,
    heeded: Result<(), Error>,
)
    ensures
        match encoded {
            Ok((required, frame)) => connection::encoding_model(encoded) == Ok::<
                (nat, Seq<u8>),
                ErrorView,
            >((required as nat, buffer::frozen(frame.encoded))),
            Err(e) => connection::encoding_model(encoded) == Err::<(nat, Seq<u8>), ErrorView>(e@),
        },
        match inserted {
            Ok(n) => connection::inserted_model(inserted) == Ok::<nat, ErrorView>(n as nat),
            Err(e) => connection::inserted_model(inserted) == Err::<nat, ErrorView>(e@),
        },
        match heeded {
            Ok(_) => connection::heeded_model(heeded) == Ok::<(), ErrorView>(()),
            Err(e) => connection::heeded_model(heeded) == Err::<(), ErrorView>(e@),
        },
{
}

} // verus!
