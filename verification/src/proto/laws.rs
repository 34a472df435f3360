//! What holds between the two ends of a connection.

use vstd::prelude::*;

use crate::proto::connection::ConnectionView;
use crate::proto::headers::{Fault, HeaderView};
use crate::proto::settings::Settings;
use crate::qpack::{DecoderError, FieldView};
use crate::{qpack, StreamId};

use super::connection;
use super::frame;
use super::frame::{FrameError, FrameView};
use super::headers;
use super::headers::Uri;
use super::settings;

verus! {

/// The settings that a new connection announces are what its peer reads, whatever follows them.
pub proof fn announced_settings_read_back(s: Settings, rest: Seq<u8>)
    requires
        connection::settings_refusal(s) is None,
        settings::writable(s),
    ensures
        frame::parse(connection::opened(s).pending_control + rest) == Ok::<
            (Option<FrameView>, nat),
            FrameError,
        >((Some(FrameView::Settings(s)), connection::opened(s).pending_control.len())),
{
    frame::settings_round_trip(s, rest);
}

/// Whether the decoder of one end will be in step with the encoder of the other end, once it has
/// taken everything that is still to be sent.
pub open spec fn in_step(sender: ConnectionView, receiver: ConnectionView) -> bool {
    let (table, used, r) = qpack::decoder::run(receiver.decoder_table, sender.pending_encoder);
    &&& r is Ok
    &&& used == sender.pending_encoder.len()
    &&& table.wf()
    &&& sender.encoder_table.wf()
    &&& qpack::laws::in_sync(sender.encoder_table, table)
}

/// Two new connections are in step once the settings have arrived.
pub proof fn settings_bring_in_step(ours: Settings, theirs: Settings)
    requires
        connection::settings_refusal(theirs) is None,
    ensures
        in_step(
            connection::with_remote_settings(connection::opened(ours), theirs),
            connection::opened(theirs),
        ),
        connection::with_remote_settings(
            connection::opened(ours),
            theirs,
        ).encoder_table.max_blocked == theirs.qpack_blocked_streams as usize,
{
    let a = connection::with_remote_settings(connection::opened(ours), theirs);
    let b = connection::opened(theirs);
    reveal(qpack::decoder::parse_instruction);
    assert(qpack::decoder::run(b.decoder_table, Seq::<u8>::empty()) == (
        b.decoder_table,
        0nat,
        Ok::<(), DecoderError>(()),
    ));
    assert(a.encoder_table.fields == b.decoder_table.fields);
    assert(qpack::dynamic::mem(b.decoder_table.fields) == 0);
}

/// Encoding a header keeps both ends in step.
pub proof fn encoding_keeps_in_step(
    sender: ConnectionView,
    receiver: ConnectionView,
    stream: StreamId,
    fields: Seq<FieldView>,
)
    requires
        in_step(sender, receiver),
        forall|i: int| 0 <= i < fields.len() ==> #[trigger] qpack::laws::writable(fields[i]),
    ensures
        in_step(connection::after_encoding(sender, stream, fields), receiver),
        ({
            let after = connection::after_encoding(sender, stream, fields);
            let arrived = connection::after_encoder_bytes(receiver, after.pending_encoder);
            qpack::decoder::block_fields(
                arrived.decoder_table,
                qpack::encoder::encoded(sender.encoder_table, stream.0, fields).block,
            ) == Ok::<Seq<FieldView>, DecoderError>(fields)
        }),
{
    let old_bytes = sender.pending_encoder;
    let b = qpack::encoder::encoded(sender.encoder_table, stream.0, fields);
    let (mid, used, r) = qpack::decoder::run(receiver.decoder_table, old_bytes);
    qpack::laws::decode_gives_back(sender.encoder_table, mid, stream.0, fields);
    qpack::laws::encoder_stream_in_pieces(receiver.decoder_table, old_bytes, b.instructions);
    assert(old_bytes.skip(used as int) + b.instructions == b.instructions);
    qpack::encoder::encoded_wf(sender.encoder_table, stream.0, fields);
}

/// Sending what is to be sent keeps both ends in step.
pub proof fn sending_keeps_in_step(sender: ConnectionView, receiver: ConnectionView)
    requires
        in_step(sender, receiver),
    ensures
        in_step(
            ConnectionView { pending_encoder: Seq::empty(), ..sender },
            connection::after_encoder_bytes(receiver, sender.pending_encoder),
        ),
{
    let table = qpack::decoder::run(receiver.decoder_table, sender.pending_encoder).0;
    reveal(qpack::decoder::parse_instruction);
    assert(qpack::decoder::run(table, Seq::<u8>::empty()) == (
        table,
        0nat,
        Ok::<(), DecoderError>(()),
    ));
}

/// A header that is sent is the header that is received: after the instructions that come with
/// it, its block reads as the fields that make it up, and these as the header.
pub proof fn header_round_trip(
    sender: ConnectionView,
    receiver: ConnectionView,
    stream: StreamId,
    h: HeaderView,
)
    requires
        in_step(sender, receiver),
        headers::valid(h),
        forall|i: int|
            0 <= i < headers::list(h).len() ==> #[trigger] qpack::laws::writable(
                headers::list(h)[i],
            ),
    ensures
        ({
            let fields = headers::list(h);
            let after = connection::after_encoding(sender, stream, fields);
            let arrived = connection::after_encoder_bytes(receiver, after.pending_encoder);
            let block = qpack::encoder::encoded(sender.encoder_table, stream.0, fields).block;
            &&& qpack::decoder::block_fields(arrived.decoder_table, block) == Ok::<
                Seq<FieldView>,
                DecoderError,
            >(fields)
            &&& headers::parse(fields) == Ok::<HeaderView, Fault>(h)
        }),
{
    encoding_keeps_in_step(sender, receiver, stream, headers::list(h));
    headers::parse_gives_back(h);
}

/// Without a dynamic table nothing needs to arrive first: an end that has not seen the settings
/// of its peer sends no instructions, and every peer reads its headers.
pub proof fn header_without_settings(
    ours: Settings,
    receiver: ConnectionView,
    stream: StreamId,
    h: HeaderView,
)
    requires
        receiver.decoder_table.wf(),
        headers::valid(h),
        forall|i: int|
            0 <= i < headers::list(h).len() ==> #[trigger] qpack::laws::writable(
                headers::list(h)[i],
            ),
    ensures
        ({
            let sender = connection::opened(ours);
            let fields = headers::list(h);
            let b = qpack::encoder::encoded(sender.encoder_table, stream.0, fields);
            &&& b.required == 0
            &&& connection::after_encoding(sender, stream, fields).pending_encoder.len() == 0
            &&& qpack::decoder::block_fields(receiver.decoder_table, b.block) == Ok::<
                Seq<FieldView>,
                DecoderError,
            >(fields)
            &&& headers::parse(fields) == Ok::<HeaderView, Fault>(h)
        }),
{
    let e = connection::new_table();
    assert(qpack::dynamic::mem(e.fields) == 0);
    qpack::laws::nothing_inserted_without_capacity(e, stream.0, headers::list(h));
    qpack::laws::decode_without_table(e, receiver.decoder_table, stream.0, headers::list(h));
    headers::parse_gives_back(h);
}

/// The acknowledgment of a header is accepted by the end that encoded it.
pub proof fn acknowledgment_is_accepted(
    sender: ConnectionView,
    receiver: ConnectionView,
    stream: StreamId,
    fields: Seq<FieldView>,
)
    requires
        receiver.pending_decoder.len() == 0,
    ensures
        ({
            let after = connection::after_encoding(sender, stream, fields);
            let acknowledged = connection::after_decoding(receiver, stream);
            let (table, used, r) = qpack::encoder::run(
                after.encoder_table,
                acknowledged.pending_decoder,
            );
            &&& r is Ok
            &&& used == acknowledged.pending_decoder.len()
            &&& table.sections.len() == after.encoder_table.sections.len() - 1
        }),
{
    let ack = qpack::decoder::ack_bytes(stream.0);
    assert(receiver.pending_decoder + ack == ack);
    qpack::laws::acknowledgment_accepted(sender.encoder_table, stream.0, fields);
}

/// Whether the parts of a request are what the protocol allows.
pub open spec fn valid_request(method: Seq<u8>, uri: Uri, fields: Seq<FieldView>) -> bool {
    &&& crate::http_syntax::is_method(method)
    &&& uri.scheme matches Some(v) ==> crate::http_syntax::is_value(v@)
    &&& uri.authority matches Some(v) ==> crate::http_syntax::is_value(v@)
    &&& crate::http_syntax::is_value(uri.path@)
    &&& forall|i: int|
        0 <= i < fields.len() ==> crate::http_syntax::is_name((#[trigger] fields[i]).0)
            && crate::http_syntax::is_value(fields[i].1)
}

/// The header of a request with valid parts reads back from its fields.
pub proof fn request_reads_back(method: Seq<u8>, uri: Uri, fields: Seq<FieldView>)
    requires
        valid_request(method, uri, fields),
    ensures
        headers::parse(headers::list(headers::request_header(method, uri, fields))) == Ok::<
            HeaderView,
            Fault,
        >(headers::request_header(method, uri, fields)),
{
    reveal_strlit("https");
    reveal_strlit("/");
    vstd::utf8::is_ascii_chars_encode_utf8("https"@);
    vstd::utf8::is_ascii_chars_encode_utf8("/"@);
    headers::parse_gives_back(headers::request_header(method, uri, fields));
}

} // verus!
