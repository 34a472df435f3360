//! The state of a connection that does not depend on the transport.

use bytes::{Bytes, BytesMut};
use vstd::prelude::*;

use crate::buffer;
use crate::qpack::dynamic::{DynamicTable, TableView};
use crate::qpack::{
    decoder, dynamic, encoder, DecoderError, DynamicTableError, EncoderError, FieldView,
};
use crate::{text, StreamId};

use super::frame::HeadersFrame;
use super::headers::{Fault, Header, HeaderView};
use super::settings::Settings;
use super::{frame, headers, settings};

verus! {

/// What became of a header block.
#[derive(Debug)]
pub enum DecodeResult {
    /// It was decoded.
    Decoded(Header),
    /// It waits for this number of insertions in the dynamic table.
    MissingRefs(usize),
}

/// What can go wrong on a connection.
#[derive(Debug, PartialEq)]
pub enum Error {
    HeaderListTooLarge,
    InvalidHeaderName(String),
    InvalidHeaderValue(String),
    InvalidRequest(String),
    InvalidResponse(String),
    Settings { reason: String },
    EncodeError { reason: EncoderError },
    DecodeError { reason: DecoderError },
}

/// The model of an error.
pub enum ErrorView {
    HeaderListTooLarge,
    InvalidHeaderName(Seq<char>),
    InvalidHeaderValue(Seq<char>),
    InvalidRequest(Seq<char>),
    InvalidResponse(Seq<char>),
    Settings(Seq<char>),
    Encode(EncoderError),
    Decode(DecoderError),
}

impl View for Error {
    type V = ErrorView;

    open spec fn view(&self) -> ErrorView {
        match self {
            Error::HeaderListTooLarge => ErrorView::HeaderListTooLarge,
            Error::InvalidHeaderName(s) => ErrorView::InvalidHeaderName(s@),
            Error::InvalidHeaderValue(s) => ErrorView::InvalidHeaderValue(s@),
            Error::InvalidRequest(s) => ErrorView::InvalidRequest(s@),
            Error::InvalidResponse(s) => ErrorView::InvalidResponse(s@),
            Error::Settings { reason } => ErrorView::Settings(reason@),
            Error::EncodeError { reason } => ErrorView::Encode(*reason),
            Error::DecodeError { reason } => ErrorView::Decode(*reason),
        }
    }
}

impl From<EncoderError> for Error {
    fn from(err: EncoderError) -> (r: Error) {
        Error::EncodeError { reason: err }
    }
}

impl vstd::std_specs::convert::FromSpecImpl<EncoderError> for Error {
    open spec fn obeys_from_spec() -> bool {
        true
    }

    open spec fn from_spec(err: EncoderError) -> Error {
        Error::EncodeError { reason: err }
    }
}

impl From<DecoderError> for Error {
    fn from(err: DecoderError) -> (r: Error) {
        Error::DecodeError { reason: err }
    }
}

impl vstd::std_specs::convert::FromSpecImpl<DecoderError> for Error {
    open spec fn obeys_from_spec() -> bool {
        true
    }

    open spec fn from_spec(err: DecoderError) -> Error {
        Error::DecodeError { reason: err }
    }
}

/// How a refusal of the dynamic table is told.
pub open spec fn refusal_text(err: DynamicTableError) -> Seq<char> {
    "dynamic table error: "@ + (match err {
        DynamicTableError::MaxTableSizeReached => "max table size reached"@,
        DynamicTableError::MaximumTableSizeTooLarge => "maximum table size too large"@,
        DynamicTableError::MaxBlockedStreamsTooLarge => "max blocked streams too large"@,
    })
}

impl From<DynamicTableError> for Error {
    fn from(err: DynamicTableError) -> (r: Error)
        ensures
            r@ == ErrorView::Settings(refusal_text(err)),
    {
        let what = match err {
            DynamicTableError::MaxTableSizeReached => "max table size reached",
            DynamicTableError::MaximumTableSizeTooLarge => "maximum table size too large",
            DynamicTableError::MaxBlockedStreamsTooLarge => "max blocked streams too large",
        };
        Error::Settings { reason: text::join("dynamic table error: ", what) }
    }
}

impl vstd::std_specs::convert::FromSpecImpl<DynamicTableError> for Error {
    open spec fn obeys_from_spec() -> bool {
        false
    }

    open spec fn from_spec(err: DynamicTableError) -> Error {
        arbitrary()
    }
}

/// What an error about a header is on a connection.
pub open spec fn header_error(err: headers::Error) -> ErrorView {
    match err {
        headers::Error::InvalidHeaderName(s) => ErrorView::InvalidHeaderName(s@),
        headers::Error::InvalidHeaderValue(s) => ErrorView::InvalidHeaderValue(s@),
        headers::Error::InvalidRequest(s) => ErrorView::InvalidRequest(s@),
        headers::Error::MissingMethod => ErrorView::InvalidRequest("missing method"@),
        headers::Error::MissingStatus => ErrorView::InvalidResponse("missing status"@),
    }
}

/// What a fault of a header is on a connection.
pub open spec fn fault_error(fault: Fault) -> ErrorView {
    match fault {
        Fault::Name(name) => ErrorView::InvalidHeaderName(text::list_text(name)),
        Fault::Value(name, value) => ErrorView::InvalidHeaderValue(
            text::list_text(name) + " "@ + text::list_text(value),
        ),
        Fault::Method => ErrorView::InvalidRequest("InvalidMethod"@),
    }
}

impl From<headers::Error> for Error {
    fn from(err: headers::Error) -> (r: Error)
        ensures
            r@ == header_error(err),
    {
        match err {
            headers::Error::InvalidHeaderName(s) => Error::InvalidHeaderName(s),
            headers::Error::InvalidHeaderValue(s) => Error::InvalidHeaderValue(s),
            headers::Error::InvalidRequest(s) => Error::InvalidRequest(s),
            headers::Error::MissingMethod => Error::InvalidRequest("missing method".to_owned()),
            headers::Error::MissingStatus => Error::InvalidResponse("missing status".to_owned()),
        }
    }
}

impl vstd::std_specs::convert::FromSpecImpl<headers::Error> for Error {
    open spec fn obeys_from_spec() -> bool {
        false
    }

    open spec fn from_spec(err: headers::Error) -> Error {
        arbitrary()
    }
}

/// The state of a connection.
#[derive(Debug)]
pub struct Connection {
    pub local_settings: Settings,
    pub remote_settings: Option<Settings>,
    pub decoder_table: DynamicTable,
    pub encoder_table: DynamicTable,
    pub pending_encoder: BytesMut,
    pub pending_decoder: BytesMut,
    pub pending_control: BytesMut,
}

/// The model of a connection.
pub struct ConnectionView {
    /// What this end announces.
    pub local_settings: Settings,
    /// What the peer announced.
    pub remote_settings: Option<Settings>,
    /// The dynamic table for headers from the peer.
    pub decoder_table: TableView,
    /// The dynamic table for headers to the peer.
    pub encoder_table: TableView,
    /// What is to be sent on the encoder stream.
    pub pending_encoder: Seq<u8>,
    /// What is to be sent on the decoder stream.
    pub pending_decoder: Seq<u8>,
    /// What is to be sent on the control stream.
    pub pending_control: Seq<u8>,
}

impl View for Connection {
    type V = ConnectionView;

    open spec fn view(&self) -> ConnectionView {
        ConnectionView {
            local_settings: self.local_settings,
            remote_settings: self.remote_settings,
            decoder_table: self.decoder_table@,
            encoder_table: self.encoder_table@,
            pending_encoder: buffer::buffered(self.pending_encoder),
            pending_decoder: buffer::buffered(self.pending_decoder),
            pending_control: buffer::buffered(self.pending_control),
        }
    }
}

/// A dynamic table as it is at first.
pub open spec fn new_table() -> TableView {
    TableView {
        fields: Seq::empty(),
        dropped: 0,
        capacity: 0,
        max_capacity: 0,
        max_blocked: 0,
        known_received: 0,
        sections: Seq::empty(),
    }
}

/// A connection with the given settings, of which nothing is to be sent.
pub open spec fn idle(settings: Settings) -> ConnectionView {
    ConnectionView {
        local_settings: settings,
        remote_settings: None,
        decoder_table: new_table(),
        encoder_table: new_table(),
        pending_encoder: Seq::empty(),
        pending_decoder: Seq::empty(),
        pending_control: Seq::empty(),
    }
}

/// A connection with the given settings, which are to be announced.
pub open spec fn opened(settings: Settings) -> ConnectionView {
    ConnectionView {
        decoder_table: TableView {
            capacity: settings.qpack_max_table_capacity as usize as nat,
            max_capacity: settings.qpack_max_table_capacity as usize as nat,
            max_blocked: settings.qpack_blocked_streams as usize as nat,
            ..new_table()
        },
        pending_control: frame::frame_bytes(frame::SETTINGS, settings::payload(settings)),
        ..idle(settings)
    }
}

/// Why settings cannot be announced.
pub open spec fn settings_refusal(settings: Settings) -> Option<Seq<char>> {
    if settings.qpack_blocked_streams as usize > dynamic::MAX_BLOCKED {
        Some(refusal_text(DynamicTableError::MaxBlockedStreamsTooLarge))
    } else if settings.qpack_max_table_capacity as usize > dynamic::MAX_CAPACITY {
        Some(refusal_text(DynamicTableError::MaximumTableSizeTooLarge))
    } else {
        None
    }
}

/// Whether a header has more fields than the peer takes.
pub open spec fn too_large(c: ConnectionView, fields: Seq<FieldView>) -> bool {
    c.remote_settings matches Some(s) && fields.len() > s.max_header_list_size
}

/// The connection after a header was encoded.
pub open spec fn after_encoding(
    c: ConnectionView,
    stream: StreamId,
    fields: Seq<FieldView>,
) -> ConnectionView {
    let b = encoder::encoded(c.encoder_table, stream.0, fields);
    ConnectionView {
        encoder_table: b.table,
        pending_encoder: c.pending_encoder + b.instructions,
        ..c
    }
}

/// The connection after a header block was decoded.
pub open spec fn after_decoding(c: ConnectionView, stream: StreamId) -> ConnectionView {
    ConnectionView { pending_decoder: c.pending_decoder + decoder::ack_bytes(stream.0), ..c }
}

/// Whether a result of decoding tells what the fields of a block make up.
pub open spec fn decodes_to(
    r: Result<DecodeResult, Error>,
    parsed: Result<HeaderView, Fault>,
) -> bool {
    match parsed {
        Ok(h) => r matches Ok(DecodeResult::Decoded(header)) && header@ == h,
        Err(fault) => r matches Err(e) && e@ == fault_error(fault),
    }
}

/// A table, or what it was before if the change was refused.
pub open spec fn or_same(
    r: Result<TableView, DynamicTableError>,
    t: TableView,
) -> TableView {
    match r {
        Ok(n) => n,
        Err(_) => t,
    }
}

/// The connection after the peer's settings arrived. What the dynamic table refuses of them is
/// without effect on it.
pub open spec fn with_remote_settings(c: ConnectionView, s: Settings) -> ConnectionView {
    let sized = or_same(
        c.encoder_table.with_max_mem_size(s.qpack_max_table_capacity as usize as nat),
        c.encoder_table,
    );
    ConnectionView {
        remote_settings: Some(s),
        encoder_table: or_same(
            sized.with_max_blocked(s.qpack_blocked_streams as usize as nat),
            sized,
        ),
        ..c
    }
}

/// The connection after bytes arrived on the encoder stream.
pub open spec fn after_encoder_bytes(c: ConnectionView, s: Seq<u8>) -> ConnectionView {
    let (table, _, r) = decoder::run(c.decoder_table, s);
    ConnectionView {
        decoder_table: table,
        pending_decoder: if r is Ok {
            c.pending_decoder + decoder::confirmation(c.decoder_table.inserted(), table.inserted())
        } else {
            c.pending_decoder
        },
        ..c
    }
}

/// What encoding a header gives, the required insertions and the block, and the connection after
/// it.
pub open spec fn encoding(c: ConnectionView, stream: StreamId, fields: Seq<FieldView>) -> (
    Result<(nat, Seq<u8>), ErrorView>,
    ConnectionView,
) {
    if too_large(c, fields) {
        (Err(ErrorView::HeaderListTooLarge), c)
    } else {
        let b = encoder::encoded(c.encoder_table, stream.0, fields);
        (Ok((b.required, b.block)), after_encoding(c, stream, fields))
    }
}

/// The model of what encoding a header gives.
pub open spec fn encoding_model(r: Result<(usize, HeadersFrame), Error>) -> Result<
    (nat, Seq<u8>),
    ErrorView,
> {
    match r {
        Ok((required, frame)) => Ok((required as nat, buffer::frozen(frame.encoded))),
        Err(e) => Err(e@),
    }
}

/// What became of a header block.
pub enum DecodeView {
    /// It was decoded.
    Decoded(HeaderView),
    /// It waits for this number of insertions.
    MissingRefs(usize),
}

/// What decoding a header block gives, and the connection after it.
pub open spec fn decoding(c: ConnectionView, stream: StreamId, block: Seq<u8>) -> (
    Result<DecodeView, ErrorView>,
    ConnectionView,
) {
    match decoder::block_fields(c.decoder_table, block) {
        Err(DecoderError::MissingRefs(n)) => (Ok(DecodeView::MissingRefs(n)), c),
        Err(e) => (Err(ErrorView::Decode(e)), c),
        Ok(fields) => (
            match headers::parse(fields) {
                Ok(h) => Ok(DecodeView::Decoded(h)),
                Err(fault) => Err(fault_error(fault)),
            },
            after_decoding(c, stream),
        ),
    }
}

/// The model of what decoding a header block gives.
pub open spec fn decoding_model(r: Result<DecodeResult, Error>) -> Result<DecodeView, ErrorView> {
    match r {
        Ok(DecodeResult::Decoded(h)) => Ok(DecodeView::Decoded(h@)),
        Ok(DecodeResult::MissingRefs(n)) => Ok(DecodeView::MissingRefs(n)),
        Err(e) => Err(e@),
    }
}

/// What bytes on the encoder stream give: the insertions so far, and what is left of the bytes.
pub open spec fn encoder_bytes(c: ConnectionView, s: Seq<u8>) -> (Result<nat, ErrorView>, Seq<u8>) {
    let (table, used, r) = decoder::run(c.decoder_table, s);
    match r {
        Ok(_) => (Ok(table.inserted()), s.skip(used as int)),
        Err(e) => (Err(ErrorView::Decode(e)), s),
    }
}

/// The model of what bytes on the encoder stream give.
pub open spec fn inserted_model(r: Result<usize, Error>) -> Result<nat, ErrorView> {
    match r {
        Ok(n) => Ok(n as nat),
        Err(e) => Err(e@),
    }
}

/// What bytes on the decoder stream give, what is left of them, and the connection after them.
pub open spec fn decoder_bytes(c: ConnectionView, s: Seq<u8>) -> (
    Result<(), ErrorView>,
    Seq<u8>,
    ConnectionView,
) {
    let (table, used, r) = encoder::run(c.encoder_table, s);
    let after = ConnectionView { encoder_table: table, ..c };
    match r {
        Ok(_) => (Ok(()), s.skip(used as int), after),
        Err(e) => (Err(ErrorView::Encode(e)), s, after),
    }
}

/// The model of what bytes on the decoder stream give.
pub open spec fn heeded_model(r: Result<(), Error>) -> Result<(), ErrorView> {
    match r {
        Ok(_) => Ok(()),
        Err(e) => Err(e@),
    }
}

/// The connection after everything for the control stream was handed out.
pub open spec fn control_sent(c: ConnectionView) -> ConnectionView {
    ConnectionView { pending_control: Seq::empty(), ..c }
}

/// The connection after everything for the encoder stream was handed out.
pub open spec fn encoder_sent(c: ConnectionView) -> ConnectionView {
    ConnectionView { pending_encoder: Seq::empty(), ..c }
}

/// The connection after everything for the decoder stream was handed out.
pub open spec fn decoder_sent(c: ConnectionView) -> ConnectionView {
    ConnectionView { pending_decoder: Seq::empty(), ..c }
}

/// What is to be sent, if there is anything.
fn take_pending(pending: &mut BytesMut) -> (r: Option<Bytes>)
    ensures
        buffer::buffered(*final(pending)) == Seq::<u8>::empty(),
        match r {
            Some(b) => buffer::frozen(b) == buffer::buffered(*old(pending)) && buffer::frozen(
                b,
            ).len() > 0,
            None => buffer::buffered(*old(pending)).len() == 0,
        },
{
    if pending.is_empty() {
        assert(buffer::buffered(*pending) == Seq::<u8>::empty());
        return None;
    }
    Some(pending.take().freeze())
}

/// Whether a result hands out all of `bytes`, or nothing if there are none.
pub open spec fn hands_out(r: Option<Bytes>, bytes: Seq<u8>) -> bool {
    match r {
        Some(b) => bytes.len() > 0 && buffer::frozen(b) == bytes,
        None => bytes.len() == 0,
    }
}

impl Connection {
    /// Whether the connection is in a state that its operations can reach.
    pub open spec fn wf(&self) -> bool {
        self.decoder_table.wf() && self.encoder_table.wf()
    }

    /// A connection with the given settings, which are to be announced.
    pub fn with_settings(settings: Settings) -> (r: Result<Connection, Error>)
        requires
            settings_refusal(settings) is None ==> settings::writable(settings),
        ensures
            match settings_refusal(settings) {
                None => r matches Ok(c) && c.wf() && c@ == opened(settings),
                Some(why) => r matches Err(e) && e@ == ErrorView::Settings(why),
            },
    {
        let mut decoder_table = DynamicTable::new();
        match decoder_table.set_max_blocked(settings.qpack_blocked_streams as usize) {
            Ok(_) => {},
            Err(e) => {
                return Err(Error::from(e));
            },
        }
        match decoder_table.set_max_mem_size(settings.qpack_max_table_capacity as usize) {
            Ok(_) => {},
            Err(e) => {
                return Err(Error::from(e));
            },
        }
        let mut pending_control = BytesMut::with_capacity(128);
        settings.encode(&mut pending_control);
        let c = Connection {
            local_settings: settings,
            remote_settings: None,
            decoder_table,
            encoder_table: DynamicTable::new(),
            pending_encoder: BytesMut::with_capacity(2048),
            pending_decoder: BytesMut::with_capacity(2048),
            pending_control,
        };
        proof {
            assert(c@.decoder_table.fields == Seq::<FieldView>::empty());
            assert(c@.pending_control == opened(settings).pending_control);
        }
        Ok(c)
    }

    /// Encodes a header for `stream_id`. The result is the number of insertions that the peer
    /// needs to have seen, and the frame.
    pub fn encode_header(&mut self, stream_id: StreamId, headers: Header) -> (r: Result<
        (usize, HeadersFrame),
        Error,
    >)
        requires
            old(self).wf(),
        ensures
            (encoding_model(r), final(self)@) == encoding(
                old(self)@,
                stream_id,
                headers::list(headers@),
            ),
            final(self).wf(),
            if too_large(old(self)@, headers::list(headers@)) {
                r == Err::<(usize, HeadersFrame), Error>(Error::HeaderListTooLarge) && final(self)@ == old(self)@
            } else {
                let b = encoder::encoded(
                    old(self)@.encoder_table,
                    stream_id.0,
                    headers::list(headers@),
                );
                r matches Ok((required, frame)) && required == b.required && buffer::frozen(
                    frame.encoded,
                ) == b.block && final(self)@ == after_encoding(
                    old(self)@,
                    stream_id,
                    headers::list(headers@),
                )
            },
    {
        if let Some(s) = &self.remote_settings {
            if headers.len() > s.max_header_list_size as u128 {
                return Err(Error::HeaderListTooLarge);
            }
        }
        let mut block = BytesMut::with_capacity(512);
        let fields = headers.into_fields();
        let required_ref: usize = encoder::encode(
            &mut self.encoder_table,
            stream_id.0,
            &mut block,
            &mut self.pending_encoder,
            fields.as_slice(),
        );
        let encoded = block.freeze();
        proof {
            let b = encoder::encoded(
                old(self)@.encoder_table,
                stream_id.0,
                headers::list(headers@),
            );
            assert(buffer::frozen(encoded) == b.block);
        }
        Ok((required_ref, HeadersFrame { encoded }))
    }

    /// Decodes a header block that arrived on `stream_id` and acknowledges it.
    pub fn decode_header(&mut self, stream_id: StreamId, header: &HeadersFrame) -> (r: Result<
        DecodeResult,
        Error,
    >)
        requires
            old(self).wf(),
        ensures
            (decoding_model(r), final(self)@) == decoding(
                old(self)@,
                stream_id,
                buffer::frozen(header.encoded),
            ),
            final(self).wf(),
            match decoder::block_fields(old(self)@.decoder_table, buffer::frozen(header.encoded)) {
                Err(DecoderError::MissingRefs(n)) => r == Ok::<DecodeResult, Error>(
                    DecodeResult::MissingRefs(n),
                ) && final(self)@ == old(self)@,
                Err(e) => r == Err::<DecodeResult, Error>(Error::DecodeError { reason: e })
                    && final(self)@ == old(self)@,
                Ok(fields) => decodes_to(r, headers::parse(fields)) && final(self)@
                    == after_decoding(old(self)@, stream_id),
            },
    {
        match decoder::decode_header(&self.decoder_table, header.encoded.as_ref()) {
            Err(DecoderError::MissingRefs(n)) => Ok(DecodeResult::MissingRefs(n)),
            Err(e) => Err(Error::from(e)),
            Ok(decoded) => {
                decoder::ack_header(stream_id.0, &mut self.pending_decoder);
                match Header::try_from(decoded) {
                    Ok(h) => Ok(DecodeResult::Decoded(h)),
                    Err(e) => Err(Error::from(e)),
                }
            },
        }
    }

    /// What the peer announced, once it has.
    pub fn remote_settings(&self) -> (r: &Option<Settings>)
        ensures
            *r == self@.remote_settings,
    {
        &self.remote_settings
    }

    /// Takes note of what the peer announced.
    pub fn set_remote_settings(&mut self, settings: Settings)
        requires
            old(self).wf(),
        ensures
            final(self).wf(),
            final(self)@ == with_remote_settings(old(self)@, settings),
    {
        let _ = self.encoder_table.set_max_mem_size(settings.qpack_max_table_capacity as usize);
        let _ = self.encoder_table.set_max_blocked(settings.qpack_blocked_streams as usize);
        self.remote_settings = Some(settings);
    }

    /// Takes what is to be sent on the control stream.
    pub fn pending_control(&mut self) -> (r: Option<Bytes>)
        requires
            old(self).wf(),
        ensures
            final(self)@ == control_sent(old(self)@),
            final(self).wf(),
            hands_out(r, old(self)@.pending_control),
            final(self)@ == (ConnectionView { pending_control: Seq::empty(), ..old(self)@ }),
    {
        take_pending(&mut self.pending_control)
    }

    /// Takes what is to be sent on the encoder stream.
    pub fn pending_encoder(&mut self) -> (r: Option<Bytes>)
        requires
            old(self).wf(),
        ensures
            final(self)@ == encoder_sent(old(self)@),
            final(self).wf(),
            hands_out(r, old(self)@.pending_encoder),
            final(self)@ == (ConnectionView { pending_encoder: Seq::empty(), ..old(self)@ }),
    {
        take_pending(&mut self.pending_encoder)
    }

    /// Takes what is to be sent on the decoder stream.
    pub fn pending_decoder(&mut self) -> (r: Option<Bytes>)
        requires
            old(self).wf(),
        ensures
            final(self)@ == decoder_sent(old(self)@),
            final(self).wf(),
            hands_out(r, old(self)@.pending_decoder),
            final(self)@ == (ConnectionView { pending_decoder: Seq::empty(), ..old(self)@ }),
    {
        take_pending(&mut self.pending_decoder)
    }

    /// Takes complete instructions from the front of what arrived on the encoder stream. The
    /// result is the number of insertions that the dynamic table has seen.
    pub fn on_recv_encoder(&mut self, read: &mut &[u8]) -> (r: Result<usize, Error>)
        requires
            old(self).wf(),
        ensures
            (inserted_model(r), (*final(read))@) == encoder_bytes(old(self)@, (*old(read))@),
            final(self).wf(),
            final(self)@ == after_encoder_bytes(old(self)@, (*old(read))@),
            match decoder::run(old(self)@.decoder_table, (*old(read))@).2 {
                Ok(_) => r == Ok::<usize, Error>(final(self)@.decoder_table.inserted() as usize)
                    && (*final(read))@ == (*old(read))@.skip(
                    decoder::run(old(self)@.decoder_table, (*old(read))@).1 as int,
                ),
                Err(e) => r == Err::<usize, Error>(Error::DecodeError { reason: e })
                    && (*final(read))@ == (*old(read))@,
            },
    {
        match decoder::on_encoder_recv(&mut self.decoder_table, read, &mut self.pending_decoder) {
            Ok(n) => {
                proof {
                    self.decoder_table.wf_model();
                }
                Ok(n)
            },
            Err(e) => Err(Error::from(e)),
        }
    }

    /// Takes complete reports from the front of what arrived on the decoder stream.
    pub fn on_recv_decoder(&mut self, read: &mut &[u8]) -> (r: Result<(), Error>)
        requires
            old(self).wf(),
        ensures
            (heeded_model(r), (*final(read))@, final(self)@) == decoder_bytes(
                old(self)@,
                (*old(read))@,
            ),
            final(self).wf(),
            final(self)@ == (ConnectionView {
                encoder_table: encoder::run(old(self)@.encoder_table, (*old(read))@).0,
                ..old(self)@
            }),
            match encoder::run(old(self)@.encoder_table, (*old(read))@).2 {
                Ok(_) => r == Ok::<(), Error>(()) && (*final(read))@ == (*old(read))@.skip(
                    encoder::run(old(self)@.encoder_table, (*old(read))@).1 as int,
                ),
                Err(e) => r == Err::<(), Error>(Error::EncodeError { reason: e }) && (*final(read))@ == (*old(read))@,
            },
    {
        match encoder::on_decoder_recv(&mut self.encoder_table, read) {
            Ok(_) => Ok(()),
            Err(e) => Err(Error::from(e)),
        }
    }
}

impl Default for Connection {
    fn default() -> (c: Connection)
        ensures
            c.wf(),
            c@ == idle(settings::defaults()),
    {
        Connection {
            local_settings: Settings::default(),
            remote_settings: None,
            decoder_table: DynamicTable::new(),
            encoder_table: DynamicTable::new(),
            pending_encoder: BytesMut::with_capacity(2048),
            pending_decoder: BytesMut::with_capacity(2048),
            pending_control: BytesMut::with_capacity(128),
        }
    }
}

} // verus!
