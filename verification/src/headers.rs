//! Headers on a stream: encoding them to be sent, and decoding those that arrived.

use vstd::prelude::*;

use crate::connection::{ConnectionInner, InnerView, TaskId};
use crate::error::{Error, ErrorView};
use crate::proto::connection as proto_connection;
use crate::proto::frame::HeadersFrame;
use crate::proto::headers::{Header, HeaderView};
use crate::qpack::{encoder, FieldView};
use crate::{buffer, connection, error, proto, text, StreamId};

verus! {

/// How far something has come that may have to wait.
#[derive(Debug)]
pub enum Progress<T> {
    /// It waits; the task will be woken.
    Pending,
    /// It is done.
    Ready(T),
}

/// A header block that is to be decoded.
#[derive(Debug)]
pub struct DecodeHeaders {
    pub frame: Option<HeadersFrame>,
    pub stream_id: StreamId,
}

/// The model of a header block that is to be decoded.
pub struct DecodeView {
    /// The block.
    pub frame: Option<Seq<u8>>,
    /// The stream on which it arrived.
    pub stream_id: StreamId,
}

impl View for DecodeHeaders {
    type V = DecodeView;

    open spec fn view(&self) -> DecodeView {
        DecodeView {
            frame: match self.frame {
                Some(f) => Some(buffer::frozen(f.encoded)),
                None => None,
            },
            stream_id: self.stream_id,
        }
    }
}

/// What decoding comes to, and the connection after it.
pub open spec fn decode_poll(d: DecodeView, c: InnerView, task: TaskId) -> (
    Progress<Result<HeaderView, ErrorView>>,
    InnerView,
) {
    match d.frame {
        None => (Progress::Ready(Err(ErrorView::Internal("frame none"@))), c),
        Some(block) => {
            let (r, after) = connection::decoding(c, task, d.stream_id, block);
            (
                match r {
                    Ok(None) => Progress::Pending,
                    Ok(Some(h)) => Progress::Ready(Ok(h)),
                    Err(e) => Progress::Ready(
                        Err(
                            ErrorView::Peer(
                                "decoding header failed: "@ + error::debug_text(e),
                            ),
                        ),
                    ),
                },
                after,
            )
        },
    }
}

/// The model of what decoding comes to.
pub open spec fn progress_model(p: Progress<Result<Header, Error>>) -> Progress<
    Result<HeaderView, ErrorView>,
> {
    match p {
        Progress::Pending => Progress::Pending,
        Progress::Ready(Ok(h)) => Progress::Ready(Ok(h@)),
        Progress::Ready(Err(e)) => Progress::Ready(Err(e@)),
    }
}

impl DecodeHeaders {
    /// A header block that arrived on a stream.
    pub fn new(frame: HeadersFrame, stream_id: StreamId) -> (d: DecodeHeaders)
        ensures
            d@ == (DecodeView { frame: Some(buffer::frozen(frame.encoded)), stream_id }),
    {
        DecodeHeaders { frame: Some(frame), stream_id }
    }

    /// Decodes the header block, if the insertions that it refers to have arrived.
    pub fn poll(&self, conn: &mut ConnectionInner, task: TaskId) -> (p: Progress<
        Result<Header, Error>,
    >)
        requires
            old(conn).wf(),
        ensures
            final(conn).wf(),
            (progress_model(p), final(conn)@) == decode_poll(self@, old(conn)@, task),
    {
        match &self.frame {
            None => Progress::Ready(Err(Error::Internal("frame none"))),
            Some(frame) => match conn.decode_header(task, self.stream_id, frame) {
                Ok(None) => Progress::Pending,
                Ok(Some(decoded)) => Progress::Ready(Ok(decoded)),
                Err(e) => Progress::Ready(
                    Err(Error::Peer(text::join("decoding header failed: ", e.debug().as_str()))),
                ),
            },
        }
    }
}

/// A header that is encoded and to be written.
#[derive(Debug)]
pub struct SendHeaders(pub HeadersFrame);

/// What encoding a header gives, and the connection after it.
pub open spec fn encoding(c: InnerView, stream_id: StreamId, fields: Seq<FieldView>) -> (
    Result<Seq<u8>, ErrorView>,
    InnerView,
) {
    if proto_connection::too_large(c.inner, fields) {
        (Err(ErrorView::Proto(proto_connection::ErrorView::HeaderListTooLarge)), c)
    } else {
        let b = encoder::encoded(c.inner.encoder_table, stream_id.0, fields);
        (
            Ok(b.block),
            connection::after_encoded(
                InnerView {
                    inner: proto_connection::after_encoding(c.inner, stream_id, fields),
                    ..c
                },
                b.required,
            ),
        )
    }
}

/// The model of what encoding a header gives.
pub open spec fn encoded_model(r: Result<SendHeaders, Error>) -> Result<Seq<u8>, ErrorView> {
    match r {
        Ok(s) => Ok(buffer::frozen(s.0.encoded)),
        Err(e) => Err(e@),
    }
}

impl SendHeaders {
    /// Encodes a header for a stream.
    pub fn new(header: Header, conn: &mut ConnectionInner, stream_id: StreamId) -> (r: Result<
        SendHeaders,
        Error,
    >)
        requires
            old(conn).wf(),
        ensures
            final(conn).wf(),
            (encoded_model(r), final(conn)@) == encoding(
                old(conn)@,
                stream_id,
                proto::headers::list(header@),
            ),
    {
        match conn.inner.encode_header(stream_id, header) {
            Ok((required_ref, frame)) => {
                conn.on_encoded(required_ref);
                Ok(SendHeaders(frame))
            },
            Err(e) => Err(Error::from(e)),
        }
    }
}

} // verus!
