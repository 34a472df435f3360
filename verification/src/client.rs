//! Client requests, from the first header to the response.
//!
//! Each request is a state that the transport drives: it reports what happened, and the state
//! answers what to do next.

use bytes::Bytes;
use vstd::prelude::*;

use crate::connection::{ConnectionInner, InnerView, TaskId};
use crate::error::{Error, ErrorView};
use crate::headers::{DecodeHeaders, DecodeView, Progress, SendHeaders};
use crate::proto::connection as proto_connection;
use crate::proto::frame::{DataFrame, FrameView, HttpFrame};
use crate::proto::headers::{Header, HeaderView, Uri};
use crate::proto::settings::Settings;
use crate::qpack::{FieldView, HeaderField};
use crate::{buffer, error, headers, proto, qpack, StreamId};

verus! {

/// Makes a client with settings.
#[derive(Clone, Debug)]
pub struct Builder {
    pub settings: Settings,
}

/// A builder with other settings.
pub open spec fn configured(b: Builder, settings: Settings) -> Builder {
    Builder { settings, ..b }
}

/// The client that a builder makes for an endpoint.
pub open spec fn client_of<E>(b: Builder, endpoint: E) -> Client<E> {
    Client { endpoint, settings: b.settings }
}

impl Builder {
    /// A builder with the default settings.
    pub fn new() -> (b: Builder)
        ensures
            b.settings == proto::settings::defaults(),
    {
        Builder { settings: Settings::default() }
    }

    /// Replaces the settings.
    pub fn settings(&mut self, settings: Settings) -> (b: &mut Builder)
        ensures
            *b == configured(*old(self), settings),
            b.settings == settings,
            *final(self) == *final(b),
    {
        self.settings = settings;
        self
    }

    /// A client that connects from an endpoint.
    pub fn endpoint<E>(self, endpoint: E) -> (c: Client<E>)
        ensures
            c == client_of(self, endpoint),
            c.endpoint == endpoint,
            c.settings == self.settings,
    {
        Client { endpoint, settings: self.settings }
    }
}

impl Default for Builder {
    fn default() -> (b: Builder)
        ensures
            b.settings == proto::settings::defaults(),
    {
        Builder { settings: Settings::default() }
    }
}

/// Connects to servers from an endpoint, with settings.
#[derive(Debug)]
pub struct Client<E> {
    pub endpoint: E,
    pub settings: Settings,
}

/// The body of a request.
#[derive(Debug)]
pub enum Body {
    /// All of it.
    Buf(Bytes),
    /// There is none.
    Empty,
}

impl View for Body {
    type V = Option<Seq<u8>>;

    open spec fn view(&self) -> Option<Seq<u8>> {
        match self {
            Body::Buf(b) => Some(buffer::frozen(*b)),
            Body::Empty => None,
        }
    }
}

/// A request.
#[derive(Debug)]
pub struct Request {
    pub method: Vec<u8>,
    pub uri: Uri,
    pub fields: Vec<HeaderField>,
    pub body: Body,
}

/// The header of a request.
pub open spec fn header_of(request: Request) -> HeaderView {
    proto::headers::request_header(request.method@, request.uri, qpack::models(request.fields@))
}

/// The header of trailers.
pub open spec fn trailer_of(fields: Seq<FieldView>) -> HeaderView {
    HeaderView { fields, ..proto::headers::blank() }
}

/// A request that is being put together.
#[derive(Debug)]
pub struct RequestBuilder {
    pub request: Request,
    pub trailers: Option<Vec<HeaderField>>,
}

/// A request that is being put together, with trailers in place of any that it had.
pub open spec fn with_trailers(b: RequestBuilder, trailers: Option<Vec<HeaderField>>) -> RequestBuilder {
    RequestBuilder { trailers, ..b }
}

/// A request of which the body can be continued, and nothing was sent.
pub open spec fn unstreamed<R>(b: RequestBuilder) -> StreamRequestView<R> {
    StreamRequestView {
        state: StreamStateView::Opening(header_of(b.request), b.request.body@),
        trailers: fields_model(b.trailers),
    }
}

impl RequestBuilder {
    /// A request without trailers.
    pub fn new(request: Request) -> (b: RequestBuilder)
        ensures
            b == with_trailers(RequestBuilder { request, trailers: None }, None),
            b.request == request,
            b.trailers is None,
    {
        RequestBuilder { request, trailers: None }
    }

    /// Gives the request trailers, in place of any that it had.
    pub fn trailers(self, trailers: Vec<HeaderField>) -> (b: RequestBuilder)
        ensures
            b == with_trailers(self, Some(trailers)),
            b.request == self.request,
            b.trailers == Some(trailers),
    {
        RequestBuilder { request: self.request, trailers: Some(trailers) }
    }

    /// Starts to send the request and to wait for the response.
    pub fn send<R>(self) -> (q: SendRequest<R>)
        ensures
            q@ == unsent::<R>(self),
    {
        SendRequest::new(self.request, self.trailers)
    }

    /// Starts to send the request, of which the body can be continued.
    pub fn stream<R>(self) -> (q: StreamRequest<R>)
        ensures
            q@ == unstreamed::<R>(self),
            q@ == (StreamRequestView::<R> {
                state: StreamStateView::Opening(header_of(self.request), self.request.body@),
                trailers: fields_model(self.trailers),
            }),
    {
        let Request { method, uri, fields, body } = self.request;
        StreamRequest {
            state: StreamState::Opening(Header::request(method, uri, fields), body),
            trailers: self.trailers,
        }
    }
}

/// The model of fields that may be there.
pub open spec fn fields_model(fields: Option<Vec<HeaderField>>) -> Option<Seq<FieldView>> {
    match fields {
        Some(f) => Some(qpack::models(f@)),
        None => None,
    }
}

/// What happened to a request.
#[derive(Debug)]
pub enum Event<R> {
    /// Nothing yet.
    Pending,
    /// The transport failed.
    Failed(Error),
    /// A stream was opened; its identifier, and its receiving side.
    Opened(StreamId, R),
    /// The frame was written.
    Written,
    /// The response stream ended.
    Ended,
    /// A frame arrived on the response stream.
    Frame(HttpFrame),
    /// The task tries to decode the header.
    Decode(TaskId),
}

/// What is to be done for a request.
#[derive(Debug)]
pub enum Action<T> {
    /// Nothing, until more has happened.
    Wait,
    /// A frame is to be written.
    Write(HttpFrame),
    /// A frame is to be read.
    Receive,
    /// The header is to be decoded.
    Decode,
    /// Nothing more; this came of it.
    Done(T),
}

/// The model of what is to be done.
pub enum ActionView<T> {
    Wait,
    Write(FrameView),
    Receive,
    Decode,
    Done(T),
}

/// The header of a response, and where its body comes from.
#[derive(Debug)]
pub struct ResponseParts<R> {
    pub status: u16,
    pub fields: Vec<HeaderField>,
    pub recv: R,
    pub stream_id: StreamId,
}

/// The model of a response.
pub struct ResponseView<R> {
    pub status: u16,
    pub fields: Seq<FieldView>,
    pub recv: R,
    pub stream_id: StreamId,
}

impl<R> View for ResponseParts<R> {
    type V = ResponseView<R>;

    open spec fn view(&self) -> ResponseView<R> {
        ResponseView {
            status: self.status,
            fields: qpack::models(self.fields@),
            recv: self.recv,
            stream_id: self.stream_id,
        }
    }
}

/// The response that a header makes up. Without a status there is none.
pub open spec fn response_of<R>(h: HeaderView, recv: R, stream_id: StreamId) -> Result<
    ResponseView<R>,
    ErrorView,
> {
    match h.status {
        Some(status) => Ok(ResponseView { status, fields: h.fields, recv, stream_id }),
        None => Err(
            ErrorView::Proto(proto_connection::ErrorView::InvalidResponse("missing status"@)),
        ),
    }
}

/// The model of a response or an error.
pub open spec fn response_model<R>(r: Result<ResponseParts<R>, Error>) -> Result<
    ResponseView<R>,
    ErrorView,
> {
    match r {
        Ok(p) => Ok(p@),
        Err(e) => Err(e@),
    }
}

/// The model of what is to be done until there is a response.
pub open spec fn action_model<R>(r: Result<Action<ResponseParts<R>>, Error>) -> Result<
    ActionView<ResponseView<R>>,
    ErrorView,
> {
    match r {
        Ok(Action::Wait) => Ok(ActionView::Wait),
        Ok(Action::Write(f)) => Ok(ActionView::Write(f@)),
        Ok(Action::Receive) => Ok(ActionView::Receive),
        Ok(Action::Decode) => Ok(ActionView::Decode),
        Ok(Action::Done(p)) => Ok(ActionView::Done(p@)),
        Err(e) => Err(e@),
    }
}

/// The response that a header makes up.
pub fn build_response<R>(header: Header, recv: R, stream_id: StreamId) -> (r: Result<
    ResponseParts<R>,
    Error,
>)
    ensures
        response_model(r) == response_of(header@, recv, stream_id),
{
    match header.into_response_parts() {
        Ok((status, fields)) => Ok(ResponseParts { status, fields, recv, stream_id }),
        Err(e) => Err(Error::Proto(proto_connection::Error::from(e))),
    }
}

/// How far a request is.
#[derive(Debug)]
pub enum SendRequestState<R> {
    Opening,
    Sending,
    SendingBody,
    SendingTrailers,
    Receiving(R),
    Decoding(DecodeHeaders),
    Finished,
}

/// The model of how far a request is.
pub enum SendStateView<R> {
    Opening,
    Sending,
    SendingBody,
    SendingTrailers,
    Receiving(R),
    Decoding(DecodeView),
    Finished,
}

impl<R> View for SendRequestState<R> {
    type V = SendStateView<R>;

    open spec fn view(&self) -> SendStateView<R> {
        match self {
            SendRequestState::Opening => SendStateView::Opening,
            SendRequestState::Sending => SendStateView::Sending,
            SendRequestState::SendingBody => SendStateView::SendingBody,
            SendRequestState::SendingTrailers => SendStateView::SendingTrailers,
            SendRequestState::Receiving(r) => SendStateView::Receiving(*r),
            SendRequestState::Decoding(d) => SendStateView::Decoding(d@),
            SendRequestState::Finished => SendStateView::Finished,
        }
    }
}

/// The name of a state of a request.
pub open spec fn send_state_name<R>(state: SendStateView<R>) -> Seq<char> {
    match state {
        SendStateView::Opening => "SendRequestState::Opening"@,
        SendStateView::Sending => "SendRequestState::Sending"@,
        SendStateView::SendingBody => "SendRequestState::SendingBody"@,
        SendStateView::SendingTrailers => "SendRequestState::SendingTrailers"@,
        SendStateView::Receiving(_) => "SendRequestState::Receiving"@,
        SendStateView::Decoding(_) => "SendRequestState::Decoding"@,
        SendStateView::Finished => "SendRequestState::Finished"@,
    }
}

impl<R> SendRequestState<R> {
    /// The name of the state.
    pub fn name(&self) -> (r: &'static str)
        ensures
            r@ == send_state_name(self@),
            r@ == (match self@ {
                SendStateView::Opening => "SendRequestState::Opening"@,
                SendStateView::Sending => "SendRequestState::Sending"@,
                SendStateView::SendingBody => "SendRequestState::SendingBody"@,
                SendStateView::SendingTrailers => "SendRequestState::SendingTrailers"@,
                SendStateView::Receiving(_) => "SendRequestState::Receiving"@,
                SendStateView::Decoding(_) => "SendRequestState::Decoding"@,
                SendStateView::Finished => "SendRequestState::Finished"@,
            }),
    {
        match self {
            SendRequestState::Opening => "SendRequestState::Opening",
            SendRequestState::Sending => "SendRequestState::Sending",
            SendRequestState::SendingBody => "SendRequestState::SendingBody",
            SendRequestState::SendingTrailers => "SendRequestState::SendingTrailers",
            SendRequestState::Receiving(_) => "SendRequestState::Receiving",
            SendRequestState::Decoding(_) => "SendRequestState::Decoding",
            SendRequestState::Finished => "SendRequestState::Finished",
        }
    }
}

/// A request that is sent as a whole and then waits for its response.
#[derive(Debug)]
pub struct SendRequest<R> {
    pub header: Option<Header>,
    pub body: Option<Body>,
    pub trailers: Option<Header>,
    pub state: SendRequestState<R>,
    pub stream_id: Option<StreamId>,
    pub recv: Option<R>,
}

/// The model of a request that is sent as a whole.
pub struct SendRequestView<R> {
    /// The header, until it is sent.
    pub header: Option<HeaderView>,
    /// The body, until it is sent.
    pub body: Option<Option<Seq<u8>>>,
    /// The trailers, until they are sent.
    pub trailers: Option<HeaderView>,
    /// How far the request is.
    pub state: SendStateView<R>,
    /// The stream of the request.
    pub stream_id: Option<StreamId>,
    /// The receiving side of the stream, while it is not read from.
    pub recv: Option<R>,
}

/// The model of a header that may be there.
pub open spec fn header_model(h: Option<Header>) -> Option<HeaderView> {
    match h {
        Some(h) => Some(h@),
        None => None,
    }
}

impl<R> View for SendRequest<R> {
    type V = SendRequestView<R>;

    open spec fn view(&self) -> SendRequestView<R> {
        SendRequestView {
            header: header_model(self.header),
            body: match self.body {
                Some(b) => Some(b@),
                None => None,
            },
            trailers: header_model(self.trailers),
            state: self.state@,
            stream_id: self.stream_id,
            recv: self.recv,
        }
    }
}

/// A request of which nothing was sent.
pub open spec fn unsent<R>(b: RequestBuilder) -> SendRequestView<R> {
    SendRequestView {
        header: Some(header_of(b.request)),
        body: Some(b.request.body@),
        trailers: match fields_model(b.trailers) {
            Some(f) => Some(trailer_of(f)),
            None => None,
        },
        state: SendStateView::Opening,
        stream_id: None,
        recv: None,
    }
}

/// A request after a step: the request, the connection, and what is to be done.
pub type SendStep<R> = (
    SendRequestView<R>,
    InnerView,
    Result<ActionView<ResponseView<R>>, ErrorView>,
);

/// Everything is sent; the response is to be read.
pub open spec fn to_receiving<R>(q: SendRequestView<R>, c: InnerView) -> SendStep<R> {
    match q.recv {
        Some(r) => (
            SendRequestView { recv: None, state: SendStateView::Receiving(r), ..q },
            c,
            Ok(ActionView::Receive),
        ),
        None => (q, c, Err(ErrorView::Internal("Invalid receive state"@))),
    }
}

/// The stream is open; the header is to be written.
pub open spec fn on_opened<R>(
    q: SendRequestView<R>,
    c: InnerView,
    id: StreamId,
    recv: R,
) -> SendStep<R> {
    let opened = SendRequestView { recv: Some(recv), stream_id: Some(id), header: None, ..q };
    match q.header {
        None => (opened, c, Err(ErrorView::Internal("header none"@))),
        Some(h) => {
            let (r, after) = headers::encoding(c, id, proto::headers::list(h));
            match r {
                Ok(block) => (
                    SendRequestView { state: SendStateView::Sending, ..opened },
                    after,
                    Ok(ActionView::Write(FrameView::Headers(block))),
                ),
                Err(e) => (opened, after, Err(e)),
            }
        },
    }
}

/// The header is written; the body is next, if there is one.
pub open spec fn on_header_written<R>(q: SendRequestView<R>, c: InnerView) -> SendStep<R> {
    let taken = SendRequestView { body: None, ..q };
    match q.body {
        Some(Some(payload)) => (
            SendRequestView { state: SendStateView::SendingBody, ..taken },
            c,
            Ok(ActionView::Write(FrameView::Data(payload))),
        ),
        _ => to_receiving(taken, c),
    }
}

/// The body is written; the trailers are next, if there are any.
pub open spec fn on_body_written<R>(q: SendRequestView<R>, c: InnerView) -> SendStep<R> {
    let taken = SendRequestView { trailers: None, ..q };
    match q.trailers {
        None => to_receiving(taken, c),
        Some(t) => match q.stream_id {
            None => (taken, c, Err(ErrorView::Internal("stream_id is none"@))),
            Some(id) => {
                let (r, after) = headers::encoding(c, id, proto::headers::list(t));
                match r {
                    Ok(block) => (
                        SendRequestView { state: SendStateView::SendingTrailers, ..taken },
                        after,
                        Ok(ActionView::Write(FrameView::Headers(block))),
                    ),
                    Err(e) => (taken, after, Err(e)),
                }
            },
        },
    }
}

/// A frame arrived on the response stream. The first one has to be a header.
pub open spec fn on_frame<R>(
    q: SendRequestView<R>,
    c: InnerView,
    recv: R,
    frame: FrameView,
) -> SendStep<R> {
    match frame {
        FrameView::Headers(block) => match q.stream_id {
            None => (q, c, Err(ErrorView::Internal("Stream id is none"@))),
            Some(stream_id) => (
                SendRequestView {
                    recv: Some(recv),
                    state: SendStateView::Decoding(DecodeView { frame: Some(block), stream_id }),
                    ..q
                },
                c,
                Ok(ActionView::Decode),
            ),
        },
        _ => (q, c, Err(ErrorView::Peer("first frame is not headers"@))),
    }
}

/// The header of the response is decoded.
pub open spec fn on_decoded<R>(q: SendRequestView<R>, c: InnerView, h: HeaderView) -> SendStep<R> {
    let finished = SendRequestView { state: SendStateView::Finished, recv: None, ..q };
    match (q.recv, q.stream_id) {
        (None, _) => (finished, c, Err(ErrorView::Internal("recv is none"@))),
        (_, None) => (finished, c, Err(ErrorView::Internal("stream is none"@))),
        (Some(recv), Some(id)) => (
            SendRequestView { stream_id: None, ..finished },
            c,
            match response_of(h, recv, id) {
                Ok(p) => Ok(ActionView::Done(p)),
                Err(e) => Err(e),
            },
        ),
    }
}

/// A step of a request. A request that is finished, or that does not wait for what happened,
/// stays as it is.
pub open spec fn send_step<R>(q: SendRequestView<R>, c: InnerView, event: Event<R>) -> SendStep<R> {
    match (q.state, event) {
        (SendStateView::Finished, _) => (q, c, Err(ErrorView::Poll)),
        (_, Event::Pending) => (q, c, Ok(ActionView::Wait)),
        (_, Event::Failed(e)) => (q, c, Err(e@)),
        (SendStateView::Opening, Event::Opened(id, recv)) => on_opened(q, c, id, recv),
        (SendStateView::Sending, Event::Written) => on_header_written(q, c),
        (SendStateView::SendingBody, Event::Written) => on_body_written(q, c),
        (SendStateView::SendingTrailers, Event::Written) => to_receiving(q, c),
        (SendStateView::Receiving(_), Event::Ended) => (
            q,
            c,
            Err(ErrorView::Peer("received an empty response"@)),
        ),
        (SendStateView::Receiving(recv), Event::Frame(f)) => on_frame(q, c, recv, f@),
        (SendStateView::Decoding(d), Event::Decode(task)) => {
            let (p, after) = headers::decode_poll(d, c, task);
            match p {
                Progress::Pending => (q, after, Ok(ActionView::Wait)),
                Progress::Ready(Err(e)) => (q, after, Err(e)),
                Progress::Ready(Ok(h)) => on_decoded(q, after, h),
            }
        },
        _ => (q, c, Err(ErrorView::Poll)),
    }
}

impl<R> SendRequest<R> {
    /// A request of which nothing was sent.
    pub fn new(request: Request, trailers: Option<Vec<HeaderField>>) -> (q: SendRequest<R>)
        ensures
            q@ == unsent::<R>(RequestBuilder { request, trailers }),
    {
        let Request { method, uri, fields, body } = request;
        SendRequest {
            header: Some(Header::request(method, uri, fields)),
            body: Some(body),
            trailers: match trailers {
                Some(t) => Some(Header::trailer(t)),
                None => None,
            },
            state: SendRequestState::Opening,
            stream_id: None,
            recv: None,
        }
    }

    /// Hands out the receiving side and goes on to read the response.
    fn receive(&mut self) -> (r: Result<Action<ResponseParts<R>>, Error>)
        ensures
            forall|c: InnerView|
                (final(self)@, c, action_model(r)) == #[trigger] to_receiving(old(self)@, c),
    {
        match error::try_take(&mut self.recv, "Invalid receive state") {
            Ok(recv) => {
                self.state = SendRequestState::Receiving(recv);
                Ok(Action::Receive)
            },
            Err(e) => Err(e),
        }
    }

    fn build_response(&mut self, header: Header) -> (r: Result<Action<ResponseParts<R>>, Error>)
        ensures
            forall|c: InnerView|
                (
                    SendRequestView { state: SendStateView::Finished, ..final(self)@ },
                    c,
                    action_model(r),
                ) == #[trigger] on_decoded(old(self)@, c, header@),
            final(self).state == old(self).state,
    {
        let recv = match error::try_take(&mut self.recv, "recv is none") {
            Ok(recv) => recv,
            Err(e) => {
                return Err(e);
            },
        };
        let stream_id = match error::try_take(&mut self.stream_id, "stream is none") {
            Ok(stream_id) => stream_id,
            Err(e) => {
                return Err(e);
            },
        };
        match build_response(header, recv, stream_id) {
            Ok(p) => Ok(Action::Done(p)),
            Err(e) => Err(e),
        }
    }

    /// Takes the request a step further.
    pub fn poll(&mut self, conn: &mut ConnectionInner, event: Event<R>) -> (r: Result<
        Action<ResponseParts<R>>,
        Error,
    >)
        requires
            old(conn).wf(),
        ensures
            final(conn).wf(),
            (final(self)@, final(conn)@, action_model(r)) == send_step(
                old(self)@,
                old(conn)@,
                event,
            ),
    {
        match (&self.state, event) {
            (SendRequestState::Finished, _) => Err(Error::Poll),
            (_, Event::Pending) => Ok(Action::Wait),
            (_, Event::Failed(e)) => Err(e),
            (SendRequestState::Opening, Event::Opened(id, recv)) => {
                self.recv = Some(recv);
                self.stream_id = Some(id);
                let header = match error::try_take(&mut self.header, "header none") {
                    Ok(header) => header,
                    Err(e) => {
                        return Err(e);
                    },
                };
                match SendHeaders::new(header, conn, id) {
                    Ok(send) => {
                        self.state = SendRequestState::Sending;
                        Ok(Action::Write(HttpFrame::Headers(send.0)))
                    },
                    Err(e) => Err(e),
                }
            },
            (SendRequestState::Sending, Event::Written) => match self.body.take() {
                Some(Body::Buf(payload)) => {
                    self.state = SendRequestState::SendingBody;
                    Ok(Action::Write(HttpFrame::Data(DataFrame { payload })))
                },
                _ => {
                    let ghost taken = self@;
                    let r = self.receive();
                    assert((self@, conn@, action_model(r)) == to_receiving(taken, conn@));
                    r
                },
            },
            (SendRequestState::SendingBody, Event::Written) => match self.trailers.take() {
                None => {
                    let ghost taken = self@;
                    let r = self.receive();
                    assert((self@, conn@, action_model(r)) == to_receiving(taken, conn@));
                    r
                },
                Some(t) => match self.stream_id {
                    None => Err(Error::Internal("stream_id is none")),
                    Some(id) => match SendHeaders::new(t, conn, id) {
                        Ok(send) => {
                            self.state = SendRequestState::SendingTrailers;
                            Ok(Action::Write(HttpFrame::Headers(send.0)))
                        },
                        Err(e) => Err(e),
                    },
                },
            },
            (SendRequestState::SendingTrailers, Event::Written) => {
                let r = self.receive();
                assert((self@, conn@, action_model(r)) == to_receiving(old(self)@, conn@));
                r
            },
            (SendRequestState::Receiving(_), Event::Ended) => Err(
                Error::peer("received an empty response"),
            ),
            (SendRequestState::Receiving(_), Event::Frame(f)) => match f {
                HttpFrame::Headers(h) => match self.stream_id {
                    None => Err(Error::Internal("Stream id is none")),
                    Some(id) => {
                        let mut state = SendRequestState::Decoding(DecodeHeaders::new(h, id));
                        std::mem::swap(&mut self.state, &mut state);
                        if let SendRequestState::Receiving(frames) = state {
                            self.recv = Some(frames);
                        }
                        Ok(Action::Decode)
                    },
                },
                _ => Err(Error::peer("first frame is not headers")),
            },
            (SendRequestState::Decoding(decode), Event::Decode(task)) => match decode.poll(
                conn,
                task,
            ) {
                Progress::Pending => Ok(Action::Wait),
                Progress::Ready(Err(e)) => Err(e),
                Progress::Ready(Ok(header)) => {
                    let ghost decoded = header@;
                    self.state = SendRequestState::Finished;
                    let ghost finished = self@;
                    let r = self.build_response(header);
                    assert((self@, conn@, action_model(r)) == on_decoded(finished, conn@, decoded));
                    r
                },
            },
            _ => Err(Error::Poll),
        }
    }
}

/// How far a request is of which the body can be continued.
#[derive(Debug)]
pub enum StreamState<R> {
    Opening(Header, Body),
    Sending(StreamId, R, Body),
    SendingBody(StreamId, R),
    Finished,
}

/// The model of how far such a request is.
pub enum StreamStateView<R> {
    Opening(HeaderView, Option<Seq<u8>>),
    Sending(StreamId, R, Option<Seq<u8>>),
    SendingBody(StreamId, R),
    Finished,
}

impl<R> View for StreamState<R> {
    type V = StreamStateView<R>;

    open spec fn view(&self) -> StreamStateView<R> {
        match self {
            StreamState::Opening(h, b) => StreamStateView::Opening(h@, b@),
            StreamState::Sending(id, r, b) => StreamStateView::Sending(*id, *r, b@),
            StreamState::SendingBody(id, r) => StreamStateView::SendingBody(*id, *r),
            StreamState::Finished => StreamStateView::Finished,
        }
    }
}

/// A request of which the body can be continued.
#[derive(Debug)]
pub struct StreamRequest<R> {
    pub state: StreamState<R>,
    pub trailers: Option<Vec<HeaderField>>,
}

/// The model of a request of which the body can be continued.
pub struct StreamRequestView<R> {
    /// How far it is.
    pub state: StreamStateView<R>,
    /// The trailers, until they are handed out.
    pub trailers: Option<Seq<FieldView>>,
}

impl<R> View for StreamRequest<R> {
    type V = StreamRequestView<R>;

    open spec fn view(&self) -> StreamRequestView<R> {
        StreamRequestView { state: self.state@, trailers: fields_model(self.trailers) }
    }
}

/// A request that has begun: where its body continues, its trailers, and its response.
#[derive(Debug)]
pub struct Streaming<R> {
    pub stream_id: StreamId,
    pub trailers: Option<Vec<HeaderField>>,
    pub recv: RecvResponse<R>,
}

/// The model of a request that has begun.
pub struct StreamingView<R> {
    pub stream_id: StreamId,
    pub trailers: Option<Seq<FieldView>>,
    pub recv: RecvResponseView<R>,
}

impl<R> View for Streaming<R> {
    type V = StreamingView<R>;

    open spec fn view(&self) -> StreamingView<R> {
        StreamingView {
            stream_id: self.stream_id,
            trailers: fields_model(self.trailers),
            recv: self.recv@,
        }
    }
}

/// The model of what is to be done until a request has begun.
pub open spec fn streaming_model<R>(r: Result<Action<Streaming<R>>, Error>) -> Result<
    ActionView<StreamingView<R>>,
    ErrorView,
> {
    match r {
        Ok(Action::Wait) => Ok(ActionView::Wait),
        Ok(Action::Write(f)) => Ok(ActionView::Write(f@)),
        Ok(Action::Receive) => Ok(ActionView::Receive),
        Ok(Action::Decode) => Ok(ActionView::Decode),
        Ok(Action::Done(p)) => Ok(ActionView::Done(p@)),
        Err(e) => Err(e@),
    }
}

/// Such a request after a step: the request, the connection, and what is to be done.
pub type StreamStep<R> = (
    StreamRequestView<R>,
    InnerView,
    Result<ActionView<StreamingView<R>>, ErrorView>,
);

/// The request with another state.
pub open spec fn in_state<R>(q: StreamRequestView<R>, state: StreamStateView<R>) -> StreamRequestView<
    R,
> {
    StreamRequestView { state, ..q }
}

/// The request has begun.
pub open spec fn begun<R>(
    q: StreamRequestView<R>,
    c: InnerView,
    stream_id: StreamId,
    recv: R,
) -> StreamStep<R> {
    (
        StreamRequestView { state: StreamStateView::Finished, trailers: None },
        c,
        Ok(
            ActionView::Done(
                StreamingView {
                    stream_id,
                    trailers: q.trailers,
                    recv: awaiting(recv, stream_id),
                },
            ),
        ),
    )
}

/// A step of a request of which the body can be continued. An error ends it.
pub open spec fn stream_step<R>(
    q: StreamRequestView<R>,
    c: InnerView,
    event: Event<R>,
) -> StreamStep<R> {
    match (q.state, event) {
        (_, Event::Pending) => (q, c, Ok(ActionView::Wait)),
        (_, Event::Failed(e)) => (in_state(q, StreamStateView::Finished), c, Err(e@)),
        (StreamStateView::Opening(h, body), Event::Opened(id, recv)) => {
            let (r, after) = headers::encoding(c, id, proto::headers::list(h));
            match r {
                Ok(block) => (
                    in_state(q, StreamStateView::Sending(id, recv, body)),
                    after,
                    Ok(ActionView::Write(FrameView::Headers(block))),
                ),
                Err(e) => (in_state(q, StreamStateView::Finished), after, Err(e)),
            }
        },
        (StreamStateView::Sending(id, recv, Some(payload)), Event::Written) => (
            in_state(q, StreamStateView::SendingBody(id, recv)),
            c,
            Ok(ActionView::Write(FrameView::Data(payload))),
        ),
        (StreamStateView::Sending(id, recv, None), Event::Written) => begun(q, c, id, recv),
        (StreamStateView::SendingBody(id, recv), Event::Written) => begun(q, c, id, recv),
        _ => (q, c, Err(ErrorView::Poll)),
    }
}

impl<R> StreamRequest<R> {
    fn begin(&mut self, stream_id: StreamId, recv: R) -> (r: Result<Action<Streaming<R>>, Error>)
        ensures
            forall|c: InnerView|
                (in_state(final(self)@, StreamStateView::Finished), c, streaming_model(r))
                    == #[trigger] begun(old(self)@, c, stream_id, recv),
            final(self).state == old(self).state,
    {
        let trailers = self.trailers.take();
        Ok(Action::Done(Streaming { stream_id, trailers, recv: RecvResponse::new(recv, stream_id) }))
    }

    /// Takes the request a step further.
    pub fn poll(&mut self, conn: &mut ConnectionInner, event: Event<R>) -> (r: Result<
        Action<Streaming<R>>,
        Error,
    >)
        requires
            old(conn).wf(),
            old(self)@.state !is Finished,
        ensures
            final(conn).wf(),
            (final(self)@, final(conn)@, streaming_model(r)) == stream_step(
                old(self)@,
                old(conn)@,
                event,
            ),
    {
        let mut state = StreamState::Finished;
        std::mem::swap(&mut self.state, &mut state);
        match (state, event) {
            (s, Event::Pending) => {
                self.state = s;
                Ok(Action::Wait)
            },
            (_, Event::Failed(e)) => Err(e),
            (StreamState::Opening(header, body), Event::Opened(id, recv)) => {
                match SendHeaders::new(header, conn, id) {
                    Ok(send) => {
                        self.state = StreamState::Sending(id, recv, body);
                        Ok(Action::Write(HttpFrame::Headers(send.0)))
                    },
                    Err(e) => Err(e),
                }
            },
            (StreamState::Sending(id, recv, body), Event::Written) => match body {
                Body::Buf(payload) => {
                    self.state = StreamState::SendingBody(id, recv);
                    Ok(Action::Write(HttpFrame::Data(DataFrame { payload })))
                },
                Body::Empty => {
                    let ghost taken = self@;
                    let r = self.begin(id, recv);
                    assert((self@, conn@, streaming_model(r)) == begun(taken, conn@, id, recv));
                    r
                },
            },
            (StreamState::SendingBody(id, recv), Event::Written) => {
                let ghost taken = self@;
                let r = self.begin(id, recv);
                assert((self@, conn@, streaming_model(r)) == begun(taken, conn@, id, recv));
                r
            },
            (s, _) => {
                self.state = s;
                Err(Error::Poll)
            },
        }
    }
}

/// How far a response is.
#[derive(Debug)]
pub enum RecvResponseState<R> {
    Receiving(R),
    Decoding(DecodeHeaders),
    Finished,
}

/// The model of how far a response is.
pub enum RecvStateView<R> {
    Receiving(R),
    Decoding(DecodeView),
    Finished,
}

impl<R> View for RecvResponseState<R> {
    type V = RecvStateView<R>;

    open spec fn view(&self) -> RecvStateView<R> {
        match self {
            RecvResponseState::Receiving(r) => RecvStateView::Receiving(*r),
            RecvResponseState::Decoding(d) => RecvStateView::Decoding(d@),
            RecvResponseState::Finished => RecvStateView::Finished,
        }
    }
}

/// The name of a state of a response.
pub open spec fn recv_state_name<R>(state: RecvStateView<R>) -> Seq<char> {
    match state {
        RecvStateView::Receiving(_) => "RecvResponseState::Recieving"@,
        RecvStateView::Decoding(_) => "RecvResponseState::Decoding"@,
        RecvStateView::Finished => "RecvResponseState::Finished"@,
    }
}

impl<R> RecvResponseState<R> {
    /// The name of the state.
    pub fn name(&self) -> (r: &'static str)
        ensures
            r@ == recv_state_name(self@),
            r@ == (match self@ {
                RecvStateView::Receiving(_) => "RecvResponseState::Recieving"@,
                RecvStateView::Decoding(_) => "RecvResponseState::Decoding"@,
                RecvStateView::Finished => "RecvResponseState::Finished"@,
            }),
    {
        match self {
            RecvResponseState::Receiving(_) => "RecvResponseState::Recieving",
            RecvResponseState::Decoding(_) => "RecvResponseState::Decoding",
            RecvResponseState::Finished => "RecvResponseState::Finished",
        }
    }
}

/// A response that is awaited.
#[derive(Debug)]
pub struct RecvResponse<R> {
    pub state: RecvResponseState<R>,
    pub stream_id: StreamId,
    pub recv: Option<R>,
}

/// The model of a response that is awaited.
pub struct RecvResponseView<R> {
    /// How far it is.
    pub state: RecvStateView<R>,
    /// The stream of the response.
    pub stream_id: StreamId,
    /// The receiving side of the stream, while it is not read from.
    pub recv: Option<R>,
}

impl<R> View for RecvResponse<R> {
    type V = RecvResponseView<R>;

    open spec fn view(&self) -> RecvResponseView<R> {
        RecvResponseView { state: self.state@, stream_id: self.stream_id, recv: self.recv }
    }
}

/// A response of which nothing has arrived.
pub open spec fn awaiting<R>(recv: R, stream_id: StreamId) -> RecvResponseView<R> {
    RecvResponseView { state: RecvStateView::Receiving(recv), stream_id, recv: None }
}

/// Whether a response can go on: while its header is decoded, the receiving side is there.
pub open spec fn can_go_on<R>(q: RecvResponseView<R>) -> bool {
    q.state is Decoding ==> q.recv is Some
}

/// A response after a step: the response, the connection, and what is to be done.
pub type RecvStep<R> = (
    RecvResponseView<R>,
    InnerView,
    Result<ActionView<ResponseView<R>>, ErrorView>,
);

/// A step of a response.
pub open spec fn recv_step<R>(q: RecvResponseView<R>, c: InnerView, event: Event<R>) -> RecvStep<R> {
    match (q.state, event) {
        (RecvStateView::Finished, _) => (
            q,
            c,
            Err(ErrorView::Internal("recv response polled after finish"@)),
        ),
        (_, Event::Pending) => (q, c, Ok(ActionView::Wait)),
        (_, Event::Failed(e)) => (q, c, Err(e@)),
        (RecvStateView::Receiving(_), Event::Ended) => (
            q,
            c,
            Err(ErrorView::Peer("received an empty response"@)),
        ),
        (RecvStateView::Receiving(recv), Event::Frame(f)) => match f@ {
            FrameView::Headers(block) => (
                RecvResponseView {
                    state: RecvStateView::Decoding(
                        DecodeView { frame: Some(block), stream_id: q.stream_id },
                    ),
                    recv: Some(recv),
                    ..q
                },
                c,
                Ok(ActionView::Decode),
            ),
            _ => (q, c, Err(ErrorView::Peer("first frame is not headers"@))),
        },
        (RecvStateView::Decoding(d), Event::Decode(task)) => {
            let (p, after) = headers::decode_poll(d, c, task);
            match p {
                Progress::Pending => (q, after, Ok(ActionView::Wait)),
                Progress::Ready(Err(e)) => (q, after, Err(e)),
                Progress::Ready(Ok(h)) => match response_of(h, q.recv->0, q.stream_id) {
                    Ok(p) => (
                        RecvResponseView { state: RecvStateView::Finished, recv: None, ..q },
                        after,
                        Ok(ActionView::Done(p)),
                    ),
                    Err(e) => (RecvResponseView { recv: None, ..q }, after, Err(e)),
                },
            }
        },
        _ => (q, c, Err(ErrorView::Poll)),
    }
}

impl<R> RecvResponse<R> {
    /// A response of which nothing has arrived.
    pub fn new(recv: R, stream_id: StreamId) -> (q: RecvResponse<R>)
        ensures
            q@ == awaiting(recv, stream_id),
    {
        RecvResponse { state: RecvResponseState::Receiving(recv), stream_id, recv: None }
    }

    /// Takes the response a step further.
    pub fn poll(&mut self, conn: &mut ConnectionInner, event: Event<R>) -> (r: Result<
        Action<ResponseParts<R>>,
        Error,
    >)
        requires
            old(conn).wf(),
            can_go_on(old(self)@),
        ensures
            final(conn).wf(),
            (final(self)@, final(conn)@, action_model(r)) == recv_step(
                old(self)@,
                old(conn)@,
                event,
            ),
    {
        match (&self.state, event) {
            (RecvResponseState::Finished, _) => Err(
                Error::Internal("recv response polled after finish"),
            ),
            (_, Event::Pending) => Ok(Action::Wait),
            (_, Event::Failed(e)) => Err(e),
            (RecvResponseState::Receiving(_), Event::Ended) => Err(
                Error::peer("received an empty response"),
            ),
            (RecvResponseState::Receiving(_), Event::Frame(f)) => match f {
                HttpFrame::Headers(h) => {
                    let mut state = RecvResponseState::Decoding(
                        DecodeHeaders::new(h, self.stream_id),
                    );
                    std::mem::swap(&mut self.state, &mut state);
                    if let RecvResponseState::Receiving(r) = state {
                        self.recv = Some(r);
                    }
                    Ok(Action::Decode)
                },
                _ => Err(Error::peer("first frame is not headers")),
            },
            (RecvResponseState::Decoding(decode), Event::Decode(task)) => match decode.poll(
                conn,
                task,
            ) {
                Progress::Pending => Ok(Action::Wait),
                Progress::Ready(Err(e)) => Err(e),
                Progress::Ready(Ok(header)) => {
                    let recv = self.recv.take().unwrap();
                    match build_response(header, recv, self.stream_id) {
                        Ok(p) => {
                            self.state = RecvResponseState::Finished;
                            Ok(Action::Done(p))
                        },
                        Err(e) => Err(e),
                    }
                },
            },
            _ => Err(Error::Poll),
        }
    }
}

} // verus!
