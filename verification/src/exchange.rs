//! What a request sends, and what comes of the response, whatever the transport reports.

use vstd::prelude::*;

use crate::client::{
    Action, ActionView, Body, Builder, Event, RecvResponse, RecvResponseState, RecvResponseView,
    RecvStateView, Request, RequestBuilder, ResponseParts, ResponseView, SendRequest,
    SendRequestState, SendRequestView, SendStateView, StreamRequest, StreamRequestView, StreamState,
    StreamStateView, Streaming, StreamingView,
};
use crate::connection::{InnerView, TaskId};
use crate::error::{Error, ErrorView};
use crate::headers::{DecodeView, Progress};
use crate::proto::frame::{FrameView, HttpFrame};
use crate::proto::headers::{Header, HeaderView};
use crate::proto::settings::Settings;
use crate::qpack::{FieldView, HeaderField};
use crate::{buffer, client, connection, headers, proto, qpack, StreamId};

verus! {

// Putting a request together.

/// A builder keeps the settings that it was last given, and hands them to the client together
/// with the endpoint.
pub proof fn builder_keeps_settings<E>(b: Builder, s: Settings, endpoint: E)
    ensures
        client::configured(b, s).settings == s,
        client::client_of(b, endpoint).settings == b.settings,
        client::client_of(b, endpoint).endpoint == endpoint,
        client::client_of(client::configured(b, s), endpoint).settings == s,
{
}

/// Trailers replace those that a request had; the request itself stays.
pub proof fn trailers_are_replaced(b: RequestBuilder, trailers: Option<Vec<HeaderField>>)
    ensures
        client::with_trailers(b, trailers).request == b.request,
        client::with_trailers(b, trailers).trailers == trailers,
{
}

/// The fields that the header of a request consists of.
pub open spec fn sent_fields(request: Request) -> Seq<FieldView> {
    proto::fields::request_fields(
        request.method@,
        request.uri,
        request.fields@.map_values(|f: HeaderField| (f.name@, f.value@)),
    )
}

/// The fields that the trailers of a request consist of.
pub open spec fn sent_trailers(trailers: Vec<HeaderField>) -> Seq<FieldView> {
    trailers@.map_values(|f: HeaderField| (f.name@, f.value@))
}

/// What a request consists of: its method first, its path, its own authority and scheme if it has
/// them, and at the end its own fields, one by one and in order. Trailers are only fields.
pub proof fn sent_fields_are_its_own(request: Request, trailers: Vec<HeaderField>)
    ensures
        ({
            let sent = sent_fields(request);
            let own = request.fields@;
            &&& sent.len() >= own.len() + 3
            &&& sent[0] == (vstd::utf8::encode_utf8(":method"@), request.method@)
            &&& request.uri.scheme matches Some(v) ==> sent[1] == (
                vstd::utf8::encode_utf8(":scheme"@),
                v@,
            )
            &&& request.uri.authority matches Some(v) ==> sent[2] == (
                vstd::utf8::encode_utf8(":authority"@),
                v@,
            )
            &&& sent.len() == own.len() + (if request.uri.authority is Some {
                4int
            } else {
                3
            })
            &&& request.uri.path@.len() > 0 ==> sent[sent.len() - own.len() - 1] == (
                vstd::utf8::encode_utf8(":path"@),
                request.uri.path@,
            )
            &&& forall|i: int|
                0 <= i < own.len() ==> #[trigger] sent[sent.len() - own.len() + i] == (
                    own[i].name@,
                    own[i].value@,
                )
        }),
        sent_trailers(trailers).len() == trailers@.len(),
        forall|i: int|
            0 <= i < trailers@.len() ==> #[trigger] sent_trailers(trailers)[i] == (
                trailers@[i].name@,
                trailers@[i].value@,
            ),
{
    proto::fields::names_in_bytes();
}

/// A field is modelled by its name and its value.
pub proof fn field_model_is_faithful(f: HeaderField)
    ensures
        f@ == (f.name@, f.value@),
{
}

/// Fields are modelled one by one, in order.
pub proof fn field_models_are_faithful(fields: Vec<HeaderField>)
    ensures
        qpack::models(fields@) == sent_trailers(fields),
{
    assert(qpack::models(fields@) == sent_trailers(fields));
}

/// The header of a request consists of its own method, target and fields, and its trailers of its
/// own trailers.
pub proof fn request_is_its_parts(request: Request, trailers: Vec<HeaderField>)
    ensures
        proto::headers::list(client::header_of(request)) == sent_fields(request),
        proto::headers::list(client::trailer_of(qpack::models(trailers@))) == sent_trailers(
            trailers,
        ),
{
    let fields = qpack::models(request.fields@);
    assert(fields == request.fields@.map_values(|f: HeaderField| (f.name@, f.value@)));
    proto::fields::request_holds_its_parts(request.method@, request.uri, fields);
    let t = client::trailer_of(qpack::models(trailers@));
    proto::fields::fields_in_order(t);
    field_models_are_faithful(trailers);
    assert(proto::headers::list(t) == sent_trailers(trailers));
}

/// A request of which nothing was sent has all its parts, and no stream yet.
pub proof fn request_is_unsent<R>(b: RequestBuilder)
    ensures
        ({
            let q = client::unsent::<R>(b);
            &&& q.header matches Some(h) && proto::headers::list(h) == sent_fields(b.request)
            &&& q.body == Some(b.request.body@)
            &&& match b.trailers {
                Some(t) => q.trailers matches Some(h) && proto::headers::list(h) == sent_trailers(t),
                None => q.trailers is None,
            }
            &&& q.state == SendStateView::<R>::Opening
            &&& q.stream_id is None
            &&& q.recv is None
        }),
        ({
            let q = client::unstreamed::<R>(b);
            &&& q.state matches StreamStateView::Opening(h, body) && body == b.request.body@
                && proto::headers::list(h) == sent_fields(b.request)
            &&& q.trailers == (match b.trailers {
                Some(t) => Some(sent_trailers(t)),
                None => None,
            })
        }),
{
    match b.trailers {
        Some(t) => {
            request_is_its_parts(b.request, t);
            field_models_are_faithful(t);
        },
        None => {
            let fields = b.request.fields;
            request_is_its_parts(b.request, fields);
        },
    }
}

// A request that is sent as a whole.

/// The first thing that a request does, once its stream is open, is to write a headers frame with
/// the encoding, for that stream, of exactly the fields that the request consists of; unless the
/// peer does not take as many.
pub proof fn request_writes_its_header<R>(b: RequestBuilder, c: InnerView, id: StreamId, recv: R)
    ensures
        ({
            let (q, after, r) = client::send_step(
                client::unsent::<R>(b),
                c,
                Event::Opened(id, recv),
            );
            let fields = sent_fields(b.request);
            let (outcome, inner) = headers::encoding(c, id, fields);
            &&& after == inner
            &&& q.stream_id == Some(id)
            &&& q.recv == Some(recv)
            &&& q.header is None
            &&& q.body == Some(b.request.body@)
            &&& q.trailers == client::unsent::<R>(b).trailers
            &&& match outcome {
                Ok(block) => {
                    &&& r == Ok::<ActionView<ResponseView<R>>, ErrorView>(
                        ActionView::Write(FrameView::Headers(block)),
                    )
                    &&& q.state == SendStateView::<R>::Sending
                    &&& block == qpack::encoder::encoded(
                        c.inner.encoder_table,
                        id.0,
                        fields,
                    ).block
                },
                Err(e) => r == Err::<ActionView<ResponseView<R>>, ErrorView>(e) && q.state
                    == SendStateView::<R>::Opening,
            }
        }),
{
    request_is_unsent::<R>(b);
}

/// The header of a request is there when its stream is opened; if it is not, that is an error,
/// and nothing is written.
pub proof fn request_without_header<R>(
    q: SendRequestView<R>,
    c: InnerView,
    id: StreamId,
    recv: R,
)
    requires
        q.state is Opening,
    ensures
        ({
            let (next, after, r) = client::send_step(q, c, Event::Opened(id, recv));
            match q.header {
                None => {
                    &&& r == Err::<ActionView<ResponseView<R>>, ErrorView>(
                        ErrorView::Internal("header none"@),
                    )
                    &&& after == c
                    &&& next == (SendRequestView { recv: Some(recv), stream_id: Some(id), ..q })
                },
                Some(h) => {
                    let (outcome, inner) = headers::encoding(c, id, proto::headers::list(h));
                    &&& after == inner
                    &&& match outcome {
                        Ok(block) => {
                            &&& r == Ok::<ActionView<ResponseView<R>>, ErrorView>(
                                ActionView::Write(FrameView::Headers(block)),
                            )
                            &&& next == (SendRequestView {
                                header: None,
                                recv: Some(recv),
                                stream_id: Some(id),
                                state: SendStateView::Sending,
                                ..q
                            })
                        },
                        Err(e) => {
                            &&& r == Err::<ActionView<ResponseView<R>>, ErrorView>(e)
                            &&& next == (SendRequestView {
                                header: None,
                                recv: Some(recv),
                                stream_id: Some(id),
                                ..q
                            })
                        },
                    }
                },
            }
        }),
{
}

/// After its header a request writes its body, if it has one, exactly as it is; otherwise it
/// reads.
pub proof fn request_writes_its_body<R>(q: SendRequestView<R>, c: InnerView)
    requires
        q.state is Sending,
    ensures
        ({
            let (next, after, r) = client::send_step(q, c, Event::<R>::Written);
            &&& after == c
            &&& match q.body {
                Some(Some(payload)) => {
                    &&& r == Ok::<ActionView<ResponseView<R>>, ErrorView>(
                        ActionView::Write(FrameView::Data(payload)),
                    )
                    &&& next == (SendRequestView {
                        body: None,
                        state: SendStateView::SendingBody,
                        ..q
                    })
                },
                _ => reads_next(SendRequestView { body: None, ..q }, next, r),
            }
        }),
{
}

/// Whether a request goes on to read the response from its receiving side, which has to be there.
pub open spec fn reads_next<R>(
    q: SendRequestView<R>,
    next: SendRequestView<R>,
    r: Result<ActionView<ResponseView<R>>, ErrorView>,
) -> bool {
    match q.recv {
        Some(recv) => {
            &&& r == Ok::<ActionView<ResponseView<R>>, ErrorView>(ActionView::Receive)
            &&& next == (SendRequestView {
                recv: None,
                state: SendStateView::Receiving(recv),
                ..q
            })
        },
        None => {
            &&& r == Err::<ActionView<ResponseView<R>>, ErrorView>(
                ErrorView::Internal("Invalid receive state"@),
            )
            &&& next == q
        },
    }
}

/// After its body a request writes its trailers, if it has any, encoded for its stream; otherwise
/// it reads. After its trailers it reads.
pub proof fn request_writes_its_trailers<R>(q: SendRequestView<R>, c: InnerView)
    ensures
        q.state is SendingBody ==> {
            let (next, after, r) = client::send_step(q, c, Event::<R>::Written);
            match q.trailers {
                None => after == c && reads_next(q, next, r),
                Some(t) => match q.stream_id {
                    None => {
                        &&& after == c
                        &&& next == (SendRequestView { trailers: None, ..q })
                        &&& r == Err::<ActionView<ResponseView<R>>, ErrorView>(
                            ErrorView::Internal("stream_id is none"@),
                        )
                    },
                    Some(id) => {
                        let (outcome, inner) = headers::encoding(c, id, proto::headers::list(t));
                        &&& after == inner
                        &&& match outcome {
                            Ok(block) => {
                                &&& r == Ok::<ActionView<ResponseView<R>>, ErrorView>(
                                    ActionView::Write(FrameView::Headers(block)),
                                )
                                &&& next == (SendRequestView {
                                    trailers: None,
                                    state: SendStateView::SendingTrailers,
                                    ..q
                                })
                            },
                            Err(e) => {
                                &&& r == Err::<ActionView<ResponseView<R>>, ErrorView>(e)
                                &&& next == (SendRequestView { trailers: None, ..q })
                            },
                        }
                    },
                },
            }
        },
        q.state is SendingTrailers ==> {
            let (next, after, r) = client::send_step(q, c, Event::<R>::Written);
            after == c && reads_next(q, next, r)
        },
{
}

/// The first frame of a response has to be a headers frame, whose block is then decoded for the
/// stream of the request; the receiving side is kept for the body. Any other frame, and the end of
/// the stream, is an error, and changes nothing.
pub proof fn request_reads_a_header<R>(
    q: SendRequestView<R>,
    c: InnerView,
    recv: R,
    frame: HttpFrame,
)
    requires
        q.state == SendStateView::Receiving(recv),
    ensures
        client::send_step(q, c, Event::<R>::Ended) == (
            q,
            c,
            Err::<ActionView<ResponseView<R>>, ErrorView>(
                ErrorView::Peer("received an empty response"@),
            ),
        ),
        client::send_step(q, c, Event::<R>::Frame(frame)) == (match frame@ {
            FrameView::Headers(block) => if q.stream_id is Some {
                (
                    SendRequestView {
                        recv: Some(recv),
                        state: SendStateView::Decoding(
                            DecodeView { frame: Some(block), stream_id: q.stream_id->0 },
                        ),
                        ..q
                    },
                    c,
                    Ok::<ActionView<ResponseView<R>>, ErrorView>(ActionView::Decode),
                )
            } else {
                (
                    q,
                    c,
                    Err::<ActionView<ResponseView<R>>, ErrorView>(
                        ErrorView::Internal("Stream id is none"@),
                    ),
                )
            },
            _ => (
                q,
                c,
                Err::<ActionView<ResponseView<R>>, ErrorView>(
                    ErrorView::Peer("first frame is not headers"@),
                ),
            ),
        }),
{
}

/// Once the header of the response is decoded, the request is finished, and the response has the
/// status and the fields of that header, the receiving side and the stream of the request. A
/// header without a status is no response. While the block waits, or if it cannot be decoded, the
/// request stays as it is.
pub proof fn request_delivers_its_response<R>(
    q: SendRequestView<R>,
    c: InnerView,
    d: DecodeView,
    task: TaskId,
)
    requires
        q.state == SendStateView::<R>::Decoding(d),
    ensures
        ({
            let (next, after, r) = client::send_step(q, c, Event::<R>::Decode(task));
            let (progress, inner) = headers::decode_poll(d, c, task);
            &&& after == inner
            &&& match progress {
                Progress::Pending => next == q && r == Ok::<
                    ActionView<ResponseView<R>>,
                    ErrorView,
                >(ActionView::Wait),
                Progress::Ready(Err(e)) => next == q && r == Err::<
                    ActionView<ResponseView<R>>,
                    ErrorView,
                >(e),
                Progress::Ready(Ok(h)) => {
                    &&& next.state == SendStateView::<R>::Finished
                    &&& next.recv is None
                    &&& next.header == q.header
                    &&& next.body == q.body
                    &&& next.trailers == q.trailers
                    &&& if q.recv is None {
                        r == Err::<ActionView<ResponseView<R>>, ErrorView>(
                            ErrorView::Internal("recv is none"@),
                        )
                    } else if q.stream_id is None {
                        r == Err::<ActionView<ResponseView<R>>, ErrorView>(
                            ErrorView::Internal("stream is none"@),
                        )
                    } else {
                        next.stream_id is None && delivers(h, q.recv->0, q.stream_id->0, r)
                    }
                },
            }
        }),
{
}

/// Whether an outcome is the response that a header makes up: its status, its fields, and where
/// the body comes from; or the error that it has no status.
pub open spec fn delivers<R>(
    h: HeaderView,
    recv: R,
    stream_id: StreamId,
    r: Result<ActionView<ResponseView<R>>, ErrorView>,
) -> bool {
    match h.status {
        Some(status) => r == Ok::<ActionView<ResponseView<R>>, ErrorView>(
            ActionView::Done(ResponseView { status, fields: h.fields, recv, stream_id }),
        ),
        None => r == Err::<ActionView<ResponseView<R>>, ErrorView>(
            ErrorView::Proto(proto::connection::ErrorView::InvalidResponse("missing status"@)),
        ),
    }
}

/// The response that a header makes up has its status and its fields.
pub proof fn response_is_its_header<R>(h: HeaderView, recv: R, stream_id: StreamId)
    ensures
        match h.status {
            Some(status) => client::response_of(h, recv, stream_id) == Ok::<
                ResponseView<R>,
                ErrorView,
            >(ResponseView { status, fields: h.fields, recv, stream_id }),
            None => client::response_of(h, recv, stream_id) == Err::<ResponseView<R>, ErrorView>(
                ErrorView::Proto(proto::connection::ErrorView::InvalidResponse("missing status"@)),
            ),
        },
{
}

/// A response that is delivered has the status and the fields of the header, and the receiving
/// side and the stream of the request. A request that reads on hands over its receiving side.
pub proof fn delivered_response_is_the_header<R>(
    h: HeaderView,
    recv: R,
    stream_id: StreamId,
    r: Result<ActionView<ResponseView<R>>, ErrorView>,
    q: SendRequestView<R>,
    next: SendRequestView<R>,
)
    ensures
        delivers(h, recv, stream_id, r) && h.status is Some ==> (r matches Ok(ActionView::Done(p))
            && h.status == Some(p.status) && p.fields == h.fields && p.recv == recv && p.stream_id
            == stream_id),
        delivers(h, recv, stream_id, r) && h.status is None ==> r == Err::<
            ActionView<ResponseView<R>>,
            ErrorView,
        >(ErrorView::Proto(proto::connection::ErrorView::InvalidResponse("missing status"@))),
        reads_next(q, next, r) && q.recv is Some ==> {
            &&& r == Ok::<ActionView<ResponseView<R>>, ErrorView>(ActionView::Receive)
            &&& next.state == SendStateView::Receiving(q.recv->0)
            &&& next.recv is None
            &&& next.header == q.header
            &&& next.body == q.body
            &&& next.trailers == q.trailers
            &&& next.stream_id == q.stream_id
        },
        reads_next(q, next, r) && q.recv is None ==> r == Err::<
            ActionView<ResponseView<R>>,
            ErrorView,
        >(ErrorView::Internal("Invalid receive state"@)) && next == q,
{
}

/// Until something happens a request waits, and a failure of the transport is its failure; both
/// change nothing. What a request does not wait for is refused, and so is everything once it is
/// finished.
pub proof fn request_stays_as_it_is<R>(q: SendRequestView<R>, c: InnerView, event: Event<R>)
    ensures
        q.state is Finished ==> client::send_step(q, c, event) == (
            q,
            c,
            Err::<ActionView<ResponseView<R>>, ErrorView>(ErrorView::Poll),
        ),
        q.state !is Finished ==> client::send_step(q, c, Event::<R>::Pending) == (
            q,
            c,
            Ok::<ActionView<ResponseView<R>>, ErrorView>(ActionView::Wait),
        ),
        q.state !is Finished ==> (event matches Event::Failed(e) ==> client::send_step(q, c, event)
            == (q, c, Err::<ActionView<ResponseView<R>>, ErrorView>(e@))),
        !(event is Pending) && !(event is Failed) && !(q.state is Opening && event is Opened) && !((
        q.state is Sending || q.state is SendingBody || q.state is SendingTrailers)
            && event is Written) && !(q.state is Receiving && (event is Ended || event is Frame))
            && !(q.state is Decoding && event is Decode) ==> client::send_step(q, c, event) == (
            q,
            c,
            Err::<ActionView<ResponseView<R>>, ErrorView>(ErrorView::Poll),
        ),
{
}

// A request of which the body is continued.

/// The first thing that a streamed request does, once its stream is open, is to write a headers
/// frame with the encoding, for that stream, of exactly the fields that the request consists of;
/// unless the peer does not take as many, which ends it.
pub proof fn streamed_request_writes_its_header<R>(
    b: RequestBuilder,
    c: InnerView,
    id: StreamId,
    recv: R,
)
    ensures
        ({
            let (q, after, r) = client::stream_step(
                client::unstreamed::<R>(b),
                c,
                Event::Opened(id, recv),
            );
            let fields = sent_fields(b.request);
            let (outcome, inner) = headers::encoding(c, id, fields);
            &&& after == inner
            &&& q.trailers == client::unstreamed::<R>(b).trailers
            &&& match outcome {
                Ok(block) => {
                    &&& r == Ok::<ActionView<StreamingView<R>>, ErrorView>(
                        ActionView::Write(FrameView::Headers(block)),
                    )
                    &&& q.state == StreamStateView::Sending(id, recv, b.request.body@)
                    &&& block == qpack::encoder::encoded(
                        c.inner.encoder_table,
                        id.0,
                        fields,
                    ).block
                },
                Err(e) => r == Err::<ActionView<StreamingView<R>>, ErrorView>(e) && q.state
                    == StreamStateView::<R>::Finished,
            }
        }),
{
    request_is_unsent::<R>(b);
}

/// In general: the header that a streamed request holds is what it writes first.
pub proof fn streamed_request_opens<R>(
    q: StreamRequestView<R>,
    c: InnerView,
    h: HeaderView,
    body: Option<Seq<u8>>,
    id: StreamId,
    recv: R,
)
    requires
        q.state == StreamStateView::<R>::Opening(h, body),
    ensures
        ({
            let (next, after, r) = client::stream_step(q, c, Event::Opened(id, recv));
            let (outcome, inner) = headers::encoding(c, id, proto::headers::list(h));
            &&& after == inner
            &&& match outcome {
                Ok(block) => {
                    &&& r == Ok::<ActionView<StreamingView<R>>, ErrorView>(
                        ActionView::Write(FrameView::Headers(block)),
                    )
                    &&& next == (StreamRequestView {
                        state: StreamStateView::Sending(id, recv, body),
                        ..q
                    })
                },
                Err(e) => {
                    &&& r == Err::<ActionView<StreamingView<R>>, ErrorView>(e)
                    &&& next == (StreamRequestView { state: StreamStateView::Finished, ..q })
                },
            }
        }),
{
}

/// After its header a streamed request writes what there is of its body, exactly as it is. After
/// that, or if there is nothing, it has begun: it hands out its own stream, its trailers, and the
/// response that is awaited on its own receiving side.
pub proof fn streamed_request_goes_on<R>(
    q: StreamRequestView<R>,
    c: InnerView,
    id: StreamId,
    recv: R,
    payload: Seq<u8>,
)
    ensures
        q.state == StreamStateView::Sending(id, recv, Some(payload)) ==> client::stream_step(
            q,
            c,
            Event::<R>::Written,
        ) == (
            StreamRequestView { state: StreamStateView::SendingBody(id, recv), ..q },
            c,
            Ok::<ActionView<StreamingView<R>>, ErrorView>(
                ActionView::Write(FrameView::Data(payload)),
            ),
        ),
        q.state == StreamStateView::Sending(id, recv, None) || q.state
            == StreamStateView::SendingBody(id, recv) ==> client::stream_step(
            q,
            c,
            Event::<R>::Written,
        ) == (
            StreamRequestView { state: StreamStateView::<R>::Finished, trailers: None },
            c,
            Ok::<ActionView<StreamingView<R>>, ErrorView>(
                ActionView::Done(
                    StreamingView {
                        stream_id: id,
                        trailers: q.trailers,
                        recv: RecvResponseView {
                            state: RecvStateView::Receiving(recv),
                            stream_id: id,
                            recv: None,
                        },
                    },
                ),
            ),
        ),
{
}

/// Until something happens a streamed request waits; a failure of the transport ends it. What it
/// does not wait for is refused.
pub proof fn streamed_request_stays_as_it_is<R>(
    q: StreamRequestView<R>,
    c: InnerView,
    event: Event<R>,
)
    ensures
        client::stream_step(q, c, Event::<R>::Pending) == (
            q,
            c,
            Ok::<ActionView<StreamingView<R>>, ErrorView>(ActionView::Wait),
        ),
        event matches Event::Failed(e) ==> client::stream_step(q, c, event) == (
            StreamRequestView { state: StreamStateView::Finished, ..q },
            c,
            Err::<ActionView<StreamingView<R>>, ErrorView>(e@),
        ),
        !(event is Pending) && !(event is Failed) && !(q.state is Opening && event is Opened) && !((
        q.state is Sending || q.state is SendingBody) && event is Written) ==> client::stream_step(
            q,
            c,
            event,
        ) == (q, c, Err::<ActionView<StreamingView<R>>, ErrorView>(ErrorView::Poll)),
{
}

// A response that is awaited.

/// An awaited response of which nothing has arrived reads from its receiving side.
pub proof fn response_is_awaited<R>(recv: R, stream_id: StreamId)
    ensures
        client::awaiting(recv, stream_id) == (RecvResponseView {
            state: RecvStateView::Receiving(recv),
            stream_id,
            recv: None,
        }),
{
}

/// The first frame of an awaited response has to be a headers frame, whose block is then decoded
/// for the stream of the response. Any other frame, and the end of the stream, is an error, and
/// changes nothing.
pub proof fn response_reads_a_header<R>(
    q: RecvResponseView<R>,
    c: InnerView,
    recv: R,
    frame: HttpFrame,
)
    requires
        q.state == RecvStateView::Receiving(recv),
    ensures
        client::recv_step(q, c, Event::<R>::Ended) == (
            q,
            c,
            Err::<ActionView<ResponseView<R>>, ErrorView>(
                ErrorView::Peer("received an empty response"@),
            ),
        ),
        client::recv_step(q, c, Event::<R>::Frame(frame)) == (match frame@ {
            FrameView::Headers(block) => (
                RecvResponseView {
                    state: RecvStateView::Decoding(
                        DecodeView { frame: Some(block), stream_id: q.stream_id },
                    ),
                    stream_id: q.stream_id,
                    recv: Some(recv),
                },
                c,
                Ok::<ActionView<ResponseView<R>>, ErrorView>(ActionView::Decode),
            ),
            _ => (
                q,
                c,
                Err::<ActionView<ResponseView<R>>, ErrorView>(
                    ErrorView::Peer("first frame is not headers"@),
                ),
            ),
        }),
{
}

/// Once the header of an awaited response is decoded, it is delivered with the status and the
/// fields of that header, its own receiving side and its own stream, and the response is finished.
/// A header without a status is no response. While the block waits, or if it cannot be decoded,
/// the response stays as it is.
pub proof fn awaited_response_is_delivered<R>(
    q: RecvResponseView<R>,
    c: InnerView,
    d: DecodeView,
    recv: R,
    task: TaskId,
)
    requires
        q.state == RecvStateView::<R>::Decoding(d),
        q.recv == Some(recv),
    ensures
        ({
            let (next, after, r) = client::recv_step(q, c, Event::<R>::Decode(task));
            let (progress, inner) = headers::decode_poll(d, c, task);
            &&& after == inner
            &&& match progress {
                Progress::Pending => next == q && r == Ok::<
                    ActionView<ResponseView<R>>,
                    ErrorView,
                >(ActionView::Wait),
                Progress::Ready(Err(e)) => next == q && r == Err::<
                    ActionView<ResponseView<R>>,
                    ErrorView,
                >(e),
                Progress::Ready(Ok(h)) => {
                    &&& delivers(h, recv, q.stream_id, r)
                    &&& next == (RecvResponseView {
                        state: if h.status is Some {
                            RecvStateView::Finished
                        } else {
                            q.state
                        },
                        recv: None,
                        ..q
                    })
                },
            }
        }),
{
}

/// From the frame to the response: an awaited response whose first frame decodes on its stream to
/// a header with a status is that header's status and fields, with its own receiving side and its
/// own stream.
pub proof fn awaited_response_is_what_was_decoded<R>(
    c: InnerView,
    recv: R,
    id: StreamId,
    frame: HttpFrame,
    task: TaskId,
    h: HeaderView,
)
    requires
        frame@ is Headers,
        connection::decoding(c, task, id, frame@->Headers_0).0 == Ok::<
            Option<HeaderView>,
            ErrorView,
        >(Some(h)),
        h.status is Some,
    ensures
        ({
            let start = RecvResponseView {
                state: RecvStateView::Receiving(recv),
                stream_id: id,
                recv: None,
            };
            let framed = client::recv_step(start, c, Event::Frame(frame));
            let decoded = client::recv_step(framed.0, framed.1, Event::Decode(task));
            &&& framed.2 == Ok::<ActionView<ResponseView<R>>, ErrorView>(ActionView::Decode)
            &&& decoded.2 == Ok::<ActionView<ResponseView<R>>, ErrorView>(
                ActionView::Done(
                    ResponseView { status: h.status->0, fields: h.fields, recv, stream_id: id },
                ),
            )
        }),
{
}

/// Until something happens an awaited response waits, and a failure of the transport is its
/// failure; both change nothing. What it does not wait for is refused, and so is everything once
/// it is finished.
pub proof fn response_stays_as_it_is<R>(q: RecvResponseView<R>, c: InnerView, event: Event<R>)
    ensures
        q.state is Finished ==> client::recv_step(q, c, event) == (
            q,
            c,
            Err::<ActionView<ResponseView<R>>, ErrorView>(
                ErrorView::Internal("recv response polled after finish"@),
            ),
        ),
        q.state !is Finished ==> client::recv_step(q, c, Event::<R>::Pending) == (
            q,
            c,
            Ok::<ActionView<ResponseView<R>>, ErrorView>(ActionView::Wait),
        ),
        q.state !is Finished ==> (event matches Event::Failed(e) ==> client::recv_step(q, c, event)
            == (q, c, Err::<ActionView<ResponseView<R>>, ErrorView>(e@))),
        q.state !is Finished && !(event is Pending) && !(event is Failed) && !(q.state is Receiving
            && (event is Ended || event is Frame)) && !(q.state is Decoding && event is Decode)
            ==> client::recv_step(q, c, event) == (
            q,
            c,
            Err::<ActionView<ResponseView<R>>, ErrorView>(ErrorView::Poll),
        ),
        client::can_go_on(q) <==> (q.state is Decoding ==> q.recv is Some),
{
}

// What the models leave out: nothing.

/// The states of requests and responses have these names.
pub proof fn states_have_names<R>(recv: R, d: DecodeView)
    ensures
        client::send_state_name(SendStateView::<R>::Opening) == "SendRequestState::Opening"@,
        client::send_state_name(SendStateView::<R>::Sending) == "SendRequestState::Sending"@,
        client::send_state_name(SendStateView::<R>::SendingBody)
            == "SendRequestState::SendingBody"@,
        client::send_state_name(SendStateView::<R>::SendingTrailers)
            == "SendRequestState::SendingTrailers"@,
        client::send_state_name(SendStateView::Receiving(recv)) == "SendRequestState::Receiving"@,
        client::send_state_name(SendStateView::<R>::Decoding(d)) == "SendRequestState::Decoding"@,
        client::send_state_name(SendStateView::<R>::Finished) == "SendRequestState::Finished"@,
        client::recv_state_name(RecvStateView::Receiving(recv)) == "RecvResponseState::Recieving"@,
        client::recv_state_name(RecvStateView::<R>::Decoding(d)) == "RecvResponseState::Decoding"@,
        client::recv_state_name(RecvStateView::<R>::Finished) == "RecvResponseState::Finished"@,
{
}

/// The model of a header that may be there holds the header.
pub open spec fn maybe(h: Option<Header>) -> Option<HeaderView> {
    match h {
        Some(h) => Some(h@),
        None => None,
    }
}

/// The models of requests and responses hold everything that these do.
pub proof fn request_models_are_faithful<R>(
    q: SendRequest<R>,
    s: StreamRequest<R>,
    r: RecvResponse<R>,
)
    ensures
        q@.header == maybe(q.header),
        q@.trailers == maybe(q.trailers),
        q@.body == (match q.body {
            Some(Body::Buf(b)) => Some(Some(buffer::frozen(b))),
            Some(Body::Empty) => Some(None),
            None => None,
        }),
        q@.state == (match q.state {
            SendRequestState::Opening => SendStateView::Opening,
            SendRequestState::Sending => SendStateView::Sending,
            SendRequestState::SendingBody => SendStateView::SendingBody,
            SendRequestState::SendingTrailers => SendStateView::SendingTrailers,
            SendRequestState::Receiving(recv) => SendStateView::Receiving(recv),
            SendRequestState::Decoding(d) => SendStateView::Decoding(d@),
            SendRequestState::Finished => SendStateView::Finished,
        }),
        q@.stream_id == q.stream_id,
        q@.recv == q.recv,
        s@.state == (match s.state {
            StreamState::Opening(h, b) => StreamStateView::Opening(h@, b@),
            StreamState::Sending(id, recv, b) => StreamStateView::Sending(id, recv, b@),
            StreamState::SendingBody(id, recv) => StreamStateView::SendingBody(id, recv),
            StreamState::Finished => StreamStateView::Finished,
        }),
        s@.trailers == (match s.trailers {
            Some(t) => Some(sent_trailers(t)),
            None => None,
        }),
        r@.state == (match r.state {
            RecvResponseState::Receiving(recv) => RecvStateView::Receiving(recv),
            RecvResponseState::Decoding(d) => RecvStateView::Decoding(d@),
            RecvResponseState::Finished => RecvStateView::Finished,
        }),
        r@.stream_id == r.stream_id,
        r@.recv == r.recv,
{
    if let Some(t) = s.trailers {
        assert(qpack::models(t@) == sent_trailers(t));
    }
}

/// The models of what is to be done, and of what comes of it, hold everything that these do.
pub proof fn outcome_models_are_faithful<R>(
    a: Result<Action<ResponseParts<R>>, Error>,
    b: Result<Action<Streaming<R>>, Error>,
    p: ResponseParts<R>,
    s: Streaming<R>,
    h: Header,
    f: HttpFrame,
)
    ensures
        client::action_model(a) == (match a {
            Ok(Action::Wait) => Ok(ActionView::Wait),
            Ok(Action::Write(frame)) => Ok(ActionView::Write(frame@)),
            Ok(Action::Receive) => Ok(ActionView::Receive),
            Ok(Action::Decode) => Ok(ActionView::Decode),
            Ok(Action::Done(parts)) => Ok(ActionView::Done(parts@)),
            Err(e) => Err(e@),
        }),
        client::streaming_model(b) == (match b {
            Ok(Action::Wait) => Ok(ActionView::Wait),
            Ok(Action::Write(frame)) => Ok(ActionView::Write(frame@)),
            Ok(Action::Receive) => Ok(ActionView::Receive),
            Ok(Action::Decode) => Ok(ActionView::Decode),
            Ok(Action::Done(streaming)) => Ok(ActionView::Done(streaming@)),
            Err(e) => Err(e@),
        }),
        p@ == (ResponseView {
            status: p.status,
            fields: sent_trailers(p.fields),
            recv: p.recv,
            stream_id: p.stream_id,
        }),
        s@ == (StreamingView {
            stream_id: s.stream_id,
            trailers: match s.trailers {
                Some(t) => Some(sent_trailers(t)),
                None => None,
            },
            recv: s.recv@,
        }),
        h@ == (HeaderView {
            method: bytes_model(h.method),
            scheme: bytes_model(h.scheme),
            authority: bytes_model(h.authority),
            path: bytes_model(h.path),
            status: h.status,
            fields: sent_trailers(h.fields),
        }),
        f@ == (match f {
            HttpFrame::Data(d) => FrameView::Data(buffer::frozen(d.payload)),
            HttpFrame::Headers(d) => FrameView::Headers(buffer::frozen(d.encoded)),
            HttpFrame::CancelPush(id) => FrameView::CancelPush(id),
            HttpFrame::Settings(settings) => FrameView::Settings(settings),
            HttpFrame::Goaway(id) => FrameView::Goaway(id),
            HttpFrame::MaxPushId(id) => FrameView::MaxPushId(id),
        }),
{
    assert(qpack::models(p.fields@) == sent_trailers(p.fields));
    assert(qpack::models(h.fields@) == sent_trailers(h.fields));
    if let Some(t) = s.trailers {
        assert(qpack::models(t@) == sent_trailers(t));
    }
}

/// The model of bytes that may be there holds the bytes.
pub open spec fn bytes_model(b: Option<Vec<u8>>) -> Option<Seq<u8>> {
    match b {
        Some(v) => Some(v@),
        None => None,
    }
}

/// A model of what may be there is there if what it models is, and is the model of it.
pub proof fn optional_models_are_faithful(h: Option<Header>, b: Option<Vec<u8>>)
    ensures
        maybe(h) is Some <==> h is Some,
        h is Some ==> maybe(h) == Some(h->0@),
        bytes_model(b) is Some <==> b is Some,
        b is Some ==> bytes_model(b) == Some(b->0@),
{
}

} // verus!
