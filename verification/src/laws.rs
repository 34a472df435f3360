//! What holds of connections and requests, whatever the transport reports.

use vstd::prelude::*;

use crate::client::{
    ActionView, Event, RecvResponseView, RequestBuilder, ResponseView, SendRequestView,
    SendStateView, StreamRequestView, StreamStateView, StreamingView,
};
use crate::connection::{ControlEvent, InnerView, TaskId};
use crate::error::{Error, ErrorCode, ErrorView};
use crate::proto::frame::{FrameView, HttpFrame};
use crate::proto::headers::HeaderView;
use crate::qpack::{decoder, FieldView};
use crate::streams::NewUni;
use crate::{client, connection, headers, proto, qpack, StreamId};

verus! {

// Connections.

/// A task that waits for fewer insertions than `n` is among those that do.
proof fn waiter_is_listed(tasks: Map<usize, TaskId>, n: nat, k: usize)
    requires
        k < n <= usize::MAX,
        tasks.contains_key(k),
    ensures
        connection::waiting_below(tasks, n).contains(tasks[k]),
    decreases n,
{
    let shorter = connection::waiting_below(tasks, (n - 1) as nat);
    if k < n - 1 {
        waiter_is_listed(tasks, (n - 1) as nat, k);
        let i = choose|i: int| 0 <= i < shorter.len() && shorter[i] == tasks[k];
        assert(connection::waiting_below(tasks, n)[i] == tasks[k]);
    } else {
        assert(connection::waiting_below(tasks, n).last() == tasks[k]);
    }
}

/// No waiting task is lost: when insertions arrive, each is either woken or still waits, and it
/// is woken exactly if there are more insertions now than it waited for.
pub proof fn no_waiter_is_lost(v: InnerView, id: StreamId, bytes: Seq<u8>, k: usize)
    requires
        decoder::run(v.inner.decoder_table, bytes).2 is Ok,
        v.blocked_streams.contains_key(k),
    ensures
        ({
            let after = connection::after_encoder_data(v, id, bytes);
            if k < after.inner.decoder_table.inserted() as usize {
                after.wakes.contains(v.blocked_streams[k]) && !after.blocked_streams.contains_key(k)
            } else {
                after.blocked_streams.contains_key(k) && after.blocked_streams[k]
                    == v.blocked_streams[k]
            }
        }),
{
    let after = connection::after_encoder_data(v, id, bytes);
    let n = after.inner.decoder_table.inserted() as usize;
    if k < n {
        waiter_is_listed(v.blocked_streams, n as nat, k);
        let woken = connection::waiting_below(v.blocked_streams, n as nat);
        let i = choose|i: int| 0 <= i < woken.len() && woken[i] == v.blocked_streams[k];
        assert(after.wakes[v.wakes.len() + i] == v.blocked_streams[k]);
    }
}

/// The tasks below a number are those below a smaller one, and the others among them.
proof fn waiting_in_parts(tasks: Map<usize, TaskId>, low: usize, high: nat)
    requires
        low <= high <= usize::MAX,
    ensures
        connection::waiting_below(tasks, high) == connection::waiting_below(tasks, low as nat)
            + connection::waiting_below(
            tasks.restrict(Set::new(|k: usize| k >= low)),
            high,
        ),
    decreases high,
{
    let rest = tasks.restrict(Set::new(|k: usize| k >= low));
    if high == low {
        nobody_below(rest, high);
        assert(connection::waiting_below(tasks, high) + Seq::<TaskId>::empty()
            == connection::waiting_below(tasks, high));
    } else {
        waiting_in_parts(tasks, low, (high - 1) as nat);
        let top = (high - 1) as usize;
        assert(rest.contains_key(top) == tasks.contains_key(top));
        let a = connection::waiting_below(tasks, low as nat);
        let b = connection::waiting_below(rest, (high - 1) as nat);
        if tasks.contains_key(top) {
            assert((a + b).push(tasks[top]) == a + b.push(tasks[top]));
        }
    }
}

/// Nobody waits below a number that all waiters have reached.
proof fn nobody_below(tasks: Map<usize, TaskId>, n: nat)
    requires
        n <= usize::MAX,
        forall|k: usize| k < n ==> !tasks.contains_key(k),
    ensures
        connection::waiting_below(tasks, n) == Seq::<TaskId>::empty(),
    decreases n,
{
    if n > 0 {
        assert(!tasks.contains_key((n - 1) as usize));
        nobody_below(tasks, (n - 1) as nat);
    }
}

/// It does not matter in what pieces the encoder stream arrives: the same insertions are made,
/// the same bytes are left over, and the same tasks are woken, in the same order.
pub proof fn encoder_data_in_pieces(v: InnerView, id: StreamId, first: Seq<u8>, second: Seq<u8>)
    requires
        v.inner.decoder_table.wf(),
        decoder::run(v.inner.decoder_table, first).2 is Ok,
        decoder::run(v.inner.decoder_table, first + second).2 is Ok,
    ensures
        ({
            let mid = connection::after_encoder_data(v, id, first);
            let last = connection::after_encoder_data(mid, id, (mid.recv_encoder->0).1 + second);
            let whole = connection::after_encoder_data(v, id, first + second);
            &&& last.inner.decoder_table == whole.inner.decoder_table
            &&& last.recv_encoder == whole.recv_encoder
            &&& last.blocked_streams == whole.blocked_streams
            &&& last.wakes == whole.wakes
        }),
{
    let (t1, used, _) = decoder::run(v.inner.decoder_table, first);
    let left = first.skip(used as int);
    let (t2, more, _) = decoder::run(t1, left + second);
    qpack::laws::encoder_stream_in_pieces(v.inner.decoder_table, first, second);
    decoder::run_grows(t1, left + second);
    decoder::run_grows(v.inner.decoder_table, first);
    let mid = connection::after_encoder_data(v, id, first);
    let last = connection::after_encoder_data(mid, id, left + second);
    let whole = connection::after_encoder_data(v, id, first + second);
    assert((mid.recv_encoder->0).1 == left);
    assert((left + second).skip(more as int) == (first + second).skip((used + more) as int));
    let low = t1.inserted() as usize;
    let high = t2.inserted() as usize;
    waiting_in_parts(v.blocked_streams, low, high as nat);
    assert(last.wakes == whole.wakes);
    assert(last.blocked_streams == whole.blocked_streams);
}

/// A critical stream that is open stays the one that it is, whatever other streams come.
pub proof fn first_critical_streams_stay(
    v: InnerView,
    resolved: Seq<(usize, Result<NewUni, Error>)>,
)
    ensures
        v.control is Some ==> connection::with_unis(v, resolved).control == v.control,
        v.recv_encoder is Some ==> connection::with_unis(v, resolved).recv_encoder
            == v.recv_encoder,
        v.recv_decoder is Some ==> connection::with_unis(v, resolved).recv_decoder
            == v.recv_decoder,
        v.error is Some ==> connection::with_unis(v, resolved).error is Some,
    decreases resolved.len(),
{
    if resolved.len() > 0 {
        first_critical_streams_stay(v, resolved.drop_last());
    }
}

/// Before the settings no other frame is taken on the control stream: it is an error, and the
/// stream is not read on.
pub proof fn settings_come_first(v: InnerView, frame: HttpFrame)
    requires
        v.control is Some,
        v.inner.remote_settings is None,
        frame !is Settings,
    ensures
        ({
            let (after, read_on) = connection::after_control(v, ControlEvent::Frame(frame));
            &&& !read_on
            &&& after.inner == v.inner
            &&& after.error matches Some((code, _)) && (code == ErrorCode::MissingSettings || code
                == ErrorCode::FrameUnexpected)
        }),
{
}

/// A header that one end encodes is what the other end decodes, once it has read what the first
/// one has to send on its encoder stream. Nobody has to wait.
pub proof fn sent_header_is_received(
    sender: InnerView,
    receiver: InnerView,
    encoder_stream: StreamId,
    id: StreamId,
    task: TaskId,
    h: HeaderView,
)
    requires
        proto::laws::in_step(sender.inner, receiver.inner),
        !proto::connection::too_large(sender.inner, proto::headers::list(h)),
        proto::headers::valid(h),
        forall|i: int|
            0 <= i < proto::headers::list(h).len() ==> #[trigger] qpack::laws::writable(
                proto::headers::list(h)[i],
            ),
    ensures
        ({
            let (r, after) = headers::encoding(sender, id, proto::headers::list(h));
            let arrived = connection::after_encoder_data(
                receiver,
                encoder_stream,
                after.inner.pending_encoder,
            );
            &&& r matches Ok(block)
            &&& connection::decoding(arrived, task, id, block).0 == Ok::<_, ErrorView>(Some(h))
            &&& connection::decoding(arrived, task, id, block).1.blocked_streams
                == arrived.blocked_streams
        }),
{
    proto::laws::header_round_trip(sender.inner, receiver.inner, id, h);
}

/// A header that relies on insertions which have not arrived makes its task wait for them.
pub proof fn early_header_waits(
    sender: InnerView,
    receiver: InnerView,
    id: StreamId,
    task: TaskId,
    fields: Seq<FieldView>,
)
    requires
        sender.inner.encoder_table.wf(),
        receiver.inner.decoder_table.wf(),
        qpack::laws::in_sync(sender.inner.encoder_table, receiver.inner.decoder_table),
        !proto::connection::too_large(sender.inner, fields),
        qpack::encoder::encoded(sender.inner.encoder_table, id.0, fields).required
            > receiver.inner.decoder_table.inserted(),
    ensures
        ({
            let required = qpack::encoder::encoded(
                sender.inner.encoder_table,
                id.0,
                fields,
            ).required;
            let (r, _) = headers::encoding(sender, id, fields);
            &&& r matches Ok(block)
            &&& connection::decoding(receiver, task, id, block) == (
                Ok::<Option<HeaderView>, ErrorView>(None),
                connection::with_blocked(receiver, required as usize, task),
            )
        }),
{
    qpack::laws::decode_waits(
        sender.inner.encoder_table,
        receiver.inner.decoder_table,
        id.0,
        fields,
    );
}

// Requests.

/// What holds of a request at every point: the receiving side and the stream are known where
/// they are needed.
pub open spec fn consistent<R>(q: SendRequestView<R>) -> bool {
    match q.state {
        SendStateView::Opening => true,
        SendStateView::Sending
        | SendStateView::SendingBody
        | SendStateView::SendingTrailers => q.recv is Some && q.stream_id is Some,
        SendStateView::Receiving(_) => q.stream_id is Some,
        SendStateView::Decoding(d) => q.recv is Some && q.stream_id == Some(d.stream_id)
            && d.frame is Some,
        SendStateView::Finished => true,
    }
}

/// How far a request is, as a number.
pub open spec fn rank<R>(state: SendStateView<R>) -> nat {
    match state {
        SendStateView::Opening => 0,
        SendStateView::Sending => 1,
        SendStateView::SendingBody => 2,
        SendStateView::SendingTrailers => 3,
        SendStateView::Receiving(_) => 4,
        SendStateView::Decoding(_) => 5,
        SendStateView::Finished => 6,
    }
}

/// A new request is consistent, and every step keeps it so.
pub proof fn requests_stay_consistent<R>(
    b: RequestBuilder,
    q: SendRequestView<R>,
    c: InnerView,
    event: Event<R>,
)
    requires
        consistent(q),
    ensures
        consistent(client::unsent::<R>(b)),
        consistent(client::send_step(q, c, event).0),
{
}

/// A consistent request never runs into an internal error, unless it is opened again after its
/// header was refused, or the transport reports one.
pub proof fn no_internal_error<R>(q: SendRequestView<R>, c: InnerView, event: Event<R>)
    requires
        consistent(q),
        q.state is Opening ==> q.header is Some,
        event !is Failed,
    ensures
        client::send_step(q, c, event).2 matches Err(e) ==> e !is Internal,
{
}

/// A request only moves forward.
pub proof fn requests_move_forward<R>(q: SendRequestView<R>, c: InnerView, event: Event<R>)
    ensures
        rank(client::send_step(q, c, event).0.state) >= rank(q.state),
{
}

/// A response ends its request: there is no second one.
pub proof fn one_response<R>(
    q: SendRequestView<R>,
    c: InnerView,
    event: Event<R>,
    later: InnerView,
    again: Event<R>,
)
    requires
        client::send_step(q, c, event).2 matches Ok(ActionView::Done(_)),
    ensures
        ({
            let done = client::send_step(q, c, event).0;
            client::send_step(done, later, again) == (
                done,
                later,
                Err::<ActionView<ResponseView<R>>, ErrorView>(ErrorView::Poll),
            )
        }),
{
}

/// What is written for a request: its header, then its body, then, after a body only, its
/// trailers. The connection is `c` before it and the last of the results after it.
pub open spec fn sent<R>(b: RequestBuilder, c: InnerView, id: StreamId, recv: R) -> Seq<
    client::SendStep<R>,
> {
    let opened = client::send_step(client::unsent::<R>(b), c, Event::Opened(id, recv));
    let first = client::send_step(opened.0, opened.1, Event::Written);
    let second = client::send_step(first.0, first.1, Event::Written);
    let third = client::send_step(second.0, second.1, Event::Written);
    seq![opened, first, second, third]
}

/// A request without a body sends its header and then reads. Trailers are not sent.
pub proof fn request_without_body<R>(b: RequestBuilder, c: InnerView, id: StreamId, recv: R)
    requires
        b.request.body@ is None,
        !proto::connection::too_large(c.inner, proto::headers::list(client::header_of(b.request))),
    ensures
        ({
            let header = proto::headers::list(client::header_of(b.request));
            let block = qpack::encoder::encoded(c.inner.encoder_table, id.0, header).block;
            let s = sent(b, c, id, recv);
            &&& s[0].2 == Ok::<_, ErrorView>(
                ActionView::<ResponseView<R>>::Write(FrameView::Headers(block)),
            )
            &&& s[1].2 == Ok::<_, ErrorView>(ActionView::<ResponseView<R>>::Receive)
            &&& s[1].0.state == SendStateView::Receiving(recv)
            &&& s[1].0.stream_id == Some(id)
        }),
{
}

/// A request with a body and trailers sends its header, the body and the trailers, and then
/// reads.
pub proof fn request_with_body_and_trailers<R>(
    b: RequestBuilder,
    c: InnerView,
    id: StreamId,
    recv: R,
)
    requires
        b.request.body@ is Some,
        b.trailers is Some,
        !proto::connection::too_large(c.inner, proto::headers::list(client::header_of(b.request))),
        !proto::connection::too_large(
            c.inner,
            proto::headers::list(client::trailer_of(client::fields_model(b.trailers)->0)),
        ),
    ensures
        ({
            let header = proto::headers::list(client::header_of(b.request));
            let trailers = proto::headers::list(
                client::trailer_of(client::fields_model(b.trailers)->0),
            );
            let s = sent(b, c, id, recv);
            let head = qpack::encoder::encoded(c.inner.encoder_table, id.0, header);
            let tail = qpack::encoder::encoded(s[1].1.inner.encoder_table, id.0, trailers);
            &&& s[0].2 == Ok::<_, ErrorView>(
                ActionView::<ResponseView<R>>::Write(FrameView::Headers(head.block)),
            )
            &&& s[1].2 == Ok::<_, ErrorView>(
                ActionView::<ResponseView<R>>::Write(FrameView::Data(b.request.body@->0)),
            )
            &&& s[1].1.inner.encoder_table == head.table
            &&& s[2].2 == Ok::<_, ErrorView>(
                ActionView::<ResponseView<R>>::Write(FrameView::Headers(tail.block)),
            )
            &&& s[3].2 == Ok::<_, ErrorView>(ActionView::<ResponseView<R>>::Receive)
            &&& s[3].0.state == SendStateView::Receiving(recv)
            &&& s[3].0.stream_id == Some(id)
        }),
{
}

/// A request that reads gets the response that its first frame decodes to, on its own stream.
pub proof fn response_is_delivered<R>(
    q: SendRequestView<R>,
    c: InnerView,
    recv: R,
    id: StreamId,
    frame: HttpFrame,
    task: TaskId,
    h: HeaderView,
)
    requires
        q.state == SendStateView::Receiving(recv),
        q.stream_id == Some(id),
        frame@ is Headers,
        connection::decoding(c, task, id, frame@->Headers_0).0 == Ok::<_, ErrorView>(Some(h)),
        h.status is Some,
    ensures
        ({
            let framed = client::send_step(q, c, Event::Frame(frame));
            let decoded = client::send_step(framed.0, framed.1, Event::Decode(task));
            &&& framed.2 == Ok::<_, ErrorView>(ActionView::<ResponseView<R>>::Decode)
            &&& decoded.2 == Ok::<_, ErrorView>(
                ActionView::Done(
                    ResponseView { status: h.status->0, fields: h.fields, recv, stream_id: id },
                ),
            )
        }),
{
}

/// A request that is continued hands out its stream after its header and what there is of its
/// body, with the trailers that are still to be sent, and waits for the response on that stream.
pub proof fn streamed_request_begins<R>(b: RequestBuilder, c: InnerView, id: StreamId, recv: R)
    requires
        !proto::connection::too_large(c.inner, proto::headers::list(client::header_of(b.request))),
    ensures
        ({
            let start = StreamRequestView::<R> {
                state: StreamStateView::Opening(client::header_of(b.request), b.request.body@),
                trailers: client::fields_model(b.trailers),
            };
            let opened = client::stream_step(start, c, Event::Opened(id, recv));
            let written = client::stream_step(opened.0, opened.1, Event::Written);
            let done = ActionView::Done(
                StreamingView {
                    stream_id: id,
                    trailers: client::fields_model(b.trailers),
                    recv: client::awaiting(recv, id),
                },
            );
            match b.request.body@ {
                None => written.2 == Ok::<_, ErrorView>(done),
                Some(payload) => written.2 == Ok::<_, ErrorView>(
                    ActionView::<StreamingView<R>>::Write(FrameView::Data(payload)),
                ) && client::stream_step(written.0, written.1, Event::Written).2 == Ok::<
                    _,
                    ErrorView,
                >(done),
            }
        }),
{
}

/// A response can go on after every step, unless its header turned out to have no status.
pub proof fn responses_can_go_on<R>(q: RecvResponseView<R>, c: InnerView, event: Event<R>)
    requires
        client::can_go_on(q),
    ensures
        ({
            let (after, _, r) = client::recv_step(q, c, event);
            client::can_go_on(after) || r == Err::<ActionView<ResponseView<R>>, ErrorView>(
                ErrorView::Proto(
                    proto::connection::ErrorView::InvalidResponse("missing status"@),
                ),
            )
        }),
{
}

} // verus!
