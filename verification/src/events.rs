//! What each event does to a connection, and what it leaves alone.

use bytes::Bytes;
use vstd::prelude::*;

use crate::connection::{ConnectionInner, ControlEvent, Incoming, InnerView, TaskId};
use crate::error::{Error, ErrorCode, ErrorView};
use crate::headers::{DecodeHeaders, DecodeView, Progress, SendHeaders};
use crate::proto::connection::ConnectionView;
use crate::proto::frame::HttpFrame;
use crate::proto::headers::{Header, HeaderView};
use crate::proto::settings::Settings;
use crate::qpack::FieldView;
use crate::streams::{NewUni, StreamType};
use crate::{buffer, connection, error, headers, proto, qpack, streams, Side, StreamId};

verus! {

// Setting up.

/// A new connection has its settings to announce, and knows no stream, no task and no error.
pub proof fn connection_starts(s: Settings, side: Side)
    ensures
        connection::started(s, side) == (InnerView {
            inner: proto::connection::opened(s),
            requests: Seq::empty(),
            requests_waker: None,
            driver_waker: None,
            pending_uni: Seq::empty(),
            control: None,
            recv_encoder: None,
            recv_decoder: None,
            required_ref: 0,
            blocked_streams: Map::empty(),
            error: None,
            side,
            wakes: Seq::empty(),
        }),
{
}

// Sending.

/// The bytes to send on each stream go out on that stream, the control stream first, then the
/// encoder stream, then the decoder stream; a stream with nothing to send is left out. Afterwards
/// there is nothing to send, and nothing else has changed.
pub proof fn everything_is_sent(v: InnerView)
    ensures
        ({
            let c = v.inner;
            let control = if c.pending_control.len() > 0 {
                seq![(StreamType::Control, c.pending_control)]
            } else {
                Seq::empty()
            };
            let encoder = if c.pending_encoder.len() > 0 {
                seq![(StreamType::Encoder, c.pending_encoder)]
            } else {
                Seq::empty()
            };
            let decoder = if c.pending_decoder.len() > 0 {
                seq![(StreamType::Decoder, c.pending_decoder)]
            } else {
                Seq::empty()
            };
            connection::to_send(c) == control + encoder + decoder
        }),
        connection::all_sent(v) == (InnerView {
            inner: ConnectionView {
                pending_control: Seq::empty(),
                pending_encoder: Seq::empty(),
                pending_decoder: Seq::empty(),
                ..v.inner
            },
            ..v
        }),
{
}

/// What is handed out for sending is modelled part by part, in order.
pub proof fn parts_are_faithful(sends: Seq<(StreamType, Bytes)>)
    ensures
        connection::parts(sends).len() == sends.len(),
        forall|i: int|
            0 <= i < sends.len() ==> #[trigger] connection::parts(sends)[i] == (
                sends[i].0,
                buffer::frozen(sends[i].1),
            ),
{
}

/// The driving task is woken for a header exactly if it requires more insertions than are known
/// to have been sent and there is a driving task; it is forgotten then. Nothing else changes.
pub proof fn driver_is_woken(v: InnerView, required: nat)
    ensures
        connection::after_encoded(v, required) == (if required > v.required_ref
            && v.driver_waker is Some {
            InnerView { driver_waker: None, wakes: v.wakes.push(v.driver_waker->0), ..v }
        } else {
            v
        }),
        connection::driver_woken(v) == (if v.driver_waker is Some {
            InnerView { driver_waker: None, wakes: v.wakes.push(v.driver_waker->0), ..v }
        } else {
            v
        }),
{
}

/// The first task that drives the connection is remembered, until it is woken; tasks to be woken
/// are taken once.
pub proof fn driver_is_remembered(v: InnerView, task: TaskId)
    ensures
        connection::driven(v, task) == (InnerView {
            driver_waker: Some(
                if v.driver_waker is Some {
                    v.driver_waker->0
                } else {
                    task
                },
            ),
            ..v
        }),
        connection::without_wakes(v) == (InnerView { wakes: Seq::empty(), ..v }),
{
}

// Streams of the peer.

/// A unidirectional stream that is accepted waits, last in line, for its type to be known. That
/// there will be no more is an error. Nothing else changes.
pub proof fn unidirectional_streams(v: InnerView, event: Incoming)
    ensures
        connection::uni_accepted(v, event) == (match event {
            Incoming::Pending => (v, Ok::<bool, ErrorView>(false)),
            Incoming::Closed => (
                v,
                Err::<bool, ErrorView>(ErrorView::Internal("incoming uni streams closed"@)),
            ),
            Incoming::Opened(id) => (
                InnerView { pending_uni: v.pending_uni.push(id), ..v },
                Ok::<bool, ErrorView>(true),
            ),
        }),
{
}

/// A request that is accepted goes last in line, and whoever waits for requests is woken, once.
/// That there will be no more is an error of a client, which a server reports. Nothing else
/// changes.
pub proof fn bidirectional_streams(v: InnerView, event: Incoming)
    ensures
        connection::bi_accepted(v, event) == (match event {
            Incoming::Pending => (v, Ok::<bool, ErrorView>(false)),
            Incoming::Closed => (
                v,
                if v.side == Side::Server {
                    Err::<bool, ErrorView>(ErrorView::Peer("incoming bi stream Closed"@))
                } else {
                    Ok::<bool, ErrorView>(false)
                },
            ),
            Incoming::Opened(id) => (
                if v.requests_waker is Some {
                    InnerView {
                        requests: v.requests.push(id),
                        requests_waker: None,
                        wakes: v.wakes.push(v.requests_waker->0),
                        ..v
                    }
                } else {
                    InnerView { requests: v.requests.push(id), ..v }
                },
                Ok::<bool, ErrorView>(true),
            ),
        }),
{
}

/// The type of a stream tells what it is; one that is not known is told by its number.
pub proof fn stream_types(s: Seq<u8>, id: StreamId)
    ensures
        proto::varint::parse(s) is None ==> streams::uni_of(s, id) is None,
        proto::varint::parse(s) matches Some((ty, _)) ==> streams::uni_of(s, id) == Some(
            if ty == 0 {
                Ok::<NewUni, Error>(NewUni::Control(id))
            } else if ty == 1 {
                Ok(NewUni::Push(id))
            } else if ty == 2 {
                Ok(NewUni::Encoder(id))
            } else if ty == 3 {
                Ok(NewUni::Decoder(id))
            } else {
                Err(Error::UnknownStream(ty))
            },
        ),
        streams::type_number(StreamType::Control) == 0,
        streams::type_number(StreamType::Encoder) == 2,
        streams::type_number(StreamType::Decoder) == 3,
{
}

/// A stream of which the type was found out: the first control, encoder and decoder stream are
/// taken up, the latter two with nothing read yet, and a second one of them is an error. A push
/// stream, and one of an unknown type, is passed over. That a type could not be read is an error.
/// Nothing else changes.
pub proof fn stream_is_taken_up(v: InnerView, o: Result<NewUni, Error>)
    ensures
        connection::with_uni(v, o) == (match o {
            Ok(NewUni::Control(id)) => if v.control is None {
                InnerView { control: Some(id), ..v }
            } else {
                InnerView {
                    error: Some(
                        (ErrorCode::StreamCreationError, "control stream already open"@),
                    ),
                    ..v
                }
            },
            Ok(NewUni::Encoder(id)) => if v.recv_encoder is None {
                InnerView { recv_encoder: Some((id, Seq::empty())), ..v }
            } else {
                InnerView {
                    error: Some(
                        (ErrorCode::StreamCreationError, "encoder stream already open"@),
                    ),
                    ..v
                }
            },
            Ok(NewUni::Decoder(id)) => if v.recv_decoder is None {
                InnerView { recv_decoder: Some((id, Seq::empty())), ..v }
            } else {
                InnerView {
                    error: Some(
                        (ErrorCode::StreamCreationError, "decoder stream already open"@),
                    ),
                    ..v
                }
            },
            Ok(NewUni::Push(_)) => v,
            Err(Error::UnknownStream(_)) => v,
            Err(e) => InnerView {
                error: Some((ErrorCode::StreamCreationError, error::debug_text(e@))),
                ..v
            },
        }),
{
}

/// Streams are taken up one after another.
pub proof fn streams_one_by_one(
    v: InnerView,
    resolved: Seq<(usize, Result<NewUni, Error>)>,
    place: usize,
    o: Result<NewUni, Error>,
)
    ensures
        connection::with_unis(v, Seq::empty()) == v,
        connection::with_unis(v, resolved.push((place, o))) == connection::with_uni(
            connection::with_unis(v, resolved),
            o,
        ),
{
    assert(resolved.push((place, o)).drop_last() == resolved);
}

/// The streams of which the type was not found out keep waiting, in order, and no others.
pub proof fn others_keep_waiting(
    pending: Seq<StreamId>,
    resolved: Seq<(usize, Result<NewUni, Error>)>,
    n: nat,
)
    requires
        n < pending.len(),
    ensures
        connection::unresolved(pending, resolved, 0) == Seq::<StreamId>::empty(),
        connection::unresolved(pending, resolved, n + 1) == (if exists|j: int|
            0 <= j < resolved.len() && (#[trigger] resolved[j]).0 == n {
            connection::unresolved(pending, resolved, n)
        } else {
            connection::unresolved(pending, resolved, n).push(pending[n as int])
        }),
{
    assert(connection::is_resolved(resolved, n as int) <==> exists|j: int|
        0 <= j < resolved.len() && (#[trigger] resolved[j]).0 == n);
}

/// Finding out types changes which streams wait and nothing else.
pub proof fn waiting_streams_are_replaced(v: InnerView, pending: Seq<StreamId>)
    ensures
        connection::with_pending(v, pending) == (InnerView { pending_uni: pending, ..v }),
{
}

/// An error is remembered, in place of an earlier one. Nothing else changes.
pub proof fn error_is_remembered(v: InnerView, code: ErrorCode, message: Seq<char>)
    ensures
        connection::failed(v, code, message) == (InnerView { error: Some((code, message)), ..v }),
{
}

// The control stream.

/// A settings frame on the open control stream, whenever it comes: its settings become the
/// remote settings, exactly, the stream is read on, and there is no new error.
pub proof fn settings_arrive(v: InnerView, s: Settings)
    requires
        v.control is Some,
    ensures
        ({
            let (after, read_on) = connection::after_control(
                v,
                ControlEvent::Frame(HttpFrame::Settings(s)),
            );
            &&& read_on
            &&& after.inner.remote_settings == Some(s)
            &&& after.inner == proto::connection::with_remote_settings(v.inner, s)
            &&& after == (InnerView { inner: after.inner, ..v })
        }),
{
    proto::state::remote_settings_are_taken(v.inner, s);
}

/// After a settings frame arrived on the open control stream, a header is refused exactly if it
/// has more fields than the settings allow.
pub proof fn arrived_limit_is_heeded(
    v: InnerView,
    s: Settings,
    id: StreamId,
    fields: Seq<FieldView>,
)
    requires
        v.control is Some,
    ensures
        ({
            let after = connection::after_control(
                v,
                ControlEvent::Frame(HttpFrame::Settings(s)),
            ).0;
            let r = headers::encoding(after, id, fields).0;
            if fields.len() > s.max_header_list_size {
                r == Err::<Seq<u8>, ErrorView>(
                    ErrorView::Proto(proto::connection::ErrorView::HeaderListTooLarge),
                )
            } else {
                r is Ok
            }
        }),
{
    proto::state::remote_settings_are_taken(v.inner, s);
    proto::state::announced_limit_is_heeded(v.inner, s, id, fields);
}

/// Other frames on the open control stream. What only a server sends is for clients, and what
/// only a client sends is for servers: these are passed over once the settings have come, and an
/// error before. All others are an error. An error ends the reading; nothing else changes.
pub proof fn other_control_frames(v: InnerView, frame: HttpFrame)
    requires
        v.control is Some,
        frame !is Settings,
    ensures
        ({
            let (after, read_on) = connection::after_control(v, ControlEvent::Frame(frame));
            let expected = match frame {
                HttpFrame::Goaway(_) => v.side == Side::Client,
                HttpFrame::CancelPush(_) => v.side == Side::Server,
                HttpFrame::MaxPushId(_) => v.side == Side::Server,
                _ => false,
            };
            if expected && v.inner.remote_settings is Some {
                read_on && after == v
            } else if expected {
                !read_on && after == (InnerView {
                    error: Some((ErrorCode::MissingSettings, "missing settings"@)),
                    ..v
                })
            } else {
                !read_on && after == (InnerView {
                    error: Some(
                        (ErrorCode::FrameUnexpected, "unexpected frame type on control stream"@),
                    ),
                    ..v
                })
            }
        }),
{
}

/// The control stream without a frame: nothing yet changes nothing; its end, and a failure, are
/// errors. Before it is open nothing that happens on it has an effect.
pub proof fn control_without_frame(
    v: InnerView,
    event: ControlEvent,
    code: ErrorCode,
    message: String,
)
    ensures
        v.control is None ==> connection::after_control(v, event) == (v, false),
        connection::after_control(v, ControlEvent::Pending) == (v, false),
        v.control is Some ==> connection::after_control(v, ControlEvent::Closed) == (
            InnerView {
                error: Some((ErrorCode::ClosedCriticalStream, "control closed"@)),
                ..v
            },
            false,
        ),
        v.control is Some ==> connection::after_control(v, ControlEvent::Failed(code, message)) == (
            InnerView { error: Some((code, message@)), ..v },
            false,
        ),
{
}

// The encoder stream and the decoder stream.

/// The peer's encoder stream: bytes go after those that are left of an earlier instruction, and
/// complete instructions are carried out. What is left is kept, and the tasks that wait for fewer
/// insertions than there are now are woken, by the number that they wait for. If an instruction
/// is invalid, the bytes are kept and nobody is woken. The end of the stream is an error.
pub proof fn encoder_stream_is_read(v: InnerView, read: Option<Seq<u8>>)
    ensures
        v.recv_encoder is None || read is None ==> connection::encoder_read(v, read) == (
            v,
            Ok::<bool, ErrorView>(false),
        ),
        v.recv_encoder is Some && read is Some && read->0.len() == 0 ==> connection::encoder_read(
            v,
            read,
        ) == (v, Err::<bool, ErrorView>(ErrorView::Peer("Encoder stream closed"@))),
        v.recv_encoder matches Some((id, held)) ==> read is Some && read->0.len() > 0 ==> {
            let bytes = held + read->0;
            let (table, used, r) = qpack::decoder::run(v.inner.decoder_table, bytes);
            let inner = proto::connection::after_encoder_bytes(v.inner, bytes);
            let n = (table.dropped + table.fields.len()) as usize;
            connection::encoder_read(v, read) == (match r {
                Ok(_) => (
                    InnerView {
                        inner,
                        recv_encoder: Some((id, bytes.skip(used as int))),
                        blocked_streams: v.blocked_streams.restrict(Set::new(|k: usize| k >= n)),
                        wakes: v.wakes + connection::waiting_below(v.blocked_streams, n as nat),
                        ..v
                    },
                    Ok::<bool, ErrorView>(true),
                ),
                Err(e) => (
                    InnerView { inner, recv_encoder: Some((id, bytes)), ..v },
                    Err::<bool, ErrorView>(
                        ErrorView::Proto(proto::connection::ErrorView::Decode(e)),
                    ),
                ),
            })
        },
{
}

/// The tasks that wait for fewer than some number of insertions, by the number that they wait
/// for: nobody waits for fewer than none, and each number adds the task that waits for it.
pub proof fn waiters_in_order(tasks: Map<usize, TaskId>, n: usize)
    requires
        n < usize::MAX,
    ensures
        connection::waiting_below(tasks, 0) == Seq::<TaskId>::empty(),
        connection::waiting_below(tasks, n as nat + 1) == (if tasks.contains_key(n) {
            connection::waiting_below(tasks, n as nat).push(tasks[n])
        } else {
            connection::waiting_below(tasks, n as nat)
        }),
{
}

/// The peer's decoder stream: bytes go after those that are left of an earlier report, and
/// complete reports are heeded. What is left is kept; if a report is invalid, all bytes are. The
/// end of the stream is an error. Nothing but the encoder's table changes.
pub proof fn decoder_stream_is_read(v: InnerView, read: Option<Seq<u8>>)
    ensures
        v.recv_decoder is None || read is None ==> connection::decoder_read(v, read) == (
            v,
            Ok::<bool, ErrorView>(false),
        ),
        v.recv_decoder is Some && read is Some && read->0.len() == 0 ==> connection::decoder_read(
            v,
            read,
        ) == (v, Err::<bool, ErrorView>(ErrorView::Peer("Decoder stream closed"@))),
        v.recv_decoder matches Some((id, held)) ==> read is Some && read->0.len() > 0 ==> {
            let bytes = held + read->0;
            let (table, used, r) = qpack::encoder::run(v.inner.encoder_table, bytes);
            let inner = ConnectionView { encoder_table: table, ..v.inner };
            connection::decoder_read(v, read) == (match r {
                Ok(_) => (
                    InnerView { inner, recv_decoder: Some((id, bytes.skip(used as int))), ..v },
                    Ok::<bool, ErrorView>(true),
                ),
                Err(e) => (
                    InnerView { inner, recv_decoder: Some((id, bytes)), ..v },
                    Err::<bool, ErrorView>(
                        ErrorView::Proto(proto::connection::ErrorView::Encode(e)),
                    ),
                ),
            })
        },
{
}

// Headers.

/// Decoding a header for a task. If insertions are missing, the task waits for their number, in
/// place of another one that did. If the header is decoded, it is what the block's fields make
/// up. Either way the driving task is woken. An error changes nothing but the acknowledgment of a
/// block that was decoded.
pub proof fn header_is_decoded_for_a_task(
    v: InnerView,
    task: TaskId,
    id: StreamId,
    block: Seq<u8>,
)
    ensures
        ({
            let (r, after) = connection::decoding(v, task, id, block);
            let (outcome, inner) = proto::connection::decoding(v.inner, id, block);
            let woken = if v.driver_waker is Some {
                InnerView { inner, driver_waker: None, wakes: v.wakes.push(v.driver_waker->0), ..v }
            } else {
                InnerView { inner, ..v }
            };
            match outcome {
                Ok(proto::connection::DecodeView::Decoded(h)) => r == Ok::<
                    Option<HeaderView>,
                    ErrorView,
                >(Some(h)) && after == woken,
                Ok(proto::connection::DecodeView::MissingRefs(n)) => r == Ok::<
                    Option<HeaderView>,
                    ErrorView,
                >(None) && after == (InnerView {
                    blocked_streams: v.blocked_streams.insert(n, task),
                    ..woken
                }),
                Err(e) => r == Err::<Option<HeaderView>, ErrorView>(ErrorView::Proto(e)) && after
                    == (InnerView { inner, ..v }),
            }
        }),
{
}

/// Decoding as the task sees it: it waits, has the header, or learns that the peer's header
/// cannot be decoded, and why. Without a block there is nothing to decode.
pub proof fn decoding_as_seen_by_the_task(d: DecodeView, c: InnerView, task: TaskId)
    ensures
        d.frame is None ==> headers::decode_poll(d, c, task) == (
            Progress::Ready(Err::<HeaderView, ErrorView>(ErrorView::Internal("frame none"@))),
            c,
        ),
        d.frame matches Some(block) ==> {
            let (r, after) = connection::decoding(c, task, d.stream_id, block);
            headers::decode_poll(d, c, task) == (
                match r {
                    Ok(Some(h)) => Progress::Ready(Ok::<HeaderView, ErrorView>(h)),
                    Ok(None) => Progress::Pending,
                    Err(e) => Progress::Ready(
                        Err::<HeaderView, ErrorView>(
                            ErrorView::Peer(
                                "decoding header failed: "@ + error::debug_text(e),
                            ),
                        ),
                    ),
                },
                after,
            )
        },
{
}

/// Encoding a header for a stream gives its block, and the driving task is woken if the peer
/// needs insertions for it that are not known to have been sent. A header that is refused changes
/// nothing.
pub proof fn header_is_encoded_for_a_stream(c: InnerView, id: StreamId, fields: Seq<FieldView>)
    ensures
        ({
            let (r, after) = headers::encoding(c, id, fields);
            let (outcome, inner) = proto::connection::encoding(c.inner, id, fields);
            match outcome {
                Err(e) => r == Err::<Seq<u8>, ErrorView>(ErrorView::Proto(e)) && after == c,
                Ok((required, block)) => r == Ok::<Seq<u8>, ErrorView>(block) && after == (
                if required > c.required_ref && c.driver_waker is Some {
                    InnerView {
                        inner,
                        driver_waker: None,
                        wakes: c.wakes.push(c.driver_waker->0),
                        ..c
                    }
                } else {
                    InnerView { inner, ..c }
                }),
            }
        }),
{
}

// What the models leave out: nothing.

/// The model of a connection holds everything that the connection does.
pub proof fn connection_model_is_faithful(c: ConnectionInner)
    ensures
        c@.inner == c.inner@,
        c@.requests == c.requests@,
        c@.requests_waker == c.requests_waker,
        c@.driver_waker == c.driver_waker,
        c@.pending_uni == c.pending_uni@,
        c@.control == c.control,
        c@.recv_encoder == (match c.recv_encoder {
            Some((id, b)) => Some((id, buffer::buffered(b))),
            None => None,
        }),
        c@.recv_decoder == (match c.recv_decoder {
            Some((id, b)) => Some((id, buffer::buffered(b))),
            None => None,
        }),
        c@.required_ref == c.required_ref,
        c@.blocked_streams == c.blocked_streams@,
        c@.error == (match c.error {
            Some((code, message)) => Some((code, message@)),
            None => None,
        }),
        c@.side == c.side,
        c@.wakes == c.wakes@,
        c.inner@.local_settings == c.inner.local_settings,
        c.inner@.remote_settings == c.inner.remote_settings,
        c.inner@.pending_encoder == buffer::buffered(c.inner.pending_encoder),
        c.inner@.pending_decoder == buffer::buffered(c.inner.pending_decoder),
        c.inner@.pending_control == buffer::buffered(c.inner.pending_control),
        c.inner@.encoder_table == c.inner.encoder_table@,
        c.inner@.decoder_table == c.inner.decoder_table@,
{
}

/// The models of the results hold everything that the results do.
pub proof fn result_models_are_faithful(
    e: Error,
    go_on: Result<bool, Error>,
    decoded: Result<Option<Header>, Error>,
    sent: Result<SendHeaders, Error>,
    decode: DecodeHeaders,
    progress: Progress<Result<Header, Error>>,
    read: Option<&[u8]>,
)
    ensures
        connection::read_model(read) == (match read {
            Some(data) => Some(data@),
            None => None,
        }),
        e@ == (match e {
            Error::Proto(p) => ErrorView::Proto(p@),
            Error::Internal(s) => ErrorView::Internal(s@),
            Error::Peer(s) => ErrorView::Peer(s@),
            Error::UnknownStream(n) => ErrorView::UnknownStream(n),
            Error::Poll => ErrorView::Poll,
            Error::Transport(s) => ErrorView::Transport(s@),
        }),
        connection::go_on_model(go_on) == (match go_on {
            Ok(b) => Ok(b),
            Err(err) => Err(err@),
        }),
        connection::decoded_model(decoded) == (match decoded {
            Ok(Some(h)) => Ok(Some(h@)),
            Ok(None) => Ok(None),
            Err(err) => Err(err@),
        }),
        headers::encoded_model(sent) == (match sent {
            Ok(s) => Ok(buffer::frozen(s.0.encoded)),
            Err(err) => Err(err@),
        }),
        decode@.stream_id == decode.stream_id,
        decode@.frame == (match decode.frame {
            Some(f) => Some(buffer::frozen(f.encoded)),
            None => None,
        }),
        headers::progress_model(progress) == (match progress {
            Progress::Pending => Progress::Pending,
            Progress::Ready(Ok(h)) => Progress::Ready(Ok(h@)),
            Progress::Ready(Err(err)) => Progress::Ready(Err(err@)),
        }),
{
}

} // verus!
