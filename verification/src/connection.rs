//! What drives a connection: the streams of both ends and the tasks that wait on them.
//!
//! The transport reports what happened on its streams; the state tells what follows from it.
//! Tasks are known by numbers. Those that are to be woken are collected until the transport
//! takes them.

use std::collections::{BTreeMap, VecDeque};

use bytes::{Bytes, BytesMut};
use vstd::prelude::*;

use crate::error::{Error, ErrorCode, ErrorView};
use crate::proto::connection::{Connection, ConnectionView, DecodeResult};
use crate::proto::frame::{HeadersFrame, HttpFrame};
use crate::proto::headers::{Header, HeaderView};
use crate::proto::settings::Settings;
use crate::proto::{connection as proto_connection, headers, settings};
use crate::qpack::{decoder, encoder, DecoderError};
use crate::streams::{NewUni, StreamType};
use crate::{buffer, error, Side, StreamId};

verus! {

/// A task that waits for something.
#[derive(Clone, Copy, Debug, PartialEq, Eq, Structural)]
pub struct TaskId(pub u64);

/// What came of accepting a stream.
#[derive(Clone, Copy, Debug, PartialEq, Eq, Structural)]
pub enum Incoming {
    /// There is none yet.
    Pending,
    /// There will be no more.
    Closed,
    /// One was accepted.
    Opened(StreamId),
}

/// What came of reading the peer's control stream.
#[derive(Debug)]
pub enum ControlEvent {
    /// There is nothing yet.
    Pending,
    /// The stream ended.
    Closed,
    /// No frame could be read.
    Failed(ErrorCode, String),
    /// A frame was read.
    Frame(HttpFrame),
}

/// The state of a connection and its streams.
#[derive(Debug)]
pub struct ConnectionInner {
    pub inner: Connection,
    pub requests: VecDeque<StreamId>,
    pub requests_waker: Option<TaskId>,
    pub driver_waker: Option<TaskId>,
    pub pending_uni: VecDeque<StreamId>,
    pub control: Option<StreamId>,
    pub recv_encoder: Option<(StreamId, BytesMut)>,
    pub recv_decoder: Option<(StreamId, BytesMut)>,
    pub required_ref: usize,
    pub blocked_streams: BTreeMap<usize, TaskId>,
    pub error: Option<(ErrorCode, String)>,
    pub side: Side,
    pub wakes: Vec<TaskId>,
}

/// The model of a connection and its streams.
pub struct InnerView {
    /// What does not depend on the transport.
    pub inner: ConnectionView,
    /// The requests that wait to be taken up.
    pub requests: Seq<StreamId>,
    /// The task that waits for requests.
    pub requests_waker: Option<TaskId>,
    /// The task that drives the connection.
    pub driver_waker: Option<TaskId>,
    /// The peer's unidirectional streams of which the type is not known yet.
    pub pending_uni: Seq<StreamId>,
    /// The peer's control stream.
    pub control: Option<StreamId>,
    /// The peer's encoder stream, and what arrived on it of an incomplete instruction.
    pub recv_encoder: Option<(StreamId, Seq<u8>)>,
    /// The peer's decoder stream, and what arrived on it of an incomplete report.
    pub recv_decoder: Option<(StreamId, Seq<u8>)>,
    /// The number of insertions that is known to have been sent.
    pub required_ref: usize,
    /// The tasks that wait for insertions, by the number of insertions.
    pub blocked_streams: Map<usize, TaskId>,
    /// Why the connection is to be closed.
    pub error: Option<(ErrorCode, Seq<char>)>,
    /// The role of this end.
    pub side: Side,
    /// The tasks that are to be woken.
    pub wakes: Seq<TaskId>,
}

/// The model of a stream with a buffer.
pub open spec fn buffered_stream(s: Option<(StreamId, BytesMut)>) -> Option<(StreamId, Seq<u8>)> {
    match s {
        Some((id, b)) => Some((id, buffer::buffered(b))),
        None => None,
    }
}

/// The model of an error with its code.
pub open spec fn error_model(e: Option<(ErrorCode, String)>) -> Option<(ErrorCode, Seq<char>)> {
    match e {
        Some((code, message)) => Some((code, message@)),
        None => None,
    }
}

impl View for ConnectionInner {
    type V = InnerView;

    open spec fn view(&self) -> InnerView {
        InnerView {
            inner: self.inner@,
            requests: self.requests@,
            requests_waker: self.requests_waker,
            driver_waker: self.driver_waker,
            pending_uni: self.pending_uni@,
            control: self.control,
            recv_encoder: buffered_stream(self.recv_encoder),
            recv_decoder: buffered_stream(self.recv_decoder),
            required_ref: self.required_ref,
            blocked_streams: self.blocked_streams@,
            error: error_model(self.error),
            side: self.side,
            wakes: self.wakes@,
        }
    }
}

/// The state after the driving task was woken, if there is one.
pub open spec fn driver_woken(v: InnerView) -> InnerView {
    match v.driver_waker {
        Some(t) => InnerView { driver_waker: None, wakes: v.wakes.push(t), ..v },
        None => v,
    }
}

/// The state with an error.
pub open spec fn failed(v: InnerView, code: ErrorCode, message: Seq<char>) -> InnerView {
    InnerView { error: Some((code, message)), ..v }
}

/// The state after the type of a unidirectional stream was found out. There is one stream of
/// each critical type.
pub open spec fn with_uni(v: InnerView, o: Result<NewUni, Error>) -> InnerView {
    match o {
        Err(Error::UnknownStream(_)) => v,
        Err(e) => failed(v, ErrorCode::StreamCreationError, error::debug_text(e@)),
        Ok(NewUni::Push(_)) => v,
        Ok(NewUni::Control(id)) => if v.control is None {
            InnerView { control: Some(id), ..v }
        } else {
            failed(v, ErrorCode::StreamCreationError, "control stream already open"@)
        },
        Ok(NewUni::Decoder(id)) => if v.recv_decoder is None {
            InnerView { recv_decoder: Some((id, Seq::empty())), ..v }
        } else {
            failed(v, ErrorCode::StreamCreationError, "decoder stream already open"@)
        },
        Ok(NewUni::Encoder(id)) => if v.recv_encoder is None {
            InnerView { recv_encoder: Some((id, Seq::empty())), ..v }
        } else {
            failed(v, ErrorCode::StreamCreationError, "encoder stream already open"@)
        },
    }
}

/// The state after the types of some unidirectional streams were found out, one after another.
pub open spec fn with_unis(v: InnerView, resolved: Seq<(usize, Result<NewUni, Error>)>) -> InnerView
    decreases resolved.len(),
{
    if resolved.len() == 0 {
        v
    } else {
        with_uni(with_unis(v, resolved.drop_last()), resolved.last().1)
    }
}

/// The state with other pending streams.
pub open spec fn with_pending(v: InnerView, pending: Seq<StreamId>) -> InnerView {
    InnerView { pending_uni: pending, ..v }
}

/// Whether the type of the stream at a place was found out.
pub open spec fn is_resolved(resolved: Seq<(usize, Result<NewUni, Error>)>, place: int) -> bool {
    exists|j: int| 0 <= j < resolved.len() && (#[trigger] resolved[j]).0 == place
}

/// The first `n` streams without those of which the type was found out.
pub open spec fn unresolved(
    streams: Seq<StreamId>,
    resolved: Seq<(usize, Result<NewUni, Error>)>,
    n: nat,
) -> Seq<StreamId>
    decreases n,
{
    if n == 0 {
        Seq::empty()
    } else if is_resolved(resolved, n - 1) {
        unresolved(streams, resolved, (n - 1) as nat)
    } else {
        unresolved(streams, resolved, (n - 1) as nat).push(streams[n - 1])
    }
}

/// Whether the places of some streams are in order and exist.
pub open spec fn places_in_order(resolved: Seq<(usize, Result<NewUni, Error>)>, len: nat) -> bool {
    &&& forall|j: int| 0 <= j < resolved.len() ==> (#[trigger] resolved[j]).0 < len
    &&& forall|i: int, j: int|
        0 <= i < j < resolved.len() ==> (#[trigger] resolved[i]).0 < (#[trigger] resolved[j]).0
}

/// What is found out of a stream does not depend on which ones are pending.
proof fn pending_does_not_matter(v: InnerView, o: Result<NewUni, Error>, pending: Seq<StreamId>)
    ensures
        with_uni(with_pending(v, pending), o) == with_pending(with_uni(v, o), pending),
{
}

/// A stretch of streams of which none was found out stays as it is.
proof fn stretch_stays(
    streams: Seq<StreamId>,
    resolved: Seq<(usize, Result<NewUni, Error>)>,
    from: nat,
    to: nat,
)
    requires
        from <= to <= streams.len(),
        forall|k: int| from <= k < to ==> !is_resolved(resolved, k),
    ensures
        unresolved(streams, resolved, to) == unresolved(streams, resolved, from)
            + streams.subrange(from as int, to as int),
    decreases to - from,
{
    if from < to {
        stretch_stays(streams, resolved, from, (to - 1) as nat);
        assert(!is_resolved(resolved, to - 1));
        assert(streams.subrange(from as int, to - 1).push(streams[to - 1]) == streams.subrange(
            from as int,
            to as int,
        ));
    } else {
        assert(streams.subrange(from as int, to as int) == Seq::<StreamId>::empty());
    }
}

/// How many of the first streams have been gone through after some were found out.
spec fn passed(resolved: Seq<(usize, Result<NewUni, Error>)>, removed: nat) -> nat {
    if removed == 0 {
        0
    } else {
        (resolved[removed - 1].0 + 1) as nat
    }
}

/// The streams that are left after some of those that were found out have been removed.
spec fn left_over(
    streams: Seq<StreamId>,
    resolved: Seq<(usize, Result<NewUni, Error>)>,
    removed: nat,
) -> Seq<StreamId> {
    let seen = passed(resolved, removed);
    unresolved(streams, resolved, seen) + streams.skip(seen as int)
}

/// Removing the next one, at its place less the number of those before it.
proof fn next_removed(
    streams: Seq<StreamId>,
    resolved: Seq<(usize, Result<NewUni, Error>)>,
    removed: nat,
)
    requires
        places_in_order(resolved, streams.len()),
        removed < resolved.len(),
        passed(resolved, removed) <= streams.len(),
        unresolved(streams, resolved, passed(resolved, removed)).len() == passed(resolved, removed)
            - removed,
    ensures
        removed <= resolved[removed as int].0,
        resolved[removed as int].0 - removed < left_over(streams, resolved, removed).len(),
        left_over(streams, resolved, removed).remove(resolved[removed as int].0 - removed)
            == left_over(streams, resolved, removed + 1),
        passed(resolved, removed + 1) <= streams.len(),
        unresolved(streams, resolved, passed(resolved, removed + 1)).len() == passed(
            resolved,
            removed + 1,
        ) - (removed + 1),
{
    let seen = passed(resolved, removed);
    let i = resolved[removed as int].0;
    if removed > 0 {
        assert(resolved[removed - 1].0 < resolved[removed as int].0);
    }
    assert forall|k: int| seen <= k < i implies !is_resolved(resolved, k) by {
        if is_resolved(resolved, k) {
            let j = choose|j: int| 0 <= j < resolved.len() && (#[trigger] resolved[j]).0 == k;
            if j < removed {
                assert(j < removed - 1 ==> resolved[j].0 < resolved[removed - 1].0);
            } else {
                assert(removed < j ==> resolved[removed as int].0 < resolved[j].0);
            }
        }
    }
    stretch_stays(streams, resolved, seen, i as nat);
    assert(is_resolved(resolved, i as int));
    assert(unresolved(streams, resolved, i as nat + 1) == unresolved(streams, resolved, i as nat));
    let kept = unresolved(streams, resolved, seen);
    assert((kept + streams.skip(seen as int)).remove(i - removed) == kept + streams.subrange(
        seen as int,
        i as int,
    ) + streams.skip(i + 1));
}

/// What is left after all of those that were found out have been removed.
proof fn all_removed(
    streams: Seq<StreamId>,
    resolved: Seq<(usize, Result<NewUni, Error>)>,
)
    requires
        places_in_order(resolved, streams.len()),
        passed(resolved, resolved.len()) <= streams.len(),
    ensures
        left_over(streams, resolved, resolved.len()) == unresolved(
            streams,
            resolved,
            streams.len(),
        ),
{
    let seen = passed(resolved, resolved.len());
    assert forall|k: int| seen <= k < streams.len() implies !is_resolved(resolved, k) by {
        if is_resolved(resolved, k) {
            let j = choose|j: int| 0 <= j < resolved.len() && (#[trigger] resolved[j]).0 == k;
            assert(j < resolved.len() - 1 ==> resolved[j].0 < resolved[resolved.len() - 1].0);
        }
    }
    stretch_stays(streams, resolved, seen, streams.len());
    assert(streams.subrange(seen as int, streams.len() as int) == streams.skip(seen as int));
}

proof fn removal_counts(
    streams: Seq<StreamId>,
    resolved: Seq<(usize, Result<NewUni, Error>)>,
    removed: nat,
)
    requires
        places_in_order(resolved, streams.len()),
        removed <= resolved.len(),
    ensures
        passed(resolved, removed) <= streams.len(),
        unresolved(streams, resolved, passed(resolved, removed)).len() == passed(resolved, removed)
            - removed,
    decreases removed,
{
    if removed > 0 {
        removal_counts(streams, resolved, (removed - 1) as nat);
        next_removed(streams, resolved, (removed - 1) as nat);
    }
}

/// Exactly the streams that were found out leave the pending ones: those that stay are as many as
/// the others.
pub proof fn resolved_streams_leave(
    streams: Seq<StreamId>,
    resolved: Seq<(usize, Result<NewUni, Error>)>,
)
    requires
        places_in_order(resolved, streams.len()),
    ensures
        unresolved(streams, resolved, streams.len()).len() == streams.len() - resolved.len(),
{
    removal_counts(streams, resolved, resolved.len());
    all_removed(streams, resolved);
}

impl ConnectionInner {
    /// Whether the state is one that its operations can reach.
    pub open spec fn wf(&self) -> bool {
        self.inner.wf()
    }

    /// Remembers why the connection is to be closed.
    pub fn set_error(&mut self, code: ErrorCode, msg: String)
        ensures
            final(self)@ == failed(old(self)@, code, msg@),
            final(self).wf() == old(self).wf(),
    {
        self.error = Some((code, msg));
    }

    fn on_uni(&mut self, outcome: Result<NewUni, Error>)
        ensures
            final(self)@ == with_uni(old(self)@, outcome),
            final(self).wf() == old(self).wf(),
    {
        match outcome {
            Err(Error::UnknownStream(_)) => {},
            Err(e) => {
                self.set_error(ErrorCode::StreamCreationError, e.debug());
            },
            Ok(n) => match n {
                NewUni::Control(stream) => match self.control {
                    None => {
                        self.control = Some(stream);
                    },
                    Some(_) => {
                        self.set_error(
                            ErrorCode::StreamCreationError,
                            "control stream already open".to_owned(),
                        );
                    },
                },
                NewUni::Decoder(stream) => {
                    if self.recv_decoder.is_none() {
                        self.recv_decoder = Some((stream, BytesMut::with_capacity(2048)));
                    } else {
                        self.set_error(
                            ErrorCode::StreamCreationError,
                            "decoder stream already open".to_owned(),
                        );
                    }
                },
                NewUni::Encoder(stream) => {
                    if self.recv_encoder.is_none() {
                        self.recv_encoder = Some((stream, BytesMut::with_capacity(2048)));
                    } else {
                        self.set_error(
                            ErrorCode::StreamCreationError,
                            "encoder stream already open".to_owned(),
                        );
                    }
                },
                NewUni::Push(_) => {},
            },
        }
    }

    /// Takes note of the pending unidirectional streams of which the type was found out, each
    /// with its place among them, in order. The result tells whether there were any.
    pub fn poll_recv_uni(&mut self, resolved: Vec<(usize, Result<NewUni, Error>)>) -> (keep_going:
        bool)
        requires
            places_in_order(resolved@, old(self)@.pending_uni.len()),
        ensures
            final(self).wf() == old(self).wf(),
            keep_going == (resolved@.len() > 0),
            final(self)@ == with_pending(
                with_unis(old(self)@, resolved@),
                unresolved(old(self)@.pending_uni, resolved@, old(self)@.pending_uni.len()),
            ),
    {
        let keep_going: bool = resolved.len() > 0;
        let ghost all = resolved@;
        let ghost streams = self@.pending_uni;
        let ghost start = self@;
        let mut left = resolved;
        let mut removed: usize = 0;
        proof {
            assert(all.skip(0) == all);
            assert(all.take(0).len() == 0);
            assert(left_over(streams, all, 0) == streams);
            assert(self@ == with_pending(start, streams));
        }
        while left.len() > 0
            invariant
                places_in_order(all, streams.len()),
                removed <= all.len(),
                all.len() <= usize::MAX,
                left@ == all.skip(removed as int),
                passed(all, removed as nat) <= streams.len(),
                unresolved(streams, all, passed(all, removed as nat)).len() == passed(
                    all,
                    removed as nat,
                ) - removed,
                self.wf() == old(self).wf(),
                self@ == with_pending(
                    with_unis(start, all.take(removed as int)),
                    left_over(streams, all, removed as nat),
                ),
            decreases left@.len(),
        {
            let (i, outcome) = left.remove(0);
            proof {
                assert(all[removed as int] == (i, outcome));
                next_removed(streams, all, removed as nat);
                pending_does_not_matter(
                    with_unis(start, all.take(removed as int)),
                    outcome,
                    left_over(streams, all, removed as nat + 1),
                );
                assert(all.take(removed + 1).drop_last() == all.take(removed as int));
            }
            let _ = self.pending_uni.remove(i - removed);
            removed = removed + 1;
            self.on_uni(outcome);
            assert(left@ == all.skip(removed as int));
        }
        proof {
            assert(all.take(removed as int) == all);
            all_removed(streams, all);
        }
        keep_going
    }
}

/// The tasks that wait for fewer than `n` insertions, by the number of insertions.
pub open spec fn waiting_below(tasks: Map<usize, TaskId>, n: nat) -> Seq<TaskId>
    decreases n,
{
    if n == 0 {
        Seq::empty()
    } else if tasks.contains_key((n - 1) as usize) {
        waiting_below(tasks, (n - 1) as nat).push(tasks[(n - 1) as usize])
    } else {
        waiting_below(tasks, (n - 1) as nat)
    }
}

/// The tasks below a number depend on the entries below it only.
proof fn only_those_below(a: Map<usize, TaskId>, b: Map<usize, TaskId>, n: nat)
    requires
        n <= usize::MAX,
        forall|k: usize|
            k < n ==> (#[trigger] a.contains_key(k) == b.contains_key(k) && (a.contains_key(k)
                ==> a[k] == b[k])),
    ensures
        waiting_below(a, n) == waiting_below(b, n),
    decreases n,
{
    if n > 0 {
        only_those_below(a, b, (n - 1) as nat);
        assert(a.contains_key((n - 1) as usize) == b.contains_key((n - 1) as usize));
    }
}

/// Keys in increasing order list the tasks by the number of insertions.
proof fn listed_in_order(keys: Seq<usize>, tasks: Map<usize, TaskId>, n: nat)
    requires
        n <= usize::MAX,
        forall|i: int, j: int| 0 <= i < j < keys.len() ==> keys[i] < keys[j],
        forall|k: usize| #[trigger] tasks.contains_key(k) <==> keys.contains(k),
        forall|i: int| 0 <= i < keys.len() ==> keys[i] < n,
    ensures
        keys.map(|i: int, k: usize| tasks[k]) == waiting_below(tasks, n),
    decreases n,
{
    let listed = keys.map(|i: int, k: usize| tasks[k]);
    if n == 0 {
        if keys.len() > 0 {
            assert(keys[0] < n);
        }
    } else {
        let top = (n - 1) as usize;
        if tasks.contains_key(top) {
            let at = choose|i: int| 0 <= i < keys.len() && keys[i] == top;
            assert(at == keys.len() - 1) by {
                if at < keys.len() - 1 {
                    assert(keys[at] < keys[keys.len() - 1]);
                }
            }
            let rest = tasks.remove(top);
            let shorter = keys.drop_last();
            assert forall|k: usize| #[trigger] rest.contains_key(k) <==> shorter.contains(k) by {
                if rest.contains_key(k) {
                    let i = choose|i: int| 0 <= i < keys.len() && keys[i] == k;
                    assert(shorter[i] == k);
                }
                if shorter.contains(k) {
                    let i = choose|i: int| 0 <= i < shorter.len() && shorter[i] == k;
                    assert(keys[i] == k);
                    assert(keys[i] < keys[at]);
                }
            }
            listed_in_order(shorter, rest, (n - 1) as nat);
            only_those_below(rest, tasks, (n - 1) as nat);
            assert(listed.drop_last() == shorter.map(|i: int, k: usize| rest[k]));
            assert(listed == listed.drop_last().push(tasks[top]));
        } else {
            assert forall|i: int| 0 <= i < keys.len() implies keys[i] < n - 1 by {
                assert(keys.contains(keys[i]));
                assert(tasks.contains_key(keys[i]));
            }
            listed_in_order(keys, tasks, (n - 1) as nat);
        }
    }
}

/// What the order of a map says of integers.
proof fn each_above_the_last(keys: Seq<usize>)
    requires
        vstd::std_specs::btree::increasing_seq(keys),
    ensures
        forall|i: int, j: int| 0 <= i < j < keys.len() ==> keys[i] < keys[j],
{
    assert forall|i: int, j: int| 0 <= i < j < keys.len() implies keys[i] < keys[j] by {
        assert(vstd::std_specs::cmp::OrdSpec::cmp_spec(&keys[i], &keys[j]) is Less);
    }
}

/// `BTreeMap::split_off` keeps the entries below the key and hands out the others.
#[verifier::external_body]
fn split_off(tasks: &mut BTreeMap<usize, TaskId>, key: usize) -> (r: BTreeMap<usize, TaskId>)
    ensures
        final(tasks)@ == old(tasks)@.restrict(Set::new(|k: usize| k < key)),
        r@ == old(tasks)@.restrict(Set::new(|k: usize| k >= key)),
{
    tasks.split_off(&key)
}

/// Adds tasks to those that are to be woken, by the number of insertions.
fn wake_all(wakes: &mut Vec<TaskId>, tasks: &BTreeMap<usize, TaskId>, below: usize)
    requires
        forall|k: usize| #[trigger] tasks@.contains_key(k) ==> k < below,
    ensures
        final(wakes)@ == old(wakes)@ + waiting_below(tasks@, below as nat),
{
    let values = tasks.values();
    let ghost listed = vstd::std_specs::iter::IteratorSpec::remaining(&values);
    let ghost keys = choose|keys: Seq<usize>|
        {
            &&& #[trigger] vstd::std_specs::btree::increasing_seq(keys)
            &&& keys.to_set() == tasks@.dom()
            &&& listed.len() == keys.len()
            &&& forall|i: int| 0 <= i < keys.len() ==> *#[trigger] listed[i] == tasks@[keys[i]]
        };
    for task in it: values
        invariant
            it.seq() == listed,
            wakes@ == old(wakes)@ + it.seq().take(it.index()).map_values(|t: &TaskId| *t),
    {
        wakes.push(*task);
    }
    proof {
        assert(vstd::std_specs::btree::increasing_seq(keys));
        assert forall|k: usize| #[trigger] tasks@.contains_key(k) <==> keys.contains(k) by {
            assert(tasks@.dom().contains(k) == keys.to_set().contains(k));
        }
        assert forall|i: int| 0 <= i < keys.len() implies keys[i] < below by {
            assert(keys.contains(keys[i]));
            assert(tasks@.contains_key(keys[i]));
        }
        each_above_the_last(keys);
        assert(listed.take(listed.len() as int).map_values(|t: &TaskId| *t) == keys.map(
            |i: int, k: usize| tasks@[k],
        ));
        listed_in_order(keys, tasks@, below as nat);
    }
}

/// What is to be sent on the streams that this end opens.
pub open spec fn to_send(c: ConnectionView) -> Seq<(StreamType, Seq<u8>)> {
    part(StreamType::Control, c.pending_control) + part(StreamType::Encoder, c.pending_encoder)
        + part(StreamType::Decoder, c.pending_decoder)
}

/// What is to be sent on a stream, if there is anything.
pub open spec fn part(ty: StreamType, bytes: Seq<u8>) -> Seq<(StreamType, Seq<u8>)> {
    if bytes.len() == 0 {
        Seq::empty()
    } else {
        seq![(ty, bytes)]
    }
}

/// The model of what is to be sent.
pub open spec fn parts(sends: Seq<(StreamType, Bytes)>) -> Seq<(StreamType, Seq<u8>)> {
    sends.map_values(|p: (StreamType, Bytes)| (p.0, buffer::frozen(p.1)))
}

/// The state after everything that is to be sent was handed out.
pub open spec fn all_sent(v: InnerView) -> InnerView {
    InnerView {
        inner: ConnectionView {
            pending_control: Seq::empty(),
            pending_encoder: Seq::empty(),
            pending_decoder: Seq::empty(),
            ..v.inner
        },
        ..v
    }
}

/// The state after a frame arrived on the control stream, and whether more are to be read.
pub open spec fn after_frame(v: InnerView, frame: HttpFrame) -> (InnerView, bool) {
    let known = v.inner.remote_settings is Some;
    match (v.side, frame) {
        (_, HttpFrame::Settings(s)) => (
            InnerView { inner: proto_connection::with_remote_settings(v.inner, s), ..v },
            true,
        ),
        (Side::Client, HttpFrame::Goaway(_))
        | (Side::Server, HttpFrame::CancelPush(_))
        | (Side::Server, HttpFrame::MaxPushId(_)) => if known {
            (v, true)
        } else {
            (failed(v, ErrorCode::MissingSettings, "missing settings"@), false)
        },
        _ => (
            failed(v, ErrorCode::FrameUnexpected, "unexpected frame type on control stream"@),
            false,
        ),
    }
}

/// The state after the control stream was read, and whether it is to be read again.
pub open spec fn after_control(v: InnerView, event: ControlEvent) -> (InnerView, bool) {
    if v.control is None {
        (v, false)
    } else {
        match event {
            ControlEvent::Pending => (v, false),
            ControlEvent::Closed => (
                failed(v, ErrorCode::ClosedCriticalStream, "control closed"@),
                false,
            ),
            ControlEvent::Failed(code, message) => (failed(v, code, message@), false),
            ControlEvent::Frame(frame) => after_frame(v, frame),
        }
    }
}

/// The state after bytes arrived on the peer's encoder stream. The tasks that wait for fewer
/// insertions than there are now are woken, unless the bytes are rejected.
pub open spec fn after_encoder_data(v: InnerView, id: StreamId, bytes: Seq<u8>) -> InnerView {
    let (table, used, r) = decoder::run(v.inner.decoder_table, bytes);
    let inner = proto_connection::after_encoder_bytes(v.inner, bytes);
    match r {
        Ok(_) => InnerView {
            inner,
            recv_encoder: Some((id, bytes.skip(used as int))),
            blocked_streams: v.blocked_streams.restrict(
                Set::new(|k: usize| k >= table.inserted() as usize),
            ),
            wakes: v.wakes + waiting_below(
                v.blocked_streams,
                table.inserted() as usize as nat,
            ),
            ..v
        },
        Err(_) => InnerView { inner, recv_encoder: Some((id, bytes)), ..v },
    }
}

/// The state after bytes arrived on the peer's decoder stream.
pub open spec fn after_decoder_data(v: InnerView, id: StreamId, bytes: Seq<u8>) -> InnerView {
    let (table, used, r) = encoder::run(v.inner.encoder_table, bytes);
    InnerView {
        inner: ConnectionView { encoder_table: table, ..v.inner },
        recv_decoder: Some(
            (
                id,
                if r is Ok {
                    bytes.skip(used as int)
                } else {
                    bytes
                },
            ),
        ),
        ..v
    }
}

/// The state after a header block was found to wait for insertions.
pub open spec fn with_blocked(v: InnerView, required_ref: usize, task: TaskId) -> InnerView {
    let w = driver_woken(v);
    InnerView { blocked_streams: w.blocked_streams.insert(required_ref, task), ..w }
}

/// What decoding a header block for a task gives, and the state after it.
pub open spec fn decoding(v: InnerView, task: TaskId, stream_id: StreamId, block: Seq<u8>) -> (
    Result<Option<HeaderView>, ErrorView>,
    InnerView,
) {
    match decoder::block_fields(v.inner.decoder_table, block) {
        Err(DecoderError::MissingRefs(n)) => (Ok(None), with_blocked(v, n, task)),
        Err(e) => (Err(ErrorView::Proto(proto_connection::ErrorView::Decode(e))), v),
        Ok(fields) => {
            let acknowledged = InnerView {
                inner: proto_connection::after_decoding(v.inner, stream_id),
                ..v
            };
            match headers::parse(fields) {
                Ok(h) => (Ok(Some(h)), driver_woken(acknowledged)),
                Err(fault) => (
                    Err(ErrorView::Proto(proto_connection::fault_error(fault))),
                    acknowledged,
                ),
            }
        },
    }
}

/// The model of what decoding a header block gives.
pub open spec fn decoded_model(r: Result<Option<Header>, Error>) -> Result<
    Option<HeaderView>,
    ErrorView,
> {
    match r {
        Ok(Some(h)) => Ok(Some(h@)),
        Ok(None) => Ok(None),
        Err(e) => Err(e@),
    }
}

/// The state after a header was encoded which needs this number of insertions at the peer.
pub open spec fn after_encoded(v: InnerView, required_ref: nat) -> InnerView {
    if required_ref <= v.required_ref {
        v
    } else {
        driver_woken(v)
    }
}

/// The state after a request arrived.
pub open spec fn with_request(v: InnerView, id: StreamId) -> InnerView {
    let requests = v.requests.push(id);
    match v.requests_waker {
        Some(t) => InnerView { requests, requests_waker: None, wakes: v.wakes.push(t), ..v },
        None => InnerView { requests, ..v },
    }
}

/// The model of whether to go on.
pub open spec fn go_on_model(r: Result<bool, Error>) -> Result<bool, ErrorView> {
    match r {
        Ok(b) => Ok(b),
        Err(e) => Err(e@),
    }
}

/// The state after a unidirectional stream was to be accepted, and whether to accept another.
pub open spec fn uni_accepted(v: InnerView, event: Incoming) -> (
    InnerView,
    Result<bool, ErrorView>,
) {
    match event {
        Incoming::Pending => (v, Ok(false)),
        Incoming::Closed => (v, Err(ErrorView::Internal("incoming uni streams closed"@))),
        Incoming::Opened(id) => (with_pending(v, v.pending_uni.push(id)), Ok(true)),
    }
}

/// The state after a bidirectional stream was to be accepted, and whether to accept another.
pub open spec fn bi_accepted(v: InnerView, event: Incoming) -> (
    InnerView,
    Result<bool, ErrorView>,
) {
    match event {
        Incoming::Pending => (v, Ok(false)),
        Incoming::Closed => (
            v,
            match v.side {
                Side::Server => Err(ErrorView::Peer("incoming bi stream Closed"@)),
                Side::Client => Ok(false),
            },
        ),
        Incoming::Opened(id) => (with_request(v, id), Ok(true)),
    }
}

/// The state after the peer's encoder stream was to be read, and whether to read on.
pub open spec fn encoder_read(v: InnerView, read: Option<Seq<u8>>) -> (
    InnerView,
    Result<bool, ErrorView>,
) {
    match (v.recv_encoder, read) {
        (None, _) => (v, Ok(false)),
        (_, None) => (v, Ok(false)),
        (Some((id, held)), Some(data)) => if data.len() == 0 {
            (v, Err(ErrorView::Peer("Encoder stream closed"@)))
        } else {
            (
                after_encoder_data(v, id, held + data),
                match decoder::run(v.inner.decoder_table, held + data).2 {
                    Ok(_) => Ok(true),
                    Err(e) => Err(ErrorView::Proto(proto_connection::ErrorView::Decode(e))),
                },
            )
        },
    }
}

/// The state after the peer's decoder stream was to be read, and whether to read on.
pub open spec fn decoder_read(v: InnerView, read: Option<Seq<u8>>) -> (
    InnerView,
    Result<bool, ErrorView>,
) {
    match (v.recv_decoder, read) {
        (None, _) => (v, Ok(false)),
        (_, None) => (v, Ok(false)),
        (Some((id, held)), Some(data)) => if data.len() == 0 {
            (v, Err(ErrorView::Peer("Decoder stream closed"@)))
        } else {
            (
                after_decoder_data(v, id, held + data),
                match encoder::run(v.inner.encoder_table, held + data).2 {
                    Ok(_) => Ok(true),
                    Err(e) => Err(ErrorView::Proto(proto_connection::ErrorView::Encode(e))),
                },
            )
        },
    }
}

/// The model of bytes that may have been read.
pub open spec fn read_model(read: Option<&[u8]>) -> Option<Seq<u8>> {
    match read {
        Some(data) => Some(data@),
        None => None,
    }
}

/// The state with a task that drives the connection.
pub open spec fn driven(v: InnerView, task: TaskId) -> InnerView {
    match v.driver_waker {
        Some(_) => v,
        None => InnerView { driver_waker: Some(task), ..v },
    }
}

/// The state after the tasks that are to be woken were taken.
pub open spec fn without_wakes(v: InnerView) -> InnerView {
    InnerView { wakes: Seq::empty(), ..v }
}

/// A connection of which no stream was accepted yet.
pub open spec fn started(settings: Settings, side: Side) -> InnerView {
    InnerView {
        inner: proto_connection::opened(settings),
        requests: Seq::empty(),
        requests_waker: None,
        driver_waker: None,
        pending_uni: Seq::empty(),
        control: None,
        recv_encoder: None,
        recv_decoder: None,
        required_ref: 0,
        blocked_streams: Map::empty(),
        error: None,
        side,
        wakes: Seq::empty(),
    }
}

impl ConnectionInner {
    /// A connection with the given settings, which are to be announced.
    pub fn new(settings: Settings, side: Side) -> (r: Result<
        ConnectionInner,
        proto_connection::Error,
    >)
        requires
            proto_connection::settings_refusal(settings) is None ==> settings::writable(settings),
        ensures
            match proto_connection::settings_refusal(settings) {
                None => r matches Ok(c) && c.wf() && c@ == started(settings, side),
                Some(why) => r matches Err(e) && e@ == proto_connection::ErrorView::Settings(why),
            },
    {
        match Connection::with_settings(settings) {
            Ok(inner) => {
                let c = ConnectionInner {
                    inner,
                    requests: VecDeque::with_capacity(16),
                    requests_waker: None,
                    driver_waker: None,
                    pending_uni: VecDeque::with_capacity(10),
                    control: None,
                    recv_encoder: None,
                    recv_decoder: None,
                    required_ref: 0,
                    blocked_streams: BTreeMap::new(),
                    error: None,
                    side,
                    wakes: Vec::new(),
                };
                assert(c@.requests == Seq::<StreamId>::empty());
                assert(c@.pending_uni == Seq::<StreamId>::empty());
                assert(c@.blocked_streams == Map::<usize, TaskId>::empty());
                Ok(c)
            },
            Err(e) => Err(e),
        }
    }

    fn wake_driver(&mut self)
        ensures
            final(self)@ == driver_woken(old(self)@),
            final(self).wf() == old(self).wf(),
    {
        if let Some(t) = self.driver_waker.take() {
            self.wakes.push(t);
        }
    }

    /// Takes what is to be sent on each of the streams that this end opens.
    pub fn poll_send_uni(&mut self) -> (sends: Vec<(StreamType, Bytes)>)
        requires
            old(self).wf(),
        ensures
            final(self).wf(),
            parts(sends@) == to_send(old(self)@.inner),
            final(self)@ == all_sent(old(self)@),
    {
        let mut sends: Vec<(StreamType, Bytes)> = Vec::new();
        if let Some(data) = self.inner.pending_control() {
            sends.push((StreamType::Control, data));
        }
        assert(parts(sends@) == part(StreamType::Control, old(self)@.inner.pending_control));
        if let Some(data) = self.inner.pending_encoder() {
            sends.push((StreamType::Encoder, data));
        }
        assert(parts(sends@) == part(StreamType::Control, old(self)@.inner.pending_control) + part(
            StreamType::Encoder,
            old(self)@.inner.pending_encoder,
        ));
        if let Some(data) = self.inner.pending_decoder() {
            sends.push((StreamType::Decoder, data));
        }
        assert(parts(sends@) == to_send(old(self)@.inner));
        sends
    }

    /// Takes note that a header was encoded which needs this number of insertions at the peer.
    /// If they are not known to have been sent, the driving task is woken to send them.
    pub fn on_encoded(&mut self, required_ref: usize)
        ensures
            final(self).wf() == old(self).wf(),
            final(self)@ == after_encoded(old(self)@, required_ref as nat),
    {
        if required_ref <= self.required_ref {
            return ;
        }
        self.wake_driver();
    }

    /// Takes note of what came of accepting a unidirectional stream. The result tells whether to
    /// accept another one.
    pub fn poll_incoming_uni(&mut self, event: Incoming) -> (r: Result<bool, Error>)
        ensures
            (final(self)@, go_on_model(r)) == uni_accepted(old(self)@, event),
            final(self).wf() == old(self).wf(),
            match event {
                Incoming::Pending => r == Ok::<bool, Error>(false) && final(self)@ == old(self)@,
                Incoming::Closed => r matches Err(e) && e@ == ErrorView::Internal("incoming uni streams closed"@) && final(self)@ == old(self)@,
                Incoming::Opened(id) => r == Ok::<bool, Error>(true) && final(self)@
                    == with_pending(old(self)@, old(self)@.pending_uni.push(id)),
            },
    {
        match event {
            Incoming::Pending => Ok(false),
            Incoming::Closed => Err(Error::Internal("incoming uni streams closed")),
            Incoming::Opened(id) => {
                self.pending_uni.push_back(id);
                Ok(true)
            },
        }
    }

    /// Takes note of what came of reading the peer's control stream. The result tells whether to
    /// read on.
    pub fn poll_control(&mut self, event: ControlEvent) -> (read_on: bool)
        requires
            old(self).wf(),
        ensures
            final(self).wf(),
            (final(self)@, read_on) == after_control(old(self)@, event),
    {
        if self.control.is_none() {
            return false;
        }
        match event {
            ControlEvent::Pending => false,
            ControlEvent::Closed => {
                self.set_error(ErrorCode::ClosedCriticalStream, "control closed".to_owned());
                false
            },
            ControlEvent::Failed(code, message) => {
                self.set_error(code, message);
                false
            },
            ControlEvent::Frame(frame) => {
                let has_remote_settings: bool = self.inner.remote_settings().is_some();
                match (has_remote_settings, self.side, frame) {
                    (_, _, HttpFrame::Settings(s)) => {
                        self.inner.set_remote_settings(s);
                        true
                    },
                    (true, Side::Client, HttpFrame::Goaway(_)) => true,
                    (true, Side::Server, HttpFrame::CancelPush(_)) => true,
                    (true, Side::Server, HttpFrame::MaxPushId(_)) => true,
                    (false, Side::Server, HttpFrame::CancelPush(_))
                    | (false, Side::Server, HttpFrame::MaxPushId(_))
                    | (false, Side::Client, HttpFrame::Goaway(_)) => {
                        self.set_error(ErrorCode::MissingSettings, "missing settings".to_owned());
                        false
                    },
                    _ => {
                        self.set_error(
                            ErrorCode::FrameUnexpected,
                            "unexpected frame type on control stream".to_owned(),
                        );
                        false
                    },
                }
            },
        }
    }

    /// Takes note of what came of reading the peer's encoder stream: nothing yet, the end of the
    /// stream, or bytes. The result tells whether to read on.
    pub fn poll_encoder(&mut self, read: Option<&[u8]>) -> (r: Result<bool, Error>)
        requires
            old(self).wf(),
        ensures
            (final(self)@, go_on_model(r)) == encoder_read(old(self)@, read_model(read)),
            final(self).wf(),
            match (old(self)@.recv_encoder, read) {
                (None, _) => r == Ok::<bool, Error>(false) && final(self)@ == old(self)@,
                (_, None) => r == Ok::<bool, Error>(false) && final(self)@ == old(self)@,
                (Some((id, held)), Some(data)) => if data@.len() == 0 {
                    r matches Err(e) && e@ == ErrorView::Peer("Encoder stream closed"@) && final(self)@
                        == old(self)@
                } else {
                    final(self)@ == after_encoder_data(old(self)@, id, held + data@) && r
                        == (match decoder::run(old(self)@.inner.decoder_table, held + data@).2 {
                        Ok(_) => Ok::<bool, Error>(true),
                        Err(e) => Err::<bool, Error>(
                            Error::Proto(proto_connection::Error::DecodeError { reason: e }),
                        ),
                    })
                },
            },
    {
        let data = match read {
            None => {
                return Ok(false);
            },
            Some(data) => data,
        };
        match self.recv_encoder.take() {
            None => Ok(false),
            Some((id, mut buffer)) => {
                if data.len() == 0 {
                    self.recv_encoder = Some((id, buffer));
                    return Err(Error::peer("Encoder stream closed"));
                }
                buffer.extend_from_slice(data);
                let ghost bytes = buffer::buffered(buffer);
                let mut rest: &[u8] = buffer.as_ref();
                let total: usize = rest.len();
                proof {
                    decoder::run_grows(self@.inner.decoder_table, bytes);
                }
                match self.inner.on_recv_encoder(&mut rest) {
                    Ok(max_received_ref) => {
                        let pos: usize = total - rest.len();
                        buffer.advance(pos);
                        if buffer.is_empty() {
                            buffer.clear();
                        }
                        assert(buffer::buffered(buffer) == bytes.skip(pos as int));
                        self.recv_encoder = Some((id, buffer));
                        let mut unblocked = split_off(&mut self.blocked_streams, max_received_ref);
                        std::mem::swap(&mut self.blocked_streams, &mut unblocked);
                        wake_all(&mut self.wakes, &unblocked, max_received_ref);
                        proof {
                            only_those_below(
                                unblocked@,
                                old(self)@.blocked_streams,
                                max_received_ref as nat,
                            );
                        }
                        Ok(true)
                    },
                    Err(e) => {
                        self.recv_encoder = Some((id, buffer));
                        Err(Error::from(e))
                    },
                }
            },
        }
    }

    /// Takes note of what came of reading the peer's decoder stream: nothing yet, the end of the
    /// stream, or bytes. The result tells whether to read on.
    pub fn poll_decoder(&mut self, read: Option<&[u8]>) -> (r: Result<bool, Error>)
        requires
            old(self).wf(),
        ensures
            (final(self)@, go_on_model(r)) == decoder_read(old(self)@, read_model(read)),
            final(self).wf(),
            match (old(self)@.recv_decoder, read) {
                (None, _) => r == Ok::<bool, Error>(false) && final(self)@ == old(self)@,
                (_, None) => r == Ok::<bool, Error>(false) && final(self)@ == old(self)@,
                (Some((id, held)), Some(data)) => if data@.len() == 0 {
                    r matches Err(e) && e@ == ErrorView::Peer("Decoder stream closed"@) && final(self)@
                        == old(self)@
                } else {
                    final(self)@ == after_decoder_data(old(self)@, id, held + data@) && r
                        == (match encoder::run(old(self)@.inner.encoder_table, held + data@).2 {
                        Ok(_) => Ok::<bool, Error>(true),
                        Err(e) => Err::<bool, Error>(
                            Error::Proto(proto_connection::Error::EncodeError { reason: e }),
                        ),
                    })
                },
            },
    {
        let data = match read {
            None => {
                return Ok(false);
            },
            Some(data) => data,
        };
        match self.recv_decoder.take() {
            None => Ok(false),
            Some((id, mut buffer)) => {
                if data.len() == 0 {
                    self.recv_decoder = Some((id, buffer));
                    return Err(Error::peer("Decoder stream closed"));
                }
                buffer.extend_from_slice(data);
                let ghost bytes = buffer::buffered(buffer);
                let mut rest: &[u8] = buffer.as_ref();
                let total: usize = rest.len();
                proof {
                    encoder::run_len(self@.inner.encoder_table, bytes);
                }
                match self.inner.on_recv_decoder(&mut rest) {
                    Ok(_) => {
                        let pos: usize = total - rest.len();
                        buffer.advance(pos);
                        if buffer.is_empty() {
                            buffer.clear();
                        }
                        assert(buffer::buffered(buffer) == bytes.skip(pos as int));
                        self.recv_decoder = Some((id, buffer));
                        Ok(true)
                    },
                    Err(e) => {
                        self.recv_decoder = Some((id, buffer));
                        Err(Error::from(e))
                    },
                }
            },
        }
    }

    /// Decodes a header block for a task. If insertions are missing, the task is woken when they
    /// have arrived.
    pub fn decode_header(
        &mut self,
        task: TaskId,
        stream_id: StreamId,
        header: &HeadersFrame,
    ) -> (r: Result<Option<Header>, Error>)
        requires
            old(self).wf(),
        ensures
            final(self).wf(),
            (decoded_model(r), final(self)@) == decoding(
                old(self)@,
                task,
                stream_id,
                buffer::frozen(header.encoded),
            ),
    {
        match self.inner.decode_header(stream_id, header) {
            Ok(DecodeResult::Decoded(h)) => {
                self.wake_driver();
                Ok(Some(h))
            },
            Ok(DecodeResult::MissingRefs(required_ref)) => {
                self.wake_driver();
                self.blocked_streams.insert(required_ref, task);
                Ok(None)
            },
            Err(e) => Err(Error::from(e)),
        }
    }

    /// Takes note of what came of accepting a bidirectional stream. The result tells whether to
    /// accept another one.
    pub fn poll_incoming_bi(&mut self, event: Incoming) -> (r: Result<bool, Error>)
        ensures
            (final(self)@, go_on_model(r)) == bi_accepted(old(self)@, event),
            final(self).wf() == old(self).wf(),
            match event {
                Incoming::Pending => r == Ok::<bool, Error>(false) && final(self)@ == old(self)@,
                Incoming::Closed => final(self)@ == old(self)@ && match old(self)@.side {
                    Side::Server => r matches Err(e) && e@ == ErrorView::Peer("incoming bi stream Closed"@),
                    Side::Client => r == Ok::<bool, Error>(false),
                },
                Incoming::Opened(id) => r == Ok::<bool, Error>(true) && final(self)@
                    == with_request(old(self)@, id),
            },
    {
        match event {
            Incoming::Pending => Ok(false),
            Incoming::Closed => {
                if self.side == Side::Server {
                    return Err(Error::peer("incoming bi stream Closed"));
                }
                Ok(false)
            },
            Incoming::Opened(id) => {
                self.requests.push_back(id);
                if let Some(t) = self.requests_waker.take() {
                    self.wakes.push(t);
                }
                Ok(true)
            },
        }
    }

    /// Remembers the task that drives the connection, unless one is remembered already.
    pub fn driven_by(&mut self, task: TaskId)
        ensures
            final(self)@ == driven(old(self)@, task),
            final(self).wf() == old(self).wf(),
            final(self)@ == (InnerView {
                driver_waker: Some(
                    match old(self)@.driver_waker {
                        Some(t) => t,
                        None => task,
                    },
                ),
                ..old(self)@
            }),
    {
        if self.driver_waker.is_none() {
            self.driver_waker = Some(task);
        }
    }

    /// Takes the tasks that are to be woken.
    pub fn take_wakes(&mut self) -> (wakes: Vec<TaskId>)
        ensures
            final(self)@ == without_wakes(old(self)@),
            final(self).wf() == old(self).wf(),
            wakes@ == old(self)@.wakes,
            final(self)@ == (InnerView { wakes: Seq::empty(), ..old(self)@ }),
    {
        let mut wakes: Vec<TaskId> = Vec::new();
        std::mem::swap(&mut self.wakes, &mut wakes);
        wakes
    }
}

} // verus!
