use bytes::Bytes;

use quinn_h3::client::{
    build_response, Action, Body, Builder, Event, RecvResponse, RecvResponseState, Request,
    RequestBuilder, SendRequest, SendRequestState, StreamRequest,
};
use quinn_h3::connection::{ConnectionInner, TaskId};
use quinn_h3::error::Error;
use quinn_h3::proto::connection::Error as ProtoError;
use quinn_h3::proto::frame::{DataFrame, HeadersFrame, HttpFrame};
use quinn_h3::proto::headers::{Header, Uri};
use quinn_h3::proto::settings::Settings;
use quinn_h3::qpack::HeaderField;
use quinn_h3::{Side, StreamId};

fn field(name: &str, value: &str) -> HeaderField {
    HeaderField {
        name: name.as_bytes().to_vec(),
        value: value.as_bytes().to_vec(),
    }
}

fn conn() -> ConnectionInner {
    ConnectionInner::new(Settings::default(), Side::Client).unwrap()
}

fn get(body: Body) -> Request {
    Request {
        method: b"GET".to_vec(),
        uri: Uri::default(),
        fields: vec![],
        body,
    }
}

const GET_BLOCK: &[u8] = &[0x00, 0x00, 0xd1, 0xd7, 0xc1];
const OK_BLOCK: &[u8] = &[0x00, 0x00, 0xd9];

fn headers(block: &[u8]) -> HttpFrame {
    HttpFrame::Headers(HeadersFrame {
        encoded: Bytes::from(block),
    })
}

fn data(payload: &[u8]) -> HttpFrame {
    HttpFrame::Data(DataFrame {
        payload: Bytes::from(payload),
    })
}

fn written<T>(r: Result<Action<T>, Error>, frame: HttpFrame) {
    match r {
        Ok(Action::Write(f)) => assert_eq!(f, frame),
        _ => panic!("nothing to write"),
    }
}

fn failed<T>(r: Result<Action<T>, Error>, error: Error) {
    match r {
        Err(e) => assert_eq!(e, error),
        _ => panic!("no error"),
    }
}

#[test]
fn builder_keeps_settings_and_endpoint() {
    let s = Settings {
        qpack_blocked_streams: 9,
        ..Settings::default()
    };
    let mut b = Builder::new();
    assert_eq!(b.settings, Settings::default());
    assert_eq!(Builder::default().settings, Settings::default());
    b.settings(Settings::default()).settings(s);
    let client = b.clone().endpoint("endpoint");
    assert_eq!(client.settings, s);
    assert_eq!(client.endpoint, "endpoint");
}

#[test]
fn request_without_body_gets_its_response() {
    let mut c = conn();
    // Trailers without a body are not sent.
    let mut q: SendRequest<&str> = RequestBuilder::new(get(Body::Empty))
        .trailers(vec![field("t", "1")])
        .send();
    assert_eq!(q.state.name(), "SendRequestState::Opening");
    assert!(matches!(
        q.poll(&mut c, Event::Pending),
        Ok(Action::Wait)
    ));
    written(
        q.poll(&mut c, Event::Opened(StreamId(4), "recv")),
        headers(GET_BLOCK),
    );
    assert_eq!(q.state.name(), "SendRequestState::Sending");
    assert!(matches!(
        q.poll(&mut c, Event::Written),
        Ok(Action::Receive)
    ));
    assert_eq!(q.state.name(), "SendRequestState::Receiving");
    assert!(matches!(
        q.poll(&mut c, Event::Frame(headers(OK_BLOCK))),
        Ok(Action::Decode)
    ));
    assert_eq!(q.state.name(), "SendRequestState::Decoding");
    match q.poll(&mut c, Event::Decode(TaskId(1))) {
        Ok(Action::Done(p)) => {
            assert_eq!(p.status, 200);
            assert_eq!(p.fields, vec![]);
            assert_eq!(p.recv, "recv");
            assert_eq!(p.stream_id, StreamId(4));
        }
        _ => panic!("no response"),
    }
    assert_eq!(q.state.name(), "SendRequestState::Finished");
    failed(q.poll(&mut c, Event::Decode(TaskId(1))), Error::Poll);
    failed(q.poll(&mut c, Event::Pending), Error::Poll);
}

#[test]
fn request_with_body_and_trailers_sends_all_of_it() {
    let mut c = conn();
    let mut q: SendRequest<u8> = RequestBuilder::new(get(Body::Buf(Bytes::from(&b"body"[..]))))
        .trailers(vec![field("old", "1")])
        .trailers(vec![field("t", "1")])
        .send();
    written(
        q.poll(&mut c, Event::Opened(StreamId(0), 7)),
        headers(GET_BLOCK),
    );
    written(q.poll(&mut c, Event::Written), data(b"body"));
    assert_eq!(q.state.name(), "SendRequestState::SendingBody");
    written(
        q.poll(&mut c, Event::Written),
        headers(b"\x00\x00\x21t\x011"),
    );
    assert_eq!(q.state.name(), "SendRequestState::SendingTrailers");
    assert!(matches!(
        q.poll(&mut c, Event::Written),
        Ok(Action::Receive)
    ));
}

#[test]
fn request_with_body_alone_reads_after_it() {
    let mut c = conn();
    let mut q: SendRequest<u8> =
        SendRequest::new(get(Body::Buf(Bytes::from(&b"body"[..]))), None);
    q.poll(&mut c, Event::Opened(StreamId(0), 7)).unwrap();
    written(q.poll(&mut c, Event::Written), data(b"body"));
    assert!(matches!(
        q.poll(&mut c, Event::Written),
        Ok(Action::Receive)
    ));
    assert!(matches!(q.state, SendRequestState::Receiving(7)));
}

fn receiving(c: &mut ConnectionInner) -> SendRequest<u8> {
    let mut q: SendRequest<u8> = SendRequest::new(get(Body::Empty), None);
    q.poll(c, Event::Opened(StreamId(0), 7)).unwrap();
    q.poll(c, Event::Written).unwrap();
    q
}

#[test]
fn responses_have_to_start_with_a_header() {
    let mut c = conn();
    let mut q = receiving(&mut c);
    failed(
        q.poll(&mut c, Event::Ended),
        Error::Peer("received an empty response".to_string()),
    );
    failed(
        q.poll(&mut c, Event::Frame(data(b"x"))),
        Error::Peer("first frame is not headers".to_string()),
    );
    failed(
        q.poll(&mut c, Event::Failed(Error::Transport("reset".to_string()))),
        Error::Transport("reset".to_string()),
    );
    assert!(matches!(q.state, SendRequestState::Receiving(7)));
}

#[test]
fn response_without_a_status_is_an_error() {
    let mut c = conn();
    let mut q = receiving(&mut c);
    q.poll(&mut c, Event::Frame(headers(&[0x00, 0x00, 0xd1])))
        .unwrap();
    failed(
        q.poll(&mut c, Event::Decode(TaskId(1))),
        Error::Proto(ProtoError::InvalidResponse("missing status".to_string())),
    );
    assert_eq!(q.state.name(), "SendRequestState::Finished");
}

#[test]
fn response_that_waits_is_decoded_later() {
    let dynamic = Settings {
        qpack_max_table_capacity: 2048,
        qpack_blocked_streams: 42,
        ..Settings::default()
    };
    let mut c = ConnectionInner::new(dynamic, Side::Client).unwrap();
    let mut q = receiving(&mut c);
    q.poll(&mut c, Event::Frame(headers(&[0x02, 0x80, 0xd9, 0x10])))
        .unwrap();
    assert!(matches!(
        q.poll(&mut c, Event::Decode(TaskId(1))),
        Ok(Action::Wait)
    ));
    assert_eq!(c.blocked_streams.get(&1), Some(&TaskId(1)));
    let mut read: &[u8] = b"\x45hello\x01x";
    c.inner.on_recv_encoder(&mut read).unwrap();
    match q.poll(&mut c, Event::Decode(TaskId(1))) {
        Ok(Action::Done(p)) => {
            assert_eq!(p.status, 200);
            assert_eq!(p.fields, vec![field("hello", "x")]);
        }
        _ => panic!("no response"),
    }
}

#[test]
fn undecodable_response_is_an_error() {
    let mut c = conn();
    let mut q = receiving(&mut c);
    q.poll(&mut c, Event::Frame(headers(&[]))).unwrap();
    failed(
        q.poll(&mut c, Event::Decode(TaskId(1))),
        Error::Peer(
            "decoding header failed: Proto(DecodeError { reason: UnexpectedEnd })".to_string(),
        ),
    );
    assert_eq!(q.state.name(), "SendRequestState::Decoding");
}

#[test]
fn refused_header_is_gone() {
    let mut c = conn();
    c.inner.set_remote_settings(Settings {
        max_header_list_size: 2,
        ..Settings::default()
    });
    let mut q: SendRequest<u8> = SendRequest::new(get(Body::Empty), None);
    failed(
        q.poll(&mut c, Event::Opened(StreamId(0), 7)),
        Error::Proto(ProtoError::HeaderListTooLarge),
    );
    failed(
        q.poll(&mut c, Event::Opened(StreamId(0), 7)),
        Error::Internal("header none"),
    );
}

#[test]
fn request_does_not_take_what_it_does_not_wait_for() {
    let mut c = conn();
    let mut q: SendRequest<u8> = SendRequest::new(get(Body::Empty), None);
    failed(q.poll(&mut c, Event::Written), Error::Poll);
    failed(q.poll(&mut c, Event::Ended), Error::Poll);
    assert_eq!(q.state.name(), "SendRequestState::Opening");
    assert!(q.poll(&mut c, Event::Opened(StreamId(0), 7)).is_ok());
}

#[test]
fn inconsistent_requests_tell_what_is_missing() {
    let mut c = conn();
    let fresh = || -> SendRequest<u8> { SendRequest::new(get(Body::Empty), None) };

    let mut q = fresh();
    q.state = SendRequestState::Sending;
    failed(
        q.poll(&mut c, Event::Written),
        Error::Internal("Invalid receive state"),
    );

    let mut q = fresh();
    q.state = SendRequestState::SendingBody;
    q.trailers = Some(Header::trailer(vec![]));
    failed(
        q.poll(&mut c, Event::Written),
        Error::Internal("stream_id is none"),
    );

    let mut q = fresh();
    q.state = SendRequestState::Receiving(1);
    failed(
        q.poll(&mut c, Event::Frame(headers(OK_BLOCK))),
        Error::Internal("Stream id is none"),
    );

    let mut q = receiving(&mut c);
    q.poll(&mut c, Event::Frame(headers(OK_BLOCK))).unwrap();
    q.recv = None;
    failed(
        q.poll(&mut c, Event::Decode(TaskId(1))),
        Error::Internal("recv is none"),
    );

    let mut q = receiving(&mut c);
    q.poll(&mut c, Event::Frame(headers(OK_BLOCK))).unwrap();
    q.stream_id = None;
    failed(
        q.poll(&mut c, Event::Decode(TaskId(1))),
        Error::Internal("stream is none"),
    );
}

#[test]
fn streamed_request_hands_out_its_stream() {
    let mut c = conn();
    let mut q: StreamRequest<u8> = RequestBuilder::new(get(Body::Buf(Bytes::from(&b"abc"[..]))))
        .trailers(vec![field("t", "1")])
        .stream();
    assert!(matches!(q.poll(&mut c, Event::Pending), Ok(Action::Wait)));
    failed(q.poll(&mut c, Event::Ended), Error::Poll);
    written(
        q.poll(&mut c, Event::Opened(StreamId(8), 7)),
        headers(GET_BLOCK),
    );
    written(q.poll(&mut c, Event::Written), data(b"abc"));
    match q.poll(&mut c, Event::Written) {
        Ok(Action::Done(s)) => {
            assert_eq!(s.stream_id, StreamId(8));
            assert_eq!(s.trailers, Some(vec![field("t", "1")]));
            assert_eq!(s.recv.stream_id, StreamId(8));
            assert!(matches!(s.recv.state, RecvResponseState::Receiving(7)));
        }
        _ => panic!("not begun"),
    }
}

#[test]
fn streamed_request_without_body_begins_after_its_header() {
    let mut c = conn();
    let mut q: StreamRequest<u8> = RequestBuilder::new(get(Body::Empty)).stream();
    q.poll(&mut c, Event::Opened(StreamId(8), 7)).unwrap();
    assert!(matches!(
        q.poll(&mut c, Event::Written),
        Ok(Action::Done(_))
    ));
}

#[test]
fn streamed_request_ends_with_an_error() {
    let mut c = conn();
    c.inner.set_remote_settings(Settings {
        max_header_list_size: 2,
        ..Settings::default()
    });
    let mut q: StreamRequest<u8> = RequestBuilder::new(get(Body::Empty)).stream();
    failed(
        q.poll(&mut c, Event::Opened(StreamId(8), 7)),
        Error::Proto(ProtoError::HeaderListTooLarge),
    );
    let mut q: StreamRequest<u8> = RequestBuilder::new(get(Body::Empty)).stream();
    failed(
        q.poll(&mut c, Event::Failed(Error::Transport("lost".to_string()))),
        Error::Transport("lost".to_string()),
    );
}

#[test]
fn awaited_response_arrives() {
    let mut c = conn();
    let mut r = RecvResponse::new("recv", StreamId(8));
    assert_eq!(r.state.name(), "RecvResponseState::Recieving");
    assert!(matches!(r.poll(&mut c, Event::Pending), Ok(Action::Wait)));
    failed(
        r.poll(&mut c, Event::Ended),
        Error::Peer("received an empty response".to_string()),
    );
    failed(
        r.poll(&mut c, Event::Frame(data(b"x"))),
        Error::Peer("first frame is not headers".to_string()),
    );
    failed(r.poll(&mut c, Event::Written), Error::Poll);
    assert!(matches!(
        r.poll(&mut c, Event::Frame(headers(OK_BLOCK))),
        Ok(Action::Decode)
    ));
    assert_eq!(r.state.name(), "RecvResponseState::Decoding");
    match r.poll(&mut c, Event::Decode(TaskId(1))) {
        Ok(Action::Done(p)) => {
            assert_eq!(p.status, 200);
            assert_eq!(p.recv, "recv");
            assert_eq!(p.stream_id, StreamId(8));
        }
        _ => panic!("no response"),
    }
    assert_eq!(r.state.name(), "RecvResponseState::Finished");
    failed(
        r.poll(&mut c, Event::Pending),
        Error::Internal("recv response polled after finish"),
    );
}

#[test]
fn awaited_response_without_status_is_not_finished() {
    let mut c = conn();
    let mut r = RecvResponse::new(1u8, StreamId(8));
    r.poll(&mut c, Event::Frame(headers(&[0x00, 0x00, 0xd1])))
        .unwrap();
    failed(
        r.poll(&mut c, Event::Decode(TaskId(1))),
        Error::Proto(ProtoError::InvalidResponse("missing status".to_string())),
    );
    assert_eq!(r.state.name(), "RecvResponseState::Decoding");
    assert_eq!(r.recv, None);
}

#[test]
fn responses_are_built_from_headers() {
    let h = Header::try_from(vec![field(":status", "404"), field("x", "1")]).unwrap();
    let p = build_response(h, 5u8, StreamId(3)).unwrap();
    assert_eq!(p.status, 404);
    assert_eq!(p.fields, vec![field("x", "1")]);
    assert_eq!(p.recv, 5);
    assert_eq!(p.stream_id, StreamId(3));
}
