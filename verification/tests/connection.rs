use bytes::Bytes;

use quinn_h3::connection::{ConnectionInner, ControlEvent, Incoming, TaskId};
use quinn_h3::error::{Error, ErrorCode};
use quinn_h3::headers::{DecodeHeaders, Progress, SendHeaders};
use quinn_h3::proto::connection::Error as ProtoError;
use quinn_h3::proto::frame::{DataFrame, HeadersFrame, HttpFrame};
use quinn_h3::proto::headers::{Header, Uri};
use quinn_h3::proto::settings::Settings;
use quinn_h3::qpack::{DecoderError, EncoderError, HeaderField};
use quinn_h3::streams::{NewUni, StreamType};
use quinn_h3::{Side, StreamId};

fn field(name: &str, value: &str) -> HeaderField {
    HeaderField {
        name: name.as_bytes().to_vec(),
        value: value.as_bytes().to_vec(),
    }
}

fn request(fields: Vec<HeaderField>) -> Header {
    Header::request(b"GET".to_vec(), Uri::default(), fields)
}

fn dynamic() -> Settings {
    Settings {
        qpack_max_table_capacity: 2048,
        qpack_blocked_streams: 42,
        ..Settings::default()
    }
}

fn conn(side: Side) -> ConnectionInner {
    ConnectionInner::new(dynamic(), side).unwrap()
}

#[test]
fn new_connection_announces_its_settings() {
    let mut c = conn(Side::Client);
    let sends = c.poll_send_uni();
    assert_eq!(sends.len(), 1);
    assert_eq!(sends[0].0, StreamType::Control);
    match HttpFrame::decode(sends[0].1.as_ref()) {
        Ok((Some(HttpFrame::Settings(s)), _)) => assert_eq!(s, dynamic()),
        _ => panic!("no settings"),
    }
    assert!(c.poll_send_uni().is_empty());
}

#[test]
fn refused_settings_make_no_connection() {
    let r = ConnectionInner::new(
        Settings {
            qpack_blocked_streams: 65536,
            ..Settings::default()
        },
        Side::Server,
    );
    assert_eq!(
        r.err(),
        Some(ProtoError::Settings {
            reason: "dynamic table error: max blocked streams too large".to_string()
        })
    );
}

#[test]
fn everything_is_sent_on_its_stream() {
    let mut c = conn(Side::Client);
    c.inner.set_remote_settings(dynamic());
    SendHeaders::new(request(vec![field("hello", "x")]), &mut c, StreamId(0)).unwrap();
    let mut plain = ConnectionInner::new(Settings::default(), Side::Client).unwrap();
    let sent = SendHeaders::new(request(vec![]), &mut plain, StreamId(1)).unwrap();
    c.decode_header(TaskId(1), StreamId(1), &sent.0).unwrap();
    let sends = c.poll_send_uni();
    let types: Vec<StreamType> = sends.iter().map(|s| s.0).collect();
    assert_eq!(
        types,
        vec![
            StreamType::Control,
            StreamType::Encoder,
            StreamType::Decoder
        ]
    );
    assert_eq!(sends[1].1.as_ref(), &b"\x45hello\x01x"[..]);
    assert_eq!(sends[2].1.as_ref(), &[0x81][..]);
}

#[test]
fn unidirectional_streams_are_accepted() {
    let mut c = conn(Side::Client);
    assert_eq!(
        c.poll_incoming_uni(Incoming::Opened(StreamId(3))),
        Ok(true)
    );
    assert_eq!(
        c.poll_incoming_uni(Incoming::Opened(StreamId(7))),
        Ok(true)
    );
    assert_eq!(c.poll_incoming_uni(Incoming::Pending), Ok(false));
    assert_eq!(c.pending_uni, vec![StreamId(3), StreamId(7)]);
    assert_eq!(
        c.poll_incoming_uni(Incoming::Closed),
        Err(Error::Internal("incoming uni streams closed"))
    );
}

#[test]
fn resolved_streams_leave_and_take_their_places() {
    let mut c = conn(Side::Client);
    for id in 0..6 {
        c.poll_incoming_uni(Incoming::Opened(StreamId(id))).unwrap();
    }
    let more = c.poll_recv_uni(vec![
        (0, Ok(NewUni::Control(StreamId(0)))),
        (2, Ok(NewUni::Encoder(StreamId(2)))),
        (3, Err(Error::UnknownStream(84))),
        (5, Ok(NewUni::Decoder(StreamId(5)))),
    ]);
    assert!(more);
    assert_eq!(c.pending_uni, vec![StreamId(1), StreamId(4)]);
    assert_eq!(c.control, Some(StreamId(0)));
    assert_eq!(c.recv_encoder.as_ref().unwrap().0, StreamId(2));
    assert_eq!(c.recv_decoder.as_ref().unwrap().0, StreamId(5));
    assert_eq!(c.error, None);
    assert!(!c.poll_recv_uni(vec![]));
    assert!(c.poll_recv_uni(vec![(1, Ok(NewUni::Push(StreamId(4))))]));
    assert_eq!(c.pending_uni, vec![StreamId(1)]);
    assert_eq!(c.error, None);
}

#[test]
fn second_critical_streams_are_errors() {
    let cases = [
        (NewUni::Control(StreamId(9)), "control stream already open"),
        (NewUni::Encoder(StreamId(9)), "encoder stream already open"),
        (NewUni::Decoder(StreamId(9)), "decoder stream already open"),
    ];
    for (uni, message) in cases.iter() {
        let mut c = conn(Side::Client);
        for id in 0..4 {
            c.poll_incoming_uni(Incoming::Opened(StreamId(id))).unwrap();
        }
        c.poll_recv_uni(vec![
            (0, Ok(NewUni::Control(StreamId(0)))),
            (1, Ok(NewUni::Encoder(StreamId(1)))),
            (2, Ok(NewUni::Decoder(StreamId(2)))),
            (3, Ok(*uni)),
        ]);
        assert_eq!(
            c.error,
            Some((ErrorCode::StreamCreationError, message.to_string()))
        );
        assert_eq!(c.control, Some(StreamId(0)));
        assert_eq!(c.recv_encoder.as_ref().unwrap().0, StreamId(1));
        assert_eq!(c.recv_decoder.as_ref().unwrap().0, StreamId(2));
    }
}

#[test]
fn stream_without_a_type_is_an_error() {
    let mut c = conn(Side::Client);
    c.poll_incoming_uni(Incoming::Opened(StreamId(3))).unwrap();
    c.poll_recv_uni(vec![(0, Err(Error::peer("stream ended")))]);
    assert_eq!(
        c.error,
        Some((
            ErrorCode::StreamCreationError,
            "Peer(\"stream ended\")".to_string()
        ))
    );
}

fn with_control(side: Side) -> ConnectionInner {
    let mut c = conn(side);
    c.poll_incoming_uni(Incoming::Opened(StreamId(3))).unwrap();
    c.poll_recv_uni(vec![(0, Ok(NewUni::Control(StreamId(3))))]);
    c
}

#[test]
fn control_is_not_read_before_it_is_open() {
    let mut c = conn(Side::Client);
    assert!(!c.poll_control(ControlEvent::Closed));
    assert_eq!(c.error, None);
}

#[test]
fn settings_arrive_on_the_control_stream() {
    let mut c = with_control(Side::Client);
    assert!(!c.poll_control(ControlEvent::Pending));
    assert!(c.poll_control(ControlEvent::Frame(HttpFrame::Settings(dynamic()))));
    assert_eq!(*c.inner.remote_settings(), Some(dynamic()));
    assert!(c.poll_control(ControlEvent::Frame(HttpFrame::Goaway(4))));
    assert_eq!(c.error, None);
    assert!(!c.poll_control(ControlEvent::Closed));
    assert_eq!(
        c.error,
        Some((
            ErrorCode::ClosedCriticalStream,
            "control closed".to_string()
        ))
    );
}

#[test]
fn control_frames_are_judged_by_side_and_settings() {
    let ignored: [(Side, fn() -> HttpFrame); 3] = [
        (Side::Client, || HttpFrame::Goaway(1)),
        (Side::Server, || HttpFrame::CancelPush(1)),
        (Side::Server, || HttpFrame::MaxPushId(1)),
    ];
    for (side, frame) in ignored.iter() {
        let mut c = with_control(*side);
        assert!(!c.poll_control(ControlEvent::Frame(frame())));
        assert_eq!(
            c.error,
            Some((ErrorCode::MissingSettings, "missing settings".to_string()))
        );
        let mut c = with_control(*side);
        c.inner.set_remote_settings(Settings::default());
        assert!(c.poll_control(ControlEvent::Frame(frame())));
        assert_eq!(c.error, None);
    }
    let unexpected: [(Side, fn() -> HttpFrame); 5] = [
        (Side::Server, || HttpFrame::Goaway(1)),
        (Side::Client, || HttpFrame::CancelPush(1)),
        (Side::Client, || HttpFrame::MaxPushId(1)),
        (Side::Client, || {
            HttpFrame::Data(DataFrame {
                payload: Bytes::new(),
            })
        }),
        (Side::Server, || {
            HttpFrame::Headers(HeadersFrame {
                encoded: Bytes::new(),
            })
        }),
    ];
    for (side, frame) in unexpected.iter() {
        for settled in 0..2 {
            let mut c = with_control(*side);
            if settled == 1 {
                c.inner.set_remote_settings(Settings::default());
            }
            assert!(!c.poll_control(ControlEvent::Frame(frame())));
            assert_eq!(
                c.error,
                Some((
                    ErrorCode::FrameUnexpected,
                    "unexpected frame type on control stream".to_string()
                ))
            );
        }
    }
}

#[test]
fn failure_of_the_control_stream_is_kept() {
    let mut c = with_control(Side::Client);
    assert!(!c.poll_control(ControlEvent::Failed(
        ErrorCode::FrameError,
        "malformed frame".to_string()
    )));
    assert_eq!(
        c.error,
        Some((ErrorCode::FrameError, "malformed frame".to_string()))
    );
}

fn with_encoder() -> ConnectionInner {
    let mut c = conn(Side::Server);
    c.poll_incoming_uni(Incoming::Opened(StreamId(2))).unwrap();
    c.poll_recv_uni(vec![(0, Ok(NewUni::Encoder(StreamId(2))))]);
    c
}

#[test]
fn waiting_tasks_are_woken_in_order() {
    let mut c = with_encoder();
    c.blocked_streams.insert(3, TaskId(30));
    c.blocked_streams.insert(1, TaskId(10));
    c.blocked_streams.insert(2, TaskId(20));
    c.blocked_streams.insert(7, TaskId(70));
    assert_eq!(c.poll_encoder(None), Ok(false));
    // Half of an instruction, then the rest and two more.
    assert_eq!(c.poll_encoder(Some(b"\x45hel")), Ok(true));
    assert!(c.take_wakes().is_empty());
    assert_eq!(c.poll_encoder(Some(b"lo\x01x\x00\x00")), Ok(true));
    // Those that wait for fewer insertions than the three that have arrived.
    assert_eq!(c.take_wakes(), vec![TaskId(10), TaskId(20)]);
    assert!(c.take_wakes().is_empty());
    assert_eq!(c.blocked_streams.get(&3), Some(&TaskId(30)));
    assert_eq!(c.blocked_streams.get(&7), Some(&TaskId(70)));
    assert_eq!(c.blocked_streams.len(), 2);
    assert!(c.recv_encoder.as_ref().unwrap().1.is_empty());
    // The insertions are confirmed: nothing for the first piece, three for the second.
    let sends = c.poll_send_uni();
    assert_eq!(sends[1].0, StreamType::Decoder);
    assert_eq!(sends[1].1.as_ref(), &[0x03][..]);
}

#[test]
fn end_of_the_encoder_stream_is_an_error() {
    let mut c = conn(Side::Server);
    assert_eq!(c.poll_encoder(Some(b"")), Ok(false));
    let mut c = with_encoder();
    assert_eq!(
        c.poll_encoder(Some(b"")),
        Err(Error::Peer("Encoder stream closed".to_string()))
    );
}

#[test]
fn bad_instructions_end_the_connection() {
    let mut c = with_encoder();
    c.blocked_streams.insert(0, TaskId(1));
    // A duplicate of an entry that is not there.
    assert_eq!(
        c.poll_encoder(Some(&[0x00])),
        Err(Error::Proto(ProtoError::DecodeError {
            reason: DecoderError::InvalidIndex(0)
        }))
    );
    assert!(c.take_wakes().is_empty());
    assert_eq!(&c.recv_encoder.as_ref().unwrap().1[..], &[0x00][..]);
}

#[test]
fn reports_arrive_in_pieces() {
    let mut c = conn(Side::Client);
    c.inner.set_remote_settings(dynamic());
    assert_eq!(c.poll_decoder(Some(b"")), Ok(false));
    c.poll_incoming_uni(Incoming::Opened(StreamId(2))).unwrap();
    c.poll_recv_uni(vec![(0, Ok(NewUni::Decoder(StreamId(2))))]);
    SendHeaders::new(request(vec![field("a", "b")]), &mut c, StreamId(200)).unwrap();
    assert_eq!(c.poll_decoder(None), Ok(false));
    // The acknowledgment of stream 200 takes two bytes.
    assert_eq!(c.poll_decoder(Some(&[0xff])), Ok(true));
    assert_eq!(c.recv_decoder.as_ref().unwrap().1.len(), 1);
    assert_eq!(c.poll_decoder(Some(&[0x49])), Ok(true));
    assert!(c.recv_decoder.as_ref().unwrap().1.is_empty());
    assert_eq!(c.inner.encoder_table.known_received(), 1);
    assert_eq!(
        c.poll_decoder(Some(&[0x81])),
        Err(Error::Proto(ProtoError::EncodeError {
            reason: EncoderError::UnknownStreamId(1)
        }))
    );
    assert_eq!(
        c.poll_decoder(Some(b"")),
        Err(Error::Peer("Decoder stream closed".to_string()))
    );
}

#[test]
fn header_waits_for_its_insertions() {
    let mut client = conn(Side::Client);
    client.inner.set_remote_settings(dynamic());
    let header = request(vec![field("hello", "x")]);
    let sent = SendHeaders::new(header.clone(), &mut client, StreamId(0)).unwrap();
    let instructions = client.poll_send_uni().remove(1).1;

    let mut server = with_encoder();
    server.driven_by(TaskId(99));
    let decode = DecodeHeaders::new(sent.0, StreamId(0));
    assert!(matches!(
        decode.poll(&mut server, TaskId(5)),
        Progress::Pending
    ));
    assert_eq!(server.take_wakes(), vec![TaskId(99)]);
    assert_eq!(server.blocked_streams.get(&1), Some(&TaskId(5)));

    assert_eq!(server.poll_encoder(Some(instructions.as_ref())), Ok(true));
    server.driven_by(TaskId(99));
    match decode.poll(&mut server, TaskId(5)) {
        Progress::Ready(Ok(h)) => assert_eq!(h, header),
        _ => panic!("not decoded"),
    }
    assert_eq!(server.take_wakes(), vec![TaskId(99)]);
}

#[test]
fn later_waiter_replaces_an_earlier_one() {
    let mut server = with_encoder();
    let header = HeadersFrame {
        encoded: Bytes::from(&[0x02, 0x80, 0x10][..]),
    };
    assert_eq!(
        server.decode_header(TaskId(1), StreamId(0), &header),
        Ok(None)
    );
    assert_eq!(
        server.decode_header(TaskId(2), StreamId(4), &header),
        Ok(None)
    );
    assert_eq!(server.blocked_streams.len(), 1);
    assert_eq!(server.blocked_streams.get(&1), Some(&TaskId(2)));
}

#[test]
fn undecodable_header_is_the_peers_fault() {
    let mut c = conn(Side::Client);
    let decode = DecodeHeaders::new(
        HeadersFrame {
            encoded: Bytes::new(),
        },
        StreamId(0),
    );
    match decode.poll(&mut c, TaskId(1)) {
        Progress::Ready(Err(e)) => assert_eq!(
            e,
            Error::Peer(
                "decoding header failed: Proto(DecodeError { reason: UnexpectedEnd })".to_string()
            )
        ),
        _ => panic!("no error"),
    }
    // A field with an upper-case name.
    let decode = DecodeHeaders::new(
        HeadersFrame {
            encoded: Bytes::from(&b"\x00\x00\x21X\x00"[..]),
        },
        StreamId(0),
    );
    match decode.poll(&mut c, TaskId(1)) {
        Progress::Ready(Err(e)) => assert_eq!(
            e,
            Error::Peer(
                "decoding header failed: Proto(InvalidHeaderName(\"[88]\"))".to_string()
            )
        ),
        _ => panic!("no error"),
    }
    let decode = DecodeHeaders {
        frame: None,
        stream_id: StreamId(0),
    };
    match decode.poll(&mut c, TaskId(1)) {
        Progress::Ready(Err(e)) => assert_eq!(e, Error::Internal("frame none")),
        _ => panic!("no error"),
    }
}

#[test]
fn driver_is_woken_for_new_insertions() {
    let mut c = conn(Side::Client);
    c.driven_by(TaskId(1));
    c.driven_by(TaskId(2));
    assert_eq!(c.driver_waker, Some(TaskId(1)));
    c.on_encoded(0);
    assert!(c.take_wakes().is_empty());
    c.on_encoded(1);
    assert_eq!(c.take_wakes(), vec![TaskId(1)]);
    assert_eq!(c.driver_waker, None);
    c.on_encoded(1);
    assert!(c.take_wakes().is_empty());
}

#[test]
fn header_that_is_too_large_is_not_sent() {
    let mut c = conn(Side::Client);
    c.inner.set_remote_settings(Settings {
        max_header_list_size: 2,
        ..Settings::default()
    });
    let r = SendHeaders::new(request(vec![]), &mut c, StreamId(0));
    assert_eq!(
        r.err(),
        Some(Error::Proto(ProtoError::HeaderListTooLarge))
    );
}

#[test]
fn requests_wake_whoever_waits_for_them() {
    let mut c = conn(Side::Server);
    c.requests_waker = Some(TaskId(8));
    assert_eq!(c.poll_incoming_bi(Incoming::Pending), Ok(false));
    assert_eq!(
        c.poll_incoming_bi(Incoming::Opened(StreamId(0))),
        Ok(true)
    );
    assert_eq!(
        c.poll_incoming_bi(Incoming::Opened(StreamId(4))),
        Ok(true)
    );
    assert_eq!(c.requests, vec![StreamId(0), StreamId(4)]);
    assert_eq!(c.take_wakes(), vec![TaskId(8)]);
    assert_eq!(c.requests_waker, None);
}

#[test]
fn end_of_requests_concerns_servers() {
    let mut c = conn(Side::Server);
    assert_eq!(
        c.poll_incoming_bi(Incoming::Closed),
        Err(Error::Peer("incoming bi stream Closed".to_string()))
    );
    let mut c = conn(Side::Client);
    assert_eq!(c.poll_incoming_bi(Incoming::Closed), Ok(false));
}
