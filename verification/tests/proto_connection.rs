use quinn_h3::proto::connection::{Connection, DecodeResult, Error};
use quinn_h3::proto::frame::HttpFrame;
use quinn_h3::proto::headers::{Header, Uri};
use quinn_h3::proto::settings::Settings;
use quinn_h3::qpack::{DecoderError, EncoderError, HeaderField};
use quinn_h3::StreamId;

fn field(name: &str, value: &str) -> HeaderField {
    HeaderField {
        name: name.as_bytes().to_vec(),
        value: value.as_bytes().to_vec(),
    }
}

fn request(fields: Vec<HeaderField>) -> Header {
    Header::request(b"GET".to_vec(), Uri::default(), fields)
}

#[test]
fn encode_no_dynamic() {
    let header = request(vec![field("hello", "text/html")]);

    let mut conn = Connection::default();
    assert!(matches!(conn.encode_header(StreamId(1), header), Ok(_)));
    assert!(conn.pending_encoder.is_empty());
}

#[test]
fn encode_with_dynamic() {
    let header = request(vec![field("hello", "text/html")]);

    let mut conn = Connection::default();
    conn.encoder_table
        .set_max_mem_size(2048)
        .expect("set table size");
    conn.encoder_table
        .set_max_blocked(12usize)
        .expect("set max blocked");
    assert!(matches!(conn.encode_header(StreamId(1), header), Ok(_)));
    assert!(!conn.pending_encoder.is_empty());
}

#[test]
fn encode_too_many_fields() {
    let mut fields = Vec::new();
    for _ in 0..5 {
        fields.push(field("hello", "text/html"));
    }
    let header = request(fields);

    let mut conn = Connection::default();
    conn.remote_settings = Some(Settings {
        max_header_list_size: 4,
        ..Settings::default()
    });
    assert_eq!(
        conn.encode_header(StreamId(1), header),
        Err(Error::HeaderListTooLarge)
    );
}

#[test]
fn decode_header() {
    let header = request(vec![field("hello", "text/html")]);

    let mut client = Connection::default();
    let (_, encoded) = client
        .encode_header(StreamId(1), header)
        .expect("encoding failed");

    let mut server = Connection::default();
    assert!(matches!(
        server.decode_header(StreamId(1), &encoded),
        Ok(DecodeResult::Decoded(_header))
    ));
    assert!(!server.pending_decoder.is_empty());
}

#[test]
fn decode_blocked() {
    let header = request(vec![field("hello", "text/html")]);

    let mut client = Connection::default();
    client
        .encoder_table
        .set_max_mem_size(2048)
        .expect("set table size");
    client
        .encoder_table
        .set_max_blocked(12usize)
        .expect("set max");

    let (_, encoded) = client
        .encode_header(StreamId(1), header)
        .expect("encoding failed");
    assert!(!client.pending_encoder.is_empty());

    let mut server = Connection::with_settings(Settings {
        qpack_max_table_capacity: 2048,
        qpack_blocked_streams: 42,
        ..Settings::default()
    })
    .expect("create server");

    assert!(matches!(
        server.decode_header(StreamId(1), &encoded),
        Ok(DecodeResult::MissingRefs(_))
    ));
    assert!(server.pending_decoder.is_empty());
}

fn dynamic_pair() -> (Connection, Connection) {
    let theirs = Settings {
        qpack_max_table_capacity: 2048,
        qpack_blocked_streams: 42,
        ..Settings::default()
    };
    let mut client = Connection::with_settings(Settings::default()).unwrap();
    let mut server = Connection::with_settings(theirs).unwrap();
    let announced = server.pending_control().unwrap();
    match HttpFrame::decode(announced.as_ref()) {
        Ok((Some(HttpFrame::Settings(s)), used)) => {
            assert_eq!(used, announced.len());
            assert_eq!(s, theirs);
            client.set_remote_settings(s);
        }
        _ => panic!("no settings"),
    }
    (client, server)
}

#[test]
fn announced_settings_are_read_back() {
    let (client, _) = dynamic_pair();
    assert_eq!(
        *client.remote_settings(),
        Some(Settings {
            qpack_max_table_capacity: 2048,
            qpack_blocked_streams: 42,
            ..Settings::default()
        })
    );
}

#[test]
fn header_comes_back_over_a_dynamic_table() {
    let (mut client, mut server) = dynamic_pair();
    let header = request(vec![field("hello", "text/html"), field("x-again", "1")]);
    for turn in 0..3u64 {
        let (required, encoded) = client
            .encode_header(StreamId(4 * turn), header.clone())
            .unwrap();
        assert_eq!(required, 2);
        if let Some(bytes) = client.pending_encoder() {
            assert_eq!(turn, 0);
            let mut read: &[u8] = bytes.as_ref();
            assert_eq!(server.on_recv_encoder(&mut read), Ok(2));
            assert!(read.is_empty());
        }
        match server.decode_header(StreamId(4 * turn), &encoded) {
            Ok(DecodeResult::Decoded(h)) => assert_eq!(h, header),
            _ => panic!("not decoded"),
        }
        let reports = server.pending_decoder().unwrap();
        let mut read: &[u8] = reports.as_ref();
        assert_eq!(client.on_recv_decoder(&mut read), Ok(()));
        assert!(read.is_empty());
    }
}

#[test]
fn blocked_header_decodes_once_insertions_arrive() {
    let (mut client, mut server) = dynamic_pair();
    let header = request(vec![field("hello", "text/html")]);
    let (required, encoded) = client.encode_header(StreamId(0), header.clone()).unwrap();
    assert_eq!(required, 1);
    match server.decode_header(StreamId(0), &encoded) {
        Ok(DecodeResult::MissingRefs(n)) => assert_eq!(n, 1),
        _ => panic!("not blocked"),
    }
    assert!(server.pending_decoder().is_none());
    let bytes = client.pending_encoder().unwrap();
    let (first, second) = bytes.as_ref().split_at(3);
    let mut held = first.to_vec();
    let mut read: &[u8] = &held;
    assert_eq!(server.on_recv_encoder(&mut read), Ok(0));
    held = read.to_vec();
    held.extend_from_slice(second);
    let mut read: &[u8] = &held;
    assert_eq!(server.on_recv_encoder(&mut read), Ok(1));
    assert!(read.is_empty());
    match server.decode_header(StreamId(0), &encoded) {
        Ok(DecodeResult::Decoded(h)) => assert_eq!(h, header),
        _ => panic!("not decoded"),
    }
}

#[test]
fn static_fields_encode_to_known_bytes() {
    let header = request(vec![]);
    let mut conn = Connection::default();
    let (required, encoded) = conn.encode_header(StreamId(0), header).unwrap();
    assert_eq!(required, 0);
    // Prefix, then ":method: GET", ":scheme: https" and ":path: /" from the static table.
    assert_eq!(encoded.encoded.as_ref(), &[0x00, 0x00, 0xd1, 0xd7, 0xc1][..]);
}

#[test]
fn acknowledgment_has_known_bytes() {
    let mut server = Connection::default();
    let mut client = Connection::default();
    let (_, encoded) = client.encode_header(StreamId(1), request(vec![])).unwrap();
    server.decode_header(StreamId(1), &encoded).unwrap();
    assert_eq!(server.pending_decoder().unwrap().as_ref(), &[0x81][..]);
    assert!(server.pending_decoder().is_none());
}

#[test]
fn refused_header_changes_nothing() {
    let (mut client, _) = dynamic_pair();
    client.remote_settings = Some(Settings {
        max_header_list_size: 3,
        ..Settings::default()
    });
    let refused = request(vec![field("hello", "text/html")]);
    assert_eq!(
        client.encode_header(StreamId(0), refused),
        Err(Error::HeaderListTooLarge)
    );
    assert!(client.pending_encoder().is_none());
    assert!(client.encode_header(StreamId(0), request(vec![])).is_ok());
}

#[test]
fn settings_with_too_many_blocked_streams_are_refused() {
    let r = Connection::with_settings(Settings {
        qpack_blocked_streams: 65536,
        ..Settings::default()
    });
    assert_eq!(
        r.err(),
        Some(Error::Settings {
            reason: "dynamic table error: max blocked streams too large".to_string()
        })
    );
}

#[test]
fn settings_with_too_large_a_table_are_refused() {
    let r = Connection::with_settings(Settings {
        qpack_max_table_capacity: 1 << 30,
        ..Settings::default()
    });
    assert_eq!(
        r.err(),
        Some(Error::Settings {
            reason: "dynamic table error: maximum table size too large".to_string()
        })
    );
}

#[test]
fn remote_settings_that_the_table_refuses_have_no_effect_on_it() {
    let mut conn = Connection::default();
    let s = Settings {
        qpack_max_table_capacity: 1 << 40,
        qpack_blocked_streams: 1 << 40,
        ..Settings::default()
    };
    conn.set_remote_settings(s);
    assert_eq!(*conn.remote_settings(), Some(s));
    let (required, _) = conn
        .encode_header(StreamId(0), request(vec![field("hello", "text/html")]))
        .unwrap();
    assert_eq!(required, 0);
    assert!(conn.pending_encoder().is_none());
}

#[test]
fn bad_encoder_stream_is_an_error() {
    let mut conn = Connection::default();
    // A capacity above the maximum of zero.
    let bytes = [0x3fu8, 0x01];
    let mut read: &[u8] = &bytes;
    assert!(matches!(
        conn.on_recv_encoder(&mut read),
        Err(Error::DecodeError {
            reason: DecoderError::DynamicTable(_)
        })
    ));
    assert_eq!(read.len(), 2);
}

#[test]
fn unexpected_acknowledgment_is_an_error() {
    let mut conn = Connection::default();
    let bytes = [0x85u8];
    let mut read: &[u8] = &bytes;
    assert_eq!(
        conn.on_recv_decoder(&mut read),
        Err(Error::EncodeError {
            reason: EncoderError::UnknownStreamId(5)
        })
    );
}
