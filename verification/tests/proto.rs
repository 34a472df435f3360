use bytes::{Bytes, BytesMut};

use quinn_h3::frame::FrameDecoder;
use quinn_h3::proto::frame::{DataFrame, FrameError, HeadersFrame, HttpFrame};
use quinn_h3::proto::headers::{Error, Header, Uri};
use quinn_h3::proto::settings::Settings;
use quinn_h3::proto::varint;
use quinn_h3::qpack::HeaderField;
use quinn_h3::streams::{self, NewUni, StreamType};
use quinn_h3::{error, StreamId};

fn field(name: &str, value: &str) -> HeaderField {
    HeaderField {
        name: name.as_bytes().to_vec(),
        value: value.as_bytes().to_vec(),
    }
}

#[test]
fn varints_have_known_bytes() {
    let known: [(u64, &[u8]); 4] = [
        (37, &[0x25]),
        (15293, &[0x7b, 0xbd]),
        (494878333, &[0x9d, 0x7f, 0x3e, 0x7d]),
        (
            151288809941952652,
            &[0xc2, 0x19, 0x7c, 0x5e, 0xff, 0x14, 0xe8, 0x8c],
        ),
    ];
    for (v, bytes) in known.iter() {
        let mut out = Vec::new();
        varint::encode(&mut out, *v);
        assert_eq!(&out[..], *bytes);
        assert_eq!(varint::decode(bytes), Some((*v, bytes.len())));
        assert_eq!(varint::decode(&bytes[..bytes.len() - 1]), None);
    }
}

#[test]
fn varint_limits_come_back() {
    for v in [
        0,
        63,
        64,
        16383,
        16384,
        (1 << 30) - 1,
        1 << 30,
        (1u64 << 62) - 1,
    ] {
        let mut out = Vec::new();
        varint::encode(&mut out, v);
        out.push(0xaa);
        assert_eq!(varint::decode(&out), Some((v, out.len() - 1)));
    }
}

#[test]
fn settings_come_back() {
    let s = Settings {
        max_header_list_size: 1 << 40,
        qpack_max_table_capacity: 4096,
        qpack_blocked_streams: 7,
    };
    let mut out = BytesMut::with_capacity(64);
    s.encode(&mut out);
    match HttpFrame::decode(&out) {
        Ok((Some(HttpFrame::Settings(r)), used)) => {
            assert_eq!(r, s);
            assert_eq!(used, out.len());
        }
        _ => panic!("no settings"),
    }
}

#[test]
fn unknown_settings_are_passed_over() {
    // An unknown identifier, then the number of blocked streams.
    let contents = [0x21, 0x05, 0x07, 0x09];
    let s = Settings::decode(&contents).unwrap();
    assert_eq!(s.qpack_blocked_streams, 9);
    assert_eq!(s.qpack_max_table_capacity, 0);
    assert_eq!(Settings::decode(&[0x07]), None);
}

#[test]
fn frames_have_known_bytes() {
    let mut out = BytesMut::with_capacity(64);
    DataFrame {
        payload: Bytes::from(&b"abc"[..]),
    }
    .encode(&mut out);
    HeadersFrame {
        encoded: Bytes::from(&b"xy"[..]),
    }
    .encode(&mut out);
    assert_eq!(&out[..], &b"\x00\x03abc\x01\x02xy"[..]);
}

#[test]
fn frames_come_back() {
    assert_eq!(
        HttpFrame::decode(b"\x00\x03abc\x01"),
        Ok((
            Some(HttpFrame::Data(DataFrame {
                payload: Bytes::from(&b"abc"[..])
            })),
            5
        ))
    );
    assert_eq!(
        HttpFrame::decode(b"\x01\x02xy"),
        Ok((
            Some(HttpFrame::Headers(HeadersFrame {
                encoded: Bytes::from(&b"xy"[..])
            })),
            4
        ))
    );
    assert_eq!(
        HttpFrame::decode(&[0x03, 0x01, 0x05]),
        Ok((Some(HttpFrame::CancelPush(5)), 3))
    );
    assert_eq!(
        HttpFrame::decode(&[0x07, 0x01, 0x06]),
        Ok((Some(HttpFrame::Goaway(6)), 3))
    );
    assert_eq!(
        HttpFrame::decode(&[0x0d, 0x02, 0x40, 0x64]),
        Ok((Some(HttpFrame::MaxPushId(100)), 4))
    );
    assert_eq!(HttpFrame::decode(&[0x21, 0x01, 0xff]), Ok((None, 3)));
}

#[test]
fn bad_frames_are_told_apart() {
    assert_eq!(HttpFrame::decode(&[]), Err(FrameError::Incomplete));
    assert_eq!(HttpFrame::decode(&[0x00]), Err(FrameError::Incomplete));
    assert_eq!(
        HttpFrame::decode(b"\x00\x03ab"),
        Err(FrameError::Incomplete)
    );
    assert_eq!(
        HttpFrame::decode(&[0x07, 0x02, 0x06, 0x00]),
        Err(FrameError::Malformed)
    );
    assert_eq!(
        HttpFrame::decode(&[0x04, 0x01, 0x07]),
        Err(FrameError::Malformed)
    );
    assert_eq!(
        error::frame_failure(FrameError::Malformed),
        (error::ErrorCode::FrameError, "malformed frame".to_string())
    );
    assert_eq!(
        error::frame_failure(FrameError::Incomplete),
        (error::ErrorCode::FrameError, "incomplete frame".to_string())
    );
}

#[test]
fn frames_are_split_whatever_the_pieces() {
    // An unknown frame, a headers frame, another unknown one and a data frame.
    let bytes = b"\x21\x01z\x01\x02xy\x22\x00\x00\x03abc";
    for size in 1..bytes.len() + 1 {
        let mut d = FrameDecoder::new();
        let mut frames = Vec::new();
        for piece in bytes.chunks(size) {
            d.push(piece);
            while let Some(f) = d.next().unwrap() {
                frames.push(f);
            }
        }
        assert!(d.is_empty());
        assert_eq!(
            frames,
            vec![
                HttpFrame::Headers(HeadersFrame {
                    encoded: Bytes::from(&b"xy"[..])
                }),
                HttpFrame::Data(DataFrame {
                    payload: Bytes::from(&b"abc"[..])
                }),
            ]
        );
    }
}

#[test]
fn malformed_frame_stays_an_error() {
    let mut d = FrameDecoder::new();
    d.push(&[0x21, 0x00, 0x07, 0x00]);
    assert_eq!(d.next(), Err(FrameError::Malformed));
    d.push(&[0x00, 0x00]);
    assert_eq!(d.next(), Err(FrameError::Malformed));
}

#[test]
fn announced_streams_are_resolved() {
    let id = StreamId(3);
    let known = [
        (StreamType::Control, NewUni::Control(id), 0u8),
        (StreamType::Encoder, NewUni::Encoder(id), 2),
        (StreamType::Decoder, NewUni::Decoder(id), 3),
    ];
    for (ty, uni, byte) in known.iter() {
        assert_eq!(ty.announce(), vec![*byte]);
        assert_eq!(streams::resolve(&ty.announce(), id), Some(Ok(*uni)));
    }
    assert_eq!(streams::resolve(&[0x01], id), Some(Ok(NewUni::Push(id))));
    assert_eq!(streams::resolve(&[], id), None);
    assert_eq!(streams::resolve(&[0x40], id), None);
    assert_eq!(
        streams::resolve(&[0x40, 0x54], id),
        Some(Err(error::Error::UnknownStream(0x54)))
    );
}

#[test]
fn request_has_its_fields_in_order() {
    let header = Header::request(
        b"POST".to_vec(),
        Uri {
            scheme: Some(b"http".to_vec()),
            authority: Some(b"example.org".to_vec()),
            path: b"/a?b".to_vec(),
        },
        vec![field("x", "1"), field("x", "2")],
    );
    assert_eq!(header.len(), 6);
    let fields = header.clone().into_fields();
    assert_eq!(
        fields,
        vec![
            field(":method", "POST"),
            field(":scheme", "http"),
            field(":authority", "example.org"),
            field(":path", "/a?b"),
            field("x", "1"),
            field("x", "2"),
        ]
    );
    assert_eq!(Header::try_from(fields), Ok(header));
}

#[test]
fn request_has_defaults() {
    let header = Header::request(b"GET".to_vec(), Uri::default(), vec![]);
    assert_eq!(
        header.into_fields(),
        vec![
            field(":method", "GET"),
            field(":scheme", "https"),
            field(":path", "/"),
        ]
    );
    let header = Header::request(
        b"GET".to_vec(),
        Uri {
            path: vec![],
            ..Uri::default()
        },
        vec![],
    );
    assert_eq!(header.path, Some(b"/".to_vec()));
}

#[test]
fn response_parts_need_a_status() {
    let header = Header::try_from(vec![field(":status", "404"), field("x", "1")]).unwrap();
    assert_eq!(
        header.into_response_parts(),
        Ok((404, vec![field("x", "1")]))
    );
    let header = Header::try_from(vec![field("x", "1")]).unwrap();
    assert_eq!(header.into_response_parts(), Err(Error::MissingStatus));
}

#[test]
fn bad_names_are_rejected() {
    assert_eq!(
        Header::try_from(vec![field("Upper", "1")]),
        Err(Error::InvalidHeaderName("[85, 112, 112, 101, 114]".to_string()))
    );
    assert_eq!(
        Header::try_from(vec![field("", "1")]),
        Err(Error::InvalidHeaderName("[]".to_string()))
    );
    assert_eq!(
        Header::try_from(vec![field(":x", "1")]),
        Err(Error::InvalidHeaderName("[58, 120]".to_string()))
    );
    assert!(Header::try_from(vec![HeaderField {
        name: vec![b'a'; 65536],
        value: vec![],
    }])
    .is_err());
    assert!(Header::try_from(vec![HeaderField {
        name: vec![b'a'; 65535],
        value: vec![],
    }])
    .is_ok());
}

#[test]
fn bad_values_are_rejected() {
    assert_eq!(
        Header::try_from(vec![field("x", "\n")]),
        Err(Error::InvalidHeaderValue("[120] [10]".to_string()))
    );
    assert_eq!(
        Header::try_from(vec![field(":path", "\u{7f}")]),
        Err(Error::InvalidHeaderValue(
            "[58, 112, 97, 116, 104] [127]".to_string()
        ))
    );
    assert_eq!(
        Header::try_from(vec![field(":status", "099")]),
        Err(Error::InvalidHeaderValue(
            "[58, 115, 116, 97, 116, 117, 115] [48, 57, 57]".to_string()
        ))
    );
    assert!(Header::try_from(vec![field("x", "\t \u{e9}")]).is_ok());
}

#[test]
fn bad_methods_are_rejected() {
    assert_eq!(
        Header::try_from(vec![field(":method", "")]),
        Err(Error::InvalidRequest("InvalidMethod".to_string()))
    );
    assert_eq!(
        Header::try_from(vec![field(":method", "GE T")]),
        Err(Error::InvalidRequest("InvalidMethod".to_string()))
    );
    let header = Header::try_from(vec![field(":method", "A-VERY-LONG-METHOD-NAME")]).unwrap();
    assert_eq!(header.method, Some(b"A-VERY-LONG-METHOD-NAME".to_vec()));
}

#[test]
fn accepted_bytes_are_those_of_the_http_crate() {
    for b in 0..=255u8 {
        let name = http::header::HeaderName::from_lowercase(&[b'a', b]).is_ok();
        let value = http::header::HeaderValue::from_bytes(&[b]).is_ok();
        let method = http::Method::from_bytes(&[b'A', b]).is_ok();
        let one = |name: Vec<u8>, value: Vec<u8>| {
            Header::try_from(vec![HeaderField { name, value }]).is_ok()
        };
        assert_eq!(one(vec![b'a', b], vec![]), name);
        assert_eq!(one(vec![b'a'], vec![b]), value);
        assert_eq!(one(b":method".to_vec(), vec![b'A', b]), method);
    }
}
