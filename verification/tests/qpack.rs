use quinn_h3::qpack::dynamic::DynamicTable;
use quinn_h3::qpack::{
    decoder, encoder, huffman, prefix_int, prefix_string, static_table, DecoderError,
    DynamicTableError, EncoderError, HeaderField,
};

use bytes::BytesMut;

fn field(name: &str, value: &str) -> HeaderField {
    HeaderField {
        name: name.as_bytes().to_vec(),
        value: value.as_bytes().to_vec(),
    }
}

fn table(capacity: usize, blocked: usize) -> DynamicTable {
    let mut t = DynamicTable::new();
    t.set_max_mem_size(capacity).unwrap();
    t.set_max_blocked(blocked).unwrap();
    t
}

#[test]
fn integers_have_known_bytes() {
    let mut out = Vec::new();
    prefix_int::encode(&mut out, 32, 0, 10);
    prefix_int::encode(&mut out, 32, 0, 1337);
    prefix_int::encode(&mut out, 256, 0, 42);
    assert_eq!(out, vec![10, 31, 154, 10, 42]);
    assert_eq!(prefix_int::decode(32, &out[1..]), Ok((1337, 3)));
    assert_eq!(
        prefix_int::decode(32, &out[1..3]),
        Err(DecoderError::UnexpectedEnd)
    );
    let huge = [0xff; 12];
    assert_eq!(
        prefix_int::decode(256, &huge),
        Err(DecoderError::InvalidInteger)
    );
}

#[test]
fn largest_integer_comes_back() {
    let mut out = Vec::new();
    prefix_int::encode(&mut out, 8, 0, u64::MAX);
    assert_eq!(prefix_int::decode(8, &out), Ok((u64::MAX, out.len())));
}

#[test]
fn huffman_codes_are_read() {
    assert_eq!(
        huffman::decode(&[0xf1, 0xe3, 0xc2, 0xe5, 0xf2, 0x3a, 0x6b, 0xa0, 0xab, 0x90, 0xf4, 0xff]),
        Some(b"www.example.com".to_vec())
    );
    assert_eq!(
        huffman::decode(&[0xa8, 0xeb, 0x10, 0x64, 0x9c, 0xbf]),
        Some(b"no-cache".to_vec())
    );
    assert_eq!(huffman::decode(&[0x64, 0x02]), Some(b"302".to_vec()));
    assert_eq!(
        huffman::decode(&[0xae, 0xc3, 0x77, 0x1a, 0x4b]),
        Some(b"private".to_vec())
    );
    assert_eq!(huffman::decode(&[]), Some(vec![]));
}

#[test]
fn bad_huffman_padding_is_rejected() {
    // A whole byte of padding.
    assert_eq!(huffman::decode(&[0x64, 0x02, 0xff]), None);
    // Padding with zeros.
    assert_eq!(huffman::decode(&[0x00]), None);
    // The end of string symbol itself.
    assert_eq!(huffman::decode(&[0xff, 0xff, 0xff, 0xff]), None);
}

#[test]
fn strings_come_back_plain_and_compressed() {
    let mut out = Vec::new();
    prefix_string::encode(&mut out, 128, 0, b"hello");
    assert_eq!(out, b"\x05hello".to_vec());
    assert_eq!(prefix_string::decode(128, &out), Ok((b"hello".to_vec(), 6)));
    assert_eq!(
        prefix_string::decode(128, &[0x82, 0x64, 0x02]),
        Ok((b"302".to_vec(), 3))
    );
    assert_eq!(
        prefix_string::decode(128, &[0x83, 0x64, 0x02]),
        Err(DecoderError::UnexpectedEnd)
    );
    assert_eq!(
        prefix_string::decode(128, &[0x81, 0x00]),
        Err(DecoderError::InvalidString)
    );
}

#[test]
fn static_table_has_known_entries() {
    assert_eq!(static_table::get(0), field(":authority", ""));
    assert_eq!(static_table::get(1), field(":path", "/"));
    assert_eq!(static_table::get(17), field(":method", "GET"));
    assert_eq!(static_table::get(25), field(":status", "200"));
    assert_eq!(
        static_table::get(98),
        field("x-frame-options", "sameorigin")
    );
    assert_eq!(static_table::find(&field(":method", "GET")), Some(17));
    assert_eq!(static_table::find(&field(":method", "BREW")), None);
    assert_eq!(static_table::find_name(b":method"), Some(15));
    assert_eq!(static_table::find_name(b"hello"), None);
}

#[test]
fn table_evicts_the_oldest() {
    // Each entry takes 32 bytes more than its name and value.
    let mut t = table(80, 0);
    t.put(field("aa", "11")).unwrap();
    t.put(field("bb", "22")).unwrap();
    assert_eq!(t.get(0), Some(field("aa", "11")));
    t.put(field("cc", "33")).unwrap();
    assert_eq!(t.total_inserted(), 3);
    assert_eq!(t.get(0), None);
    assert_eq!(t.get(1), Some(field("bb", "22")));
    assert_eq!(t.get(2), Some(field("cc", "33")));
    assert_eq!(t.find(&field("cc", "33")), Some(2));
    assert_eq!(t.find(&field("aa", "11")), None);
}

#[test]
fn table_refuses_what_does_not_fit() {
    let mut t = table(40, 0);
    assert_eq!(
        t.put(field("name", "value")),
        Err(DynamicTableError::MaxTableSizeReached)
    );
    assert_eq!(
        t.set_capacity(41),
        Err(DynamicTableError::MaximumTableSizeTooLarge)
    );
    assert_eq!(
        t.set_max_mem_size(1 << 30),
        Err(DynamicTableError::MaximumTableSizeTooLarge)
    );
    assert_eq!(
        t.set_max_blocked(65536),
        Err(DynamicTableError::MaxBlockedStreamsTooLarge)
    );
    assert_eq!(t.set_max_mem_size((1 << 30) - 1), Ok(()));
    assert_eq!(t.set_max_blocked(65535), Ok(()));
}

#[test]
fn instructions_have_known_bytes() {
    let mut e = table(2048, 10);
    let mut block = BytesMut::with_capacity(64);
    let mut stream = BytesMut::with_capacity(64);
    let required = encoder::encode(
        &mut e,
        4,
        &mut block,
        &mut stream,
        &[field("hello", "x"), field(":path", "/a")],
    );
    assert_eq!(required, 2);
    // An insertion with a literal name, then one with a name of the static table.
    assert_eq!(&stream[..], &b"\x45hello\x01x\xc1\x02/a"[..]);
    // The required count 2 as 3, the base 0 as one below, and two references past the base.
    assert_eq!(&block[..], &[0x03, 0x81, 0x10, 0x11][..]);
}

#[test]
fn literal_lines_have_known_bytes() {
    let mut e = DynamicTable::new();
    let mut block = BytesMut::with_capacity(64);
    let mut stream = BytesMut::with_capacity(64);
    let fields = [field("hello", "x"), field(":path", "/a")];
    assert_eq!(
        encoder::encode(&mut e, 4, &mut block, &mut stream, &fields),
        0
    );
    assert!(stream.is_empty());
    assert_eq!(&block[..], &b"\x00\x00\x25hello\x01x\x51\x02/a"[..]);
    let d = DynamicTable::new();
    assert_eq!(decoder::decode_header(&d, &block), Ok(fields.to_vec()));
}

#[test]
fn decoder_follows_the_encoder() {
    let mut e = table(100, 1);
    let mut d = table(100, 1);
    for turn in 0..20u64 {
        let fields = [
            field("name", &turn.to_string()),
            field("steady", "value"),
            field(":status", "200"),
        ];
        let mut block = BytesMut::with_capacity(64);
        let mut stream = BytesMut::with_capacity(64);
        encoder::encode(&mut e, turn, &mut block, &mut stream, &fields);
        let mut reports = BytesMut::with_capacity(64);
        let mut read: &[u8] = &stream;
        let inserted = decoder::on_encoder_recv(&mut d, &mut read, &mut reports).unwrap();
        assert!(read.is_empty());
        assert_eq!(inserted, e.total_inserted());
        assert_eq!(decoder::decode_header(&d, &block), Ok(fields.to_vec()));
        decoder::ack_header(turn, &mut reports);
        let mut read: &[u8] = &reports;
        assert_eq!(encoder::on_decoder_recv(&mut e, &mut read), Ok(()));
        assert!(read.is_empty());
    }
    assert!(e.total_inserted() > 2);
}

#[test]
fn no_block_waits_beyond_the_limit() {
    let mut e = table(2048, 1);
    let mut block = BytesMut::with_capacity(64);
    let mut stream = BytesMut::with_capacity(64);
    let first = encoder::encode(&mut e, 0, &mut block, &mut stream, &[field("a", "1")]);
    assert_eq!(first, 1);
    assert!(!e.may_block());
    let second = encoder::encode(&mut e, 4, &mut block, &mut stream, &[field("b", "2")]);
    assert_eq!(second, 0);
}

#[test]
fn referenced_entries_are_kept() {
    // Room for two entries; both are referred to by a block that is not acknowledged.
    let mut e = table(70, 5);
    let mut block = BytesMut::with_capacity(64);
    let mut stream = BytesMut::with_capacity(64);
    let fields = [field("a", "1"), field("b", "2")];
    assert_eq!(
        encoder::encode(&mut e, 0, &mut block, &mut stream, &fields),
        2
    );
    assert_eq!(
        encoder::encode(&mut e, 4, &mut block, &mut stream, &[field("c", "3")]),
        0
    );
    assert_eq!(e.get(0), Some(field("a", "1")));
    // After the acknowledgment the oldest entry may go.
    let mut read: &[u8] = &[0x80];
    assert_eq!(encoder::on_decoder_recv(&mut e, &mut read), Ok(()));
    assert_eq!(
        encoder::encode(&mut e, 8, &mut block, &mut stream, &[field("c", "3")]),
        3
    );
    assert_eq!(e.get(0), None);
}

#[test]
fn reports_are_checked() {
    let mut e = table(70, 5);
    let mut read: &[u8] = &[0x01];
    assert_eq!(
        encoder::on_decoder_recv(&mut e, &mut read),
        Err(EncoderError::InvalidIncrement(1))
    );
    let mut read: &[u8] = &[0x87];
    assert_eq!(
        encoder::on_decoder_recv(&mut e, &mut read),
        Err(EncoderError::UnknownStreamId(7))
    );
    // An unfinished integer waits for more.
    let mut read: &[u8] = &[0x3f, 0x80];
    assert_eq!(encoder::on_decoder_recv(&mut e, &mut read), Ok(()));
    assert_eq!(read.len(), 2);
    let bytes = [0xffu8; 14];
    let mut read: &[u8] = &bytes;
    assert_eq!(
        encoder::on_decoder_recv(&mut e, &mut read),
        Err(EncoderError::InvalidInteger)
    );
}

#[test]
fn cancelled_streams_are_forgotten() {
    let mut e = table(70, 5);
    let mut block = BytesMut::with_capacity(64);
    let mut stream = BytesMut::with_capacity(64);
    encoder::encode(&mut e, 3, &mut block, &mut stream, &[field("a", "1")]);
    let mut read: &[u8] = &[0x43, 0x83];
    assert_eq!(
        encoder::on_decoder_recv(&mut e, &mut read),
        Err(EncoderError::UnknownStreamId(3))
    );
}

#[test]
fn bad_blocks_are_rejected() {
    let d = table(2048, 5);
    assert_eq!(
        decoder::decode_header(&d, &[]),
        Err(DecoderError::UnexpectedEnd)
    );
    // An index past the static table.
    assert_eq!(
        decoder::decode_header(&d, &[0x00, 0x00, 0xff, 0x24]),
        Err(DecoderError::InvalidStaticIndex(99))
    );
    // A reference to an entry that was never there.
    assert_eq!(
        decoder::decode_header(&d, &[0x00, 0x00, 0x10]),
        Err(DecoderError::InvalidIndex(0))
    );
    // A required count that the table cannot reach.
    assert_eq!(
        decoder::decode_header(&d, &[0xff, 0xff, 0xff, 0xff, 0x7f, 0x00]),
        Err(DecoderError::BadBaseIndex)
    );
    // An insertion that has not arrived.
    assert_eq!(
        decoder::decode_header(&d, &[0x02, 0x80, 0x10]),
        Err(DecoderError::MissingRefs(1))
    );
}

#[test]
fn instructions_are_taken_when_complete() {
    let mut d = table(2048, 5);
    let mut reports = BytesMut::with_capacity(64);
    let all = b"\x45hello\x01x\xc1\x02/a";
    let mut held: Vec<u8> = Vec::new();
    for b in all.iter() {
        held.push(*b);
        let mut read: &[u8] = &held;
        decoder::on_encoder_recv(&mut d, &mut read, &mut reports).unwrap();
        held = read.to_vec();
    }
    assert!(held.is_empty());
    assert_eq!(d.get(0), Some(field("hello", "x")));
    assert_eq!(d.get(1), Some(field(":path", "/a")));
    assert_eq!(&reports[..], &[0x01, 0x01][..]);
}

#[test]
fn duplicates_and_capacities_are_followed() {
    let mut d = table(2048, 5);
    let mut reports = BytesMut::with_capacity(64);
    // An insertion, its duplicate, and an insertion with a name of the dynamic table.
    let mut read: &[u8] = b"\x41a\x011\x00\x80\x012";
    assert_eq!(
        decoder::on_encoder_recv(&mut d, &mut read, &mut reports),
        Ok(3)
    );
    assert_eq!(d.get(1), Some(field("a", "1")));
    assert_eq!(d.get(2), Some(field("a", "2")));
    // Capacity zero empties the table.
    let mut read: &[u8] = &[0x20];
    assert_eq!(
        decoder::on_encoder_recv(&mut d, &mut read, &mut reports),
        Ok(3)
    );
    assert_eq!(d.get(2), None);
    assert_eq!(&reports[..], &[0x03][..]);
}
