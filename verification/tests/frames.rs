use qpipe::error::ErrorKind;
use qpipe::frame::{
    copy_framing, copy_unframing, extension_tag, frame_chunk, read_frame, same_tag, unframe_step,
    Frame, HeaderHeader, Unframe, CHUNK_LEN, DATA_LIMIT, HEADER_LEN, MAX_BODY_LEN, TAG_CCRT,
    TAG_CKEY, TAG_CON1, TAG_DATA, TAG_ERRM, TAG_FINI, TAG_OKAY, TAG_PING, TAG_PONG, TAG_SCRT,
};
use qpipe::reader::ByteReader;

#[test]
fn test_header_header() {
    let mut buf = Vec::new();
    let start = HeaderHeader {
        four_cc: *b"abcd",
        data_len: 259,
    };
    start.write_all(&mut buf);
    let end = HeaderHeader::from(&mut ByteReader::new(buf.as_slice())).expect("test");

    assert_eq!(start, end);
}

#[test]
fn header_is_tag_then_length_low_byte_first() {
    let mut buf = vec![0xffu8];
    HeaderHeader { four_cc: *b"abcd", data_len: 259 }.write_all(&mut buf);
    assert_eq!(buf, vec![0xff, b'a', b'b', b'c', b'd', 3, 1]);

    let mut buf = Vec::new();
    HeaderHeader { four_cc: *b"data", data_len: 40960 }.write_all(&mut buf);
    assert_eq!(buf, vec![b'd', b'a', b't', b'a', 0x00, 0xa0]);

    let mut buf = Vec::new();
    HeaderHeader { four_cc: *b"data", data_len: 65535 }.write_all(&mut buf);
    assert_eq!(buf, vec![b'd', b'a', b't', b'a', 0xff, 0xff]);
}

#[test]
fn header_round_trip_at_the_edges() {
    for data_len in [0u16, 1, 255, 256, 257, 8192, 40960, 65534, 65535] {
        for four_cc in [*b"data", *b"fini", [0u8; 4], [0xffu8; 4]] {
            let start = HeaderHeader { four_cc, data_len };
            let mut buf = Vec::new();
            start.write_all(&mut buf);
            assert_eq!(buf.len(), HEADER_LEN);
            let mut reader = ByteReader::new(buf.as_slice());
            assert_eq!(HeaderHeader::from(&mut reader), Ok(start));
            assert_eq!(reader.remaining(), 0);
        }
    }
}

#[test]
fn header_reads_six_bytes_and_leaves_the_body() {
    let bytes = [b'p', b'i', b'n', b'g', 8, 0, 0x11, 0x22, 0x33];
    let mut reader = ByteReader::new(&bytes);
    let header = HeaderHeader::from(&mut reader).unwrap();
    assert_eq!(header, HeaderHeader { four_cc: *b"ping", data_len: 8 });
    assert_eq!(reader.remaining(), 3);
    assert_eq!(reader.read(10), &[0x11, 0x22, 0x33]);
}

#[test]
fn header_short_read_takes_nothing() {
    for len in 0..6usize {
        let bytes = vec![b'x'; len];
        let mut reader = ByteReader::new(bytes.as_slice());
        assert_eq!(HeaderHeader::from(&mut reader), Err(ErrorKind::ShortRead));
        assert_eq!(reader.remaining(), len);
    }
}

#[test]
fn typed_headers() {
    assert_eq!(HeaderHeader::empty(*b"okay"), HeaderHeader { four_cc: *b"okay", data_len: 0 });
    assert_eq!(HeaderHeader::finished(), HeaderHeader { four_cc: *b"fini", data_len: 0 });
    assert_eq!(HeaderHeader::ping(), HeaderHeader { four_cc: *b"ping", data_len: 8 });
    assert_eq!(HeaderHeader::pong(), HeaderHeader { four_cc: *b"pong", data_len: 8 });
    assert_eq!(HeaderHeader::error(0), HeaderHeader { four_cc: *b"errm", data_len: 5 });
    assert_eq!(HeaderHeader::error(2), HeaderHeader { four_cc: *b"errm", data_len: 7 });
    assert_eq!(HeaderHeader::error(255), HeaderHeader { four_cc: *b"errm", data_len: 260 });
    assert_eq!(HeaderHeader::data(0), HeaderHeader { four_cc: *b"data", data_len: 0 });
    assert_eq!(HeaderHeader::data(5), HeaderHeader { four_cc: *b"data", data_len: 5 });
    assert_eq!(
        HeaderHeader::data(MAX_BODY_LEN),
        HeaderHeader { four_cc: *b"data", data_len: 65535 }
    );
}

#[test]
fn tags_are_their_ascii_names() {
    assert_eq!(TAG_CON1, *b"con1");
    assert_eq!(TAG_OKAY, *b"okay");
    assert_eq!(TAG_ERRM, *b"errm");
    assert_eq!(TAG_DATA, *b"data");
    assert_eq!(TAG_FINI, *b"fini");
    assert_eq!(TAG_PING, *b"ping");
    assert_eq!(TAG_PONG, *b"pong");
    assert_eq!(TAG_SCRT, *b"scrt");
    assert_eq!(TAG_CCRT, *b"ccrt");
    assert_eq!(TAG_CKEY, *b"ckey");
    assert_eq!(CHUNK_LEN, 256);
    assert_eq!(DATA_LIMIT, 8192);
    assert!(same_tag(b"data", &TAG_DATA));
    assert!(!same_tag(b"dat0", &TAG_DATA));
    assert!(!same_tag(b"Data", &TAG_DATA));
    assert!(extension_tag(b"xtab"));
    assert!(extension_tag(b"xt\0\0"));
    assert!(!extension_tag(b"xsab"));
    assert!(!extension_tag(b"data"));
}

#[test]
fn reader_hands_out_bytes_in_order() {
    let bytes = [1u8, 2, 3, 4, 5];
    let mut reader = ByteReader::new(&bytes);
    assert_eq!(reader.remaining(), 5);
    assert_eq!(reader.read(2), &[1, 2]);
    assert_eq!(reader.read_exact(2), Ok(&[3u8, 4][..]));
    assert_eq!(reader.read_exact(2), Err(ErrorKind::ShortRead));
    assert_eq!(reader.remaining(), 1);
    assert_eq!(reader.read(0), &[0u8; 0]);
    assert_eq!(reader.read(7), &[5]);
    assert_eq!(reader.read(7), &[0u8; 0]);
    assert_eq!(reader.read_exact(0), Ok(&[0u8; 0][..]));
}

#[test]
fn read_frame_takes_header_and_body() {
    let bytes = [b'd', b'a', b't', b'a', 5, 0, b'h', b'e', b'l', b'l', b'o', b'f', b'i'];
    let mut reader = ByteReader::new(&bytes);
    let frame = read_frame(&mut reader).unwrap();
    assert_eq!(frame, Frame { four_cc: *b"data", body: b"hello".to_vec() });
    assert_eq!(reader.remaining(), 2);
    assert_eq!(read_frame(&mut reader), Err(ErrorKind::ShortRead));
    assert_eq!(reader.remaining(), 2);
}

#[test]
fn read_frame_short_body() {
    let bytes = [b'd', b'a', b't', b'a', 5, 0, b'h', b'e'];
    let mut reader = ByteReader::new(&bytes);
    assert_eq!(read_frame(&mut reader), Err(ErrorKind::ShortRead));
    assert_eq!(reader.remaining(), 8);
}

#[test]
fn read_frame_succeeds_once_the_bytes_are_there() {
    let whole = b"ping\x08\x0012345678con1";
    for cut in 0..14 {
        let mut reader = ByteReader::new(&whole[..cut]);
        assert_eq!(read_frame(&mut reader), Err(ErrorKind::ShortRead));
        assert_eq!(reader.remaining(), cut);
    }
    for cut in 14..whole.len() {
        let mut reader = ByteReader::new(&whole[..cut]);
        let frame = read_frame(&mut reader).unwrap();
        assert_eq!(frame, Frame { four_cc: *b"ping", body: b"12345678".to_vec() });
        assert_eq!(reader.remaining(), cut - 14);
    }
}

#[test]
fn frame_chunk_writes_data_or_fini() {
    let mut out = Vec::new();
    assert!(frame_chunk(b"hello", &mut out));
    assert_eq!(out, b"data\x05\x00hello".to_vec());
    assert!(!frame_chunk(b"", &mut out));
    assert_eq!(out, b"data\x05\x00hellofini\x00\x00".to_vec());
}

#[test]
fn copy_framing_of_nothing_is_fini() {
    let mut out = Vec::new();
    let mut reader = ByteReader::new(b"");
    copy_framing(&mut reader, &mut out);
    assert_eq!(out, b"fini\x00\x00".to_vec());
}

#[test]
fn copy_framing_cuts_chunks_of_256() {
    let plain: Vec<u8> = (0..600u32).map(|i| (i % 251) as u8).collect();
    let mut out = vec![0xeeu8];
    let mut reader = ByteReader::new(plain.as_slice());
    copy_framing(&mut reader, &mut out);
    assert_eq!(reader.remaining(), 0);

    let mut expected = vec![0xeeu8];
    expected.extend_from_slice(b"data\x00\x01");
    expected.extend_from_slice(&plain[..256]);
    expected.extend_from_slice(b"data\x00\x01");
    expected.extend_from_slice(&plain[256..512]);
    expected.extend_from_slice(b"data\x58\x00");
    expected.extend_from_slice(&plain[512..]);
    expected.extend_from_slice(b"fini\x00\x00");
    assert_eq!(out, expected);
}

#[test]
fn copy_framing_of_exactly_one_chunk() {
    let plain = vec![7u8; 256];
    let mut out = Vec::new();
    copy_framing(&mut ByteReader::new(plain.as_slice()), &mut out);
    let mut expected = b"data\x00\x01".to_vec();
    expected.extend_from_slice(&plain);
    expected.extend_from_slice(b"fini\x00\x00");
    assert_eq!(out, expected);
}

#[test]
fn unframe_step_by_tag() {
    let step = |four_cc: &[u8; 4], data_len: u16| {
        unframe_step(&HeaderHeader { four_cc: *four_cc, data_len })
    };
    assert_eq!(step(b"data", 5), Ok(Unframe::Deliver(5)));
    assert_eq!(step(b"data", 0), Ok(Unframe::Deliver(0)));
    assert_eq!(step(b"data", 8192), Ok(Unframe::Deliver(8192)));
    assert_eq!(step(b"data", 8193), Err(ErrorKind::OverlongData));
    assert_eq!(step(b"data", 40960), Err(ErrorKind::OverlongData));
    assert_eq!(step(b"fini", 0), Ok(Unframe::Finish));
    assert_eq!(step(b"fini", 9), Ok(Unframe::Finish));
    assert_eq!(step(b"xt01", 300), Ok(Unframe::Discard(300)));
    assert_eq!(step(b"okay", 0), Err(ErrorKind::UnexpectedFrame));
    assert_eq!(step(b"zzzz", 0), Err(ErrorKind::UnexpectedFrame));
}

#[test]
fn copy_unframing_delivers_until_fini() {
    let framed = b"data\x05\x00hellodata\x01\x00!fini\x00\x00rest";
    let mut reader = ByteReader::new(framed);
    let mut plain = b">".to_vec();
    assert_eq!(copy_unframing(&mut reader, &mut plain), Ok(()));
    assert_eq!(plain, b">hello!".to_vec());
    assert_eq!(reader.remaining(), 4);
}

#[test]
fn copy_unframing_overlong_data() {
    let framed = b"data\x00\xa0";
    let mut reader = ByteReader::new(framed);
    let mut plain = Vec::new();
    assert_eq!(copy_unframing(&mut reader, &mut plain), Err(ErrorKind::OverlongData));
    assert!(plain.is_empty());
    assert_eq!(reader.remaining(), 6);
}

#[test]
fn copy_unframing_takes_a_full_limit() {
    let mut framed = b"data\x00\x20".to_vec();
    framed.extend_from_slice(&vec![9u8; 8192]);
    framed.extend_from_slice(b"fini\x00\x00");
    let mut plain = Vec::new();
    assert_eq!(copy_unframing(&mut ByteReader::new(framed.as_slice()), &mut plain), Ok(()));
    assert_eq!(plain, vec![9u8; 8192]);

    let mut framed = b"data\x01\x20".to_vec();
    framed.extend_from_slice(&vec![9u8; 8193]);
    let mut plain = Vec::new();
    assert_eq!(
        copy_unframing(&mut ByteReader::new(framed.as_slice()), &mut plain),
        Err(ErrorKind::OverlongData)
    );
}

#[test]
fn copy_unframing_unexpected_frame_keeps_what_came_before() {
    let framed = b"data\x02\x00hiokay\x00\x00data\x01\x00x";
    let mut reader = ByteReader::new(framed);
    let mut plain = Vec::new();
    assert_eq!(copy_unframing(&mut reader, &mut plain), Err(ErrorKind::UnexpectedFrame));
    assert_eq!(plain, b"hi".to_vec());
    assert_eq!(reader.remaining(), 13);
}

#[test]
fn copy_unframing_short_reads() {
    let mut plain = Vec::new();
    assert_eq!(
        copy_unframing(&mut ByteReader::new(b""), &mut plain),
        Err(ErrorKind::ShortRead)
    );
    assert_eq!(
        copy_unframing(&mut ByteReader::new(b"data\x05\x00hel"), &mut plain),
        Err(ErrorKind::ShortRead)
    );
    let mut reader = ByteReader::new(b"data\x01\x00afin");
    assert_eq!(copy_unframing(&mut reader, &mut plain), Err(ErrorKind::ShortRead));
    assert_eq!(plain, b"a".to_vec());
    assert_eq!(reader.read(9), b"fin");
}

#[test]
fn copy_unframing_goes_on_when_more_bytes_have_come() {
    let whole = b"data\x05\x00helloxt..\x02\x00zzdata\x01\x00!fini\x00\x00after";
    for step in [1usize, 2, 3, 5, 6, 7, 11, 64] {
        let mut pending: Vec<u8> = Vec::new();
        let mut plain = Vec::new();
        let mut fed = 0;
        let outcome = loop {
            let outcome;
            let left;
            {
                let mut reader = ByteReader::new(pending.as_slice());
                outcome = copy_unframing(&mut reader, &mut plain);
                left = reader.remaining();
            }
            let taken = pending.len() - left;
            pending.drain(..taken);
            if outcome != Err(ErrorKind::ShortRead) || fed == whole.len() {
                break outcome;
            }
            let end = if fed + step < whole.len() { fed + step } else { whole.len() };
            pending.extend_from_slice(&whole[fed..end]);
            fed = end;
        };
        assert_eq!(outcome, Ok(()));
        assert_eq!(plain, b"hello!".to_vec());
        let mut unread = pending.clone();
        unread.extend_from_slice(&whole[fed..]);
        assert_eq!(unread, b"after".to_vec());
    }
}

#[test]
fn copy_unframing_empty_data_is_taken() {
    let framed = b"data\x00\x00data\x01\x00zfini\x00\x00";
    let mut plain = Vec::new();
    assert_eq!(copy_unframing(&mut ByteReader::new(framed), &mut plain), Ok(()));
    assert_eq!(plain, b"z".to_vec());
}

#[test]
fn copy_unframing_drops_extension_frames() {
    let framed = b"xtaa\x03\x00abcdata\x01\x00zxt\x00\x00\x00\x00fini\x00\x00";
    let mut plain = Vec::new();
    assert_eq!(copy_unframing(&mut ByteReader::new(framed), &mut plain), Ok(()));
    assert_eq!(plain, b"z".to_vec());

    let mut plain = Vec::new();
    assert_eq!(
        copy_unframing(&mut ByteReader::new(b"xtaa\x03\x00ab"), &mut plain),
        Err(ErrorKind::ShortRead)
    );
}

#[test]
fn tunnel_gives_back_what_went_in() {
    for len in [0usize, 1, 255, 256, 257, 512, 1000, 70000] {
        let plain: Vec<u8> = (0..len).map(|i| (i * 7 % 256) as u8).collect();
        let mut framed = Vec::new();
        copy_framing(&mut ByteReader::new(plain.as_slice()), &mut framed);
        framed.extend_from_slice(b"tail");
        let mut reader = ByteReader::new(framed.as_slice());
        let mut back = Vec::new();
        assert_eq!(copy_unframing(&mut reader, &mut back), Ok(()));
        assert_eq!(back, plain);
        assert_eq!(reader.read(10), b"tail");
    }
}

#[test]
fn tunnel_gives_back_uneven_chunks() {
    let chunks: [&[u8]; 5] = [b"a", b"bcd", &[5u8; 200], b"e", &[6u8; 256]];
    let mut framed = Vec::new();
    let mut plain = Vec::new();
    for chunk in chunks {
        assert!(frame_chunk(chunk, &mut framed));
        plain.extend_from_slice(chunk);
    }
    assert!(!frame_chunk(b"", &mut framed));
    let mut back = Vec::new();
    assert_eq!(copy_unframing(&mut ByteReader::new(framed.as_slice()), &mut back), Ok(()));
    assert_eq!(back, plain);
}
