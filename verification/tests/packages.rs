use qpipe::error::ErrorKind;
use qpipe::package::{
    read_package, read_records, write_der, write_package, write_records, ClientCerts,
};

fn sample(client_key: Option<Vec<u8>>) -> ClientCerts {
    ClientCerts { server_cert: vec![1, 2, 3], client_cert: vec![4, 5], client_key }
}

#[test]
fn write_package_known_text() {
    assert_eq!(
        write_package(&sample(None)),
        Ok("qpipe1:c2NydAMAAQIDY2NydAIABAVmaW5pAAA=".to_string())
    );
    assert_eq!(
        write_package(&sample(Some(vec![6]))),
        Ok("qpipe1:c2NydAMAAQIDY2NydAIABAVja2V5AQAGZmluaQAA".to_string())
    );
}

#[test]
fn read_package_known_text() {
    assert_eq!(read_package("qpipe1:c2NydAMAAQIDY2NydAIABAVmaW5pAAA="), Ok(sample(None)));
    assert_eq!(
        read_package("qpipe1:c2NydAMAAQIDY2NydAIABAVja2V5AQAGZmluaQAA"),
        Ok(sample(Some(vec![6])))
    );
}

#[test]
fn package_round_trip() {
    let blobs: [Vec<u8>; 4] = [
        Vec::new(),
        vec![0x30, 0x82, 0x01, 0x0a],
        (0..1000u32).map(|i| (i % 256) as u8).collect(),
        vec![0xabu8; 65535],
    ];
    for server_cert in &blobs {
        for client_cert in &blobs {
            for client_key in [None, Some(blobs[0].clone()), Some(blobs[3].clone())] {
                let certs = ClientCerts {
                    server_cert: server_cert.clone(),
                    client_cert: client_cert.clone(),
                    client_key,
                };
                let text = write_package(&certs).unwrap();
                assert!(text.starts_with("qpipe1:"));
                assert!(text.is_ascii());
                assert_eq!(read_package(text.as_str()), Ok(certs));
            }
        }
    }
}

#[test]
fn package_bad_magic() {
    assert_eq!(read_package("qpipe0:AAAA"), Err(ErrorKind::BadMagic));
    assert_eq!(read_package(""), Err(ErrorKind::BadMagic));
    assert_eq!(read_package("qpipe1"), Err(ErrorKind::BadMagic));
    assert_eq!(read_package("Qpipe1:AAAA"), Err(ErrorKind::BadMagic));
    assert_eq!(read_package(" qpipe1:AAAA"), Err(ErrorKind::BadMagic));
    assert_eq!(read_package("qpip\u{e9}1:AAAA"), Err(ErrorKind::BadMagic));
    assert_eq!(read_package("c2NydAMAAQIDY2NydAIABAVmaW5pAAA="), Err(ErrorKind::BadMagic));
}

#[test]
fn package_bad_base64() {
    assert_eq!(read_package("qpipe1:!!!"), Err(ErrorKind::BadBase64));
    assert_eq!(read_package("qpipe1:c2NydAMAAQIDY2NydAIABAVmaW5pAAA"), Err(ErrorKind::BadBase64));
    assert_eq!(
        read_package("qpipe1:c2NydAMAAQIDY2NydAIABAVmaW5pAAA=\n"),
        Err(ErrorKind::BadBase64)
    );
    assert_eq!(read_package("qpipe1:c2Ny_AMA"), Err(ErrorKind::BadBase64));
    assert_eq!(read_package("qpipe1:\u{e9}\u{e9}"), Err(ErrorKind::BadBase64));
}

#[test]
fn package_without_records_is_short() {
    assert_eq!(read_package("qpipe1:"), Err(ErrorKind::ShortRead));
    assert_eq!(read_package("qpipe1:c2NydAMAAQIDY2NydAIABAU="), Err(ErrorKind::ShortRead));
    assert_eq!(read_package("qpipe1:c2NydAMAAQI="), Err(ErrorKind::ShortRead));
}

#[test]
fn package_missing_field() {
    assert_eq!(read_package("qpipe1:c2NydAMAAQIDZmluaQAA"), Err(ErrorKind::MissingField));
    assert_eq!(read_records(b"fini\x00\x00"), Err(ErrorKind::MissingField));
    assert_eq!(read_records(b"ccrt\x01\x00\x09fini\x00\x00"), Err(ErrorKind::MissingField));
    assert_eq!(
        read_records(b"ckey\x01\x00\x09ccrt\x01\x00\x09fini\x00\x00"),
        Err(ErrorKind::MissingField)
    );
}

#[test]
fn package_unexpected_frame() {
    assert_eq!(
        read_package("qpipe1:c2NydAMAAQIDY2NydAIABAV6enp6AABmaW5pAAA="),
        Err(ErrorKind::UnexpectedFrame)
    );
    assert_eq!(read_records(b"data\x00\x00fini\x00\x00"), Err(ErrorKind::UnexpectedFrame));
}

#[test]
fn package_does_not_look_at_what_follows_fini() {
    assert_eq!(read_package("qpipe1:c2NydAMAAQIDY2NydAIABAVmaW5pAABqdW5r"), Ok(sample(None)));
    assert_eq!(
        read_records(b"scrt\x03\x00\x01\x02\x03ccrt\x02\x00\x04\x05fini\x00\x00zzzz\x00\x00"),
        Ok(sample(None))
    );
}

#[test]
fn package_refuses_extension_frames() {
    assert_eq!(
        read_package("qpipe1:c2NydAMAAQIDeHRyYQQACQkJCWNjcnQCAAQFZmluaQAAanVuaw=="),
        Err(ErrorKind::UnexpectedFrame)
    );
    assert_eq!(read_package("qpipe1:c2NydAMAAQIDY2NydAIABAV4dDAwAABmaW5pAAA="), Err(ErrorKind::UnexpectedFrame));
    assert_eq!(
        read_records(b"xt00\x00\x00scrt\x01\x00\x01ccrt\x01\x00\x02fini\x00\x00"),
        Err(ErrorKind::UnexpectedFrame)
    );
}

#[test]
fn package_later_record_replaces_earlier() {
    assert_eq!(
        read_package("qpipe1:c2NydAEAAXNjcnQCAAcHY2NydAIABAVmaW5pAAA="),
        Ok(ClientCerts { server_cert: vec![7, 7], client_cert: vec![4, 5], client_key: None })
    );
}

#[test]
fn package_records_in_any_order() {
    assert_eq!(
        read_records(b"ckey\x01\x00\x06ccrt\x02\x00\x04\x05scrt\x03\x00\x01\x02\x03fini\x00\x00"),
        Ok(sample(Some(vec![6])))
    );
}

#[test]
fn write_package_refuses_a_blob_too_long() {
    let long = vec![0u8; 65536];
    let certs = ClientCerts { server_cert: long.clone(), client_cert: vec![1], client_key: None };
    assert_eq!(write_package(&certs), Err(ErrorKind::Malformed));
    let certs = ClientCerts { server_cert: vec![1], client_cert: long.clone(), client_key: None };
    assert_eq!(write_package(&certs), Err(ErrorKind::Malformed));
    let certs = ClientCerts { server_cert: vec![1], client_cert: vec![1], client_key: Some(long) };
    assert_eq!(write_package(&certs), Err(ErrorKind::Malformed));
}

#[test]
fn write_der_is_one_frame() {
    let mut out = vec![0u8];
    assert_eq!(write_der(&mut out, *b"scrt", &[9, 8, 7]), Ok(()));
    assert_eq!(out, b"\x00scrt\x03\x00\x09\x08\x07".to_vec());
    assert_eq!(write_der(&mut out, *b"scrt", &vec![0u8; 65536]), Err(ErrorKind::Malformed));
    assert_eq!(out.len(), 10);
    assert_eq!(write_der(&mut out, *b"ckey", &vec![1u8; 65535]), Ok(()));
    assert_eq!(&out[10..16], b"ckey\xff\xff");
    assert_eq!(out.len(), 10 + 6 + 65535);
}

#[test]
fn write_records_known_bytes() {
    assert_eq!(
        write_records(&sample(None)),
        Ok(b"scrt\x03\x00\x01\x02\x03ccrt\x02\x00\x04\x05fini\x00\x00".to_vec())
    );
    assert_eq!(
        write_records(&sample(Some(Vec::new()))),
        Ok(b"scrt\x03\x00\x01\x02\x03ccrt\x02\x00\x04\x05ckey\x00\x00fini\x00\x00".to_vec())
    );
    let records = write_records(&sample(Some(vec![6]))).unwrap();
    assert_eq!(read_records(records.as_slice()), Ok(sample(Some(vec![6]))));
}
