use qpipe::certs::{generate_client_certs, generate_server_certs, mint_client, parse_client, Csr};
use qpipe::error::ErrorKind;
use ring::rand::SystemRandom;
use ring::signature::{EcdsaKeyPair, ECDSA_P256_SHA256_ASN1_SIGNING};

/// Splits one DER element off the front: the whole element, its content,
/// and what follows it.
fn element(bytes: &[u8]) -> (&[u8], &[u8], &[u8]) {
    let first = bytes[1] as usize;
    let (header, len) = if first < 0x80 {
        (2, first)
    } else {
        let count = first & 0x7f;
        let mut len = 0usize;
        for i in 0..count {
            len = len * 256 + bytes[2 + i] as usize;
        }
        (2 + count, len)
    };
    (&bytes[..header + len], &bytes[header..header + len], &bytes[header + len..])
}

/// One DER element with this tag and content.
fn wrap(tag: u8, content: &[u8]) -> Vec<u8> {
    let mut out = vec![tag];
    let len = content.len();
    if len < 0x80 {
        out.push(len as u8);
    } else if len < 0x100 {
        out.push(0x81);
        out.push(len as u8);
    } else {
        out.push(0x82);
        out.push((len >> 8) as u8);
        out.push(len as u8);
    }
    out.extend_from_slice(content);
    out
}

/// Where `needle` stands last in `bytes`.
fn last_position(bytes: &[u8], needle: &[u8]) -> usize {
    (0..=bytes.len() - needle.len()).rev().find(|&at| &bytes[at..at + needle.len()] == needle).unwrap()
}

/// Where `needle` stands first in `bytes`.
fn first_position(bytes: &[u8], needle: &[u8]) -> usize {
    (0..=bytes.len() - needle.len()).find(|&at| &bytes[at..at + needle.len()] == needle).unwrap()
}

/// A request like `csr` with `change` made to what is signed, signed anew
/// with `key`.
fn resigned(csr: &[u8], key: &[u8], change: impl Fn(&mut Vec<u8>)) -> Vec<u8> {
    let (_, content, rest) = element(csr);
    assert!(rest.is_empty());
    let (info, _, after_info) = element(content);
    let (algorithm, _, _) = element(after_info);

    let mut info = info.to_vec();
    change(&mut info);
    let pair = EcdsaKeyPair::from_pkcs8(&ECDSA_P256_SHA256_ASN1_SIGNING, key).unwrap();
    let signature = pair.sign(&SystemRandom::new(), &info).unwrap();
    let mut bits = vec![0u8];
    bits.extend_from_slice(signature.as_ref());

    let mut body = info;
    body.extend_from_slice(algorithm);
    body.extend_from_slice(&wrap(0x03, &bits));
    wrap(0x30, &body)
}

#[test]
fn request_signed_anew_is_taken() {
    let (csr, key) = generate_client_certs().unwrap();
    let again = resigned(&csr.0, &key, |_| {});
    assert_eq!(parse_client(&again), Ok(Csr(again.clone())));

    let (_cert, ca_key) = generate_server_certs(&["localhost"]).unwrap();
    assert!(mint_client(&ca_key, &Csr(again)).is_ok());
}

#[test]
fn request_signed_with_another_key_is_refused() {
    let (csr, _key) = generate_client_certs().unwrap();
    let (_other, other_key) = generate_client_certs().unwrap();
    let forged = resigned(&csr.0, &other_key, |_| {});
    assert_eq!(parse_client(&forged), Err(ErrorKind::BadCsr));
}

#[test]
fn request_with_a_name_that_is_not_ascii_is_refused() {
    let (csr, key) = generate_client_certs().unwrap();
    let hostile = resigned(&csr.0, &key, |info| {
        let at = last_position(info, b"client");
        info[at + 2] = 0xc3;
        info[at + 3] = 0xa9;
    });
    assert_ne!(hostile.len(), 0);
    assert!(rcgen::CertificateSigningRequest::from_der(&hostile).is_ok());
    assert_eq!(parse_client(&hostile), Err(ErrorKind::BadCsr));

    let (_cert, ca_key) = generate_server_certs(&["localhost"]).unwrap();
    assert_eq!(mint_client(&ca_key, &Csr(hostile)), Err(ErrorKind::BadCsr));
}

#[test]
fn request_with_a_printable_string_that_is_none_is_refused() {
    let (csr, key) = generate_client_certs().unwrap();
    let hostile = resigned(&csr.0, &key, |info| {
        let at = first_position(info, b"\x0c\x06client");
        info[at] = 0x13;
        info[at + 4] = b'*';
    });
    assert!(rcgen::CertificateSigningRequest::from_der(&hostile).is_ok());
    assert_eq!(parse_client(&hostile), Err(ErrorKind::BadCsr));

    let (_cert, ca_key) = generate_server_certs(&["localhost"]).unwrap();
    assert_eq!(mint_client(&ca_key, &Csr(hostile)), Err(ErrorKind::BadCsr));
}

#[test]
fn request_with_a_printable_string_is_taken() {
    let (csr, key) = generate_client_certs().unwrap();
    let marked = resigned(&csr.0, &key, |info| {
        let at = first_position(info, b"\x0c\x06client");
        info[at] = 0x13;
    });
    assert_eq!(parse_client(&marked), Ok(Csr(marked.clone())));

    let (_cert, ca_key) = generate_server_certs(&["localhost"]).unwrap();
    assert!(mint_client(&ca_key, &Csr(marked)).is_ok());
}

/// A request like `csr` whose subject is one attribute of this type with
/// the value `client`, signed anew with `key`.
fn with_subject_type(csr: &[u8], key: &[u8], oid: &[u8]) -> Vec<u8> {
    let (_, content, _) = element(csr);
    let (_, info, after_info) = element(content);
    let (algorithm, _, _) = element(after_info);
    let (version, _, after_version) = element(info);
    let (_, _, after_name) = element(after_version);

    let mut attribute = wrap(0x06, oid);
    attribute.extend_from_slice(&wrap(0x0c, b"client"));
    let name = wrap(0x30, &wrap(0x31, &wrap(0x30, &attribute)));
    let mut info = version.to_vec();
    info.extend_from_slice(&name);
    info.extend_from_slice(after_name);
    let info = wrap(0x30, &info);

    let pair = EcdsaKeyPair::from_pkcs8(&ECDSA_P256_SHA256_ASN1_SIGNING, key).unwrap();
    let signature = pair.sign(&SystemRandom::new(), &info).unwrap();
    let mut bits = vec![0u8];
    bits.extend_from_slice(signature.as_ref());

    let mut body = info;
    body.extend_from_slice(algorithm);
    body.extend_from_slice(&wrap(0x03, &bits));
    wrap(0x30, &body)
}

#[test]
fn request_with_another_subject_type_is_taken() {
    let (csr, key) = generate_client_certs().unwrap();
    let same = with_subject_type(&csr.0, &key, &[0x55, 0x04, 0x03]);
    assert_eq!(parse_client(&same), Ok(Csr(same.clone())));
    let custom = with_subject_type(&csr.0, &key, &[0x55, 0x04, 0x29]);
    assert_eq!(parse_client(&custom), Ok(Csr(custom.clone())));

    let (_cert, ca_key) = generate_server_certs(&["localhost"]).unwrap();
    assert!(mint_client(&ca_key, &Csr(custom)).is_ok());
}

#[test]
fn request_with_a_subject_type_that_is_no_object_identifier_is_refused() {
    let (csr, key) = generate_client_certs().unwrap();
    let hostile = with_subject_type(&csr.0, &key, &[]);
    assert_eq!(parse_client(&hostile), Err(ErrorKind::BadCsr));

    let (_cert, ca_key) = generate_server_certs(&["localhost"]).unwrap();
    assert_eq!(mint_client(&ca_key, &Csr(hostile.clone())), Err(ErrorKind::BadCsr));
    assert!(rcgen::CertificateSigningRequest::from_der(&hostile).is_ok());
}
