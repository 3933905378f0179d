use vstd::prelude::*;
use base64::Engine;
use crate::error::ErrorKind;
use crate::frame::{
    frame_body, frame_bytes, frame_complete, frame_rest, header_tag, lemma_frame_round_trip,
    read_frame, same_tag, FourCc, HeaderHeader, MAX_BODY_LEN, TAG_CCRT, TAG_CKEY, TAG_FINI,
    TAG_SCRT,
};
use crate::reader::ByteReader;

verus! {

/// The base64 text of `data`: what `encode` of the base64 crate's standard
/// engine gives for it.
pub uninterp spec fn base64_text(data: Seq<u8>) -> Seq<char>;

/// The bytes that `text` stands for in base64, if it is base64: what `decode`
/// of the base64 crate's standard engine gives for it.
pub uninterp spec fn base64_data(text: Seq<char>) -> Option<Seq<u8>>;

/// The error of the base64 crate's `decode`.
#[verifier::external_type_specification]
#[verifier::external_body]
pub struct ExDecodeError(base64::DecodeError);

/// `encode` of the base64 crate's standard engine (RFC 4648 alphabet, with
/// padding). The contract names the text and claims that the same engine
/// decodes it to `data` again. `encode` stops the program on an input so
/// long that the text's length does not fit in `usize`; the bound keeps
/// clear of that.
#[verifier::external_body]
fn base64_encode(data: &[u8]) -> (text: String)
    requires
        data@.len() <= usize::MAX / 2,
    ensures
        text@ == base64_text(data@),
        base64_data(text@) == Some(data@),
{
    base64::engine::general_purpose::STANDARD.encode(data)
}

/// `decode` of the base64 crate's standard engine. The contract names the
/// bytes and says that an error means that `text` is no base64.
#[verifier::external_body]
fn base64_decode(text: &str) -> (r: Result<Vec<u8>, base64::DecodeError>)
    ensures
        match r {
            Ok(data) => base64_data(text@) == Some(data@),
            Err(_) => base64_data(text@) is None,
        },
{
    base64::engine::general_purpose::STANDARD.decode(text)
}

/// What a client needs to reach a server: the server's certificate, the
/// client's own certificate signed by the server, and the client's private
/// key where the package carries it. Each is DER.
#[derive(Clone, Debug, PartialEq, Eq)]
pub struct ClientCerts {
    pub server_cert: Vec<u8>,
    pub client_cert: Vec<u8>,
    pub client_key: Option<Vec<u8>>,
}

/// The contents of a package.
pub ghost struct Package {
    /// The server's certificate.
    pub server_cert: Seq<u8>,
    /// The client's certificate.
    pub client_cert: Seq<u8>,
    /// The client's private key, where the package carries it.
    pub client_key: Option<Seq<u8>>,
}

/// The bytes of a blob that may be absent.
pub open spec fn blob_view(blob: Option<Vec<u8>>) -> Option<Seq<u8>> {
    match blob {
        Some(bytes) => Some(bytes@),
        None => None,
    }
}

impl ClientCerts {
    /// What the package holds, as bytes.
    pub open spec fn view(&self) -> Package {
        Package {
            server_cert: self.server_cert@,
            client_cert: self.client_cert@,
            client_key: blob_view(self.client_key),
        }
    }
}

/// The prefix of a package's text: `qpipe1:`.
pub open spec fn package_magic() -> Seq<char> {
    seq!['q', 'p', 'i', 'p', 'e', '1', ':']
}

/// Whether each blob of a package fits in one frame.
pub open spec fn package_fits(package: Package) -> bool {
    &&& package.server_cert.len() <= MAX_BODY_LEN
    &&& package.client_cert.len() <= MAX_BODY_LEN
    &&& (package.client_key matches Some(key) ==> key.len() <= MAX_BODY_LEN)
}

/// The record for the private key: a `ckey` frame, or nothing without a key.
pub open spec fn key_record(client_key: Option<Seq<u8>>) -> Seq<u8> {
    match client_key {
        Some(key) => frame_bytes(TAG_CKEY@, key),
        None => Seq::<u8>::empty(),
    }
}

/// The records of a package: `scrt`, `ccrt`, `ckey` if there is a key, `fini`.
pub open spec fn package_records(package: Package) -> Seq<u8> {
    frame_bytes(TAG_SCRT@, package.server_cert) + frame_bytes(TAG_CCRT@, package.client_cert)
        + key_record(package.client_key) + frame_bytes(TAG_FINI@, Seq::<u8>::empty())
}

/// The text of a package: the prefix, then the records in base64.
pub open spec fn package_text(package: Package) -> Seq<char> {
    package_magic() + base64_text(package_records(package))
}

/// What has been found while reading a package's records.
pub ghost struct Slots {
    /// The body of the last `scrt` record.
    pub server_cert: Option<Seq<u8>>,
    /// The body of the last `ccrt` record.
    pub client_cert: Option<Seq<u8>>,
    /// The body of the last `ckey` record.
    pub client_key: Option<Seq<u8>>,
}

/// Reads records from `bytes` into `slots` until `fini`. A record fills the
/// slot of its tag, a later one replacing an earlier one. It is `ShortRead`
/// where the bytes end before `fini` or inside a record, and
/// `UnexpectedFrame` at any tag but `scrt`, `ccrt`, `ckey` and `fini`. What
/// follows `fini` is not looked at.
pub open spec fn records_read(bytes: Seq<u8>, slots: Slots) -> Result<Slots, ErrorKind>
    decreases bytes.len(),
{
    if !frame_complete(bytes) {
        Err(ErrorKind::ShortRead)
    } else if header_tag(bytes) == TAG_SCRT@ {
        records_read(frame_rest(bytes), Slots { server_cert: Some(frame_body(bytes)), ..slots })
    } else if header_tag(bytes) == TAG_CCRT@ {
        records_read(frame_rest(bytes), Slots { client_cert: Some(frame_body(bytes)), ..slots })
    } else if header_tag(bytes) == TAG_CKEY@ {
        records_read(frame_rest(bytes), Slots { client_key: Some(frame_body(bytes)), ..slots })
    } else if header_tag(bytes) == TAG_FINI@ {
        Ok(slots)
    } else {
        Err(ErrorKind::UnexpectedFrame)
    }
}

/// The package that the slots make: both certificates are required, the key
/// is not.
pub open spec fn package_of_slots(slots: Slots) -> Result<Package, ErrorKind> {
    match (slots.server_cert, slots.client_cert) {
        (Some(server_cert), Some(client_cert)) => Ok(
            Package { server_cert, client_cert, client_key: slots.client_key },
        ),
        _ => Err(ErrorKind::MissingField),
    }
}

/// The package that a sequence of records holds.
pub open spec fn package_of_records(bytes: Seq<u8>) -> Result<Package, ErrorKind> {
    match records_read(bytes, Slots { server_cert: None, client_cert: None, client_key: None }) {
        Ok(slots) => package_of_slots(slots),
        Err(e) => Err(e),
    }
}

/// The package that a text holds: `BadMagic` without the prefix, `BadBase64`
/// where what follows the prefix is no base64, else what the records give.
pub open spec fn package_of_text(text: Seq<char>) -> Result<Package, ErrorKind> {
    if !(text.len() >= 7 && text.take(7) == package_magic()) {
        Err(ErrorKind::BadMagic)
    } else {
        match base64_data(text.skip(7)) {
            None => Err(ErrorKind::BadBase64),
            Some(bytes) => package_of_records(bytes),
        }
    }
}

/// Appends one record: a frame with this tag whose body is `der`. A blob of
/// more than 65535 bytes does not fit in a frame: the call fails and appends
/// nothing.
pub fn write_der(writer: &mut Vec<u8>, four_cc: FourCc, der: &[u8]) -> (r: Result<(), ErrorKind>)
    ensures
        match r {
            Ok(_) => der@.len() <= MAX_BODY_LEN && final(writer)@ == old(writer)@ + frame_bytes(
                four_cc@,
                der@,
            ),
            Err(e) => e == ErrorKind::Malformed && der@.len() > MAX_BODY_LEN && final(writer)@
                == old(writer)@,
        },
{
    if der.len() > MAX_BODY_LEN {
        return Err(ErrorKind::Malformed);
    }
    let header = HeaderHeader { four_cc, data_len: der.len() as u16 };
    header.write_all(writer);
    writer.extend_from_slice(der);
    assert(writer@ =~= old(writer)@ + frame_bytes(four_cc@, der@));
    Ok(())
}

/// Reads the records of a package.
pub fn read_records(bytes: &[u8]) -> (r: Result<ClientCerts, ErrorKind>)
    ensures
        match r {
            Ok(certs) => package_of_records(bytes@) == Ok::<Package, ErrorKind>(certs@),
            Err(e) => package_of_records(bytes@) == Err::<Package, ErrorKind>(e),
        },
{
    let mut reader = ByteReader::new(bytes);
    let mut server_cert: Option<Vec<u8>> = None;
    let mut client_cert: Option<Vec<u8>> = None;
    let mut client_key: Option<Vec<u8>> = None;
    let ghost none = Slots { server_cert: None, client_cert: None, client_key: None };
    loop
        invariant_except_break
            none == (Slots { server_cert: None, client_cert: None, client_key: None }),
            records_read(bytes@, none) == records_read(
                reader@,
                Slots {
                    server_cert: blob_view(server_cert),
                    client_cert: blob_view(client_cert),
                    client_key: blob_view(client_key),
                },
            ),
        ensures
            records_read(bytes@, none) == Ok::<Slots, ErrorKind>(
                Slots {
                    server_cert: blob_view(server_cert),
                    client_cert: blob_view(client_cert),
                    client_key: blob_view(client_key),
                },
            ),
        decreases reader@.len(),
    {
        let frame = match read_frame(&mut reader) {
            Ok(f) => f,
            Err(e) => { return Err(e); },
        };
        if same_tag(&frame.four_cc, &TAG_SCRT) {
            server_cert = Some(frame.body);
        } else if same_tag(&frame.four_cc, &TAG_CCRT) {
            client_cert = Some(frame.body);
        } else if same_tag(&frame.four_cc, &TAG_CKEY) {
            client_key = Some(frame.body);
        } else if same_tag(&frame.four_cc, &TAG_FINI) {
            break;
        } else {
            return Err(ErrorKind::UnexpectedFrame);
        }
    }
    match (server_cert, client_cert) {
        (Some(server_cert), Some(client_cert)) => Ok(
            ClientCerts { server_cert, client_cert, client_key },
        ),
        _ => Err(ErrorKind::MissingField),
    }
}

/// Reads a package from its text.
pub fn read_package(package: &str) -> (r: Result<ClientCerts, ErrorKind>)
    ensures
        match r {
            Ok(certs) => package_of_text(package@) == Ok::<Package, ErrorKind>(certs@),
            Err(e) => package_of_text(package@) == Err::<Package, ErrorKind>(e),
        },
{
    let magic = "qpipe1:";
    proof {
        reveal_strlit("qpipe1:");
    }
    let len = package.unicode_len();
    if len < 7 {
        return Err(ErrorKind::BadMagic);
    }
    let mut i: usize = 0;
    while i < 7
        invariant
            i <= 7,
            magic@ == package_magic(),
            package@.len() >= 7,
            forall|j: int| 0 <= j < i ==> package@[j] == package_magic()[j],
        decreases 7 - i,
    {
        if package.get_char(i) != magic.get_char(i) {
            assert(package@.take(7)[i as int] != package_magic()[i as int]);
            return Err(ErrorKind::BadMagic);
        }
        i = i + 1;
    }
    assert(package@.take(7) =~= package_magic());
    let encoded = package.substring_char(7, len);
    assert(encoded@ =~= package@.skip(7));
    match base64_decode(encoded) {
        Ok(bytes) => read_records(bytes.as_slice()),
        Err(_) => Err(ErrorKind::BadBase64),
    }
}

/// The slots after a record with this tag and body has been read.
pub open spec fn slots_with(slots: Slots, tag: Seq<u8>, body: Seq<u8>) -> Slots {
    if tag == TAG_SCRT@ {
        Slots { server_cert: Some(body), ..slots }
    } else if tag == TAG_CCRT@ {
        Slots { client_cert: Some(body), ..slots }
    } else if tag == TAG_CKEY@ {
        Slots { client_key: Some(body), ..slots }
    } else {
        slots
    }
}

/// Reading records that start with one `scrt`, `ccrt` or `ckey` record
/// fills that record's slot and goes on with what follows it.
pub proof fn lemma_record_read(tag: Seq<u8>, body: Seq<u8>, rest: Seq<u8>, slots: Slots)
    requires
        tag == TAG_SCRT@ || tag == TAG_CCRT@ || tag == TAG_CKEY@,
        body.len() <= MAX_BODY_LEN,
    ensures
        records_read(frame_bytes(tag, body) + rest, slots) == records_read(
            rest,
            slots_with(slots, tag, body),
        ),
{
    lemma_frame_round_trip(tag, body, rest);
    assert(TAG_SCRT@[0] != TAG_CCRT@[0]);
    assert(TAG_SCRT@[0] != TAG_CKEY@[0]);
    assert(TAG_CCRT@[1] != TAG_CKEY@[1]);
}

/// Reading records that start with `fini` ends with the slots as they are.
pub proof fn lemma_fini_read(rest: Seq<u8>, slots: Slots)
    ensures
        records_read(frame_bytes(TAG_FINI@, Seq::<u8>::empty()) + rest, slots) == Ok::<
            Slots,
            ErrorKind,
        >(slots),
{
    lemma_frame_round_trip(TAG_FINI@, Seq::<u8>::empty(), rest);
    assert(TAG_FINI@[0] != TAG_SCRT@[0]);
    assert(TAG_FINI@[0] != TAG_CCRT@[0]);
    assert(TAG_FINI@[0] != TAG_CKEY@[0]);
}

/// The records of a package are read back as the package that was written,
/// whatever follows them.
pub proof fn lemma_records_round_trip(package: Package, tail: Seq<u8>)
    requires
        package_fits(package),
    ensures
        package_of_records(package_records(package) + tail) == Ok::<Package, ErrorKind>(package),
{
    let none = Slots { server_cert: None, client_cert: None, client_key: None };
    let after_key = frame_bytes(TAG_FINI@, Seq::<u8>::empty()) + tail;
    let after_ccrt = key_record(package.client_key) + after_key;
    let after_scrt = frame_bytes(TAG_CCRT@, package.client_cert) + after_ccrt;
    let whole = frame_bytes(TAG_SCRT@, package.server_cert) + after_scrt;
    let s1 = Slots { server_cert: Some(package.server_cert), ..none };
    let s2 = Slots { client_cert: Some(package.client_cert), ..s1 };
    let s3 = Slots { client_key: package.client_key, ..s2 };

    assert(package_records(package) + tail =~= whole);
    lemma_record_read(TAG_SCRT@, package.server_cert, after_scrt, none);
    lemma_record_read(TAG_CCRT@, package.client_cert, after_ccrt, s1);
    match package.client_key {
        Some(key) => {
            lemma_record_read(TAG_CKEY@, key, after_key, s2);
        },
        None => {
            assert(after_ccrt =~= after_key);
        },
    }
    lemma_fini_read(tail, s3);
}

/// The text of a package is read back as the package that was written,
/// given that the base64 text of its records stands for those records.
pub proof fn lemma_package_round_trip(package: Package)
    requires
        package_fits(package),
        base64_data(base64_text(package_records(package))) == Some(package_records(package)),
    ensures
        package_of_text(package_text(package)) == Ok::<Package, ErrorKind>(package),
{
    let text = package_text(package);
    assert(text.take(7) =~= package_magic());
    assert(text.skip(7) =~= base64_text(package_records(package)));
    lemma_records_round_trip(package, Seq::<u8>::empty());
    assert(package_records(package) + Seq::<u8>::empty() =~= package_records(package));
}

/// Writes the records of a package: `scrt`, `ccrt`, `ckey` if there is a
/// key, `fini`. A blob of more than 65535 bytes does not fit in a record:
/// the call then fails.
pub fn write_records(certs: &ClientCerts) -> (r: Result<Vec<u8>, ErrorKind>)
    ensures
        match r {
            Ok(records) => package_fits(certs@) && records@ == package_records(certs@),
            Err(e) => e == ErrorKind::Malformed && !package_fits(certs@),
        },
{
    let mut buf: Vec<u8> = Vec::new();
    match write_der(&mut buf, TAG_SCRT, certs.server_cert.as_slice()) {
        Ok(_) => {},
        Err(e) => { return Err(e); },
    }
    match write_der(&mut buf, TAG_CCRT, certs.client_cert.as_slice()) {
        Ok(_) => {},
        Err(e) => { return Err(e); },
    }
    match &certs.client_key {
        Some(key) => {
            match write_der(&mut buf, TAG_CKEY, key.as_slice()) {
                Ok(_) => {},
                Err(e) => { return Err(e); },
            }
        },
        None => {},
    }
    HeaderHeader::finished().write_all(&mut buf);
    assert(buf@ =~= package_records(certs@));
    Ok(buf)
}

/// Writes a package as text: the prefix `qpipe1:`, then the records in
/// base64. The text is one that `read_package` reads back as the same
/// package. A blob of more than 65535 bytes does not fit in a record: the
/// call then fails.
pub fn write_package(certs: &ClientCerts) -> (r: Result<String, ErrorKind>)
    ensures
        match r {
            Ok(text) => package_fits(certs@) && text@ == package_text(certs@)
                && package_of_text(text@) == Ok::<Package, ErrorKind>(certs@),
            Err(e) => e == ErrorKind::Malformed && !package_fits(certs@),
        },
{
    let records = match write_records(certs) {
        Ok(records) => records,
        Err(e) => { return Err(e); },
    };
    let encoded = base64_encode(records.as_slice());
    let text = "qpipe1:".to_owned().concat(encoded.as_str());
    proof {
        reveal_strlit("qpipe1:");
        assert(text@ =~= package_text(certs@));
        lemma_package_round_trip(certs@);
    }
    Ok(text)
}

} // verus!
