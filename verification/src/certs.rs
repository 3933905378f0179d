use vstd::prelude::*;
use vstd::slice::slice_to_vec;
use vstd::utf8::{encode_utf8, is_ascii_chars};
use rcgen::{CertificateSigningRequest, DnType, DnValue, SanType};
use crate::endpoint::{
    all_trust_anchors, certificate_readable, chain_view, is_trust_anchor, server_key_accepted,
};
use crate::error::ErrorKind;
use crate::server::{server_config, Certs};

verus! {

/// A certificate with its private key, each in DER.
pub type KeyPair = (Vec<u8>, Vec<u8>);

/// A certificate signing request in DER.
#[derive(Clone, Debug, PartialEq, Eq)]
pub struct Csr(pub Vec<u8>);

/// The file of the state directory that holds the server's certificate.
pub const CERT_FILE: &'static str = "server.cert";

/// The file of the state directory that holds the server's private key.
pub const KEY_FILE: &'static str = "server.key";

/// What a key may be used for.
#[derive(Clone, Copy, Debug, PartialEq, Eq, Structural)]
pub enum KeyUsage {
    KeyCertSign,
    CrlSign,
    DigitalSignature,
}

/// What a certificate may further be used for.
#[derive(Clone, Copy, Debug, PartialEq, Eq, Structural)]
pub enum ExtendedKeyUsage {
    ServerAuth,
}

/// What a certificate is to say of its subject.
#[derive(Clone, Debug, PartialEq, Eq)]
pub struct CertProfile {
    /// The common name, the one attribute of the distinguished name.
    pub common_name: String,
    /// The DNS names that the certificate is valid for.
    pub subject_alt_names: Vec<String>,
    /// For an authority, how many authorities may follow it in a chain;
    /// `None` for a certificate that may sign no other.
    pub ca_path_len: Option<u8>,
    /// What the key may be used for; empty where the certificate is to say
    /// nothing of it.
    pub key_usages: Vec<KeyUsage>,
    /// What the certificate may further be used for; empty where it is to
    /// say nothing of it.
    pub extended_key_usages: Vec<ExtendedKeyUsage>,
}

/// The characters of each string of a list.
pub open spec fn names_view(names: Seq<String>) -> Seq<Seq<char>> {
    Seq::new(names.len(), |i: int| names[i]@)
}

/// The characters of each string slice of a list.
pub open spec fn strs_view(names: Seq<&str>) -> Seq<Seq<char>> {
    Seq::new(names.len(), |i: int| names[i]@)
}

/// Whether every name of a list is ASCII.
pub open spec fn all_ascii(names: Seq<Seq<char>>) -> bool {
    forall|i: int| 0 <= i < names.len() ==> is_ascii_chars(#[trigger] names[i])
}

/// The profile of the server's certificate, which is its own authority: the
/// common name `qpiped server`, the given names, an authority that no other
/// may follow, keys for signing certificates, signing revocation lists and
/// digital signatures, and use as a TLS server.
pub fn server_profile(names: &[&str]) -> (r: CertProfile)
    ensures
        r.common_name@ == "qpiped server"@,
        names_view(r.subject_alt_names@) == strs_view(names@),
        r.ca_path_len == Some(0u8),
        r.key_usages@ == seq![KeyUsage::KeyCertSign, KeyUsage::CrlSign, KeyUsage::DigitalSignature],
        r.extended_key_usages@ == seq![ExtendedKeyUsage::ServerAuth],
{
    let mut subject_alt_names: Vec<String> = Vec::new();
    let mut i: usize = 0;
    while i < names.len()
        invariant
            i <= names@.len(),
            subject_alt_names@.len() == i,
            forall|j: int| 0 <= j < i ==> subject_alt_names@[j]@ == names@[j]@,
        decreases names@.len() - i,
    {
        subject_alt_names.push(names[i].to_owned());
        i = i + 1;
    }
    assert(names_view(subject_alt_names@) =~= strs_view(names@));
    let mut key_usages: Vec<KeyUsage> = Vec::new();
    key_usages.push(KeyUsage::KeyCertSign);
    key_usages.push(KeyUsage::CrlSign);
    key_usages.push(KeyUsage::DigitalSignature);
    let mut extended_key_usages: Vec<ExtendedKeyUsage> = Vec::new();
    extended_key_usages.push(ExtendedKeyUsage::ServerAuth);
    assert(key_usages@ =~= seq![
        KeyUsage::KeyCertSign,
        KeyUsage::CrlSign,
        KeyUsage::DigitalSignature,
    ]);
    assert(extended_key_usages@ =~= seq![ExtendedKeyUsage::ServerAuth]);
    CertProfile {
        common_name: "qpiped server".to_owned(),
        subject_alt_names,
        ca_path_len: Some(0),
        key_usages,
        extended_key_usages,
    }
}

/// The profile of a client's certificate: the common name `client`, the
/// name `client`, and no authority.
pub fn client_profile() -> (r: CertProfile)
    ensures
        r.common_name@ == "client"@,
        names_view(r.subject_alt_names@) == seq!["client"@],
        r.ca_path_len is None,
        r.key_usages@.len() == 0,
        r.extended_key_usages@.len() == 0,
{
    let mut subject_alt_names: Vec<String> = Vec::new();
    subject_alt_names.push("client".to_owned());
    assert(names_view(subject_alt_names@) =~= seq!["client"@]);
    CertProfile {
        common_name: "client".to_owned(),
        subject_alt_names,
        ca_path_len: None,
        key_usages: Vec::new(),
        extended_key_usages: Vec::new(),
    }
}

/// One of the names that a signing request asks for.
#[derive(Clone, Debug, PartialEq, Eq)]
pub enum AltName {
    /// A name given as text: a DNS name, a mail address or a URI.
    Text(String),
    /// A name of another form.
    Other,
}

/// One attribute of the subject of a signing request, as far as writing it
/// into a certificate can go wrong.
#[derive(Clone, Debug, PartialEq, Eq)]
pub struct SubjectAttribute {
    /// The numbers of the attribute's type, where the type is none of those
    /// that have a name of their own.
    pub custom_type: Option<Vec<u64>>,
    /// The attribute's value, where it is marked as a printable string.
    pub printable: Option<String>,
}

/// Whether a byte may stand in a printable string as the encoder of
/// signed certificates takes it: a letter, a digit, a space, or one of
/// `'()+,-./:=`.
pub open spec fn is_printable_byte(byte: u8) -> bool {
    ||| byte == 0x20
    ||| (0x27 <= byte <= 0x3a && byte != 0x2a)
    ||| byte == 0x3d
    ||| 0x41 <= byte <= 0x5a
    ||| 0x61 <= byte <= 0x7a
}

/// Whether every byte of a text may stand in a printable string.
pub open spec fn is_printable(text: Seq<char>) -> bool {
    forall|i: int|
        0 <= i < encode_utf8(text).len() ==> is_printable_byte(#[trigger] encode_utf8(text)[i])
}

/// Whether the names of a request can be written into a certificate: each
/// textual name is ASCII.
pub open spec fn alt_names_writable(names: Seq<AltName>) -> bool {
    forall|i: int| 0 <= i < names.len() ==> ((#[trigger] names[i]) matches AltName::Text(text)
        ==> is_ascii_chars(text@))
}

/// Whether the numbers of an attribute's type can be written as an object
/// identifier: there are at least two, the first is 0, 1 or 2, and the
/// second is under 40 unless the first is 2.
pub open spec fn is_object_identifier(numbers: Seq<u64>) -> bool {
    &&& numbers.len() >= 2
    &&& numbers[0] < 3
    &&& numbers[1] < 18446744073709551535
    &&& (numbers[0] >= 2 || numbers[1] < 40)
}

/// Whether one attribute of a subject can be written into a certificate.
pub open spec fn attribute_writable(attribute: SubjectAttribute) -> bool {
    &&& (attribute.custom_type matches Some(numbers) ==> is_object_identifier(numbers@))
    &&& (attribute.printable matches Some(text) ==> is_printable(text@))
}

/// Whether the subject of a request can be written into a certificate:
/// each attribute's type is an object identifier, and each value marked as
/// a printable string is one.
pub open spec fn subject_writable(subject: Seq<SubjectAttribute>) -> bool {
    forall|i: int| 0 <= i < subject.len() ==> attribute_writable(#[trigger] subject[i])
}

/// What a signing request holds, as far as writing it into a certificate
/// can go wrong.
pub ghost struct RequestContent {
    /// The names that it asks for.
    pub alt_names: Seq<AltName>,
    /// The attributes of its subject, in order.
    pub subject: Seq<SubjectAttribute>,
}

/// Whether what a request holds can be written into a certificate.
pub open spec fn content_writable(content: RequestContent) -> bool {
    alt_names_writable(content.alt_names) && subject_writable(content.subject)
}

/// What was found in a signing request.
#[derive(Clone, Debug, PartialEq, Eq)]
pub struct RequestParts {
    /// The names that it asks for.
    pub alt_names: Vec<AltName>,
    /// The attributes of its subject, in order.
    pub subject: Vec<SubjectAttribute>,
}

impl RequestParts {
    /// What was found, as sequences.
    pub open spec fn view(&self) -> RequestContent {
        RequestContent { alt_names: self.alt_names@, subject: self.subject@ }
    }
}

/// The error of the rcgen crate.
#[verifier::external_type_specification]
#[verifier::external_body]
pub struct ExRcgenError(rcgen::RcgenError);

/// A key usage of the rcgen crate.
#[verifier::external_type_specification]
#[verifier::external_body]
pub struct ExKeyUsagePurpose(rcgen::KeyUsagePurpose);

/// An extended key usage of the rcgen crate.
#[verifier::external_type_specification]
#[verifier::external_body]
pub struct ExExtendedKeyUsagePurpose(rcgen::ExtendedKeyUsagePurpose);

/// What rcgen's `CertificateSigningRequest::from_der` finds in these bytes:
/// the names and the subject in the parameters of the request that it
/// gives, or nothing where it takes the bytes for no request.
pub uninterp spec fn csr_content(der: Seq<u8>) -> Option<RequestContent>;

/// Whether rcgen can sign with this key: `KeyPair::from_der` can load it,
/// and `Certificate::from_params` finds that it goes with the algorithm
/// that certificate parameters default to. Without that, nothing is signed.
pub uninterp spec fn signing_key_usable(key: Seq<u8>) -> bool;

/// Whether these bytes are a signing request that can be signed: rcgen
/// takes them for a request, and what the request holds can be written into
/// a certificate.
pub open spec fn csr_acceptable(der: Seq<u8>) -> bool {
    csr_content(der) matches Some(content) && content_writable(content)
}

/// `KeyPair::generate` of rcgen, for the algorithm that its certificate
/// parameters default to, handed back as PKCS#8 DER by
/// `KeyPair::serialize_der`. The key is random: nothing is claimed of it.
#[verifier::external_body]
fn generate_key() -> (r: Result<Vec<u8>, rcgen::RcgenError>) {
    Ok(rcgen::KeyPair::generate(rcgen::CertificateParams::default().alg)?.serialize_der())
}

/// The key usage of rcgen that stands for one of this library.
#[verifier::external_body]
fn outside_key_usage(usage: &KeyUsage) -> (r: rcgen::KeyUsagePurpose) {
    match usage {
        KeyUsage::KeyCertSign => rcgen::KeyUsagePurpose::KeyCertSign,
        KeyUsage::CrlSign => rcgen::KeyUsagePurpose::CrlSign,
        KeyUsage::DigitalSignature => rcgen::KeyUsagePurpose::DigitalSignature,
    }
}

/// The extended key usage of rcgen that stands for one of this library.
#[verifier::external_body]
fn outside_extended_key_usage(usage: &ExtendedKeyUsage) -> (r: rcgen::ExtendedKeyUsagePurpose) {
    match usage {
        ExtendedKeyUsage::ServerAuth => rcgen::ExtendedKeyUsagePurpose::ServerAuth,
    }
}

/// `Certificate::serialize_der` of rcgen: a certificate that says what the
/// profile says, holds the key pair that `KeyPair::from_der` makes of `key`
/// (`Certificate::from_params`), and is signed with that key. It is written
/// only where the key can be used. What is written is a DER sequence, so
/// there are bytes; the signature is random, and nothing more is claimed of
/// them. The names are ASCII: the encoder stops the program at a DNS name
/// that is not.
#[verifier::external_body]
fn self_signed_der(
    profile: &CertProfile,
    key_usages: Vec<rcgen::KeyUsagePurpose>,
    extended_key_usages: Vec<rcgen::ExtendedKeyUsagePurpose>,
    key: &[u8],
) -> (r: Result<Vec<u8>, rcgen::RcgenError>)
    requires
        all_ascii(names_view(profile.subject_alt_names@)),
    ensures
        r matches Ok(der) ==> der@.len() > 0 && signing_key_usable(key@),
{
    let mut params = rcgen::CertificateParams::new(profile.subject_alt_names.clone());
    params.distinguished_name = rcgen::DistinguishedName::new();
    params.distinguished_name.push(DnType::CommonName, profile.common_name.clone());
    params.is_ca = match profile.ca_path_len {
        Some(n) => rcgen::IsCa::Ca(rcgen::BasicConstraints::Constrained(n)),
        None => rcgen::IsCa::NoCa,
    };
    params.key_usages = key_usages;
    params.extended_key_usages = extended_key_usages;
    params.key_pair = Some(rcgen::KeyPair::from_der(key)?);
    rcgen::Certificate::from_params(params)?.serialize_der()
}

/// `Certificate::serialize_request_der` of rcgen: a signing request for
/// what the profile says and for the key pair that `KeyPair::from_der`
/// makes of `key` (`Certificate::from_params`), signed with that key. It is
/// written only where the key can be used. The signature is random: nothing
/// more is claimed of the bytes. The names are ASCII: the encoder stops the
/// program at a DNS name that is not.
#[verifier::external_body]
fn request_der(
    profile: &CertProfile,
    key_usages: Vec<rcgen::KeyUsagePurpose>,
    extended_key_usages: Vec<rcgen::ExtendedKeyUsagePurpose>,
    key: &[u8],
) -> (r: Result<Vec<u8>, rcgen::RcgenError>)
    requires
        all_ascii(names_view(profile.subject_alt_names@)),
    ensures
        r matches Ok(der) ==> signing_key_usable(key@),
{
    let mut params = rcgen::CertificateParams::new(profile.subject_alt_names.clone());
    params.distinguished_name = rcgen::DistinguishedName::new();
    params.distinguished_name.push(DnType::CommonName, profile.common_name.clone());
    params.is_ca = match profile.ca_path_len {
        Some(n) => rcgen::IsCa::Ca(rcgen::BasicConstraints::Constrained(n)),
        None => rcgen::IsCa::NoCa,
    };
    params.key_usages = key_usages;
    params.extended_key_usages = extended_key_usages;
    params.key_pair = Some(rcgen::KeyPair::from_der(key)?);
    rcgen::Certificate::from_params(params)?.serialize_request_der()
}

/// `CertificateSigningRequest::from_der` of rcgen, with what the request
/// holds in its parameters handed back as values of this library: each of
/// its names, and each attribute of its subject in the subject's order.
#[verifier::external_body]
fn inspect_request(der: &[u8]) -> (r: Result<RequestParts, rcgen::RcgenError>)
    ensures
        match r {
            Ok(parts) => csr_content(der@) == Some(parts@),
            Err(_) => csr_content(der@) is None,
        },
{
    let request = CertificateSigningRequest::from_der(der)?;
    let alt_names = request.params.subject_alt_names.iter().map(|name| match name {
        SanType::Rfc822Name(text) | SanType::DnsName(text) | SanType::URI(text) => {
            AltName::Text(text.clone())
        },
        _ => AltName::Other,
    }).collect();
    let subject = request.params.distinguished_name.iter().map(|(kind, value)| SubjectAttribute {
        custom_type: match kind { DnType::CustomDnType(numbers) => Some(numbers.clone()), _ => None },
        printable: match value { DnValue::PrintableString(text) => Some(text.clone()), _ => None },
    }).collect();
    Ok(RequestParts { alt_names, subject })
}

/// `CertificateSigningRequest::serialize_der_with_signer` of rcgen, on the
/// request that `from_der` makes of `der`: the certificate that the request
/// asks for. Its signer says what the profile says and holds the key pair
/// that `KeyPair::from_der` makes of `key` (`Certificate::from_params`); the
/// certificate is signed with that key and names the signer's subject as
/// its issuer. It is written only where the key can be used. What is
/// written is a DER sequence, so there are bytes; the signature is random,
/// and nothing more is claimed of them. The encoder stops the program at a
/// textual name of the request that is not ASCII, at an attribute of its
/// subject whose type is no object identifier, and at a value of its
/// subject that is marked as a printable string and is none; of the signer
/// it writes the subject alone.
#[verifier::external_body]
fn sign_request(
    der: &[u8],
    profile: &CertProfile,
    key_usages: Vec<rcgen::KeyUsagePurpose>,
    extended_key_usages: Vec<rcgen::ExtendedKeyUsagePurpose>,
    key: &[u8],
) -> (r: Result<Vec<u8>, rcgen::RcgenError>)
    requires
        csr_acceptable(der@),
    ensures
        r matches Ok(certificate) ==> certificate@.len() > 0 && signing_key_usable(key@),
{
    let mut params = rcgen::CertificateParams::new(profile.subject_alt_names.clone());
    params.distinguished_name = rcgen::DistinguishedName::new();
    params.distinguished_name.push(DnType::CommonName, profile.common_name.clone());
    params.is_ca = match profile.ca_path_len {
        Some(n) => rcgen::IsCa::Ca(rcgen::BasicConstraints::Constrained(n)),
        None => rcgen::IsCa::NoCa,
    };
    params.key_usages = key_usages;
    params.extended_key_usages = extended_key_usages;
    params.key_pair = Some(rcgen::KeyPair::from_der(key)?);
    let ca = rcgen::Certificate::from_params(params)?;
    CertificateSigningRequest::from_der(der)?.serialize_der_with_signer(&ca)
}

/// Whether every name of a list is ASCII.
pub fn names_are_ascii(names: &Vec<String>) -> (r: bool)
    ensures
        r == all_ascii(names_view(names@)),
{
    let mut i: usize = 0;
    while i < names.len()
        invariant
            i <= names@.len(),
            forall|j: int| 0 <= j < i ==> is_ascii_chars(#[trigger] names_view(names@)[j]),
        decreases names@.len() - i,
    {
        if !names[i].as_str().is_ascii() {
            assert(!is_ascii_chars(names_view(names@)[i as int]));
            return false;
        }
        i = i + 1;
    }
    true
}

/// Whether every byte of a text may stand in a printable string.
pub fn text_is_printable(text: &str) -> (r: bool)
    ensures
        r == is_printable(text@),
{
    let bytes = text.as_bytes();
    let mut i: usize = 0;
    while i < bytes.len()
        invariant
            i <= bytes@.len(),
            bytes@ == encode_utf8(text@),
            forall|j: int| 0 <= j < i ==> is_printable_byte(#[trigger] bytes@[j]),
        decreases bytes@.len() - i,
    {
        let byte = bytes[i];
        let ok = byte == 0x20 || (0x27 <= byte && byte <= 0x3a && byte != 0x2a) || byte == 0x3d
            || (0x41 <= byte && byte <= 0x5a) || (0x61 <= byte && byte <= 0x7a);
        if !ok {
            assert(!is_printable_byte(encode_utf8(text@)[i as int]));
            return false;
        }
        i = i + 1;
    }
    true
}

/// Whether the numbers of an attribute's type can be written as an object
/// identifier.
pub fn numbers_are_object_identifier(numbers: &Vec<u64>) -> (r: bool)
    ensures
        r == is_object_identifier(numbers@),
{
    numbers.len() >= 2 && numbers[0] < 3 && numbers[1] < 18446744073709551535 && (numbers[0] >= 2
        || numbers[1] < 40)
}

/// Whether one attribute of a subject can be written into a certificate.
pub fn attribute_is_writable(attribute: &SubjectAttribute) -> (r: bool)
    ensures
        r == attribute_writable(*attribute),
{
    let type_ok = match &attribute.custom_type {
        Some(numbers) => numbers_are_object_identifier(numbers),
        None => true,
    };
    let value_ok = match &attribute.printable {
        Some(text) => text_is_printable(text.as_str()),
        None => true,
    };
    type_ok && value_ok
}

/// Whether what a request holds can be written into a certificate: its
/// textual names are ASCII, the types of its subject's attributes are
/// object identifiers, and the printable strings of its subject are
/// printable.
pub fn request_writable(parts: &RequestParts) -> (r: bool)
    ensures
        r == content_writable(parts@),
{
    let mut i: usize = 0;
    while i < parts.alt_names.len()
        invariant
            i <= parts.alt_names@.len(),
            forall|j: int|
                0 <= j < i ==> ((#[trigger] parts.alt_names@[j]) matches AltName::Text(text)
                    ==> is_ascii_chars(text@)),
        decreases parts.alt_names@.len() - i,
    {
        match &parts.alt_names[i] {
            AltName::Text(text) => {
                if !text.as_str().is_ascii() {
                    assert(!alt_names_writable(parts.alt_names@));
                    return false;
                }
            },
            AltName::Other => {},
        }
        i = i + 1;
    }
    let mut k: usize = 0;
    while k < parts.subject.len()
        invariant
            k <= parts.subject@.len(),
            alt_names_writable(parts.alt_names@),
            forall|j: int| 0 <= j < k ==> attribute_writable(#[trigger] parts.subject@[j]),
        decreases parts.subject@.len() - k,
    {
        if !attribute_is_writable(&parts.subject[k]) {
            assert(!subject_writable(parts.subject@));
            return false;
        }
        k = k + 1;
    }
    true
}

/// The key usages of a profile as rcgen takes them.
fn outside_key_usages(profile: &CertProfile) -> (r: Vec<rcgen::KeyUsagePurpose>)
    ensures
        r@.len() == profile.key_usages@.len(),
{
    let mut key_usages: Vec<rcgen::KeyUsagePurpose> = Vec::new();
    let mut i: usize = 0;
    while i < profile.key_usages.len()
        invariant
            i <= profile.key_usages@.len(),
            key_usages@.len() == i,
        decreases profile.key_usages@.len() - i,
    {
        key_usages.push(outside_key_usage(&profile.key_usages[i]));
        i = i + 1;
    }
    key_usages
}

/// The extended key usages of a profile as rcgen takes them.
fn outside_extended_key_usages(profile: &CertProfile) -> (r: Vec<rcgen::ExtendedKeyUsagePurpose>)
    ensures
        r@.len() == profile.extended_key_usages@.len(),
{
    let mut extended_key_usages: Vec<rcgen::ExtendedKeyUsagePurpose> = Vec::new();
    let mut i: usize = 0;
    while i < profile.extended_key_usages.len()
        invariant
            i <= profile.extended_key_usages@.len(),
            extended_key_usages@.len() == i,
        decreases profile.extended_key_usages@.len() - i,
    {
        extended_key_usages.push(outside_extended_key_usage(&profile.extended_key_usages[i]));
        i = i + 1;
    }
    extended_key_usages
}

/// Whether these bytes are a signing request that can be signed.
pub fn request_acceptable(der: &[u8]) -> (r: bool)
    ensures
        r == csr_acceptable(der@),
{
    match inspect_request(der) {
        Ok(parts) => request_writable(&parts),
        Err(_) => false,
    }
}

/// What holds of a pair that was newly generated for the server: there is
/// a certificate, the key can sign clients' requests, and the server's
/// endpoint takes the certificate as its trust anchor and the key as its
/// own.
pub open spec fn fresh_pair(cert: Seq<u8>, key: Seq<u8>) -> bool {
    &&& cert.len() > 0
    &&& signing_key_usable(key)
    &&& pair_serves(cert, key)
}

/// Whether the server's endpoint can be set up with this pair: the
/// certificate can be its trust anchor, and the key is one that it takes.
pub open spec fn pair_serves(cert: Seq<u8>, key: Seq<u8>) -> bool {
    is_trust_anchor(cert) && server_key_accepted(key)
}

/// Generates the server's key and its certificate, which it signs itself,
/// for the given names. Names that are not ASCII cannot stand in a
/// certificate: the call then fails with `Malformed`. Every other failure
/// is one of the key generation, of the signing, or of the trial of the new
/// pair on the server's endpoint, and is `Crypto`. A pair that comes back
/// is one that the server can sign and serve with.
pub fn generate_server_certs(names: &[&str]) -> (r: Result<KeyPair, ErrorKind>)
    ensures
        !all_ascii(strs_view(names@)) ==> (r matches Err(e) && e == ErrorKind::Malformed),
        all_ascii(strs_view(names@)) ==> (r matches Err(e) ==> e == ErrorKind::Crypto),
        r matches Ok(pair) ==> fresh_pair(pair.0@, pair.1@),
{
    let profile = server_profile(names);
    if !names_are_ascii(&profile.subject_alt_names) {
        return Err(ErrorKind::Malformed);
    }
    let key = match generate_key() {
        Ok(key) => key,
        Err(_) => { return Err(ErrorKind::Crypto); },
    };
    let written = self_signed_der(
        &profile,
        outside_key_usages(&profile),
        outside_extended_key_usages(&profile),
        key.as_slice(),
    );
    match written {
        Ok(der) => hand_out_pair(der, key),
        Err(_) => Err(ErrorKind::Crypto),
    }
}

/// Hands out a newly written certificate with its key, after a trial on
/// the server's endpoint: what the server is given, and keeps from then on,
/// is a pair that it can serve with. A pair that the endpoint does not take
/// is `Crypto`: the writing went wrong.
pub fn hand_out_pair(der: Vec<u8>, key: Vec<u8>) -> (r: Result<KeyPair, ErrorKind>)
    ensures
        match r {
            Ok(pair) => pair_serves(der@, key@) && pair.0@ == der@ && pair.1@ == key@,
            Err(e) => e == ErrorKind::Crypto && !pair_serves(der@, key@),
        },
{
    let mut server_chain: Vec<Vec<u8>> = Vec::new();
    server_chain.push(slice_to_vec(der.as_slice()));
    let certs = Certs { server_key: slice_to_vec(key.as_slice()), server_chain };
    proof {
        let chain = chain_view(certs.server_chain@);
        assert(chain =~= seq![der@]);
        assert(chain[0] == der@);
        assert(all_trust_anchors(chain) == is_trust_anchor(der@));
    }
    match server_config(&certs) {
        Ok(_) => Ok((der, key)),
        Err(_) => Err(ErrorKind::Crypto),
    }
}

/// Hands out a newly signed certificate after a look at it: what a client
/// is given is a certificate that the other side can read. One that cannot
/// be read is `Crypto`: the writing went wrong.
pub fn hand_out_certificate(der: Vec<u8>) -> (r: Result<Vec<u8>, ErrorKind>)
    ensures
        match r {
            Ok(certificate) => is_trust_anchor(der@) && certificate@ == der@,
            Err(e) => e == ErrorKind::Crypto && !is_trust_anchor(der@),
        },
{
    if certificate_readable(&der) {
        Ok(der)
    } else {
        Err(ErrorKind::Crypto)
    }
}

/// Generates a key for a client and a request to sign a certificate for
/// it. The key stays with the caller; the request goes to the server.
pub fn generate_client_certs() -> (r: Result<(Csr, Vec<u8>), ErrorKind>)
    ensures
        match r {
            Ok((csr, key)) => csr_acceptable(csr.0@) && signing_key_usable(key@),
            Err(e) => e == ErrorKind::Crypto,
        },
{
    let profile = client_profile();
    proof {
        reveal_strlit("client");
        assert(is_ascii_chars("client"@));
    }
    let key = match generate_key() {
        Ok(key) => key,
        Err(_) => { return Err(ErrorKind::Crypto); },
    };
    let written = request_der(
        &profile,
        outside_key_usages(&profile),
        outside_extended_key_usages(&profile),
        key.as_slice(),
    );
    match written {
        Ok(der) => hand_out_request(der, key),
        Err(_) => Err(ErrorKind::Crypto),
    }
}

/// Hands out a newly written request with its key, after a look at the
/// request: what a client is given is a request that `parse_client` takes.
/// A request that it would not take is `Crypto`: the writing went wrong.
pub fn hand_out_request(der: Vec<u8>, key: Vec<u8>) -> (r: Result<(Csr, Vec<u8>), ErrorKind>)
    ensures
        match r {
            Ok((csr, handed)) => csr_acceptable(der@) && csr.0@ == der@ && handed@ == key@,
            Err(e) => e == ErrorKind::Crypto && !csr_acceptable(der@),
        },
{
    if request_acceptable(der.as_slice()) {
        Ok((Csr(der), key))
    } else {
        Err(ErrorKind::Crypto)
    }
}

/// Takes a signing request from its DER bytes if it is one that can be
/// signed. Bytes that are no signing request give `BadCsr`, and so does a
/// request that cannot be written into a certificate: one with a textual
/// name that is not ASCII, with an attribute in its subject whose type is
/// no object identifier, or with a value in its subject that is marked as
/// a printable string and is none.
pub fn parse_client(buf: &[u8]) -> (r: Result<Csr, ErrorKind>)
    ensures
        match r {
            Ok(csr) => csr_acceptable(buf@) && csr.0@ == buf@,
            Err(e) => e == ErrorKind::BadCsr && !csr_acceptable(buf@),
        },
{
    if request_acceptable(buf) {
        Ok(Csr(slice_to_vec(buf)))
    } else {
        Err(ErrorKind::BadCsr)
    }
}

/// Signs a client's request with the server's key. The issuer that the
/// certificate names is the subject of the server's own certificate. A
/// request that `parse_client` does not take gives `BadCsr`; then a key
/// that cannot be used gives `Crypto`, and so do a failed signature and a
/// certificate that cannot be read. A certificate that comes back has
/// bytes and can be read.
pub fn mint_client(ca_key: &[u8], client_csr: &Csr) -> (r: Result<Vec<u8>, ErrorKind>)
    ensures
        !csr_acceptable(client_csr.0@) ==> (r matches Err(e) && e == ErrorKind::BadCsr),
        csr_acceptable(client_csr.0@) ==> (r matches Err(e) ==> e == ErrorKind::Crypto),
        csr_acceptable(client_csr.0@) && !signing_key_usable(ca_key@) ==> r is Err,
        r matches Ok(certificate) ==> certificate@.len() > 0 && is_trust_anchor(certificate@),
{
    if !request_acceptable(client_csr.0.as_slice()) {
        return Err(ErrorKind::BadCsr);
    }
    let no_names: [&str; 0] = [];
    let signer = server_profile(&no_names);
    let written = sign_request(
        client_csr.0.as_slice(),
        &signer,
        outside_key_usages(&signer),
        outside_extended_key_usages(&signer),
        ca_key,
    );
    match written {
        Ok(der) => hand_out_certificate(der),
        Err(_) => Err(ErrorKind::Crypto),
    }
}

/// What the server's state directory holds: the content of each of its
/// two files, where the file is there.
#[derive(Clone, Debug, PartialEq, Eq)]
pub struct StateDir {
    /// The content of `server.cert`.
    pub cert: Option<Vec<u8>>,
    /// The content of `server.key`.
    pub key: Option<Vec<u8>>,
}

/// The content of a state directory.
pub ghost struct Dir {
    /// The content of the certificate's file, where the file is there.
    pub cert: Option<Seq<u8>>,
    /// The content of the key's file, where the file is there.
    pub key: Option<Seq<u8>>,
}

/// The bytes of a file that may be absent.
pub open spec fn file_view(file: Option<Vec<u8>>) -> Option<Seq<u8>> {
    match file {
        Some(bytes) => Some(bytes@),
        None => None,
    }
}

impl StateDir {
    /// What the directory holds, as bytes.
    pub open spec fn view(&self) -> Dir {
        Dir { cert: file_view(self.cert), key: file_view(self.key) }
    }
}

/// The bytes of a certificate and its key, where there is a pair.
pub open spec fn pair_view(result: Result<KeyPair, ErrorKind>) -> Result<
    (Seq<u8>, Seq<u8>),
    ErrorKind,
> {
    match result {
        Ok(pair) => Ok((pair.0@, pair.1@)),
        Err(e) => Err(e),
    }
}

/// What is found in a state directory: the pair that it holds, or nothing
/// where it holds no certificate. A certificate without its key is an
/// error.
pub open spec fn loaded(dir: Dir) -> Result<Option<(Seq<u8>, Seq<u8>)>, ErrorKind> {
    match dir.cert {
        None => Ok(None),
        Some(cert) => match dir.key {
            Some(key) => Ok(Some((cert, key))),
            None => Err(ErrorKind::Io),
        },
    }
}

/// How a state directory and the result stand after the server's key
/// material was asked for, given whether the names asked for are ASCII.
///
/// A directory that holds a certificate is left as it is, and the result is
/// what it holds. Into a directory without a certificate a newly generated
/// pair is put, and the result is that pair; where the generation fails the
/// directory is left as it is.
pub open spec fn bootstrapped(
    names_ascii: bool,
    before: Dir,
    after: Dir,
    result: Result<(Seq<u8>, Seq<u8>), ErrorKind>,
) -> bool {
    match loaded(before) {
        Ok(Some(pair)) => after == before && result == Ok::<(Seq<u8>, Seq<u8>), ErrorKind>(pair),
        Err(e) => after == before && result == Err::<(Seq<u8>, Seq<u8>), ErrorKind>(e),
        Ok(None) => match result {
            Ok(pair) => names_ascii && after == (Dir { cert: Some(pair.0), key: Some(pair.1) }),
            Err(e) => after == before && e == (if names_ascii {
                ErrorKind::Crypto
            } else {
                ErrorKind::Malformed
            }),
        },
    }
}

/// Looks for the pair that a state directory holds.
pub fn load(dir: &StateDir) -> (r: Result<Option<KeyPair>, ErrorKind>)
    ensures
        match r {
            Ok(Some(pair)) => loaded(dir@) == Ok::<Option<(Seq<u8>, Seq<u8>)>, ErrorKind>(
                Some((pair.0@, pair.1@)),
            ),
            Ok(None) => loaded(dir@) == Ok::<Option<(Seq<u8>, Seq<u8>)>, ErrorKind>(None),
            Err(e) => loaded(dir@) == Err::<Option<(Seq<u8>, Seq<u8>)>, ErrorKind>(e),
        },
{
    match &dir.cert {
        None => Ok(None),
        Some(cert) => match &dir.key {
            Some(key) => Ok(Some((slice_to_vec(cert.as_slice()), slice_to_vec(key.as_slice())))),
            None => Err(ErrorKind::Io),
        },
    }
}

/// Puts a newly generated pair into a state directory and hands it on; a
/// failed generation is handed on with the directory left as it is.
pub fn store(dir: &mut StateDir, generated: Result<KeyPair, ErrorKind>) -> (r: Result<
    KeyPair,
    ErrorKind,
>)
    ensures
        pair_view(r) == pair_view(generated),
        match generated {
            Ok(pair) => final(dir)@ == (Dir { cert: Some(pair.0@), key: Some(pair.1@) }),
            Err(_) => final(dir)@ == old(dir)@,
        },
{
    match generated {
        Ok(pair) => {
            dir.cert = Some(slice_to_vec(pair.0.as_slice()));
            dir.key = Some(slice_to_vec(pair.1.as_slice()));
            Ok(pair)
        },
        Err(e) => Err(e),
    }
}

/// The pair that the state directory holds, or, if it holds no
/// certificate, a newly generated pair for the given names, which is put
/// into the directory.
pub fn load_or_generate(dir: &mut StateDir, names: &[&str]) -> (r: Result<KeyPair, ErrorKind>)
    ensures
        bootstrapped(all_ascii(strs_view(names@)), old(dir)@, final(dir)@, pair_view(r)),
        old(dir)@.cert is None ==> (r matches Ok(pair) ==> fresh_pair(pair.0@, pair.1@)),
{
    match load(dir) {
        Ok(Some(pair)) => Ok(pair),
        Ok(None) => store(dir, generate_server_certs(names)),
        Err(e) => Err(e),
    }
}

/// The server's certificate and key: those that the state directory
/// holds, as they are and without a look at what they say; or, on the first
/// call, a new pair for the given names, which the directory holds from
/// then on.
pub fn server(state_dir: &mut StateDir, names: &[&str]) -> (r: Result<KeyPair, ErrorKind>)
    ensures
        bootstrapped(all_ascii(strs_view(names@)), old(state_dir)@, final(state_dir)@, pair_view(r)),
        old(state_dir)@.cert is None ==> (r matches Ok(pair) ==> fresh_pair(pair.0@, pair.1@)),
{
    load_or_generate(state_dir, names)
}

/// Asking twice gives the same: once the server's key material was
/// returned for a state directory, every later call on that directory
/// returns the same certificate and key, whatever names it asks for, and
/// leaves the directory as it is.
pub proof fn lemma_bootstrap_idempotent(
    first_names_ascii: bool,
    names_ascii: bool,
    before: Dir,
    between: Dir,
    after: Dir,
    first: Result<(Seq<u8>, Seq<u8>), ErrorKind>,
    second: Result<(Seq<u8>, Seq<u8>), ErrorKind>,
)
    requires
        bootstrapped(first_names_ascii, before, between, first),
        first is Ok,
        bootstrapped(names_ascii, between, after, second),
    ensures
        second == first,
        after == between,
{
}

} // verus!
