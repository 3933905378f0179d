use std::sync::Arc;
use vstd::prelude::*;
use vstd::slice::slice_to_vec;
use crate::error::ErrorKind;

verus! {

/// An address that name resolution gave: an IP address and a port.
#[derive(Clone, Copy, Debug, PartialEq, Eq)]
pub enum SocketAddress {
    /// The four bytes of an IPv4 address, and the port.
    V4([u8; 4], u16),
    /// The sixteen bytes of an IPv6 address, and the port.
    V6([u8; 16], u16),
}

/// Which side of the connection an endpoint is.
#[derive(Clone, Copy, Debug, PartialEq, Eq, Structural)]
pub enum Identity {
    /// The side that accepts connections.
    ServerIdentity,
    /// The side that opens the connection.
    ClientIdentity,
}

/// How one side sets up its QUIC endpoint.
#[derive(Clone, Debug, PartialEq, Eq)]
pub struct EndpointSettings {
    pub identity: Identity,
    /// The certificates that the peer's certificate must chain to.
    pub root_anchors: Vec<Vec<u8>>,
    /// The certificates that this side presents.
    pub own_chain: Vec<Vec<u8>>,
    /// The private key to `own_chain`.
    pub own_key: Vec<u8>,
    /// The application protocols offered.
    pub alpn: Vec<Vec<u8>>,
    /// Whether the peer must present a certificate.
    pub require_peer_cert: bool,
    /// Whether a server validates a client's address with a retry token
    /// before it accepts the connection.
    pub use_retry: bool,
}

/// The certificates of a list, each as its bytes.
pub open spec fn chain_view(chain: Seq<Vec<u8>>) -> Seq<Seq<u8>> {
    Seq::new(chain.len(), |i: int| chain[i]@)
}

/// A copy of a list of certificates.
pub fn copy_chain(chain: &Vec<Vec<u8>>) -> (r: Vec<Vec<u8>>)
    ensures
        chain_view(r@) == chain_view(chain@),
{
    let mut r: Vec<Vec<u8>> = Vec::new();
    let mut i: usize = 0;
    while i < chain.len()
        invariant
            i <= chain.len(),
            r@.len() == i,
            forall|j: int| 0 <= j < i ==> r@[j]@ == chain@[j]@,
        decreases chain.len() - i,
    {
        r.push(slice_to_vec(chain[i].as_slice()));
        i = i + 1;
    }
    assert(chain_view(r@) =~= chain_view(chain@));
    r
}

/// The first of the addresses that name resolution gave, or
/// `ResolutionEmpty` if it gave none.
pub fn first_address(addresses: &Vec<SocketAddress>) -> (r: Result<SocketAddress, ErrorKind>)
    ensures
        match r {
            Ok(address) => addresses@.len() > 0 && address == addresses@[0],
            Err(e) => e == ErrorKind::ResolutionEmpty && addresses@.len() == 0,
        },
{
    if addresses.len() == 0 {
        Err(ErrorKind::ResolutionEmpty)
    } else {
        Ok(addresses[0])
    }
}

/// The trust anchors of rustls.
#[verifier::external_type_specification]
#[verifier::external_body]
pub struct ExRootCertStore(rustls::RootCertStore);

/// The TLS settings of a server in rustls.
#[verifier::external_type_specification]
#[verifier::external_body]
pub struct ExServerCrypto(rustls::ServerConfig);

/// The TLS settings of a client in rustls.
#[verifier::external_type_specification]
#[verifier::external_body]
pub struct ExClientCrypto(rustls::ClientConfig);

/// The error of rustls.
#[verifier::external_type_specification]
#[verifier::external_body]
pub struct ExTlsError(rustls::Error);

/// The settings of a server's endpoint in quinn.
#[verifier::external_type_specification]
#[verifier::external_body]
pub struct ExServerConfig(quinn::ServerConfig);

/// The settings of a client's endpoint in quinn.
#[verifier::external_type_specification]
#[verifier::external_body]
pub struct ExClientConfig(quinn::ClientConfig);

/// Whether rustls's `RootCertStore::add` takes these bytes as a trust
/// anchor: whether it can read them as a certificate.
pub uninterp spec fn is_trust_anchor(der: Seq<u8>) -> bool;

/// Whether `with_single_cert` of rustls's server builder takes these bytes
/// as a private key.
pub uninterp spec fn server_key_accepted(key: Seq<u8>) -> bool;

/// Whether `with_single_cert` of rustls's client builder takes these bytes
/// as a private key.
pub uninterp spec fn client_key_accepted(key: Seq<u8>) -> bool;

/// Whether every certificate of a list can be a trust anchor.
pub open spec fn all_trust_anchors(chain: Seq<Seq<u8>>) -> bool {
    forall|i: int| 0 <= i < chain.len() ==> is_trust_anchor(#[trigger] chain[i])
}

/// `RootCertStore::empty` of rustls: no trust anchor yet.
#[verifier::external_body]
fn empty_roots() -> (roots: rustls::RootCertStore) {
    rustls::RootCertStore::empty()
}

/// `RootCertStore::add` of rustls: takes a certificate as a trust anchor,
/// and says whether it did. It does not where the bytes cannot be read as a
/// certificate.
#[verifier::external_body]
fn add_root(roots: &mut rustls::RootCertStore, der: &Vec<u8>) -> (added: bool)
    ensures
        added == is_trust_anchor(der@),
{
    roots.add(&rustls::Certificate(der.clone())).is_ok()
}

/// The builder of `rustls::ServerConfig`, with rustls's safe defaults: the
/// server asks every client for a certificate under one of `roots`
/// (`AllowAnyAuthenticatedClient`), presents the chain of the settings with
/// their key (`with_single_cert`, which fails on a key that it cannot
/// read, and on nothing else), and offers their application protocols.
#[verifier::external_body]
fn server_crypto(roots: rustls::RootCertStore, settings: &EndpointSettings) -> (r: Result<
    rustls::ServerConfig,
    rustls::Error,
>)
    ensures
        r is Ok <==> server_key_accepted(settings.own_key@),
{
    let chain = settings.own_chain.iter().cloned().map(rustls::Certificate).collect();
    let mut crypto = rustls::ServerConfig::builder()
        .with_safe_defaults()
        .with_client_cert_verifier(rustls::server::AllowAnyAuthenticatedClient::new(roots))
        .with_single_cert(chain, rustls::PrivateKey(settings.own_key.clone()))?;
    crypto.alpn_protocols = settings.alpn.clone();
    Ok(crypto)
}

/// The builder of `rustls::ClientConfig`, with rustls's safe defaults: the
/// client takes a server's certificate under one of `roots` and no other,
/// presents the chain of the settings with their key (`with_single_cert`,
/// which fails on a key that it cannot read, and on nothing else), and
/// offers their application protocols.
#[verifier::external_body]
fn client_crypto(roots: rustls::RootCertStore, settings: &EndpointSettings) -> (r: Result<
    rustls::ClientConfig,
    rustls::Error,
>)
    ensures
        r is Ok <==> client_key_accepted(settings.own_key@),
{
    let chain = settings.own_chain.iter().cloned().map(rustls::Certificate).collect();
    let mut crypto = rustls::ClientConfig::builder()
        .with_safe_defaults()
        .with_root_certificates(roots)
        .with_single_cert(chain, rustls::PrivateKey(settings.own_key.clone()))?;
    crypto.alpn_protocols = settings.alpn.clone();
    Ok(crypto)
}

/// `ServerConfig::with_crypto` of quinn.
#[verifier::external_body]
fn quinn_server(crypto: rustls::ServerConfig) -> (config: quinn::ServerConfig) {
    quinn::ServerConfig::with_crypto(Arc::new(crypto))
}

/// `ServerConfig::use_retry` of quinn: whether the server validates a
/// client's address with a retry token.
#[verifier::external_body]
fn set_retry(config: &mut quinn::ServerConfig, value: bool) {
    config.use_retry(value);
}

/// `ClientConfig::new` of quinn.
#[verifier::external_body]
fn quinn_client(crypto: rustls::ClientConfig) -> (config: quinn::ClientConfig) {
    quinn::ClientConfig::new(Arc::new(crypto))
}

/// Whether rustls can read these bytes as a certificate: whether it would
/// take them as a trust anchor.
pub fn certificate_readable(der: &Vec<u8>) -> (r: bool)
    ensures
        r == is_trust_anchor(der@),
{
    let mut roots = empty_roots();
    add_root(&mut roots, der)
}

/// The trust anchors that hold each of these certificates. A certificate
/// that cannot be read is `Crypto`.
fn root_store(anchors: &Vec<Vec<u8>>) -> (r: Result<rustls::RootCertStore, ErrorKind>)
    ensures
        r is Ok <==> all_trust_anchors(chain_view(anchors@)),
        r matches Err(e) ==> e == ErrorKind::Crypto,
{
    let mut roots = empty_roots();
    let mut i: usize = 0;
    while i < anchors.len()
        invariant
            i <= anchors@.len(),
            forall|j: int| 0 <= j < i ==> is_trust_anchor(#[trigger] chain_view(anchors@)[j]),
        decreases anchors@.len() - i,
    {
        if !add_root(&mut roots, &anchors[i]) {
            assert(!is_trust_anchor(chain_view(anchors@)[i as int]));
            return Err(ErrorKind::Crypto);
        }
        i = i + 1;
    }
    Ok(roots)
}

/// The endpoint of a server with these settings, as quinn takes it. A
/// certificate or a key that cannot be read is `Crypto`.
pub(crate) fn server_endpoint(settings: &EndpointSettings) -> (r: Result<
    quinn::ServerConfig,
    ErrorKind,
>)
    requires
        settings.identity == Identity::ServerIdentity,
        settings.require_peer_cert,
    ensures
        r is Ok <==> all_trust_anchors(chain_view(settings.root_anchors@)) && server_key_accepted(
            settings.own_key@,
        ),
        r matches Err(e) ==> e == ErrorKind::Crypto,
{
    let roots = match root_store(&settings.root_anchors) {
        Ok(roots) => roots,
        Err(e) => { return Err(e); },
    };
    match server_crypto(roots, settings) {
        Ok(crypto) => {
            let mut config = quinn_server(crypto);
            set_retry(&mut config, settings.use_retry);
            Ok(config)
        },
        Err(_) => Err(ErrorKind::Crypto),
    }
}

/// The endpoint of a client with these settings, as quinn takes it. A
/// certificate or a key that cannot be read is `Crypto`.
pub(crate) fn client_endpoint(settings: &EndpointSettings) -> (r: Result<
    quinn::ClientConfig,
    ErrorKind,
>)
    requires
        settings.identity == Identity::ClientIdentity,
        settings.require_peer_cert,
    ensures
        r is Ok <==> all_trust_anchors(chain_view(settings.root_anchors@)) && client_key_accepted(
            settings.own_key@,
        ),
        r matches Err(e) ==> e == ErrorKind::Crypto,
{
    let roots = match root_store(&settings.root_anchors) {
        Ok(roots) => roots,
        Err(e) => { return Err(e); },
    };
    match client_crypto(roots, settings) {
        Ok(crypto) => Ok(quinn_client(crypto)),
        Err(_) => Err(ErrorKind::Crypto),
    }
}

} // verus!
