use vstd::prelude::*;
use vstd::slice::slice_to_vec;
use crate::certs::{csr_acceptable, mint_client, parse_client, signing_key_usable};
use crate::endpoint::{is_trust_anchor, SocketAddress};
use crate::error::ErrorKind;
use crate::package::{package_of_text, write_package, ClientCerts};

verus! {

/// What the program was asked to do.
#[derive(Clone, Debug, PartialEq, Eq)]
pub struct Cli {
    pub command: Command,
}

/// The operations of the program.
#[derive(Clone, Debug, PartialEq, Eq)]
pub enum Command {
    /// On the server: sign a client's request and print the package.
    Issue(Issue),
    /// On the client: generate a key and a request to sign.
    GenClient(GenClient),
    /// On the client: connect to a server and proxy local listeners.
    Connect(Connect),
    /// On the server: accept clients.
    Serve(Serve),
}

/// Nothing is asked of the key generation.
#[derive(Clone, Debug, PartialEq, Eq)]
pub struct GenClient {}

/// The request to sign, in DER.
#[derive(Clone, Debug, PartialEq, Eq)]
pub struct Issue {
    pub csr: Vec<u8>,
}

/// The server to connect to, the local addresses to listen on, and the
/// targets that the server is to dial for them.
#[derive(Clone, Debug, PartialEq, Eq)]
pub struct Connect {
    pub server: String,
    pub source: Vec<String>,
    pub target: Vec<String>,
}

/// The address that the server binds.
#[derive(Clone, Debug, PartialEq, Eq)]
pub struct Serve {
    pub bind_address: String,
}

/// The address that the server binds where none is given: every address of
/// the machine, on the port 60010.
pub const DEFAULT_BIND_ADDRESS: &'static str = "[::]:60010";

impl Serve {
    /// To serve on the default address.
    pub fn new() -> (r: Self)
        ensures
            r.bind_address@ == DEFAULT_BIND_ADDRESS@,
    {
        Serve { bind_address: DEFAULT_BIND_ADDRESS.to_owned() }
    }
}

impl Connect {
    /// Each local address to listen on with the target that the server is
    /// to dial for it. One source with one target is taken; any other
    /// number of sources or targets is `Malformed`.
    pub fn mappings(&self) -> (r: Result<Vec<(String, String)>, ErrorKind>)
        ensures
            match r {
                Ok(pairs) => self.source@.len() == 1 && self.target@.len() == 1 && pairs@.len() == 1
                    && pairs@[0].0@ == self.source@[0]@ && pairs@[0].1@ == self.target@[0]@,
                Err(e) => e == ErrorKind::Malformed && !(self.source@.len() == 1
                    && self.target@.len() == 1),
            },
    {
        if self.source.len() == 1 && self.target.len() == 1 {
            let mut pairs: Vec<(String, String)> = Vec::new();
            pairs.push((self.source[0].clone(), self.target[0].clone()));
            Ok(pairs)
        } else {
            Err(ErrorKind::Malformed)
        }
    }
}

/// The address to bind, of those that the address to serve on resolved to:
/// there must be exactly one. None is `ResolutionEmpty`; more than one is
/// `Malformed`.
pub fn single_address(addresses: &Vec<SocketAddress>) -> (r: Result<SocketAddress, ErrorKind>)
    ensures
        match r {
            Ok(address) => addresses@.len() == 1 && address == addresses@[0],
            Err(e) => if addresses@.len() == 0 {
                e == ErrorKind::ResolutionEmpty
            } else {
                e == ErrorKind::Malformed && addresses@.len() > 1
            },
        },
{
    if addresses.len() == 1 {
        Ok(addresses[0])
    } else if addresses.len() == 0 {
        Err(ErrorKind::ResolutionEmpty)
    } else {
        Err(ErrorKind::Malformed)
    }
}

/// Signs the request with the server's key and packs the certificate
/// together with the server's own into the text of a package. The package
/// holds a client's certificate that has bytes and can be read, and no key:
/// the client's key has stayed with the client.
///
/// A request that cannot be signed is `BadCsr`. After that, a key that
/// cannot be used and a failed signature are `Crypto`, and a certificate
/// too long for a package is `Malformed`.
pub fn issue(ca_cert: &[u8], ca_key: &[u8], args: &Issue) -> (r: Result<String, ErrorKind>)
    ensures
        match r {
            Ok(text) => csr_acceptable(args.csr@) && signing_key_usable(ca_key@) && (
            package_of_text(text@) matches Ok(package) && package.server_cert == ca_cert@
                && package.client_cert.len() > 0 && is_trust_anchor(package.client_cert)
                && package.client_key is None),
            Err(e) => if !csr_acceptable(args.csr@) {
                e == ErrorKind::BadCsr
            } else {
                e == ErrorKind::Crypto || e == ErrorKind::Malformed
            },
        },
{
    let csr = match parse_client(args.csr.as_slice()) {
        Ok(csr) => csr,
        Err(e) => { return Err(e); },
    };
    let client_cert = match mint_client(ca_key, &csr) {
        Ok(client_cert) => client_cert,
        Err(e) => { return Err(e); },
    };
    let package = ClientCerts { server_cert: slice_to_vec(ca_cert), client_cert, client_key: None };
    write_package(&package)
}

} // verus!
