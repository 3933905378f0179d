use vstd::prelude::*;

verus! {

/// The ways in which an operation of this library, or of the program driving
/// it, can fail.
#[derive(Clone, Copy, Debug, PartialEq, Eq, Structural)]
pub enum ErrorKind {
    /// The byte source ended inside a header or a body.
    ShortRead,
    /// A file or socket operation failed.
    Io,
    /// Key generation, key loading or signing failed.
    Crypto,
    /// A frame body or a value to encode does not have the required shape.
    Malformed,
    /// A frame arrived whose tag the current state does not accept.
    UnexpectedFrame,
    /// A `data` frame announces more bytes than the receiver takes.
    OverlongData,
    /// A connection request names a protocol other than TCP.
    UnsupportedProtocol,
    /// Name resolution gave no address.
    ResolutionEmpty,
    /// A package does not start with the expected prefix.
    BadMagic,
    /// The text after a package's prefix is not base64.
    BadBase64,
    /// A package lacks a required record.
    MissingField,
    /// Bytes are no certificate signing request, or the request is one that
    /// cannot be written into a certificate.
    BadCsr,
}

} // verus!
