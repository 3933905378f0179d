use vstd::prelude::*;
use vstd::slice::slice_to_vec;
use vstd::utf8::encode_utf8;
use crate::endpoint::{
    chain_view, client_endpoint, client_key_accepted, is_trust_anchor, EndpointSettings,
    Identity, SocketAddress,
};
use crate::error::ErrorKind;
use crate::frame::{
    extension_tag, frame_bytes, header_len, header_tag, is_extension_tag, HeaderHeader, TAG_CON1,
    TAG_OKAY,
};
use crate::package::ClientCerts;
use crate::reader::ByteReader;
use crate::server::{alpn_protocols, spec_alpn};
use crate::wire::{establish_body, read_okay, write_establish, Establish, PROTOCOL_TCP};

verus! {

/// The client's endpoint. It trusts the server's certificate from the
/// package and no other, presents its own certificate with its key, and
/// offers `hq-29`. A package without the client's key cannot be used to
/// connect: the call then fails with `MissingField`.
pub fn client_settings(certs: &ClientCerts) -> (r: Result<EndpointSettings, ErrorKind>)
    ensures
        match r {
            Ok(s) => certs.client_key is Some && s.identity == Identity::ClientIdentity
                && chain_view(s.root_anchors@) == seq![certs.server_cert@] && chain_view(
                s.own_chain@,
            ) == seq![certs.client_cert@] && s.own_key@ == certs.client_key->0@ && chain_view(
                s.alpn@,
            ) == spec_alpn() && s.require_peer_cert && !s.use_retry,
            Err(e) => e == ErrorKind::MissingField && certs.client_key is None,
        },
{
    let own_key = match &certs.client_key {
        Some(key) => slice_to_vec(key.as_slice()),
        None => { return Err(ErrorKind::MissingField); },
    };
    let mut root_anchors: Vec<Vec<u8>> = Vec::new();
    root_anchors.push(slice_to_vec(certs.server_cert.as_slice()));
    let mut own_chain: Vec<Vec<u8>> = Vec::new();
    own_chain.push(slice_to_vec(certs.client_cert.as_slice()));
    assert(chain_view(root_anchors@) =~= seq![certs.server_cert@]);
    assert(chain_view(own_chain@) =~= seq![certs.client_cert@]);
    Ok(
        EndpointSettings {
            identity: Identity::ClientIdentity,
            root_anchors,
            own_chain,
            own_key,
            alpn: alpn_protocols(),
            require_peer_cert: true,
            use_retry: false,
        },
    )
}

/// The client's endpoint as quinn takes it, made of `client_settings`. A
/// package without the client's key is `MissingField`. With the key, the
/// endpoint is there if the server's certificate can be a trust anchor and
/// the key can be read; else the call fails with `Crypto`.
pub fn client_config(certs: &ClientCerts) -> (r: Result<quinn::ClientConfig, ErrorKind>)
    ensures
        match certs.client_key {
            None => r matches Err(e) && e == ErrorKind::MissingField,
            Some(key) => (r is Ok <==> is_trust_anchor(certs.server_cert@) && client_key_accepted(
                key@,
            )) && (r matches Err(e) ==> e == ErrorKind::Crypto),
        },
{
    match client_settings(certs) {
        Ok(settings) => {
            assert(chain_view(settings.root_anchors@)[0] == certs.server_cert@);
            client_endpoint(&settings)
        },
        Err(e) => Err(e),
    }
}

/// The address that the client binds its endpoint to: every address of the
/// machine, IPv6 and IPv4 alike, on a port that the system picks.
pub fn wildcard_bind() -> (r: SocketAddress)
    ensures
        r == SocketAddress::V6([0, 0, 0, 0, 0, 0, 0, 0, 0, 0, 0, 0, 0, 0, 0, 0], 0),
{
    SocketAddress::V6([0, 0, 0, 0, 0, 0, 0, 0, 0, 0, 0, 0, 0, 0, 0, 0], 0)
}

/// The name under which the client expects the server's certificate.
pub const SERVER_NAME: &'static str = "localhost";

/// Where the handling of one proxied connection stands.
#[derive(Clone, Copy, Debug, PartialEq, Eq, Structural)]
pub enum ProxyState {
    /// Waiting for a new stream to the server.
    Opening,
    /// The request is sent; waiting for the server's `okay`.
    Establishing,
    /// Copying bytes both ways.
    Relaying,
    /// Nothing more happens for this connection.
    Done,
}

/// What has happened for a proxied connection, as its driver reports it.
#[derive(Clone, Debug, PartialEq, Eq)]
pub enum ProxyEvent {
    /// The stream to the server is open.
    Opened,
    /// These bytes came from the server: the six of a header, or fewer if
    /// the stream ended.
    Received(Vec<u8>),
    /// Both copies have ended.
    Relayed,
    /// Opening, writing, reading or copying failed.
    Failed(ErrorKind),
}

/// What the driver of a proxied connection is to do next. What is to be
/// sent to the server beforehand is handed over apart from this.
#[derive(Clone, Copy, Debug, PartialEq, Eq, Structural)]
pub enum ProxyAction {
    /// Read the six bytes of a header from the server.
    ReadHeader,
    /// Read this many bytes from the server and drop them, then read the
    /// six bytes of a header.
    Discard(usize),
    /// Copy bytes both ways until both directions have ended.
    Relay,
    /// Let go of the connection: it has ended, with this error if it failed.
    Close(Option<ErrorKind>),
}

/// The outcome of one step.
pub ghost struct ProxyStep {
    /// The state after the step.
    pub state: ProxyState,
    /// What the driver is to do next.
    pub action: ProxyAction,
    /// What is to be sent to the server first.
    pub sent: Seq<u8>,
}

/// The step that ends a proxied connection with an error.
pub open spec fn failed_proxy_step(kind: ErrorKind) -> ProxyStep {
    ProxyStep {
        state: ProxyState::Done,
        action: ProxyAction::Close(Some(kind)),
        sent: Seq::empty(),
    }
}

/// The step that a proxied connection in `state` takes on `event`, for a
/// request with this protocol byte and target.
///
/// A connection that is `Done` stays so. A failure ends the connection with
/// the failure's kind. Otherwise each state awaits one kind of event:
/// `Opening` the open stream, on which the `con1` frame is sent (a target of
/// more than 255 bytes is `Malformed`); `Establishing` the server's answer,
/// which must be a header with the tag `okay` (fewer than six bytes are
/// `ShortRead`, another tag is `UnexpectedFrame`), but for extension frames
/// before it, whose bodies are dropped; `Relaying` the end of both copies.
/// Any other event ends the connection as `UnexpectedFrame`.
pub open spec fn proxy_step(
    state: ProxyState,
    protocol: u8,
    target: Seq<char>,
    event: ProxyEvent,
) -> ProxyStep {
    if state == ProxyState::Done {
        ProxyStep { state, action: ProxyAction::Close(None), sent: Seq::empty() }
    } else {
        match event {
            ProxyEvent::Failed(kind) => failed_proxy_step(kind),
            ProxyEvent::Opened => if state != ProxyState::Opening {
                failed_proxy_step(ErrorKind::UnexpectedFrame)
            } else if encode_utf8(target).len() > 255 {
                failed_proxy_step(ErrorKind::Malformed)
            } else {
                ProxyStep {
                    state: ProxyState::Establishing,
                    action: ProxyAction::ReadHeader,
                    sent: frame_bytes(TAG_CON1@, establish_body(protocol, target)),
                }
            },
            ProxyEvent::Received(bytes) => if state != ProxyState::Establishing {
                failed_proxy_step(ErrorKind::UnexpectedFrame)
            } else if bytes@.len() < 6 {
                failed_proxy_step(ErrorKind::ShortRead)
            } else if header_tag(bytes@) == TAG_OKAY@ {
                ProxyStep {
                    state: ProxyState::Relaying,
                    action: ProxyAction::Relay,
                    sent: Seq::empty(),
                }
            } else if is_extension_tag(header_tag(bytes@)) {
                ProxyStep {
                    state: ProxyState::Establishing,
                    action: ProxyAction::Discard(header_len(bytes@) as usize),
                    sent: Seq::empty(),
                }
            } else {
                failed_proxy_step(ErrorKind::UnexpectedFrame)
            },
            ProxyEvent::Relayed => if state == ProxyState::Relaying {
                ProxyStep {
                    state: ProxyState::Done,
                    action: ProxyAction::Close(None),
                    sent: Seq::empty(),
                }
            } else {
                failed_proxy_step(ErrorKind::UnexpectedFrame)
            },
        }
    }
}

/// The handling of one connection that the client proxies: its state, and
/// the request that it makes of the server.
#[derive(Debug)]
pub struct ProxyHandler {
    pub state: ProxyState,
    pub establish: Establish,
}

impl ProxyHandler {
    /// A handler for a connection that was just accepted, to be tunnelled
    /// over TCP to `target`: the first thing to do is to open a stream.
    pub fn new(target: &str) -> (r: Self)
        ensures
            r.state == ProxyState::Opening,
            r.establish.protocol == PROTOCOL_TCP,
            r.establish.address_port@ == target@,
    {
        ProxyHandler {
            state: ProxyState::Opening,
            establish: Establish { protocol: PROTOCOL_TCP, address_port: target.to_owned() },
        }
    }

    fn fail(&mut self, kind: ErrorKind) -> (action: ProxyAction)
        ensures
            final(self).state == ProxyState::Done,
            final(self).establish == old(self).establish,
            action == ProxyAction::Close(Some(kind)),
    {
        self.state = ProxyState::Done;
        ProxyAction::Close(Some(kind))
    }

    /// Takes one step: moves to the next state, appends to `to_server` what
    /// is to be sent to the server, and says what to do next.
    pub fn step(&mut self, event: ProxyEvent, to_server: &mut Vec<u8>) -> (action: ProxyAction)
        ensures
            ({
                let step = proxy_step(
                    old(self).state,
                    old(self).establish.protocol,
                    old(self).establish.address_port@,
                    event,
                );
                &&& final(self).state == step.state
                &&& final(self).establish == old(self).establish
                &&& action == step.action
                &&& final(to_server)@ == old(to_server)@ + step.sent
            }),
    {
        if let ProxyState::Done = self.state {
            return ProxyAction::Close(None);
        }
        match event {
            ProxyEvent::Failed(kind) => self.fail(kind),
            ProxyEvent::Opened => {
                if let ProxyState::Opening = self.state {
                    match write_establish(to_server, &self.establish) {
                        Ok(_) => {
                            self.state = ProxyState::Establishing;
                            ProxyAction::ReadHeader
                        },
                        Err(e) => self.fail(e),
                    }
                } else {
                    self.fail(ErrorKind::UnexpectedFrame)
                }
            },
            ProxyEvent::Received(bytes) => {
                if let ProxyState::Establishing = self.state {
                    let mut reader = ByteReader::new(bytes.as_slice());
                    let mut ahead = reader.fork();
                    if let Ok(header) = HeaderHeader::from(&mut ahead) {
                        if extension_tag(&header.four_cc) {
                            return ProxyAction::Discard(header.data_len as usize);
                        }
                    }
                    match read_okay(&mut reader) {
                        Ok(_) => {
                            self.state = ProxyState::Relaying;
                            ProxyAction::Relay
                        },
                        Err(e) => self.fail(e),
                    }
                } else {
                    self.fail(ErrorKind::UnexpectedFrame)
                }
            },
            ProxyEvent::Relayed => {
                if let ProxyState::Relaying = self.state {
                    self.state = ProxyState::Done;
                    ProxyAction::Close(None)
                } else {
                    self.fail(ErrorKind::UnexpectedFrame)
                }
            },
        }
    }
}


/// How far along a state is on the way from `Opening` to `Done`.
pub open spec fn proxy_rank(state: ProxyState) -> nat {
    match state {
        ProxyState::Opening => 0,
        ProxyState::Establishing => 1,
        ProxyState::Relaying => 2,
        ProxyState::Done => 3,
    }
}

/// A proxied connection never goes back, and `Done` is the end. The relay
/// starts in one way only: the server has answered the request with `okay`.
/// Nothing is sent to the server by a step but the request itself.
pub proof fn lemma_proxy_advances(
    state: ProxyState,
    protocol: u8,
    target: Seq<char>,
    event: ProxyEvent,
)
    ensures
        proxy_rank(proxy_step(state, protocol, target, event).state) >= proxy_rank(state),
        state == ProxyState::Done ==> proxy_step(state, protocol, target, event).state
            == ProxyState::Done,
        proxy_step(state, protocol, target, event).state == ProxyState::Relaying ==> state
            == ProxyState::Establishing && (event matches ProxyEvent::Received(bytes)
            && bytes@.len() >= 6 && header_tag(bytes@) == TAG_OKAY@),
        proxy_step(state, protocol, target, event).sent.len() > 0 ==> state == ProxyState::Opening
            && proxy_step(state, protocol, target, event).sent == frame_bytes(
            TAG_CON1@,
            establish_body(protocol, target),
        ),
{
}

} // verus!
