use vstd::prelude::*;
use vstd::slice::{slice_subrange, slice_to_vec};
use vstd::utf8::{decode_utf8, is_ascii_chars_encode_utf8};
use crate::endpoint::{
    all_trust_anchors, chain_view, copy_chain, first_address, server_endpoint,
    server_key_accepted, EndpointSettings, Identity, SocketAddress,
};
use crate::error::ErrorKind;
use crate::frame::{
    extension_tag, frame_bytes, frame_complete, frame_rest, header_tag, is_extension_tag,
    lemma_frame_round_trip, same_tag, Frame, HeaderHeader, TAG_CON1, TAG_ERRM, TAG_OKAY,
    TAG_PING, TAG_PONG,
};
use crate::wire::{
    error_body, establish_address_bytes, establish_well_formed, parse_establish, write_error,
    PROTOCOL_TCP,
};

verus! {

/// The server's key material: its private key and its certificate chain,
/// each in DER.
#[derive(Clone, Debug, PartialEq, Eq)]
pub struct Certs {
    pub server_key: Vec<u8>,
    pub server_chain: Vec<Vec<u8>>,
}

/// The one application protocol of the tunnel: `hq-29`.
pub open spec fn spec_alpn() -> Seq<Seq<u8>> {
    seq![seq![0x68u8, 0x71u8, 0x2du8, 0x32u8, 0x39u8]]
}

/// The application protocols that both sides offer: `hq-29` and no other.
pub fn alpn_protocols() -> (r: Vec<Vec<u8>>)
    ensures
        chain_view(r@) == spec_alpn(),
{
    let mut name: Vec<u8> = Vec::new();
    name.push(0x68);
    name.push(0x71);
    name.push(0x2d);
    name.push(0x32);
    name.push(0x39);
    let mut r: Vec<Vec<u8>> = Vec::new();
    r.push(name);
    assert(chain_view(r@)[0] =~= spec_alpn()[0]);
    assert(chain_view(r@) =~= spec_alpn());
    r
}

/// The server's endpoint. It presents its chain with its key, accepts only
/// clients whose certificate chains to one of its own certificates, offers
/// `hq-29`, and validates addresses with a retry token.
pub fn server_settings(certs: &Certs) -> (r: EndpointSettings)
    ensures
        r.identity == Identity::ServerIdentity,
        chain_view(r.root_anchors@) == chain_view(certs.server_chain@),
        chain_view(r.own_chain@) == chain_view(certs.server_chain@),
        r.own_key@ == certs.server_key@,
        chain_view(r.alpn@) == spec_alpn(),
        r.require_peer_cert,
        r.use_retry,
{
    EndpointSettings {
        identity: Identity::ServerIdentity,
        root_anchors: copy_chain(&certs.server_chain),
        own_chain: copy_chain(&certs.server_chain),
        own_key: slice_to_vec(certs.server_key.as_slice()),
        alpn: alpn_protocols(),
        require_peer_cert: true,
        use_retry: true,
    }
}

/// The server's endpoint as quinn takes it, made of `server_settings`. It
/// is there if every certificate of the chain can be a trust anchor and the
/// key can be read; else the call fails with `Crypto`.
pub fn server_config(certs: &Certs) -> (r: Result<quinn::ServerConfig, ErrorKind>)
    ensures
        r is Ok <==> all_trust_anchors(chain_view(certs.server_chain@)) && server_key_accepted(
            certs.server_key@,
        ),
        r matches Err(e) ==> e == ErrorKind::Crypto,
{
    server_endpoint(&server_settings(certs))
}

/// Where the handling of one stream stands.
#[derive(Clone, Copy, Debug, PartialEq, Eq, Structural)]
pub enum StreamState {
    /// Answering the client's frames until it asks for a connection.
    Control,
    /// Opening the connection asked for: first the target's name is
    /// resolved, then the first address is dialled.
    Dialing { resolved: bool },
    /// Copying bytes both ways.
    Relaying,
    /// Finishing the send side of the stream.
    Draining,
    /// Nothing more happens on this stream.
    Done,
}

/// What has happened on a stream, as its driver reports it.
#[derive(Clone, Debug, PartialEq, Eq)]
pub enum StreamEvent {
    /// A whole frame arrived from the client.
    Frame(Frame),
    /// Name resolution ended with these addresses.
    Resolved(Vec<SocketAddress>),
    /// The connection to the target is open.
    Connected,
    /// Both copies have ended.
    Relayed,
    /// The send side of the stream is finished.
    Finished,
    /// Reading, resolving, dialling, copying or finishing failed.
    Failed(ErrorKind),
}

/// What the driver of a stream is to do next. What is to be sent to the
/// client beforehand is handed over apart from this.
#[derive(Clone, Copy, Debug, PartialEq, Eq)]
pub enum StreamAction {
    /// Read the next frame from the client.
    ReadFrame,
    /// Resolve the handler's target.
    Resolve,
    /// Open a TCP socket of this address's family and connect it.
    Connect(SocketAddress),
    /// Copy bytes both ways until both directions have ended.
    Relay,
    /// Finish the send side of the stream.
    Finish,
    /// Let go of the stream: it has ended, with this error if it failed.
    Close(Option<ErrorKind>),
}

/// The outcome of one step.
pub ghost struct Step {
    /// The state after the step.
    pub state: StreamState,
    /// The target after the step.
    pub target: Seq<char>,
    /// What the driver is to do next.
    pub action: StreamAction,
    /// What is to be sent to the client first.
    pub sent: Seq<u8>,
}

/// The step that ends a stream with an error.
pub open spec fn failed_step(target: Seq<char>, kind: ErrorKind) -> Step {
    Step {
        state: StreamState::Done,
        target,
        action: StreamAction::Close(Some(kind)),
        sent: Seq::empty(),
    }
}

/// The code of the `errm` frame that tells the client why the connection
/// that it asked for was not opened: 2 for a protocol other than TCP, 3 for
/// a target without an address, 4 for every other failure.
pub open spec fn refusal_code(kind: ErrorKind) -> int {
    match kind {
        ErrorKind::UnsupportedProtocol => 2,
        ErrorKind::ResolutionEmpty => 3,
        _ => 4,
    }
}

/// The message of the `errm` frame that tells the client why the
/// connection that it asked for was not opened.
pub open spec fn refusal_message(kind: ErrorKind) -> Seq<char> {
    match kind {
        ErrorKind::UnsupportedProtocol => "unsupported protocol"@,
        ErrorKind::ResolutionEmpty => "no address for target"@,
        _ => "connection failed"@,
    }
}

/// The `errm` frame that tells the client why the connection that it asked
/// for was not opened.
pub open spec fn refusal(kind: ErrorKind) -> Seq<u8> {
    frame_bytes(TAG_ERRM@, error_body(refusal_code(kind), refusal_message(kind)))
}

/// The step that ends a stream because the connection asked for was not
/// opened: the client is told why before the stream is let go.
pub open spec fn refused_step(target: Seq<char>, kind: ErrorKind) -> Step {
    Step {
        state: StreamState::Done,
        target,
        action: StreamAction::Close(Some(kind)),
        sent: refusal(kind),
    }
}

/// The message of the `errm` frame that answers a frame which is neither
/// `ping` nor `con1`.
pub open spec fn unrecognised_message() -> Seq<char> {
    "unrecognised frame"@
}

/// The step for a frame that arrives in `Control`.
///
/// A `ping` is answered by a `pong` with the same token of eight bytes, and
/// a `ping` too short to hold a token ends the stream as `Malformed`. A
/// `con1` for TCP sets the target and starts dialling; one whose body has
/// not the required shape ends the stream as `Malformed`, and one for
/// another protocol is refused as `UnsupportedProtocol`. An extension frame
/// is passed over. Every other frame is answered by an `errm` frame with
/// code 1.
pub open spec fn control_step(tag: Seq<u8>, body: Seq<u8>, target: Seq<char>) -> Step {
    if tag == TAG_PING@ {
        if body.len() >= 8 {
            Step {
                state: StreamState::Control,
                target,
                action: StreamAction::ReadFrame,
                sent: frame_bytes(TAG_PONG@, body.take(8)),
            }
        } else {
            failed_step(target, ErrorKind::Malformed)
        }
    } else if tag == TAG_CON1@ {
        if !establish_well_formed(body) {
            failed_step(target, ErrorKind::Malformed)
        } else if body[0] != PROTOCOL_TCP {
            refused_step(target, ErrorKind::UnsupportedProtocol)
        } else {
            Step {
                state: StreamState::Dialing { resolved: false },
                target: decode_utf8(establish_address_bytes(body)),
                action: StreamAction::Resolve,
                sent: Seq::empty(),
            }
        }
    } else if is_extension_tag(tag) {
        Step {
            state: StreamState::Control,
            target,
            action: StreamAction::ReadFrame,
            sent: Seq::empty(),
        }
    } else {
        Step {
            state: StreamState::Control,
            target,
            action: StreamAction::ReadFrame,
            sent: frame_bytes(TAG_ERRM@, error_body(1, unrecognised_message())),
        }
    }
}

/// The step that a stream in `state` takes on `event`.
///
/// A stream that is `Done` stays so. A failure ends the stream with the
/// failure's kind; while the stream is dialling the client is told of it
/// by an `errm` frame first. Otherwise each state awaits one kind of event:
/// `Control` a frame, `Dialing` first the addresses, of which the first is
/// dialled (none is refused as `ResolutionEmpty`), then the open
/// connection, on which `okay` is sent and the relay starts; `Relaying` the
/// end of both copies; `Draining` the finished send side. Any other event
/// ends the stream as `UnexpectedFrame`.
pub open spec fn stream_step(state: StreamState, target: Seq<char>, event: StreamEvent) -> Step {
    if state == StreamState::Done {
        Step { state, target, action: StreamAction::Close(None), sent: Seq::empty() }
    } else {
        match event {
            StreamEvent::Failed(kind) => if state is Dialing {
                refused_step(target, kind)
            } else {
                failed_step(target, kind)
            },
            StreamEvent::Frame(frame) => if state == StreamState::Control {
                control_step(frame.four_cc@, frame.body@, target)
            } else {
                failed_step(target, ErrorKind::UnexpectedFrame)
            },
            StreamEvent::Resolved(addresses) => if state != (StreamState::Dialing {
                resolved: false,
            }) {
                failed_step(target, ErrorKind::UnexpectedFrame)
            } else if addresses@.len() == 0 {
                refused_step(target, ErrorKind::ResolutionEmpty)
            } else {
                Step {
                    state: StreamState::Dialing { resolved: true },
                    target,
                    action: StreamAction::Connect(addresses@[0]),
                    sent: Seq::empty(),
                }
            },
            StreamEvent::Connected => if state == (StreamState::Dialing { resolved: true }) {
                Step {
                    state: StreamState::Relaying,
                    target,
                    action: StreamAction::Relay,
                    sent: frame_bytes(TAG_OKAY@, Seq::<u8>::empty()),
                }
            } else {
                failed_step(target, ErrorKind::UnexpectedFrame)
            },
            StreamEvent::Relayed => if state == StreamState::Relaying {
                Step {
                    state: StreamState::Draining,
                    target,
                    action: StreamAction::Finish,
                    sent: Seq::empty(),
                }
            } else {
                failed_step(target, ErrorKind::UnexpectedFrame)
            },
            StreamEvent::Finished => if state == StreamState::Draining {
                Step {
                    state: StreamState::Done,
                    target,
                    action: StreamAction::Close(None),
                    sent: Seq::empty(),
                }
            } else {
                failed_step(target, ErrorKind::UnexpectedFrame)
            },
        }
    }
}

/// The handling of one stream on the server: its state, and the target
/// that the client asked for once it has.
#[derive(Debug)]
pub struct StreamHandler {
    pub state: StreamState,
    pub target: String,
}

impl StreamHandler {
    /// A handler for a stream that was just accepted: the first thing to do
    /// is to read a frame.
    pub fn new() -> (r: Self)
        ensures
            r.state == StreamState::Control,
            r.target@ == Seq::<char>::empty(),
    {
        StreamHandler { state: StreamState::Control, target: String::new() }
    }

    fn fail(&mut self, kind: ErrorKind) -> (action: StreamAction)
        ensures
            final(self).state == StreamState::Done,
            final(self).target@ == old(self).target@,
            action == StreamAction::Close(Some(kind)),
    {
        self.state = StreamState::Done;
        StreamAction::Close(Some(kind))
    }

    fn refuse(&mut self, kind: ErrorKind, to_client: &mut Vec<u8>) -> (action: StreamAction)
        ensures
            final(self).state == StreamState::Done,
            final(self).target@ == old(self).target@,
            action == StreamAction::Close(Some(kind)),
            final(to_client)@ == old(to_client)@ + refusal(kind),
    {
        match kind {
            ErrorKind::UnsupportedProtocol => {
                let msg = "unsupported protocol";
                proof {
                    reveal_strlit("unsupported protocol");
                    is_ascii_chars_encode_utf8(msg@);
                }
                write_error(to_client, 2, msg);
            },
            ErrorKind::ResolutionEmpty => {
                let msg = "no address for target";
                proof {
                    reveal_strlit("no address for target");
                    is_ascii_chars_encode_utf8(msg@);
                }
                write_error(to_client, 3, msg);
            },
            _ => {
                let msg = "connection failed";
                proof {
                    reveal_strlit("connection failed");
                    is_ascii_chars_encode_utf8(msg@);
                }
                write_error(to_client, 4, msg);
            },
        }
        self.fail(kind)
    }

    fn on_frame(&mut self, frame: &Frame, to_client: &mut Vec<u8>) -> (action: StreamAction)
        requires
            old(self).state == StreamState::Control,
        ensures
            ({
                let step = control_step(frame.four_cc@, frame.body@, old(self).target@);
                &&& final(self).state == step.state
                &&& final(self).target@ == step.target
                &&& action == step.action
                &&& final(to_client)@ == old(to_client)@ + step.sent
            }),
    {
        if same_tag(&frame.four_cc, &TAG_PING) {
            if frame.body.len() < 8 {
                return self.fail(ErrorKind::Malformed);
            }
            HeaderHeader::pong().write_all(to_client);
            to_client.extend_from_slice(slice_subrange(frame.body.as_slice(), 0, 8));
            assert(to_client@ =~= old(to_client)@ + frame_bytes(TAG_PONG@, frame.body@.take(8)));
            StreamAction::ReadFrame
        } else if same_tag(&frame.four_cc, &TAG_CON1) {
            match parse_establish(frame.body.as_slice()) {
                Ok(establish) => {
                    if establish.protocol != PROTOCOL_TCP {
                        return self.refuse(ErrorKind::UnsupportedProtocol, to_client);
                    }
                    self.target = establish.address_port;
                    self.state = StreamState::Dialing { resolved: false };
                    StreamAction::Resolve
                },
                Err(e) => self.fail(e),
            }
        } else if extension_tag(&frame.four_cc) {
            StreamAction::ReadFrame
        } else {
            let msg = "unrecognised frame";
            proof {
                reveal_strlit("unrecognised frame");
                is_ascii_chars_encode_utf8(msg@);
            }
            write_error(to_client, 1, msg);
            StreamAction::ReadFrame
        }
    }

    /// Takes one step: moves to the next state, appends to `to_client` what
    /// is to be sent to the client, and says what to do next.
    pub fn step(&mut self, event: StreamEvent, to_client: &mut Vec<u8>) -> (action: StreamAction)
        ensures
            ({
                let step = stream_step(old(self).state, old(self).target@, event);
                &&& final(self).state == step.state
                &&& final(self).target@ == step.target
                &&& action == step.action
                &&& final(to_client)@ == old(to_client)@ + step.sent
            }),
    {
        if let StreamState::Done = self.state {
            return StreamAction::Close(None);
        }
        match event {
            StreamEvent::Failed(kind) => {
                if let StreamState::Dialing { resolved: _ } = self.state {
                    self.refuse(kind, to_client)
                } else {
                    self.fail(kind)
                }
            },
            StreamEvent::Frame(frame) => {
                if let StreamState::Control = self.state {
                    self.on_frame(&frame, to_client)
                } else {
                    self.fail(ErrorKind::UnexpectedFrame)
                }
            },
            StreamEvent::Resolved(addresses) => {
                if let StreamState::Dialing { resolved: false } = self.state {
                    match first_address(&addresses) {
                        Ok(address) => {
                            self.state = StreamState::Dialing { resolved: true };
                            StreamAction::Connect(address)
                        },
                        Err(e) => self.refuse(e, to_client),
                    }
                } else {
                    self.fail(ErrorKind::UnexpectedFrame)
                }
            },
            StreamEvent::Connected => {
                if let StreamState::Dialing { resolved: true } = self.state {
                    HeaderHeader::empty(TAG_OKAY).write_all(to_client);
                    assert(to_client@ =~= old(to_client)@ + frame_bytes(
                        TAG_OKAY@,
                        Seq::<u8>::empty(),
                    ));
                    self.state = StreamState::Relaying;
                    StreamAction::Relay
                } else {
                    self.fail(ErrorKind::UnexpectedFrame)
                }
            },
            StreamEvent::Relayed => {
                if let StreamState::Relaying = self.state {
                    self.state = StreamState::Draining;
                    StreamAction::Finish
                } else {
                    self.fail(ErrorKind::UnexpectedFrame)
                }
            },
            StreamEvent::Finished => {
                if let StreamState::Draining = self.state {
                    self.state = StreamState::Done;
                    StreamAction::Close(None)
                } else {
                    self.fail(ErrorKind::UnexpectedFrame)
                }
            },
        }
    }
}

/// How far along a state is on the way from `Control` to `Done`.
pub open spec fn state_rank(state: StreamState) -> nat {
    match state {
        StreamState::Control => 0,
        StreamState::Dialing { resolved: false } => 1,
        StreamState::Dialing { resolved: true } => 2,
        StreamState::Relaying => 3,
        StreamState::Draining => 4,
        StreamState::Done => 5,
    }
}

/// A stream never goes back: a step leaves it where it is or takes it
/// further along the way from `Control` to `Done`. `Done` is the end: from
/// there no step leads away and none sends anything.
pub proof fn lemma_stream_advances(state: StreamState, target: Seq<char>, event: StreamEvent)
    ensures
        state_rank(stream_step(state, target, event).state) >= state_rank(state),
        state == StreamState::Done ==> stream_step(state, target, event).state
            == StreamState::Done && stream_step(state, target, event).sent.len() == 0,
{
}

/// The relay starts in one way only: the connection to the target is open
/// while the stream is dialling, and `okay` is what is sent then. Nothing
/// is ever sent but in `Control`, at that moment, and where the stream ends
/// because the connection asked for was not opened.
pub proof fn lemma_relay_follows_okay(state: StreamState, target: Seq<char>, event: StreamEvent)
    ensures
        stream_step(state, target, event).state == StreamState::Relaying ==> state == (
        StreamState::Dialing { resolved: true }) && event == StreamEvent::Connected
            && stream_step(state, target, event).sent == frame_bytes(
            TAG_OKAY@,
            Seq::<u8>::empty(),
        ),
        stream_step(state, target, event).sent.len() > 0 ==> state == StreamState::Control
            || stream_step(state, target, event).state == StreamState::Relaying || (
        state is Dialing && stream_step(state, target, event).state == StreamState::Done),
{
}

/// A client whose connection is not opened is told so: a target without
/// an address and every failure while the stream is dialling end the stream
/// with an `errm` frame whose code is not zero.
pub proof fn lemma_refusal_is_told(state: StreamState, target: Seq<char>, event: StreamEvent)
    requires
        state is Dialing,
        stream_step(state, target, event).action matches StreamAction::Close(Some(kind))
            && kind != ErrorKind::UnexpectedFrame,
    ensures
        stream_step(state, target, event).action matches StreamAction::Close(Some(kind))
            && stream_step(state, target, event).sent == refusal(kind) && refusal_code(kind) != 0,
{
}

/// A refusal is exactly one whole frame.
pub proof fn lemma_refusal_is_a_frame(kind: ErrorKind)
    ensures
        frame_complete(refusal(kind)),
        header_tag(refusal(kind)) == TAG_ERRM@,
        frame_rest(refusal(kind)).len() == 0,
{
    reveal_strlit("unsupported protocol");
    reveal_strlit("no address for target");
    reveal_strlit("connection failed");
    is_ascii_chars_encode_utf8(refusal_message(kind));
    lemma_frame_round_trip(
        TAG_ERRM@,
        error_body(refusal_code(kind), refusal_message(kind)),
        Seq::<u8>::empty(),
    );
    assert(refusal(kind) + Seq::<u8>::empty() =~= refusal(kind));
}

/// What the server sends in `Control` keeps the framing: the answer to a
/// frame is nothing at all or exactly one whole frame.
pub proof fn lemma_control_answers_in_frames(tag: Seq<u8>, body: Seq<u8>, target: Seq<char>)
    ensures
        control_step(tag, body, target).sent.len() == 0 || (frame_complete(
            control_step(tag, body, target).sent,
        ) && frame_rest(control_step(tag, body, target).sent).len() == 0),
{
    if tag == TAG_PING@ {
        if body.len() >= 8 {
            lemma_frame_round_trip(TAG_PONG@, body.take(8), Seq::<u8>::empty());
        }
    } else if tag == TAG_CON1@ {
        lemma_refusal_is_a_frame(ErrorKind::UnsupportedProtocol);
    } else if !is_extension_tag(tag) {
        reveal_strlit("unrecognised frame");
        is_ascii_chars_encode_utf8(unrecognised_message());
        lemma_frame_round_trip(
            TAG_ERRM@,
            error_body(1, unrecognised_message()),
            Seq::<u8>::empty(),
        );
    }
}

/// Whatever a step sends keeps the framing: it is nothing at all or exactly
/// one whole frame.
pub proof fn lemma_step_sends_frames(state: StreamState, target: Seq<char>, event: StreamEvent)
    ensures
        stream_step(state, target, event).sent.len() == 0 || (frame_complete(
            stream_step(state, target, event).sent,
        ) && frame_rest(stream_step(state, target, event).sent).len() == 0),
{
    let sent = stream_step(state, target, event).sent;
    if state != StreamState::Done {
        match event {
            StreamEvent::Frame(frame) => {
                lemma_control_answers_in_frames(frame.four_cc@, frame.body@, target);
            },
            StreamEvent::Failed(kind) => {
                lemma_refusal_is_a_frame(kind);
            },
            StreamEvent::Resolved(_) => {
                lemma_refusal_is_a_frame(ErrorKind::ResolutionEmpty);
            },
            StreamEvent::Connected => {
                lemma_frame_round_trip(TAG_OKAY@, Seq::<u8>::empty(), Seq::<u8>::empty());
                assert(sent + Seq::<u8>::empty() =~= sent);
            },
            _ => {},
        }
    }
}

/// What waiting for the next stream of a connection gave.
#[derive(Clone, Copy, Debug, PartialEq, Eq, Structural)]
pub enum ConnectionEvent {
    /// The handshake did not succeed.
    HandshakeFailed,
    /// The client opened a stream.
    Stream,
    /// The client closed the connection.
    ApplicationClosed,
    /// The connection broke.
    Failed,
}

/// What the driver of a connection is to do next.
#[derive(Clone, Copy, Debug, PartialEq, Eq, Structural)]
pub enum ConnectionAction {
    /// Hand the stream to a handler of its own and wait for the next.
    Handle,
    /// Let go of the connection: it has ended, with this error if it
    /// failed.
    End(Option<ErrorKind>),
}

/// The step that a connection takes on an event. Each stream gets a
/// handler of its own, so that what happens on one stream does not reach
/// another. A connection that the client closes has ended well; a failed
/// handshake is `Crypto`, a broken connection `Io`.
pub fn connection_step(event: ConnectionEvent) -> (action: ConnectionAction)
    ensures
        action == (match event {
            ConnectionEvent::HandshakeFailed => ConnectionAction::End(Some(ErrorKind::Crypto)),
            ConnectionEvent::Stream => ConnectionAction::Handle,
            ConnectionEvent::ApplicationClosed => ConnectionAction::End(None),
            ConnectionEvent::Failed => ConnectionAction::End(Some(ErrorKind::Io)),
        }),
{
    match event {
        ConnectionEvent::HandshakeFailed => ConnectionAction::End(Some(ErrorKind::Crypto)),
        ConnectionEvent::Stream => ConnectionAction::Handle,
        ConnectionEvent::ApplicationClosed => ConnectionAction::End(None),
        ConnectionEvent::Failed => ConnectionAction::End(Some(ErrorKind::Io)),
    }
}

} // verus!
