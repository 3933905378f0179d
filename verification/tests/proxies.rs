use qpipe::client::{
    client_settings, wildcard_bind, ProxyAction, ProxyEvent, ProxyHandler, ProxyState,
    SERVER_NAME,
};
use qpipe::endpoint::{EndpointSettings, Identity, SocketAddress};
use qpipe::error::ErrorKind;
use qpipe::package::ClientCerts;

fn established() -> ProxyHandler {
    let mut handler = ProxyHandler::new("example.com:80");
    let mut out = Vec::new();
    assert_eq!(handler.step(ProxyEvent::Opened, &mut out), ProxyAction::ReadHeader);
    handler
}

#[test]
fn proxy_asks_for_tcp() {
    let handler = ProxyHandler::new("example.com:443");
    assert_eq!(handler.state, ProxyState::Opening);
    assert_eq!(handler.establish.protocol, b't');
    assert_eq!(handler.establish.address_port, "example.com:443");
}

#[test]
fn proxy_walks_through() {
    let mut handler = ProxyHandler::new("example.com:80");
    let mut out = Vec::new();

    assert_eq!(handler.step(ProxyEvent::Opened, &mut out), ProxyAction::ReadHeader);
    assert_eq!(out, b"con1\x10\x00t\x0eexample.com:80".to_vec());
    assert_eq!(handler.state, ProxyState::Establishing);

    let mut out = Vec::new();
    let action = handler.step(ProxyEvent::Received(b"okay\x00\x00".to_vec()), &mut out);
    assert_eq!(action, ProxyAction::Relay);
    assert_eq!(handler.state, ProxyState::Relaying);

    assert_eq!(handler.step(ProxyEvent::Relayed, &mut out), ProxyAction::Close(None));
    assert_eq!(handler.state, ProxyState::Done);
    assert!(out.is_empty());
}

#[test]
fn proxy_refuses_a_long_target() {
    let target = "a".repeat(256);
    let mut handler = ProxyHandler::new(target.as_str());
    let mut out = Vec::new();
    assert_eq!(
        handler.step(ProxyEvent::Opened, &mut out),
        ProxyAction::Close(Some(ErrorKind::Malformed))
    );
    assert_eq!(handler.state, ProxyState::Done);
    assert!(out.is_empty());
}

#[test]
fn proxy_wants_okay() {
    let mut out = Vec::new();
    let mut handler = established();
    let answer = b"errm\x17\x00".to_vec();
    assert_eq!(
        handler.step(ProxyEvent::Received(answer), &mut out),
        ProxyAction::Close(Some(ErrorKind::UnexpectedFrame))
    );
    assert_eq!(handler.state, ProxyState::Done);

    let mut handler = established();
    assert_eq!(
        handler.step(ProxyEvent::Received(b"oka".to_vec()), &mut out),
        ProxyAction::Close(Some(ErrorKind::ShortRead))
    );

    let mut handler = established();
    assert_eq!(
        handler.step(ProxyEvent::Received(b"okay\x05\x00".to_vec()), &mut out),
        ProxyAction::Relay
    );
    assert!(out.is_empty());
}

#[test]
fn proxy_failure_and_events_out_of_turn() {
    let mut out = Vec::new();
    let mut handler = established();
    assert_eq!(
        handler.step(ProxyEvent::Failed(ErrorKind::Io), &mut out),
        ProxyAction::Close(Some(ErrorKind::Io))
    );
    assert_eq!(handler.step(ProxyEvent::Opened, &mut out), ProxyAction::Close(None));
    assert_eq!(handler.step(ProxyEvent::Failed(ErrorKind::Io), &mut out), ProxyAction::Close(None));

    let mut handler = ProxyHandler::new("a:1");
    assert_eq!(
        handler.step(ProxyEvent::Relayed, &mut out),
        ProxyAction::Close(Some(ErrorKind::UnexpectedFrame))
    );
    let mut handler = ProxyHandler::new("a:1");
    assert_eq!(
        handler.step(ProxyEvent::Received(b"okay\x00\x00".to_vec()), &mut out),
        ProxyAction::Close(Some(ErrorKind::UnexpectedFrame))
    );
    let mut handler = established();
    assert_eq!(
        handler.step(ProxyEvent::Opened, &mut out),
        ProxyAction::Close(Some(ErrorKind::UnexpectedFrame))
    );
    assert!(out.is_empty());
}

#[test]
fn client_endpoint() {
    let certs = ClientCerts {
        server_cert: vec![1, 2, 3],
        client_cert: vec![4, 5],
        client_key: Some(vec![6]),
    };
    assert_eq!(
        client_settings(&certs),
        Ok(EndpointSettings {
            identity: Identity::ClientIdentity,
            root_anchors: vec![vec![1, 2, 3]],
            own_chain: vec![vec![4, 5]],
            own_key: vec![6],
            alpn: vec![b"hq-29".to_vec()],
            require_peer_cert: true,
            use_retry: false,
        })
    );
}

#[test]
fn client_endpoint_needs_the_key() {
    let certs = ClientCerts { server_cert: vec![1, 2, 3], client_cert: vec![4, 5], client_key: None };
    assert_eq!(client_settings(&certs), Err(ErrorKind::MissingField));
}

#[test]
fn client_binds_to_every_address() {
    assert_eq!(wildcard_bind(), SocketAddress::V6([0; 16], 0));
    assert_eq!(SERVER_NAME, "localhost");
}

#[test]
fn proxy_passes_over_extension_frames() {
    let mut out = Vec::new();
    let mut handler = established();
    assert_eq!(
        handler.step(ProxyEvent::Received(b"xtab\x04\x01".to_vec()), &mut out),
        ProxyAction::Discard(260)
    );
    assert_eq!(handler.state, ProxyState::Establishing);
    assert_eq!(
        handler.step(ProxyEvent::Received(b"xt\x00\x00\x00\x00".to_vec()), &mut out),
        ProxyAction::Discard(0)
    );
    assert_eq!(
        handler.step(ProxyEvent::Received(b"okay\x00\x00".to_vec()), &mut out),
        ProxyAction::Relay
    );
    assert!(out.is_empty());
}
