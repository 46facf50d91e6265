use edge_supervisor::edge::{EdgeIp, EdgeServerDescriptor};
use edge_supervisor::supervisor::Supervisor;
use edge_supervisor::tls::RootCert;
use edge_supervisor::types::{
    Protocol, SessionError, SupervisorError, TransportError, TrustLoadError, TunnelAuth,
};

fn auth() -> TunnelAuth {
    TunnelAuth {
        account_tag: String::from("acct"),
        tunnel_secret: vec![1, 2, 3],
        tunnel_id: 7,
    }
}

fn trust() -> Vec<(Protocol, RootCert)> {
    vec![
        (Protocol::Quic, RootCert { anchors: b"quic anchors".to_vec() }),
        (Protocol::Http2, RootCert { anchors: b"h2 anchors".to_vec() }),
    ]
}

fn region_a_edges() -> Vec<EdgeServerDescriptor> {
    // 203.0.113.5 and 203.0.113.6, big-endian.
    let ip5 = EdgeIp::V4(u32::from_be_bytes([203, 0, 113, 5]));
    let ip6 = EdgeIp::V4(u32::from_be_bytes([203, 0, 113, 6]));
    vec![EdgeServerDescriptor {
        hostname: String::from("edge1.example"),
        port: 443,
        addrs: vec![ip5, ip6],
    }]
}

#[test]
fn end_to_end_single_region_two_sessions() {
    let mut sup = Supervisor::new(region_a_edges(), trust(), auth()).unwrap();
    assert_eq!(sup.pool_size(), 2);

    let (ep, cert) = sup.begin_session(0, Protocol::Quic).unwrap();
    assert_eq!(ep.hostname, "edge1.example");
    assert_eq!(ep.port, 443);
    let ip5 = EdgeIp::V4(u32::from_be_bytes([203, 0, 113, 5]));
    let ip6 = EdgeIp::V4(u32::from_be_bytes([203, 0, 113, 6]));
    assert!(ep.ip == ip5 || ep.ip == ip6);
    assert_eq!(cert.anchors, b"quic anchors".to_vec());

    // Transport serve succeeds; the endpoint must be released and available
    // to the next session.
    let r = sup.finish_session(0, Ok(()));
    assert!(r.is_ok());
    let (ep2, _) = sup.begin_session(1, Protocol::Quic).unwrap();
    assert!(ep2.ip == ip5 || ep2.ip == ip6);
    let (ep3, _) = sup.begin_session(0, Protocol::Quic).unwrap();
    assert_ne!(ep2.ip, ep3.ip);
}

#[test]
fn transport_failure_propagates_and_releases() {
    let mut sup = Supervisor::new(region_a_edges(), trust(), auth()).unwrap();
    let (first, _) = sup.begin_session(0, Protocol::Quic).unwrap();
    let failure = TransportError { detail: String::from("handshake refused") };
    let r = sup.finish_session(0, Err(failure.clone()));
    assert_eq!(r, Err(SessionError::Transport(failure)));
    // The endpoint was released on the error path: the same index can check
    // out again, and gets the same endpoint back.
    let (second, _) = sup.begin_session(0, Protocol::Quic).unwrap();
    assert_eq!(first.ip, second.ip);
}

#[test]
fn cancelled_session_releases_its_endpoint() {
    let mut sup = Supervisor::new(region_a_edges(), trust(), auth()).unwrap();
    sup.begin_session(3, Protocol::Quic).unwrap();
    // Cancellation surfaces as the transport outcome of the aborted serve;
    // finishing the session must still release the endpoint.
    let cancelled = TransportError { detail: String::from("session cancelled") };
    let r = sup.finish_session(3, Err(cancelled));
    assert!(r.is_err());
    assert!(sup.begin_session(3, Protocol::Quic).is_ok());
}

#[test]
fn double_begin_without_finish_is_refused() {
    let mut sup = Supervisor::new(region_a_edges(), trust(), auth()).unwrap();
    sup.begin_session(5, Protocol::Quic).unwrap();
    let r = sup.begin_session(5, Protocol::Quic);
    assert!(matches!(r, Err(SessionError::AlreadyCheckedOut(5))));
}

#[test]
fn construction_fails_on_empty_edges() {
    let r = Supervisor::new(Vec::new(), trust(), auth());
    assert!(matches!(r, Err(SupervisorError::EmptyPool)));
}

#[test]
fn construction_fails_on_incomplete_trust() {
    let partial = vec![(Protocol::Quic, RootCert { anchors: b"quic anchors".to_vec() })];
    let r = Supervisor::new(region_a_edges(), partial, auth());
    assert!(matches!(
        r,
        Err(SupervisorError::TrustLoad(TrustLoadError::MissingProtocol(Protocol::Http2)))
    ));
}

#[test]
fn construction_checks_pool_before_trust() {
    let r = Supervisor::new(Vec::new(), Vec::new(), auth());
    assert!(matches!(r, Err(SupervisorError::EmptyPool)));
}

#[test]
fn identity_is_a_version_four_uuid() {
    let sup = Supervisor::new(region_a_edges(), trust(), auth()).unwrap();
    let id = sup.id();
    assert_eq!((id >> 76) & 0xF, 4);
    assert_eq!(sup.auth().account_tag, "acct");
}
