use edge_supervisor::tls::{RootCert, TrustCache};
use edge_supervisor::types::{Protocol, SessionError, TrustLoadError};

fn cert(bytes: &[u8]) -> RootCert {
    RootCert { anchors: bytes.to_vec() }
}

#[test]
fn load_all_then_get_every_protocol() {
    let fetched = vec![(Protocol::Quic, cert(b"quic anchors")), (Protocol::Http2, cert(b"h2 anchors"))];
    let cache = TrustCache::load_all(fetched).unwrap();
    let quic = cache.get(Protocol::Quic).unwrap();
    assert!(!quic.anchors.is_empty());
    assert_eq!(quic.anchors, b"quic anchors".to_vec());
    let http2 = cache.get(Protocol::Http2).unwrap();
    assert!(!http2.anchors.is_empty());
    assert_eq!(http2.anchors, b"h2 anchors".to_vec());
}

#[test]
fn load_all_takes_first_entry_per_protocol() {
    let fetched = vec![
        (Protocol::Quic, cert(b"first")),
        (Protocol::Http2, cert(b"h2")),
        (Protocol::Quic, cert(b"second")),
    ];
    let cache = TrustCache::load_all(fetched).unwrap();
    assert_eq!(cache.get(Protocol::Quic).unwrap().anchors, b"first".to_vec());
}

#[test]
fn load_all_fails_fast_on_missing_protocol() {
    let fetched = vec![(Protocol::Quic, cert(b"quic anchors"))];
    let r = TrustCache::load_all(fetched);
    assert!(matches!(r, Err(TrustLoadError::MissingProtocol(Protocol::Http2))));
}

#[test]
fn load_all_fails_fast_on_empty_material() {
    let fetched = vec![(Protocol::Quic, cert(b"")), (Protocol::Http2, cert(b"h2"))];
    let r = TrustCache::load_all(fetched);
    assert!(matches!(r, Err(TrustLoadError::EmptyMaterial(Protocol::Quic))));
}

#[test]
fn unpopulated_cache_reports_missing_material() {
    let cache = TrustCache::empty();
    let r = cache.get(Protocol::Quic);
    assert!(matches!(r, Err(SessionError::MissingTrustMaterial(Protocol::Quic))));
}
