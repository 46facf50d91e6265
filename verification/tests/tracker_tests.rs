use edge_supervisor::edge::{
    flatten_edges, EdgeIp, EdgeServerDescriptor, EdgeTracker, IpVersion,
};
use edge_supervisor::types::{SessionError, SupervisorError};

fn descriptor(hostname: &str, port: u16, addrs: Vec<EdgeIp>) -> EdgeServerDescriptor {
    EdgeServerDescriptor { hostname: String::from(hostname), port, addrs }
}

#[test]
fn pool_size_is_sum_of_addresses() {
    let edges = vec![
        descriptor("edge1.example", 443, vec![EdgeIp::V4(1), EdgeIp::V4(2)]),
        descriptor("edge2.example", 7844, vec![EdgeIp::V6(3)]),
    ];
    let ips = flatten_edges(&edges);
    assert_eq!(ips.len(), 3);
    let tracker = EdgeTracker::new(ips).unwrap();
    assert_eq!(tracker.len(), 3);
}

#[test]
fn flatten_tags_versions_and_hosts() {
    let edges = vec![descriptor("edge1.example", 443, vec![EdgeIp::V4(9), EdgeIp::V6(10)])];
    let ips = flatten_edges(&edges);
    assert_eq!(ips.len(), 2);
    assert_eq!(ips[0].ip, EdgeIp::V4(9));
    assert_eq!(ips[0].version, IpVersion::Ipv4);
    assert_eq!(ips[0].hostname, "edge1.example");
    assert_eq!(ips[0].port, 443);
    assert_eq!(ips[1].ip, EdgeIp::V6(10));
    assert_eq!(ips[1].version, IpVersion::Ipv6);
}

#[test]
fn descriptor_without_addresses_contributes_nothing() {
    let edges = vec![
        descriptor("edge1.example", 443, Vec::new()),
        descriptor("edge2.example", 443, vec![EdgeIp::V4(1)]),
    ];
    let ips = flatten_edges(&edges);
    assert_eq!(ips.len(), 1);
    assert_eq!(ips[0].hostname, "edge2.example");
}

#[test]
fn empty_descriptor_list_fails_pool_construction() {
    let edges: Vec<EdgeServerDescriptor> = Vec::new();
    let ips = flatten_edges(&edges);
    assert_eq!(ips.len(), 0);
    let r = EdgeTracker::new(ips);
    assert!(matches!(r, Err(SupervisorError::EmptyPool)));
}

#[test]
fn get_then_release_restores_get_behavior() {
    let edges = vec![descriptor("edge1.example", 443, vec![EdgeIp::V4(1), EdgeIp::V4(2)])];
    let mut tracker = EdgeTracker::new(flatten_edges(&edges)).unwrap();
    let first = tracker.get(7).unwrap();
    tracker.release(7);
    let second = tracker.get(7).unwrap();
    assert_eq!(first.ip, second.ip);
    assert_eq!(first.hostname, second.hostname);
    assert_eq!(first.port, second.port);
}

#[test]
fn distinct_sessions_get_distinct_endpoints() {
    let edges = vec![descriptor("edge1.example", 443, vec![EdgeIp::V4(1), EdgeIp::V4(2)])];
    let mut tracker = EdgeTracker::new(flatten_edges(&edges)).unwrap();
    let a = tracker.get(0).unwrap();
    let b = tracker.get(1).unwrap();
    assert_ne!(a.ip, b.ip);
}

#[test]
fn double_checkout_is_refused() {
    let edges = vec![descriptor("edge1.example", 443, vec![EdgeIp::V4(1), EdgeIp::V4(2)])];
    let mut tracker = EdgeTracker::new(flatten_edges(&edges)).unwrap();
    tracker.get(3).unwrap();
    let r = tracker.get(3);
    assert!(matches!(r, Err(SessionError::AlreadyCheckedOut(3))));
}

#[test]
fn exhausted_pool_is_reported() {
    let edges = vec![descriptor("edge1.example", 443, vec![EdgeIp::V4(1)])];
    let mut tracker = EdgeTracker::new(flatten_edges(&edges)).unwrap();
    tracker.get(0).unwrap();
    let r = tracker.get(1);
    assert!(matches!(r, Err(SessionError::PoolExhausted)));
}

#[test]
fn release_of_unheld_index_is_a_noop() {
    let edges = vec![descriptor("edge1.example", 443, vec![EdgeIp::V4(1), EdgeIp::V4(2)])];
    let mut tracker = EdgeTracker::new(flatten_edges(&edges)).unwrap();
    tracker.release(42);
    let a = tracker.get(0).unwrap();
    assert_eq!(a.ip, EdgeIp::V4(1));
    tracker.release(42);
    let b = tracker.get(1).unwrap();
    assert_eq!(b.ip, EdgeIp::V4(2));
}

#[test]
fn checkout_spreads_by_session_index() {
    let edges = vec![descriptor(
        "edge1.example",
        443,
        vec![EdgeIp::V4(1), EdgeIp::V4(2), EdgeIp::V4(3)],
    )];
    let mut tracker = EdgeTracker::new(flatten_edges(&edges)).unwrap();
    let a = tracker.get(1).unwrap();
    assert_eq!(a.ip, EdgeIp::V4(2));
    let b = tracker.get(4).unwrap();
    assert_eq!(b.ip, EdgeIp::V4(3));
    let c = tracker.get(7).unwrap();
    assert_eq!(c.ip, EdgeIp::V4(1));
}
