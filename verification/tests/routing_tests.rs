use apus_core::discovery::{DiscoveryEngine, LocalPeer};
use apus_core::routing::RoutingEngine;

fn peer(id: &str, rtt_us: u64) -> LocalPeer {
    LocalPeer { node_id: id.to_string(), ip_address: "10.0.0.1".to_string(), port: 8080, rtt_us }
}

fn ids(peers: &[LocalPeer]) -> Vec<String> {
    peers.iter().map(|p| p.node_id.clone()).collect()
}

#[test]
fn prioritize_sorts_by_rtt() {
    let peers = vec![peer("c", 900), peer("a", 100), peer("b", 500)];
    let sorted = RoutingEngine::prioritize_peers(peers);
    assert_eq!(ids(&sorted), vec!["a", "b", "c"]);
}

#[test]
fn prioritize_is_stable() {
    let peers = vec![peer("x1", 5), peer("y", 1), peer("x2", 5), peer("z", 3), peer("x3", 5)];
    let sorted = RoutingEngine::prioritize_peers(peers);
    assert_eq!(ids(&sorted), vec!["y", "z", "x1", "x2", "x3"]);
}

#[test]
fn prioritize_sorted_input_unchanged() {
    let peers = vec![peer("a", 1), peer("b", 1), peer("c", 2)];
    let sorted = RoutingEngine::prioritize_peers(peers);
    assert_eq!(ids(&sorted), vec!["a", "b", "c"]);
    let again = RoutingEngine::prioritize_peers(sorted);
    assert_eq!(ids(&again), vec!["a", "b", "c"]);
    assert!(RoutingEngine::prioritize_peers(vec![]).is_empty());
}

#[test]
fn scan_then_prioritize() {
    let peers = DiscoveryEngine::scan_local_network("192.168.1");
    assert_eq!(peers.len(), 2);
    assert_eq!(peers[0].node_id, "sklif-node-01");
    assert_eq!(peers[0].ip_address, "192.168.1.105");
    assert_eq!(peers[0].port, 8080);
    assert_eq!(peers[0].rtt_us, 420);
    assert_eq!(peers[1].node_id, "sklif-node-02");
    assert_eq!(peers[1].ip_address, "192.168.1.112");
    assert_eq!(peers[1].rtt_us, 780);
    let sorted = RoutingEngine::prioritize_peers(peers);
    assert_eq!(ids(&sorted), vec!["sklif-node-01", "sklif-node-02"]);
}
