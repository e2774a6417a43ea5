use std::sync::mpsc::{channel, Receiver};

use p2p_host::errors::HostError;
use p2p_host::events::Event;
use p2p_host::host::{CSHost, RouteDecision};

fn id_of(b: u8) -> Vec<u8> {
    vec![b; 32]
}

fn make_host(id_byte: u8) -> (CSHost, Receiver<Event>) {
    let (tx, rx) = channel();
    let host = CSHost::new(&id_of(id_byte), tx).unwrap();
    (host, rx)
}

#[test]
fn send_to_directs_the_payload_to_the_peer() {
    let peer = id_of(7);
    let payload = b"hello peer".to_vec();
    match CSHost::send_to(&peer, payload.clone()) {
        RouteDecision::Unicast(id, data) => {
            assert_eq!(id.as_bytes(), &peer);
            assert_eq!(data, payload);
        }
        _ => panic!("expected a unicast"),
    }
}

#[test]
fn send_to_rejects_a_malformed_identifier() {
    match CSHost::send_to(&vec![7u8; 31], b"x".to_vec()) {
        RouteDecision::Rejected(e) => assert_eq!(e, HostError::InvalidIdentifierLength),
        _ => panic!("expected a rejection"),
    }
}

#[test]
fn broadcast_carries_the_payload_unchanged() {
    let payload = b"to everyone".to_vec();
    match CSHost::broadcast(payload.clone()) {
        RouteDecision::Broadcast(data) => assert_eq!(data, payload),
        _ => panic!("expected a broadcast"),
    }
}

#[test]
fn send_or_broadcast_falls_back_for_an_absent_peer() {
    let (host, _rx) = make_host(1);
    let absent = id_of(9);
    match host.send_or_broadcast(&absent, b"payload".to_vec()) {
        RouteDecision::Broadcast(data) => assert_eq!(data, b"payload".to_vec()),
        RouteDecision::Unicast(_, _) => panic!("unicast chosen for an absent peer"),
        RouteDecision::Rejected(_) => panic!("valid identifier rejected"),
    }
}

#[test]
fn send_or_broadcast_unicasts_to_a_known_peer() {
    let (mut host, _rx) = make_host(1);
    let peer = id_of(9);
    host.on_node_found(&peer).unwrap();
    match host.send_or_broadcast(&peer, b"payload".to_vec()) {
        RouteDecision::Unicast(id, data) => {
            assert_eq!(id.as_bytes(), &peer);
            assert_eq!(data, b"payload".to_vec());
        }
        _ => panic!("expected a unicast to a known peer"),
    }
}

#[test]
fn send_or_broadcast_rejects_a_malformed_identifier() {
    let (host, _rx) = make_host(1);
    match host.send_or_broadcast(&vec![9u8; 33], b"payload".to_vec()) {
        RouteDecision::Rejected(e) => assert_eq!(e, HostError::InvalidIdentifierLength),
        _ => panic!("expected a rejection"),
    }
}

#[test]
fn losing_a_peer_restores_the_fallback() {
    let (mut host, _rx) = make_host(1);
    let peer = id_of(9);
    host.on_node_found(&peer).unwrap();
    host.on_node_lost(&peer).unwrap();
    match host.send_or_broadcast(&peer, b"payload".to_vec()) {
        RouteDecision::Broadcast(_) => {}
        _ => panic!("expected the broadcast fallback after loss"),
    }
}
