use std::sync::mpsc::{channel, Receiver};

use p2p_host::directory::PeerStatus;
use p2p_host::errors::HostError;
use p2p_host::events::Event;
use p2p_host::host::CSHost;
use p2p_host::identity::NodeInfo;

fn id_of(b: u8) -> Vec<u8> {
    vec![b; 32]
}

fn make_host(id_byte: u8) -> (CSHost, Receiver<Event>) {
    let (tx, rx) = channel();
    let host = CSHost::new(&id_of(id_byte), tx).unwrap();
    (host, rx)
}

fn entry(id: Vec<u8>, ip: &str, port: u16) -> NodeInfo {
    NodeInfo {
        id,
        ip: String::from(ip),
        port,
    }
}

#[test]
fn new_rejects_bad_identifier_lengths() {
    for len in [0usize, 1, 31, 33, 64] {
        let (tx, _rx) = channel();
        assert_eq!(
            CSHost::new(&vec![1u8; len], tx).err(),
            Some(HostError::InvalidIdentifierLength)
        );
    }
}

#[test]
fn new_accepts_exact_identifier_length() {
    let (tx, _rx) = channel();
    assert!(CSHost::new(&id_of(1), tx).is_ok());
}

#[test]
fn start_twice_answers_true_then_false() {
    let (mut host, _rx) = make_host(1);
    assert!(host.start());
    assert!(!host.start());
}

#[test]
fn stop_is_idempotent_and_safe_when_not_running() {
    let (mut host, _rx) = make_host(1);
    host.stop();
    assert!(!host.is_running());
    assert!(host.start());
    assert!(host.is_running());
    host.stop();
    assert!(!host.is_running());
    host.stop();
    assert!(!host.is_running());
    assert!(host.start());
}

#[test]
fn seeding_skips_the_malformed_entry_and_keeps_the_rest() {
    let (mut host, _rx) = make_host(1);
    let hosts = vec![
        entry(id_of(10), "10.0.0.1", 4001),
        entry(vec![11u8; 31], "10.0.0.2", 4002),
        entry(id_of(12), "10.0.0.3", 4003),
    ];
    let accepted = host.add_known_hosts(hosts);
    assert_eq!(accepted.len(), 2);
    assert_eq!(accepted[0].id, id_of(10));
    assert_eq!(accepted[0].ip, "10.0.0.1");
    assert_eq!(accepted[0].port, 4001);
    assert_eq!(accepted[1].id, id_of(12));
    assert!(host.knows(&id_of(10)));
    assert!(host.knows(&id_of(12)));
    assert!(!host.knows(&vec![11u8; 31]));
}

#[test]
fn seeding_forwards_but_never_records_the_host_itself() {
    let (mut host, _rx) = make_host(1);
    let accepted = host.add_known_hosts(vec![
        entry(id_of(1), "127.0.0.1", 4000),
        entry(id_of(2), "10.0.0.9", 4009),
    ]);
    assert_eq!(accepted.len(), 2);
    assert!(!host.knows(&id_of(1)));
    assert!(host.knows(&id_of(2)));
}

#[test]
fn seeded_peers_are_known_until_discovered_live() {
    let (mut host, _rx) = make_host(1);
    host.add_known_hosts(vec![entry(id_of(10), "10.0.0.1", 4001)]);
    assert_eq!(host.peer_status(&id_of(10)), Some(PeerStatus::Known));
    assert_eq!(host.peer_status(&id_of(11)), None);
    assert_eq!(host.peer_status(&vec![10u8; 31]), None);
    host.on_node_found(&id_of(10)).unwrap();
    assert_eq!(host.peer_status(&id_of(10)), Some(PeerStatus::Live));
}

#[test]
fn seeding_an_empty_list_changes_nothing() {
    let (mut host, _rx) = make_host(1);
    let accepted = host.add_known_hosts(Vec::new());
    assert!(accepted.is_empty());
    assert!(!host.knows(&id_of(2)));
}
