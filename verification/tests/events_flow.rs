use std::sync::mpsc::{channel, Receiver, TryRecvError};
use std::sync::{Arc, Mutex};

use p2p_host::errors::HostError;
use p2p_host::events::Event;
use p2p_host::host::CSHost;

fn id_of(b: u8) -> Vec<u8> {
    vec![b; 32]
}

fn make_host(id_byte: u8) -> (CSHost, Receiver<Event>) {
    let (tx, rx) = channel();
    let host = CSHost::new(&id_of(id_byte), tx).unwrap();
    (host, rx)
}

#[test]
fn a_message_surfaces_with_origin_and_payload() {
    let (mut host, rx) = make_host(1);
    let origin = id_of(7);
    let payload = b"sixteen bytes!!!".to_vec();
    host.on_message(&origin, payload.clone()).unwrap();
    match rx.try_recv().unwrap() {
        Event::MessageReceived((from, data)) => {
            assert_eq!(from.as_bytes(), &origin);
            assert_eq!(data, payload);
        }
        _ => panic!("expected a message event"),
    }
}

#[test]
fn an_empty_message_surfaces_too() {
    let (mut host, rx) = make_host(1);
    host.on_message(&id_of(7), Vec::new()).unwrap();
    match rx.try_recv().unwrap() {
        Event::MessageReceived((_, data)) => assert!(data.is_empty()),
        _ => panic!("expected a message event"),
    }
}

#[test]
fn a_malformed_origin_is_rejected_and_nothing_surfaces() {
    let (mut host, rx) = make_host(1);
    assert_eq!(
        host.on_message(&vec![7u8; 31], b"data".to_vec()).err(),
        Some(HostError::InvalidIdentifierLength)
    );
    assert_eq!(rx.try_recv().err(), Some(TryRecvError::Empty));
}

#[test]
fn discovery_surfaces_and_records_the_peer() {
    let (mut host, rx) = make_host(1);
    let peer = id_of(5);
    host.on_node_found(&peer).unwrap();
    assert!(host.knows(&peer));
    match rx.try_recv().unwrap() {
        Event::NodeDiscovered(id) => assert_eq!(id.as_bytes(), &peer),
        _ => panic!("expected a discovery event"),
    }
}

#[test]
fn loss_surfaces_and_forgets_the_peer() {
    let (mut host, rx) = make_host(1);
    let peer = id_of(5);
    host.on_node_found(&peer).unwrap();
    host.on_node_lost(&peer).unwrap();
    assert!(!host.knows(&peer));
    let first = rx.try_recv().unwrap();
    assert!(matches!(first, Event::NodeDiscovered(_)));
    match rx.try_recv().unwrap() {
        Event::NodeLost(id) => assert_eq!(id.as_bytes(), &peer),
        _ => panic!("expected a loss event"),
    }
}

#[test]
fn discovery_with_a_malformed_identifier_changes_nothing() {
    let (mut host, rx) = make_host(1);
    assert_eq!(
        host.on_node_found(&vec![5u8; 33]).err(),
        Some(HostError::InvalidIdentifierLength)
    );
    assert_eq!(rx.try_recv().err(), Some(TryRecvError::Empty));
}

#[test]
fn discovering_the_host_itself_is_ignored() {
    let (mut host, rx) = make_host(1);
    host.on_node_found(&id_of(1)).unwrap();
    assert!(!host.knows(&id_of(1)));
    assert_eq!(rx.try_recv().err(), Some(TryRecvError::Empty));
}

#[test]
fn a_found_fragment_surfaces_unchanged() {
    let (mut host, rx) = make_host(1);
    let fid = id_of(8);
    let bytes = b"fragment bytes".to_vec();
    host.on_fragment_found(&fid, bytes.clone()).unwrap();
    match rx.try_recv().unwrap() {
        Event::FragmentFound(id, data) => {
            assert_eq!(id.as_bytes(), &fid);
            assert_eq!(data, bytes);
        }
        _ => panic!("expected a fragment event"),
    }
}

#[test]
fn a_missing_fragment_surfaces_as_a_miss() {
    let (mut host, rx) = make_host(1);
    let fid = id_of(8);
    host.on_fragment_not_found(&fid).unwrap();
    match rx.try_recv().unwrap() {
        Event::FragmentNotFound(id) => assert_eq!(id.as_bytes(), &fid),
        _ => panic!("expected a miss event"),
    }
}

#[test]
fn a_gone_consumer_turns_sends_into_channel_failures() {
    let (mut host, rx) = make_host(1);
    drop(rx);
    assert_eq!(
        host.on_message(&id_of(7), b"data".to_vec()).err(),
        Some(HostError::ChannelSendFailure)
    );
    assert_eq!(
        host.on_fragment_not_found(&id_of(8)).err(),
        Some(HostError::ChannelSendFailure)
    );
}

#[test]
fn a_lost_peer_is_still_dropped_when_the_consumer_is_gone() {
    let (mut host, rx) = make_host(1);
    let peer = id_of(5);
    host.on_node_found(&peer).unwrap();
    drop(rx);
    assert_eq!(
        host.on_node_lost(&peer).err(),
        Some(HostError::ChannelSendFailure)
    );
    assert!(!host.knows(&peer));
}

#[test]
fn interleaved_discovery_and_loss_each_surface_exactly_once() {
    let (host, rx) = make_host(1);
    let shared = Arc::new(Mutex::new(host));
    shared.lock().unwrap().on_node_found(&id_of(3)).unwrap();
    for (byte, is_loss) in [(10u8, false), (11u8, false), (3u8, true)] {
        let shared = Arc::clone(&shared);
        let mut guard = shared.lock().unwrap();
        if is_loss {
            guard.on_node_lost(&vec![byte; 32]).unwrap();
        } else {
            guard.on_node_found(&vec![byte; 32]).unwrap();
        }
    }
    let mut discovered: Vec<Vec<u8>> = Vec::new();
    let mut lost: Vec<Vec<u8>> = Vec::new();
    for _ in 0..4 {
        match rx.try_recv().unwrap() {
            Event::NodeDiscovered(id) => discovered.push(id.as_bytes().clone()),
            Event::NodeLost(id) => lost.push(id.as_bytes().clone()),
            _ => panic!("unexpected event kind"),
        }
    }
    assert_eq!(rx.try_recv().err(), Some(TryRecvError::Empty));
    discovered.sort();
    assert_eq!(discovered, vec![id_of(3), id_of(10), id_of(11)]);
    assert_eq!(lost, vec![id_of(3)]);
    let guard = shared.lock().unwrap();
    assert!(guard.knows(&id_of(10)));
    assert!(guard.knows(&id_of(11)));
    assert!(!guard.knows(&id_of(3)));
}
