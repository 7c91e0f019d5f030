use myki::signaling::{peer_list, route_message, ConnectionState, Peer, PeerRegistry, SignalAction};

#[test]
fn messages_route_by_type() {
    assert_eq!(route_message("register"), SignalAction::Register);
    assert_eq!(route_message("discover"), SignalAction::Discover);
    for t in ["offer", "answer", "candidate", "pairing_request", "pairing_response"] {
        assert_eq!(route_message(t), SignalAction::Relay);
    }
    assert_eq!(route_message("hello"), SignalAction::Ignore);
}

#[test]
fn discovery_lists_everyone_but_the_asker() {
    let mut reg = PeerRegistry::new();
    reg.register("a", "Laptop");
    reg.register("b", "Phone");
    reg.register("c", "Tablet");
    let list = reg.list(Some("b"), 42);
    assert_eq!(list.msg_type, "peer_list");
    let ids: Vec<&str> = list.peers.iter().map(|p| p.id.as_str()).collect();
    assert_eq!(ids, vec!["a", "c"]);
    assert!(list.peers.iter().all(|p| p.last_seen == 42 && p.is_online));
    assert_eq!(list.peers[1].name, "Tablet");
    assert_eq!(reg.list(None, 1).peers.len(), 3);
}

#[test]
fn reregistering_keeps_one_entry_with_the_new_name() {
    let mut reg = PeerRegistry::new();
    reg.register("a", "Old");
    reg.register("a", "New");
    let list = reg.list(None, 0);
    assert_eq!(list.peers.len(), 1);
    assert_eq!(list.peers[0].name, "New");
}

#[test]
fn unregistering_removes_the_peer() {
    let mut reg = PeerRegistry::new();
    reg.register("a", "A");
    reg.register("b", "B");
    reg.unregister("a");
    reg.unregister("zzz");
    let list = reg.list(None, 0);
    assert_eq!(list.peers.len(), 1);
    assert_eq!(list.peers[0].id, "b");
}

#[test]
fn peer_list_of_plain_peers() {
    let peers = vec![
        Peer { id: "x".into(), name: "X".into() },
        Peer { id: "y".into(), name: "Y".into() },
    ];
    assert_eq!(peer_list(&peers, Some("x"), 5).peers.len(), 1);
    assert_eq!(peer_list(&peers, Some("nobody"), 5).peers.len(), 2);
}

#[test]
fn connection_remembers_its_device() {
    let mut conn = ConnectionState::new();
    assert_eq!(conn.on_close(), None);
    assert_eq!(conn.on_message("discover", "ignored"), SignalAction::Discover);
    assert_eq!(conn.on_close(), None);
    assert_eq!(conn.on_message("register", "dev-1"), SignalAction::Register);
    assert_eq!(conn.on_message("offer", "other"), SignalAction::Relay);
    assert_eq!(conn.on_close(), Some("dev-1".to_string()));
}

#[test]
fn relay_targets_must_be_registered() {
    let mut reg = PeerRegistry::new();
    reg.register("a", "A");
    assert!(reg.is_registered("a"));
    assert!(!reg.is_registered("b"));
    reg.unregister("a");
    assert!(!reg.is_registered("a"));
}
