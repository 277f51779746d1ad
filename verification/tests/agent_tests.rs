use localex::agent::{Cli, LocalExProtocol, PeerVerifyState, RemotePeer, StreamKind, RETRY_LIMIT};
use localex::peer::PeerId;

fn peer_id() -> PeerId {
    PeerId::from_bytes(&libp2p::PeerId::random().to_bytes()).unwrap()
}

#[test]
fn stream_kind_codes() {
    assert_eq!(StreamKind::Auth.code(), 0);
    assert_eq!(StreamKind::Handshake.code(), 1);
    assert_eq!(StreamKind::from_code(0), Some(StreamKind::Auth));
    assert_eq!(StreamKind::from_code(1), Some(StreamKind::Handshake));
    assert_eq!(StreamKind::from_code(2), None);
}

#[test]
fn on_fail_counts_then_blocks() {
    let mut s = PeerVerifyState::WaitingVerification(0);
    for n in 1..=RETRY_LIMIT {
        s = PeerVerifyState::on_fail(&s);
        assert_eq!(s, PeerVerifyState::WaitingVerification(n));
    }
    s = PeerVerifyState::on_fail(&s);
    assert_eq!(s, PeerVerifyState::Blocked);
    assert_eq!(PeerVerifyState::on_fail(&s), PeerVerifyState::Blocked);
}

#[test]
fn on_fail_leaves_verified() {
    assert_eq!(PeerVerifyState::on_fail(&PeerVerifyState::Verified), PeerVerifyState::Verified);
}

#[test]
fn remote_peer_starts_waiting() {
    let id = peer_id();
    let mut p = RemotePeer::new(id.clone());
    assert_eq!(p.state, PeerVerifyState::WaitingVerification(0));
    assert_eq!(p.hostname, None);
    p.hostname("desk".to_string());
    assert_eq!(p.hostname.as_deref(), Some("desk"));
}

#[test]
fn agent_add_peer_does_not_overwrite() {
    let id = peer_id();
    let mut proto = LocalExProtocol::new();
    assert_eq!(proto.is_verified(&id), None);
    proto.add_peer(id.clone());
    assert_eq!(proto.is_verified(&id), Some(false));
    assert_eq!(proto.is_blocked(&id), Some(false));
    proto.add_peer(id.clone());
    assert_eq!(proto.is_blocked(&id), Some(false));
}

#[test]
fn agent_remove_keeps_blocked_peer() {
    let a = peer_id();
    let b = peer_id();
    let mut proto = LocalExProtocol::new();
    proto.add_peer(a.clone());
    proto.add_peer(b.clone());
    let mut blocked = RemotePeer::new(b.clone());
    blocked.state = PeerVerifyState::Blocked;
    proto.peers.insert(b.clone(), blocked);
    proto.remove_peer(&a);
    proto.remove_peer(&b);
    assert_eq!(proto.is_blocked(&a), None);
    assert_eq!(proto.is_blocked(&b), Some(true));
}

#[test]
fn agent_verify_runs_only_for_known_unblocked() {
    let a = peer_id();
    let b = peer_id();
    let unknown = peer_id();
    let mut proto = LocalExProtocol::new();
    proto.add_peer(a.clone());
    let mut blocked = RemotePeer::new(b.clone());
    blocked.state = PeerVerifyState::Blocked;
    proto.peers.insert(b.clone(), blocked);
    assert!(proto.verify(&a, || true));
    assert!(!proto.verify(&a, || false));
    assert!(!proto.verify(&b, || true));
    assert!(!proto.verify(&unknown, || true));
}

#[test]
fn agent_cli_fields() {
    let cli = Cli { new_profile: true, no_save: false, tui: true };
    assert!(cli.new_profile && !cli.no_save && cli.tui);
}

#[test]
fn agent_remove_and_verify_keep_other_peers() {
    let a = peer_id();
    let b = peer_id();
    let mut proto = LocalExProtocol::new();
    proto.add_peer(a.clone());
    proto.add_peer(b.clone());
    let mut named = RemotePeer::new(b.clone());
    named.hostname("desk".to_string());
    proto.peers.insert(b.clone(), named);
    assert!(proto.verify(&b, || true));
    assert_eq!(proto.peers.get(&b).unwrap().hostname.as_deref(), Some("desk"));
    proto.remove_peer(&a);
    assert_eq!(proto.peers.len(), 1);
    assert_eq!(proto.peers.get(&b).unwrap().hostname.as_deref(), Some("desk"));
    assert!(proto.peers.get(&a).is_none());
}
