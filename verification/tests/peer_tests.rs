use localex::peer::{DaemonPeer, PeerId, PeerVerifyState};
use localex::table::PeerTable;

fn libp2p_id() -> libp2p::PeerId {
    libp2p::PeerId::random()
}

fn peer_id() -> PeerId {
    PeerId::from_bytes(&libp2p_id().to_bytes()).unwrap()
}

#[test]
fn peer_id_keeps_libp2p_bytes() {
    let id = libp2p_id();
    let ours = PeerId::from_bytes(&id.to_bytes()).unwrap();
    assert_eq!(ours.to_bytes(), id.to_bytes());
    assert_eq!(ours.as_bytes(), &id.to_bytes()[..]);
}

#[test]
fn peer_id_base58_matches_libp2p_text() {
    let id = libp2p_id();
    let ours = PeerId::from_bytes(&id.to_bytes()).unwrap();
    assert_eq!(ours.to_base58(), id.to_base58());
    assert_eq!(ours.to_base58(), id.to_string());
    assert_ne!(ours.to_base58().as_bytes(), &id.to_bytes()[..]);
}

#[test]
fn peer_id_refuses_garbage() {
    assert!(PeerId::from_bytes(&[]).is_none());
    assert!(PeerId::from_bytes(&[1, 2, 3]).is_none());
}

#[test]
fn peer_id_same_as_and_clone() {
    let a = peer_id();
    let b = peer_id();
    assert!(a.same_as(&a.clone()));
    assert!(a.same_as(&a.duplicate()));
    assert!(!a.same_as(&b));
}

#[test]
fn verify_state_skips_verified_and_blocked() {
    assert!(PeerVerifyState::Verified.should_skip_verify());
    assert!(PeerVerifyState::Blocked.should_skip_verify());
    assert!(!PeerVerifyState::WaitingVerification.should_skip_verify());
}

#[test]
fn verify_state_defaults_to_waiting() {
    assert_eq!(PeerVerifyState::default(), PeerVerifyState::WaitingVerification);
    assert_eq!(PeerVerifyState::default_state(), PeerVerifyState::WaitingVerification);
}

#[test]
fn daemon_peer_new_and_hostname() {
    let id = peer_id();
    let mut p = DaemonPeer::new(id.clone());
    assert!(p.peer_id.same_as(&id));
    assert_eq!(p.state, PeerVerifyState::WaitingVerification);
    assert_eq!(p.hostname, None);
    p.set_hostname("laptop".to_string());
    assert_eq!(p.hostname.as_deref(), Some("laptop"));
    let q = p.clone();
    assert!(q.peer_id.same_as(&id));
    assert_eq!(q.hostname.as_deref(), Some("laptop"));
    assert_eq!(q.state, p.state);
}

#[test]
fn peer_table_keeps_byte_order() {
    let mut ids: Vec<PeerId> = (0..6).map(|_| peer_id()).collect();
    let mut table: PeerTable<usize> = PeerTable::new();
    for (i, id) in ids.iter().enumerate() {
        table.insert(id.clone(), i);
    }
    assert_eq!(table.len(), 6);
    ids.sort_by(|a, b| a.to_bytes().cmp(&b.to_bytes()));
    for i in 0..6 {
        assert_eq!(table.key_at(i).to_bytes(), ids[i].to_bytes());
    }
}

#[test]
fn peer_table_insert_get_remove() {
    let a = peer_id();
    let b = peer_id();
    let mut table: PeerTable<&str> = PeerTable::new();
    table.insert(a.clone(), "a");
    table.insert(b.clone(), "b");
    table.insert(a.clone(), "a2");
    assert_eq!(table.len(), 2);
    assert_eq!(table.get(&a), Some(&"a2"));
    assert!(table.contains_key(&b));
    assert_eq!(table.remove(&b), Some("b"));
    assert!(!table.contains_key(&b));
    assert_eq!(table.remove(&b), None);
    assert_eq!(table.len(), 1);
}
