use localex::peer::{DaemonPeer, PeerId};
use localex::protocol::{LocalExContentProvider, LocalExNode};
use localex::store::{DefaultStore, LocalKeyStore, PiarPeersStore};

fn peer_id() -> PeerId {
    PeerId::from_bytes(&libp2p::PeerId::random().to_bytes()).unwrap()
}

#[test]
fn default_store_keeps_peers_in_memory() {
    let mut store = DefaultStore::new();
    assert!(store.get_local_key().is_none());
    assert!(store.save_local_key(&[1, 2, 3]).is_ok());
    let a = peer_id();
    let mut p = DaemonPeer::new(a.clone());
    store.add_peer(p.clone());
    p.set_hostname("h".into());
    store.add_peer(p);
    let peers = store.get_peers();
    assert_eq!(peers.len(), 1);
    assert_eq!(peers[0].hostname.as_deref(), Some("h"));
    assert!(store.save_peers().is_ok());
    store.remove_peer(&a);
    assert!(store.get_peers().is_empty());
}

#[test]
fn node_provides_its_hostname() {
    let n: LocalExNode<u8> = LocalExNode::new("studio".into(), peer_id());
    assert_eq!(LocalExContentProvider::hostname(&n), "studio");
}
