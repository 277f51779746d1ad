use localex::message::{topic_hash, GossipTopic, PeerOffer, SyncOfferCollector, TopicMap};
use localex::peer::PeerId;
use localex::sock::{
    check_permissions, get_sock_connect_path, get_sock_mount_path, is_sock_exist, mount_path_for, permission_for,
    FileMetadata, SOCK_PATH, SOCK_SYSTEM_PATH,
};
use localex::util::U32BitVec;
use localex::bytes::{bytes_equal, compare_bytes, copy_bytes, ByteOrder};

fn peer_id() -> PeerId {
    PeerId::from_bytes(&libp2p::PeerId::random().to_bytes()).unwrap()
}

#[test]
fn sock_connect_prefers_system_socket() {
    assert_eq!(get_sock_connect_path(true), "/run/localex.sock");
    assert_eq!(get_sock_connect_path(false), "/tmp/localex.sock");
    assert_eq!(SOCK_SYSTEM_PATH, "/run/localex.sock");
    assert_eq!(SOCK_PATH, "/tmp/localex.sock");
}

#[test]
fn sock_mount_follows_permission() {
    assert_eq!(get_sock_mount_path(None), SOCK_PATH);
    assert_eq!(get_sock_mount_path(Some(FileMetadata { mode: 0o777, uid: 12345, gid: 12345 })), SOCK_SYSTEM_PATH);
    assert_eq!(get_sock_mount_path(Some(FileMetadata { mode: 0o444, uid: 0, gid: 0 })), SOCK_PATH);
    assert_eq!(mount_path_for(Some(true)), SOCK_SYSTEM_PATH);
    assert_eq!(mount_path_for(Some(false)), SOCK_PATH);
    assert_eq!(check_permissions(None), None);
}

#[test]
fn sock_permission_bits() {
    let owner = FileMetadata { mode: 0o600, uid: 7, gid: 8 };
    assert!(permission_for(owner, 7, 0));
    assert!(!permission_for(owner, 6, 8));
    let group = FileMetadata { mode: 0o060, uid: 7, gid: 8 };
    assert!(permission_for(group, 1, 8));
    assert!(!permission_for(group, 7, 1));
    assert!(permission_for(FileMetadata { mode: 0o002, uid: 0, gid: 0 }, 5, 5));
}

#[test]
fn sock_exists_if_either() {
    assert!(is_sock_exist(true, false));
    assert!(is_sock_exist(false, true));
    assert!(!is_sock_exist(false, false));
}

#[test]
fn bitvec_starts_clear_and_reports_pairs() {
    let v = U32BitVec::with_capacity(40);
    assert_eq!(v.len(), 40);
    assert_eq!(v.get(3), Some(false));
    assert_eq!(v.get(40), None);
    assert!(v.get_zero_ranges().is_empty());
    let mut w = U32BitVec::with_capacity(8);
    w.set(3, true);
    w.set(5, true);
    assert_eq!(w.get(3), Some(true));
    assert_eq!(w.get(4), Some(false));
    assert_eq!(w.get_zero_ranges(), vec![(3, 2), (5, 4)]);
}

#[test]
fn topic_names_and_hashes() {
    assert_eq!(GossipTopic::Hostname.to_topic_string(), "hostname");
    assert_eq!(topic_hash(GossipTopic::Sync), "sync");
    let mut m = TopicMap::new();
    m.insert("h".into(), GossipTopic::Hostname);
    assert_eq!(m.get_by_left(&"h".to_string()), Some(GossipTopic::Hostname));
    assert_eq!(m.get_by_right(&GossipTopic::Hostname), Some("h".to_string()));
    m.insert("h2".into(), GossipTopic::Hostname);
    assert_eq!(m.get_by_left(&"h".to_string()), None);
    assert_eq!(m.get_by_right(&GossipTopic::Hostname), Some("h2".to_string()));
}

#[test]
fn sync_offers_keep_newest_version() {
    let a = peer_id();
    let b = peer_id();
    let c = peer_id();
    let mut col = SyncOfferCollector::new(3);
    col.insert("app".into(), "f".into(), PeerOffer { peer_id: a.clone(), version: 5 });
    col.insert("app".into(), "f".into(), PeerOffer { peer_id: b.clone(), version: 2 });
    assert!(!col.is_received());
    col.insert("app".into(), "g".into(), PeerOffer { peer_id: b.clone(), version: 9 });
    col.insert("app".into(), "f".into(), PeerOffer { peer_id: c.clone(), version: 5 });
    assert!(col.is_received());
    let list = col.request_list();
    assert_eq!(list.len(), 1);
    assert!(list[0].peer_id.same_as(&c));
    assert_eq!(list[0].file_id, "f");
}

#[test]
fn byte_order_helpers() {
    assert_eq!(compare_bytes(&[1, 2], &[1, 3]), ByteOrder::Less);
    assert_eq!(compare_bytes(&[1, 2], &[1]), ByteOrder::Greater);
    assert_eq!(compare_bytes(&[4], &[4]), ByteOrder::Equal);
    assert!(bytes_equal(&[1, 2], &[1, 2]));
    assert!(!bytes_equal(&[1, 2], &[1]));
    assert_eq!(copy_bytes(&[9, 8]), vec![9, 8]);
}
