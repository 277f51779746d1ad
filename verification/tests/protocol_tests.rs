use localex::event::{AuthResponseState, ClientEvent, DaemonEvent, LocalExAuthRequest, LocalExAuthResponse};
use localex::message::{topic_hash, GossipTopic};
use localex::peer::{PeerId, PeerVerifyState};
use localex::protocol::{topics_to_subscribe, Action, AuthEvent, GossipEvent, LocalExNode, MdnsEvent};

fn peer_id() -> PeerId {
    PeerId::from_bytes(&libp2p::PeerId::random().to_bytes()).unwrap()
}

fn node() -> LocalExNode<u32> {
    LocalExNode::new("home".to_string(), peer_id())
}

fn subscribed_node() -> LocalExNode<u32> {
    let mut n = node();
    for t in topics_to_subscribe() {
        n.record_subscription(topic_hash(t), t);
    }
    n
}

#[test]
fn node_discovers_and_lists_peers_in_id_order() {
    let mut n = node();
    let a = peer_id();
    let b = peer_id();
    let mut actions = Vec::new();
    n.handle_mdns(MdnsEvent::Discovered(vec![a.clone(), b.clone()]), &mut actions);
    assert_eq!(actions.len(), 3);
    assert!(matches!(&actions[0], Action::AddExplicitPeer(p) if p.same_as(&a)));
    assert!(matches!(&actions[1], Action::AddExplicitPeer(p) if p.same_as(&b)));
    match &actions[2] {
        Action::Emit(DaemonEvent::PeerList(list)) => {
            assert_eq!(list.len(), 2);
            assert!(list[0].peer_id.to_bytes() < list[1].peer_id.to_bytes());
            assert!(list.iter().all(|p| p.state == PeerVerifyState::WaitingVerification));
        }
        _ => panic!("expected the peer list"),
    }
    let mut more = Vec::new();
    n.handle_mdns(MdnsEvent::Expired(vec![a.clone()]), &mut more);
    assert!(matches!(&more[0], Action::RemoveExplicitPeer(p) if p.same_as(&a)));
    match &more[1] {
        Action::Emit(DaemonEvent::PeerList(list)) => {
            assert_eq!(list.len(), 1);
            assert!(list[0].peer_id.same_as(&b));
        }
        _ => panic!("expected the peer list"),
    }
}

#[test]
fn node_answers_request_on_its_channel() {
    let mut n = node();
    let p = peer_id();
    let mut actions = Vec::new();
    n.handle_auth(
        AuthEvent::Request(p.clone(), LocalExAuthRequest { hostname: "phone".to_string() }, 77),
        &mut actions,
    );
    assert!(matches!(&actions[1], Action::Emit(DaemonEvent::InComingVerify(q))
        if q.peer_id.same_as(&p) && q.hostname.as_deref() == Some("phone")));
    let mut answer = Vec::new();
    n.handle_client_event(ClientEvent::VerifyConfirm(p.clone(), true), &mut answer);
    assert!(matches!(&answer[0], Action::AddExplicitPeer(q) if q.same_as(&p)));
    match &answer[1] {
        Action::SendAuthResponse(ch, resp) => {
            assert_eq!(*ch, 77);
            assert_eq!(resp.state, AuthResponseState::Accept);
            assert_eq!(resp.hostname, "home");
        }
        _ => panic!("expected the answer"),
    }
    assert_eq!(n.get_peers()[0].state, PeerVerifyState::Verified);
    let mut again = Vec::new();
    n.handle_client_event(ClientEvent::VerifyConfirm(p.clone(), false), &mut again);
    assert!(again.is_empty());
}

#[test]
fn node_refusal_is_answered_deny() {
    let mut n = node();
    let p = peer_id();
    let mut actions = Vec::new();
    n.handle_auth(AuthEvent::Request(p.clone(), LocalExAuthRequest { hostname: "x".to_string() }, 5), &mut actions);
    let mut answer = Vec::new();
    n.handle_client_event(ClientEvent::VerifyConfirm(p.clone(), false), &mut answer);
    assert_eq!(answer.len(), 1);
    match &answer[0] {
        Action::SendAuthResponse(ch, resp) => {
            assert_eq!(*ch, 5);
            assert_eq!(resp.state, AuthResponseState::Deny);
        }
        _ => panic!("expected the answer"),
    }
}

#[test]
fn node_accepted_response_verifies_peer() {
    let mut n = node();
    let p = peer_id();
    let mut actions = Vec::new();
    n.add_peer(p.clone(), &mut actions);
    let mut out = Vec::new();
    n.handle_auth(
        AuthEvent::Response(p.clone(), LocalExAuthResponse { state: AuthResponseState::Accept, hostname: "tv".into() }),
        &mut out,
    );
    assert!(matches!(&out[0], Action::AddExplicitPeer(_)));
    assert!(matches!(&out[1], Action::SavePeers));
    assert!(matches!(&out[2], Action::Emit(DaemonEvent::VerifyResult(q, true)) if q.same_as(&p)));
    let peers = n.get_peers();
    assert_eq!(peers[0].state, PeerVerifyState::Verified);
    assert_eq!(peers[0].hostname.as_deref(), Some("tv"));
}

#[test]
fn node_records_announced_hostname() {
    let mut n = subscribed_node();
    let p = peer_id();
    let mut actions = Vec::new();
    n.add_peer(p.clone(), &mut actions);
    let mut out = Vec::new();
    n.handle_gossipsub(
        GossipEvent::Message { source: Some(p.clone()), data: b"kitchen".to_vec(), topic: "hostname".to_string() },
        &mut out,
    );
    assert_eq!(n.get_peers()[0].hostname.as_deref(), Some("kitchen"));
    let mut bad = Vec::new();
    n.handle_gossipsub(
        GossipEvent::Message { source: Some(p.clone()), data: vec![0xff, 0xfe], topic: "hostname".to_string() },
        &mut bad,
    );
    assert_eq!(n.get_peers()[0].hostname.as_deref(), Some("unknown"));
}

#[test]
fn node_publishes_hostname_to_new_subscriber() {
    let mut n = subscribed_node();
    let mut out = Vec::new();
    n.handle_gossipsub(GossipEvent::Subscribed("hostname".to_string(), peer_id()), &mut out);
    match &out[0] {
        Action::Publish(hash, data) => {
            assert_eq!(hash, "hostname");
            assert_eq!(data, b"home");
        }
        _ => panic!("expected a publish"),
    }
    let mut none = Vec::new();
    n.handle_gossipsub(GossipEvent::Subscribed("other".to_string(), peer_id()), &mut none);
    assert!(none.is_empty());
}

#[test]
fn node_collects_sync_offers_once_per_peer() {
    let mut n = subscribed_node();
    let p = peer_id();
    let q = peer_id();
    let mut actions = Vec::new();
    n.add_peer(p.clone(), &mut actions);
    n.add_peer(q.clone(), &mut actions);
    let mut out = Vec::new();
    n.handle_gossipsub(
        GossipEvent::Message { source: Some(p.clone()), data: vec![1], topic: "sync_offer".to_string() },
        &mut out,
    );
    assert!(matches!(&out[0], Action::CollectSyncOffers(s, d) if s.same_as(&p) && d == &vec![1u8]));
    n.collect_sync_offers(p.clone(), vec![("app".into(), "f".into(), 1)]);
    n.collect_sync_offers(p.clone(), vec![("app".into(), "f".into(), 9)]);
    n.collect_sync_offers(q.clone(), vec![("app".into(), "f".into(), 3)]);
    let collector = n.sync_offer_collector.take().unwrap();
    assert!(collector.is_received());
    let list = collector.request_list();
    assert_eq!(list.len(), 1);
    assert!(list[0].peer_id.same_as(&q));
}

#[test]
fn node_local_info_and_custom_messages() {
    let local = peer_id();
    let mut n: LocalExNode<u32> = LocalExNode::new("home".into(), local.clone());
    let mut out = Vec::new();
    n.handle_client_event(ClientEvent::RequestLocalInfo, &mut out);
    assert!(matches!(&out[0], Action::Emit(DaemonEvent::LocalInfo(h, p)) if h == "home" && p.same_as(&local)));
    let p = peer_id();
    let mut msg = Vec::new();
    n.handle_client_custom_message(p.clone(), vec![9, 9], &mut msg);
    assert!(matches!(&msg[0], Action::Emit(DaemonEvent::ReceivedCustomMessage(q, d)) if q.same_as(&p) && d == &vec![9u8, 9]));
}

#[test]
fn node_sends_registered_raw_item() {
    let mut n = node();
    let p = peer_id();
    let mut out = Vec::new();
    n.handle_client_event(ClientEvent::RegistRaw("f".into(), vec![0u8; 10]), &mut out);
    assert!(out.is_empty());
    n.handle_client_event(ClientEvent::SendFile(p.clone(), "app".into(), "f".into()), &mut out);
    match &out[0] {
        Action::SendFileRequest(q, r) => {
            assert!(q.same_as(&p));
            assert_eq!(r.app_id, "app");
            assert_eq!(r.file_id, "f");
            assert_eq!(r.session.len(), 36);
        }
        _ => panic!("expected a file request"),
    }
    let mut stored = Vec::new();
    n.handle_client_event(ClientEvent::SendFile(p.clone(), "app".into(), "g".into()), &mut stored);
    assert!(matches!(&stored[0], Action::OfferStoredFile(_, a, f) if a == "app" && f == "g"));
}

#[test]
fn topics_subscribed_in_order() {
    assert_eq!(topics_to_subscribe(), vec![GossipTopic::Hostname, GossipTopic::Sync, GossipTopic::SyncOffer]);
    assert_eq!(topic_hash(GossipTopic::SyncOffer), "sync_offer");
}

#[test]
fn node_offers_stored_file_once_looked_up() {
    let n = node();
    let p = peer_id();
    let mut out = Vec::new();
    assert_eq!(n.offer_stored_file(p.clone(), "app".into(), "g".into(), None, &mut out), Err("regist item not found".to_string()));
    assert!(out.is_empty());
    assert_eq!(
        n.offer_stored_file(p.clone(), "app".into(), "g".into(), Some(Err("no such file".to_string())), &mut out),
        Err("no such file".to_string())
    );
    assert!(out.is_empty());
    assert_eq!(n.offer_stored_file(p.clone(), "app".into(), "g".into(), Some(Ok(3_000_000)), &mut out), Ok(()));
    assert_eq!(out.len(), 1);
    match &out[0] {
        Action::SendFileRequest(q, r) => {
            assert!(q.same_as(&p));
            assert_eq!(r.app_id, "app");
            assert_eq!(r.file_id, "g");
            assert_eq!(r.session.len(), 36);
            let chars: Vec<char> = r.session.chars().collect();
            for i in [8, 13, 18, 23] {
                assert_eq!(chars[i], '-');
            }
            assert_eq!(chars[14], '4');
            assert!(matches!(chars[19], '8' | '9' | 'a' | 'b'));
            assert!(chars.iter().all(|c| *c == '-' || c.is_ascii_digit() || ('a'..='f').contains(c)));
            assert!(matches!(r.payload, localex::file::FileRequestPayload::Ready { size: 3_000_000, chunks: 3, chunk_size } if chunk_size == localex::file::CHUNK_SIZE));
        }
        _ => panic!("expected a file request"),
    }
}
