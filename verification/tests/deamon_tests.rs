use localex::deamon::{Deamon, DeamonAction};
use localex::event::{AuthResponseState, LocalExAuthRequest, LocalExAuthResponse};
use localex::peer::{PeerId, PeerVerifyState};
use localex::protocol::{AuthEvent, GossipEvent, MdnsEvent};

fn peer_id() -> PeerId {
    PeerId::from_bytes(&libp2p::PeerId::random().to_bytes()).unwrap()
}

fn listening() -> Deamon<u32> {
    let mut d = Deamon::new("nas".to_string());
    d.listen_on();
    d
}

#[test]
fn deamon_listens_and_subscribes() {
    let mut d: Deamon<u32> = Deamon::new("nas".to_string());
    let acts = d.listen_on();
    assert_eq!(acts.len(), 3);
    assert!(matches!(&acts[0], DeamonAction::ListenOn(a) if a == "/ip4/0.0.0.0/udp/0/quic-v1"));
    assert!(matches!(&acts[1], DeamonAction::ListenOn(a) if a == "/ip4/0.0.0.0/tcp/0"));
    assert!(matches!(&acts[2], DeamonAction::Subscribe(t) if t == "hostname-broadcaset"));
    let b = d.broadcast_hostname();
    assert!(matches!(&b[0], DeamonAction::Publish(h, data) if h == "hostname-broadcaset" && data == b"nas"));
}

#[test]
fn deamon_mdns_adds_explicit_peers_every_time() {
    let mut d = listening();
    let a = peer_id();
    let acts = d.handle_mdns(MdnsEvent::Discovered(vec![a.clone(), a.clone()]));
    assert_eq!(acts.len(), 2);
    assert!(acts.iter().all(|x| matches!(x, DeamonAction::AddExplicitPeer(q) if q.same_as(&a))));
    assert_eq!(d.get_all_peers().len(), 1);
    let gone = d.handle_mdns(MdnsEvent::Expired(vec![a.clone()]));
    assert!(matches!(&gone[0], DeamonAction::RemoveExplicitPeer(q) if q.same_as(&a)));
    assert!(!d.knows(&a));
}

#[test]
fn deamon_keeps_request_channel_and_hostname() {
    let mut d = listening();
    let p = peer_id();
    let acts = d.handle_auth(AuthEvent::Request(p.clone(), LocalExAuthRequest { hostname: "cam".into() }, 8));
    assert!(matches!(&acts[0], DeamonAction::AddExplicitPeer(q) if q.same_as(&p)));
    assert_eq!(d.peers.take_channel(&p), Some(8));
    let peers = d.get_all_peers();
    assert_eq!(peers[0].hostname.as_deref(), Some("cam"));
    assert_eq!(peers[0].channel, None);
}

#[test]
fn deamon_response_verifies_and_names_peer() {
    let mut d = listening();
    let p = peer_id();
    d.handle_mdns(MdnsEvent::Discovered(vec![p.clone()]));
    let acts = d.handle_auth(AuthEvent::Response(
        p.clone(),
        LocalExAuthResponse { state: AuthResponseState::Accept, hostname: "printer".into() },
    ));
    assert!(matches!(&acts[0], DeamonAction::AddExplicitPeer(q) if q.same_as(&p)));
    let peers = d.get_all_peers();
    assert_eq!(peers[0].state, PeerVerifyState::Verified);
    assert_eq!(peers[0].hostname.as_deref(), Some("printer"));
    let q = peer_id();
    d.handle_mdns(MdnsEvent::Discovered(vec![q.clone()]));
    let none = d.handle_auth(AuthEvent::Response(
        q.clone(),
        LocalExAuthResponse { state: AuthResponseState::Deny, hostname: "lamp".into() },
    ));
    assert!(none.is_empty());
    assert!(d.handle_auth(AuthEvent::Other).is_empty());
}

#[test]
fn deamon_gossip_hostname() {
    let mut d = listening();
    let p = peer_id();
    d.handle_mdns(MdnsEvent::Discovered(vec![p.clone()]));
    let acts = d.handle_gossipsub(GossipEvent::Subscribed("hostname-broadcaset".into(), p.clone()));
    assert!(matches!(&acts[0], DeamonAction::Publish(_, data) if data == b"nas"));
    assert!(d.handle_gossipsub(GossipEvent::Subscribed("other".into(), p.clone())).is_empty());
    d.handle_gossipsub(GossipEvent::Message { source: Some(p.clone()), data: b"den".to_vec(), topic: String::new() });
    assert_eq!(d.get_all_peers()[0].hostname.as_deref(), Some("den"));
    d.handle_gossipsub(GossipEvent::Message { source: Some(p.clone()), data: vec![0xc3], topic: String::new() });
    assert_eq!(d.get_all_peers()[0].hostname.as_deref(), Some("unknown"));
    let acts = d.handle_gossipsub(GossipEvent::GossipsubNotSupported(p.clone()));
    assert!(matches!(&acts[0], DeamonAction::RemoveExplicitPeer(q) if q.same_as(&p)));
    assert!(d.get_all_peers().is_empty());
}
