use localex::event::{AuthResponseState, LocalExAuthRequest, LocalExAuthResponse};
use localex::pairing::{
    handle_daemon, AgentAction, AgentEvent, ClientEvent, DaemonEvent, LocalExProtocol, NetworkEvent, RemotePeer,
};
use localex::peer::{PeerId, PeerVerifyState};
use localex::screen::{Tui, TuiUiState};
use localex::tui::Key;

fn peer_id() -> PeerId {
    PeerId::from_bytes(&libp2p::PeerId::random().to_bytes()).unwrap()
}

fn hostname() -> String {
    "agent".to_string()
}

#[test]
fn remote_peer_clone_drops_channel() {
    let mut p: RemotePeer<u32> = RemotePeer::new(peer_id());
    p.set_hostname("h".to_string()).set_channel(4);
    assert_eq!(p.channel, Some(4));
    let q = p.clone();
    assert_eq!(q.channel, None);
    assert_eq!(q.hostname.as_deref(), Some("h"));
    assert!(q.peer_id.same_as(&p.peer_id));
}

#[test]
fn agent_request_then_confirm_answers_on_channel() {
    let mut proto: LocalExProtocol<u32> = LocalExProtocol::new();
    let p = peer_id();
    let acts = handle_daemon(
        &mut proto,
        &hostname(),
        AgentEvent::Network(NetworkEvent::AuthRequest(p.clone(), LocalExAuthRequest { hostname: "phone".into() }, 11)),
    );
    assert_eq!(acts.len(), 1);
    match &acts[0] {
        AgentAction::Emit(DaemonEvent::InCommingVerify(peer)) => {
            assert!(peer.peer_id.same_as(&p));
            assert_eq!(peer.hostname.as_deref(), Some("phone"));
            assert_eq!(peer.channel, None);
        }
        _ => panic!("expected the incoming request"),
    }
    let acts = handle_daemon(&mut proto, &hostname(), AgentEvent::Client(ClientEvent::VerifyConfirm(p.clone(), true)));
    assert_eq!(acts.len(), 2);
    assert!(matches!(&acts[0], AgentAction::AddExplicitPeer(q) if q.same_as(&p)));
    match &acts[1] {
        AgentAction::SendAuthResponse(ch, resp) => {
            assert_eq!(*ch, 11);
            assert_eq!(resp.state, AuthResponseState::Accept);
            assert_eq!(resp.hostname, "agent");
        }
        _ => panic!("expected the answer"),
    }
    assert_eq!(proto.get_peer(&p).unwrap().state, PeerVerifyState::Verified);
    let acts = handle_daemon(&mut proto, &hostname(), AgentEvent::Client(ClientEvent::VerifyConfirm(p.clone(), false)));
    assert!(acts.is_empty());
}

#[test]
fn agent_refusal_keeps_peer_waiting() {
    let mut proto: LocalExProtocol<u32> = LocalExProtocol::new();
    let p = peer_id();
    handle_daemon(
        &mut proto,
        &hostname(),
        AgentEvent::Network(NetworkEvent::AuthRequest(p.clone(), LocalExAuthRequest { hostname: "x".into() }, 2)),
    );
    let acts = handle_daemon(&mut proto, &hostname(), AgentEvent::Client(ClientEvent::VerifyConfirm(p.clone(), false)));
    assert_eq!(acts.len(), 1);
    assert!(matches!(&acts[0], AgentAction::SendAuthResponse(2, r) if r.state == AuthResponseState::Deny));
    assert_eq!(proto.get_peer(&p).unwrap().state, PeerVerifyState::WaitingVerification);
}

#[test]
fn agent_response_reports_result() {
    let mut proto: LocalExProtocol<u32> = LocalExProtocol::new();
    let p = peer_id();
    proto.add_peer(p.clone());
    let acts = handle_daemon(
        &mut proto,
        &hostname(),
        AgentEvent::Network(NetworkEvent::AuthResponse(
            p.clone(),
            LocalExAuthResponse { state: AuthResponseState::Deny, hostname: "y".into() },
        )),
    );
    assert_eq!(acts.len(), 1);
    assert!(matches!(&acts[0], AgentAction::Emit(DaemonEvent::VerifyResult(q, false)) if q.same_as(&p)));
    assert_eq!(proto.get_peer(&p).unwrap().state, PeerVerifyState::WaitingVerification);
}

#[test]
fn agent_discovery_and_expiry() {
    let mut proto: LocalExProtocol<u32> = LocalExProtocol::new();
    let a = peer_id();
    let b = peer_id();
    let acts = handle_daemon(&mut proto, &hostname(), AgentEvent::Network(NetworkEvent::Discovered(vec![a.clone(), b.clone()])));
    match &acts[0] {
        AgentAction::Emit(DaemonEvent::PeerList(l)) => assert_eq!(l.len(), 2),
        _ => panic!("expected the list"),
    }
    let acts = handle_daemon(&mut proto, &hostname(), AgentEvent::Network(NetworkEvent::Expired(vec![a.clone()])));
    assert!(matches!(&acts[0], AgentAction::RemoveExplicitPeer(q) if q.same_as(&a)));
    match &acts[1] {
        AgentAction::Emit(DaemonEvent::PeerList(l)) => {
            assert_eq!(l.len(), 1);
            assert!(l[0].peer_id.same_as(&b));
        }
        _ => panic!("expected the list"),
    }
    let acts = handle_daemon(&mut proto, &hostname(), AgentEvent::Network(NetworkEvent::GossipsubNotSupported(b.clone())));
    assert!(acts.is_empty());
    assert!(proto.get_peer(&b).is_none());
}

#[test]
fn agent_disconnect_and_request() {
    let mut proto: LocalExProtocol<u32> = LocalExProtocol::new();
    let a = peer_id();
    proto.add_peer(a.clone());
    let acts = handle_daemon(&mut proto, &hostname(), AgentEvent::Client(ClientEvent::RequestVerify(a.clone())));
    assert!(matches!(&acts[0], AgentAction::SendAuthRequest(q, r) if q.same_as(&a) && r.hostname == "agent"));
    let acts = handle_daemon(&mut proto, &hostname(), AgentEvent::Client(ClientEvent::DisconnectPeer(a.clone())));
    assert!(matches!(&acts[0], AgentAction::RemoveExplicitPeer(q) if q.same_as(&a)));
    assert!(proto.get_peer(&a).is_none());
}

#[test]
fn screen_asks_then_confirms_incoming_peer() {
    let mut tui: Tui<u32> = Tui::new();
    let a = peer_id();
    let b = peer_id();
    tui.handle_daemon(DaemonEvent::PeerList(vec![RemotePeer::new(a.clone()), RemotePeer::new(b.clone())]));
    assert_eq!(tui.state.selected, Some(0));
    let mut incoming = RemotePeer::new(b.clone());
    incoming.set_hostname("tablet".into());
    tui.handle_daemon(DaemonEvent::InCommingVerify(incoming));
    match &tui.state.ui_state {
        TuiUiState::InCommingVerify(p) => {
            assert!(p.id().same_as(&b));
            assert_eq!(p.0.hostname, None);
        }
        TuiUiState::List => panic!("expected the question"),
    }
    let out = tui.handle_input(Key::Char('y'));
    assert!(matches!(out, Some(ClientEvent::VerifyConfirm(ref q, true)) if q.same_as(&b)));
    assert!(matches!(tui.state.ui_state, TuiUiState::List));
    assert_eq!(tui.state.peers[1].0.state, PeerVerifyState::Verified);
}

#[test]
fn screen_keys() {
    let mut tui: Tui<u32> = Tui::new();
    let a = peer_id();
    assert!(tui.handle_input(Key::Enter).is_none());
    tui.handle_daemon(DaemonEvent::PeerList(vec![RemotePeer::new(a.clone())]));
    assert!(matches!(tui.handle_input(Key::Enter), Some(ClientEvent::RequestVerify(ref q)) if q.same_as(&a)));
    assert!(matches!(tui.handle_input(Key::Char('d')), Some(ClientEvent::DisconnectPeer(ref q)) if q.same_as(&a)));
    assert!(tui.handle_input(Key::Char('j')).is_none());
    assert_eq!(tui.state.selected, Some(1));
    assert!(tui.handle_input(Key::Enter).is_none());
    tui.handle_input(Key::Char('k'));
    tui.handle_input(Key::Char('k'));
    assert_eq!(tui.state.selected, Some(0));
    assert!(tui.handle_input(Key::Char('n')).is_none());
    tui.handle_daemon(DaemonEvent::VerifyResult(a.clone(), false));
    assert_eq!(tui.state.peers[0].0.state, PeerVerifyState::Blocked);
    tui.handle_daemon(DaemonEvent::LocalInfo("x".into(), a.clone()));
    assert_eq!(tui.state.peers.len(), 1);
    assert!(!tui.should_quit);
    tui.handle_input(Key::Char('Q'));
    assert!(tui.should_quit);
}

#[test]
fn screen_refuses_unlisted_incoming_peer() {
    let mut tui: Tui<u32> = Tui::new();
    let a = peer_id();
    let mut incoming = RemotePeer::new(a.clone());
    incoming.set_hostname("far".into());
    tui.handle_daemon(DaemonEvent::InCommingVerify(incoming));
    match &tui.state.ui_state {
        TuiUiState::InCommingVerify(p) => assert_eq!(p.0.hostname.as_deref(), Some("far")),
        TuiUiState::List => panic!("expected the question"),
    }
    let out = tui.handle_input(Key::Char('N'));
    assert!(matches!(out, Some(ClientEvent::VerifyConfirm(ref q, false)) if q.same_as(&a)));
    assert!(tui.state.peers.is_empty());
}
