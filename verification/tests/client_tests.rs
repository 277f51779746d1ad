use localex::config;
use localex::event::{ClientEvent, DaemonEvent};
use localex::peer::{DaemonPeer, PeerId, PeerVerifyState};
use localex::tui::{centered_offsets, App, AppUIState, Key};

fn peer_id() -> PeerId {
    PeerId::from_bytes(&libp2p::PeerId::random().to_bytes()).unwrap()
}

#[test]
fn app_shows_local_info() {
    let mut app = App::new();
    let me = peer_id();
    app.handle_deamon(DaemonEvent::LocalInfo("box".into(), me.clone()));
    assert_eq!(app.state.hostname, "box");
    assert!(app.state.local_peer.as_ref().unwrap().same_as(&me));
}

#[test]
fn app_list_selection_and_requests() {
    let mut app = App::new();
    let a = peer_id();
    let b = peer_id();
    app.handle_deamon(DaemonEvent::PeerList(vec![DaemonPeer::new(a.clone()), DaemonPeer::new(b.clone())]));
    assert_eq!(app.state.selected, Some(0));
    app.handle_input(Key::Char('j'));
    assert!(matches!(app.handle_input(Key::Enter), Some(ClientEvent::RequestVerify(ref q)) if q.same_as(&b)));
    assert!(matches!(app.handle_input(Key::Char('d')), Some(ClientEvent::DisconnectPeer(ref q)) if q.same_as(&b)));
    assert!(matches!(app.handle_input(Key::Char('r')), Some(ClientEvent::RequestPeerList)));
    assert!(matches!(app.handle_input(Key::Char('R')), Some(ClientEvent::RequestPeerList)));
    app.handle_deamon(DaemonEvent::VerifyResult(b.clone(), true));
    assert_eq!(app.state.peers[1].0.state, PeerVerifyState::Verified);
    assert!(app.handle_input(Key::Other).is_none());
}

#[test]
fn app_selection_moves_like_ratatui() {
    let mut app = App::new();
    app.handle_input(Key::Char('k'));
    assert_eq!(app.state.selected, Some(usize::MAX));
    app.handle_input(Key::Char('j'));
    assert_eq!(app.state.selected, Some(usize::MAX));
    let mut fresh = App::new();
    fresh.handle_input(Key::Char('j'));
    assert_eq!(fresh.state.selected, Some(0));
    fresh.handle_input(Key::Char('k'));
    assert_eq!(fresh.state.selected, Some(0));
}

#[test]
fn app_answers_incoming_request() {
    let mut app = App::new();
    let a = peer_id();
    app.handle_deamon(DaemonEvent::PeerList(vec![DaemonPeer::new(a.clone())]));
    let mut asking = DaemonPeer::new(a.clone());
    asking.set_hostname("pad".into());
    app.handle_deamon(DaemonEvent::InComingVerify(asking));
    assert!(matches!(app.state.ui_state, AppUIState::InCommingVerify(_)));
    assert!(matches!(app.handle_input(Key::Char('Y')), Some(ClientEvent::VerifyConfirm(ref q, true)) if q.same_as(&a)));
    assert!(matches!(app.state.ui_state, AppUIState::List));
    assert_eq!(app.state.peers[0].0.state, PeerVerifyState::Verified);
    assert!(app.handle_input(Key::Char('y')).is_none());
}

#[test]
fn app_quits() {
    let mut app = App::new();
    assert!(app.handle_input(Key::Char('q')).is_none());
    assert!(app.should_quit);
}

#[test]
fn centered_rectangle_offsets() {
    assert_eq!(centered_offsets(100, 5, 120, 25), (10, 10));
    assert_eq!(centered_offsets(10, 3, 11, 4), (0, 0));
}

#[test]
fn client_configs_default_log_names() {
    let c = localex::tui::Config::from(localex::tui::Cli { log_file_name: None, sock: None });
    assert_eq!(c.log_file_name, "tui-log");
    let d = config::Config::from(config::Cli {
        new_profile: false,
        no_save: true,
        log_file_name: Some("mine".into()),
        sock: None,
    });
    assert_eq!(d.log_file_name, "mine");
}

#[test]
fn app_takes_the_selection_the_drawing_left() {
    let mut app = App::new();
    let a = peer_id();
    let b = peer_id();
    app.handle_deamon(DaemonEvent::PeerList(vec![DaemonPeer::new(a.clone()), DaemonPeer::new(b.clone())]));
    app.handle_input(Key::Char('j'));
    app.handle_input(Key::Char('j'));
    app.handle_input(Key::Char('j'));
    assert_eq!(app.state.selected, Some(3));
    app.list_drawn(Some(1));
    assert_eq!(app.state.selected, Some(1));
    assert_eq!(app.state.peers.len(), 2);
    assert!(matches!(app.handle_input(Key::Enter), Some(ClientEvent::RequestVerify(ref q)) if q.same_as(&b)));
    app.list_drawn(None);
    assert!(app.handle_input(Key::Enter).is_none());
}
