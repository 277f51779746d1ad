use localex::event::{ClientEvent, DaemonEvent};
use localex::ffi::{FFIClientEvent, FFIDaemonEvent, FFIDaemonPeer, FFIError, FFIPeerVerifyState};
use localex::peer::{DaemonPeer, PeerId, PeerVerifyState};

fn peer_id() -> PeerId {
    PeerId::from_bytes(&libp2p::PeerId::random().to_bytes()).unwrap()
}

#[test]
fn verify_state_crosses_both_ways() {
    for s in [PeerVerifyState::Verified, PeerVerifyState::Blocked, PeerVerifyState::WaitingVerification] {
        let f: FFIPeerVerifyState = s.into();
        let back: PeerVerifyState = f.into();
        assert_eq!(back, s);
        assert_eq!(FFIPeerVerifyState::from_state(s).to_state(), s);
    }
    assert_eq!(FFIPeerVerifyState::from(PeerVerifyState::Blocked), FFIPeerVerifyState::Blocked);
}

#[test]
fn client_event_crosses_and_back() {
    let p = peer_id();
    let f = FFIClientEvent::from_event(ClientEvent::VerifyConfirm(p.clone(), true));
    assert!(matches!(&f, FFIClientEvent::VerifyConfirm(b, true) if b == &p.to_bytes()));
    match f.to_client_event() {
        Ok(ClientEvent::VerifyConfirm(q, true)) => assert!(q.same_as(&p)),
        _ => panic!("expected the confirmation"),
    }
    assert!(matches!(FFIClientEvent::from_event(ClientEvent::RequestPeerList), FFIClientEvent::RequestPeerList));
}

#[test]
fn client_event_with_bad_id_is_refused() {
    let r = FFIClientEvent::RequestVerify(vec![1, 2, 3]).to_client_event();
    assert!(matches!(r, Err(FFIError::FFIConvertError)));
    assert!(matches!(FFIClientEvent::RequestLocalInfo.to_client_event(), Ok(ClientEvent::RequestLocalInfo)));
}

#[test]
fn daemon_peer_crosses_with_unknown_hostname() {
    let p = peer_id();
    let f = FFIDaemonPeer::from_peer(DaemonPeer::new(p.clone()));
    assert_eq!(f.hostname, "unknown");
    assert_eq!(f.peer_id_str, libp2p::PeerId::from_bytes(&p.to_bytes()).unwrap().to_string());
    assert_eq!(f.state, FFIPeerVerifyState::WaitingVerification);
    let back = f.to_peer().unwrap();
    assert!(back.peer_id.same_as(&p));
    assert_eq!(back.hostname.as_deref(), Some("unknown"));
}

#[test]
fn daemon_event_crosses_and_back() {
    let p = peer_id();
    let mut peer = DaemonPeer::new(p.clone());
    peer.set_hostname("tv".into());
    let f = FFIDaemonEvent::from_event(DaemonEvent::PeerList(vec![peer]));
    match f.to_daemon_event() {
        Ok(DaemonEvent::PeerList(l)) => {
            assert_eq!(l.len(), 1);
            assert!(l[0].peer_id.same_as(&p));
            assert_eq!(l[0].hostname.as_deref(), Some("tv"));
        }
        _ => panic!("expected the list"),
    }
    let v = FFIDaemonEvent::from_event(DaemonEvent::VerifyResult(p.clone(), true));
    assert!(matches!(&v, FFIDaemonEvent::VerifyResult(_, s, true) if s == &p.to_base58()));
    assert!(matches!(FFIDaemonEvent::from_event(DaemonEvent::Unknown), FFIDaemonEvent::Unknown));
}

#[test]
fn daemon_list_drops_unparsable_peers() {
    let good = FFIDaemonPeer::from_peer(DaemonPeer::new(peer_id()));
    let bad = FFIDaemonPeer {
        peer_id: vec![9],
        peer_id_str: String::new(),
        state: FFIPeerVerifyState::Blocked,
        hostname: "x".into(),
    };
    match FFIDaemonEvent::PeerList(vec![bad, good]).to_daemon_event() {
        Ok(DaemonEvent::PeerList(l)) => assert_eq!(l.len(), 1),
        _ => panic!("expected the list"),
    }
    assert!(matches!(FFIDaemonEvent::Log("x".into()).to_daemon_event(), Ok(DaemonEvent::Unknown)));
    assert!(matches!(FFIDaemonEvent::LocalInfo("h".into(), vec![1]).to_daemon_event(), Err(FFIError::FFIConvertError)));
}

#[test]
fn ffi_error_messages() {
    assert_eq!(FFIError::FFIConvertError.message(), "ffi convert error");
    assert_eq!(FFIError::AccessServiceBeforeInitError.message(), "access service before init error");
}
