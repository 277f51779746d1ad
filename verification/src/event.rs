//! Events between the daemon and its clients, and the authentication messages between peers.
use vstd::prelude::*;
use crate::peer::{DaemonPeer, DaemonPeerView, PeerId, PeerVerifyState};

verus! {

/// A request from a client to the daemon.
pub enum ClientEvent {
    RequestVerify(PeerId),
    RequestLocalInfo,
    RequestPeerList,
    DisconnectPeer(PeerId),
    VerifyConfirm(PeerId, bool),
    RegistFileId(String, String, String),
    RegistRaw(String, Vec<u8>),
    UnRegistRaw(String),
    UnRegistFileId(String, String),
    UnRegistAppId(String),
    SendFile(PeerId, String, String),
    SendRaw(PeerId, String),
    SendCustomMessage(PeerId, Vec<u8>),
}

/// A `ClientEvent` taken by plain values.
pub enum ClientEventView {
    RequestVerify(Seq<u8>),
    RequestLocalInfo,
    RequestPeerList,
    DisconnectPeer(Seq<u8>),
    VerifyConfirm(Seq<u8>, bool),
    RegistFileId(Seq<char>, Seq<char>, Seq<char>),
    RegistRaw(Seq<char>, Seq<u8>),
    UnRegistRaw(Seq<char>),
    UnRegistFileId(Seq<char>, Seq<char>),
    UnRegistAppId(Seq<char>),
    SendFile(Seq<u8>, Seq<char>, Seq<char>),
    SendRaw(Seq<u8>, Seq<char>),
    SendCustomMessage(Seq<u8>, Seq<u8>),
}

impl View for ClientEvent {
    type V = ClientEventView;

    open spec fn view(&self) -> ClientEventView {
        match self {
            ClientEvent::RequestVerify(p) => ClientEventView::RequestVerify(p@),
            ClientEvent::RequestLocalInfo => ClientEventView::RequestLocalInfo,
            ClientEvent::RequestPeerList => ClientEventView::RequestPeerList,
            ClientEvent::DisconnectPeer(p) => ClientEventView::DisconnectPeer(p@),
            ClientEvent::VerifyConfirm(p, b) => ClientEventView::VerifyConfirm(p@, *b),
            ClientEvent::RegistFileId(a, f, p) => ClientEventView::RegistFileId(a@, f@, p@),
            ClientEvent::RegistRaw(i, d) => ClientEventView::RegistRaw(i@, d@),
            ClientEvent::UnRegistRaw(i) => ClientEventView::UnRegistRaw(i@),
            ClientEvent::UnRegistFileId(a, f) => ClientEventView::UnRegistFileId(a@, f@),
            ClientEvent::UnRegistAppId(a) => ClientEventView::UnRegistAppId(a@),
            ClientEvent::SendFile(p, a, f) => ClientEventView::SendFile(p@, a@, f@),
            ClientEvent::SendRaw(p, i) => ClientEventView::SendRaw(p@, i@),
            ClientEvent::SendCustomMessage(p, d) => ClientEventView::SendCustomMessage(p@, d@),
        }
    }
}

/// A notice from the daemon to its clients.
pub enum DaemonEvent {
    VerifyResult(PeerId, bool),
    InComingVerify(DaemonPeer),
    PeerList(Vec<DaemonPeer>),
    LocalInfo(String, PeerId),
    ReceivedCustomMessage(PeerId, Vec<u8>),
    FileUpdated(String, String, String),
    Unknown,
}

/// A `DaemonEvent` taken by plain values.
pub enum DaemonEventView {
    VerifyResult(Seq<u8>, bool),
    InComingVerify(DaemonPeerView),
    PeerList(Seq<DaemonPeerView>),
    LocalInfo(Seq<char>, Seq<u8>),
    ReceivedCustomMessage(Seq<u8>, Seq<u8>),
    FileUpdated(Seq<char>, Seq<char>, Seq<char>),
    Unknown,
}

/// Peers taken by their views.
pub open spec fn peer_views(peers: Seq<DaemonPeer>) -> Seq<DaemonPeerView> {
    peers.map_values(|p: DaemonPeer| p@)
}

impl View for DaemonEvent {
    type V = DaemonEventView;

    open spec fn view(&self) -> DaemonEventView {
        match self {
            DaemonEvent::VerifyResult(p, b) => DaemonEventView::VerifyResult(p@, *b),
            DaemonEvent::InComingVerify(p) => DaemonEventView::InComingVerify(p@),
            DaemonEvent::PeerList(l) => DaemonEventView::PeerList(peer_views(l@)),
            DaemonEvent::LocalInfo(h, p) => DaemonEventView::LocalInfo(h@, p@),
            DaemonEvent::ReceivedCustomMessage(p, d) => DaemonEventView::ReceivedCustomMessage(p@, d@),
            DaemonEvent::FileUpdated(a, f, p) => DaemonEventView::FileUpdated(a@, f@, p@),
            DaemonEvent::Unknown => DaemonEventView::Unknown,
        }
    }
}

/// Whether a peer accepted a verification request.
#[derive(Clone, Copy, PartialEq, Eq, Structural, Debug)]
pub enum AuthResponseState {
    Accept,
    Deny,
}

/// A verification request sent to a peer.
pub struct LocalExAuthRequest {
    pub hostname: String,
}

/// The answer to a verification request.
pub struct LocalExAuthResponse {
    pub state: AuthResponseState,
    pub hostname: String,
}

/// The verification state a client records for an answered request.
pub open spec fn verify_result_state(accepted: bool) -> PeerVerifyState {
    if accepted {
        PeerVerifyState::Verified
    } else {
        PeerVerifyState::Blocked
    }
}

} // verus!
