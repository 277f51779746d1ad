//! The types handed across the FFI boundary to the Android side, and their conversions from and
//! to the library's events.
use vstd::prelude::*;
use crate::bytes::copy_bytes;
use crate::event::{ClientEvent, ClientEventView, DaemonEvent, DaemonEventView};
use crate::peer::{
    libp2p_peer_id_from_bytes, libp2p_peer_id_to_base58, opt_string_view, DaemonPeer, DaemonPeerView, PeerId,
    PeerVerifyState,
};

verus! {

/// Errors reported to the Android side.
#[derive(Clone, Copy, PartialEq, Eq, Structural, Debug)]
pub enum FFIError {
    InitError,
    AccessServiceBeforeInitError,
    CreateServiceError,
    GetServiceError,
    GetDaemonChannelError,
    FFIConvertError,
    FFIChannelError,
    Unknown,
}

/// The message of an error.
pub open spec fn ffi_error_message(e: FFIError) -> Seq<char> {
    match e {
        FFIError::InitError => "init error"@,
        FFIError::AccessServiceBeforeInitError => "access service before init error"@,
        FFIError::CreateServiceError => "create service error"@,
        FFIError::GetServiceError => "get service error"@,
        FFIError::GetDaemonChannelError => "get daemon channel error"@,
        FFIError::FFIConvertError => "ffi convert error"@,
        FFIError::FFIChannelError => "ffi channel error"@,
        FFIError::Unknown => "unknown error"@,
    }
}

impl FFIError {
    /// The error's message.
    pub fn message(&self) -> (r: String)
        ensures
            r@ == ffi_error_message(*self),
    {
        let s = match self {
            FFIError::InitError => "init error",
            FFIError::AccessServiceBeforeInitError => "access service before init error",
            FFIError::CreateServiceError => "create service error",
            FFIError::GetServiceError => "get service error",
            FFIError::GetDaemonChannelError => "get daemon channel error",
            FFIError::FFIConvertError => "ffi convert error",
            FFIError::FFIChannelError => "ffi channel error",
            FFIError::Unknown => "unknown error",
        };
        s.to_string()
    }
}

/// A client event as the Android side sends it, peers given by their bytes.
pub enum FFIClientEvent {
    RequestVerify(Vec<u8>),
    RequestLocalInfo,
    RequestPeerList,
    DisconnectPeer(Vec<u8>),
    VerifyConfirm(Vec<u8>, bool),
}

/// A `FFIClientEvent` taken by plain values.
pub enum FFIClientEventView {
    RequestVerify(Seq<u8>),
    RequestLocalInfo,
    RequestPeerList,
    DisconnectPeer(Seq<u8>),
    VerifyConfirm(Seq<u8>, bool),
}

impl View for FFIClientEvent {
    type V = FFIClientEventView;

    open spec fn view(&self) -> FFIClientEventView {
        match self {
            FFIClientEvent::RequestVerify(p) => FFIClientEventView::RequestVerify(p@),
            FFIClientEvent::RequestLocalInfo => FFIClientEventView::RequestLocalInfo,
            FFIClientEvent::RequestPeerList => FFIClientEventView::RequestPeerList,
            FFIClientEvent::DisconnectPeer(p) => FFIClientEventView::DisconnectPeer(p@),
            FFIClientEvent::VerifyConfirm(p, b) => FFIClientEventView::VerifyConfirm(p@, *b),
        }
    }
}

/// The client events the Android side knows of.
pub open spec fn is_ffi_client_event(e: ClientEventView) -> bool {
    ||| e is RequestVerify
    ||| e is RequestLocalInfo
    ||| e is RequestPeerList
    ||| e is DisconnectPeer
    ||| e is VerifyConfirm
}

/// A client event as the Android side sees it.
pub open spec fn ffi_client_event_of(e: ClientEventView) -> FFIClientEventView {
    match e {
        ClientEventView::RequestVerify(p) => FFIClientEventView::RequestVerify(p),
        ClientEventView::RequestLocalInfo => FFIClientEventView::RequestLocalInfo,
        ClientEventView::RequestPeerList => FFIClientEventView::RequestPeerList,
        ClientEventView::DisconnectPeer(p) => FFIClientEventView::DisconnectPeer(p),
        ClientEventView::VerifyConfirm(p, b) => FFIClientEventView::VerifyConfirm(p, b),
        _ => FFIClientEventView::RequestLocalInfo,
    }
}

/// The client event an Android event stands for, where its peer bytes parse.
pub open spec fn client_event_of_ffi(e: FFIClientEventView) -> Option<ClientEventView> {
    match e {
        FFIClientEventView::RequestVerify(p) => match libp2p_peer_id_from_bytes(p) {
            Some(q) => Some(ClientEventView::RequestVerify(q)),
            None => None,
        },
        FFIClientEventView::RequestLocalInfo => Some(ClientEventView::RequestLocalInfo),
        FFIClientEventView::RequestPeerList => Some(ClientEventView::RequestPeerList),
        FFIClientEventView::DisconnectPeer(p) => match libp2p_peer_id_from_bytes(p) {
            Some(q) => Some(ClientEventView::DisconnectPeer(q)),
            None => None,
        },
        FFIClientEventView::VerifyConfirm(p, b) => match libp2p_peer_id_from_bytes(p) {
            Some(q) => Some(ClientEventView::VerifyConfirm(q, b)),
            None => None,
        },
    }
}

fn parse_peer(bytes: &Vec<u8>) -> (r: Result<PeerId, FFIError>)
    ensures
        match r {
            Ok(id) => libp2p_peer_id_from_bytes(bytes@) == Some(id@),
            Err(e) => e == FFIError::FFIConvertError && libp2p_peer_id_from_bytes(bytes@) is None,
        },
{
    match PeerId::from_bytes(bytes.as_slice()) {
        Some(id) => Ok(id),
        None => Err(FFIError::FFIConvertError),
    }
}

impl FFIClientEvent {
    /// The Android form of a client event; events the Android side does not know of are left
    /// out.
    pub fn from_event(event: ClientEvent) -> (r: FFIClientEvent)
        requires
            is_ffi_client_event(event@),
        ensures
            r@ == ffi_client_event_of(event@),
    {
        match event {
            ClientEvent::RequestVerify(p) => FFIClientEvent::RequestVerify(p.to_bytes()),
            ClientEvent::RequestLocalInfo => FFIClientEvent::RequestLocalInfo,
            ClientEvent::RequestPeerList => FFIClientEvent::RequestPeerList,
            ClientEvent::DisconnectPeer(p) => FFIClientEvent::DisconnectPeer(p.to_bytes()),
            ClientEvent::VerifyConfirm(p, result) => FFIClientEvent::VerifyConfirm(p.to_bytes(), result),
            _ => FFIClientEvent::RequestLocalInfo,
        }
    }

    /// The client event an Android event stands for; refused when a peer's bytes do not
    /// parse.
    pub fn to_client_event(self) -> (r: Result<ClientEvent, FFIError>)
        ensures
            match client_event_of_ffi(self@) {
                Some(e) => r matches Ok(c) && c@ == e,
                None => r == Err::<ClientEvent, FFIError>(FFIError::FFIConvertError),
            },
    {
        match self {
            FFIClientEvent::RequestVerify(p) => match parse_peer(&p) {
                Ok(id) => Ok(ClientEvent::RequestVerify(id)),
                Err(e) => Err(e),
            },
            FFIClientEvent::RequestLocalInfo => Ok(ClientEvent::RequestLocalInfo),
            FFIClientEvent::RequestPeerList => Ok(ClientEvent::RequestPeerList),
            FFIClientEvent::DisconnectPeer(p) => match parse_peer(&p) {
                Ok(id) => Ok(ClientEvent::DisconnectPeer(id)),
                Err(e) => Err(e),
            },
            FFIClientEvent::VerifyConfirm(p, result) => match parse_peer(&p) {
                Ok(id) => Ok(ClientEvent::VerifyConfirm(id, result)),
                Err(e) => Err(e),
            },
        }
    }
}

/// A peer's verification state on the Android side.
#[derive(Clone, Copy, PartialEq, Eq, Structural, Debug)]
pub enum FFIPeerVerifyState {
    Verified,
    Blocked,
    WaitingVerification,
}

/// The Android form of a state.
pub open spec fn ffi_state_of(s: PeerVerifyState) -> FFIPeerVerifyState {
    match s {
        PeerVerifyState::Verified => FFIPeerVerifyState::Verified,
        PeerVerifyState::Blocked => FFIPeerVerifyState::Blocked,
        PeerVerifyState::WaitingVerification => FFIPeerVerifyState::WaitingVerification,
    }
}

/// The state an Android state stands for.
pub open spec fn state_of_ffi(s: FFIPeerVerifyState) -> PeerVerifyState {
    match s {
        FFIPeerVerifyState::Verified => PeerVerifyState::Verified,
        FFIPeerVerifyState::Blocked => PeerVerifyState::Blocked,
        FFIPeerVerifyState::WaitingVerification => PeerVerifyState::WaitingVerification,
    }
}

impl FFIPeerVerifyState {
    /// The Android form of a state.
    pub fn from_state(value: PeerVerifyState) -> (r: FFIPeerVerifyState)
        ensures
            r == ffi_state_of(value),
    {
        match value {
            PeerVerifyState::Verified => FFIPeerVerifyState::Verified,
            PeerVerifyState::Blocked => FFIPeerVerifyState::Blocked,
            PeerVerifyState::WaitingVerification => FFIPeerVerifyState::WaitingVerification,
        }
    }

    /// The state this stands for.
    pub fn to_state(self) -> (r: PeerVerifyState)
        ensures
            r == state_of_ffi(self),
    {
        match self {
            FFIPeerVerifyState::Verified => PeerVerifyState::Verified,
            FFIPeerVerifyState::Blocked => PeerVerifyState::Blocked,
            FFIPeerVerifyState::WaitingVerification => PeerVerifyState::WaitingVerification,
        }
    }
}

impl From<PeerVerifyState> for FFIPeerVerifyState {
    fn from(value: PeerVerifyState) -> (r: Self) {
        FFIPeerVerifyState::from_state(value)
    }
}

impl vstd::std_specs::convert::FromSpecImpl<PeerVerifyState> for FFIPeerVerifyState {
    open spec fn obeys_from_spec() -> bool {
        true
    }

    open spec fn from_spec(v: PeerVerifyState) -> FFIPeerVerifyState {
        ffi_state_of(v)
    }
}

impl From<FFIPeerVerifyState> for PeerVerifyState {
    fn from(value: FFIPeerVerifyState) -> (r: Self) {
        value.to_state()
    }
}

impl vstd::std_specs::convert::FromSpecImpl<FFIPeerVerifyState> for PeerVerifyState {
    open spec fn obeys_from_spec() -> bool {
        true
    }

    open spec fn from_spec(v: FFIPeerVerifyState) -> PeerVerifyState {
        state_of_ffi(v)
    }
}

/// A peer as the Android side sees it.
pub struct FFIDaemonPeer {
    pub peer_id: Vec<u8>,
    pub peer_id_str: String,
    pub state: FFIPeerVerifyState,
    pub hostname: String,
}

/// A `FFIDaemonPeer` taken by plain values.
pub struct FFIDaemonPeerView {
    pub peer_id: Seq<u8>,
    pub peer_id_str: Seq<char>,
    pub state: FFIPeerVerifyState,
    pub hostname: Seq<char>,
}

impl View for FFIDaemonPeer {
    type V = FFIDaemonPeerView;

    open spec fn view(&self) -> FFIDaemonPeerView {
        FFIDaemonPeerView {
            peer_id: self.peer_id@,
            peer_id_str: self.peer_id_str@,
            state: self.state,
            hostname: self.hostname@,
        }
    }
}

/// The Android form of a peer: an unknown host name reads "unknown".
pub open spec fn ffi_peer_of(p: DaemonPeerView) -> FFIDaemonPeerView {
    FFIDaemonPeerView {
        peer_id: p.peer_id,
        peer_id_str: libp2p_peer_id_to_base58(p.peer_id),
        state: ffi_state_of(p.state),
        hostname: match p.hostname {
            Some(h) => h,
            None => "unknown"@,
        },
    }
}

/// The peer an Android peer stands for, where its bytes parse.
pub open spec fn peer_of_ffi(p: FFIDaemonPeerView) -> Option<DaemonPeerView> {
    match libp2p_peer_id_from_bytes(p.peer_id) {
        Some(id) => Some(DaemonPeerView { peer_id: id, state: state_of_ffi(p.state), hostname: Some(p.hostname) }),
        None => None,
    }
}

impl FFIDaemonPeer {
    /// The Android form of a peer.
    pub fn from_peer(value: DaemonPeer) -> (r: FFIDaemonPeer)
        ensures
            r@ == ffi_peer_of(value@),
    {
        let peer_id = value.peer_id.to_bytes();
        let peer_id_str = value.peer_id.to_base58();
        let hostname = match value.hostname {
            Some(h) => h,
            None => "unknown".to_string(),
        };
        FFIDaemonPeer { peer_id, peer_id_str, state: FFIPeerVerifyState::from_state(value.state), hostname }
    }

    /// The peer this stands for; refused when its bytes do not parse.
    pub fn to_peer(self) -> (r: Result<DaemonPeer, FFIError>)
        ensures
            match peer_of_ffi(self@) {
                Some(p) => r matches Ok(q) && q@ == p,
                None => r == Err::<DaemonPeer, FFIError>(FFIError::FFIConvertError),
            },
    {
        match parse_peer(&self.peer_id) {
            Ok(id) => Ok(DaemonPeer { peer_id: id, state: self.state.to_state(), hostname: Some(self.hostname) }),
            Err(e) => Err(e),
        }
    }
}

/// A daemon event as the Android side receives it.
pub enum FFIDaemonEvent {
    VerifyResult(Vec<u8>, String, bool),
    InComingVerify(FFIDaemonPeer),
    PeerList(Vec<FFIDaemonPeer>),
    LocalInfo(String, Vec<u8>),
    Error(FFIError),
    Log(String),
    Unknown,
}

/// A `FFIDaemonEvent` taken by plain values.
pub enum FFIDaemonEventView {
    VerifyResult(Seq<u8>, Seq<char>, bool),
    InComingVerify(FFIDaemonPeerView),
    PeerList(Seq<FFIDaemonPeerView>),
    LocalInfo(Seq<char>, Seq<u8>),
    Error(FFIError),
    Log(Seq<char>),
    Unknown,
}

impl View for FFIDaemonEvent {
    type V = FFIDaemonEventView;

    open spec fn view(&self) -> FFIDaemonEventView {
        match self {
            FFIDaemonEvent::VerifyResult(p, s, b) => FFIDaemonEventView::VerifyResult(p@, s@, *b),
            FFIDaemonEvent::InComingVerify(p) => FFIDaemonEventView::InComingVerify(p@),
            FFIDaemonEvent::PeerList(l) => FFIDaemonEventView::PeerList(l@.map_values(|p: FFIDaemonPeer| p@)),
            FFIDaemonEvent::LocalInfo(h, p) => FFIDaemonEventView::LocalInfo(h@, p@),
            FFIDaemonEvent::Error(e) => FFIDaemonEventView::Error(*e),
            FFIDaemonEvent::Log(s) => FFIDaemonEventView::Log(s@),
            FFIDaemonEvent::Unknown => FFIDaemonEventView::Unknown,
        }
    }
}

/// The Android form of a daemon event; events the Android side does not know of are
/// `Unknown`.
pub open spec fn ffi_daemon_event_of(e: DaemonEventView) -> FFIDaemonEventView {
    match e {
        DaemonEventView::VerifyResult(p, b) => FFIDaemonEventView::VerifyResult(p, libp2p_peer_id_to_base58(p), b),
        DaemonEventView::InComingVerify(p) => FFIDaemonEventView::InComingVerify(ffi_peer_of(p)),
        DaemonEventView::PeerList(l) => FFIDaemonEventView::PeerList(l.map_values(|p: DaemonPeerView| ffi_peer_of(p))),
        DaemonEventView::LocalInfo(h, p) => FFIDaemonEventView::LocalInfo(h, p),
        _ => FFIDaemonEventView::Unknown,
    }
}

/// The peers of an Android list whose bytes parse, in order.
pub open spec fn parsed_peers(l: Seq<FFIDaemonPeerView>) -> Seq<DaemonPeerView>
    decreases l.len(),
{
    if l.len() == 0 {
        Seq::empty()
    } else {
        match peer_of_ffi(l.last()) {
            Some(p) => parsed_peers(l.drop_last()).push(p),
            None => parsed_peers(l.drop_last()),
        }
    }
}

/// The daemon event an Android event stands for, where its peer bytes parse; a list keeps
/// the peers that parse; events the daemon does not send are `Unknown`.
pub open spec fn daemon_event_of_ffi(e: FFIDaemonEventView) -> Option<DaemonEventView> {
    match e {
        FFIDaemonEventView::VerifyResult(p, _, b) => match libp2p_peer_id_from_bytes(p) {
            Some(q) => Some(DaemonEventView::VerifyResult(q, b)),
            None => None,
        },
        FFIDaemonEventView::InComingVerify(p) => match peer_of_ffi(p) {
            Some(q) => Some(DaemonEventView::InComingVerify(q)),
            None => None,
        },
        FFIDaemonEventView::LocalInfo(h, p) => match libp2p_peer_id_from_bytes(p) {
            Some(q) => Some(DaemonEventView::LocalInfo(h, q)),
            None => None,
        },
        FFIDaemonEventView::PeerList(l) => Some(DaemonEventView::PeerList(parsed_peers(l))),
        _ => Some(DaemonEventView::Unknown),
    }
}

impl FFIDaemonEvent {
    /// The Android form of a daemon event.
    pub fn from_event(event: DaemonEvent) -> (r: FFIDaemonEvent)
        ensures
            r@ == ffi_daemon_event_of(event@),
    {
        match event {
            DaemonEvent::VerifyResult(p, result) => {
                let b = p.to_bytes();
                let s = p.to_base58();
                FFIDaemonEvent::VerifyResult(b, s, result)
            },
            DaemonEvent::InComingVerify(p) => FFIDaemonEvent::InComingVerify(FFIDaemonPeer::from_peer(p)),
            DaemonEvent::PeerList(peers) => {
                let mut out: Vec<FFIDaemonPeer> = Vec::new();
                let mut source = peers;
                let ghost all = source@;
                let n = source.len();
                let mut i: usize = 0;
                while i < n
                    invariant
                        n == all.len(),
                        0 <= i <= n,
                        source@ == all.skip(i as int),
                        out@.len() == i,
                        forall|j: int| 0 <= j < i ==> (#[trigger] out@[j])@ == ffi_peer_of(all[j]@),
                    decreases n - i,
                {
                    let p = source.remove(0);
                    proof {
                        assert(source@ =~= all.skip(i + 1));
                    }
                    out.push(FFIDaemonPeer::from_peer(p));
                    i = i + 1;
                }
                proof {
                    assert(out@.map_values(|p: FFIDaemonPeer| p@) =~= crate::event::peer_views(all).map_values(
                        |p: DaemonPeerView| ffi_peer_of(p),
                    ));
                }
                FFIDaemonEvent::PeerList(out)
            },
            DaemonEvent::LocalInfo(hostname, local_id) => FFIDaemonEvent::LocalInfo(hostname, local_id.to_bytes()),
            _ => FFIDaemonEvent::Unknown,
        }
    }

    /// The daemon event this stands for; refused when a peer's bytes do not parse, except in
    /// a list, which keeps the peers that parse.
    pub fn to_daemon_event(self) -> (r: Result<DaemonEvent, FFIError>)
        ensures
            match daemon_event_of_ffi(self@) {
                Some(e) => r matches Ok(d) && d@ == e,
                None => r == Err::<DaemonEvent, FFIError>(FFIError::FFIConvertError),
            },
    {
        match self {
            FFIDaemonEvent::VerifyResult(p, _, result) => match parse_peer(&p) {
                Ok(id) => Ok(DaemonEvent::VerifyResult(id, result)),
                Err(e) => Err(e),
            },
            FFIDaemonEvent::InComingVerify(p) => match p.to_peer() {
                Ok(q) => Ok(DaemonEvent::InComingVerify(q)),
                Err(e) => Err(e),
            },
            FFIDaemonEvent::LocalInfo(hostname, p) => match parse_peer(&p) {
                Ok(id) => Ok(DaemonEvent::LocalInfo(hostname, id)),
                Err(e) => Err(e),
            },
            FFIDaemonEvent::PeerList(peers) => {
                let mut out: Vec<DaemonPeer> = Vec::new();
                let mut source = peers;
                let ghost all = source@.map_values(|p: FFIDaemonPeer| p@);
                let n = source.len();
                let mut i: usize = 0;
                while i < n
                    invariant
                        n == all.len(),
                        0 <= i <= n,
                        source@.len() == n - i,
                        source@.map_values(|p: FFIDaemonPeer| p@) == all.skip(i as int),
                        crate::event::peer_views(out@) == parsed_peers(all.take(i as int)),
                    decreases n - i,
                {
                    let ghost before = source@;
                    let p = source.remove(0);
                    proof {
                        assert(source@ =~= before.drop_first());
                        assert forall|j: int| 0 <= j < source@.len() implies (#[trigger] source@[j])@ == all.skip(i + 1)[j] by {
                            assert(before.map_values(|p: FFIDaemonPeer| p@)[j + 1] == all.skip(i as int)[j + 1]);
                        }
                        assert(source@.map_values(|p: FFIDaemonPeer| p@) =~= all.skip(i + 1));
                        assert(before.map_values(|p: FFIDaemonPeer| p@)[0] == all.skip(i as int)[0]);
                        assert(p@ == all[i as int]);
                        assert(all.take(i + 1).drop_last() =~= all.take(i as int));
                    }
                    match p.to_peer() {
                        Ok(q) => {
                            out.push(q);
                            proof {
                                assert(crate::event::peer_views(out@) =~= parsed_peers(all.take(i as int)).push(
                                    peer_of_ffi(all[i as int]).unwrap(),
                                ));
                            }
                        },
                        Err(_) => {},
                    }
                    i = i + 1;
                }
                proof {
                    assert(all.take(n as int) =~= all);
                }
                Ok(DaemonEvent::PeerList(out))
            },
            _ => Ok(DaemonEvent::Unknown),
        }
    }
}

} // verus!
