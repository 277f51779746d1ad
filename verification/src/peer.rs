//! Peer identities and what the daemon knows of each peer.
use vstd::prelude::*;
use crate::bytes::{bytes_equal, copy_bytes};

verus! {

/// What `libp2p::PeerId::from_bytes` makes of the given bytes, the id taken by its own bytes
/// (`PeerId::to_bytes`); `None` where the bytes are refused.
pub uninterp spec fn libp2p_peer_id_from_bytes(bytes: Seq<u8>) -> Option<Seq<u8>>;

/// What `libp2p::PeerId::to_base58` returns for the id with the given bytes.
pub uninterp spec fn libp2p_peer_id_to_base58(bytes: Seq<u8>) -> Seq<char>;

/// Bytes that are the encoding of a libp2p peer id.
pub open spec fn is_peer_id_bytes(bytes: Seq<u8>) -> bool {
    libp2p_peer_id_from_bytes(bytes) == Some(bytes)
}

/// Parses a peer id with `libp2p::PeerId::from_bytes` and hands back the parsed id's bytes
/// (`PeerId::to_bytes`). Claimed: the result is what the name states; a parsed id read back
/// from its own bytes gives the same id (the crate's own round-trip test shows it).
#[verifier::external_body]
fn libp2p_parse_peer_id(bytes: &[u8]) -> (r: Option<Vec<u8>>)
    ensures
        match r {
            Some(b) => libp2p_peer_id_from_bytes(bytes@) == Some(b@),
            None => libp2p_peer_id_from_bytes(bytes@) is None,
        },
        r matches Some(b) ==> is_peer_id_bytes(b@),
{
    match libp2p::PeerId::from_bytes(bytes) {
        Ok(id) => Some(id.to_bytes()),
        Err(_) => None,
    }
}

/// Base58 text of a peer id given by its bytes (`libp2p::PeerId::to_base58`, which is also
/// what the id's `Display` writes). Claimed: the result is what the name states.
#[verifier::external_body]
fn libp2p_peer_id_base58(bytes: &[u8]) -> (r: String)
    requires
        is_peer_id_bytes(bytes@),
    ensures
        r@ == libp2p_peer_id_to_base58(bytes@),
{
    match libp2p::PeerId::from_bytes(bytes) {
        Ok(id) => id.to_base58(),
        Err(_) => String::new(),
    }
}

/// The identity of a peer, held as the bytes of its libp2p `PeerId`.
pub struct PeerId {
    bytes: Vec<u8>,
}

impl View for PeerId {
    type V = Seq<u8>;

    closed spec fn view(&self) -> Seq<u8> {
        self.bytes@
    }
}

impl PeerId {
    #[verifier::type_invariant]
    closed spec fn wf(self) -> bool {
        is_peer_id_bytes(self.bytes@)
    }

    /// Parses a peer id from its byte encoding.
    pub fn from_bytes(data: &[u8]) -> (r: Option<PeerId>)
        ensures
            match r {
                Some(id) => libp2p_peer_id_from_bytes(data@) == Some(id@),
                None => libp2p_peer_id_from_bytes(data@) is None,
            },
    {
        match libp2p_parse_peer_id(data) {
            Some(b) => Some(PeerId { bytes: b }),
            None => None,
        }
    }

    /// The byte encoding of the id.
    pub fn to_bytes(&self) -> (r: Vec<u8>)
        ensures
            r@ == self@,
    {
        copy_bytes(self.bytes.as_slice())
    }

    /// The base58 text of the id.
    pub fn to_base58(&self) -> (r: String)
        ensures
            r@ == libp2p_peer_id_to_base58(self@),
    {
        proof {
            use_type_invariant(self);
        }
        libp2p_peer_id_base58(self.bytes.as_slice())
    }

    /// Whether two ids are the same.
    pub fn same_as(&self, other: &PeerId) -> (r: bool)
        ensures
            r == (self@ == other@),
    {
        bytes_equal(self.bytes.as_slice(), other.bytes.as_slice())
    }

    /// A copy of the id.
    pub fn duplicate(&self) -> (r: PeerId)
        ensures
            r@ == self@,
    {
        proof {
            use_type_invariant(self);
        }
        PeerId { bytes: copy_bytes(self.bytes.as_slice()) }
    }

    /// The id's bytes, borrowed.
    pub fn as_bytes(&self) -> (r: &[u8])
        ensures
            r@ == self@,
    {
        self.bytes.as_slice()
    }
}

impl Clone for PeerId {
    fn clone(&self) -> (r: Self)
        ensures
            r@ == self@,
    {
        self.duplicate()
    }
}

/// Where a peer stands in the verification between two devices.
#[derive(Clone, Copy, PartialEq, Eq, Structural, Debug)]
pub enum PeerVerifyState {
    Verified,
    Blocked,
    WaitingVerification,
}

impl PeerVerifyState {
    /// The state a newly seen peer starts in.
    pub fn default_state() -> (r: PeerVerifyState)
        ensures
            r == PeerVerifyState::WaitingVerification,
    {
        PeerVerifyState::WaitingVerification
    }

    /// A verified or blocked peer is not asked to verify again.
    pub fn should_skip_verify(&self) -> (r: bool)
        ensures
            r == (*self == PeerVerifyState::Verified || *self == PeerVerifyState::Blocked),
    {
        *self == PeerVerifyState::Verified || *self == PeerVerifyState::Blocked
    }
}

impl Default for PeerVerifyState {
    fn default() -> (r: Self)
        ensures
            r == PeerVerifyState::WaitingVerification,
    {
        PeerVerifyState::WaitingVerification
    }
}

/// A copy of a string.
pub fn copy_string(s: &String) -> (r: String)
    ensures
        r@ == s@,
{
    s.clone()
}

/// A copy of an optional string.
pub fn copy_opt_string(s: &Option<String>) -> (r: Option<String>)
    ensures
        opt_string_view(r) == opt_string_view(*s),
{
    match s {
        Some(x) => Some(x.clone()),
        None => None,
    }
}

/// An optional string taken by its characters.
pub open spec fn opt_string_view(s: Option<String>) -> Option<Seq<char>> {
    match s {
        Some(x) => Some(x@),
        None => None,
    }
}

/// What the daemon knows of a peer: its id, its verification state and its host name.
pub struct DaemonPeer {
    pub peer_id: PeerId,
    pub state: PeerVerifyState,
    pub hostname: Option<String>,
}

/// A `DaemonPeer` taken by plain values.
pub struct DaemonPeerView {
    pub peer_id: Seq<u8>,
    pub state: PeerVerifyState,
    pub hostname: Option<Seq<char>>,
}

impl View for DaemonPeer {
    type V = DaemonPeerView;

    open spec fn view(&self) -> DaemonPeerView {
        DaemonPeerView {
            peer_id: self.peer_id@,
            state: self.state,
            hostname: opt_string_view(self.hostname),
        }
    }
}

impl DaemonPeer {
    /// A peer just seen: waiting for verification, host name unknown.
    pub fn new(peer_id: PeerId) -> (r: DaemonPeer)
        ensures
            r@ == (DaemonPeerView {
                peer_id: peer_id@,
                state: PeerVerifyState::WaitingVerification,
                hostname: None,
            }),
    {
        DaemonPeer { peer_id, state: PeerVerifyState::default_state(), hostname: None }
    }

    /// Records the peer's host name.
    pub fn set_hostname(&mut self, hostname: String)
        ensures
            final(self)@ == (DaemonPeerView { hostname: Some(hostname@), ..old(self)@ }),
    {
        self.hostname = Some(hostname);
    }

    /// A copy of the peer.
    pub fn duplicate(&self) -> (r: DaemonPeer)
        ensures
            r@ == self@,
    {
        DaemonPeer {
            peer_id: self.peer_id.duplicate(),
            state: self.state,
            hostname: copy_opt_string(&self.hostname),
        }
    }
}

impl Clone for DaemonPeer {
    fn clone(&self) -> (r: Self)
        ensures
            r@ == self@,
    {
        self.duplicate()
    }
}

} // verus!
