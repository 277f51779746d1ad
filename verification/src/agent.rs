//! The first, single-binary agent: its command line, its wire types, and its peer table with
//! verification retries (a peer failing verification too often is blocked, and a blocked peer
//! stays known).
use vstd::prelude::*;
use crate::peer::{opt_string_view, PeerId};
use crate::table::PeerTable;

verus! {

/// The agent's command-line arguments.
#[derive(Clone, Copy, PartialEq, Eq, Structural, Debug)]
pub struct Cli {
    pub new_profile: bool,
    pub no_save: bool,
    pub tui: bool,
}

/// The kind of a stream between agents.
#[derive(Clone, Copy, PartialEq, Eq, Structural, Debug)]
pub enum StreamKind {
    Auth,
    Handshake,
}

/// The wire code of a stream kind.
pub open spec fn stream_kind_code(k: StreamKind) -> u8 {
    match k {
        StreamKind::Auth => 0,
        StreamKind::Handshake => 1,
    }
}

impl StreamKind {
    /// The kind's code on the wire (its position in the enum).
    pub fn code(&self) -> (r: u8)
        ensures
            r == stream_kind_code(*self),
    {
        match self {
            StreamKind::Auth => 0,
            StreamKind::Handshake => 1,
        }
    }

    /// The kind with a wire code, if any.
    pub fn from_code(code: u8) -> (r: Option<StreamKind>)
        ensures
            match r {
                Some(k) => stream_kind_code(k) == code,
                None => code > 1,
            },
    {
        if code == 0 {
            Some(StreamKind::Auth)
        } else if code == 1 {
            Some(StreamKind::Handshake)
        } else {
            None
        }
    }
}

/// A request between agents.
pub struct LocalExAuthRequest {
    pub kind: StreamKind,
    pub public_key: Option<Vec<u8>>,
    pub hostname: Option<String>,
}

/// Failed verifications a peer is allowed before it is blocked.
pub const RETRY_LIMIT: u8 = 3;

/// Where a peer stands, counting failed verifications while it waits.
#[derive(Clone, Copy, PartialEq, Eq, Structural, Debug)]
pub enum PeerVerifyState {
    Verified,
    Blocked,
    WaitingVerification(u8),
}

/// The state after a failed verification.
pub open spec fn state_after_fail(s: PeerVerifyState) -> PeerVerifyState {
    match s {
        PeerVerifyState::WaitingVerification(count) => if count >= RETRY_LIMIT {
            PeerVerifyState::Blocked
        } else {
            PeerVerifyState::WaitingVerification((count + 1) as u8)
        },
        other => other,
    }
}

/// The state after `n` failed verifications in a row.
pub open spec fn state_after_fails(s: PeerVerifyState, n: nat) -> PeerVerifyState
    decreases n,
{
    if n == 0 {
        s
    } else {
        state_after_fail(state_after_fails(s, (n - 1) as nat))
    }
}

impl PeerVerifyState {
    /// A failed verification: a waiting peer counts it, and is blocked once it had failed
    /// `RETRY_LIMIT` times already; a verified or blocked peer stays as it is.
    pub fn on_fail(state: &Self) -> (r: Self)
        ensures
            r == state_after_fail(*state),
    {
        match *state {
            PeerVerifyState::WaitingVerification(count) => {
                if count >= RETRY_LIMIT {
                    PeerVerifyState::Blocked
                } else {
                    PeerVerifyState::WaitingVerification(count + 1)
                }
            },
            s => s,
        }
    }
}

/// A peer the agent knows.
pub struct RemotePeer {
    pub peer_id: PeerId,
    pub state: PeerVerifyState,
    pub hostname: Option<String>,
}

impl RemotePeer {
    /// A peer just seen: waiting, no failure yet, host name unknown.
    pub fn new(peer_id: PeerId) -> (r: RemotePeer)
        ensures
            r.peer_id@ == peer_id@,
            r.state == PeerVerifyState::WaitingVerification(0),
            r.hostname is None,
    {
        RemotePeer { peer_id, state: PeerVerifyState::WaitingVerification(0), hostname: None }
    }

    /// Records the host name.
    pub fn hostname(&mut self, hostname: String)
        ensures
            final(self).peer_id == old(self).peer_id,
            final(self).state == old(self).state,
            opt_string_view(final(self).hostname) == Some(hostname@),
    {
        self.hostname = Some(hostname);
    }
}

/// The agent's peers.
pub struct LocalExProtocol {
    pub peers: PeerTable<RemotePeer>,
}

impl LocalExProtocol {
    pub open spec fn wf(&self) -> bool {
        self.peers.wf()
    }

    /// The state of each known peer.
    pub open spec fn states(&self) -> Map<Seq<u8>, PeerVerifyState> {
        self.peers.view().map_values(|p: RemotePeer| p.state)
    }

    pub fn new() -> (r: LocalExProtocol)
        ensures
            r.wf(),
            r.states() == Map::<Seq<u8>, PeerVerifyState>::empty(),
    {
        let r = LocalExProtocol { peers: PeerTable::new() };
        assert(r.states() =~= Map::<Seq<u8>, PeerVerifyState>::empty());
        r
    }

    /// Learns of a peer; a known peer is left as it is.
    pub fn add_peer(&mut self, peer_id: PeerId)
        requires
            old(self).wf(),
        ensures
            final(self).wf(),
            final(self).states() == if old(self).states().contains_key(peer_id@) {
                old(self).states()
            } else {
                old(self).states().insert(peer_id@, PeerVerifyState::WaitingVerification(0))
            },
            old(self).peers.view().contains_key(peer_id@) ==> final(self).peers.view() == old(self).peers.view(),
            !old(self).peers.view().contains_key(peer_id@) ==> {
                &&& final(self).peers.view().remove(peer_id@) == old(self).peers.view()
                &&& final(self).peers.view().contains_key(peer_id@)
                &&& final(self).peers.view()[peer_id@].peer_id@ == peer_id@
                &&& final(self).peers.view()[peer_id@].state == PeerVerifyState::WaitingVerification(0)
                &&& final(self).peers.view()[peer_id@].hostname is None
            },
    {
        if self.peers.contains_key(&peer_id) {
            return;
        }
        let ghost id = peer_id@;
        let p = RemotePeer::new(peer_id.duplicate());
        self.peers.insert(peer_id, p);
        proof {
            assert(self.states() =~= old(self).states().insert(id, PeerVerifyState::WaitingVerification(0)));
            assert(self.peers.view().remove(id) =~= old(self).peers.view());
        }
    }

    /// Forgets a peer, unless it is blocked: a blocked peer stays known.
    pub fn remove_peer(&mut self, peer_id: &PeerId)
        requires
            old(self).wf(),
        ensures
            final(self).wf(),
            final(self).states() == if old(self).states().get(peer_id@) == Some(PeerVerifyState::Blocked) {
                old(self).states()
            } else {
                old(self).states().remove(peer_id@)
            },
            final(self).peers.view() == if old(self).states().get(peer_id@) == Some(PeerVerifyState::Blocked) {
                old(self).peers.view()
            } else {
                old(self).peers.view().remove(peer_id@)
            },
    {
        if let Some(true) = self.is_blocked(peer_id) {
            return;
        }
        self.peers.remove(peer_id);
        proof {
            assert(self.states() =~= old(self).states().remove(peer_id@));
        }
    }

    /// Runs the verification of a known, unblocked peer; an unknown or blocked peer is not
    /// verified.
    pub fn verify<F: Fn() -> bool>(&mut self, peer_id: &PeerId, on_verify: F) -> (r: bool)
        requires
            old(self).wf(),
            call_requires(on_verify, ()),
        ensures
            final(self).wf(),
            final(self).states() == old(self).states(),
            final(self).peers.view() == old(self).peers.view(),
            !old(self).states().contains_key(peer_id@) ==> !r,
            old(self).states().get(peer_id@) == Some(PeerVerifyState::Blocked) ==> !r,
            old(self).states().contains_key(peer_id@) && old(self).states()[peer_id@] != PeerVerifyState::Blocked
                ==> call_ensures(on_verify, (), r),
    {
        let blocked = match self.peers.get(peer_id) {
            None => {
                return false;
            },
            Some(peer) => peer.state == PeerVerifyState::Blocked,
        };
        if blocked {
            return false;
        }
        on_verify()
    }

    /// Whether a known peer is verified; `None` for an unknown peer.
    pub fn is_verified(&self, peer_id: &PeerId) -> (r: Option<bool>)
        requires
            self.wf(),
        ensures
            r == match self.states().get(peer_id@) {
                Some(s) => Some(s == PeerVerifyState::Verified),
                None => None::<bool>,
            },
    {
        match self.peers.get(peer_id) {
            Some(peer) => Some(peer.state == PeerVerifyState::Verified),
            None => None,
        }
    }

    /// Whether a known peer is blocked; `None` for an unknown peer.
    pub fn is_blocked(&self, peer_id: &PeerId) -> (r: Option<bool>)
        requires
            self.wf(),
        ensures
            r == match self.states().get(peer_id@) {
                Some(s) => Some(s == PeerVerifyState::Blocked),
                None => None::<bool>,
            },
    {
        match self.peers.get(peer_id) {
            Some(peer) => Some(peer.state == PeerVerifyState::Blocked),
            None => None,
        }
    }
}

} // verus!
