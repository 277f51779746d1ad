//! Where the daemon keeps its key pair and the peers it has paired with. The keyring-backed
//! store lives around the library; the store here keeps the peers in memory and no key.
use vstd::prelude::*;
use crate::event::peer_views;
use crate::peer::{DaemonPeer, DaemonPeerView, PeerId};
use crate::table::PeerTable;

verus! {

/// A store of the local key pair, in libp2p's protobuf encoding. By default nothing is
/// stored and saving does nothing.
pub trait LocalKeyStore {
    fn get_local_key(&self) -> (r: Option<Vec<u8>>)
        default_ensures
            r is None,
    {
        None
    }

    fn save_local_key(&self, _key: &[u8]) -> (r: Result<(), String>)
        default_ensures
            r is Ok,
    {
        Ok(())
    }
}

/// A store of the peers paired with; an error is its message.
pub trait PiarPeersStore {
    fn get_peers(&self) -> Vec<DaemonPeer>;

    fn save_peers(&mut self) -> Result<(), String>;

    fn add_peer(&mut self, peer: DaemonPeer);

    fn remove_peer(&mut self, peer: &PeerId);
}

/// Everything the daemon stores.
pub trait DaemonDataStore: LocalKeyStore + PiarPeersStore {}

/// Peers kept in memory only, by id.
pub struct DefaultStore {
    peers: PeerTable<DaemonPeer>,
}

impl DefaultStore {
    #[verifier::type_invariant]
    spec fn wf(&self) -> bool {
        self.peers.wf()
    }

    /// The stored peers, by id.
    pub closed spec fn view(&self) -> Map<Seq<u8>, DaemonPeerView> {
        self.peers.view().map_values(|p: DaemonPeer| p@)
    }

    /// The stored peers in id order.
    pub closed spec fn peer_list(&self) -> Seq<DaemonPeerView> {
        peer_views(self.peers.ordered_values())
    }

    /// An empty store.
    pub fn new() -> (r: DefaultStore)
        ensures
            r.view() == Map::<Seq<u8>, DaemonPeerView>::empty(),
    {
        let r = DefaultStore { peers: PeerTable::new() };
        assert(r.view() =~= Map::<Seq<u8>, DaemonPeerView>::empty());
        r
    }
}

impl LocalKeyStore for DefaultStore {}

impl PiarPeersStore for DefaultStore {
    /// The stored peers, in id order.
    fn get_peers(&self) -> (r: Vec<DaemonPeer>)
        ensures
            peer_views(r@) == self.peer_list(),
    {
        proof {
            use_type_invariant(self);
            self.peers.lemma_ordered();
        }
        let mut out: Vec<DaemonPeer> = Vec::new();
        let mut i: usize = 0;
        let n = self.peers.len();
        while i < n
            invariant
                n == self.peers.keys().len(),
                self.peers.keys().len() == self.peers.ordered_values().len(),
                0 <= i <= n,
                out@.len() == i,
                forall|j: int| 0 <= j < i ==> (#[trigger] out@[j])@ == self.peers.ordered_values()[j]@,
            decreases n - i,
        {
            out.push(self.peers.value_at(i).duplicate());
            i = i + 1;
        }
        proof {
            assert(peer_views(out@) =~= self.peer_list());
        }
        out
    }

    /// Nothing to persist.
    fn save_peers(&mut self) -> (r: Result<(), String>)
        ensures
            r is Ok,
            final(self).view() == old(self).view(),
    {
        Ok(())
    }

    /// Stores a peer, replacing the one of the same id.
    fn add_peer(&mut self, peer: DaemonPeer)
        ensures
            final(self).view() == old(self).view().insert(peer.peer_id@, peer@),
    {
        proof {
            use_type_invariant(&*self);
        }
        let ghost id = peer.peer_id@;
        let ghost pv = peer@;
        let mut peers = PeerTable::new();
        std::mem::swap(&mut peers, &mut self.peers);
        peers.insert(peer.peer_id.duplicate(), peer);
        self.peers = peers;
        proof {
            assert(self.view() =~= old(self).view().insert(id, pv));
        }
    }

    /// Forgets a peer.
    fn remove_peer(&mut self, peer: &PeerId)
        ensures
            final(self).view() == old(self).view().remove(peer@),
    {
        proof {
            use_type_invariant(&*self);
        }
        let mut peers = PeerTable::new();
        std::mem::swap(&mut peers, &mut self.peers);
        peers.remove(peer);
        self.peers = peers;
        proof {
            assert(self.view() =~= old(self).view().remove(peer@));
        }
    }
}

impl DaemonDataStore for DefaultStore {}

} // verus!
