//! The daemon's protocol logic: the peers it knows, verification between peers, gossip,
//! client requests and file offers. Each handler takes an event and the node's state, updates
//! the state, and lists the actions (network, disk, client notices) for the caller to perform
//! in order.
use vstd::prelude::*;
use vstd::utf8::{decode_utf8, encode_utf8, valid_utf8};
use crate::bytes::copy_bytes;
use crate::event::{
    AuthResponseState, ClientEvent, DaemonEvent, DaemonEventView, LocalExAuthRequest, LocalExAuthResponse,
    peer_views,
};
use crate::file::{
    chunk_count, is_v4_uuid_text, new_session_id, offer_request, LocalExFileRequest, LocalExFileRequestView, FileRequestPayloadView,
    RawStore, CHUNK_SIZE,
};
use crate::message::{GossipTopic, PeerOffer, SyncOfferCollector, TopicMap};
use crate::peer::{DaemonPeer, DaemonPeerView, PeerId, PeerVerifyState};
use crate::table::PeerTable;

verus! {

/// Something the caller performs for the node.
pub enum Action<C> {
    /// Add the peer to gossipsub's explicit peers.
    AddExplicitPeer(PeerId),
    /// Remove the peer from gossipsub's explicit peers.
    RemoveExplicitPeer(PeerId),
    /// Send the event to the clients.
    Emit(DaemonEvent),
    /// Persist the peers.
    SavePeers,
    /// Send a verification request to the peer.
    SendAuthRequest(PeerId, LocalExAuthRequest),
    /// Answer a verification request on its channel.
    SendAuthResponse(C, LocalExAuthResponse),
    /// Send a client's message to the peer.
    SendCustomMessage(PeerId, Vec<u8>),
    /// Publish the data on the topic with the given hash.
    Publish(String, Vec<u8>),
    /// Publish the registered files as a sync offer.
    BroadcastSyncOffer,
    /// Decode the sync offer the peer published and hand it to `collect_sync_offers`.
    CollectSyncOffers(PeerId, Vec<u8>),
    /// Register a file path for an application.
    RegistPath(String, String, String),
    /// Unregister a file of an application.
    UnregistFile(String, String),
    /// Unregister all files of an application.
    UnregistApp(String),
    /// Send the file request to the peer.
    SendFileRequest(PeerId, LocalExFileRequest),
    /// Look the file up in the registry of files and on disk, and hand the answer to
    /// `offer_stored_file`.
    OfferStoredFile(PeerId, String, String),
}

/// An `Action` taken by plain values.
pub enum ActionView<C> {
    AddExplicitPeer(Seq<u8>),
    RemoveExplicitPeer(Seq<u8>),
    Emit(DaemonEventView),
    SavePeers,
    SendAuthRequest(Seq<u8>, Seq<char>),
    SendAuthResponse(C, AuthResponseState, Seq<char>),
    SendCustomMessage(Seq<u8>, Seq<u8>),
    Publish(Seq<char>, Seq<u8>),
    BroadcastSyncOffer,
    CollectSyncOffers(Seq<u8>, Seq<u8>),
    RegistPath(Seq<char>, Seq<char>, Seq<char>),
    UnregistFile(Seq<char>, Seq<char>),
    UnregistApp(Seq<char>),
    SendFileRequest(Seq<u8>, LocalExFileRequestView),
    OfferStoredFile(Seq<u8>, Seq<char>, Seq<char>),
}

impl<C> View for Action<C> {
    type V = ActionView<C>;

    open spec fn view(&self) -> ActionView<C> {
        match self {
            Action::AddExplicitPeer(p) => ActionView::AddExplicitPeer(p@),
            Action::RemoveExplicitPeer(p) => ActionView::RemoveExplicitPeer(p@),
            Action::Emit(e) => ActionView::Emit(e@),
            Action::SavePeers => ActionView::SavePeers,
            Action::SendAuthRequest(p, r) => ActionView::SendAuthRequest(p@, r.hostname@),
            Action::SendAuthResponse(c, r) => ActionView::SendAuthResponse(*c, r.state, r.hostname@),
            Action::SendCustomMessage(p, d) => ActionView::SendCustomMessage(p@, d@),
            Action::Publish(t, d) => ActionView::Publish(t@, d@),
            Action::BroadcastSyncOffer => ActionView::BroadcastSyncOffer,
            Action::CollectSyncOffers(p, d) => ActionView::CollectSyncOffers(p@, d@),
            Action::RegistPath(a, f, p) => ActionView::RegistPath(a@, f@, p@),
            Action::UnregistFile(a, f) => ActionView::UnregistFile(a@, f@),
            Action::UnregistApp(a) => ActionView::UnregistApp(a@),
            Action::SendFileRequest(p, r) => ActionView::SendFileRequest(p@, r@),
            Action::OfferStoredFile(p, a, f) => ActionView::OfferStoredFile(p@, a@, f@),
        }
    }
}

/// Actions taken by their views.
pub open spec fn action_views<C>(s: Seq<Action<C>>) -> Seq<ActionView<C>> {
    s.map_values(|a: Action<C>| a@)
}

/// A peer just seen.
pub open spec fn new_peer_view(id: Seq<u8>) -> DaemonPeerView {
    DaemonPeerView { peer_id: id, state: PeerVerifyState::WaitingVerification, hostname: None }
}

/// The emitted list of peers.
pub open spec fn peer_list_action<C>(list: Seq<DaemonPeerView>) -> ActionView<C> {
    ActionView::Emit(DaemonEventView::PeerList(list))
}

/// An mDNS event, addresses left out.
pub enum MdnsEvent {
    Discovered(Vec<PeerId>),
    Expired(Vec<PeerId>),
}

/// An event of the verification request-response protocol.
pub enum AuthEvent<C> {
    /// A peer asks to be verified; the answer goes on the channel.
    Request(PeerId, LocalExAuthRequest, C),
    /// A peer answered our request.
    Response(PeerId, LocalExAuthResponse),
    /// A failure or a sent response: nothing to decide.
    Other,
}

/// A gossipsub event.
pub enum GossipEvent {
    Subscribed(String, PeerId),
    Message { source: Option<PeerId>, data: Vec<u8>, topic: String },
    GossipsubNotSupported(PeerId),
    Unsubscribed(PeerId),
}

/// `String::from_utf8` (std). Claimed, as its documentation says: `Some` exactly when the
/// bytes are UTF-8, holding the characters they encode.
#[verifier::external_body]
pub(crate) fn string_from_utf8(bytes: Vec<u8>) -> (r: Option<String>)
    ensures
        r is Some <==> valid_utf8(bytes@),
        r matches Some(s) ==> s@ == decode_utf8(bytes@),
{
    String::from_utf8(bytes).ok()
}

/// The host name a peer announces on the hostname topic.
pub open spec fn announced_hostname(data: Seq<u8>) -> Seq<char> {
    if valid_utf8(data) {
        decode_utf8(data)
    } else {
        "unknown"@
    }
}

/// Where the daemon's notices for its clients go. Implemented by the daemon around the
/// library (the IPC server); an error is its message.
pub trait EventEmitter<T> {
    fn emit_event(&mut self, event: T) -> Result<(), String>;
}

/// What a node tells of itself.
pub trait LocalExContentProvider {
    /// The host name announced to peers.
    fn hostname(&self) -> String;
}

/// The daemon's protocol state.
pub struct LocalExNode<C> {
    /// The peers known, by id.
    pub peers: PeerTable<DaemonPeer>,
    /// The channels of verification requests not yet answered, by peer.
    pub auth_channels: PeerTable<C>,
    pub hostname: String,
    pub local_peer_id: PeerId,
    /// The subscribed gossip topics.
    pub topics: TopicMap,
    pub sync_offer_collector: Option<SyncOfferCollector>,
    /// In-memory items registered for sending.
    pub raw_store: RawStore,
}

impl<C> LocalExNode<C> {
    pub open spec fn wf(&self) -> bool {
        &&& self.peers.wf()
        &&& self.auth_channels.wf()
        &&& self.raw_store.wf()
        &&& (self.sync_offer_collector matches Some(c) ==> c.wf())
    }

    /// The peers, by id, taken by their views.
    pub open spec fn peers_view(&self) -> Map<Seq<u8>, DaemonPeerView> {
        self.peers.view().map_values(|p: DaemonPeer| p@)
    }

    /// The peers in id order, taken by their views.
    pub open spec fn peer_list(&self) -> Seq<DaemonPeerView> {
        peer_views(self.peers.ordered_values())
    }

    /// All but the peers are as in `other`.
    pub open spec fn same_but_peers(&self, other: &Self) -> bool {
        &&& self.auth_channels == other.auth_channels
        &&& self.hostname == other.hostname
        &&& self.local_peer_id == other.local_peer_id
        &&& self.topics == other.topics
        &&& self.sync_offer_collector == other.sync_offer_collector
        &&& self.raw_store == other.raw_store
    }

    /// A node with no peer, no pending request, no topic and nothing registered.
    pub fn new(hostname: String, local_peer_id: PeerId) -> (r: LocalExNode<C>)
        ensures
            r.wf(),
            r.peers_view() == Map::<Seq<u8>, DaemonPeerView>::empty(),
            r.auth_channels.view() == Map::<Seq<u8>, C>::empty(),
            r.hostname@ == hostname@,
            r.local_peer_id@ == local_peer_id@,
            r.topics@ == Map::<Seq<char>, GossipTopic>::empty(),
            r.sync_offer_collector is None,
            r.raw_store.view() == Map::<Seq<char>, Seq<u8>>::empty(),
    {
        let r = LocalExNode {
            peers: PeerTable::new(),
            auth_channels: PeerTable::new(),
            hostname,
            local_peer_id,
            topics: TopicMap::new(),
            sync_offer_collector: None,
            raw_store: RawStore::new(),
        };
        assert(r.peers_view() =~= Map::<Seq<u8>, DaemonPeerView>::empty());
        r
    }

    /// Learns of a peer: it joins gossipsub's explicit peers and the table, as a new peer
    /// (a known peer starts over).
    pub fn add_peer(&mut self, peer_id: PeerId, actions: &mut Vec<Action<C>>)
        requires
            old(self).wf(),
        ensures
            final(self).wf(),
            final(self).same_but_peers(&*old(self)),
            final(self).peers_view() == old(self).peers_view().insert(peer_id@, new_peer_view(peer_id@)),
            action_views(final(actions)@) == action_views(old(actions)@).push(ActionView::AddExplicitPeer(peer_id@)),
    {
        let ghost id = peer_id@;
        actions.push(Action::AddExplicitPeer(peer_id.duplicate()));
        let p = DaemonPeer::new(peer_id.duplicate());
        self.peers.insert(peer_id, p);
        proof {
            assert(action_views(actions@) =~= action_views(old(actions)@).push(ActionView::AddExplicitPeer(id)));
            assert(self.peers_view() =~= old(self).peers_view().insert(id, new_peer_view(id)));
        }
    }

    /// Forgets a peer: it leaves gossipsub's explicit peers and the table.
    pub fn remove_peer(&mut self, peer_id: &PeerId, actions: &mut Vec<Action<C>>)
        requires
            old(self).wf(),
        ensures
            final(self).wf(),
            final(self).same_but_peers(&*old(self)),
            final(self).peers_view() == old(self).peers_view().remove(peer_id@),
            action_views(final(actions)@) == action_views(old(actions)@).push(ActionView::RemoveExplicitPeer(peer_id@)),
    {
        actions.push(Action::RemoveExplicitPeer(peer_id.duplicate()));
        self.peers.remove(peer_id);
        proof {
            assert(action_views(actions@) =~= action_views(old(actions)@).push(ActionView::RemoveExplicitPeer(peer_id@)));
            assert(self.peers_view() =~= old(self).peers_view().remove(peer_id@));
        }
    }

    /// Marks a known peer verified; an unknown peer is ignored.
    pub fn verified(&mut self, peer_id: &PeerId)
        requires
            old(self).wf(),
        ensures
            final(self).wf(),
            final(self).same_but_peers(&*old(self)),
            final(self).peers_view() == if old(self).peers_view().contains_key(peer_id@) {
                old(self).peers_view().insert(
                    peer_id@,
                    DaemonPeerView { state: PeerVerifyState::Verified, ..old(self).peers_view()[peer_id@] },
                )
            } else {
                old(self).peers_view()
            },
    {
        match self.peers.remove(peer_id) {
            Some(mut p) => {
                p.state = PeerVerifyState::Verified;
                self.peers.insert(peer_id.duplicate(), p);
                proof {
                    assert(self.peers_view() =~= old(self).peers_view().insert(
                        peer_id@,
                        DaemonPeerView { state: PeerVerifyState::Verified, ..old(self).peers_view()[peer_id@] },
                    ));
                }
            },
            None => {
                proof {
                    assert(self.peers.view() =~= old(self).peers.view());
                }
            },
        }
    }

    /// Records the host name of a known peer; an unknown peer is ignored.
    pub fn set_peer_hostname(&mut self, peer_id: &PeerId, hostname: String)
        requires
            old(self).wf(),
        ensures
            final(self).wf(),
            final(self).same_but_peers(&*old(self)),
            final(self).peers_view() == if old(self).peers_view().contains_key(peer_id@) {
                old(self).peers_view().insert(
                    peer_id@,
                    DaemonPeerView { hostname: Some(hostname@), ..old(self).peers_view()[peer_id@] },
                )
            } else {
                old(self).peers_view()
            },
    {
        let ghost h = hostname@;
        match self.peers.remove(peer_id) {
            Some(mut p) => {
                p.set_hostname(hostname);
                self.peers.insert(peer_id.duplicate(), p);
                proof {
                    assert(self.peers_view() =~= old(self).peers_view().insert(
                        peer_id@,
                        DaemonPeerView { hostname: Some(h), ..old(self).peers_view()[peer_id@] },
                    ));
                }
            },
            None => {
                proof {
                    assert(self.peers.view() =~= old(self).peers.view());
                }
            },
        }
    }

    /// The known peers, in id order.
    pub fn get_peers(&self) -> (r: Vec<DaemonPeer>)
        requires
            self.wf(),
        ensures
            peer_views(r@) == self.peer_list(),
    {
        let mut out: Vec<DaemonPeer> = Vec::new();
        let mut i: usize = 0;
        let n = self.peers.len();
        proof {
            self.peers.lemma_ordered();
        }
        while i < n
            invariant
                n == self.peers.keys().len(),
                self.peers.keys().len() == self.peers.ordered_values().len(),
                0 <= i <= n,
                out@.len() == i,
                forall|j: int| 0 <= j < i ==> (#[trigger] out@[j])@ == self.peers.ordered_values()[j]@,
            decreases n - i,
        {
            out.push(self.peers.value_at(i).duplicate());
            i = i + 1;
        }
        proof {
            assert(peer_views(out@) =~= self.peer_list());
        }
        out
    }

    /// Sends the clients the list of known peers.
    pub fn send_peers(&self, actions: &mut Vec<Action<C>>)
        requires
            self.wf(),
        ensures
            action_views(final(actions)@) == action_views(old(actions)@).push(peer_list_action(self.peer_list())),
    {
        let list = self.get_peers();
        actions.push(Action::Emit(DaemonEvent::PeerList(list)));
        proof {
            assert(action_views(actions@) =~= action_views(old(actions)@).push(peer_list_action(self.peer_list())));
        }
    }
}

impl<C> LocalExContentProvider for LocalExNode<C> {
    fn hostname(&self) -> (r: String)
        ensures
            r@ == self.hostname@,
    {
        self.hostname.clone()
    }
}

/// The peers after learning of each id in turn.
pub open spec fn peers_after_adds(m: Map<Seq<u8>, DaemonPeerView>, ids: Seq<Seq<u8>>) -> Map<Seq<u8>, DaemonPeerView>
    decreases ids.len(),
{
    if ids.len() == 0 {
        m
    } else {
        peers_after_adds(m, ids.drop_last()).insert(ids.last(), new_peer_view(ids.last()))
    }
}

/// The peers after forgetting each id in turn.
pub open spec fn peers_after_removes(m: Map<Seq<u8>, DaemonPeerView>, ids: Seq<Seq<u8>>) -> Map<Seq<u8>, DaemonPeerView>
    decreases ids.len(),
{
    if ids.len() == 0 {
        m
    } else {
        peers_after_removes(m, ids.drop_last()).remove(ids.last())
    }
}

/// Ids taken by their bytes.
pub open spec fn id_views(ids: Seq<PeerId>) -> Seq<Seq<u8>> {
    ids.map_values(|p: PeerId| p@)
}

/// One `AddExplicitPeer` per id.
pub open spec fn add_explicit_actions<C>(ids: Seq<Seq<u8>>) -> Seq<ActionView<C>> {
    ids.map_values(|p: Seq<u8>| ActionView::AddExplicitPeer(p))
}

/// One `RemoveExplicitPeer` per id.
pub open spec fn remove_explicit_actions<C>(ids: Seq<Seq<u8>>) -> Seq<ActionView<C>> {
    ids.map_values(|p: Seq<u8>| ActionView::RemoveExplicitPeer(p))
}

impl<C> LocalExNode<C> {
    /// mDNS: discovered peers are learnt of, expired peers forgotten, in the order given;
    /// then the clients get the new list.
    #[verifier::loop_isolation(false)]
    pub fn handle_mdns(&mut self, event: MdnsEvent, actions: &mut Vec<Action<C>>)
        requires
            old(self).wf(),
        ensures
            final(self).wf(),
            final(self).same_but_peers(&*old(self)),
            match event {
                MdnsEvent::Discovered(list) => {
                    &&& final(self).peers_view() == peers_after_adds(old(self).peers_view(), id_views(list@))
                    &&& action_views(final(actions)@) == action_views(old(actions)@) + add_explicit_actions::<C>(id_views(list@))
                        + seq![peer_list_action(final(self).peer_list())]
                },
                MdnsEvent::Expired(list) => {
                    &&& final(self).peers_view() == peers_after_removes(old(self).peers_view(), id_views(list@))
                    &&& action_views(final(actions)@) == action_views(old(actions)@) + remove_explicit_actions::<C>(id_views(list@))
                        + seq![peer_list_action(final(self).peer_list())]
                },
            },
    {
        match event {
            MdnsEvent::Discovered(list) => {
                let mut i: usize = 0;
                let ghost ids = id_views(list@);
                while i < list.len()
                    invariant
                        0 <= i <= list.len(),
                        ids == id_views(list@),
                        self.wf(),
                        self.same_but_peers(&*old(self)),
                        self.peers_view() == peers_after_adds(old(self).peers_view(), ids.take(i as int)),
                        action_views(actions@) == action_views(old(actions)@) + add_explicit_actions::<C>(ids.take(i as int)),
                    decreases list.len() - i,
                {
                    self.add_peer(list[i].duplicate(), actions);
                    proof {
                        assert(ids.take(i + 1).drop_last() =~= ids.take(i as int));
                        assert(add_explicit_actions::<C>(ids.take(i + 1)) =~= add_explicit_actions::<C>(ids.take(i as int)).push(
                            ActionView::AddExplicitPeer(ids[i as int]),
                        ));
                    }
                    i = i + 1;
                }
                proof {
                    assert(ids.take(list.len() as int) =~= ids);
                }
                self.send_peers(actions);
            },
            MdnsEvent::Expired(list) => {
                let mut i: usize = 0;
                let ghost ids = id_views(list@);
                while i < list.len()
                    invariant
                        0 <= i <= list.len(),
                        ids == id_views(list@),
                        self.wf(),
                        self.same_but_peers(&*old(self)),
                        self.peers_view() == peers_after_removes(old(self).peers_view(), ids.take(i as int)),
                        action_views(actions@) == action_views(old(actions)@) + remove_explicit_actions::<C>(ids.take(i as int)),
                    decreases list.len() - i,
                {
                    self.remove_peer(&list[i], actions);
                    proof {
                        assert(ids.take(i + 1).drop_last() =~= ids.take(i as int));
                        assert(remove_explicit_actions::<C>(ids.take(i + 1)) =~= remove_explicit_actions::<C>(ids.take(i as int)).push(
                            ActionView::RemoveExplicitPeer(ids[i as int]),
                        ));
                    }
                    i = i + 1;
                }
                proof {
                    assert(ids.take(list.len() as int) =~= ids);
                }
                self.send_peers(actions);
            },
        }
    }
}

/// A peer that asked to be verified: known afresh, waiting, with the host name it gave.
pub open spec fn requested_peer(id: Seq<u8>, hostname: Seq<char>) -> DaemonPeerView {
    DaemonPeerView { peer_id: id, state: PeerVerifyState::WaitingVerification, hostname: Some(hostname) }
}

/// What a verification request of a peer does to the node: the peer is known afresh with
/// the host name it gave and its answer channel is kept; nothing else changes.
pub open spec fn request_recorded<C>(
    before: LocalExNode<C>,
    after: LocalExNode<C>,
    peer: Seq<u8>,
    hostname: Seq<char>,
    channel: C,
) -> bool {
    &&& after.same_but_peers_and_channels(&before)
    &&& after.peers_view() == before.peers_view().insert(peer, requested_peer(peer, hostname))
    &&& after.auth_channels.view() == before.auth_channels.view().insert(peer, channel)
}

/// What a client's confirmation (or refusal) of a peer does to the node's peers and pending
/// channels: an accepted peer is known afresh, verified; the peer's channel is dropped.
pub open spec fn confirmation_handled<C>(before: LocalExNode<C>, after: LocalExNode<C>, peer: Seq<u8>, accepted: bool) -> bool {
    &&& after.peers_view() == if accepted {
        before.peers_view().insert(peer, DaemonPeerView { state: PeerVerifyState::Verified, ..new_peer_view(peer) })
    } else {
        before.peers_view()
    }
    &&& after.auth_channels.view() == before.auth_channels.view().remove(peer)
}

/// The actions of a client's confirmation (or refusal) of a peer: an accepted peer joins
/// gossipsub's explicit peers, and a pending request of the peer is answered on its channel
/// with the decision and our host name.
pub open spec fn confirm_actions<C>(node: LocalExNode<C>, peer: Seq<u8>, accepted: bool) -> Seq<ActionView<C>> {
    (if accepted { seq![ActionView::AddExplicitPeer(peer)] } else { Seq::empty() }) + (if node.auth_channels.view().contains_key(
        peer,
    ) {
        seq![ActionView::SendAuthResponse(
            node.auth_channels.view()[peer],
            if accepted { AuthResponseState::Accept } else { AuthResponseState::Deny },
            node.hostname@,
        )]
    } else {
        Seq::empty()
    })
}

/// A known peer's view after an answer to our verification request: verified if accepted,
/// with the host name it gave.
pub open spec fn answered_peer(old_peer: DaemonPeerView, accepted: bool, hostname: Seq<char>) -> DaemonPeerView {
    DaemonPeerView {
        state: if accepted { PeerVerifyState::Verified } else { old_peer.state },
        hostname: Some(hostname),
        ..old_peer
    }
}

impl<C> LocalExNode<C> {
    /// All but the peers and the pending channels are as in `other`.
    pub open spec fn same_but_peers_and_channels(&self, other: &Self) -> bool {
        &&& self.hostname == other.hostname
        &&& self.local_peer_id == other.local_peer_id
        &&& self.topics == other.topics
        &&& self.sync_offer_collector == other.sync_offer_collector
        &&& self.raw_store == other.raw_store
    }

    /// Verification between peers. A request makes the peer known afresh with the host name
    /// it gave, keeps its channel for the client's answer, and tells the clients; an answer
    /// marks the peer verified if accepted, records its host name, saves the peers and tells
    /// the clients.
    pub fn handle_auth(&mut self, event: AuthEvent<C>, actions: &mut Vec<Action<C>>)
        requires
            old(self).wf(),
        ensures
            final(self).wf(),
            final(self).same_but_peers_and_channels(&*old(self)),
            match event {
                AuthEvent::Request(p, req, ch) => {
                    let peer = requested_peer(p@, req.hostname@);
                    &&& request_recorded(*old(self), *final(self), p@, req.hostname@, ch)
                    &&& action_views(final(actions)@) == action_views(old(actions)@) + seq![
                        ActionView::AddExplicitPeer(p@),
                        ActionView::Emit(DaemonEventView::InComingVerify(peer)),
                        peer_list_action(final(self).peer_list()),
                    ]
                },
                AuthEvent::Response(p, resp) => {
                    let accepted = resp.state == AuthResponseState::Accept;
                    &&& old(self).peers_view().contains_key(p@) ==> final(self).peers_view()[p@].state == if accepted {
                        PeerVerifyState::Verified
                    } else {
                        old(self).peers_view()[p@].state
                    }
                    &&& final(self).peers_view() == if old(self).peers_view().contains_key(p@) {
                        old(self).peers_view().insert(p@, answered_peer(old(self).peers_view()[p@], accepted, resp.hostname@))
                    } else {
                        old(self).peers_view()
                    }
                    &&& final(self).auth_channels == old(self).auth_channels
                    &&& action_views(final(actions)@) == action_views(old(actions)@) + (if accepted {
                        seq![ActionView::AddExplicitPeer(p@)]
                    } else {
                        Seq::empty()
                    }) + seq![
                        ActionView::SavePeers,
                        ActionView::Emit(DaemonEventView::VerifyResult(p@, accepted)),
                        peer_list_action(final(self).peer_list()),
                    ]
                },
                AuthEvent::Other => {
                    &&& final(self).peers == old(self).peers
                    &&& final(self).auth_channels == old(self).auth_channels
                    &&& final(actions)@ == old(actions)@
                },
            },
    {
        match event {
            AuthEvent::Request(peer, request, channel) => {
                let ghost h = request.hostname@;
                let ghost pid = peer@;
                let ghost a0 = action_views(actions@);
                self.add_peer(peer.duplicate(), actions);
                self.auth_channels.insert(peer.duplicate(), channel);
                self.set_peer_hostname(&peer, request.hostname);
                proof {
                    assert(self.peers_view().contains_key(pid));
                    assert(self.peers.view().contains_key(pid));
                }
                let view_peer = self.peers.get(&peer).unwrap().duplicate();
                let ghost peer_v = DaemonPeerView { peer_id: pid, state: PeerVerifyState::WaitingVerification, hostname: Some(h) };
                proof {
                    assert(self.peers_view().contains_key(pid));
                    assert(view_peer@ == self.peers_view()[pid]);
                    assert(self.peers_view() =~= old(self).peers_view().insert(pid, peer_v));
                    assert(view_peer@ == peer_v);
                }
                let ghost a1 = action_views(actions@);
                actions.push(Action::Emit(DaemonEvent::InComingVerify(view_peer)));
                proof {
                    assert(action_views(actions@) =~= a1.push(ActionView::Emit(DaemonEventView::InComingVerify(peer_v))));
                }
                self.send_peers(actions);
                proof {
                    assert(action_views(actions@) =~= a0 + seq![
                        ActionView::AddExplicitPeer(pid),
                        ActionView::Emit(DaemonEventView::InComingVerify(peer_v)),
                        peer_list_action(self.peer_list()),
                    ]);
                }
            },
            AuthEvent::Response(peer, response) => {
                let ghost pid = peer@;
                let ghost h = response.hostname@;
                let ghost a0 = action_views(actions@);
                let result = response.state == AuthResponseState::Accept;
                if result {
                    self.verified(&peer);
                    actions.push(Action::AddExplicitPeer(peer.duplicate()));
                }
                let ghost a1 = action_views(actions@);
                self.set_peer_hostname(&peer, response.hostname);
                actions.push(Action::SavePeers);
                actions.push(Action::Emit(DaemonEvent::VerifyResult(peer, result)));
                proof {
                    assert(action_views(actions@) =~= a1.push(ActionView::SavePeers).push(
                        ActionView::Emit(DaemonEventView::VerifyResult(pid, result)),
                    ));
                }
                self.send_peers(actions);
                proof {
                    if result {
                        assert(a1 =~= a0 + seq![ActionView::AddExplicitPeer(pid)]);
                    } else {
                        assert(a1 =~= a0 + Seq::<ActionView<C>>::empty());
                    }
                    if old(self).peers_view().contains_key(pid) {
                        assert(self.peers_view() =~= old(self).peers_view().insert(
                            pid,
                            answered_peer(old(self).peers_view()[pid], result, h),
                        ));
                    }
                    assert(action_views(actions@) =~= a1 + seq![
                        ActionView::SavePeers,
                        ActionView::Emit(DaemonEventView::VerifyResult(pid, result)),
                        peer_list_action(self.peer_list()),
                    ]);
                }
            },
            AuthEvent::Other => {},
        }
    }
}

/// The request announcing a file of `size` bytes, under a session named by a random UUID.
pub open spec fn is_offer_of(r: LocalExFileRequestView, app_id: Seq<char>, file_id: Seq<char>, size: nat) -> bool {
    &&& is_v4_uuid_text(r.session)
    &&& r.app_id == app_id
    &&& r.file_id == file_id
    &&& r.payload == FileRequestPayloadView::Ready {
        size: size as usize,
        chunks: chunk_count(size) as usize,
        chunk_size: CHUNK_SIZE,
    }
}

impl<C> LocalExNode<C> {
    /// All but the peers, the pending channels and the in-memory items are as in `other`.
    pub open spec fn same_core(&self, other: &Self) -> bool {
        &&& self.hostname == other.hostname
        &&& self.local_peer_id == other.local_peer_id
        &&& self.topics == other.topics
        &&& self.sync_offer_collector == other.sync_offer_collector
    }

    /// A client's request.
    pub fn handle_client_event(&mut self, event: ClientEvent, actions: &mut Vec<Action<C>>)
        requires
            old(self).wf(),
        ensures
            final(self).wf(),
            final(self).same_core(&*old(self)),
            match event {
                ClientEvent::VerifyConfirm(p, accepted) => {
                    &&& confirmation_handled(*old(self), *final(self), p@, accepted)
                    &&& final(self).raw_store == old(self).raw_store
                    &&& action_views(final(actions)@) == action_views(old(actions)@) + confirm_actions(*old(self), p@, accepted)
                },
                ClientEvent::DisconnectPeer(p) => {
                    &&& final(self).peers_view() == old(self).peers_view().remove(p@)
                    &&& final(self).auth_channels == old(self).auth_channels
                    &&& final(self).raw_store == old(self).raw_store
                    &&& action_views(final(actions)@) == action_views(old(actions)@).push(ActionView::RemoveExplicitPeer(p@))
                },
                ClientEvent::RegistRaw(id, data) => {
                    &&& final(self).peers == old(self).peers
                    &&& final(self).auth_channels == old(self).auth_channels
                    &&& final(self).raw_store.view() == old(self).raw_store.view().insert(id@, data@)
                    &&& final(actions)@ == old(actions)@
                },
                ClientEvent::UnRegistRaw(id) => {
                    &&& final(self).peers == old(self).peers
                    &&& final(self).auth_channels == old(self).auth_channels
                    &&& final(self).raw_store.view() == old(self).raw_store.view().remove(id@)
                    &&& final(actions)@ == old(actions)@
                },
                _ => {
                    &&& final(self).peers == old(self).peers
                    &&& final(self).auth_channels == old(self).auth_channels
                    &&& final(self).raw_store == old(self).raw_store
                    &&& match event {
                        ClientEvent::RequestVerify(p) => action_views(final(actions)@) == action_views(old(actions)@).push(
                            ActionView::SendAuthRequest(p@, old(self).hostname@),
                        ),
                        ClientEvent::RequestLocalInfo => action_views(final(actions)@) == action_views(old(actions)@).push(
                            ActionView::Emit(DaemonEventView::LocalInfo(old(self).hostname@, old(self).local_peer_id@)),
                        ),
                        ClientEvent::RequestPeerList => action_views(final(actions)@) == action_views(old(actions)@).push(
                            peer_list_action(old(self).peer_list()),
                        ),
                        ClientEvent::RegistFileId(a, f, path) => action_views(final(actions)@) == action_views(old(actions)@).push(
                            ActionView::RegistPath(a@, f@, path@),
                        ),
                        ClientEvent::UnRegistFileId(a, f) => action_views(final(actions)@) == action_views(old(actions)@).push(
                            ActionView::UnregistFile(a@, f@),
                        ),
                        ClientEvent::UnRegistAppId(a) => action_views(final(actions)@) == action_views(old(actions)@).push(
                            ActionView::UnregistApp(a@),
                        ),
                        ClientEvent::SendFile(p, a, f) => if old(self).raw_store.view().contains_key(f@) {
                            &&& final(actions)@.len() == old(actions)@.len() + 1
                            &&& action_views(final(actions)@).take(old(actions)@.len() as int) == action_views(old(actions)@)
                            &&& final(actions)@.last() matches Action::SendFileRequest(q, r)
                            &&& q@ == p@
                            &&& is_offer_of(r@, a@, f@, old(self).raw_store.view()[f@].len())
                        } else {
                            action_views(final(actions)@) == action_views(old(actions)@).push(ActionView::OfferStoredFile(p@, a@, f@))
                        },
                        ClientEvent::SendRaw(_, _) => final(actions)@ == old(actions)@,
                        ClientEvent::SendCustomMessage(p, d) => action_views(final(actions)@) == action_views(old(actions)@).push(
                            ActionView::SendCustomMessage(p@, d@),
                        ),
                        _ => true,
                    }
                },
            },
    {
        let ghost a0 = action_views(actions@);
        match event {
            ClientEvent::VerifyConfirm(peer_id, result) => {
                let mut state = AuthResponseState::Deny;
                if result {
                    self.add_peer(peer_id.duplicate(), actions);
                    self.verified(&peer_id);
                    state = AuthResponseState::Accept;
                    proof {
                        assert(self.peers_view() =~= old(self).peers_view().insert(
                            peer_id@,
                            DaemonPeerView { state: PeerVerifyState::Verified, ..new_peer_view(peer_id@) },
                        ));
                    }
                }
                let ghost a1 = action_views(actions@);
                proof {
                    if result {
                        assert(a1 =~= a0 + seq![ActionView::AddExplicitPeer(peer_id@)]);
                    } else {
                        assert(a1 =~= a0 + Seq::<ActionView<C>>::empty());
                    }
                }
                match self.auth_channels.remove(&peer_id) {
                    Some(channel) => {
                        let hostname = self.hostname.clone();
                        actions.push(Action::SendAuthResponse(channel, LocalExAuthResponse { state, hostname }));
                        proof {
                            assert(action_views(actions@) =~= a1 + seq![ActionView::SendAuthResponse(
                                old(self).auth_channels.view()[peer_id@],
                                state,
                                old(self).hostname@,
                            )]);
                        }
                    },
                    None => {
                        proof {
                            assert(action_views(actions@) =~= a1 + Seq::<ActionView<C>>::empty());
                        }
                    },
                }
            },
            ClientEvent::DisconnectPeer(peer_id) => {
                self.remove_peer(&peer_id, actions);
            },
            ClientEvent::RequestVerify(peer_id) => {
                let hostname = self.hostname.clone();
                actions.push(Action::SendAuthRequest(peer_id, LocalExAuthRequest { hostname }));
                proof {
                    assert(action_views(actions@) =~= a0.push(ActionView::SendAuthRequest(peer_id@, old(self).hostname@)));
                }
            },
            ClientEvent::RequestLocalInfo => {
                actions.push(Action::Emit(DaemonEvent::LocalInfo(self.hostname.clone(), self.local_peer_id.duplicate())));
                proof {
                    assert(action_views(actions@) =~= a0.push(
                        ActionView::Emit(DaemonEventView::LocalInfo(old(self).hostname@, old(self).local_peer_id@)),
                    ));
                }
            },
            ClientEvent::RequestPeerList => {
                self.send_peers(actions);
            },
            ClientEvent::RegistFileId(app_id, file_id, path) => {
                actions.push(Action::RegistPath(app_id, file_id, path));
                proof {
                    assert(action_views(actions@) =~= a0.push(action_views(actions@).last()));
                }
            },
            ClientEvent::RegistRaw(id, data) => {
                self.raw_store.regist_raw(id, data);
            },
            ClientEvent::UnRegistRaw(id) => {
                self.raw_store.unregist_raw(&id);
            },
            ClientEvent::UnRegistFileId(app_id, file_id) => {
                actions.push(Action::UnregistFile(app_id, file_id));
                proof {
                    assert(action_views(actions@) =~= a0.push(action_views(actions@).last()));
                }
            },
            ClientEvent::UnRegistAppId(app_id) => {
                actions.push(Action::UnregistApp(app_id));
                proof {
                    assert(action_views(actions@) =~= a0.push(action_views(actions@).last()));
                }
            },
            ClientEvent::SendFile(peer_id, app_id, file_id) => {
                self.send_file(peer_id, app_id, file_id, actions);
            },
            ClientEvent::SendRaw(_, _) => {},
            ClientEvent::SendCustomMessage(peer_id, data) => {
                actions.push(Action::SendCustomMessage(peer_id, data));
                proof {
                    assert(action_views(actions@) =~= a0.push(action_views(actions@).last()));
                }
            },
        }
    }

    /// Offers a peer a registered file: an in-memory item is announced with its size under
    /// a new session; otherwise the offer waits for the registry of files and the disk
    /// (`OfferStoredFile`, completed by `offer_stored_file`).
    pub fn send_file(&self, peer_id: PeerId, app_id: String, file_id: String, actions: &mut Vec<Action<C>>)
        requires
            self.wf(),
        ensures
            if self.raw_store.view().contains_key(file_id@) {
                &&& final(actions)@.len() == old(actions)@.len() + 1
                &&& action_views(final(actions)@).take(old(actions)@.len() as int) == action_views(old(actions)@)
                &&& final(actions)@.last() matches Action::SendFileRequest(q, r)
                &&& q@ == peer_id@
                &&& is_offer_of(r@, app_id@, file_id@, self.raw_store.view()[file_id@].len())
            } else {
                action_views(final(actions)@) == action_views(old(actions)@).push(
                    ActionView::OfferStoredFile(peer_id@, app_id@, file_id@),
                )
            },
    {
        let ghost a0 = action_views(actions@);
        match self.raw_store.get_raw_item(&file_id) {
            Some(crate::file::ReadableItem::Raw(body)) => {
                let session = new_session_id();
                let request = offer_request(session, app_id, file_id, body.len());
                actions.push(Action::SendFileRequest(peer_id, request));
                proof {
                    assert(action_views(actions@).take(old(actions)@.len() as int) =~= a0);
                }
            },
            _ => {
                actions.push(Action::OfferStoredFile(peer_id, app_id, file_id));
                proof {
                    assert(action_views(actions@) =~= a0.push(action_views(actions@).last()));
                }
            },
        }
    }

    /// Offers a peer a stored file of an application (one with no in-memory item), once the
    /// registry of files and the disk have answered: `stored` is `None` when no file is
    /// registered under the ids, else the file's size or the error of reading it. A file
    /// not registered is refused with "regist item not found", a read error is passed on,
    /// and a size is announced to the peer under a new session.
    pub fn offer_stored_file(
        &self,
        peer_id: PeerId,
        app_id: String,
        file_id: String,
        stored: Option<Result<usize, String>>,
        actions: &mut Vec<Action<C>>,
    ) -> (r: Result<(), String>)
        ensures
            match stored {
                None => (r matches Err(e) && e@ == "regist item not found"@) && final(actions)@ == old(actions)@,
                Some(Err(m)) => (r matches Err(e) && e@ == m@) && final(actions)@ == old(actions)@,
                Some(Ok(size)) => {
                    &&& r is Ok
                    &&& final(actions)@.len() == old(actions)@.len() + 1
                    &&& action_views(final(actions)@).take(old(actions)@.len() as int) == action_views(old(actions)@)
                    &&& final(actions)@.last() matches Action::SendFileRequest(q, req)
                    &&& q@ == peer_id@
                    &&& is_offer_of(req@, app_id@, file_id@, size as nat)
                },
            },
    {
        match stored {
            None => {
                proof {
                    reveal_strlit("regist item not found");
                }
                Err("regist item not found".to_string())
            },
            Some(Err(m)) => Err(m),
            Some(Ok(size)) => {
                let ghost a0 = action_views(actions@);
                let session = new_session_id();
                let request = offer_request(session, app_id, file_id, size);
                actions.push(Action::SendFileRequest(peer_id, request));
                proof {
                    assert(action_views(actions@).take(old(actions)@.len() as int) =~= a0);
                }
                Ok(())
            },
        }
    }

    /// A client's message from a peer goes to the clients.
    pub fn handle_client_custom_message(&self, peer: PeerId, data: Vec<u8>, actions: &mut Vec<Action<C>>)
        ensures
            action_views(final(actions)@) == action_views(old(actions)@).push(
                ActionView::Emit(DaemonEventView::ReceivedCustomMessage(peer@, data@)),
            ),
    {
        actions.push(Action::Emit(DaemonEvent::ReceivedCustomMessage(peer, data)));
        proof {
            assert(action_views(actions@) =~= action_views(old(actions)@).push(action_views(actions@).last()));
        }
    }
}

/// The topics the daemon subscribes to, in order.
pub fn topics_to_subscribe() -> (r: Vec<GossipTopic>)
    ensures
        r@ == seq![GossipTopic::Hostname, GossipTopic::Sync, GossipTopic::SyncOffer],
{
    let mut v: Vec<GossipTopic> = Vec::new();
    v.push(GossipTopic::Hostname);
    v.push(GossipTopic::Sync);
    v.push(GossipTopic::SyncOffer);
    assert(v@ =~= seq![GossipTopic::Hostname, GossipTopic::Sync, GossipTopic::SyncOffer]);
    v
}

impl<C> LocalExNode<C> {
    /// Records that `topic` is subscribed under `hash`.
    pub fn record_subscription(&mut self, hash: String, topic: GossipTopic)
        ensures
            final(self).topics@ == crate::message::bimap_insert(old(self).topics@, hash@, topic),
            final(self).peers == old(self).peers,
            final(self).auth_channels == old(self).auth_channels,
            final(self).hostname == old(self).hostname,
            final(self).local_peer_id == old(self).local_peer_id,
            final(self).sync_offer_collector == old(self).sync_offer_collector,
            final(self).raw_store == old(self).raw_store,
    {
        self.topics.insert(hash, topic);
    }

    /// Publishes the host name on the hostname topic, if subscribed.
    pub fn broadcast_hostname(&self, actions: &mut Vec<Action<C>>)
        ensures
            if exists|l: Seq<char>| #[trigger] self.topics@.contains_key(l) && self.topics@[l] == GossipTopic::Hostname {
                &&& final(actions)@.len() == old(actions)@.len() + 1
                &&& action_views(final(actions)@).take(old(actions)@.len() as int) == action_views(old(actions)@)
                &&& final(actions)@.last() matches Action::Publish(h, d)
                &&& self.topics@.contains_key(h@)
                &&& self.topics@[h@] == GossipTopic::Hostname
                &&& d@ == encode_utf8(self.hostname@)
            } else {
                final(actions)@ == old(actions)@
            },
    {
        match self.topics.get_by_right(&GossipTopic::Hostname) {
            Some(hash) => {
                let data = copy_bytes(self.hostname.as_str().as_bytes());
                actions.push(Action::Publish(hash, data));
                proof {
                    assert(action_views(actions@).take(old(actions)@.len() as int) =~= action_views(old(actions)@));
                }
            },
            None => {},
        }
    }

    /// Gossip. A peer subscribing to the hostname topic gets our host name; a host name
    /// announced by a known peer is recorded and the clients told; a sync request is answered
    /// with our offer; a sync offer from a peer is collected (the collector expecting as many
    /// answers as there are known peers); a peer without gossipsub is forgotten.
    pub fn handle_gossipsub(&mut self, event: GossipEvent, actions: &mut Vec<Action<C>>)
        requires
            old(self).wf(),
        ensures
            final(self).wf(),
            final(self).auth_channels == old(self).auth_channels,
            final(self).hostname == old(self).hostname,
            final(self).local_peer_id == old(self).local_peer_id,
            final(self).topics == old(self).topics,
            final(self).raw_store == old(self).raw_store,
            match event {
                GossipEvent::Subscribed(topic, _) => {
                    &&& final(self).peers == old(self).peers
                    &&& final(self).sync_offer_collector == old(self).sync_offer_collector
                    &&& old(self).topics@.get(topic@) != Some(GossipTopic::Hostname) ==> final(actions)@ == old(actions)@
                    &&& old(self).topics@.get(topic@) == Some(GossipTopic::Hostname) ==> {
                        &&& final(actions)@.len() == old(actions)@.len() + 1
                        &&& action_views(final(actions)@).take(old(actions)@.len() as int) == action_views(old(actions)@)
                        &&& final(actions)@.last() matches Action::Publish(h, d)
                        &&& old(self).topics@[h@] == GossipTopic::Hostname
                        &&& d@ == encode_utf8(old(self).hostname@)
                    }
                },
                GossipEvent::Message { source, data, topic } => match old(self).topics@.get(topic@) {
                    None => final(self).peers == old(self).peers && final(self).sync_offer_collector == old(
                        self,
                    ).sync_offer_collector && final(actions)@ == old(actions)@,
                    Some(GossipTopic::Hostname) => {
                        &&& final(self).sync_offer_collector == old(self).sync_offer_collector
                        &&& match source {
                            Some(p) => if old(self).peers_view().contains_key(p@) {
                                &&& final(self).peers_view() == old(self).peers_view().insert(
                                    p@,
                                    DaemonPeerView { hostname: Some(announced_hostname(data@)), ..old(self).peers_view()[p@] },
                                )
                                &&& action_views(final(actions)@) == action_views(old(actions)@).push(
                                    peer_list_action(final(self).peer_list()),
                                )
                            } else {
                                final(self).peers == old(self).peers && final(actions)@ == old(actions)@
                            },
                            None => final(self).peers == old(self).peers && final(actions)@ == old(actions)@,
                        }
                    },
                    Some(GossipTopic::Sync) => {
                        &&& final(self).peers == old(self).peers
                        &&& final(self).sync_offer_collector == old(self).sync_offer_collector
                        &&& action_views(final(actions)@) == action_views(old(actions)@).push(ActionView::BroadcastSyncOffer)
                    },
                    Some(GossipTopic::SyncOffer) => {
                        &&& final(self).peers == old(self).peers
                        &&& match source {
                            None => final(self).sync_offer_collector == old(self).sync_offer_collector
                                && final(actions)@ == old(actions)@,
                            Some(p) => {
                                &&& (old(self).sync_offer_collector is Some ==> final(self).sync_offer_collector
                                    == old(self).sync_offer_collector)
                                &&& (old(self).sync_offer_collector is None ==> (final(self).sync_offer_collector matches Some(
                                    c,
                                ) && c.count() == 0 && c.except_count() == old(self).peers.keys().len()
                                    && c.received().is_empty() && c.offers().is_empty()))
                                &&& action_views(final(actions)@) == action_views(old(actions)@).push(
                                    ActionView::CollectSyncOffers(p@, data@),
                                )
                            },
                        }
                    },
                },
                GossipEvent::GossipsubNotSupported(p) => {
                    &&& final(self).sync_offer_collector == old(self).sync_offer_collector
                    &&& final(self).peers_view() == old(self).peers_view().remove(p@)
                    &&& action_views(final(actions)@) == action_views(old(actions)@) + seq![
                        ActionView::RemoveExplicitPeer(p@),
                        peer_list_action(final(self).peer_list()),
                    ]
                },
                GossipEvent::Unsubscribed(_) => {
                    &&& final(self).peers == old(self).peers
                    &&& final(self).sync_offer_collector == old(self).sync_offer_collector
                    &&& final(actions)@ == old(actions)@
                },
            },
    {
        match event {
            GossipEvent::Subscribed(topic, _peer) => {
                match self.topics.get_by_left(&topic) {
                    Some(GossipTopic::Hostname) => {
                        self.broadcast_hostname(actions);
                    },
                    _ => {},
                }
            },
            GossipEvent::Message { source, data, topic } => {
                let t = match self.topics.get_by_left(&topic) {
                    Some(t) => t,
                    None => {
                        return;
                    },
                };
                match t {
                    GossipTopic::Hostname => {
                        if let Some(p) = source {
                            if self.peers.contains_key(&p) {
                                let ghost d = data@;
                                let hostname = match string_from_utf8(data) {
                                    Some(h) => h,
                                    None => "unknown".to_string(),
                                };
                                assert(hostname@ == announced_hostname(d));
                                self.set_peer_hostname(&p, hostname);
                                self.send_peers(actions);
                            }
                        }
                    },
                    GossipTopic::Sync => {
                        actions.push(Action::BroadcastSyncOffer);
                        proof {
                            assert(action_views(actions@) =~= action_views(old(actions)@).push(ActionView::BroadcastSyncOffer));
                        }
                    },
                    GossipTopic::SyncOffer => {
                        if let Some(p) = source {
                            let except_peers_count = self.peers.len();
                            if self.sync_offer_collector.is_none() {
                                self.sync_offer_collector = Some(SyncOfferCollector::new(except_peers_count));
                            }
                            let ghost pv = p@;
                            let ghost dv = data@;
                            actions.push(Action::CollectSyncOffers(p, data));
                            proof {
                                assert(action_views(actions@) =~= action_views(old(actions)@).push(
                                    ActionView::CollectSyncOffers(pv, dv),
                                ));
                            }
                        }
                    },
                }
            },
            GossipEvent::GossipsubNotSupported(peer_id) => {
                let ghost a0 = action_views(actions@);
                self.remove_peer(&peer_id, actions);
                self.send_peers(actions);
                proof {
                    assert(action_views(actions@) =~= a0 + seq![
                        ActionView::RemoveExplicitPeer(peer_id@),
                        peer_list_action(self.peer_list()),
                    ]);
                }
            },
            GossipEvent::Unsubscribed(_peer) => {},
        }
    }

    /// Collects the offers a peer published (application id, file id, version). The
    /// collector counts each peer once, so only the peer's first offer is taken.
    #[verifier::loop_isolation(false)]
    pub fn collect_sync_offers(&mut self, source: PeerId, offers: Vec<(String, String, usize)>)
        requires
            old(self).wf(),
            old(self).sync_offer_collector matches Some(c) && c.count() < usize::MAX,
        ensures
            final(self).wf(),
            final(self).same_but_collector(&*old(self)),
            final(self).sync_offer_collector matches Some(c) && {
                let o = old(self).sync_offer_collector.unwrap();
                &&& c.except_count() == o.except_count()
                &&& if offers@.len() == 0 || o.received().contains(source@) {
                    &&& c.count() == o.count()
                    &&& c.received() == o.received()
                    &&& c.offers() == o.offers()
                } else {
                    let key = (offers@[0].0@, offers@[0].1@);
                    let version = offers@[0].2;
                    &&& c.count() == o.count() + 1
                    &&& c.received() == o.received().insert(source@)
                    &&& c.offers() == if o.offers().contains_key(key) && version < o.offers()[key].1 {
                        o.offers()
                    } else {
                        o.offers().insert(key, (source@, version))
                    }
                }
            },
    {
        let mut collector = self.sync_offer_collector.take().unwrap();
        let ghost o = collector;
        let n = offers.len();
        let mut i: usize = 0;
        let mut source_offers = offers;
        let ghost all = source_offers@;
        while i < n
            invariant
                0 <= i <= n,
                n == all.len(),
                source_offers@ == all.skip(i as int),
                collector.wf(),
                collector.except_count() == o.except_count(),
                i == 0 ==> collector == o,
                i > 0 ==> collector.received().contains(source@),
                i > 0 && o.received().contains(source@) ==> collector.count() == o.count()
                    && collector.received() == o.received() && collector.offers() == o.offers(),
                i > 0 && !o.received().contains(source@) ==> {
                    let key = (all[0].0@, all[0].1@);
                    let version = all[0].2;
                    &&& collector.count() == o.count() + 1
                    &&& collector.received() == o.received().insert(source@)
                    &&& collector.offers() == if o.offers().contains_key(key) && version < o.offers()[key].1 {
                        o.offers()
                    } else {
                        o.offers().insert(key, (source@, version))
                    }
                },
                o.count() < usize::MAX,
            decreases n - i,
        {
            let (app_id, file_id, version) = source_offers.remove(0);
            proof {
                assert(source_offers@ =~= all.skip(i + 1));
            }
            collector.insert(app_id, file_id, PeerOffer { peer_id: source.duplicate(), version });
            i = i + 1;
        }
        self.sync_offer_collector = Some(collector);
    }

    /// All but the sync offer collector are as in `other`.
    pub open spec fn same_but_collector(&self, other: &Self) -> bool {
        &&& self.peers == other.peers
        &&& self.auth_channels == other.auth_channels
        &&& self.hostname == other.hostname
        &&& self.local_peer_id == other.local_peer_id
        &&& self.topics == other.topics
        &&& self.raw_store == other.raw_store
    }
}

} // verus!
