//! Pairing of devices in the single-process agent: the peers it has seen, each with the
//! answer channel of a verification request it still owes, the events between its network
//! loop and its screen, and the decisions of that loop.
use vstd::prelude::*;
use crate::event::{AuthResponseState, LocalExAuthRequest, LocalExAuthResponse};
use crate::peer::{copy_opt_string, copy_string, opt_string_view, DaemonPeerView, PeerId, PeerVerifyState};
use crate::table::PeerTable;

verus! {

/// A request from the screen to the network loop.
pub enum ClientEvent {
    RequestVerify(PeerId),
    DisconnectPeer(PeerId),
    VerifyConfirm(PeerId, bool),
}

/// A `ClientEvent` taken by plain values.
pub enum ClientEventView {
    RequestVerify(Seq<u8>),
    DisconnectPeer(Seq<u8>),
    VerifyConfirm(Seq<u8>, bool),
}

impl View for ClientEvent {
    type V = ClientEventView;

    open spec fn view(&self) -> ClientEventView {
        match self {
            ClientEvent::RequestVerify(p) => ClientEventView::RequestVerify(p@),
            ClientEvent::DisconnectPeer(p) => ClientEventView::DisconnectPeer(p@),
            ClientEvent::VerifyConfirm(p, b) => ClientEventView::VerifyConfirm(p@, *b),
        }
    }
}

/// A peer the agent has seen, with the channel to answer its verification request on, if
/// one is pending.
pub struct RemotePeer<C> {
    pub peer_id: PeerId,
    pub state: PeerVerifyState,
    pub hostname: Option<String>,
    pub channel: Option<C>,
}

impl<C> View for RemotePeer<C> {
    type V = DaemonPeerView;

    /// The peer without its channel.
    open spec fn view(&self) -> DaemonPeerView {
        DaemonPeerView { peer_id: self.peer_id@, state: self.state, hostname: opt_string_view(self.hostname) }
    }
}

/// Peers taken by their views.
pub open spec fn remote_views<C>(s: Seq<RemotePeer<C>>) -> Seq<DaemonPeerView> {
    s.map_values(|p: RemotePeer<C>| p@)
}

/// No peer of the sequence holds a channel.
pub open spec fn without_channels<C>(s: Seq<RemotePeer<C>>) -> bool {
    forall|i: int| 0 <= i < s.len() ==> (#[trigger] s[i]).channel is None
}

impl<C> RemotePeer<C> {
    /// A peer just seen: waiting for verification, host name unknown, nothing owed.
    pub fn new(peer_id: PeerId) -> (r: RemotePeer<C>)
        ensures
            r@ == (DaemonPeerView { peer_id: peer_id@, state: PeerVerifyState::WaitingVerification, hostname: None }),
            r.channel is None,
    {
        RemotePeer { peer_id, state: PeerVerifyState::default_state(), hostname: None, channel: None }
    }

    /// Keeps the channel to answer the peer's verification request on.
    pub fn set_channel(&mut self, channel: C) -> (r: &mut Self)
        ensures
            *r == (RemotePeer { channel: Some(channel), ..*old(self) }),
            *final(self) == *final(r),
    {
        self.channel = Some(channel);
        self
    }

    /// Records the peer's host name.
    pub fn set_hostname(&mut self, hostname: String) -> (r: &mut Self)
        ensures
            r@ == (DaemonPeerView { hostname: Some(hostname@), ..old(self)@ }),
            r.channel == old(self).channel,
            *final(self) == *final(r),
    {
        self.hostname = Some(hostname);
        self
    }

    /// A copy of the peer without its channel (a channel answers once and is not copied).
    pub fn copy_without_channel(&self) -> (r: RemotePeer<C>)
        ensures
            r@ == self@,
            r.channel is None,
    {
        RemotePeer {
            peer_id: self.peer_id.duplicate(),
            state: self.state,
            hostname: copy_opt_string(&self.hostname),
            channel: None,
        }
    }
}

impl<C> Clone for RemotePeer<C> {
    /// A copy of the peer without its channel.
    fn clone(&self) -> (r: Self)
        ensures
            r@ == self@,
            r.channel is None,
    {
        self.copy_without_channel()
    }
}

/// A notice from the network loop to the screen.
pub enum DaemonEvent<C> {
    VerifyResult(PeerId, bool),
    InCommingVerify(RemotePeer<C>),
    PeerList(Vec<RemotePeer<C>>),
    LocalInfo(String, PeerId),
}

/// A `DaemonEvent` taken by plain values.
pub enum DaemonEventView {
    VerifyResult(Seq<u8>, bool),
    InCommingVerify(DaemonPeerView),
    PeerList(Seq<DaemonPeerView>),
    LocalInfo(Seq<char>, Seq<u8>),
}

impl<C> View for DaemonEvent<C> {
    type V = DaemonEventView;

    open spec fn view(&self) -> DaemonEventView {
        match self {
            DaemonEvent::VerifyResult(p, b) => DaemonEventView::VerifyResult(p@, *b),
            DaemonEvent::InCommingVerify(p) => DaemonEventView::InCommingVerify(p@),
            DaemonEvent::PeerList(l) => DaemonEventView::PeerList(remote_views(l@)),
            DaemonEvent::LocalInfo(h, p) => DaemonEventView::LocalInfo(h@, p@),
        }
    }
}

/// The peers of an event hold no channel.
pub open spec fn event_without_channels<C>(e: DaemonEvent<C>) -> bool {
    match e {
        DaemonEvent::InCommingVerify(p) => p.channel is None,
        DaemonEvent::PeerList(l) => without_channels(l@),
        _ => true,
    }
}

/// The agent's peers, by id.
pub struct LocalExProtocol<C> {
    pub peers: PeerTable<RemotePeer<C>>,
}

impl<C> LocalExProtocol<C> {
    pub open spec fn wf(&self) -> bool {
        self.peers.wf()
    }

    /// The peers, by id, taken by their views.
    pub open spec fn peers_view(&self) -> Map<Seq<u8>, DaemonPeerView> {
        self.peers.view().map_values(|p: RemotePeer<C>| p@)
    }

    /// The pending answer channel of each peer.
    pub open spec fn channels(&self) -> Map<Seq<u8>, Option<C>> {
        self.peers.view().map_values(|p: RemotePeer<C>| p.channel)
    }

    /// The peers in id order, taken by their views.
    pub open spec fn peer_list(&self) -> Seq<DaemonPeerView> {
        remote_views(self.peers.ordered_values())
    }

    pub fn new() -> (r: LocalExProtocol<C>)
        ensures
            r.wf(),
            r.peers_view() == Map::<Seq<u8>, DaemonPeerView>::empty(),
    {
        let r = LocalExProtocol { peers: PeerTable::new() };
        assert(r.peers_view() =~= Map::<Seq<u8>, DaemonPeerView>::empty());
        r
    }

    /// Learns of a peer; a known peer, and its channel, are left as they are.
    pub fn add_peer(&mut self, peer_id: PeerId)
        requires
            old(self).wf(),
        ensures
            final(self).wf(),
            final(self).peers_view() == if old(self).peers_view().contains_key(peer_id@) {
                old(self).peers_view()
            } else {
                old(self).peers_view().insert(
                    peer_id@,
                    DaemonPeerView { peer_id: peer_id@, state: PeerVerifyState::WaitingVerification, hostname: None },
                )
            },
            final(self).channels() == if old(self).peers_view().contains_key(peer_id@) {
                old(self).channels()
            } else {
                old(self).channels().insert(peer_id@, None)
            },
    {
        if self.peers.contains_key(&peer_id) {
            return;
        }
        let ghost id = peer_id@;
        let p = RemotePeer::new(peer_id.duplicate());
        self.peers.insert(peer_id, p);
        proof {
            assert(self.peers_view() =~= old(self).peers_view().insert(
                id,
                DaemonPeerView { peer_id: id, state: PeerVerifyState::WaitingVerification, hostname: None },
            ));
            assert(self.channels() =~= old(self).channels().insert(id, None));
        }
    }

    /// Forgets a peer, and any channel it held.
    pub fn remove_peer(&mut self, peer_id: &PeerId)
        requires
            old(self).wf(),
        ensures
            final(self).wf(),
            final(self).peers_view() == old(self).peers_view().remove(peer_id@),
            final(self).channels() == old(self).channels().remove(peer_id@),
    {
        self.peers.remove(peer_id);
        proof {
            assert(self.peers_view() =~= old(self).peers_view().remove(peer_id@));
            assert(self.channels() =~= old(self).channels().remove(peer_id@));
        }
    }

    /// Marks a known peer verified; an unknown peer is ignored.
    pub fn verified(&mut self, peer_id: &PeerId)
        requires
            old(self).wf(),
        ensures
            final(self).wf(),
            final(self).peers_view() == if old(self).peers_view().contains_key(peer_id@) {
                old(self).peers_view().insert(
                    peer_id@,
                    DaemonPeerView { state: PeerVerifyState::Verified, ..old(self).peers_view()[peer_id@] },
                )
            } else {
                old(self).peers_view()
            },
            final(self).channels() == old(self).channels(),
    {
        match self.peers.remove(peer_id) {
            Some(mut p) => {
                p.state = PeerVerifyState::Verified;
                self.peers.insert(peer_id.duplicate(), p);
                proof {
                    assert(self.peers_view() =~= old(self).peers_view().insert(
                        peer_id@,
                        DaemonPeerView { state: PeerVerifyState::Verified, ..old(self).peers_view()[peer_id@] },
                    ));
                    assert(self.channels() =~= old(self).channels());
                }
            },
            None => {
                proof {
                    assert(self.peers.view() =~= old(self).peers.view());
                }
            },
        }
    }

    /// Records the host name and the answer channel of a known peer's verification request;
    /// an unknown peer is ignored.
    pub fn set_request(&mut self, peer_id: &PeerId, hostname: String, channel: C)
        requires
            old(self).wf(),
        ensures
            final(self).wf(),
            final(self).peers_view() == if old(self).peers_view().contains_key(peer_id@) {
                old(self).peers_view().insert(
                    peer_id@,
                    DaemonPeerView { hostname: Some(hostname@), ..old(self).peers_view()[peer_id@] },
                )
            } else {
                old(self).peers_view()
            },
            final(self).channels() == if old(self).peers_view().contains_key(peer_id@) {
                old(self).channels().insert(peer_id@, Some(channel))
            } else {
                old(self).channels()
            },
    {
        let ghost h = hostname@;
        match self.peers.remove(peer_id) {
            Some(mut p) => {
                p.set_hostname(hostname).set_channel(channel);
                self.peers.insert(peer_id.duplicate(), p);
                proof {
                    assert(self.peers_view() =~= old(self).peers_view().insert(
                        peer_id@,
                        DaemonPeerView { hostname: Some(h), ..old(self).peers_view()[peer_id@] },
                    ));
                    assert(self.channels() =~= old(self).channels().insert(peer_id@, Some(channel)));
                }
            },
            None => {
                proof {
                    assert(self.peers.view() =~= old(self).peers.view());
                }
            },
        }
    }

    /// Records the host name of a known peer; an unknown peer is ignored.
    pub fn set_hostname(&mut self, peer_id: &PeerId, hostname: String)
        requires
            old(self).wf(),
        ensures
            final(self).wf(),
            final(self).peers_view() == if old(self).peers_view().contains_key(peer_id@) {
                old(self).peers_view().insert(
                    peer_id@,
                    DaemonPeerView { hostname: Some(hostname@), ..old(self).peers_view()[peer_id@] },
                )
            } else {
                old(self).peers_view()
            },
            final(self).channels() == old(self).channels(),
    {
        let ghost h = hostname@;
        match self.peers.remove(peer_id) {
            Some(mut p) => {
                p.set_hostname(hostname);
                self.peers.insert(peer_id.duplicate(), p);
                proof {
                    assert(self.peers_view() =~= old(self).peers_view().insert(
                        peer_id@,
                        DaemonPeerView { hostname: Some(h), ..old(self).peers_view()[peer_id@] },
                    ));
                    assert(self.channels() =~= old(self).channels());
                }
            },
            None => {
                proof {
                    assert(self.peers.view() =~= old(self).peers.view());
                }
            },
        }
    }

    /// Takes the pending answer channel of a known peer, leaving none.
    pub fn take_channel(&mut self, peer_id: &PeerId) -> (r: Option<C>)
        requires
            old(self).wf(),
        ensures
            final(self).wf(),
            final(self).peers_view() == old(self).peers_view(),
            r == match old(self).channels().get(peer_id@) {
                Some(c) => c,
                None => None::<C>,
            },
            final(self).channels() == if old(self).peers_view().contains_key(peer_id@) {
                old(self).channels().insert(peer_id@, None)
            } else {
                old(self).channels()
            },
    {
        match self.peers.remove(peer_id) {
            Some(mut p) => {
                let c = p.channel.take();
                self.peers.insert(peer_id.duplicate(), p);
                proof {
                    assert(self.peers_view() =~= old(self).peers_view());
                    assert(self.channels() =~= old(self).channels().insert(peer_id@, None));
                }
                c
            },
            None => {
                proof {
                    assert(self.peers.view() =~= old(self).peers.view());
                }
                None
            },
        }
    }

    /// A known peer, without its channel.
    pub fn get_peer(&self, peer_id: &PeerId) -> (r: Option<RemotePeer<C>>)
        requires
            self.wf(),
        ensures
            match r {
                Some(p) => self.peers_view().get(peer_id@) == Some(p@) && p.channel is None,
                None => !self.peers_view().contains_key(peer_id@),
            },
    {
        match self.peers.get(peer_id) {
            Some(p) => Some(p.copy_without_channel()),
            None => None,
        }
    }

    /// The known peers in id order, without their channels.
    pub fn get_all_peers(&self) -> (r: Vec<RemotePeer<C>>)
        requires
            self.wf(),
        ensures
            remote_views(r@) == self.peer_list(),
            without_channels(r@),
    {
        let mut out: Vec<RemotePeer<C>> = Vec::new();
        let mut i: usize = 0;
        let n = self.peers.len();
        proof {
            self.peers.lemma_ordered();
        }
        while i < n
            invariant
                n == self.peers.keys().len(),
                self.peers.keys().len() == self.peers.ordered_values().len(),
                0 <= i <= n,
                out@.len() == i,
                forall|j: int| 0 <= j < i ==> (#[trigger] out@[j])@ == self.peers.ordered_values()[j]@,
                without_channels(out@),
            decreases n - i,
        {
            out.push(self.peers.value_at(i).copy_without_channel());
            i = i + 1;
        }
        proof {
            assert(remote_views(out@) =~= self.peer_list());
        }
        out
    }
}

/// A network event the agent decides on (addresses and other events left out).
pub enum NetworkEvent<C> {
    /// A peer asks to be verified; the answer goes on the channel.
    AuthRequest(PeerId, LocalExAuthRequest, C),
    /// A peer answered our verification request.
    AuthResponse(PeerId, LocalExAuthResponse),
    /// The peer does not speak gossipsub.
    GossipsubNotSupported(PeerId),
    /// mDNS found these peers.
    Discovered(Vec<PeerId>),
    /// mDNS lost these peers.
    Expired(Vec<PeerId>),
}

/// What the agent's loop waits on: the screen or the network.
pub enum AgentEvent<C> {
    Client(ClientEvent),
    Network(NetworkEvent<C>),
}

/// Something the loop performs for the agent, in order.
pub enum AgentAction<C> {
    /// Add the peer to gossipsub's explicit peers.
    AddExplicitPeer(PeerId),
    /// Remove the peer from gossipsub's explicit peers.
    RemoveExplicitPeer(PeerId),
    /// Answer a verification request on its channel.
    SendAuthResponse(C, LocalExAuthResponse),
    /// Ask the peer to verify.
    SendAuthRequest(PeerId, LocalExAuthRequest),
    /// Tell the screen.
    Emit(DaemonEvent<C>),
}

/// An `AgentAction` taken by plain values.
pub enum AgentActionView<C> {
    AddExplicitPeer(Seq<u8>),
    RemoveExplicitPeer(Seq<u8>),
    SendAuthResponse(C, AuthResponseState, Seq<char>),
    SendAuthRequest(Seq<u8>, Seq<char>),
    Emit(DaemonEventView),
}

impl<C> View for AgentAction<C> {
    type V = AgentActionView<C>;

    open spec fn view(&self) -> AgentActionView<C> {
        match self {
            AgentAction::AddExplicitPeer(p) => AgentActionView::AddExplicitPeer(p@),
            AgentAction::RemoveExplicitPeer(p) => AgentActionView::RemoveExplicitPeer(p@),
            AgentAction::SendAuthResponse(c, r) => AgentActionView::SendAuthResponse(*c, r.state, r.hostname@),
            AgentAction::SendAuthRequest(p, r) => AgentActionView::SendAuthRequest(p@, r.hostname@),
            AgentAction::Emit(e) => AgentActionView::Emit(e@),
        }
    }
}

/// Actions taken by their views.
pub open spec fn agent_action_views<C>(s: Seq<AgentAction<C>>) -> Seq<AgentActionView<C>> {
    s.map_values(|a: AgentAction<C>| a@)
}

/// No event told to the screen carries a channel.
pub open spec fn emits_without_channels<C>(s: Seq<AgentAction<C>>) -> bool {
    forall|i: int| 0 <= i < s.len() ==> match #[trigger] s[i] {
        AgentAction::Emit(e) => event_without_channels(e),
        _ => true,
    }
}

/// A peer just seen.
pub open spec fn fresh_peer(id: Seq<u8>) -> DaemonPeerView {
    DaemonPeerView { peer_id: id, state: PeerVerifyState::WaitingVerification, hostname: None }
}

/// The peers after learning of an id: a known id is left as it is.
pub open spec fn peers_after_add(m: Map<Seq<u8>, DaemonPeerView>, id: Seq<u8>) -> Map<Seq<u8>, DaemonPeerView> {
    if m.contains_key(id) {
        m
    } else {
        m.insert(id, fresh_peer(id))
    }
}

/// The channels after learning of an id: a new id holds none.
pub open spec fn channels_after_add<C>(m: Map<Seq<u8>, Option<C>>, id: Seq<u8>) -> Map<Seq<u8>, Option<C>> {
    if m.contains_key(id) {
        m
    } else {
        m.insert(id, None)
    }
}

/// The peers after learning of each id in turn.
pub open spec fn peers_after_discovery(m: Map<Seq<u8>, DaemonPeerView>, ids: Seq<Seq<u8>>) -> Map<Seq<u8>, DaemonPeerView>
    decreases ids.len(),
{
    if ids.len() == 0 {
        m
    } else {
        peers_after_add(peers_after_discovery(m, ids.drop_last()), ids.last())
    }
}

/// The channels after learning of each id in turn.
pub open spec fn channels_after_discovery<C>(m: Map<Seq<u8>, Option<C>>, ids: Seq<Seq<u8>>) -> Map<Seq<u8>, Option<C>>
    decreases ids.len(),
{
    if ids.len() == 0 {
        m
    } else {
        channels_after_add(channels_after_discovery(m, ids.drop_last()), ids.last())
    }
}

/// A map after removing each id in turn.
pub open spec fn after_removes<V>(m: Map<Seq<u8>, V>, ids: Seq<Seq<u8>>) -> Map<Seq<u8>, V>
    decreases ids.len(),
{
    if ids.len() == 0 {
        m
    } else {
        after_removes(m, ids.drop_last()).remove(ids.last())
    }
}

/// Ids taken by their bytes.
pub open spec fn ids_view(ids: Seq<PeerId>) -> Seq<Seq<u8>> {
    ids.map_values(|p: PeerId| p@)
}

/// One `RemoveExplicitPeer` per id.
pub open spec fn remove_explicit_views<C>(ids: Seq<Seq<u8>>) -> Seq<AgentActionView<C>> {
    ids.map_values(|p: Seq<u8>| AgentActionView::RemoveExplicitPeer(p))
}

/// The answer sent for a confirmed or refused request.
pub open spec fn confirm_state(accepted: bool) -> AuthResponseState {
    if accepted {
        AuthResponseState::Accept
    } else {
        AuthResponseState::Deny
    }
}

/// What a request of the screen does: a confirmation marks the peer verified (joining
/// gossipsub's explicit peers) if accepted, and answers its pending request, if any, with the
/// agent's host name; a disconnection forgets the peer; a verification request is sent with
/// the agent's host name.
pub open spec fn client_step<C>(
    before: LocalExProtocol<C>,
    after: LocalExProtocol<C>,
    hostname: Seq<char>,
    event: ClientEventView,
    acts: Seq<AgentActionView<C>>,
) -> bool {
    match event {
        ClientEventView::VerifyConfirm(p, accepted) => {
            &&& after.peers_view() == if accepted {
                before.peers_view().insert(p, DaemonPeerView { state: PeerVerifyState::Verified, ..before.peers_view()[p] })
            } else {
                before.peers_view()
            }
            &&& after.channels() == before.channels().insert(p, None)
            &&& acts == (if accepted { seq![AgentActionView::AddExplicitPeer(p)] } else { Seq::<AgentActionView<C>>::empty() })
                + match before.channels()[p] {
                    Some(c) => seq![AgentActionView::SendAuthResponse(c, confirm_state(accepted), hostname)],
                    None => Seq::<AgentActionView<C>>::empty(),
                }
        },
        ClientEventView::DisconnectPeer(p) => {
            &&& after.peers_view() == before.peers_view().remove(p)
            &&& after.channels() == before.channels().remove(p)
            &&& acts == seq![AgentActionView::<C>::RemoveExplicitPeer(p)]
        },
        ClientEventView::RequestVerify(p) => {
            &&& after.peers_view() == before.peers_view()
            &&& after.channels() == before.channels()
            &&& acts == seq![AgentActionView::<C>::SendAuthRequest(p, hostname)]
        },
    }
}

/// Handles a request of the screen (see `client_step`). A confirmation is for a peer the
/// agent knows.
pub fn handle_client_event<C>(localex: &mut LocalExProtocol<C>, hostname: &String, event: ClientEvent) -> (r: Vec<AgentAction<C>>)
    requires
        old(localex).wf(),
        event matches ClientEvent::VerifyConfirm(p, _) ==> old(localex).peers_view().contains_key(p@),
    ensures
        final(localex).wf(),
        emits_without_channels(r@),
        client_step(*old(localex), *final(localex), hostname@, event@, agent_action_views(r@)),
{
    let mut actions: Vec<AgentAction<C>> = Vec::new();
    match event {
        ClientEvent::VerifyConfirm(peer_id, result) => {
            let mut state = AuthResponseState::Deny;
            if result {
                localex.verified(&peer_id);
                actions.push(AgentAction::AddExplicitPeer(peer_id.duplicate()));
                state = AuthResponseState::Accept;
            }
            let ghost a1 = actions@;
            let ghost c0 = old(localex).channels()[peer_id@];
            match localex.take_channel(&peer_id) {
                Some(channel) => {
                    actions.push(
                        AgentAction::SendAuthResponse(channel, LocalExAuthResponse { state, hostname: copy_string(hostname) }),
                    );
                },
                None => {},
            }
            proof {
                let extra = if result { seq![AgentActionView::AddExplicitPeer(peer_id@)] } else { Seq::<AgentActionView<C>>::empty() };
                assert(agent_action_views(a1) =~= extra);
                let tail = match c0 {
                    Some(c) => seq![AgentActionView::SendAuthResponse(c, confirm_state(result), hostname@)],
                    None => Seq::<AgentActionView<C>>::empty(),
                };
                assert(agent_action_views(actions@) =~= extra + tail);
            }
        },
        ClientEvent::DisconnectPeer(peer_id) => {
            actions.push(AgentAction::RemoveExplicitPeer(peer_id.duplicate()));
            localex.remove_peer(&peer_id);
            proof {
                assert(agent_action_views(actions@) =~= seq![AgentActionView::<C>::RemoveExplicitPeer(peer_id@)]);
            }
        },
        ClientEvent::RequestVerify(peer_id) => {
            actions.push(AgentAction::SendAuthRequest(peer_id, LocalExAuthRequest { hostname: copy_string(hostname) }));
            proof {
                assert(agent_action_views(actions@) =~= seq![AgentActionView::<C>::SendAuthRequest(event@->RequestVerify_0, hostname@)]);
            }
        },
    }
    actions
}

/// The peers after a verification request of a peer: it is learnt of if new, and holds the
/// host name it gave.
pub open spec fn peers_after_request(m: Map<Seq<u8>, DaemonPeerView>, id: Seq<u8>, hostname: Seq<char>) -> Map<Seq<u8>, DaemonPeerView> {
    let base = peers_after_add(m, id);
    base.insert(id, DaemonPeerView { hostname: Some(hostname), ..base[id] })
}

/// What a network event does: a verification request is recorded (host name and answer
/// channel) and shown to the screen; an answer marks the peer verified (joining gossipsub's
/// explicit peers) if accepted, and the result goes to the screen; a peer without gossipsub
/// is forgotten; discovered peers are learnt of; expired ones leave gossipsub's explicit
/// peers and are forgotten; after either, the screen gets the new list.
pub open spec fn network_step<C>(
    before: LocalExProtocol<C>,
    after: LocalExProtocol<C>,
    event: NetworkEvent<C>,
    acts: Seq<AgentActionView<C>>,
) -> bool {
    match event {
        NetworkEvent::AuthRequest(peer, request, channel) => {
            &&& after.peers_view() == peers_after_request(before.peers_view(), peer@, request.hostname@)
            &&& after.channels() == before.channels().insert(peer@, Some(channel))
            &&& acts == seq![AgentActionView::<C>::Emit(DaemonEventView::InCommingVerify(after.peers_view()[peer@]))]
        },
        NetworkEvent::AuthResponse(peer, response) => {
            let accepted = response.state == AuthResponseState::Accept;
            &&& after.peers_view() == if accepted && before.peers_view().contains_key(peer@) {
                before.peers_view().insert(peer@, DaemonPeerView { state: PeerVerifyState::Verified, ..before.peers_view()[peer@] })
            } else {
                before.peers_view()
            }
            &&& after.channels() == before.channels()
            &&& acts == (if accepted { seq![AgentActionView::AddExplicitPeer(peer@)] } else { Seq::<AgentActionView<C>>::empty() })
                + seq![AgentActionView::Emit(DaemonEventView::VerifyResult(peer@, accepted))]
        },
        NetworkEvent::GossipsubNotSupported(peer) => {
            &&& after.peers_view() == before.peers_view().remove(peer@)
            &&& after.channels() == before.channels().remove(peer@)
            &&& acts == Seq::<AgentActionView<C>>::empty()
        },
        NetworkEvent::Discovered(list) => {
            &&& after.peers_view() == peers_after_discovery(before.peers_view(), ids_view(list@))
            &&& after.channels() == channels_after_discovery(before.channels(), ids_view(list@))
            &&& acts == seq![AgentActionView::<C>::Emit(DaemonEventView::PeerList(after.peer_list()))]
        },
        NetworkEvent::Expired(list) => {
            &&& after.peers_view() == after_removes(before.peers_view(), ids_view(list@))
            &&& after.channels() == after_removes(before.channels(), ids_view(list@))
            &&& acts == remove_explicit_views::<C>(ids_view(list@)) + seq![AgentActionView::Emit(DaemonEventView::PeerList(after.peer_list()))]
        },
    }
}

/// Appending an action keeps `emits_without_channels` when that action tells the screen
/// nothing, or an event without channels.
proof fn lemma_push_keeps_emits<C>(a: Seq<AgentAction<C>>, b: Seq<AgentAction<C>>)
    requires
        b.len() == a.len() + 1,
        forall|i: int| 0 <= i < a.len() ==> b[i] == a[i],
        emits_without_channels(a),
        b.last() matches AgentAction::Emit(e) ==> event_without_channels(e),
    ensures
        emits_without_channels(b),
{
    assert forall|i: int| 0 <= i < b.len() implies match #[trigger] b[i] {
        AgentAction::Emit(e) => event_without_channels(e),
        _ => true,
    } by {
        if i < a.len() {
            assert(b[i] == a[i]);
        }
    }
}

/// Handles a network event (see `network_step`).
#[verifier::loop_isolation(false)]
pub fn handle_network_event<C>(localex: &mut LocalExProtocol<C>, event: NetworkEvent<C>) -> (r: Vec<AgentAction<C>>)
    requires
        old(localex).wf(),
    ensures
        final(localex).wf(),
        emits_without_channels(r@),
        network_step(*old(localex), *final(localex), event, agent_action_views(r@)),
        event matches NetworkEvent::AuthResponse(p, resp) ==> {
            &&& old(localex).peers_view().contains_key(p@) ==> final(localex).peers_view()[p@].state == if resp.state
                == AuthResponseState::Accept {
                PeerVerifyState::Verified
            } else {
                old(localex).peers_view()[p@].state
            }
            &&& final(localex).peers_view().contains_key(p@) == old(localex).peers_view().contains_key(p@)
        },
{
    let mut actions: Vec<AgentAction<C>> = Vec::new();
    match event {
        NetworkEvent::AuthRequest(peer, request, channel) => {
            localex.add_peer(peer.duplicate());
            localex.set_request(&peer, request.hostname, channel);
            let shown = localex.get_peer(&peer);
            match shown {
                Some(p) => {
                    actions.push(AgentAction::Emit(DaemonEvent::InCommingVerify(p)));
                },
                None => {},
            }
            proof {
                assert(agent_action_views(actions@) =~= seq![
                    AgentActionView::<C>::Emit(DaemonEventView::InCommingVerify(localex.peers_view()[peer@])),
                ]);
                assert(localex.channels() =~= old(localex).channels().insert(peer@, Some(channel)));
            }
        },
        NetworkEvent::AuthResponse(peer, response) => {
            let result = response.state == AuthResponseState::Accept;
            if result {
                localex.verified(&peer);
                actions.push(AgentAction::AddExplicitPeer(peer.duplicate()));
            }
            let ghost a1 = actions@;
            actions.push(AgentAction::Emit(DaemonEvent::VerifyResult(peer, result)));
            proof {
                lemma_push_keeps_emits(a1, actions@);
                let extra = if result { seq![AgentActionView::AddExplicitPeer(peer@)] } else { Seq::<AgentActionView<C>>::empty() };
                assert(agent_action_views(a1) =~= extra);
                assert(agent_action_views(actions@) =~= extra + seq![AgentActionView::Emit(DaemonEventView::VerifyResult(peer@, result))]);
            }
        },
        NetworkEvent::GossipsubNotSupported(peer) => {
            localex.remove_peer(&peer);
            proof {
                assert(agent_action_views(actions@) =~= Seq::<AgentActionView<C>>::empty());
            }
        },
        NetworkEvent::Discovered(list) => {
            let mut i: usize = 0;
            let ghost ids = ids_view(list@);
            while i < list.len()
                invariant
                    0 <= i <= list.len(),
                    ids == ids_view(list@),
                    localex.wf(),
                    localex.peers_view() == peers_after_discovery(old(localex).peers_view(), ids.take(i as int)),
                    localex.channels() == channels_after_discovery(old(localex).channels(), ids.take(i as int)),
                    actions@.len() == 0,
                decreases list.len() - i,
            {
                localex.add_peer(list[i].duplicate());
                proof {
                    assert(ids.take(i + 1).drop_last() =~= ids.take(i as int));
                }
                i = i + 1;
            }
            proof {
                assert(ids.take(list.len() as int) =~= ids);
            }
            let all = localex.get_all_peers();
            actions.push(AgentAction::Emit(DaemonEvent::PeerList(all)));
            proof {
                assert(agent_action_views(actions@) =~= seq![
                    AgentActionView::<C>::Emit(DaemonEventView::PeerList(localex.peer_list())),
                ]);
            }
        },
        NetworkEvent::Expired(list) => {
            let mut i: usize = 0;
            let ghost ids = ids_view(list@);
            while i < list.len()
                invariant
                    0 <= i <= list.len(),
                    ids == ids_view(list@),
                    localex.wf(),
                    localex.peers_view() == after_removes(old(localex).peers_view(), ids.take(i as int)),
                    localex.channels() == after_removes(old(localex).channels(), ids.take(i as int)),
                    agent_action_views(actions@) == remove_explicit_views::<C>(ids.take(i as int)),
                    emits_without_channels(actions@),
                decreases list.len() - i,
            {
                let ghost before = actions@;
                actions.push(AgentAction::RemoveExplicitPeer(list[i].duplicate()));
                localex.remove_peer(&list[i]);
                proof {
                    lemma_push_keeps_emits(before, actions@);
                    assert(ids.take(i + 1).drop_last() =~= ids.take(i as int));
                    assert(remove_explicit_views::<C>(ids.take(i + 1)) =~= remove_explicit_views::<C>(ids.take(i as int)).push(
                        AgentActionView::RemoveExplicitPeer(ids[i as int]),
                    ));
                    assert(agent_action_views(actions@) =~= agent_action_views(before).push(
                        AgentActionView::RemoveExplicitPeer(ids[i as int]),
                    ));
                }
                i = i + 1;
            }
            proof {
                assert(ids.take(list.len() as int) =~= ids);
            }
            let all = localex.get_all_peers();
            let ghost a1 = actions@;
            actions.push(AgentAction::Emit(DaemonEvent::PeerList(all)));
            proof {
                lemma_push_keeps_emits(a1, actions@);
                assert(agent_action_views(actions@) =~= agent_action_views(a1).push(
                    AgentActionView::Emit(DaemonEventView::PeerList(localex.peer_list())),
                ));
                assert(agent_action_views(actions@) =~= remove_explicit_views::<C>(ids)
                    + seq![AgentActionView::Emit(DaemonEventView::PeerList(localex.peer_list()))]);
            }
        },
    }
    actions
}

/// One decision of the agent's loop: the event, from the screen or the network, updates the
/// peers and lists what to perform, in order. A confirmation from the screen is for a peer
/// the agent knows.
pub fn handle_daemon<C>(localex: &mut LocalExProtocol<C>, hostname: &String, event: AgentEvent<C>) -> (r: Vec<AgentAction<C>>)
    requires
        old(localex).wf(),
        event matches AgentEvent::Client(ClientEvent::VerifyConfirm(p, _)) ==> old(localex).peers_view().contains_key(p@),
    ensures
        final(localex).wf(),
        emits_without_channels(r@),
        match event {
            AgentEvent::Client(e) => client_step(*old(localex), *final(localex), hostname@, e@, agent_action_views(r@)),
            AgentEvent::Network(e) => network_step(*old(localex), *final(localex), e, agent_action_views(r@)),
        },
{
    match event {
        AgentEvent::Client(e) => handle_client_event(localex, hostname, e),
        AgentEvent::Network(e) => handle_network_event(localex, e),
    }
}

} // verus!
