//! The first stand-alone daemon: it subscribes to the host name topic, keeps the peers mDNS
//! finds (each joining gossipsub's explicit peers), answers requests for verification by
//! keeping their channels, and records the host names peers announce.
use vstd::prelude::*;
use vstd::utf8::encode_utf8;
use crate::assoc::{AssocMap, MapKey};
use crate::bytes::copy_bytes;
use crate::event::{AuthResponseState, LocalExAuthResponse};
use crate::message::gossipsub_ident_topic_hash;
use crate::pairing::{
    after_removes, channels_after_add, channels_after_discovery, ids_view, peers_after_add, peers_after_discovery,
    peers_after_request, LocalExProtocol, RemotePeer,
};
use crate::peer::{copy_string, DaemonPeerView, PeerId};
use crate::protocol::{announced_hostname, answered_peer, string_from_utf8, AuthEvent, GossipEvent, MdnsEvent};

verus! {

/// The daemon's gossip topics.
#[derive(Clone, Copy, PartialEq, Eq, Structural, Debug, Hash)]
pub enum GossipTopic {
    Hostname,
}

impl MapKey for GossipTopic {
    type KV = GossipTopic;

    open spec fn kv(&self) -> GossipTopic {
        *self
    }

    fn same_key(&self, other: &Self) -> (r: bool) {
        *self == *other
    }

    fn copy_key(&self) -> (r: Self) {
        *self
    }
}

/// The name of the topic peers announce their host names on.
pub open spec fn hostname_topic_name() -> Seq<char> {
    "hostname-broadcaset"@
}

/// The address the daemon listens on for QUIC.
pub open spec fn quic_listen_address() -> Seq<char> {
    "/ip4/0.0.0.0/udp/0/quic-v1"@
}

/// The address the daemon listens on for TCP.
pub open spec fn tcp_listen_address() -> Seq<char> {
    "/ip4/0.0.0.0/tcp/0"@
}

/// Something the caller performs on the network for the daemon, in order.
pub enum DeamonAction {
    /// Listen on the address.
    ListenOn(String),
    /// Subscribe to the gossip topic of that name.
    Subscribe(String),
    /// Publish the data on the topic with the given hash.
    Publish(String, Vec<u8>),
    /// Add the peer to gossipsub's explicit peers.
    AddExplicitPeer(PeerId),
    /// Remove the peer from gossipsub's explicit peers.
    RemoveExplicitPeer(PeerId),
}

/// A `DeamonAction` taken by plain values.
pub enum DeamonActionView {
    ListenOn(Seq<char>),
    Subscribe(Seq<char>),
    Publish(Seq<char>, Seq<u8>),
    AddExplicitPeer(Seq<u8>),
    RemoveExplicitPeer(Seq<u8>),
}

impl View for DeamonAction {
    type V = DeamonActionView;

    open spec fn view(&self) -> DeamonActionView {
        match self {
            DeamonAction::ListenOn(a) => DeamonActionView::ListenOn(a@),
            DeamonAction::Subscribe(t) => DeamonActionView::Subscribe(t@),
            DeamonAction::Publish(h, d) => DeamonActionView::Publish(h@, d@),
            DeamonAction::AddExplicitPeer(p) => DeamonActionView::AddExplicitPeer(p@),
            DeamonAction::RemoveExplicitPeer(p) => DeamonActionView::RemoveExplicitPeer(p@),
        }
    }
}

/// Actions taken by their views.
pub open spec fn deamon_action_views(s: Seq<DeamonAction>) -> Seq<DeamonActionView> {
    s.map_values(|a: DeamonAction| a@)
}

/// One `AddExplicitPeer` per id.
pub open spec fn add_explicit_views(ids: Seq<Seq<u8>>) -> Seq<DeamonActionView> {
    ids.map_values(|p: Seq<u8>| DeamonActionView::AddExplicitPeer(p))
}

/// One `RemoveExplicitPeer` per id.
pub open spec fn remove_explicit_views(ids: Seq<Seq<u8>>) -> Seq<DeamonActionView> {
    ids.map_values(|p: Seq<u8>| DeamonActionView::RemoveExplicitPeer(p))
}

/// The daemon: its peers (with pending answer channels), its subscribed topics and its host
/// name.
pub struct Deamon<C> {
    pub peers: LocalExProtocol<C>,
    pub topics: AssocMap<GossipTopic, String>,
    pub hostname: String,
}

impl<C> Deamon<C> {
    pub open spec fn wf(&self) -> bool {
        self.peers.wf() && self.topics.wf()
    }

    /// The hash of the host name topic, once subscribed.
    pub open spec fn hostname_topic(&self) -> Option<Seq<char>> {
        if self.topics.view().contains_key(GossipTopic::Hostname) {
            Some(self.topics.view()[GossipTopic::Hostname]@)
        } else {
            None
        }
    }

    /// A daemon with no peer and no topic.
    pub fn new(hostname: String) -> (r: Deamon<C>)
        ensures
            r.wf(),
            r.peers.peers_view() == Map::<Seq<u8>, DaemonPeerView>::empty(),
            r.hostname_topic() is None,
            r.hostname@ == hostname@,
    {
        Deamon { peers: LocalExProtocol::new(), topics: AssocMap::new(), hostname }
    }

    /// Listens on QUIC and TCP, and subscribes to the host name topic, whose hash is recorded.
    pub fn listen_on(&mut self) -> (r: Vec<DeamonAction>)
        requires
            old(self).wf(),
        ensures
            final(self).wf(),
            final(self).peers == old(self).peers,
            final(self).hostname == old(self).hostname,
            final(self).hostname_topic() == Some(hostname_topic_name()),
            deamon_action_views(r@) == seq![
                DeamonActionView::ListenOn(quic_listen_address()),
                DeamonActionView::ListenOn(tcp_listen_address()),
                DeamonActionView::Subscribe(hostname_topic_name()),
            ],
    {
        let mut actions: Vec<DeamonAction> = Vec::new();
        actions.push(DeamonAction::ListenOn("/ip4/0.0.0.0/udp/0/quic-v1".to_string()));
        actions.push(DeamonAction::ListenOn("/ip4/0.0.0.0/tcp/0".to_string()));
        let name = "hostname-broadcaset".to_string();
        let hash = gossipsub_ident_topic_hash(copy_string(&name));
        actions.push(DeamonAction::Subscribe(name));
        self.topics.insert(GossipTopic::Hostname, hash);
        proof {
            reveal_strlit("/ip4/0.0.0.0/udp/0/quic-v1");
            reveal_strlit("/ip4/0.0.0.0/tcp/0");
            reveal_strlit("hostname-broadcaset");
            assert(deamon_action_views(actions@) =~= seq![
                DeamonActionView::ListenOn(quic_listen_address()),
                DeamonActionView::ListenOn(tcp_listen_address()),
                DeamonActionView::Subscribe(hostname_topic_name()),
            ]);
        }
        actions
    }

    /// Publishes the host name, as UTF-8, on the host name topic (which must be subscribed).
    pub fn broadcast_hostname(&self) -> (r: Vec<DeamonAction>)
        requires
            self.wf(),
            self.hostname_topic() is Some,
        ensures
            deamon_action_views(r@) == seq![
                DeamonActionView::Publish(self.hostname_topic()->0, encode_utf8(self.hostname@)),
            ],
    {
        let mut actions: Vec<DeamonAction> = Vec::new();
        match self.topics.get(&GossipTopic::Hostname) {
            Some(hash) => {
                let data = copy_bytes(self.hostname.as_str().as_bytes());
                actions.push(DeamonAction::Publish(copy_string(hash), data));
            },
            None => {},
        }
        proof {
            assert(deamon_action_views(actions@) =~= seq![
                DeamonActionView::Publish(self.hostname_topic()->0, encode_utf8(self.hostname@)),
            ]);
        }
        actions
    }

    /// Whether the peer is known.
    pub fn knows(&self, peer_id: &PeerId) -> (r: bool)
        requires
            self.wf(),
        ensures
            r == self.peers.peers_view().contains_key(peer_id@),
    {
        self.peers.peers.contains_key(peer_id)
    }

    /// Learns of a peer: it joins gossipsub's explicit peers (again, if known), and the table
    /// if new; a known peer is left as it is.
    pub fn add_peer(&mut self, peer_id: PeerId, actions: &mut Vec<DeamonAction>)
        requires
            old(self).wf(),
        ensures
            final(self).wf(),
            final(self).topics == old(self).topics,
            final(self).hostname == old(self).hostname,
            final(self).peers.peers_view() == peers_after_add(old(self).peers.peers_view(), peer_id@),
            final(self).peers.channels() == channels_after_add(old(self).peers.channels(), peer_id@),
            deamon_action_views(final(actions)@) == deamon_action_views(old(actions)@).push(
                DeamonActionView::AddExplicitPeer(peer_id@),
            ),
    {
        let ghost id = peer_id@;
        actions.push(DeamonAction::AddExplicitPeer(peer_id.duplicate()));
        self.peers.add_peer(peer_id);
        proof {
            assert(deamon_action_views(actions@) =~= deamon_action_views(old(actions)@).push(
                DeamonActionView::AddExplicitPeer(id),
            ));
        }
    }

    /// Forgets a peer: it leaves the table and gossipsub's explicit peers.
    pub fn remove_peer(&mut self, peer_id: &PeerId, actions: &mut Vec<DeamonAction>)
        requires
            old(self).wf(),
        ensures
            final(self).wf(),
            final(self).topics == old(self).topics,
            final(self).hostname == old(self).hostname,
            final(self).peers.peers_view() == old(self).peers.peers_view().remove(peer_id@),
            final(self).peers.channels() == old(self).peers.channels().remove(peer_id@),
            deamon_action_views(final(actions)@) == deamon_action_views(old(actions)@).push(
                DeamonActionView::RemoveExplicitPeer(peer_id@),
            ),
    {
        self.peers.remove_peer(peer_id);
        actions.push(DeamonAction::RemoveExplicitPeer(peer_id.duplicate()));
        proof {
            assert(deamon_action_views(actions@) =~= deamon_action_views(old(actions)@).push(
                DeamonActionView::RemoveExplicitPeer(peer_id@),
            ));
        }
    }

    /// Marks a known peer verified; an unknown peer is ignored.
    pub fn verified(&mut self, peer_id: &PeerId)
        requires
            old(self).wf(),
        ensures
            final(self).wf(),
            final(self).topics == old(self).topics,
            final(self).hostname == old(self).hostname,
            final(self).peers.peers_view() == if old(self).peers.peers_view().contains_key(peer_id@) {
                old(self).peers.peers_view().insert(
                    peer_id@,
                    DaemonPeerView { state: crate::peer::PeerVerifyState::Verified, ..old(self).peers.peers_view()[peer_id@] },
                )
            } else {
                old(self).peers.peers_view()
            },
            final(self).peers.channels() == old(self).peers.channels(),
    {
        self.peers.verified(peer_id);
    }

    /// The known peers in id order, without their channels.
    pub fn get_all_peers(&self) -> (r: Vec<RemotePeer<C>>)
        requires
            self.wf(),
        ensures
            crate::pairing::remote_views(r@) == self.peers.peer_list(),
            crate::pairing::without_channels(r@),
    {
        self.peers.get_all_peers()
    }
}

impl<C> Deamon<C> {
    /// Verification between peers. A request is recorded: the peer is learnt of (joining
    /// gossipsub's explicit peers) and holds the host name it gave and the answer channel. An
    /// answer from a known peer marks it verified (joining gossipsub's explicit peers) if
    /// accepted, and records the host name it gave. Failures change nothing.
    pub fn handle_auth(&mut self, event: AuthEvent<C>) -> (r: Vec<DeamonAction>)
        requires
            old(self).wf(),
            event matches AuthEvent::Response(p, _) ==> old(self).peers.peers_view().contains_key(p@),
        ensures
            final(self).wf(),
            final(self).topics == old(self).topics,
            final(self).hostname == old(self).hostname,
            match event {
                AuthEvent::Request(peer, request, channel) => {
                    &&& final(self).peers.peers_view() == peers_after_request(old(self).peers.peers_view(), peer@, request.hostname@)
                    &&& final(self).peers.channels() == old(self).peers.channels().insert(peer@, Some(channel))
                    &&& deamon_action_views(r@) == seq![DeamonActionView::AddExplicitPeer(peer@)]
                },
                AuthEvent::Response(peer, response) => {
                    let accepted = response.state == AuthResponseState::Accept;
                    &&& final(self).peers.peers_view()[peer@].state == if accepted {
                        crate::peer::PeerVerifyState::Verified
                    } else {
                        old(self).peers.peers_view()[peer@].state
                    }
                    &&& final(self).peers.peers_view() == old(self).peers.peers_view().insert(
                        peer@,
                        answered_peer(old(self).peers.peers_view()[peer@], accepted, response.hostname@),
                    )
                    &&& final(self).peers.channels() == old(self).peers.channels()
                    &&& deamon_action_views(r@) == if accepted {
                        seq![DeamonActionView::AddExplicitPeer(peer@)]
                    } else {
                        Seq::<DeamonActionView>::empty()
                    }
                },
                AuthEvent::Other => {
                    &&& final(self).peers == old(self).peers
                    &&& r@.len() == 0
                },
            },
    {
        let mut actions: Vec<DeamonAction> = Vec::new();
        match event {
            AuthEvent::Request(peer, request, channel) => {
                self.add_peer(peer.duplicate(), &mut actions);
                self.peers.set_request(&peer, request.hostname, channel);
                proof {
                    assert(self.peers.channels() =~= old(self).peers.channels().insert(peer@, Some(channel)));
                }
            },
            AuthEvent::Response(peer, response) => {
                let result = response.state == AuthResponseState::Accept;
                if result {
                    self.verified(&peer);
                    actions.push(DeamonAction::AddExplicitPeer(peer.duplicate()));
                }
                let LocalExAuthResponse { state: _, hostname } = response;
                self.peers.set_hostname(&peer, hostname);
                proof {
                    assert(deamon_action_views(actions@) =~= if result {
                        seq![DeamonActionView::AddExplicitPeer(peer@)]
                    } else {
                        Seq::<DeamonActionView>::empty()
                    });
                }
            },
            AuthEvent::Other => {},
        }
        actions
    }

    /// Gossip. A peer subscribing to the host name topic (which the daemon has subscribed)
    /// gets our host name; a host name announced by a known peer is recorded ("unknown" where
    /// it is not UTF-8); a peer without gossipsub is forgotten.
    pub fn handle_gossipsub(&mut self, event: GossipEvent) -> (r: Vec<DeamonAction>)
        requires
            old(self).wf(),
            event is Subscribed ==> old(self).hostname_topic() is Some,
        ensures
            final(self).wf(),
            final(self).topics == old(self).topics,
            final(self).hostname == old(self).hostname,
            match event {
                GossipEvent::Subscribed(topic, _) => {
                    &&& final(self).peers == old(self).peers
                    &&& deamon_action_views(r@) == if topic@ == old(self).hostname_topic()->0 {
                        seq![DeamonActionView::Publish(topic@, encode_utf8(old(self).hostname@))]
                    } else {
                        Seq::<DeamonActionView>::empty()
                    }
                },
                GossipEvent::Message { source, data, topic: _ } => {
                    &&& final(self).peers.peers_view() == match source {
                        Some(p) if old(self).peers.peers_view().contains_key(p@) => old(self).peers.peers_view().insert(
                            p@,
                            DaemonPeerView { hostname: Some(announced_hostname(data@)), ..old(self).peers.peers_view()[p@] },
                        ),
                        _ => old(self).peers.peers_view(),
                    }
                    &&& final(self).peers.channels() == old(self).peers.channels()
                    &&& r@.len() == 0
                },
                GossipEvent::GossipsubNotSupported(p) => {
                    &&& final(self).peers.peers_view() == old(self).peers.peers_view().remove(p@)
                    &&& final(self).peers.channels() == old(self).peers.channels().remove(p@)
                    &&& deamon_action_views(r@) == seq![DeamonActionView::RemoveExplicitPeer(p@)]
                },
                GossipEvent::Unsubscribed(_) => {
                    &&& final(self).peers == old(self).peers
                    &&& r@.len() == 0
                },
            },
    {
        let mut actions: Vec<DeamonAction> = Vec::new();
        match event {
            GossipEvent::Subscribed(topic, _peer_id) => {
                let is_hostname = match self.topics.get(&GossipTopic::Hostname) {
                    Some(hash) => topic == *hash,
                    None => false,
                };
                if is_hostname {
                    actions = self.broadcast_hostname();
                }
                proof {
                    assert(deamon_action_views(actions@) =~= if topic@ == old(self).hostname_topic()->0 {
                        seq![DeamonActionView::Publish(topic@, encode_utf8(old(self).hostname@))]
                    } else {
                        Seq::<DeamonActionView>::empty()
                    });
                }
            },
            GossipEvent::Message { source, data, topic: _ } => {
                match source {
                    Some(p) => {
                        if self.knows(&p) {
                            let hostname = match string_from_utf8(data) {
                                Some(h) => h,
                                None => "unknown".to_string(),
                            };
                            proof {
                                reveal_strlit("unknown");
                            }
                            self.peers.set_hostname(&p, hostname);
                        }
                    },
                    None => {},
                }
            },
            GossipEvent::GossipsubNotSupported(p) => {
                self.remove_peer(&p, &mut actions);
                proof {
                    assert(deamon_action_views(actions@) =~= seq![DeamonActionView::RemoveExplicitPeer(p@)]);
                }
            },
            GossipEvent::Unsubscribed(_) => {},
        }
        actions
    }

    /// mDNS: discovered peers are learnt of (each joining gossipsub's explicit peers), expired
    /// peers forgotten (each leaving them), in the order given.
    #[verifier::loop_isolation(false)]
    pub fn handle_mdns(&mut self, event: MdnsEvent) -> (r: Vec<DeamonAction>)
        requires
            old(self).wf(),
        ensures
            final(self).wf(),
            final(self).topics == old(self).topics,
            final(self).hostname == old(self).hostname,
            match event {
                MdnsEvent::Discovered(list) => {
                    &&& final(self).peers.peers_view() == peers_after_discovery(old(self).peers.peers_view(), ids_view(list@))
                    &&& final(self).peers.channels() == channels_after_discovery(old(self).peers.channels(), ids_view(list@))
                    &&& deamon_action_views(r@) == add_explicit_views(ids_view(list@))
                },
                MdnsEvent::Expired(list) => {
                    &&& final(self).peers.peers_view() == after_removes(old(self).peers.peers_view(), ids_view(list@))
                    &&& final(self).peers.channels() == after_removes(old(self).peers.channels(), ids_view(list@))
                    &&& deamon_action_views(r@) == remove_explicit_views(ids_view(list@))
                },
            },
    {
        let mut actions: Vec<DeamonAction> = Vec::new();
        match event {
            MdnsEvent::Discovered(list) => {
                let mut i: usize = 0;
                let ghost ids = ids_view(list@);
                while i < list.len()
                    invariant
                        0 <= i <= list.len(),
                        ids == ids_view(list@),
                        self.wf(),
                        self.topics == old(self).topics,
                        self.hostname == old(self).hostname,
                        self.peers.peers_view() == peers_after_discovery(old(self).peers.peers_view(), ids.take(i as int)),
                        self.peers.channels() == channels_after_discovery(old(self).peers.channels(), ids.take(i as int)),
                        deamon_action_views(actions@) == add_explicit_views(ids.take(i as int)),
                    decreases list.len() - i,
                {
                    self.add_peer(list[i].duplicate(), &mut actions);
                    proof {
                        assert(ids.take(i + 1).drop_last() =~= ids.take(i as int));
                        assert(add_explicit_views(ids.take(i + 1)) =~= add_explicit_views(ids.take(i as int)).push(
                            DeamonActionView::AddExplicitPeer(ids[i as int]),
                        ));
                    }
                    i = i + 1;
                }
                proof {
                    assert(ids.take(list.len() as int) =~= ids);
                }
            },
            MdnsEvent::Expired(list) => {
                let mut i: usize = 0;
                let ghost ids = ids_view(list@);
                while i < list.len()
                    invariant
                        0 <= i <= list.len(),
                        ids == ids_view(list@),
                        self.wf(),
                        self.topics == old(self).topics,
                        self.hostname == old(self).hostname,
                        self.peers.peers_view() == after_removes(old(self).peers.peers_view(), ids.take(i as int)),
                        self.peers.channels() == after_removes(old(self).peers.channels(), ids.take(i as int)),
                        deamon_action_views(actions@) == remove_explicit_views(ids.take(i as int)),
                    decreases list.len() - i,
                {
                    self.remove_peer(&list[i], &mut actions);
                    proof {
                        assert(ids.take(i + 1).drop_last() =~= ids.take(i as int));
                        assert(remove_explicit_views(ids.take(i + 1)) =~= remove_explicit_views(ids.take(i as int)).push(
                            DeamonActionView::RemoveExplicitPeer(ids[i as int]),
                        ));
                    }
                    i = i + 1;
                }
                proof {
                    assert(ids.take(list.len() as int) =~= ids);
                }
            },
        }
        actions
    }
}

} // verus!
