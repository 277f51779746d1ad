//! The single-process agent's terminal screen: how its state answers the network loop's
//! notices and the keys pressed (the drawing is left to the terminal code).
use vstd::prelude::*;
use crate::pairing::{ClientEvent, ClientEventView, DaemonEvent, DaemonEventView, RemotePeer, remote_views};
use crate::peer::{DaemonPeerView, PeerId, PeerVerifyState};
use crate::tui::{first_peer, select_next, select_previous, set_first_state, Key};

verus! {

/// A peer shown in the list.
pub struct Peer<C>(pub RemotePeer<C>);

impl<C> Peer<C> {
    /// The peer's id.
    pub fn id(&self) -> (r: PeerId)
        ensures
            r@ == self.0.peer_id@,
    {
        self.0.peer_id.duplicate()
    }

    /// A copy of the shown peer (without any channel).
    pub fn duplicate(&self) -> (r: Peer<C>)
        ensures
            r.0@ == self.0@,
    {
        Peer(self.0.copy_without_channel())
    }
}

/// What the screen shows.
pub enum TuiUiState<C> {
    /// A peer asks to be verified: yes or no?
    InCommingVerify(Peer<C>),
    List,
}

/// The screen's state: the selected line, what is shown, and the peers listed.
pub struct TuiState<C> {
    pub selected: Option<usize>,
    pub ui_state: TuiUiState<C>,
    pub peers: Vec<Peer<C>>,
}

/// The listed peers, taken by their views.
pub open spec fn listed<C>(peers: Seq<Peer<C>>) -> Seq<DaemonPeerView> {
    peers.map_values(|p: Peer<C>| p.0@)
}

/// The peer asking to be verified, if any.
pub open spec fn asking_peer<C>(ui: TuiUiState<C>) -> Option<DaemonPeerView> {
    match ui {
        TuiUiState::InCommingVerify(p) => Some(p.0@),
        TuiUiState::List => None,
    }
}

/// The agent's screen: its state, and whether it is to quit.
pub struct Tui<C> {
    pub state: TuiState<C>,
    pub should_quit: bool,
}

impl<C> Tui<C> {
    /// A screen with no peer, nothing selected, showing the list.
    pub fn new() -> (r: Tui<C>)
        ensures
            r.state.selected is None,
            asking_peer(r.state.ui_state) is None,
            r.state.peers@.len() == 0,
            !r.should_quit,
    {
        Tui { state: TuiState { selected: None, ui_state: TuiUiState::List, peers: Vec::new() }, should_quit: false }
    }

    /// Asks the screen to quit.
    pub fn quit(&mut self)
        ensures
            final(self).should_quit,
            final(self).state == old(self).state,
    {
        self.should_quit = true;
    }

    /// The list was drawn: the selection becomes what the drawing left it (ratatui's `List`
    /// moves a selection past the end to the last item, and clears it for an empty list).
    pub fn list_drawn(&mut self, selected: Option<usize>)
        ensures
            final(self).state.selected == selected,
            final(self).state.ui_state == old(self).state.ui_state,
            final(self).state.peers == old(self).state.peers,
            final(self).should_quit == old(self).should_quit,
    {
        self.state.selected = selected;
    }

    fn first_peer_index(&self, id: &PeerId) -> (r: usize)
        ensures
            r == first_peer(listed(self.state.peers@), id@),
            r <= self.state.peers@.len(),
    {
        let ghost s = listed(self.state.peers@);
        let mut i: usize = 0;
        while i < self.state.peers.len()
            invariant
                0 <= i <= self.state.peers@.len(),
                s == listed(self.state.peers@),
                forall|j: int| 0 <= j < i ==> (#[trigger] s[j]).peer_id != id@,
            decreases self.state.peers@.len() - i,
        {
            if self.state.peers[i].0.peer_id.same_as(id) {
                proof {
                    crate::tui::lemma_first_peer(s, id@, i as int);
                }
                return i;
            }
            i = i + 1;
        }
        proof {
            crate::tui::lemma_first_peer(s, id@, i as int);
        }
        i
    }

    fn set_peer_state(&mut self, i: usize, state: PeerVerifyState)
        requires
            i < old(self).state.peers@.len(),
        ensures
            listed(final(self).state.peers@) == listed(old(self).state.peers@).update(
                i as int,
                DaemonPeerView { state, ..listed(old(self).state.peers@)[i as int] },
            ),
            final(self).state.selected == old(self).state.selected,
            final(self).state.ui_state == old(self).state.ui_state,
            final(self).should_quit == old(self).should_quit,
    {
        let mut p = self.state.peers.remove(i);
        p.0.state = state;
        self.state.peers.insert(i, p);
        proof {
            assert(listed(self.state.peers@) =~= listed(old(self).state.peers@).update(
                i as int,
                DaemonPeerView { state, ..listed(old(self).state.peers@)[i as int] },
            ));
        }
    }

    /// The network loop's notices: a verification result marks the listed peer verified or
    /// blocked; an incoming request is asked about (with the listed peer of that id if there
    /// is one); a new list replaces the peers, the first selected if nothing was; local
    /// information is not shown.
    pub fn handle_daemon(&mut self, event: DaemonEvent<C>)
        ensures
            final(self).should_quit == old(self).should_quit,
            match event@ {
                DaemonEventView::VerifyResult(id, accepted) => {
                    &&& listed(final(self).state.peers@) == set_first_state(
                        listed(old(self).state.peers@),
                        id,
                        if accepted { PeerVerifyState::Verified } else { PeerVerifyState::Blocked },
                    )
                    &&& final(self).state.selected == old(self).state.selected
                    &&& asking_peer(final(self).state.ui_state) == asking_peer(old(self).state.ui_state)
                },
                DaemonEventView::InCommingVerify(peer) => {
                    let s = listed(old(self).state.peers@);
                    let i = first_peer(s, peer.peer_id);
                    &&& asking_peer(final(self).state.ui_state) == Some(if i < s.len() { s[i] } else { peer })
                    &&& listed(final(self).state.peers@) == s
                    &&& final(self).state.selected == old(self).state.selected
                },
                DaemonEventView::PeerList(list) => {
                    &&& listed(final(self).state.peers@) == list
                    &&& final(self).state.selected == if old(self).state.selected is None && list.len() > 0 {
                        Some(0usize)
                    } else {
                        old(self).state.selected
                    }
                    &&& asking_peer(final(self).state.ui_state) == asking_peer(old(self).state.ui_state)
                },
                DaemonEventView::LocalInfo(_, _) => {
                    &&& listed(final(self).state.peers@) == listed(old(self).state.peers@)
                    &&& final(self).state.selected == old(self).state.selected
                    &&& asking_peer(final(self).state.ui_state) == asking_peer(old(self).state.ui_state)
                },
            },
    {
        match event {
            DaemonEvent::VerifyResult(peer_id, result) => {
                let i = self.first_peer_index(&peer_id);
                if i < self.state.peers.len() {
                    let state = if result { PeerVerifyState::Verified } else { PeerVerifyState::Blocked };
                    self.set_peer_state(i, state);
                }
            },
            DaemonEvent::InCommingVerify(peer) => {
                let i = self.first_peer_index(&peer.peer_id);
                if i < self.state.peers.len() {
                    self.state.ui_state = TuiUiState::InCommingVerify(self.state.peers[i].duplicate());
                } else {
                    self.state.ui_state = TuiUiState::InCommingVerify(Peer(peer));
                }
            },
            DaemonEvent::PeerList(peers) => {
                let mut shown: Vec<Peer<C>> = Vec::new();
                let mut source = peers;
                let ghost all = source@;
                let n = source.len();
                let mut i: usize = 0;
                while i < n
                    invariant
                        n == all.len(),
                        0 <= i <= n,
                        source@ == all.skip(i as int),
                        shown@.len() == i,
                        forall|j: int| 0 <= j < i ==> (#[trigger] shown@[j]).0@ == all[j]@,
                    decreases n - i,
                {
                    let p = source.remove(0);
                    proof {
                        assert(source@ =~= all.skip(i + 1));
                    }
                    shown.push(Peer(p));
                    i = i + 1;
                }
                proof {
                    assert(listed(shown@) =~= remote_views(all));
                }
                self.state.peers = shown;
                if self.state.selected.is_none() && self.state.peers.len() > 0 {
                    self.state.selected = Some(0);
                }
            },
            DaemonEvent::LocalInfo(_, _) => {},
        }
    }

    /// A key. `q` quits; `j` and `k` move the selection; Enter asks the selected peer to
    /// verify; `d` disconnects it; `y` / `n` answer an incoming request (a yes also marks the
    /// listed peer verified) and go back to the list. The result is the request for the
    /// network loop, if any.
    pub fn handle_input(&mut self, key: Key) -> (r: Option<ClientEvent>)
        ensures
            final(self).should_quit == (old(self).should_quit || key == Key::Char('q') || key == Key::Char('Q')),
            final(self).state.selected == match key {
                Key::Char('j') => select_next(old(self).state.selected),
                Key::Char('k') => select_previous(old(self).state.selected),
                _ => old(self).state.selected,
            },
            asking_peer(final(self).state.ui_state) == match key {
                Key::Char('y') | Key::Char('Y') | Key::Char('n') | Key::Char('N') => None,
                _ => asking_peer(old(self).state.ui_state),
            },
            listed(final(self).state.peers@) == match (key, asking_peer(old(self).state.ui_state)) {
                (Key::Char('y'), Some(p)) | (Key::Char('Y'), Some(p)) => set_first_state(
                    listed(old(self).state.peers@),
                    p.peer_id,
                    PeerVerifyState::Verified,
                ),
                _ => listed(old(self).state.peers@),
            },
            match key {
                Key::Enter => match old(self).state.selected {
                    Some(i) if i < old(self).state.peers@.len() => r matches Some(e) && e@ == ClientEventView::RequestVerify(
                        old(self).state.peers@[i as int].0.peer_id@,
                    ),
                    _ => r is None,
                },
                Key::Char('d') => match old(self).state.selected {
                    Some(i) if i < old(self).state.peers@.len() => r matches Some(e) && e@ == ClientEventView::DisconnectPeer(
                        old(self).state.peers@[i as int].0.peer_id@,
                    ),
                    _ => r is None,
                },
                Key::Char('y') | Key::Char('Y') => match asking_peer(old(self).state.ui_state) {
                    Some(p) => r matches Some(e) && e@ == ClientEventView::VerifyConfirm(p.peer_id, true),
                    None => r is None,
                },
                Key::Char('n') | Key::Char('N') => match asking_peer(old(self).state.ui_state) {
                    Some(p) => r matches Some(e) && e@ == ClientEventView::VerifyConfirm(p.peer_id, false),
                    None => r is None,
                },
                _ => r is None,
            },
    {
        match key {
            Key::Char('q') | Key::Char('Q') => {
                self.quit();
                None
            },
            Key::Char('j') => {
                self.state.selected = match self.state.selected {
                    None => Some(0),
                    Some(i) => Some(i.saturating_add(1)),
                };
                None
            },
            Key::Char('k') => {
                self.state.selected = match self.state.selected {
                    None => Some(usize::MAX),
                    Some(i) => Some(i.saturating_sub(1)),
                };
                None
            },
            Key::Enter => match self.state.selected {
                Some(index) => {
                    if index < self.state.peers.len() {
                        Some(ClientEvent::RequestVerify(self.state.peers[index].id()))
                    } else {
                        None
                    }
                },
                None => None,
            },
            Key::Char('d') => match self.state.selected {
                Some(index) => {
                    if index < self.state.peers.len() {
                        Some(ClientEvent::DisconnectPeer(self.state.peers[index].id()))
                    } else {
                        None
                    }
                },
                None => None,
            },
            Key::Char('y') | Key::Char('Y') => {
                let out = match &self.state.ui_state {
                    TuiUiState::InCommingVerify(p) => Some(p.id()),
                    TuiUiState::List => None,
                };
                let r = match out {
                    Some(id) => {
                        let i = self.first_peer_index(&id);
                        if i < self.state.peers.len() {
                            self.set_peer_state(i, PeerVerifyState::Verified);
                        }
                        Some(ClientEvent::VerifyConfirm(id, true))
                    },
                    None => None,
                };
                self.state.ui_state = TuiUiState::List;
                r
            },
            Key::Char('n') | Key::Char('N') => {
                let r = match &self.state.ui_state {
                    TuiUiState::InCommingVerify(p) => Some(ClientEvent::VerifyConfirm(p.id(), false)),
                    TuiUiState::List => None,
                };
                self.state.ui_state = TuiUiState::List;
                r
            },
            _ => None,
        }
    }
}

} // verus!
