//! The terminal client: its configuration, and how its state answers the daemon's events and
//! the keys pressed (the drawing is left to the terminal code).
use vstd::prelude::*;
use crate::event::{ClientEvent, ClientEventView, DaemonEvent, DaemonEventView};
use crate::peer::{opt_string_view, DaemonPeer, DaemonPeerView, PeerId, PeerVerifyState};

verus! {

/// The terminal client's command-line arguments.
pub struct Cli {
    pub log_file_name: Option<String>,
    pub sock: Option<String>,
}

/// The terminal client's configuration.
pub struct Config {
    pub log_file_name: String,
}

impl Config {
    /// The configuration the command line asks for; the log file is "tui-log" unless named.
    pub fn from(value: Cli) -> (r: Config)
        ensures
            r.log_file_name@ == match value.log_file_name {
                Some(n) => n@,
                None => "tui-log"@,
            },
    {
        Config {
            log_file_name: match value.log_file_name {
                Some(n) => n,
                None => "tui-log".to_string(),
            },
        }
    }
}

/// A peer shown in the list.
pub struct Peer(pub DaemonPeer);

impl Peer {
    /// The peer's id.
    pub fn id(&self) -> (r: PeerId)
        ensures
            r@ == self.0.peer_id@,
    {
        self.0.peer_id.duplicate()
    }

    pub fn duplicate(&self) -> (r: Peer)
        ensures
            r.0@ == self.0@,
    {
        Peer(self.0.duplicate())
    }
}

/// What the screen shows.
pub enum AppUIState {
    /// A peer asks to be verified: yes or no?
    InCommingVerify(Peer),
    List,
}

/// A key pressed without modifiers.
#[derive(Clone, Copy, PartialEq, Eq, Structural, Debug)]
pub enum Key {
    Char(char),
    Enter,
    Other,
}

/// The selection after moving down: the first item from none, else the next (saturating),
/// as ratatui's `ListState::select_next` does.
pub open spec fn select_next(selected: Option<usize>) -> Option<usize> {
    match selected {
        None => Some(0),
        Some(i) => Some(if i == usize::MAX { i } else { (i + 1) as usize }),
    }
}

/// The selection after moving up: the last possible index from none, else the previous
/// (saturating), as ratatui's `ListState::select_previous` does.
pub open spec fn select_previous(selected: Option<usize>) -> Option<usize> {
    match selected {
        None => Some(usize::MAX),
        Some(i) => Some(if i == 0 { 0 } else { (i - 1) as usize }),
    }
}

/// The position of the first peer with the given id, or the length when there is none.
pub open spec fn first_peer(s: Seq<DaemonPeerView>, id: Seq<u8>) -> int
    decreases s.len(),
{
    if s.len() == 0 {
        0
    } else if s[0].peer_id == id {
        0
    } else {
        1 + first_peer(s.drop_first(), id)
    }
}

pub proof fn lemma_first_peer(s: Seq<DaemonPeerView>, id: Seq<u8>, i: int)
    requires
        0 <= i <= s.len(),
        forall|j: int| 0 <= j < i ==> (#[trigger] s[j]).peer_id != id,
        i < s.len() ==> s[i].peer_id == id,
    ensures
        first_peer(s, id) == i,
    decreases i,
{
    if i > 0 {
        assert(s[0].peer_id != id);
        lemma_first_peer(s.drop_first(), id, i - 1);
    }
}

/// The peers with the first one of the given id (if any) in the given state.
pub open spec fn set_first_state(s: Seq<DaemonPeerView>, id: Seq<u8>, state: PeerVerifyState) -> Seq<DaemonPeerView> {
    let i = first_peer(s, id);
    if i < s.len() {
        s.update(i, DaemonPeerView { state, ..s[i] })
    } else {
        s
    }
}

/// The terminal client's state.
pub struct AppState {
    pub selected: Option<usize>,
    pub ui_state: AppUIState,
    pub peers: Vec<Peer>,
    pub hostname: String,
    pub local_peer: Option<PeerId>,
}

/// The shown peers, taken by their views.
pub open spec fn shown_peers(peers: Seq<Peer>) -> Seq<DaemonPeerView> {
    peers.map_values(|p: Peer| p.0@)
}

/// The peer asking to be verified, if any.
pub open spec fn verifying_peer(ui: AppUIState) -> Option<DaemonPeerView> {
    match ui {
        AppUIState::InCommingVerify(p) => Some(p.0@),
        AppUIState::List => None,
    }
}

/// The terminal client: its state, and whether it is to quit.
pub struct App {
    pub state: AppState,
    pub should_quit: bool,
}

impl App {
    /// A client with no peer, nothing selected, showing the list.
    pub fn new() -> (r: App)
        ensures
            r.state.selected is None,
            verifying_peer(r.state.ui_state) is None,
            r.state.peers@.len() == 0,
            r.state.hostname@ == Seq::<char>::empty(),
            r.state.local_peer is None,
            !r.should_quit,
    {
        App {
            state: AppState {
                selected: None,
                ui_state: AppUIState::List,
                peers: Vec::new(),
                hostname: String::new(),
                local_peer: None,
            },
            should_quit: false,
        }
    }

    /// Asks the client to quit.
    pub fn quit(&mut self)
        ensures
            final(self).should_quit,
            final(self).state == old(self).state,
    {
        self.should_quit = true;
    }

    /// The list was drawn: the selection becomes what the drawing left it (ratatui's `List`
    /// moves a selection past the end to the last item, and clears it for an empty list).
    pub fn list_drawn(&mut self, selected: Option<usize>)
        ensures
            final(self).state.selected == selected,
            final(self).state.ui_state == old(self).state.ui_state,
            final(self).state.peers == old(self).state.peers,
            final(self).state.hostname == old(self).state.hostname,
            final(self).state.local_peer == old(self).state.local_peer,
            final(self).should_quit == old(self).should_quit,
    {
        self.state.selected = selected;
    }

    fn first_peer_index(&self, id: &PeerId) -> (r: usize)
        ensures
            r == first_peer(shown_peers(self.state.peers@), id@),
            r <= self.state.peers@.len(),
    {
        let ghost s = shown_peers(self.state.peers@);
        let mut i: usize = 0;
        while i < self.state.peers.len()
            invariant
                0 <= i <= self.state.peers@.len(),
                s == shown_peers(self.state.peers@),
                forall|j: int| 0 <= j < i ==> (#[trigger] s[j]).peer_id != id@,
            decreases self.state.peers@.len() - i,
        {
            if self.state.peers[i].0.peer_id.same_as(id) {
                proof {
                    lemma_first_peer(s, id@, i as int);
                }
                return i;
            }
            i = i + 1;
        }
        proof {
            lemma_first_peer(s, id@, i as int);
        }
        i
    }

    fn set_peer_state(&mut self, i: usize, state: PeerVerifyState)
        requires
            i < old(self).state.peers@.len(),
        ensures
            shown_peers(final(self).state.peers@) == shown_peers(old(self).state.peers@).update(
                i as int,
                DaemonPeerView { state, ..shown_peers(old(self).state.peers@)[i as int] },
            ),
            final(self).state.selected == old(self).state.selected,
            final(self).state.ui_state == old(self).state.ui_state,
            final(self).state.hostname == old(self).state.hostname,
            final(self).state.local_peer == old(self).state.local_peer,
            final(self).should_quit == old(self).should_quit,
    {
        let mut p = self.state.peers.remove(i);
        p.0.state = state;
        self.state.peers.insert(i, p);
        proof {
            assert(shown_peers(self.state.peers@) =~= shown_peers(old(self).state.peers@).update(
                i as int,
                DaemonPeerView { state, ..shown_peers(old(self).state.peers@)[i as int] },
            ));
        }
    }

    /// The daemon's events: local info is shown; a verification result marks the peer
    /// verified or blocked; an incoming request is asked about (with the listed peer of that
    /// id if there is one); a new list replaces the peers, the first selected if nothing was.
    pub fn handle_deamon(&mut self, event: DaemonEvent)
        ensures
            final(self).should_quit == old(self).should_quit,
            match event@ {
                DaemonEventView::LocalInfo(h, p) => {
                    &&& final(self).state.hostname@ == h
                    &&& final(self).state.local_peer matches Some(q) && q@ == p
                    &&& shown_peers(final(self).state.peers@) == shown_peers(old(self).state.peers@)
                    &&& final(self).state.selected == old(self).state.selected
                    &&& verifying_peer(final(self).state.ui_state) == verifying_peer(old(self).state.ui_state)
                },
                DaemonEventView::VerifyResult(id, accepted) => {
                    &&& shown_peers(final(self).state.peers@) == set_first_state(
                        shown_peers(old(self).state.peers@),
                        id,
                        if accepted { PeerVerifyState::Verified } else { PeerVerifyState::Blocked },
                    )
                    &&& final(self).state.selected == old(self).state.selected
                    &&& verifying_peer(final(self).state.ui_state) == verifying_peer(old(self).state.ui_state)
                    &&& final(self).state.hostname == old(self).state.hostname
                    &&& final(self).state.local_peer == old(self).state.local_peer
                },
                DaemonEventView::InComingVerify(peer) => {
                    let s = shown_peers(old(self).state.peers@);
                    let i = first_peer(s, peer.peer_id);
                    &&& verifying_peer(final(self).state.ui_state) == Some(if i < s.len() { s[i] } else { peer })
                    &&& shown_peers(final(self).state.peers@) == s
                    &&& final(self).state.selected == old(self).state.selected
                    &&& final(self).state.hostname == old(self).state.hostname
                    &&& final(self).state.local_peer == old(self).state.local_peer
                },
                DaemonEventView::PeerList(list) => {
                    &&& shown_peers(final(self).state.peers@) == list
                    &&& final(self).state.selected == if old(self).state.selected is None && list.len() > 0 {
                        Some(0usize)
                    } else {
                        old(self).state.selected
                    }
                    &&& verifying_peer(final(self).state.ui_state) == verifying_peer(old(self).state.ui_state)
                    &&& final(self).state.hostname == old(self).state.hostname
                    &&& final(self).state.local_peer == old(self).state.local_peer
                },
                _ => {
                    &&& shown_peers(final(self).state.peers@) == shown_peers(old(self).state.peers@)
                    &&& final(self).state.selected == old(self).state.selected
                    &&& verifying_peer(final(self).state.ui_state) == verifying_peer(old(self).state.ui_state)
                    &&& final(self).state.hostname == old(self).state.hostname
                    &&& final(self).state.local_peer == old(self).state.local_peer
                },
            },
    {
        match event {
            DaemonEvent::LocalInfo(hostname, peer) => {
                self.state.hostname = hostname;
                self.state.local_peer = Some(peer);
            },
            DaemonEvent::VerifyResult(peer_id, result) => {
                let i = self.first_peer_index(&peer_id);
                if i < self.state.peers.len() {
                    let state = if result { PeerVerifyState::Verified } else { PeerVerifyState::Blocked };
                    self.set_peer_state(i, state);
                }
            },
            DaemonEvent::InComingVerify(peer) => {
                let i = self.first_peer_index(&peer.peer_id);
                if i < self.state.peers.len() {
                    self.state.ui_state = AppUIState::InCommingVerify(self.state.peers[i].duplicate());
                } else {
                    self.state.ui_state = AppUIState::InCommingVerify(Peer(peer));
                }
            },
            DaemonEvent::PeerList(peers) => {
                let mut shown: Vec<Peer> = Vec::new();
                let mut source = peers;
                let ghost all = source@;
                let n = source.len();
                let mut i: usize = 0;
                while i < n
                    invariant
                        n == all.len(),
                        0 <= i <= n,
                        source@ == all.skip(i as int),
                        shown@.len() == i,
                        forall|j: int| 0 <= j < i ==> (#[trigger] shown@[j]).0@ == all[j]@,
                    decreases n - i,
                {
                    let p = source.remove(0);
                    proof {
                        assert(source@ =~= all.skip(i + 1));
                    }
                    shown.push(Peer(p));
                    i = i + 1;
                }
                proof {
                    assert(shown_peers(shown@) =~= crate::event::peer_views(all));
                }
                self.state.peers = shown;
                if self.state.selected.is_none() && self.state.peers.len() > 0 {
                    self.state.selected = Some(0);
                }
            },
            _ => {},
        }
    }

    /// A key. `q` quits; `j` and `k` move the selection; Enter asks the selected peer to
    /// verify; `d` disconnects it; `y` / `n` answer an incoming request (a yes also marks the
    /// listed peer verified) and go back to the list; `r` asks for the peer list. The
    /// result is the request to send to the daemon, if any.
    pub fn handle_input(&mut self, key: Key) -> (r: Option<ClientEvent>)
        ensures
            final(self).should_quit == (old(self).should_quit || key == Key::Char('q') || key == Key::Char('Q')),
            final(self).state.hostname == old(self).state.hostname,
            final(self).state.local_peer == old(self).state.local_peer,
            final(self).state.selected == match key {
                Key::Char('j') => select_next(old(self).state.selected),
                Key::Char('k') => select_previous(old(self).state.selected),
                _ => old(self).state.selected,
            },
            verifying_peer(final(self).state.ui_state) == match key {
                Key::Char('y') | Key::Char('Y') | Key::Char('n') | Key::Char('N') => None,
                _ => verifying_peer(old(self).state.ui_state),
            },
            shown_peers(final(self).state.peers@) == match (key, verifying_peer(old(self).state.ui_state)) {
                (Key::Char('y'), Some(p)) | (Key::Char('Y'), Some(p)) => set_first_state(
                    shown_peers(old(self).state.peers@),
                    p.peer_id,
                    PeerVerifyState::Verified,
                ),
                _ => shown_peers(old(self).state.peers@),
            },
            match key {
                Key::Enter => match old(self).state.selected {
                    Some(i) if i < old(self).state.peers@.len() => r matches Some(e) && e@ == ClientEventView::RequestVerify(
                        old(self).state.peers@[i as int].0.peer_id@,
                    ),
                    _ => r is None,
                },
                Key::Char('d') => match old(self).state.selected {
                    Some(i) if i < old(self).state.peers@.len() => r matches Some(e) && e@ == ClientEventView::DisconnectPeer(
                        old(self).state.peers@[i as int].0.peer_id@,
                    ),
                    _ => r is None,
                },
                Key::Char('y') | Key::Char('Y') => match verifying_peer(old(self).state.ui_state) {
                    Some(p) => r matches Some(e) && e@ == ClientEventView::VerifyConfirm(p.peer_id, true),
                    None => r is None,
                },
                Key::Char('n') | Key::Char('N') => match verifying_peer(old(self).state.ui_state) {
                    Some(p) => r matches Some(e) && e@ == ClientEventView::VerifyConfirm(p.peer_id, false),
                    None => r is None,
                },
                Key::Char('r') | Key::Char('R') => r matches Some(e) && e@ == ClientEventView::RequestPeerList,
                _ => r is None,
            },
    {
        match key {
            Key::Char('q') | Key::Char('Q') => {
                self.quit();
                None
            },
            Key::Char('j') => {
                self.state.selected = match self.state.selected {
                    None => Some(0),
                    Some(i) => Some(i.saturating_add(1)),
                };
                None
            },
            Key::Char('k') => {
                self.state.selected = match self.state.selected {
                    None => Some(usize::MAX),
                    Some(i) => Some(i.saturating_sub(1)),
                };
                None
            },
            Key::Enter => match self.state.selected {
                Some(index) => {
                    if index < self.state.peers.len() {
                        Some(ClientEvent::RequestVerify(self.state.peers[index].id()))
                    } else {
                        None
                    }
                },
                None => None,
            },
            Key::Char('d') => match self.state.selected {
                Some(index) => {
                    if index < self.state.peers.len() {
                        Some(ClientEvent::DisconnectPeer(self.state.peers[index].id()))
                    } else {
                        None
                    }
                },
                None => None,
            },
            Key::Char('y') | Key::Char('Y') => {
                let out = match &self.state.ui_state {
                    AppUIState::InCommingVerify(p) => {
                        let id = p.id();
                        Some(id)
                    },
                    AppUIState::List => None,
                };
                let r = match out {
                    Some(id) => {
                        let i = self.first_peer_index(&id);
                        if i < self.state.peers.len() {
                            self.set_peer_state(i, PeerVerifyState::Verified);
                        }
                        Some(ClientEvent::VerifyConfirm(id, true))
                    },
                    None => None,
                };
                self.state.ui_state = AppUIState::List;
                r
            },
            Key::Char('n') | Key::Char('N') => {
                let r = match &self.state.ui_state {
                    AppUIState::InCommingVerify(p) => Some(ClientEvent::VerifyConfirm(p.id(), false)),
                    AppUIState::List => None,
                };
                self.state.ui_state = AppUIState::List;
                r
            },
            Key::Char('r') | Key::Char('R') => Some(ClientEvent::RequestPeerList),
            _ => None,
        }
    }
}

/// The rectangle of `width` by `height` in the middle of an area of `area_width` by
/// `area_height`: its top-left corner is offset by half the spare room on each side. The
/// area must hold the rectangle.
pub fn centered_offsets(width: u16, height: u16, area_width: u16, area_height: u16) -> (r: (u16, u16))
    requires
        height <= area_height,
        width <= area_width,
    ensures
        r.0 == (area_width - width) / 2,
        r.1 == (area_height - height) / 2,
{
    let padding_v = (area_height - height) / 2;
    let padding_h = (area_width - width) / 2;
    (padding_h, padding_v)
}

} // verus!
