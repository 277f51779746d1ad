//! Properties of the library that span several operations or several values: what the
//! conversions undo, what a sequence of events leaves, and how the data a sender cuts up is
//! found again by the receiver.
use vstd::prelude::*;
use crate::agent::{state_after_fails, PeerVerifyState as AgentState, RETRY_LIMIT};
use crate::event::{ClientEventView, DaemonEventView, LocalExAuthRequest};
use crate::ffi::{
    FFIClientEventView,
    client_event_of_ffi, daemon_event_of_ffi, ffi_client_event_of, ffi_daemon_event_of, ffi_peer_of, ffi_state_of,
    is_ffi_client_event, parsed_peers, peer_of_ffi, state_of_ffi, FFIPeerVerifyState,
};
use crate::file::{chunk_count, chunk_of, CHUNK_SIZE};
use crate::pairing::{
    after_removes, channels_after_discovery, client_step, peers_after_request, confirm_state, fresh_peer, network_step, peers_after_discovery, AgentActionView,
    ClientEventView as AgentClientEventView, DaemonEventView as AgentEventView, LocalExProtocol, NetworkEvent,
};
use crate::peer::{is_peer_id_bytes, libp2p_peer_id_from_bytes, DaemonPeerView, PeerId, PeerVerifyState};
use crate::protocol::{answered_peer, peers_after_adds, peers_after_removes, confirm_actions, confirmation_handled, request_recorded, ActionView, LocalExNode};
use crate::event::{AuthResponseState, LocalExAuthResponse};
use crate::tui::{first_peer, select_next, select_previous};
use crate::ipc::{write_step, WriteOutcome, WriteProgress, WriteStep, MAX_WRITE_ATTEMPTS};

verus! {

/// A waiting peer that keeps failing verification is counted up to the retry limit and
/// blocked at the next failure; a verified or a blocked peer is left as it is by any number
/// of failures.
pub proof fn law_retries_then_blocked(n: nat)
    ensures
        n <= RETRY_LIMIT ==> state_after_fails(AgentState::WaitingVerification(0), n) == AgentState::WaitingVerification(
            n as u8,
        ),
        n > RETRY_LIMIT ==> state_after_fails(AgentState::WaitingVerification(0), n) == AgentState::Blocked,
        state_after_fails(AgentState::Verified, n) == AgentState::Verified,
        state_after_fails(AgentState::Blocked, n) == AgentState::Blocked,
    decreases n,
{
    if n > 0 {
        law_retries_then_blocked((n - 1) as nat);
    }
}

/// A verification state crosses to the Android side and back unchanged, and so does an
/// Android state crossing the other way.
pub proof fn law_verify_state_roundtrip(s: PeerVerifyState, f: FFIPeerVerifyState)
    ensures
        state_of_ffi(ffi_state_of(s)) == s,
        ffi_state_of(state_of_ffi(f)) == f,
{
}

/// The peer ids a client event names are valid libp2p ids.
pub open spec fn client_event_ids_valid(e: ClientEventView) -> bool {
    match e {
        ClientEventView::RequestVerify(p) => is_peer_id_bytes(p),
        ClientEventView::DisconnectPeer(p) => is_peer_id_bytes(p),
        ClientEventView::VerifyConfirm(p, _) => is_peer_id_bytes(p),
        _ => true,
    }
}

/// A client event the Android side knows of, naming valid peer ids, crosses to the Android
/// side and back unchanged.
pub proof fn law_client_event_roundtrip(e: ClientEventView)
    requires
        is_ffi_client_event(e),
        client_event_ids_valid(e),
    ensures
        client_event_of_ffi(ffi_client_event_of(e)) == Some(e),
{
}

/// A peer whose id is valid and whose host name is known.
pub open spec fn peer_crosses(p: DaemonPeerView) -> bool {
    is_peer_id_bytes(p.peer_id) && p.hostname is Some
}

/// The peers a daemon event names have valid ids and known host names.
pub open spec fn daemon_event_crosses(e: DaemonEventView) -> bool {
    match e {
        DaemonEventView::VerifyResult(p, _) => is_peer_id_bytes(p),
        DaemonEventView::InComingVerify(p) => peer_crosses(p),
        DaemonEventView::PeerList(l) => forall|i: int| 0 <= i < l.len() ==> peer_crosses(#[trigger] l[i]),
        DaemonEventView::LocalInfo(_, p) => is_peer_id_bytes(p),
        _ => true,
    }
}

proof fn lemma_peer_list_roundtrip(l: Seq<DaemonPeerView>)
    requires
        forall|i: int| 0 <= i < l.len() ==> peer_crosses(#[trigger] l[i]),
    ensures
        parsed_peers(l.map_values(|p: DaemonPeerView| ffi_peer_of(p))) == l,
    decreases l.len(),
{
    if l.len() > 0 {
        let f = l.map_values(|p: DaemonPeerView| ffi_peer_of(p));
        assert(f.drop_last() =~= l.drop_last().map_values(|p: DaemonPeerView| ffi_peer_of(p)));
        lemma_peer_list_roundtrip(l.drop_last());
        assert(peer_crosses(l[l.len() - 1]));
        assert(peer_of_ffi(f.last()) == Some(l.last()));
        assert(l.drop_last().push(l.last()) =~= l);
    }
}

/// A daemon event the Android side shows crosses to it and back unchanged when its peers
/// have valid ids and known host names; an event the Android side does not show comes back
/// `Unknown`.
pub proof fn law_daemon_event_roundtrip(e: DaemonEventView)
    requires
        daemon_event_crosses(e),
    ensures
        daemon_event_of_ffi(ffi_daemon_event_of(e)) == Some(
            match e {
                DaemonEventView::VerifyResult(_, _) => e,
                DaemonEventView::InComingVerify(_) => e,
                DaemonEventView::PeerList(_) => e,
                DaemonEventView::LocalInfo(_, _) => e,
                _ => DaemonEventView::Unknown,
            },
        ),
{
    match e {
        DaemonEventView::PeerList(l) => {
            lemma_peer_list_roundtrip(l);
        },
        _ => {},
    }
}

/// A verification request is answered on its own channel: after a peer's request and the
/// screen's confirmation for that peer, the last action answers on the request's channel
/// with the decision and the agent's host name, no channel is left pending for the peer,
/// and the peer is verified if accepted.
pub proof fn law_request_answered_on_its_channel<C>(
    s0: LocalExProtocol<C>,
    s1: LocalExProtocol<C>,
    s2: LocalExProtocol<C>,
    peer: PeerId,
    request: LocalExAuthRequest,
    channel: C,
    hostname: Seq<char>,
    accepted: bool,
    acts1: Seq<AgentActionView<C>>,
    acts2: Seq<AgentActionView<C>>,
)
    requires
        network_step(s0, s1, NetworkEvent::AuthRequest(peer, request, channel), acts1),
        client_step(s1, s2, hostname, AgentClientEventView::VerifyConfirm(peer@, accepted), acts2),
    ensures
        acts1 == seq![AgentActionView::<C>::Emit(AgentEventView::InCommingVerify(s1.peers_view()[peer@]))],
        s1.peers_view()[peer@].hostname == Some(request.hostname@),
        acts2.len() > 0,
        acts2.last() == AgentActionView::SendAuthResponse(channel, confirm_state(accepted), hostname),
        s2.channels()[peer@] is None,
        s2.peers_view()[peer@].state == if accepted { PeerVerifyState::Verified } else { s1.peers_view()[peer@].state },
{
    assert(s1.channels()[peer@] == Some(channel));
    assert(s1.peers_view().contains_key(peer@));
}

/// In the daemon, a verification request is answered on its own channel: after a peer's
/// request and a client's confirmation (or refusal) of that peer, the answer goes on the
/// request's channel with the decision and the daemon's host name, no channel is left
/// pending for the peer, and the peer is verified exactly when accepted.
pub proof fn law_node_request_answered_on_its_channel<C>(
    s0: LocalExNode<C>,
    s1: LocalExNode<C>,
    s2: LocalExNode<C>,
    peer: Seq<u8>,
    hostname: Seq<char>,
    channel: C,
    accepted: bool,
)
    requires
        request_recorded(s0, s1, peer, hostname, channel),
        confirmation_handled(s1, s2, peer, accepted),
    ensures
        s1.peers_view()[peer].hostname == Some(hostname),
        confirm_actions(s1, peer, accepted).len() > 0,
        confirm_actions(s1, peer, accepted).last() == ActionView::SendAuthResponse(
            channel,
            if accepted { AuthResponseState::Accept } else { AuthResponseState::Deny },
            s0.hostname@,
        ),
        !s2.auth_channels.view().contains_key(peer),
        s2.peers_view()[peer].state == if accepted { PeerVerifyState::Verified } else { PeerVerifyState::WaitingVerification },
{
    assert(s1.auth_channels.view().contains_key(peer));
}

/// The first position of a peer with the given id in a list (or the list's end).
pub proof fn lemma_first_peer_found(s: Seq<DaemonPeerView>, id: Seq<u8>)
    ensures
        0 <= first_peer(s, id) <= s.len(),
        first_peer(s, id) < s.len() ==> s[first_peer(s, id)].peer_id == id,
    decreases s.len(),
{
    if s.len() > 0 && s[0].peer_id != id {
        lemma_first_peer_found(s.drop_first(), id);
    }
}

/// The peer a screen asks about after an incoming request (the listed peer of that id, or
/// the requesting peer itself) has the requesting peer's id, so the yes or no answers that
/// peer.
pub proof fn law_incoming_peer_is_asked(listed: Seq<DaemonPeerView>, peer: DaemonPeerView)
    ensures
        ({
            let i = first_peer(listed, peer.peer_id);
            if i < listed.len() {
                listed[i]
            } else {
                peer
            }
        }).peer_id == peer.peer_id,
{
    lemma_first_peer_found(listed, peer.peer_id);
}

proof fn lemma_after_removes_get<V>(m: Map<Seq<u8>, V>, ids: Seq<Seq<u8>>, k: Seq<u8>)
    ensures
        after_removes(m, ids).get(k) == if ids.contains(k) { None } else { m.get(k) },
    decreases ids.len(),
{
    if ids.len() > 0 {
        lemma_after_removes_get(m, ids.drop_last(), k);
        assert(ids.contains(k) <==> (ids.drop_last().contains(k) || ids.last() == k)) by {
            if ids.contains(k) {
                let j = choose|j: int| 0 <= j < ids.len() && ids[j] == k;
                if j < ids.len() - 1 {
                    assert(ids.drop_last()[j] == k);
                }
            }
            if ids.drop_last().contains(k) {
                let j = choose|j: int| 0 <= j < ids.drop_last().len() && ids.drop_last()[j] == k;
                assert(ids[j] == k);
            }
            if ids.last() == k {
                assert(ids[ids.len() - 1] == k);
            }
        }
    }
}

proof fn lemma_discovery_keeps_others(m: Map<Seq<u8>, DaemonPeerView>, ids: Seq<Seq<u8>>, k: Seq<u8>)
    requires
        !ids.contains(k),
    ensures
        peers_after_discovery(m, ids).get(k) == m.get(k),
    decreases ids.len(),
{
    if ids.len() > 0 {
        assert(!ids.drop_last().contains(k)) by {
            if ids.drop_last().contains(k) {
                let j = choose|j: int| 0 <= j < ids.drop_last().len() && ids.drop_last()[j] == k;
                assert(ids[j] == k);
            }
        }
        assert(ids.last() != k) by {
            if ids.last() == k {
                assert(ids[ids.len() - 1] == k);
            }
        }
        lemma_discovery_keeps_others(m, ids.drop_last(), k);
    }
}

/// Peers that mDNS finds and then loses are forgotten, and the other peers are as they were.
pub proof fn law_expiry_forgets_discovered(m: Map<Seq<u8>, DaemonPeerView>, ids: Seq<Seq<u8>>, k: Seq<u8>)
    ensures
        ids.contains(k) ==> !after_removes(peers_after_discovery(m, ids), ids).contains_key(k),
        !ids.contains(k) ==> after_removes(peers_after_discovery(m, ids), ids).get(k) == m.get(k),
{
    lemma_after_removes_get(peers_after_discovery(m, ids), ids, k);
    if !ids.contains(k) {
        lemma_discovery_keeps_others(m, ids, k);
    }
}

/// Each byte of the data is sent: byte `k` is in chunk `k / CHUNK_SIZE`, which is one of the
/// chunks sent, at position `k % CHUNK_SIZE`, and that chunk is written at offset
/// `(k / CHUNK_SIZE) * CHUNK_SIZE`.
pub proof fn law_chunks_cover(data: Seq<u8>, k: int)
    requires
        0 <= k < data.len(),
    ensures
        k / (CHUNK_SIZE as int) < chunk_count(data.len()),
        (k / (CHUNK_SIZE as int)) * CHUNK_SIZE + k % (CHUNK_SIZE as int) == k,
        k % (CHUNK_SIZE as int) < chunk_of(data, k / (CHUNK_SIZE as int)).len(),
        chunk_of(data, k / (CHUNK_SIZE as int))[k % (CHUNK_SIZE as int)] == data[k],
{
    let c = CHUNK_SIZE as int;
    let len = data.len() as int;
    let i = k / c;
    let j = k % c;
    assert(i * c + j == k && 0 <= j < c && i >= 0) by (nonlinear_arith)
        requires
            c == 1048576,
            k >= 0,
            i == k / c,
            j == k % c;
    assert(i < chunk_count(data.len())) by (nonlinear_arith)
        requires
            c == 1048576,
            i * c + j == k,
            0 <= j < c,
            0 <= k < len,
            i >= 0,
            chunk_count(data.len()) == if len % c == 0 { len / c } else { len / c + 1 };
    assert((i + 1) * c == i * c + c) by (nonlinear_arith);
}

/// Each chunk sent is a piece of the data: chunk `i` holds the bytes from offset
/// `i * CHUNK_SIZE` on, and is not empty.
pub proof fn law_chunk_in_data(data: Seq<u8>, i: int, j: int)
    requires
        0 <= i < chunk_count(data.len()),
        0 <= j < chunk_of(data, i).len(),
    ensures
        0 < chunk_of(data, i).len() <= CHUNK_SIZE,
        i * CHUNK_SIZE + j < data.len(),
        chunk_of(data, i)[j] == data[i * CHUNK_SIZE + j],
{
    let c = CHUNK_SIZE as int;
    let len = data.len() as int;
    assert(i * c < len) by (nonlinear_arith)
        requires
            c == 1048576,
            0 <= i,
            i < (if len % c == 0 { len / c } else { len / c + 1 }),
            len >= 0;
    assert((i + 1) * c == i * c + c) by (nonlinear_arith);
}

/// The progress and step after `k` blocked attempts in a row (`k` at least one).
pub open spec fn blocked_steps(p: WriteProgress, k: nat) -> (WriteProgress, WriteStep)
    decreases k,
{
    if k <= 1 {
        write_step(p, WriteOutcome::WouldBlock)
    } else {
        write_step(blocked_steps(p, (k - 1) as nat).0, WriteOutcome::WouldBlock)
    }
}

/// A message whose socket keeps blocking is retried after a sleep each time until it has
/// blocked `MAX_WRITE_ATTEMPTS` times in a row, and is then given up; bytes that go through
/// reset the count.
pub proof fn law_blocked_write_gives_up(p: WriteProgress, k: nat, n: usize)
    requires
        p.attempts == 0,
        1 <= k <= MAX_WRITE_ATTEMPTS,
    ensures
        blocked_steps(p, k).0.attempts == k,
        blocked_steps(p, k).1 == if k == MAX_WRITE_ATTEMPTS { WriteStep::MaxRetryReached } else { WriteStep::RetryAfterSleep },
        write_step(blocked_steps(p, k).0, WriteOutcome::Written(n)).0.attempts == 0,
    decreases k,
{
    if k > 1 {
        law_blocked_write_gives_up(p, (k - 1) as nat, n);
    }
}

/// An id is in a non-empty list exactly when it is among all but the last, or is the last.
proof fn lemma_contains_split(ids: Seq<Seq<u8>>, k: Seq<u8>)
    requires
        ids.len() > 0,
    ensures
        ids.contains(k) <==> (ids.drop_last().contains(k) || ids.last() == k),
{
    if ids.contains(k) {
        let j = choose|j: int| 0 <= j < ids.len() && ids[j] == k;
        if j < ids.len() - 1 {
            assert(ids.drop_last()[j] == k);
        }
    }
    if ids.drop_last().contains(k) {
        let j = choose|j: int| 0 <= j < ids.drop_last().len() && ids.drop_last()[j] == k;
        assert(ids[j] == k);
    }
    if ids.last() == k {
        assert(ids[ids.len() - 1] == k);
    }
}

/// mDNS discovery never touches a peer already known: whatever ids are discovered, a known
/// peer keeps its view (state and host name), and a new id is learnt of as a fresh peer,
/// waiting for verification with no host name; nothing else is added.
pub proof fn law_discovery_keeps_known_peers(m: Map<Seq<u8>, DaemonPeerView>, ids: Seq<Seq<u8>>, k: Seq<u8>)
    ensures
        m.contains_key(k) ==> peers_after_discovery(m, ids).get(k) == m.get(k),
        !m.contains_key(k) && ids.contains(k) ==> peers_after_discovery(m, ids).get(k) == Some(
            DaemonPeerView { peer_id: k, state: PeerVerifyState::WaitingVerification, hostname: None },
        ),
        !m.contains_key(k) && !ids.contains(k) ==> !peers_after_discovery(m, ids).contains_key(k),
    decreases ids.len(),
{
    if ids.len() > 0 {
        lemma_contains_split(ids, k);
        law_discovery_keeps_known_peers(m, ids.drop_last(), k);
    }
}

/// mDNS discovery never touches a pending answer channel: a known peer keeps its channel,
/// and a new id holds none.
pub proof fn law_discovery_keeps_channels<C>(m: Map<Seq<u8>, Option<C>>, ids: Seq<Seq<u8>>, k: Seq<u8>)
    ensures
        m.contains_key(k) ==> channels_after_discovery(m, ids).get(k) == m.get(k),
        !m.contains_key(k) && ids.contains(k) ==> channels_after_discovery(m, ids).get(k) == Some(None::<C>),
        !m.contains_key(k) && !ids.contains(k) ==> !channels_after_discovery(m, ids).contains_key(k),
    decreases ids.len(),
{
    if ids.len() > 0 {
        lemma_contains_split(ids, k);
        law_discovery_keeps_channels(m, ids.drop_last(), k);
    }
}

/// In the agent, discovering peers leaves each peer it already knew (its view and its
/// channel) as it was.
pub proof fn law_agent_discovery_keeps_known<C>(
    before: LocalExProtocol<C>,
    after: LocalExProtocol<C>,
    list: Vec<PeerId>,
    acts: Seq<AgentActionView<C>>,
    k: Seq<u8>,
)
    requires
        network_step(before, after, NetworkEvent::Discovered(list), acts),
        before.peers_view().contains_key(k),
    ensures
        after.peers_view().get(k) == before.peers_view().get(k),
        after.channels().get(k) == before.channels().get(k),
{
    let ids = list@.map_values(|p: PeerId| p@);
    assert(before.channels().contains_key(k));
    law_discovery_keeps_known_peers(before.peers_view(), ids, k);
    law_discovery_keeps_channels(before.channels(), ids, k);
}

/// In the agent, a peer's answer to our verification request makes a known peer verified
/// exactly when it accepts, and otherwise leaves its state; its id and host name, every other
/// peer and every channel stay as they were, and the screen is told the result last.
pub proof fn law_agent_answer_verifies_on_accept<C>(
    before: LocalExProtocol<C>,
    after: LocalExProtocol<C>,
    peer: PeerId,
    response: LocalExAuthResponse,
    acts: Seq<AgentActionView<C>>,
    k: Seq<u8>,
)
    requires
        network_step(before, after, NetworkEvent::AuthResponse(peer, response), acts),
    ensures
        before.peers_view().contains_key(peer@) ==> {
            &&& after.peers_view().contains_key(peer@)
            &&& after.peers_view()[peer@].state == if response.state == AuthResponseState::Accept {
                PeerVerifyState::Verified
            } else {
                before.peers_view()[peer@].state
            }
            &&& after.peers_view()[peer@].peer_id == before.peers_view()[peer@].peer_id
            &&& after.peers_view()[peer@].hostname == before.peers_view()[peer@].hostname
        },
        !before.peers_view().contains_key(peer@) ==> !after.peers_view().contains_key(peer@),
        k != peer@ ==> after.peers_view().get(k) == before.peers_view().get(k),
        after.channels() == before.channels(),
        acts.len() > 0,
        acts.last() == AgentActionView::<C>::Emit(
            AgentEventView::VerifyResult(peer@, response.state == AuthResponseState::Accept),
        ),
{
}

/// In the daemon, an answer to our verification request leaves the peer's state unless it
/// accepts, when the peer becomes verified; the peer's id is kept and its host name is the
/// one it gave.
pub proof fn law_answer_changes_state_only_on_accept(old_peer: DaemonPeerView, accepted: bool, hostname: Seq<char>)
    ensures
        answered_peer(old_peer, accepted, hostname).state == if accepted {
            PeerVerifyState::Verified
        } else {
            old_peer.state
        },
        answered_peer(old_peer, accepted, hostname).peer_id == old_peer.peer_id,
        answered_peer(old_peer, accepted, hostname).hostname == Some(hostname),
{
}

/// An event from the Android side becomes the client event of the same name, carrying the
/// peer its bytes parse to (and the same decision); it is refused exactly when the bytes do
/// not parse. The other way, each client event the Android side knows keeps its name.
pub proof fn law_ffi_client_event_keeps_variant(b: Seq<u8>, decision: bool)
    ensures
        match client_event_of_ffi(FFIClientEventView::RequestVerify(b)) {
            Some(ClientEventView::RequestVerify(q)) => libp2p_peer_id_from_bytes(b) == Some(q),
            None => libp2p_peer_id_from_bytes(b) is None,
            _ => false,
        },
        match client_event_of_ffi(FFIClientEventView::DisconnectPeer(b)) {
            Some(ClientEventView::DisconnectPeer(q)) => libp2p_peer_id_from_bytes(b) == Some(q),
            None => libp2p_peer_id_from_bytes(b) is None,
            _ => false,
        },
        match client_event_of_ffi(FFIClientEventView::VerifyConfirm(b, decision)) {
            Some(ClientEventView::VerifyConfirm(q, d)) => libp2p_peer_id_from_bytes(b) == Some(q) && d == decision,
            None => libp2p_peer_id_from_bytes(b) is None,
            _ => false,
        },
        client_event_of_ffi(FFIClientEventView::RequestLocalInfo) == Some(ClientEventView::RequestLocalInfo),
        client_event_of_ffi(FFIClientEventView::RequestPeerList) == Some(ClientEventView::RequestPeerList),
        ffi_client_event_of(ClientEventView::RequestVerify(b)) == FFIClientEventView::RequestVerify(b),
        ffi_client_event_of(ClientEventView::DisconnectPeer(b)) == FFIClientEventView::DisconnectPeer(b),
        ffi_client_event_of(ClientEventView::VerifyConfirm(b, decision)) == FFIClientEventView::VerifyConfirm(b, decision),
        ffi_client_event_of(ClientEventView::RequestLocalInfo) == FFIClientEventView::RequestLocalInfo,
        ffi_client_event_of(ClientEventView::RequestPeerList) == FFIClientEventView::RequestPeerList,
{
}

/// Moving the selection goes one item at a time: up from item `i > 0` selects `i - 1`, up
/// from the first stays there, down from `i` selects `i + 1` (below the largest index), and
/// down then up comes back; with nothing selected, down selects the first item.
pub proof fn law_selection_moves_by_one(i: usize)
    ensures
        i > 0 ==> select_previous(Some(i)) == Some((i - 1) as usize),
        select_previous(Some(0usize)) == Some(0usize),
        i < usize::MAX ==> select_next(Some(i)) == Some((i + 1) as usize),
        i < usize::MAX ==> select_previous(select_next(Some(i))) == Some(i),
        i > 0 ==> select_next(select_previous(Some(i))) == Some(i),
        select_next(None) == Some(0usize),
{
}

/// The agent forgets exactly the expired ids: each of them is gone, and every other peer
/// (or channel) is as it was.
pub proof fn law_expiry_forgets_exactly<V>(m: Map<Seq<u8>, V>, ids: Seq<Seq<u8>>, k: Seq<u8>)
    ensures
        after_removes(m, ids).get(k) == if ids.contains(k) { None } else { m.get(k) },
{
    lemma_after_removes_get(m, ids, k);
}

/// In the agent, a peer asking to be verified is known afterwards with the host name it
/// gave; a peer already known keeps its state (a verified peer stays verified), a new one
/// waits for verification; every other peer is as it was.
pub proof fn law_request_keeps_known_state(m: Map<Seq<u8>, DaemonPeerView>, id: Seq<u8>, hostname: Seq<char>, k: Seq<u8>)
    ensures
        peers_after_request(m, id, hostname).contains_key(id),
        peers_after_request(m, id, hostname)[id].hostname == Some(hostname),
        peers_after_request(m, id, hostname)[id].state == if m.contains_key(id) {
            m[id].state
        } else {
            PeerVerifyState::WaitingVerification
        },
        !m.contains_key(id) ==> peers_after_request(m, id, hostname)[id].peer_id == id,
        m.contains_key(id) ==> peers_after_request(m, id, hostname)[id].peer_id == m[id].peer_id,
        k != id ==> peers_after_request(m, id, hostname).get(k) == m.get(k),
{
}

/// In the daemon's node, mDNS discovery makes every discovered id a new peer, waiting for
/// verification with no host name (a known peer starts over), and leaves every other peer as
/// it was; expiry forgets exactly the expired ids.
pub proof fn law_node_discovery_and_expiry(m: Map<Seq<u8>, DaemonPeerView>, ids: Seq<Seq<u8>>, k: Seq<u8>)
    ensures
        peers_after_adds(m, ids).get(k) == if ids.contains(k) {
            Some(DaemonPeerView { peer_id: k, state: PeerVerifyState::WaitingVerification, hostname: None })
        } else {
            m.get(k)
        },
        peers_after_removes(m, ids).get(k) == if ids.contains(k) { None } else { m.get(k) },
    decreases ids.len(),
{
    if ids.len() > 0 {
        lemma_contains_split(ids, k);
        law_node_discovery_and_expiry(m, ids.drop_last(), k);
    }
}

/// The position `first_peer` gives is that of the first peer with the id: every peer before
/// it has another id, and it is either the list's end or a peer with the id.
pub proof fn law_first_peer_is_first(s: Seq<DaemonPeerView>, id: Seq<u8>, j: int)
    ensures
        0 <= first_peer(s, id) <= s.len(),
        first_peer(s, id) < s.len() ==> s[first_peer(s, id)].peer_id == id,
        0 <= j < first_peer(s, id) ==> s[j].peer_id != id,
    decreases s.len(),
{
    if s.len() > 0 && s[0].peer_id != id {
        law_first_peer_is_first(s.drop_first(), id, j - 1);
        if 0 < j < first_peer(s, id) {
            assert(s[j] == s.drop_first()[j - 1]);
        }
    }
}

} // verus!
