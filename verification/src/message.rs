//! Gossip topics, the map between topic hashes and topics, and the collection of sync offers.
use vstd::prelude::*;
use bimap::BiHashMap;
use crate::peer::PeerId;
use crate::table::PeerTable;

verus! {

/// The gossipsub topics the daemon subscribes to.
#[derive(Clone, Copy, PartialEq, Eq, Structural, Hash, Debug)]
pub enum GossipTopic {
    Hostname,
    Sync,
    SyncOffer,
}

/// The name of a topic.
pub open spec fn topic_name(t: GossipTopic) -> Seq<char> {
    match t {
        GossipTopic::Hostname => "hostname"@,
        GossipTopic::Sync => "sync"@,
        GossipTopic::SyncOffer => "sync_offer"@,
    }
}

impl GossipTopic {
    /// The topic's name, as its `Display` writes it.
    pub fn to_topic_string(&self) -> (r: String)
        ensures
            r@ == topic_name(*self),
    {
        let s = match *self {
            GossipTopic::Hostname => "hostname",
            GossipTopic::Sync => "sync",
            GossipTopic::SyncOffer => "sync_offer",
        };
        s.to_string()
    }
}

/// The hash of an identity-hashed gossipsub topic (`IdentTopic::new(name).hash()`) taken as
/// a string. Claimed, as the crate's `IdentityHash` shows: the hash is the name itself.
#[verifier::external_body]
pub(crate) fn gossipsub_ident_topic_hash(name: String) -> (r: String)
    ensures
        r@ == name@,
{
    libp2p::gossipsub::IdentTopic::new(name).hash().into_string()
}

/// The topic hash the daemon subscribes under for a topic.
pub fn topic_hash(topic: GossipTopic) -> (r: String)
    ensures
        r@ == topic_name(topic),
{
    gossipsub_ident_topic_hash(topic.to_topic_string())
}

#[verifier::external_type_specification]
#[verifier::external_body]
#[verifier::reject_recursive_types(L)]
#[verifier::reject_recursive_types(R)]
#[verifier::reject_recursive_types(LS)]
#[verifier::reject_recursive_types(RS)]
pub struct ExBiHashMap<L, R, LS, RS>(BiHashMap<L, R, LS, RS>);

/// The bimap the daemon keeps its topics in, from topic hash to topic.
pub type TopicBiMap = BiHashMap<String, GossipTopic>;

/// The pairs a topic bimap holds, from topic hash to topic.
pub uninterp spec fn bimap_pairs(m: TopicBiMap) -> Map<Seq<char>, GossipTopic>;

/// A map whose values are all different.
pub open spec fn injective(m: Map<Seq<char>, GossipTopic>) -> bool {
    forall|a: Seq<char>, b: Seq<char>|
        #![trigger m[a], m[b]]
        m.contains_key(a) && m.contains_key(b) && a != b ==> m[a] != m[b]
}

/// The pairs after `insert(left, right)`: every pair holding `left` or `right` goes, then
/// the new pair comes in.
pub open spec fn bimap_insert(m: Map<Seq<char>, GossipTopic>, left: Seq<char>, right: GossipTopic) -> Map<
    Seq<char>,
    GossipTopic,
> {
    Map::new(
        |l: Seq<char>| l == left || (m.contains_key(l) && m[l] != right),
        |l: Seq<char>| if l == left { right } else { m[l] },
    )
}

/// `BiHashMap::new`. Claimed: the map holds no pair.
#[verifier::external_body]
fn bimap_new() -> (r: TopicBiMap)
    ensures
        bimap_pairs(r).dom().is_empty(),
{
    BiHashMap::new()
}

/// `BiHashMap::insert`. Claimed, as the crate's source shows (it removes the pairs of
/// `left` and of `right` first): the pairs become `bimap_insert` of the old ones.
#[verifier::external_body]
fn bimap_insert_pair(m: &mut TopicBiMap, left: String, right: GossipTopic)
    ensures
        bimap_pairs(*final(m)) == bimap_insert(bimap_pairs(*old(m)), left@, right),
{
    m.insert(left, right);
}

/// `BiHashMap::get_by_left`. Claimed: the topic paired with the hash, if any.
#[verifier::external_body]
fn bimap_get_by_left(m: &TopicBiMap, left: &String) -> (r: Option<GossipTopic>)
    ensures
        r == bimap_pairs(*m).get(left@),
{
    m.get_by_left(left).copied()
}

/// `BiHashMap::get_by_right`. Claimed: a hash paired with the topic, if any.
#[verifier::external_body]
fn bimap_get_by_right(m: &TopicBiMap, right: &GossipTopic) -> (r: Option<String>)
    ensures
        match r {
            Some(l) => bimap_pairs(*m).contains_key(l@) && bimap_pairs(*m)[l@] == *right,
            None => forall|l: Seq<char>| #[trigger] bimap_pairs(*m).contains_key(l) ==> bimap_pairs(*m)[l] != *right,
        },
{
    m.get_by_right(right).cloned()
}

/// The subscribed topics, by hash and by topic.
pub struct TopicMap {
    map: TopicBiMap,
}

impl View for TopicMap {
    type V = Map<Seq<char>, GossipTopic>;

    closed spec fn view(&self) -> Map<Seq<char>, GossipTopic> {
        bimap_pairs(self.map)
    }
}

impl TopicMap {
    pub fn new() -> (r: TopicMap)
        ensures
            r@ == Map::<Seq<char>, GossipTopic>::empty(),
    {
        TopicMap { map: bimap_new() }
    }

    /// Records that `topic` is subscribed under `hash`.
    pub fn insert(&mut self, hash: String, topic: GossipTopic)
        ensures
            final(self)@ == bimap_insert(old(self)@, hash@, topic),
    {
        bimap_insert_pair(&mut self.map, hash, topic);
    }

    /// The topic of a hash.
    pub fn get_by_left(&self, hash: &String) -> (r: Option<GossipTopic>)
        ensures
            r == self@.get(hash@),
    {
        bimap_get_by_left(&self.map, hash)
    }

    /// A hash of a topic.
    pub fn get_by_right(&self, topic: &GossipTopic) -> (r: Option<String>)
        ensures
            match r {
                Some(l) => self@.contains_key(l@) && self@[l@] == *topic,
                None => forall|l: Seq<char>| #[trigger] self@.contains_key(l) ==> self@[l] != *topic,
            },
    {
        bimap_get_by_right(&self.map, topic)
    }
}

/// Inserting into a map whose values differ keeps them different.
pub proof fn lemma_bimap_insert_injective(m: Map<Seq<char>, GossipTopic>, left: Seq<char>, right: GossipTopic)
    requires
        injective(m),
    ensures
        injective(bimap_insert(m, left, right)),
        bimap_insert(m, left, right).contains_key(left),
        bimap_insert(m, left, right)[left] == right,
{
}

/// A file a peer offers for syncing, with its version.
pub struct PeerOffer {
    pub peer_id: PeerId,
    pub version: usize,
}

/// A file to fetch from a peer.
pub struct SyncRequestItem {
    pub peer_id: PeerId,
    pub app_id: String,
    pub file_id: String,
}

/// A file key: application id and file id.
pub type FileKeyView = (Seq<char>, Seq<char>);

/// Collects the sync offers of the peers until every expected peer has answered.
pub struct SyncOfferCollector {
    count: usize,
    except_count: usize,
    request_map: Vec<(String, String, PeerOffer)>,
    received_peers: PeerTable<()>,
}

/// The keys of the offer list.
pub open spec fn offer_keys(s: Seq<(String, String, PeerOffer)>) -> Seq<FileKeyView> {
    s.map_values(|e: (String, String, PeerOffer)| (e.0@, e.1@))
}

impl SyncOfferCollector {
    /// Well-formed: each file key once.
    pub closed spec fn wf(&self) -> bool {
        &&& self.received_peers.wf()
        &&& offer_keys(self.request_map@).no_duplicates()
        &&& self.count == self.received_peers.view().dom().len()
    }

    /// Each answer counted is from a different peer: the count is the number of peers whose
    /// offers were taken.
    pub proof fn lemma_count_is_received(&self)
        requires
            self.wf(),
        ensures
            self.received().finite(),
            self.count() == self.received().len(),
    {
        self.received_peers.lemma_size();
    }

    /// Answers counted so far.
    pub closed spec fn count(&self) -> usize {
        self.count
    }

    /// Answers expected.
    pub closed spec fn except_count(&self) -> usize {
        self.except_count
    }

    /// The peers whose offers were taken.
    pub closed spec fn received(&self) -> Set<Seq<u8>> {
        self.received_peers.view().dom()
    }

    /// For each file key, the peer and version of the offer kept.
    pub closed spec fn offers(&self) -> Map<FileKeyView, (Seq<u8>, usize)> {
        offers_of(self.request_map@)
    }

    /// A collector expecting `except_count` answers.
    pub fn new(except_count: usize) -> (r: SyncOfferCollector)
        ensures
            r.wf(),
            r.count() == 0,
            r.except_count() == except_count,
            r.received() == Set::<Seq<u8>>::empty(),
            r.offers() == Map::<FileKeyView, (Seq<u8>, usize)>::empty(),
    {
        let r = SyncOfferCollector {
            count: 0,
            except_count,
            request_map: Vec::new(),
            received_peers: PeerTable::new(),
        };
        assert(r.received() =~= Set::<Seq<u8>>::empty());
        assert(r.offers() =~= Map::<FileKeyView, (Seq<u8>, usize)>::empty());
        r
    }

    /// Takes one offer. An offer from a peer whose offer was already taken is ignored;
    /// otherwise the peer is counted and the offer kept unless the file already has an
    /// offer of a higher version.
    #[verifier::loop_isolation(false)]
    pub fn insert(&mut self, app_id: String, file_id: String, offer: PeerOffer)
        requires
            old(self).wf(),
            old(self).received().contains(offer.peer_id@) || old(self).count() < usize::MAX,
        ensures
            final(self).wf(),
            final(self).except_count() == old(self).except_count(),
            if old(self).received().contains(offer.peer_id@) {
                &&& final(self).count() == old(self).count()
                &&& final(self).received() == old(self).received()
                &&& final(self).offers() == old(self).offers()
            } else {
                &&& final(self).count() == old(self).count() + 1
                &&& final(self).received() == old(self).received().insert(offer.peer_id@)
                &&& final(self).offers() == (
                    if old(self).offers().contains_key((app_id@, file_id@))
                        && offer.version < old(self).offers()[(app_id@, file_id@)].1 {
                        old(self).offers()
                    } else {
                        old(self).offers().insert((app_id@, file_id@), (offer.peer_id@, offer.version))
                    })
            },
    {
        if self.received_peers.contains_key(&offer.peer_id) {
            return;
        }
        proof {
            self.received_peers.lemma_size();
        }
        self.count = self.count + 1;
        self.received_peers.insert(offer.peer_id.duplicate(), ());
        proof {
            self.received_peers.lemma_size();
            assert(self.received_peers.view().dom() =~= old(self).received_peers.view().dom().insert(offer.peer_id@));
        }
        let ghost old_map = self.request_map@;
        let ghost old_offers = self.offers();
        let ghost key = (app_id@, file_id@);
        let mut i: usize = 0;
        while i < self.request_map.len()
            invariant
                0 <= i <= self.request_map.len(),
                self.request_map@ == old_map,
                forall|j: int| 0 <= j < i ==> #[trigger] offer_keys(old_map)[j] != key,
                self.except_count == old(self).except_count,
                self.count == old(self).count + 1,
                self.received_peers.wf(),
                self.received() == old(self).received().insert(offer.peer_id@),
                self.count == self.received_peers.view().dom().len(),
            decreases self.request_map.len() - i,
        {
            let same_app = self.request_map[i].0 == app_id;
            let same_file = self.request_map[i].1 == file_id;
            assert(offer_keys(old_map)[i as int] == (old_map[i as int].0@, old_map[i as int].1@));
            if same_app && same_file {
                proof {
                    assert(offer_keys(old_map)[i as int] == key);
                    lemma_index_of_unique(offer_keys(old_map), i as int);
                }
                if offer.version < self.request_map[i].2.version {
                    return;
                }
                let ghost pid = offer.peer_id@;
                let ghost ver = offer.version;
                self.request_map.set(i, (app_id, file_id, offer));
                proof {
                    assert(offer_keys(self.request_map@) =~= offer_keys(old_map));
                    assert(self.offers() =~= old_offers.insert(key, (pid, ver)));
                }
                return;
            }
            assert(offer_keys(old_map)[i as int] != key);
            i = i + 1;
        }
        proof {
            assert(!offer_keys(old_map).contains(key));
        }
        let ghost pid = offer.peer_id@;
        let ghost ver = offer.version;
        self.request_map.push((app_id, file_id, offer));
        proof {
            lemma_offers_push(old_map, self.request_map@, key, pid, ver);
        }
    }

    /// Answers counted so far.
    pub fn received_count(&self) -> (r: usize)
        ensures
            r == self.count(),
    {
        self.count
    }

    /// Whether every expected peer has answered.
    pub fn is_received(&self) -> (r: bool)
        ensures
            r == (self.count() == self.except_count()),
    {
        self.count == self.except_count
    }

    /// The files to fetch: for each file key, the peer whose offer was kept.
    #[verifier::loop_isolation(false)]
    pub fn request_list(self) -> (r: Vec<SyncRequestItem>)
        requires
            self.wf(),
        ensures
            r@.len() == self.offers().dom().len(),
            forall|i: int| 0 <= i < r@.len() ==> self.offers().contains_key((#[trigger] r@[i].app_id@, r@[i].file_id@))
                && self.offers()[(r@[i].app_id@, r@[i].file_id@)].0 == r@[i].peer_id@,
            forall|i: int, j: int| 0 <= i < j < r@.len() ==> (#[trigger] r@[i].app_id@, r@[i].file_id@) != (
                #[trigger] r@[j].app_id@, r@[j].file_id@),
    {
        let ghost offers = self.offers();
        let ghost keys = offer_keys(self.request_map@);
        let ghost entries = self.request_map@;
        let mut out: Vec<SyncRequestItem> = Vec::new();
        let mut i: usize = 0;
        let n = self.request_map.len();
        proof {
            keys.unique_seq_to_set();
            assert(offers.dom() =~= keys.to_set());
        }
        while i < n
            invariant
                n == entries.len(),
                0 <= i <= n,
                self.request_map@ == entries,
                keys == offer_keys(entries),
                keys.no_duplicates(),
                out@.len() == i,
                forall|j: int| 0 <= j < i ==> (#[trigger] out@[j].app_id@, out@[j].file_id@) == keys[j]
                    && out@[j].peer_id@ == entries[j].2.peer_id@,
            decreases n - i,
        {
            let e = &self.request_map[i];
            out.push(SyncRequestItem { peer_id: e.2.peer_id.duplicate(), app_id: e.0.clone(), file_id: e.1.clone() });
            assert(keys[i as int] == (entries[i as int].0@, entries[i as int].1@));
            i = i + 1;
        }
        proof {
            assert forall|j: int| 0 <= j < out@.len() implies offers.contains_key((#[trigger] out@[j].app_id@, out@[j].file_id@))
                && offers[(out@[j].app_id@, out@[j].file_id@)].0 == out@[j].peer_id@ by {
                lemma_index_of_unique(keys, j);
            }
        }
        out
    }
}

/// For each file key of an offer list, the peer and version of its offer.
pub open spec fn offers_of(s: Seq<(String, String, PeerOffer)>) -> Map<FileKeyView, (Seq<u8>, usize)> {
    Map::new(
        |k: FileKeyView| offer_keys(s).contains(k),
        |k: FileKeyView| {
            let i = offer_keys(s).index_of(k);
            (s[i].2.peer_id@, s[i].2.version)
        },
    )
}

proof fn lemma_offers_push(
    old_map: Seq<(String, String, PeerOffer)>,
    new_map: Seq<(String, String, PeerOffer)>,
    key: FileKeyView,
    pid: Seq<u8>,
    ver: usize,
)
    requires
        offer_keys(old_map).no_duplicates(),
        !offer_keys(old_map).contains(key),
        new_map.len() == old_map.len() + 1,
        forall|j: int| 0 <= j < old_map.len() ==> new_map[j] == old_map[j],
        (new_map[old_map.len() as int].0@, new_map[old_map.len() as int].1@) == key,
        new_map[old_map.len() as int].2.peer_id@ == pid,
        new_map[old_map.len() as int].2.version == ver,
    ensures
        offer_keys(new_map).no_duplicates(),
        offers_of(new_map) == offers_of(old_map).insert(key, (pid, ver)),
{
    let nk = offer_keys(new_map);
    let ok = offer_keys(old_map);
    assert(nk =~= ok.push(key));
    assert forall|a: int, b: int| 0 <= a < nk.len() && 0 <= b < nk.len() && a != b implies nk[a] != nk[b] by {
        if a < old_map.len() && b < old_map.len() {
        } else if a == old_map.len() {
            assert(ok[b] != key);
        } else {
            assert(ok[a] != key);
        }
    }
    assert(nk.no_duplicates());
    assert forall|k: FileKeyView| nk.contains(k) <==> (k == key || ok.contains(k)) by {
        if nk.contains(k) && k != key {
            let jj = nk.index_of(k);
            assert(ok[jj] == k);
        }
        if ok.contains(k) {
            let jj = ok.index_of(k);
            assert(nk[jj] == k);
        }
        if k == key {
            assert(nk[old_map.len() as int] == k);
        }
    }
    assert forall|k: FileKeyView| #[trigger] offers_of(new_map).contains_key(k) implies offers_of(new_map)[k]
        == offers_of(old_map).insert(key, (pid, ver))[k] by {
        if k == key {
            lemma_index_of_unique(nk, old_map.len() as int);
        } else {
            let j = ok.index_of(k);
            assert(ok.contains(k));
            assert(nk[j] == k);
            lemma_index_of_unique(nk, j);
        }
    }
    assert(offers_of(new_map) =~= offers_of(old_map).insert(key, (pid, ver)));
}

/// In a sequence without duplicates, an element is found at its own position.
pub proof fn lemma_index_of_unique<A>(s: Seq<A>, i: int)
    requires
        s.no_duplicates(),
        0 <= i < s.len(),
    ensures
        s.contains(s[i]),
        s.index_of(s[i]) == i,
{
    assert(s.contains(s[i]));
    let j = s.index_of(s[i]);
    assert(s[j] == s[i]);
}

} // verus!
