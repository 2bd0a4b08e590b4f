//! Peers and sets of peers.

use vstd::prelude::*;

use crate::text::text_eq;

verus! {

/// Identifier of a peer: its base-58 text.
#[derive(Debug, Clone, PartialEq, Eq, Hash)]
pub struct PeerId {
    text: String,
}

impl View for PeerId {
    type V = Seq<char>;

    closed spec fn view(&self) -> Seq<char> {
        self.text@
    }
}

impl PeerId {
    /// The peer with the given base-58 text.
    pub fn from_text(text: String) -> (peer: PeerId)
        ensures
            peer@ == text@,
    {
        PeerId { text }
    }

    /// The base-58 text of the peer.
    pub fn text(&self) -> (text: &str)
        ensures
            text@ == self@,
    {
        self.text.as_str()
    }

    /// Whether two identifiers name the same peer.
    pub fn same(&self, other: &PeerId) -> (equal: bool)
        ensures
            equal == (self@ == other@),
    {
        text_eq(&self.text, &other.text)
    }

    /// Another identifier of the same peer.
    pub fn copy(&self) -> (peer: PeerId)
        ensures
            peer@ == self@,
    {
        PeerId { text: self.text.clone() }
    }
}

/// The identifiers that a list of peers holds.
pub open spec fn peer_texts(peers: Seq<PeerId>) -> Seq<Seq<char>> {
    peers.map_values(|p: PeerId| p@)
}

/// A set of peers, in the order in which they were added.
pub struct PeerSet {
    items: Vec<PeerId>,
}

impl View for PeerSet {
    type V = Seq<Seq<char>>;

    closed spec fn view(&self) -> Seq<Seq<char>> {
        peer_texts(self.items@)
    }
}

/// The peers with `peer` added at the end, unless it is among them already.
pub open spec fn with_peer(peers: Seq<Seq<char>>, peer: Seq<char>) -> Seq<Seq<char>> {
    if peers.contains(peer) {
        peers
    } else {
        peers.push(peer)
    }
}

/// The peers other than `peer`.
pub open spec fn not_peer(peer: Seq<char>) -> spec_fn(Seq<char>) -> bool {
    |p: Seq<char>| p != peer
}

/// The peers other than `peer`, in their order.
pub open spec fn without_peer(peers: Seq<Seq<char>>, peer: Seq<char>) -> Seq<Seq<char>> {
    peers.filter(not_peer(peer))
}

impl PeerSet {
    /// No peer occurs twice.
    pub open spec fn wf(&self) -> bool {
        self@.no_duplicates()
    }

    /// The empty set.
    pub fn new() -> (set: PeerSet)
        ensures
            set.wf(),
            set@ == Seq::<Seq<char>>::empty(),
    {
        let set = PeerSet { items: Vec::new() };
        assert(set@ == Seq::<Seq<char>>::empty());
        set
    }

    /// Number of peers.
    pub fn len(&self) -> (n: usize)
        ensures
            n == self@.len(),
    {
        self.items.len()
    }

    /// Whether the set holds no peer.
    pub fn is_empty(&self) -> (empty: bool)
        ensures
            empty == (self@.len() == 0),
    {
        self.items.len() == 0
    }

    /// Whether `peer` is in the set.
    pub fn contains(&self, peer: &PeerId) -> (found: bool)
        ensures
            found == self@.contains(peer@),
    {
        let mut i: usize = 0;
        while i < self.items.len()
            invariant
                i <= self.items@.len(),
                forall|k: int| 0 <= k < i ==> (#[trigger] self.items@[k])@ != peer@,
            decreases self.items@.len() - i,
        {
            if self.items[i].same(peer) {
                assert(self@[i as int] == peer@);
                return true;
            }
            i = i + 1;
        }
        assert forall|k: int| 0 <= k < self@.len() implies self@[k] != peer@ by {
            assert(self.items@[k]@ != peer@);
        }
        false
    }

    /// Adds a peer. Returns whether it was new.
    pub fn insert(&mut self, peer: PeerId) -> (added: bool)
        ensures
            old(self).wf() ==> final(self).wf(),
            added == !old(self)@.contains(peer@),
            final(self)@ == with_peer(old(self)@, peer@),
            final(self)@.contains(peer@),
    {
        if self.contains(&peer) {
            return false;
        }
        let ghost before = self@;
        self.items.push(peer);
        assert(self@ == before.push(peer@));
        assert(self@[before.len() as int] == peer@);
        true
    }

    /// Removes a peer. Returns whether it was there.
    pub fn remove(&mut self, peer: &PeerId) -> (removed: bool)
        ensures
            old(self).wf() ==> final(self).wf(),
            removed == old(self)@.contains(peer@),
            final(self)@ == without_peer(old(self)@, peer@),
            !final(self)@.contains(peer@),
    {
        let found: bool = self.contains(peer);
        let mut kept: Vec<PeerId> = Vec::new();
        let ghost before = self@;
        let ghost keep = not_peer(peer@);
        let mut i: usize = 0;
        while i < self.items.len()
            invariant
                i <= self.items@.len(),
                before == peer_texts(self.items@),
                keep == not_peer(peer@),
                peer_texts(kept@) == before.take(i as int).filter(keep),
            decreases self.items@.len() - i,
        {
            let ghost kept_before = kept@;
            proof {
                assert(before.take(i + 1).drop_last() == before.take(i as int));
                reveal(Seq::filter);
            }
            if !self.items[i].same(peer) {
                kept.push(self.items[i].copy());
                assert(peer_texts(kept@) == peer_texts(kept_before).push(before[i as int]));
            }
            i = i + 1;
        }
        assert(before.take(i as int) == before);
        proof {
            lemma_filter_contains(before, keep, peer@);
            if before.no_duplicates() {
                lemma_filter_no_duplicates(before, keep);
            }
        }
        self.items = kept;
        found
    }

    /// The peers of the set, in the order in which they were added.
    pub fn list(&self) -> (peers: Vec<PeerId>)
        ensures
            peer_texts(peers@) == self@,
    {
        let mut peers: Vec<PeerId> = Vec::new();
        let mut i: usize = 0;
        while i < self.items.len()
            invariant
                i <= self.items@.len(),
                peer_texts(peers@) == self@.take(i as int),
            decreases self.items@.len() - i,
        {
            let ghost before = peers@;
            peers.push(self.items[i].copy());
            assert(peer_texts(peers@) == peer_texts(before).push(self@[i as int]));
            assert(self@.take(i + 1) == self@.take(i as int).push(self@[i as int]));
            i = i + 1;
        }
        assert(self@.take(i as int) == self@);
        peers
    }
}

/// Filtering keeps a sequence free of duplicates.
pub proof fn lemma_filter_no_duplicates(s: Seq<Seq<char>>, keep: spec_fn(Seq<char>) -> bool)
    requires
        s.no_duplicates(),
    ensures
        s.filter(keep).no_duplicates(),
    decreases s.len(),
{
    reveal(Seq::filter);
    if s.len() != 0 {
        lemma_filter_no_duplicates(s.drop_last(), keep);
        let rest = s.drop_last().filter(keep);
        if keep(s.last()) {
            assert(!rest.contains(s.last())) by {
                if rest.contains(s.last()) {
                    lemma_filter_contains(s.drop_last(), keep, s.last());
                }
            }
        }
    }
}

/// A filtered sequence holds exactly the items that satisfy the predicate.
pub proof fn lemma_filter_contains(
    s: Seq<Seq<char>>,
    keep: spec_fn(Seq<char>) -> bool,
    item: Seq<char>,
)
    ensures
        s.filter(keep).contains(item) <==> s.contains(item) && keep(item),
    decreases s.len(),
{
    reveal(Seq::filter);
    if s.len() != 0 {
        let front = s.drop_last();
        lemma_filter_contains(front, keep, item);
        assert(s == front.push(s.last()));
        assert(s.contains(item) <==> front.contains(item) || item == s.last()) by {
            if front.contains(item) {
                let k = choose|k: int| 0 <= k < front.len() && front[k] == item;
                assert(s[k] == item);
            }
            if item == s.last() {
                assert(s[s.len() - 1] == item);
            }
            if s.contains(item) && item != s.last() {
                let k = choose|k: int| 0 <= k < s.len() && s[k] == item;
                assert(front[k] == item);
            }
        }
        if keep(s.last()) {
            let rest = front.filter(keep);
            assert(s.filter(keep) == rest.push(s.last()));
            assert(rest.push(s.last())[rest.len() as int] == s.last());
            if rest.contains(item) {
                let k = choose|k: int| 0 <= k < rest.len() && rest[k] == item;
                assert(rest.push(s.last())[k] == item);
            }
        }
    }
}

/// A peer that is added is among the peers and all others stay, in their order;
/// one that was among them changes nothing. A peer that is removed is no longer
/// among them, and all others are.
pub proof fn law_peers_are_added_and_removed(
    peers: Seq<Seq<char>>,
    peer: Seq<char>,
    other: Seq<char>,
)
    ensures
        peers.contains(peer) ==> with_peer(peers, peer) == peers,
        !peers.contains(peer) ==> with_peer(peers, peer) == peers + seq![peer],
        without_peer(peers, peer).contains(other) <==> peers.contains(other) && other != peer,
{
    assert(peers.push(peer) =~= peers + seq![peer]);
    lemma_filter_contains(peers, not_peer(peer), other);
}

/// Removing a peer keeps the others in their order: the last stays the last,
/// unless it is the one removed.
pub proof fn law_removing_keeps_the_order(
    peers: Seq<Seq<char>>,
    last: Seq<char>,
    peer: Seq<char>,
)
    ensures
        last != peer ==> without_peer(peers + seq![last], peer) == without_peer(peers, peer)
            + seq![last],
        last == peer ==> without_peer(peers + seq![last], peer) == without_peer(peers, peer),
        without_peer(Seq::empty(), peer).len() == 0,
{
    reveal(Seq::filter);
    let all = peers + seq![last];
    assert(all.drop_last() =~= peers);
    assert(all.last() == last);
    assert(without_peer(peers, peer).push(last) =~= without_peer(peers, peer) + seq![last]);
}

/// A list of peers is seen peer by peer, in its order.
pub proof fn law_peers_are_listed_in_order(peers: Seq<PeerId>, i: int)
    ensures
        peer_texts(peers).len() == peers.len(),
        0 <= i < peers.len() ==> peer_texts(peers)[i] == peers[i]@,
{
}

} // verus!
