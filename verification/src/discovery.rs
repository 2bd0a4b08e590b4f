//! Which peers are known, connected and being dialled.

use vstd::prelude::*;

use crate::peer::{PeerId, PeerSet};

verus! {

// ---------------------------------------------------------------------------
// New peers
// ---------------------------------------------------------------------------

/// The peers known after some were discovered.
pub open spec fn seen_after(
    seen: Seq<Seq<char>>,
    discovered: Seq<Seq<char>>,
) -> Seq<Seq<char>>
    decreases discovered.len(),
{
    if discovered.len() == 0 {
        seen
    } else {
        crate::peer::with_peer(seen_after(seen, discovered.drop_last()), discovered.last())
    }
}

/// The peers, among those discovered, that were not known yet.
pub open spec fn new_peers(seen: Seq<Seq<char>>, discovered: Seq<Seq<char>>) -> Seq<Seq<char>>
    decreases discovered.len(),
{
    if discovered.len() == 0 {
        Seq::empty()
    } else {
        let front = discovered.drop_last();
        if seen_after(seen, front).contains(discovered.last()) {
            new_peers(seen, front)
        } else {
            new_peers(seen, front).push(discovered.last())
        }
    }
}

/// Notes discovered peers as known and returns those that were not.
pub fn newly_discovered_peers(seen: &mut PeerSet, discovered: Vec<PeerId>) -> (found: Vec<PeerId>)
    ensures
        old(seen).wf() ==> final(seen).wf(),
        final(seen)@ == seen_after(old(seen)@, crate::peer::peer_texts(discovered@)),
        crate::peer::peer_texts(found@) == new_peers(
            old(seen)@,
            crate::peer::peer_texts(discovered@),
        ),
{
    let mut found: Vec<PeerId> = Vec::new();
    let ghost start = seen@;
    let ghost all = crate::peer::peer_texts(discovered@);
    assert(crate::peer::peer_texts(found@) == Seq::<Seq<char>>::empty());
    for peer in it: discovered
        invariant
            it.seq() == discovered@,
            all == crate::peer::peer_texts(discovered@),
            old(seen).wf() ==> seen.wf(),
            seen@ == seen_after(start, all.take(it.index())),
            crate::peer::peer_texts(found@) == new_peers(start, all.take(it.index())),
    {
        let ghost i = it.index();
        let ghost before = found@;
        assert(all.take(i + 1).drop_last() == all.take(i));
        assert(all.take(i + 1).last() == peer@);
        if seen.insert(peer.copy()) {
            found.push(peer);
            assert(crate::peer::peer_texts(found@) == crate::peer::peer_texts(before).push(peer@));
        }
    }
    assert(all.take(all.len() as int) == all);
    found
}

// ---------------------------------------------------------------------------
// The peers around this node
// ---------------------------------------------------------------------------

/// Something that happened to a peer.
#[derive(Debug, Clone)]
pub enum PeerEvent {
    /// The peer was found on the local network.
    Discovered(PeerId),
    /// Dialling the peer has started.
    DialStarted(PeerId),
    /// The peer is no longer found on the local network.
    Expired(PeerId),
    /// The peer did not answer a heartbeat.
    HeartbeatFailed(PeerId),
    /// The connection to the peer was closed.
    ConnectionClosed(PeerId),
    /// A connection to the peer was established.
    ConnectionEstablished(PeerId),
    /// The peer could not be dialled.
    DialFailed(PeerId),
}

/// The contents of a [`PeerEvent`].
pub enum PeerEventView {
    Discovered(Seq<char>),
    DialStarted(Seq<char>),
    Expired(Seq<char>),
    HeartbeatFailed(Seq<char>),
    ConnectionClosed(Seq<char>),
    ConnectionEstablished(Seq<char>),
    DialFailed(Seq<char>),
}

impl View for PeerEvent {
    type V = PeerEventView;

    open spec fn view(&self) -> PeerEventView {
        match self {
            PeerEvent::Discovered(peer) => PeerEventView::Discovered(peer@),
            PeerEvent::DialStarted(peer) => PeerEventView::DialStarted(peer@),
            PeerEvent::Expired(peer) => PeerEventView::Expired(peer@),
            PeerEvent::HeartbeatFailed(peer) => PeerEventView::HeartbeatFailed(peer@),
            PeerEvent::ConnectionClosed(peer) => PeerEventView::ConnectionClosed(peer@),
            PeerEvent::ConnectionEstablished(peer) => PeerEventView::ConnectionEstablished(peer@),
            PeerEvent::DialFailed(peer) => PeerEventView::DialFailed(peer@),
        }
    }
}

/// What is to be done about a peer.
#[derive(Debug, Clone)]
pub enum PeerAction {
    Nothing,
    /// Dial the peer; tell of success by [`PeerEvent::DialStarted`].
    Dial(PeerId),
    /// Ask the peer for its manifest, to start reconciliation.
    RequestManifest(PeerId),
    /// Cancel the transfers from the peer.
    CancelTransfers(PeerId),
    /// Tell that the peer can no longer be discovered.
    ReportLost(PeerId),
}

/// The contents of a [`PeerAction`].
pub enum PeerActionView {
    Nothing,
    Dial(Seq<char>),
    RequestManifest(Seq<char>),
    CancelTransfers(Seq<char>),
    ReportLost(Seq<char>),
}

impl View for PeerAction {
    type V = PeerActionView;

    open spec fn view(&self) -> PeerActionView {
        match self {
            PeerAction::Nothing => PeerActionView::Nothing,
            PeerAction::Dial(peer) => PeerActionView::Dial(peer@),
            PeerAction::RequestManifest(peer) => PeerActionView::RequestManifest(peer@),
            PeerAction::CancelTransfers(peer) => PeerActionView::CancelTransfers(peer@),
            PeerAction::ReportLost(peer) => PeerActionView::ReportLost(peer@),
        }
    }
}

/// The peers around this node.
pub struct PeerTracker {
    local: PeerId,
    seen: PeerSet,
    connected: PeerSet,
    dialing: PeerSet,
}

/// The contents of a [`PeerTracker`].
#[verifier::ext_equal]
pub struct TrackerView {
    pub local: Seq<char>,
    pub seen: Seq<Seq<char>>,
    pub connected: Seq<Seq<char>>,
    pub dialing: Seq<Seq<char>>,
}

impl View for PeerTracker {
    type V = TrackerView;

    closed spec fn view(&self) -> TrackerView {
        TrackerView {
            local: self.local@,
            seen: self.seen@,
            connected: self.connected@,
            dialing: self.dialing@,
        }
    }
}

impl TrackerView {
    /// Nothing is known of other peers.
    pub open spec fn alone(local: Seq<char>) -> TrackerView {
        TrackerView { local, seen: Seq::empty(), connected: Seq::empty(), dialing: Seq::empty() }
    }

    /// No peer occurs twice, and every connected peer is known.
    pub open spec fn wf(self) -> bool {
        &&& self.seen.no_duplicates()
        &&& self.connected.no_duplicates()
        &&& self.dialing.no_duplicates()
        &&& forall|peer: Seq<char>| #[trigger]
            self.connected.contains(peer) ==> self.seen.contains(peer)
    }

    /// A discovered peer is dialled: another node, not known, connected or
    /// being dialled yet.
    pub open spec fn dials(self, peer: Seq<char>) -> bool {
        &&& peer != self.local
        &&& !self.connected.contains(peer)
        &&& !self.dialing.contains(peer)
        &&& !self.seen.contains(peer)
    }

    /// The peers after an event.
    pub open spec fn after(self, event: PeerEventView) -> TrackerView {
        match event {
            PeerEventView::Discovered(peer) => if self.dials(peer) {
                TrackerView { seen: self.seen.push(peer), ..self }
            } else {
                self
            },
            PeerEventView::DialStarted(peer) => TrackerView {
                dialing: crate::peer::with_peer(self.dialing, peer),
                ..self
            },
            PeerEventView::Expired(peer) => if self.connected.contains(peer) {
                self
            } else {
                TrackerView {
                    seen: crate::peer::without_peer(self.seen, peer),
                    dialing: crate::peer::without_peer(self.dialing, peer),
                    ..self
                }
            },
            PeerEventView::HeartbeatFailed(peer)
            | PeerEventView::ConnectionClosed(peer) => TrackerView {
                seen: crate::peer::without_peer(self.seen, peer),
                connected: crate::peer::without_peer(self.connected, peer),
                dialing: crate::peer::without_peer(self.dialing, peer),
                ..self
            },
            PeerEventView::ConnectionEstablished(peer) => TrackerView {
                seen: crate::peer::with_peer(self.seen, peer),
                connected: crate::peer::with_peer(self.connected, peer),
                dialing: crate::peer::without_peer(self.dialing, peer),
                ..self
            },
            PeerEventView::DialFailed(peer) => TrackerView {
                seen: if self.connected.contains(peer) {
                    self.seen
                } else {
                    crate::peer::with_peer(self.seen, peer)
                },
                dialing: crate::peer::without_peer(self.dialing, peer),
                ..self
            },
        }
    }

    /// What is to be done about an event.
    pub open spec fn action(self, event: PeerEventView) -> PeerActionView {
        match event {
            PeerEventView::Discovered(peer) => if self.dials(peer) {
                PeerActionView::Dial(peer)
            } else {
                PeerActionView::Nothing
            },
            PeerEventView::Expired(peer) => if !self.connected.contains(peer)
                && self.seen.contains(peer) {
                PeerActionView::ReportLost(peer)
            } else {
                PeerActionView::Nothing
            },
            PeerEventView::ConnectionClosed(peer) => PeerActionView::CancelTransfers(peer),
            PeerEventView::ConnectionEstablished(peer) => PeerActionView::RequestManifest(peer),
            PeerEventView::DialStarted(_)
            | PeerEventView::HeartbeatFailed(_)
            | PeerEventView::DialFailed(_) => PeerActionView::Nothing,
        }
    }
}

impl PeerTracker {
    /// A node that knows of no other.
    pub fn new(local: PeerId) -> (tracker: PeerTracker)
        ensures
            tracker@ == TrackerView::alone(local@),
            tracker@.wf(),
    {
        PeerTracker {
            local,
            seen: PeerSet::new(),
            connected: PeerSet::new(),
            dialing: PeerSet::new(),
        }
    }

    /// Number of connected peers.
    pub fn connected_len(&self) -> (n: usize)
        ensures
            n == self@.connected.len(),
    {
        self.connected.len()
    }

    /// Whether a peer is connected.
    pub fn is_connected(&self, peer: &PeerId) -> (yes: bool)
        ensures
            yes == self@.connected.contains(peer@),
    {
        self.connected.contains(peer)
    }

    /// The connected peers: those that a local change is announced to.
    pub fn announcement_targets(&self) -> (peers: Vec<PeerId>)
        ensures
            crate::peer::peer_texts(peers@) == self@.connected,
    {
        self.connected.list()
    }

    /// Takes note of an event and says what is to be done about it.
    pub fn handle(&mut self, event: PeerEvent) -> (action: PeerAction)
        ensures
            final(self)@ == old(self)@.after(event@),
            action@ == old(self)@.action(event@),
            old(self)@.wf() ==> final(self)@.wf(),
    {
        proof {
            if self@.wf() {
                law_connected_peers_are_known(self@, event@);
            }
        }
        match event {
            PeerEvent::Discovered(peer) => {
                if peer.same(&self.local) {
                    return PeerAction::Nothing;
                }
                if self.connected.contains(&peer) || self.dialing.contains(&peer) {
                    return PeerAction::Nothing;
                }
                if self.seen.insert(peer.copy()) {
                    PeerAction::Dial(peer)
                } else {
                    PeerAction::Nothing
                }
            },
            PeerEvent::DialStarted(peer) => {
                self.dialing.insert(peer);
                PeerAction::Nothing
            },
            PeerEvent::Expired(peer) => {
                if self.connected.contains(&peer) {
                    return PeerAction::Nothing;
                }
                self.dialing.remove(&peer);
                if self.seen.remove(&peer) {
                    PeerAction::ReportLost(peer)
                } else {
                    PeerAction::Nothing
                }
            },
            PeerEvent::HeartbeatFailed(peer) => {
                self.connected.remove(&peer);
                self.dialing.remove(&peer);
                self.seen.remove(&peer);
                PeerAction::Nothing
            },
            PeerEvent::ConnectionClosed(peer) => {
                self.connected.remove(&peer);
                self.dialing.remove(&peer);
                self.seen.remove(&peer);
                PeerAction::CancelTransfers(peer)
            },
            PeerEvent::ConnectionEstablished(peer) => {
                self.connected.insert(peer.copy());
                self.dialing.remove(&peer);
                self.seen.insert(peer.copy());
                PeerAction::RequestManifest(peer)
            },
            PeerEvent::DialFailed(peer) => {
                self.dialing.remove(&peer);
                if !self.connected.contains(&peer) {
                    self.seen.insert(peer);
                }
                PeerAction::Nothing
            },
        }
    }
}

// ---------------------------------------------------------------------------
// Laws
// ---------------------------------------------------------------------------

proof fn lemma_with_peer(peers: Seq<Seq<char>>, peer: Seq<char>, other: Seq<char>)
    ensures
        crate::peer::with_peer(peers, peer).contains(other) <==> peers.contains(other) || other
            == peer,
        peers.no_duplicates() ==> crate::peer::with_peer(peers, peer).no_duplicates(),
{
    if !peers.contains(peer) {
        let grown = peers.push(peer);
        assert(grown[peers.len() as int] == peer);
        if peers.contains(other) {
            let k = choose|k: int| 0 <= k < peers.len() && peers[k] == other;
            assert(grown[k] == other);
        }
        if grown.contains(other) && other != peer {
            let k = choose|k: int| 0 <= k < grown.len() && grown[k] == other;
            assert(peers[k] == other);
        }
    }
}

proof fn lemma_without_peer(peers: Seq<Seq<char>>, peer: Seq<char>, other: Seq<char>)
    ensures
        crate::peer::without_peer(peers, peer).contains(other) <==> peers.contains(other) && other
            != peer,
{
    crate::peer::lemma_filter_contains(peers, crate::peer::not_peer(peer), other);
}

/// Whatever happens, every connected peer is a known one, and no peer is
/// counted twice.
pub proof fn law_connected_peers_are_known(tracker: TrackerView, event: PeerEventView)
    requires
        tracker.wf(),
    ensures
        tracker.after(event).wf(),
{
    let after = tracker.after(event);
    match event {
        PeerEventView::Discovered(peer)
        | PeerEventView::DialStarted(peer)
        | PeerEventView::Expired(peer)
        | PeerEventView::HeartbeatFailed(peer)
        | PeerEventView::ConnectionClosed(peer)
        | PeerEventView::ConnectionEstablished(peer)
        | PeerEventView::DialFailed(peer) => {
            lemma_with_peer(tracker.seen, peer, peer);
            lemma_with_peer(tracker.connected, peer, peer);
            lemma_with_peer(tracker.dialing, peer, peer);
            crate::peer::lemma_filter_no_duplicates(tracker.seen, crate::peer::not_peer(peer));
            crate::peer::lemma_filter_no_duplicates(tracker.connected, crate::peer::not_peer(peer));
            crate::peer::lemma_filter_no_duplicates(tracker.dialing, crate::peer::not_peer(peer));
            assert forall|other: Seq<char>| #[trigger]
                after.connected.contains(other) implies after.seen.contains(other) by {
                lemma_with_peer(tracker.seen, peer, other);
                lemma_with_peer(tracker.connected, peer, other);
                lemma_without_peer(tracker.seen, peer, other);
                lemma_without_peer(tracker.connected, peer, other);
            }
        },
    }
}

/// On heartbeat failure and on disconnection the peer is removed from the
/// active peers immediately; the others stay.
pub proof fn law_unreachable_peer_is_dropped(
    tracker: TrackerView,
    peer: Seq<char>,
    other: Seq<char>,
)
    requires
        other != peer,
    ensures
        ({
            let after = tracker.after(PeerEventView::HeartbeatFailed(peer));
            &&& !after.connected.contains(peer)
            &&& !after.dialing.contains(peer)
            &&& after.connected.contains(other) == tracker.connected.contains(other)
            &&& after.dialing.contains(other) == tracker.dialing.contains(other)
            &&& after == tracker.after(PeerEventView::ConnectionClosed(peer))
        }),
{
    lemma_without_peer(tracker.connected, peer, peer);
    lemma_without_peer(tracker.dialing, peer, peer);
    lemma_without_peer(tracker.connected, peer, other);
    lemma_without_peer(tracker.dialing, peer, other);
}

/// A peer that was lost is dialled again as soon as it is discovered again,
/// whether or not it expired in between.
pub proof fn law_lost_peer_is_dialled_again(tracker: TrackerView, peer: Seq<char>)
    requires
        peer != tracker.local,
    ensures
        ({
            let again = PeerEventView::Discovered(peer);
            let failed = tracker.after(PeerEventView::HeartbeatFailed(peer));
            let closed = tracker.after(PeerEventView::ConnectionClosed(peer));
            let expired = PeerEventView::Expired(peer);
            &&& failed.action(again) == PeerActionView::Dial(peer)
            &&& failed.after(expired).action(again) == PeerActionView::Dial(peer)
            &&& closed.action(again) == PeerActionView::Dial(peer)
            &&& closed.after(expired).action(again) == PeerActionView::Dial(peer)
        }),
{
    let lost = tracker.after(PeerEventView::HeartbeatFailed(peer));
    lemma_without_peer(tracker.seen, peer, peer);
    lemma_without_peer(tracker.connected, peer, peer);
    lemma_without_peer(tracker.dialing, peer, peer);
    lemma_without_peer(lost.seen, peer, peer);
    lemma_without_peer(lost.dialing, peer, peer);
}

/// A peer whose dial failed stays known: it is dialled again when it expired
/// and is then discovered again, and not before.
pub proof fn law_failed_dial_waits_for_expiry(tracker: TrackerView, peer: Seq<char>)
    requires
        peer != tracker.local,
        !tracker.connected.contains(peer),
    ensures
        ({
            let again = PeerEventView::Discovered(peer);
            let unreached = tracker.after(PeerEventView::DialFailed(peer));
            let expired = PeerEventView::Expired(peer);
            &&& unreached.action(again) == PeerActionView::Nothing
            &&& unreached.after(again) == unreached
            &&& unreached.action(expired) == PeerActionView::ReportLost(peer)
            &&& unreached.after(expired).action(again) == PeerActionView::Dial(peer)
        }),
{
    let unreached = tracker.after(PeerEventView::DialFailed(peer));
    lemma_with_peer(tracker.seen, peer, peer);
    lemma_without_peer(tracker.dialing, peer, peer);
    lemma_without_peer(unreached.seen, peer, peer);
    lemma_without_peer(unreached.dialing, peer, peer);
}

/// A peer is dialled at most once for as long as it stays known, and this node
/// never dials itself.
pub proof fn law_peer_is_dialled_once(tracker: TrackerView, peer: Seq<char>)
    ensures
        tracker.after(PeerEventView::Discovered(peer)).action(PeerEventView::Discovered(peer))
            == PeerActionView::Nothing,
        tracker.action(PeerEventView::Discovered(tracker.local)) == PeerActionView::Nothing,
{
    if tracker.dials(peer) {
        assert(tracker.seen.push(peer)[tracker.seen.len() as int] == peer);
    }
}

/// A peer that connects is among those that changes are announced to, and
/// reconciliation with it starts.
pub proof fn law_connected_peer_is_reconciled(tracker: TrackerView, peer: Seq<char>)
    ensures
        tracker.after(PeerEventView::ConnectionEstablished(peer)).connected.contains(peer),
        tracker.action(PeerEventView::ConnectionEstablished(peer))
            == PeerActionView::RequestManifest(peer),
        !tracker.after(PeerEventView::ConnectionEstablished(peer)).dialing.contains(peer),
{
    lemma_with_peer(tracker.connected, peer, peer);
    lemma_without_peer(tracker.dialing, peer, peer);
}

/// After a discovery every discovered peer is known, and so is every peer that
/// was known before.
pub proof fn law_discovered_peers_are_known(
    seen: Seq<Seq<char>>,
    discovered: Seq<Seq<char>>,
    peer: Seq<char>,
)
    ensures
        seen_after(seen, discovered).contains(peer) <==> seen.contains(peer)
            || discovered.contains(peer),
    decreases discovered.len(),
{
    if discovered.len() != 0 {
        let front = discovered.drop_last();
        law_discovered_peers_are_known(seen, front, peer);
        lemma_with_peer(seen_after(seen, front), discovered.last(), peer);
        assert(discovered[discovered.len() - 1] == discovered.last());
        if front.contains(peer) {
            let k = choose|k: int| 0 <= k < front.len() && front[k] == peer;
            assert(discovered[k] == peer);
        }
        if discovered.contains(peer) && peer != discovered.last() {
            let k = choose|k: int| 0 <= k < discovered.len() && discovered[k] == peer;
            assert(front[k] == peer);
        }
    }
}

/// Exactly the peers that were discovered and not known are reported, each
/// once.
pub proof fn law_new_peers_are_reported_once(
    seen: Seq<Seq<char>>,
    discovered: Seq<Seq<char>>,
    peer: Seq<char>,
)
    ensures
        new_peers(seen, discovered).contains(peer) <==> discovered.contains(peer)
            && !seen.contains(peer),
        new_peers(seen, discovered).no_duplicates(),
    decreases discovered.len(),
{
    if discovered.len() != 0 {
        let front = discovered.drop_last();
        let last = discovered.last();
        law_new_peers_are_reported_once(seen, front, peer);
        law_new_peers_are_reported_once(seen, front, last);
        law_discovered_peers_are_known(seen, front, last);
        assert(discovered[discovered.len() - 1] == last);
        if front.contains(peer) {
            let k = choose|k: int| 0 <= k < front.len() && front[k] == peer;
            assert(discovered[k] == peer);
        }
        if discovered.contains(peer) && peer != last {
            let k = choose|k: int| 0 <= k < discovered.len() && discovered[k] == peer;
            assert(front[k] == peer);
        }
        if !seen_after(seen, front).contains(last) {
            lemma_with_peer(new_peers(seen, front), last, peer);
            assert(!new_peers(seen, front).contains(last));
        }
    }
}

/// Peers that were reported are not reported again, unless they were removed
/// in between.
pub proof fn law_known_peers_are_not_reported(
    seen: Seq<Seq<char>>,
    discovered: Seq<Seq<char>>,
    peer: Seq<char>,
)
    requires
        discovered.contains(peer),
    ensures
        new_peers(seen_after(seen, discovered), discovered).len() == 0,
        new_peers(
            crate::peer::without_peer(seen_after(seen, discovered), peer),
            seq![peer],
        ) == seq![peer],
{
    let again = new_peers(seen_after(seen, discovered), discovered);
    if again.len() != 0 {
        law_new_peers_are_reported_once(seen_after(seen, discovered), discovered, again[0]);
        law_discovered_peers_are_known(seen, discovered, again[0]);
        assert(again.contains(again[0]));
    }
    let removed = crate::peer::without_peer(seen_after(seen, discovered), peer);
    lemma_without_peer(seen_after(seen, discovered), peer, peer);
    assert(seq![peer].drop_last() == Seq::<Seq<char>>::empty());
    assert(seen_after(removed, seq![peer].drop_last()) == removed);
    assert(new_peers(removed, seq![peer].drop_last()) == Seq::<Seq<char>>::empty());
    assert(new_peers(removed, seq![peer]) == Seq::<Seq<char>>::empty().push(peer));
    assert(Seq::<Seq<char>>::empty().push(peer) == seq![peer]);
}

/// What each event changes: of every peer, whether it is known, connected and
/// being dialled afterwards, and what is done. The node itself stays the same.
pub proof fn law_events_change_the_peer_they_name(
    tracker: TrackerView,
    event: PeerEventView,
    other: Seq<char>,
)
    ensures
        ({
            let after = tracker.after(event);
            let action = tracker.action(event);
            let seen = after.seen.contains(other);
            let connected = after.connected.contains(other);
            let dialing = after.dialing.contains(other);
            let was_seen = tracker.seen.contains(other);
            let was_connected = tracker.connected.contains(other);
            let was_dialing = tracker.dialing.contains(other);
            &&& after.local == tracker.local
            &&& event matches PeerEventView::Discovered(p) ==> {
                let reachable = p != tracker.local && !tracker.connected.contains(p)
                    && !tracker.dialing.contains(p);
                &&& seen <==> was_seen || (other == p && reachable)
                &&& connected == was_connected && dialing == was_dialing
                &&& reachable && !tracker.seen.contains(p) ==> action == PeerActionView::Dial(p)
                &&& !reachable || tracker.seen.contains(p) ==> action is Nothing
            }
            &&& event matches PeerEventView::DialStarted(p) ==> {
                &&& seen == was_seen && connected == was_connected
                &&& dialing <==> was_dialing || other == p
                &&& action is Nothing
            }
            &&& event matches PeerEventView::Expired(p) ==> {
                let kept = tracker.connected.contains(p);
                &&& seen <==> was_seen && (kept || other != p)
                &&& dialing <==> was_dialing && (kept || other != p)
                &&& connected == was_connected
                &&& !kept && tracker.seen.contains(p) ==> action == PeerActionView::ReportLost(p)
                &&& kept || !tracker.seen.contains(p) ==> action is Nothing
            }
            &&& event matches PeerEventView::HeartbeatFailed(p) ==> {
                &&& seen <==> was_seen && other != p
                &&& connected <==> was_connected && other != p
                &&& dialing <==> was_dialing && other != p
                &&& action is Nothing
            }
            &&& event matches PeerEventView::ConnectionClosed(p) ==> {
                &&& seen <==> was_seen && other != p
                &&& connected <==> was_connected && other != p
                &&& dialing <==> was_dialing && other != p
                &&& action == PeerActionView::CancelTransfers(p)
            }
            &&& event matches PeerEventView::ConnectionEstablished(p) ==> {
                &&& seen <==> was_seen || other == p
                &&& connected <==> was_connected || other == p
                &&& dialing <==> was_dialing && other != p
                &&& action == PeerActionView::RequestManifest(p)
            }
            &&& event matches PeerEventView::DialFailed(p) ==> {
                &&& seen <==> was_seen || (other == p && !tracker.connected.contains(p))
                &&& connected == was_connected
                &&& dialing <==> was_dialing && other != p
                &&& action is Nothing
            }
        }),
{
    match event {
        PeerEventView::Discovered(peer)
        | PeerEventView::DialStarted(peer)
        | PeerEventView::Expired(peer)
        | PeerEventView::HeartbeatFailed(peer)
        | PeerEventView::ConnectionClosed(peer)
        | PeerEventView::ConnectionEstablished(peer)
        | PeerEventView::DialFailed(peer) => {
            lemma_with_peer(tracker.seen, peer, other);
            lemma_with_peer(tracker.connected, peer, other);
            lemma_with_peer(tracker.dialing, peer, other);
            lemma_without_peer(tracker.seen, peer, other);
            lemma_without_peer(tracker.connected, peer, other);
            lemma_without_peer(tracker.dialing, peer, other);
        },
    }
}

/// Events and actions are seen with the peer that they name.
pub proof fn law_peer_events_tell_all(event: PeerEvent, action: PeerAction)
    ensures
        event matches PeerEvent::Discovered(p) ==> event@ == PeerEventView::Discovered(p@),
        event matches PeerEvent::DialStarted(p) ==> event@ == PeerEventView::DialStarted(p@),
        event matches PeerEvent::Expired(p) ==> event@ == PeerEventView::Expired(p@),
        event matches PeerEvent::HeartbeatFailed(p) ==> event@ == PeerEventView::HeartbeatFailed(
            p@,
        ),
        event matches PeerEvent::ConnectionClosed(p) ==> event@ == PeerEventView::ConnectionClosed(
            p@,
        ),
        event matches PeerEvent::ConnectionEstablished(p) ==> event@
            == PeerEventView::ConnectionEstablished(p@),
        event matches PeerEvent::DialFailed(p) ==> event@ == PeerEventView::DialFailed(p@),
        action is Nothing <==> action@ is Nothing,
        action matches PeerAction::Dial(p) ==> action@ == PeerActionView::Dial(p@),
        action matches PeerAction::RequestManifest(p) ==> action@
            == PeerActionView::RequestManifest(p@),
        action matches PeerAction::CancelTransfers(p) ==> action@
            == PeerActionView::CancelTransfers(p@),
        action matches PeerAction::ReportLost(p) ==> action@ == PeerActionView::ReportLost(p@),
{
}

/// New peers are reported in the order in which they were discovered: one more
/// is reported behind the others, unless it was known or discovered before.
pub proof fn law_new_peers_are_reported_in_order(
    seen: Seq<Seq<char>>,
    discovered: Seq<Seq<char>>,
    peer: Seq<char>,
)
    ensures
        seen.contains(peer) || discovered.contains(peer) ==> new_peers(seen, discovered.push(peer))
            == new_peers(seen, discovered),
        !seen.contains(peer) && !discovered.contains(peer) ==> new_peers(
            seen,
            discovered.push(peer),
        ) == new_peers(seen, discovered) + seq![peer],
        new_peers(seen, Seq::empty()).len() == 0,
{
    assert(discovered.push(peer).drop_last() == discovered);
    law_discovered_peers_are_known(seen, discovered, peer);
    assert(new_peers(seen, discovered).push(peer) =~= new_peers(seen, discovered) + seq![peer]);
}

} // verus!
