//! The transfer queue: one file is fetched at a time, the others wait.

use std::collections::VecDeque;

use vstd::prelude::*;

use crate::db::EventKind;
use crate::messages::{SyncRequest, SyncRequestView};
use crate::peer::PeerId;
use crate::text::text_eq;

verus! {

/// How often a transfer is tried again before it is given up.
pub const MAX_RETRIES: u32 = 3;

/// Parameters of a pull.
#[derive(Debug, Clone)]
struct QueuedPull {
    peer: PeerId,
    resource_path: String,
    event_kind: EventKind,
    username: String,
}

/// A pull: what is fetched, from whom, and what is recorded when it arrives.
pub struct PullView {
    pub peer: Seq<char>,
    pub path: Seq<char>,
    pub event_kind: EventKind,
    pub username: Seq<char>,
}

impl View for QueuedPull {
    type V = PullView;

    closed spec fn view(&self) -> PullView {
        PullView {
            peer: self.peer@,
            path: self.resource_path@,
            event_kind: self.event_kind,
            username: self.username@,
        }
    }
}

impl PullView {
    /// The pull fetches `path` from `peer`.
    pub open spec fn is_for(self, peer: Seq<char>, path: Seq<char>) -> bool {
        self.peer == peer && self.path == path
    }

    /// The request that starts the pull.
    pub open spec fn request(self) -> SyncRequestView {
        SyncRequestView::FetchFile { path: self.path }
    }
}

/// The transfer queue: at most one active pull, the pulls that wait for it in
/// the order in which they came, and the number of retries of the active one.
#[verifier::ext_equal]
pub struct SyncStateView {
    pub current: Option<PullView>,
    pub queue: Seq<PullView>,
    pub retries: nat,
}

/// Pulls from other peers than the given one.
pub open spec fn from_others(peer: Seq<char>) -> spec_fn(PullView) -> bool {
    |pull: PullView| pull.peer != peer
}

impl SyncStateView {
    /// No transfer is active and none waits.
    pub open spec fn idle() -> SyncStateView {
        SyncStateView { current: None, queue: Seq::empty(), retries: 0 }
    }

    /// A pull waits in the queue.
    pub open spec fn queued(self, peer: Seq<char>, path: Seq<char>) -> bool {
        exists|i: int| 0 <= i < self.queue.len() && (#[trigger] self.queue[i]).is_for(peer, path)
    }

    /// A pull is active.
    pub open spec fn active(self, peer: Seq<char>, path: Seq<char>) -> bool {
        self.current is Some && self.current->0.is_for(peer, path)
    }

    /// A pull is active or waits in the queue.
    pub open spec fn pending(self, peer: Seq<char>, path: Seq<char>) -> bool {
        self.active(peer, path) || self.queued(peer, path)
    }

    /// Nothing waits while no transfer is active; no pull is pending twice; no
    /// transfer was tried more often than allowed.
    pub open spec fn wf(self) -> bool {
        &&& self.current is None ==> self.queue.len() == 0
        &&& self.retries <= MAX_RETRIES
        &&& forall|i: int|
            0 <= i < self.queue.len() ==> !self.active(
                (#[trigger] self.queue[i]).peer,
                self.queue[i].path,
            )
        &&& forall|i: int, j: int|
            0 <= i < j < self.queue.len() ==> !(#[trigger] self.queue[i]).is_for(
                (#[trigger] self.queue[j]).peer,
                self.queue[j].path,
            )
    }

    /// The active transfer ends; the first of the queue, if any, becomes
    /// active. The retries are counted anew.
    pub open spec fn advanced(self) -> SyncStateView {
        if self.queue.len() > 0 {
            SyncStateView { current: Some(self.queue[0]), queue: self.queue.skip(1), retries: 0 }
        } else {
            SyncStateView { current: None, retries: 0, ..self }
        }
    }

    /// The request for the active transfer.
    pub open spec fn current_request(self) -> Option<SyncRequestView> {
        match self.current {
            Some(pull) => Some(pull.request()),
            None => None,
        }
    }

    /// A pull is started where nothing is active, and queued otherwise, unless
    /// it is pending already.
    pub open spec fn started(self, pull: PullView) -> SyncStateView {
        if self.pending(pull.peer, pull.path) {
            self
        } else if self.current is None {
            SyncStateView { current: Some(pull), retries: 0, ..self }
        } else {
            SyncStateView { queue: self.queue.push(pull), ..self }
        }
    }

    /// The request that is sent when a pull is asked for.
    pub open spec fn start_request(self, pull: PullView) -> Option<SyncRequestView> {
        if !self.pending(pull.peer, pull.path) && self.current is None {
            Some(pull.request())
        } else {
            None
        }
    }

    /// The transfer of `path` from `peer` is over.
    pub open spec fn finished(self, peer: Seq<char>, path: Seq<char>) -> SyncStateView {
        if self.active(peer, path) {
            self.advanced()
        } else {
            self
        }
    }

    /// The request that is sent when a transfer is over.
    pub open spec fn finish_request(self, peer: Seq<char>, path: Seq<char>) -> Option<
        SyncRequestView,
    > {
        if self.active(peer, path) {
            self.advanced().current_request()
        } else {
            None
        }
    }

    /// The active transfer is tried again, or given up after too many retries.
    pub open spec fn retried(self) -> SyncStateView {
        if self.retries >= MAX_RETRIES {
            self.advanced()
        } else {
            SyncStateView { retries: self.retries + 1, ..self }
        }
    }

    /// The pulls of a peer are dropped, the active one among them.
    pub open spec fn cancelled(self, peer: Seq<char>) -> SyncStateView {
        let rest = SyncStateView { queue: self.queue.filter(from_others(peer)), ..self };
        if self.current is Some && self.current->0.peer == peer {
            rest.advanced()
        } else {
            rest
        }
    }

    /// The request that is sent when the pulls of a peer are dropped.
    pub open spec fn cancel_request(self, peer: Seq<char>) -> Option<SyncRequestView> {
        if self.current is Some && self.current->0.peer == peer {
            self.cancelled(peer).current_request()
        } else {
            None
        }
    }
}

/// The pulls that a queue holds.
spec fn pulls(queue: Seq<QueuedPull>) -> Seq<PullView> {
    queue.map_values(|q: QueuedPull| q@)
}

/// Simple sync state - tracks at most one active transfer and a FIFO queue.
pub struct SyncState {
    /// Currently active transfer - None if idle.
    current_transfer: Option<QueuedPull>,
    /// FIFO queue of pulls waiting for the current transfer to finish.
    queued_pulls: VecDeque<QueuedPull>,
    /// Retry count for current transfer (reset on success or new transfer)
    current_retry: u32,
}

impl View for SyncState {
    type V = SyncStateView;

    closed spec fn view(&self) -> SyncStateView {
        SyncStateView {
            current: match self.current_transfer {
                Some(pull) => Some(pull@),
                None => None,
            },
            queue: pulls(self.queued_pulls@),
            retries: self.current_retry as nat,
        }
    }
}

impl Default for SyncState {
    /// An idle state.
    fn default() -> (state: Self)
        ensures
            state@ == SyncStateView::idle(),
            state@.wf(),
    {
        SyncState::new()
    }
}

impl SyncState {
    /// An idle state.
    pub fn new() -> (state: SyncState)
        ensures
            state@ == SyncStateView::idle(),
            state@.wf(),
    {
        let state = SyncState {
            current_transfer: None,
            queued_pulls: VecDeque::new(),
            current_retry: 0,
        };
        assert(state@.queue == Seq::<PullView>::empty());
        state
    }

    /// Returns true if a transfer is currently in progress.
    pub fn is_busy(&self) -> (busy: bool)
        ensures
            busy == (self@.current is Some),
    {
        self.current_transfer.is_some()
    }

    fn is_current(&self, peer: &PeerId, path: &str) -> (yes: bool)
        ensures
            yes == self@.active(peer@, path@),
    {
        match &self.current_transfer {
            Some(pull) => pull.peer.same(peer) && text_eq(&pull.resource_path, path),
            None => false,
        }
    }

    /// Returns true if a pull for (peer, path) is either active or queued.
    pub fn is_pending(&self, peer: &PeerId, path: &str) -> (pending: bool)
        ensures
            pending == self@.pending(peer@, path@),
    {
        if self.is_current(peer, path) {
            return true;
        }
        let mut i: usize = 0;
        while i < self.queued_pulls.len()
            invariant
                i <= self.queued_pulls@.len(),
                !self@.active(peer@, path@),
                forall|k: int|
                    0 <= k < i ==> !(#[trigger] self@.queue[k]).is_for(peer@, path@),
            decreases self.queued_pulls@.len() - i,
        {
            let pull = &self.queued_pulls[i];
            assert(self@.queue[i as int] == pull@);
            if pull.peer.same(peer) && text_eq(&pull.resource_path, path) {
                return true;
            }
            i = i + 1;
        }
        false
    }

    /// Returns the number of queued pulls waiting.
    pub fn queue_len(&self) -> (n: usize)
        ensures
            n == self@.queue.len(),
    {
        self.queued_pulls.len()
    }

    /// Returns the event_kind and username for the current transfer, if any.
    pub fn current_transfer_info(&self) -> (info: Option<(EventKind, String)>)
        ensures
            info is Some <==> self@.current is Some,
            info matches Some((kind, username)) ==> kind == self@.current->0.event_kind
                && username@ == self@.current->0.username,
    {
        match &self.current_transfer {
            Some(pull) => Some((pull.event_kind, pull.username.clone())),
            None => None,
        }
    }

    /// Returns the path and the peer of the current transfer, if any.
    pub fn current_transfer_source(&self) -> (source: Option<(String, PeerId)>)
        ensures
            source is Some <==> self@.current is Some,
            source matches Some((path, peer)) ==> path@ == self@.current->0.path && peer@
                == self@.current->0.peer,
    {
        match &self.current_transfer {
            Some(pull) => Some((pull.resource_path.clone(), pull.peer.copy())),
            None => None,
        }
    }

    /// Starts a pull if idle, otherwise queues it.
    /// Returns the initial FetchFile request to send, if started.
    pub fn start_pull(
        &mut self,
        _data_dir: &str,
        peer: PeerId,
        resource_path: String,
        _expected_checksum: Option<String>,
        event_kind: EventKind,
        username: String,
    ) -> (request: Option<SyncRequest>)
        ensures
            ({
                let pull = PullView {
                    peer: peer@,
                    path: resource_path@,
                    event_kind,
                    username: username@,
                };
                &&& final(self)@ == old(self)@.started(pull)
                &&& crate::messages::requested(request) == old(self)@.start_request(pull)
            }),
            old(self)@.wf() ==> final(self)@.wf(),
    {
        if self.is_pending(&peer, &resource_path) {
            return None;
        }
        let ghost before = self@;
        let path: String = resource_path.clone();
        let pull = QueuedPull { peer, resource_path, event_kind, username };
        let ghost added = pull@;
        proof {
            if before.wf() {
                lemma_started_wf(before, added);
            }
        }
        if self.current_transfer.is_none() {
            self.current_transfer = Some(pull);
            self.current_retry = 0;
            Some(SyncRequest::FetchFile { path })
        } else {
            self.queued_pulls.push_back(pull);
            assert(self@.queue == before.queue.push(added));
            None
        }
    }

    /// Ends the active transfer and starts the first queued one.
    fn advance(&mut self) -> (request: Option<SyncRequest>)
        ensures
            final(self)@ == old(self)@.advanced(),
            crate::messages::requested(request) == old(self)@.advanced().current_request(),
    {
        let ghost before = self@;
        self.current_transfer = None;
        self.current_retry = 0;
        match self.queued_pulls.pop_front() {
            Some(next) => {
                let path: String = next.resource_path.clone();
                assert(next@ == before.queue[0]);
                assert(pulls(self.queued_pulls@) == before.queue.skip(1));
                self.current_transfer = Some(next);
                Some(SyncRequest::FetchFile { path })
            },
            None => None,
        }
    }

    /// Called when a file transfer completes (success or failure).
    /// Returns the next FetchFile request to send, if any queued.
    pub fn finish_transfer(&mut self, peer: &PeerId, path: &str) -> (request: Option<SyncRequest>)
        ensures
            final(self)@ == old(self)@.finished(peer@, path@),
            crate::messages::requested(request) == old(self)@.finish_request(peer@, path@),
            old(self)@.wf() ==> final(self)@.wf(),
    {
        if !self.is_current(peer, path) {
            return None;
        }
        proof {
            lemma_advanced_wf(self@);
        }
        self.advance()
    }

    /// Retry the current transfer from the beginning (increment retry count).
    /// Returns the FetchFile request to resend. Where the retries are used up
    /// the transfer is given up, and the request of the next one is returned,
    /// if any is queued.
    pub fn retry_current(&mut self) -> (request: Option<SyncRequest>)
        ensures
            final(self)@ == old(self)@.retried(),
            crate::messages::requested(request) == old(self)@.retried().current_request(),
            old(self)@.wf() ==> final(self)@.wf(),
    {
        if self.current_retry >= MAX_RETRIES {
            proof {
                lemma_advanced_wf(self@);
            }
            return self.advance();
        }
        self.current_retry = self.current_retry + 1;
        match &self.current_transfer {
            Some(pull) => Some(SyncRequest::FetchFile { path: pull.resource_path.clone() }),
            None => None,
        }
    }

    /// Cancels all transfers for a peer. Returns next request if a new transfer starts.
    pub fn cancel_peer(&mut self, peer: &PeerId) -> (request: Option<SyncRequest>)
        ensures
            final(self)@ == old(self)@.cancelled(peer@),
            crate::messages::requested(request) == old(self)@.cancel_request(peer@),
            old(self)@.wf() ==> final(self)@.wf(),
    {
        let was_current: bool = match &self.current_transfer {
            Some(pull) => pull.peer.same(peer),
            None => false,
        };
        let ghost before = self@;
        let mut kept: VecDeque<QueuedPull> = VecDeque::new();
        let count: usize = self.queued_pulls.len();
        let mut i: usize = 0;
        assert(pulls(kept@) == before.queue.take(0).filter(from_others(peer@))) by {
            reveal(Seq::filter);
        }
        while i < count
            invariant
                i <= count,
                before.current == self@.current,
                before.retries == self@.retries,
                count == before.queue.len(),
                pulls(self.queued_pulls@) == before.queue.skip(i as int),
                pulls(kept@) == before.queue.take(i as int).filter(from_others(peer@)),
            decreases count - i,
        {
            let ghost kept_before = kept@;
            let ghost waiting = self.queued_pulls@;
            assert(waiting.len() == pulls(waiting).len());
            if let Some(pull) = self.queued_pulls.pop_front() {
                proof {
                    reveal(Seq::filter);
                    assert(before.queue.skip(i as int)[0] == before.queue[i as int]);
                    assert(pull@ == before.queue[i as int]);
                    assert(before.queue.take(i + 1).drop_last() == before.queue.take(i as int));
                    assert(pulls(self.queued_pulls@) == pulls(waiting).skip(1));
                    assert(before.queue.skip(i as int).skip(1) == before.queue.skip(i + 1));
                }
                if !pull.peer.same(peer) {
                    let ghost added = pull@;
                    kept.push_back(pull);
                    assert(pulls(kept@) == pulls(kept_before).push(added));
                }
            }
            i = i + 1;
        }
        assert(before.queue.take(i as int) == before.queue);
        self.queued_pulls = kept;
        proof {
            let rest = SyncStateView { queue: before.queue.filter(from_others(peer@)), ..before };
            assert(self@ == rest);
            if before.wf() {
                lemma_cancelled_wf(before, peer@);
            }
        }
        if was_current {
            return self.advance();
        }
        None
    }
}

proof fn lemma_started_wf(state: SyncStateView, pull: PullView)
    requires
        state.wf(),
    ensures
        state.started(pull).wf(),
{
    let after = state.started(pull);
    if !state.pending(pull.peer, pull.path) && state.current is Some {
        assert forall|i: int, j: int| 0 <= i < j < after.queue.len() implies !(
        #[trigger] after.queue[i]).is_for(
            (#[trigger] after.queue[j]).peer,
            after.queue[j].path,
        ) by {
            if j == state.queue.len() {
                assert(after.queue[i] == state.queue[i]);
                assert(after.queue[j] == pull);
            } else {
                assert(after.queue[i] == state.queue[i]);
                assert(after.queue[j] == state.queue[j]);
            }
        }
        assert forall|i: int| 0 <= i < after.queue.len() implies !after.active(
            (#[trigger] after.queue[i]).peer,
            after.queue[i].path,
        ) by {
            if i < state.queue.len() {
                assert(after.queue[i] == state.queue[i]);
            } else {
                assert(after.queue[i] == pull);
            }
        }
    }
}

proof fn lemma_advanced_wf(state: SyncStateView)
    ensures
        state.wf() ==> state.advanced().wf(),
{
    if state.wf() && state.queue.len() > 0 {
        let after = state.advanced();
        assert forall|i: int| 0 <= i < after.queue.len() implies !after.active(
            (#[trigger] after.queue[i]).peer,
            after.queue[i].path,
        ) by {
            assert(after.queue[i] == state.queue[i + 1]);
            assert(after.current->0 == state.queue[0]);
        }
        assert forall|i: int, j: int| 0 <= i < j < after.queue.len() implies !(
        #[trigger] after.queue[i]).is_for(
            (#[trigger] after.queue[j]).peer,
            after.queue[j].path,
        ) by {
            assert(after.queue[i] == state.queue[i + 1]);
            assert(after.queue[j] == state.queue[j + 1]);
        }
    }
}

proof fn lemma_filtered_pulls(queue: Seq<PullView>, keep: spec_fn(PullView) -> bool)
    requires
        forall|i: int, j: int|
            0 <= i < j < queue.len() ==> !(#[trigger] queue[i]).is_for(
                (#[trigger] queue[j]).peer,
                queue[j].path,
            ),
    ensures
        forall|i: int|
            0 <= i < queue.filter(keep).len() ==> queue.contains(#[trigger] queue.filter(keep)[i]),
        forall|i: int, j: int|
            0 <= i < j < queue.filter(keep).len() ==> !(#[trigger] queue.filter(keep)[i]).is_for(
                (#[trigger] queue.filter(keep)[j]).peer,
                queue.filter(keep)[j].path,
            ),
    decreases queue.len(),
{
    reveal(Seq::filter);
    if queue.len() != 0 {
        let front = queue.drop_last();
        let last = queue.last();
        lemma_filtered_pulls(front, keep);
        let kept = front.filter(keep);
        let all = queue.filter(keep);
        assert forall|i: int| 0 <= i < all.len() implies queue.contains(#[trigger] all[i]) by {
            if i < kept.len() {
                assert(all[i] == kept[i]);
                let k = choose|k: int| 0 <= k < front.len() && front[k] == kept[i];
                assert(queue[k] == all[i]);
            } else {
                assert(queue[queue.len() - 1] == all[i]);
            }
        }
        assert forall|i: int, j: int| 0 <= i < j < all.len() implies !(#[trigger] all[i]).is_for(
            (#[trigger] all[j]).peer,
            all[j].path,
        ) by {
            assert(all[i] == kept[i]);
            if j < kept.len() {
                assert(all[j] == kept[j]);
            } else {
                assert(front.contains(kept[i]));
                let k = choose|k: int| 0 <= k < front.len() && front[k] == kept[i];
                assert(queue[k] == all[i]);
                assert(queue[queue.len() - 1] == all[j]);
            }
        }
    }
}

proof fn lemma_cancelled_wf(state: SyncStateView, peer: Seq<char>)
    requires
        state.wf(),
    ensures
        state.cancelled(peer).wf(),
{
    let rest = SyncStateView { queue: state.queue.filter(from_others(peer)), ..state };
    lemma_filtered_pulls(state.queue, from_others(peer));
    assert forall|i: int| 0 <= i < rest.queue.len() implies !rest.active(
        (#[trigger] rest.queue[i]).peer,
        rest.queue[i].path,
    ) by {
        let k = choose|k: int| 0 <= k < state.queue.len() && state.queue[k] == rest.queue[i];
        assert(!state.active(state.queue[k].peer, state.queue[k].path));
    }
    if state.current is None {
        state.queue.lemma_filter_len(from_others(peer));
    }
    lemma_advanced_wf(rest);
}

// ---------------------------------------------------------------------------
// Laws
// ---------------------------------------------------------------------------

/// One file transfers at a time: whatever happens, a request that is sent is
/// the one for the transfer that is active afterwards.
pub proof fn law_requests_are_for_the_active_transfer(
    state: SyncStateView,
    pull: PullView,
    peer: Seq<char>,
    path: Seq<char>,
)
    ensures
        state.start_request(pull) is Some ==> state.start_request(pull) == state.started(
            pull,
        ).current_request(),
        state.finish_request(peer, path) is Some ==> state.finish_request(peer, path)
            == state.finished(peer, path).current_request(),
        state.cancel_request(peer) is Some ==> state.cancel_request(peer) == state.cancelled(
            peer,
        ).current_request(),
{
}

/// A pull that was asked for is pending afterwards, and so is everything that
/// was pending before.
pub proof fn law_started_pulls_are_pending(
    state: SyncStateView,
    pull: PullView,
    peer: Seq<char>,
    path: Seq<char>,
)
    ensures
        state.started(pull).pending(pull.peer, pull.path),
        state.pending(peer, path) ==> state.started(pull).pending(peer, path),
{
    let after = state.started(pull);
    if !state.pending(pull.peer, pull.path) {
        if state.current is Some {
            assert(after.queue[state.queue.len() as int] == pull);
            assert(after.queue[state.queue.len() as int].is_for(pull.peer, pull.path));
        } else {
            assert(after.active(pull.peer, pull.path));
        }
    }
    if state.queued(peer, path) {
        let k = choose|k: int|
            0 <= k < state.queue.len() && (#[trigger] state.queue[k]).is_for(peer, path);
        assert(after.queue[k] == state.queue[k]);
        assert(after.queue[k].is_for(peer, path));
    }
}

/// Asking twice for the same pull is the same as asking once.
pub proof fn law_pulls_are_not_doubled(state: SyncStateView, pull: PullView)
    ensures
        state.started(pull).started(pull) == state.started(pull),
        state.started(pull).start_request(pull) is None,
{
    law_started_pulls_are_pending(state, pull, pull.peer, pull.path);
}

/// The state after `n` transfers ended one after the other.
pub open spec fn after_finishing(state: SyncStateView, n: nat) -> SyncStateView
    decreases n,
{
    if n == 0 {
        state
    } else {
        after_finishing(state.advanced(), (n - 1) as nat)
    }
}

/// Pulls are transferred in the order in which they were queued: the n-th of
/// the queue is active after n transfers ended.
pub proof fn law_queue_is_first_in_first_out(state: SyncStateView, n: nat)
    requires
        0 < n <= state.queue.len(),
    ensures
        after_finishing(state, n).current == Some(state.queue[n - 1]),
        after_finishing(state, n).queue == state.queue.skip(n as int),
    decreases n,
{
    let next = state.advanced();
    if n > 1 {
        law_queue_is_first_in_first_out(next, (n - 1) as nat);
        assert(next.queue[n - 2] == state.queue[n - 1]);
        assert(next.queue.skip(n - 1) == state.queue.skip(n as int));
    } else {
        assert(after_finishing(next, 0) == next);
    }
}

/// A transfer that keeps failing is tried again three times, each time with
/// its own request, and given up at the fourth failure; the first pull of the
/// queue then takes its place.
pub proof fn law_failing_transfer_is_given_up(state: SyncStateView)
    requires
        state.current is Some,
        state.retries == 0,
    ensures
        state.retried().current_request() == state.current_request(),
        state.retried().retried().current_request() == state.current_request(),
        state.retried().retried().retried().current_request() == state.current_request(),
        state.retried().retried().retried().retried() == state.advanced(),
        state.queue.len() == 0 ==> state.retried().retried().retried().retried().current is None,
{
}

/// After a peer's transfers were cancelled none of them is pending, and all of
/// the other peers' still are.
pub proof fn law_cancelling_drops_one_peer_only(
    state: SyncStateView,
    peer: Seq<char>,
    other: Seq<char>,
    path: Seq<char>,
)
    ensures
        !state.cancelled(peer).pending(peer, path),
        other != peer ==> state.cancelled(peer).pending(other, path) == state.pending(other, path),
{
    let keep = from_others(peer);
    let kept = state.queue.filter(keep);
    let after = state.cancelled(peer);
    assert forall|i: int| 0 <= i < kept.len() implies (#[trigger] kept[i]).peer != peer by {
        state.queue.lemma_filter_pred(keep, i);
    }
    let dropped = state.current is Some && state.current->0.peer == peer;
    assert forall|i: int| 0 <= i < after.queue.len() implies (#[trigger] after.queue[i]).peer
        != peer by {
        if dropped && kept.len() > 0 {
            assert(after.queue[i] == kept[i + 1]);
        } else {
            assert(after.queue[i] == kept[i]);
        }
    }
    if other != peer {
        if state.queued(other, path) {
            let k = choose|k: int|
                0 <= k < state.queue.len() && (#[trigger] state.queue[k]).is_for(other, path);
            assert(state.queue[k].is_for(other, path));
            state.queue.lemma_filter_contains(keep, k);
            let m = choose|m: int| 0 <= m < kept.len() && kept[m] == state.queue[k];
            assert(kept[m].is_for(other, path));
            if dropped {
                if m > 0 {
                    assert(after.queue[m - 1] == kept[m]);
                    assert(after.queue[m - 1].is_for(other, path));
                }
            } else {
                assert(after.queue[m].is_for(other, path));
            }
        }
        if after.queued(other, path) {
            let k = choose|k: int|
                0 <= k < after.queue.len() && (#[trigger] after.queue[k]).is_for(other, path);
            let m = if dropped && kept.len() > 0 {
                k + 1
            } else {
                k
            };
            assert(kept[m] == after.queue[k]);
            lemma_filter_source(state.queue, keep, kept[m]);
            let q = choose|q: int| 0 <= q < state.queue.len() && state.queue[q] == kept[m];
            assert(state.queue[q].is_for(other, path));
        }
        if dropped && after.active(other, path) {
            assert(kept[0].is_for(other, path));
            lemma_filter_source(state.queue, keep, kept[0]);
            let q = choose|q: int| 0 <= q < state.queue.len() && state.queue[q] == kept[0];
            assert(state.queue[q].is_for(other, path));
        }
    }
}

proof fn lemma_filter_source(
    queue: Seq<PullView>,
    keep: spec_fn(PullView) -> bool,
    pull: PullView,
)
    requires
        queue.filter(keep).contains(pull),
    ensures
        queue.contains(pull),
{
    queue.lemma_filter_contains_rev(keep, pull);
}

/// The retries of a transfer do not count against the next one: they are zero
/// after a success, after giving up and after a cancellation.
pub proof fn law_retries_are_counted_anew(
    state: SyncStateView,
    peer: Seq<char>,
    path: Seq<char>,
)
    ensures
        state.active(peer, path) ==> state.finished(peer, path).retries == 0,
        state.retries >= MAX_RETRIES ==> state.retried().retries == 0,
        state.current is Some && state.current->0.peer == peer ==> state.cancelled(peer).retries
            == 0,
{
}

/// The end of a transfer makes no other one pending.
pub proof fn law_ending_adds_no_transfer(state: SyncStateView, peer: Seq<char>, path: Seq<char>)
    ensures
        state.advanced().pending(peer, path) ==> state.pending(peer, path),
        state.retried().pending(peer, path) ==> state.pending(peer, path),
{
    let after = state.advanced();
    if state.queue.len() > 0 {
        if after.active(peer, path) {
            assert(state.queue[0].is_for(peer, path));
        }
        if after.queued(peer, path) {
            let k = choose|k: int|
                0 <= k < after.queue.len() && (#[trigger] after.queue[k]).is_for(peer, path);
            assert(state.queue[k + 1] == after.queue[k]);
            assert(state.queue[k + 1].is_for(peer, path));
        }
    }
}

/// Whether a pull of a path from a peer is under way or waits, by what the
/// queue holds.
pub open spec fn is_awaited(state: SyncStateView, peer: Seq<char>, path: Seq<char>) -> bool {
    ||| state.current is Some && state.current->0.peer == peer && state.current->0.path == path
    ||| exists|i: int|
        0 <= i < state.queue.len() && (#[trigger] state.queue[i]).peer == peer
            && state.queue[i].path == path
}

/// A pull is pending exactly if it is under way or waits.
pub proof fn law_pending_is_active_or_queued(
    state: SyncStateView,
    peer: Seq<char>,
    path: Seq<char>,
)
    ensures
        state.pending(peer, path) <==> is_awaited(state, peer, path),
{
    if state.queued(peer, path) {
        let i = choose|i: int|
            0 <= i < state.queue.len() && (#[trigger] state.queue[i]).is_for(peer, path);
        assert(state.queue[i].peer == peer && state.queue[i].path == path);
    }
    if exists|i: int|
        0 <= i < state.queue.len() && (#[trigger] state.queue[i]).peer == peer
            && state.queue[i].path == path {
        let i = choose|i: int|
            0 <= i < state.queue.len() && (#[trigger] state.queue[i]).peer == peer
                && state.queue[i].path == path;
        assert(state.queue[i].is_for(peer, path));
    }
}

/// A new pull starts at once where nothing is under way, and its file is asked
/// for; otherwise it waits behind all others, and nothing is asked for. One
/// that is awaited already changes nothing.
pub proof fn law_pull_starts_or_waits(state: SyncStateView, pull: PullView)
    ensures
        ({
            let after = state.started(pull);
            let request = state.start_request(pull);
            &&& is_awaited(state, pull.peer, pull.path) ==> after == state && request is None
            &&& !is_awaited(state, pull.peer, pull.path) && state.current is None ==> {
                &&& after.current == Some(pull)
                &&& after.queue == state.queue
                &&& after.retries == 0
                &&& request == Some(SyncRequestView::FetchFile { path: pull.path })
            }
            &&& !is_awaited(state, pull.peer, pull.path) && state.current is Some ==> {
                &&& after.current == state.current
                &&& after.queue == state.queue.push(pull)
                &&& after.retries == state.retries
                &&& request is None
            }
        }),
{
    law_pending_is_active_or_queued(state, pull.peer, pull.path);
}

/// `after` is the queue once the transfer under way is over, and `request` what
/// is then sent: the first that waits takes its place and is asked for, the
/// others keep their order, and the retries are counted anew.
pub open spec fn is_next(
    before: SyncStateView,
    after: SyncStateView,
    request: Option<SyncRequestView>,
) -> bool {
    &&& after.retries == 0
    &&& before.queue.len() == 0 ==> after.current is None && after.queue.len() == 0 && request
        is None
    &&& before.queue.len() > 0 ==> {
        &&& after.current == Some(before.queue[0])
        &&& after.queue == before.queue.subrange(1, before.queue.len() as int)
        &&& request == Some(SyncRequestView::FetchFile { path: before.queue[0].path })
    }
}

/// Only the end of the transfer under way, from its peer and of its path,
/// starts the next one; any other leaves the queue alone.
pub proof fn law_finished_transfer_makes_way(
    state: SyncStateView,
    peer: Seq<char>,
    path: Seq<char>,
)
    ensures
        ({
            let is_current = state.current is Some && state.current->0.peer == peer
                && state.current->0.path == path;
            let after = state.finished(peer, path);
            let request = state.finish_request(peer, path);
            &&& is_current ==> is_next(state, after, request)
            &&& !is_current ==> after == state && request is None
        }),
{
    if state.queue.len() > 0 {
        assert(state.queue.skip(1) == state.queue.subrange(1, state.queue.len() as int));
    }
}

/// A transfer that failed less than four times is asked for again, and its
/// failures are counted; at the fourth it makes way for the next.
pub proof fn law_failed_transfer_is_tried_again(state: SyncStateView)
    ensures
        state.retries < 3 ==> {
            &&& state.retried().current == state.current
            &&& state.retried().queue == state.queue
            &&& state.retried().retries == state.retries + 1
            &&& state.current is None ==> state.retried().current_request() is None
            &&& state.current is Some ==> state.retried().current_request() == Some(
                SyncRequestView::FetchFile { path: state.current->0.path },
            )
        },
        state.retries >= 3 ==> is_next(
            state,
            state.retried(),
            state.retried().current_request(),
        ),
{
    if state.queue.len() > 0 {
        assert(state.queue.skip(1) == state.queue.subrange(1, state.queue.len() as int));
    }
}

/// Cancelling a peer takes its pulls out of the queue and leaves the others in
/// their order; if the transfer under way was one of them, it makes way for the
/// next, and otherwise goes on as if nothing had happened.
pub proof fn law_cancelled_peer_makes_way(state: SyncStateView, peer: Seq<char>)
    ensures
        ({
            let rest = state.queue.filter(|pull: PullView| pull.peer != peer);
            let without = SyncStateView { queue: rest, ..state };
            let after = state.cancelled(peer);
            let request = state.cancel_request(peer);
            let is_current = state.current is Some && state.current->0.peer == peer;
            &&& is_current ==> is_next(without, after, request)
            &&& !is_current ==> {
                &&& after.current == state.current
                &&& after.queue == rest
                &&& after.retries == state.retries
                &&& request is None
            }
        }),
{
    let others = |pull: PullView| pull.peer != peer;
    assert(from_others(peer) =~= others);
    let rest = state.queue.filter(others);
    if rest.len() > 0 {
        assert(rest.skip(1) == rest.subrange(1, rest.len() as int));
    }
}

/// At the beginning nothing is under way and nothing waits.
pub proof fn law_nothing_is_under_way_at_first()
    ensures
        SyncStateView::idle().current is None,
        SyncStateView::idle().queue.len() == 0,
        SyncStateView::idle().retries == 0,
{
}

} // verus!
