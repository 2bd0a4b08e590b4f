//! The p2p worker: its settings, and what it does with messages and failures.

use std::collections::VecDeque;

use vstd::prelude::*;

use crate::db::EventKind;
use crate::manifest::{Manifest, ManifestView};
use crate::messages::{
    ChangeEventView, FileChangeEvent, SyncRequest, SyncRequestView, SyncResponse, SyncResponseView,
};
use crate::numbers::decimal_text;
use crate::paths::fs_path_from_wire_path;
use crate::peer::PeerId;
use crate::settings::{parse_port, EnvValue};
use crate::sync::{handle_file_response, handle_not_found, ReceivedStep, ReceivedView};
use crate::text::text_eq;
use crate::transfers::{SyncState, SyncStateView};

pub use crate::api::PeerInfo;
pub use crate::discovery::{
    newly_discovered_peers, PeerAction, PeerActionView, PeerEvent, PeerEventView, PeerTracker,
    TrackerView,
};
pub use crate::identity::{load_or_create_identity, Identity, IdentityView};

verus! {

// ---------------------------------------------------------------------------
// Settings
// ---------------------------------------------------------------------------

/// The port on which peers are listened for where none is configured.
pub const DEFAULT_P2P_PORT: u16 = 4001;

/// Seconds between two heartbeats. Well below the idle timeout, so that
/// periodic ping traffic keeps otherwise quiet connections open.
pub const HEARTBEAT_INTERVAL_SECS: u64 = 10;

/// Seconds after which a heartbeat has failed.
pub const HEARTBEAT_TIMEOUT_SECS: u64 = 8;

/// Seconds after which an idle connection is closed.
pub const IDLE_CONNECTION_TIMEOUT_SECS: u64 = 60;

/// Seconds after which a request has failed. Large files on slow links must
/// not time out.
pub const SYNC_REQUEST_TIMEOUT_SECS: u64 = 300;

/// How often a failed request is counted before the count starts anew.
pub const MAX_FETCH_RETRIES: u32 = 5;

/// Stale transfers are aborted after so many seconds without progress.
pub const STALE_TRANSFER_TIMEOUT_SECS: u64 = 600;

/// The name of the file that holds the identity of a node on the given port.
pub open spec fn key_file(port: u16) -> Seq<char> {
    if port == DEFAULT_P2P_PORT {
        "p2p_identity.key"@
    } else {
        "p2p_identity-"@ + crate::numbers::decimal_digits(port as nat) + ".key"@
    }
}

/// The name of the file that holds the identity of a node on the given port.
pub fn key_path(listen_port: u16) -> (name: String)
    ensures
        name@ == key_file(listen_port),
{
    if listen_port == DEFAULT_P2P_PORT {
        "p2p_identity.key".to_string()
    } else {
        let digits: String = decimal_text(listen_port as u64);
        "p2p_identity-".to_string().concat(&digits).concat(".key")
    }
}

/// The port on which peers are listened for: the default where none is
/// configured, an error where the configured one is not valid.
pub fn configured_peer_port(value: EnvValue) -> (port: Result<u16, String>)
    ensures
        match value {
            EnvValue::Present(raw) => match crate::settings::port_number(raw@) {
                Some(number) => port == Ok::<u16, String>(number),
                None => port matches Err(message) && message@ == "Invalid P2P_PORT value: "@
                    + raw@,
            },
            EnvValue::Missing => port == Ok::<u16, String>(DEFAULT_P2P_PORT),
            EnvValue::Unreadable(reason) => port matches Err(message) && message@
                == "Unable to read P2P_PORT: "@ + reason@,
        },
{
    match value {
        EnvValue::Present(raw) => match parse_port(&raw) {
            Some(number) => Ok(number),
            None => Err("Invalid P2P_PORT value: ".to_string().concat(&raw)),
        },
        EnvValue::Missing => Ok(DEFAULT_P2P_PORT),
        EnvValue::Unreadable(reason) => Err(
            "Unable to read P2P_PORT: ".to_string().concat(&reason),
        ),
    }
}

/// The address on which peers are listened for.
pub fn listen_address(listen_port: u16) -> (address: String)
    ensures
        address@ == "/ip4/0.0.0.0/tcp/"@ + crate::numbers::decimal_digits(listen_port as nat),
{
    let digits: String = decimal_text(listen_port as u64);
    "/ip4/0.0.0.0/tcp/".to_string().concat(&digits)
}

// ---------------------------------------------------------------------------
// Requests from peers
// ---------------------------------------------------------------------------

/// What is done about a request from a peer.
#[derive(Debug, Clone)]
pub enum RequestStep {
    /// Answer with the manifest of this node.
    SendManifest,
    /// Answer with the file at `relative`, below the data directory.
    SendFile { path: String, relative: String },
    /// Acknowledge, and apply the change.
    Apply(FileChangeEvent),
}

/// The contents of a [`RequestStep`].
pub enum RequestStepView {
    SendManifest,
    SendFile { path: Seq<char>, relative: Seq<char> },
    Apply(ChangeEventView),
}

impl View for RequestStep {
    type V = RequestStepView;

    open spec fn view(&self) -> RequestStepView {
        match self {
            RequestStep::SendManifest => RequestStepView::SendManifest,
            RequestStep::SendFile { path, relative } => RequestStepView::SendFile {
                path: path@,
                relative: relative@,
            },
            RequestStep::Apply(event) => RequestStepView::Apply(event@),
        }
    }
}

/// What is done about a request from a peer.
pub open spec fn step_for(request: SyncRequestView) -> RequestStepView {
    match request {
        SyncRequestView::Manifest => RequestStepView::SendManifest,
        SyncRequestView::FetchFile { path } => RequestStepView::SendFile {
            path,
            relative: crate::paths::fs_path(path),
        },
        SyncRequestView::Event(event) => RequestStepView::Apply(event),
    }
}

/// Decides what is done about a request from a peer.
pub fn handle_request(request: SyncRequest) -> (step: RequestStep)
    ensures
        step@ == step_for(request@),
{
    match request {
        SyncRequest::Manifest => RequestStep::SendManifest,
        SyncRequest::FetchFile { path } => {
            let relative: String = fs_path_from_wire_path(&path);
            RequestStep::SendFile { path, relative }
        },
        SyncRequest::Event(event) => RequestStep::Apply(event),
    }
}

/// The answer to a request for the manifest: an empty one where it could not
/// be made.
pub fn manifest_response(manifest: Option<Manifest>) -> (response: SyncResponse)
    ensures
        response@ == SyncResponseView::Manifest(
            match manifest {
                Some(m) => m@,
                None => ManifestView { resources: Seq::empty(), tombstones: Seq::empty() },
            },
        ),
{
    match manifest {
        Some(m) => SyncResponse::Manifest(m),
        None => SyncResponse::Manifest(Default::default()),
    }
}

// ---------------------------------------------------------------------------
// Answers from peers
// ---------------------------------------------------------------------------

/// What is done about an answer from a peer.
#[derive(Debug, Clone)]
pub enum ResponseStep {
    /// Compare the manifest with that of this node.
    Reconcile(Manifest),
    /// A file arrived.
    Received(ReceivedStep),
    /// Send the request, if any.
    Send(Option<SyncRequest>),
    Nothing,
}

/// The contents of a [`ResponseStep`].
pub enum ResponseStepView {
    Reconcile(ManifestView),
    Received(ReceivedView),
    Send(Option<SyncRequestView>),
    Nothing,
}

impl View for ResponseStep {
    type V = ResponseStepView;

    open spec fn view(&self) -> ResponseStepView {
        match self {
            ResponseStep::Reconcile(manifest) => ResponseStepView::Reconcile(manifest@),
            ResponseStep::Received(step) => ResponseStepView::Received(step@),
            ResponseStep::Send(request) => ResponseStepView::Send(
                crate::messages::requested(*request),
            ),
            ResponseStep::Nothing => ResponseStepView::Nothing,
        }
    }
}

/// What is done about an answer, where a file in it has the CRC-32 `sum`.
pub open spec fn response_step(
    state: SyncStateView,
    response: SyncResponseView,
    sum: u32,
) -> ResponseStepView {
    match response {
        SyncResponseView::Manifest(manifest) => ResponseStepView::Reconcile(manifest),
        SyncResponseView::File { path, data, checksum } => match state.current {
            Some(pull) => ResponseStepView::Received(
                crate::sync::received(
                    state,
                    path,
                    data,
                    checksum,
                    sum,
                    pull.event_kind,
                    pull.username,
                ),
            ),
            None => ResponseStepView::Nothing,
        },
        SyncResponseView::NotFound { .. } => ResponseStepView::Send(
            state.retried().current_request(),
        ),
        SyncResponseView::Ack => ResponseStepView::Nothing,
    }
}

/// The transfer queue after an answer, where a file in it has the CRC-32 `sum`.
pub open spec fn after_response(
    state: SyncStateView,
    response: SyncResponseView,
    sum: u32,
) -> SyncStateView {
    match response {
        SyncResponseView::File { checksum, .. } => if state.current is Some {
            crate::sync::after_received(state, checksum, sum)
        } else {
            state
        },
        SyncResponseView::NotFound { .. } => state.retried(),
        _ => state,
    }
}

/// The CRC-32 of the file in an answer; zero where it holds none.
pub open spec fn response_sum(response: SyncResponseView) -> u32 {
    match response {
        SyncResponseView::File { data, .. } => crate::checksum::crc32(data),
        _ => 0,
    }
}

/// Decides what is done about an answer from a peer. A file is taken for the
/// one that the active transfer asked for; without an active transfer it is
/// ignored.
pub fn handle_response(state: &mut SyncState, peer: &PeerId, response: SyncResponse) -> (step:
    ResponseStep)
    ensures
        step@ == response_step(old(state)@, response@, response_sum(response@)),
        final(state)@ == after_response(old(state)@, response@, response_sum(response@)),
        old(state)@.wf() ==> final(state)@.wf(),
{
    match response {
        SyncResponse::Manifest(manifest) => ResponseStep::Reconcile(manifest),
        SyncResponse::File { path, data, checksum } => match state.current_transfer_info() {
            Some((event_kind, username)) => ResponseStep::Received(
                handle_file_response(state, path, data, checksum, event_kind, username),
            ),
            None => ResponseStep::Nothing,
        },
        SyncResponse::NotFound { path } => ResponseStep::Send(
            handle_not_found(state, peer, &path),
        ),
        SyncResponse::Ack => ResponseStep::Nothing,
    }
}

// ---------------------------------------------------------------------------
// Failed requests
// ---------------------------------------------------------------------------

/// A request for a file that was sent, and how often it failed since it was
/// first sent or last started anew.
#[derive(Debug, Clone)]
pub struct SentFetch {
    pub peer: PeerId,
    pub path: String,
    pub attempts: u32,
}

/// The contents of a [`SentFetch`].
pub struct SentView {
    pub peer: Seq<char>,
    pub path: Seq<char>,
    pub attempts: u32,
}

impl View for SentFetch {
    type V = SentView;

    open spec fn view(&self) -> SentView {
        SentView { peer: self.peer@, path: self.path@, attempts: self.attempts }
    }
}

impl SentView {
    /// The failures stay below the number at which the count starts anew.
    pub open spec fn wf(self) -> bool {
        self.attempts < MAX_FETCH_RETRIES
    }
}

/// The contents of an optional request that was sent.
pub open spec fn sent_view(sent: Option<SentFetch>) -> Option<SentView> {
    match sent {
        Some(fetch) => Some(fetch@),
        None => None,
    }
}

/// The request that is sent again after one failed: none where the request is
/// not known or its transfer no longer pending.
pub open spec fn resent(state: SyncStateView, sent: Option<SentView>) -> Option<SentView> {
    match sent {
        Some(fetch) => if state.pending(fetch.peer, fetch.path) {
            Some(
                SentView {
                    attempts: if fetch.attempts + 1 >= MAX_FETCH_RETRIES {
                        0
                    } else {
                        (fetch.attempts + 1) as u32
                    },
                    ..fetch
                },
            )
        } else {
            None
        },
        None => None,
    }
}

impl SentFetch {
    /// A request that was sent for the first time.
    pub fn new(peer: PeerId, path: String) -> (fetch: SentFetch)
        ensures
            fetch@ == (SentView { peer: peer@, path: path@, attempts: 0 }),
            fetch@.wf(),
    {
        SentFetch { peer, path, attempts: 0 }
    }

    /// The request to send.
    pub fn request(&self) -> (request: SyncRequest)
        ensures
            request@ == (SyncRequestView::FetchFile { path: self@.path }),
    {
        SyncRequest::FetchFile { path: self.path.clone() }
    }
}

/// Decides what is sent again after a request failed. After too many failures
/// the transfer is started anew instead of being given up.
pub fn fetch_failed(state: &SyncState, sent: Option<SentFetch>) -> (again: Option<
    SentFetch,
>)
    ensures
        sent_view(again) == resent(state@, sent_view(sent)),
        again matches Some(fetch) ==> fetch@.wf(),
{
    match sent {
        Some(fetch) => {
            if !state.is_pending(&fetch.peer, &fetch.path) {
                return None;
            }
            let attempts: u32 = if fetch.attempts >= MAX_FETCH_RETRIES - 1 {
                0
            } else {
                fetch.attempts + 1
            };
            Some(SentFetch { peer: fetch.peer, path: fetch.path, attempts })
        },
        None => None,
    }
}

// ---------------------------------------------------------------------------
// Requests that wait to be sent
// ---------------------------------------------------------------------------

/// The paths in a list of texts.
spec fn path_texts(paths: Seq<String>) -> Seq<Seq<char>> {
    paths.map_values(|p: String| p@)
}

/// The paths of the files that are to be asked for, in the order in which the
/// requests came.
pub struct FetchQueue {
    paths: VecDeque<String>,
}

impl View for FetchQueue {
    type V = Seq<Seq<char>>;

    closed spec fn view(&self) -> Seq<Seq<char>> {
        path_texts(self.paths@)
    }
}

/// A queue with one request more, if there is one and it asks for a file.
pub open spec fn with_request(
    queue: Seq<Seq<char>>,
    request: Option<SyncRequestView>,
) -> Seq<Seq<char>> {
    match request {
        Some(SyncRequestView::FetchFile { path }) => queue.push(path),
        _ => queue,
    }
}

/// To whom a request for a file is sent, of the peers that are connected: the
/// one from which the active transfer fetches that file, or else the one that
/// has been connected for longest.
pub open spec fn addressee(
    state: SyncStateView,
    connected: Seq<Seq<char>>,
    path: Seq<char>,
) -> Seq<char> {
    match state.current {
        Some(pull) => if pull.path == path && connected.contains(pull.peer) {
            pull.peer
        } else {
            connected[0]
        },
        None => connected[0],
    }
}

/// The request that is to be sent now: the first that waits, once any peer is
/// connected.
pub open spec fn due(
    queue: Seq<Seq<char>>,
    state: SyncStateView,
    peers: TrackerView,
) -> Option<SentView> {
    if queue.len() > 0 && peers.connected.len() > 0 {
        Some(
            SentView {
                peer: addressee(state, peers.connected, queue[0]),
                path: queue[0],
                attempts: 0,
            },
        )
    } else {
        None
    }
}

/// The requests that wait after one was sent. With no peer connected they all
/// go on waiting.
pub open spec fn still_waiting(queue: Seq<Seq<char>>, peers: TrackerView) -> Seq<Seq<char>> {
    if queue.len() > 0 && peers.connected.len() > 0 {
        queue.skip(1)
    } else {
        queue
    }
}

impl FetchQueue {
    /// A queue in which nothing waits.
    pub fn new() -> (queue: FetchQueue)
        ensures
            queue@ == Seq::<Seq<char>>::empty(),
    {
        FetchQueue { paths: VecDeque::new() }
    }

    /// Takes in a request, if there is one and it asks for a file.
    pub fn push(&mut self, request: Option<SyncRequest>)
        ensures
            final(self)@ == with_request(old(self)@, crate::messages::requested(request)),
    {
        if let Some(SyncRequest::FetchFile { path }) = request {
            let ghost before = self@;
            let ghost added = path@;
            self.paths.push_back(path);
            assert(self@ == before.push(added));
        }
    }

    /// Takes out the request that is to be sent now, and says to whom. Where
    /// no peer is connected (a reconnect may be in progress), the requests wait
    /// until one is.
    pub fn due_fetch(&mut self, state: &SyncState, peers: &PeerTracker) -> (fetch: Option<
        SentFetch,
    >)
        ensures
            sent_view(fetch) == due(old(self)@, state@, peers@),
            final(self)@ == still_waiting(old(self)@, peers@),
            fetch matches Some(f) ==> f@.wf(),
    {
        let mut connected: Vec<PeerId> = peers.announcement_targets();
        let ghost known = connected@;
        assert(crate::peer::peer_texts(known).len() == known.len());
        if connected.len() == 0 {
            return None;
        }
        let ghost before = self@;
        match self.paths.pop_front() {
            Some(path) => {
                assert(path@ == before[0]);
                assert(self@ == before.skip(1));
                if let Some((active, peer)) = state.current_transfer_source() {
                    if text_eq(&active, &path) && peers.is_connected(&peer) {
                        return Some(SentFetch::new(peer, path));
                    }
                }
                assert(crate::peer::peer_texts(known)[0] == known[0]@);
                let first: PeerId = connected.swap_remove(0);
                Some(SentFetch::new(first, path))
            },
            None => None,
        }
    }
}

// ---------------------------------------------------------------------------
// Stale transfers
// ---------------------------------------------------------------------------

/// The active transfer has made no progress for too long.
pub open spec fn is_stale(state: SyncStateView, idle_secs: u64) -> bool {
    state.current is Some && idle_secs >= STALE_TRANSFER_TIMEOUT_SECS
}

/// The transfer queue after stale transfers were aborted.
pub open spec fn without_stale(state: SyncStateView, idle_secs: u64) -> SyncStateView {
    if is_stale(state, idle_secs) {
        state.advanced()
    } else {
        state
    }
}

/// Aborts the active transfer if it has made no progress for too long, and
/// starts the next one, whose request then waits to be sent. Returns the number
/// of transfers aborted.
pub fn cleanup_stale_transfers(state: &mut SyncState, queue: &mut FetchQueue, idle_secs: u64) -> (
    removed: usize)
    ensures
        final(state)@ == without_stale(old(state)@, idle_secs),
        final(queue)@ == if is_stale(old(state)@, idle_secs) {
            with_request(old(queue)@, without_stale(old(state)@, idle_secs).current_request())
        } else {
            old(queue)@
        },
        removed == if is_stale(old(state)@, idle_secs) {
            1usize
        } else {
            0usize
        },
        old(state)@.wf() ==> final(state)@.wf(),
{
    if idle_secs < STALE_TRANSFER_TIMEOUT_SECS {
        return 0;
    }
    match state.current_transfer_source() {
        Some((path, peer)) => {
            queue.push(state.finish_transfer(&peer, &path));
            1
        },
        None => 0,
    }
}

// ---------------------------------------------------------------------------
// Status
// ---------------------------------------------------------------------------

/// The transfer that is going on.
#[derive(Debug, Clone)]
pub struct P2pTransferInfo {
    pub path: String,
    pub peer_id: String,
    pub event_kind: String,
    pub progress_bytes: u64,
    pub total_bytes: u64,
    pub username: String,
}

/// The contents of a [`P2pTransferInfo`].
pub struct TransferInfoView {
    pub path: Seq<char>,
    pub peer_id: Seq<char>,
    pub event_kind: Seq<char>,
    pub progress_bytes: u64,
    pub total_bytes: u64,
    pub username: Seq<char>,
}

impl View for P2pTransferInfo {
    type V = TransferInfoView;

    open spec fn view(&self) -> TransferInfoView {
        TransferInfoView {
            path: self.path@,
            peer_id: self.peer_id@,
            event_kind: self.event_kind@,
            progress_bytes: self.progress_bytes,
            total_bytes: self.total_bytes,
            username: self.username@,
        }
    }
}

/// What the p2p worker is doing.
#[derive(Debug, Clone)]
pub struct P2pStatus {
    pub is_syncing: bool,
    pub current_transfer: Option<P2pTransferInfo>,
    pub queue_length: usize,
    pub peers_connected: usize,
}

/// The contents of a [`P2pStatus`].
pub struct P2pStatusView {
    pub is_syncing: bool,
    pub current_transfer: Option<TransferInfoView>,
    pub queue_length: usize,
    pub peers_connected: usize,
}

impl View for P2pStatus {
    type V = P2pStatusView;

    open spec fn view(&self) -> P2pStatusView {
        P2pStatusView {
            is_syncing: self.is_syncing,
            current_transfer: match self.current_transfer {
                Some(info) => Some(info@),
                None => None,
            },
            queue_length: self.queue_length,
            peers_connected: self.peers_connected,
        }
    }
}

/// What the p2p worker is doing. A file arrives as a whole, so that a transfer
/// has no progress until it is over.
pub fn worker_status(state: &SyncState, peers: &PeerTracker) -> (status: P2pStatus)
    ensures
        status.is_syncing == (state@.current is Some),
        status.queue_length == state@.queue.len(),
        status.peers_connected == peers@.connected.len(),
        status@.current_transfer == match state@.current {
            Some(pull) => Some(
                TransferInfoView {
                    path: pull.path,
                    peer_id: pull.peer,
                    event_kind: pull.event_kind.name(),
                    progress_bytes: 0,
                    total_bytes: 0,
                    username: pull.username,
                },
            ),
            None => None,
        },
{
    let current_transfer: Option<P2pTransferInfo> = match (
        state.current_transfer_source(),
        state.current_transfer_info(),
    ) {
        (Some((path, peer)), Some((event_kind, username))) => Some(
            P2pTransferInfo {
                path,
                peer_id: peer.text().to_string(),
                event_kind: kind_text(event_kind),
                progress_bytes: 0,
                total_bytes: 0,
                username,
            },
        ),
        _ => None,
    };
    P2pStatus {
        is_syncing: state.is_busy(),
        current_transfer,
        queue_length: state.queue_len(),
        peers_connected: peers.connected_len(),
    }
}

fn kind_text(kind: EventKind) -> (text: String)
    ensures
        text@ == kind.name(),
{
    kind.as_str().to_string()
}

// ---------------------------------------------------------------------------
// Laws
// ---------------------------------------------------------------------------

/// Nodes on different ports keep their identities in different files.
pub proof fn law_key_files_are_distinct(a: u16, b: u16)
    ensures
        key_file(a) == key_file(b) <==> a == b,
{
    reveal_strlit("p2p_identity.key");
    reveal_strlit("p2p_identity-");
    reveal_strlit(".key");
    let digits_a = crate::numbers::decimal_digits(a as nat);
    let digits_b = crate::numbers::decimal_digits(b as nat);
    crate::numbers::law_decimal_round_trip(a as nat);
    crate::numbers::law_decimal_round_trip(b as nat);
    let named_a = "p2p_identity-"@ + digits_a + ".key"@;
    let named_b = "p2p_identity-"@ + digits_b + ".key"@;
    assert("p2p_identity-"@.len() == 13 && ".key"@.len() == 4 && "p2p_identity.key"@.len() == 16);
    assert(named_a[12] == '-' && named_b[12] == '-' && "p2p_identity.key"@[12] == '.');
    assert(named_a.subrange(13, named_a.len() - 4) == digits_a);
    assert(named_b.subrange(13, named_b.len() - 4) == digits_b);
}

/// A request is sent only to a connected peer, and while any peer is connected
/// none waits: the first is sent, to the peer of the active transfer where that
/// one fetches the file and its peer is connected, and the others keep their
/// order.
pub proof fn law_first_request_is_sent_to_a_connected_peer(
    queue: Seq<Seq<char>>,
    state: SyncStateView,
    peers: TrackerView,
)
    ensures
        due(queue, state, peers) is Some <==> queue.len() > 0 && peers.connected.len() > 0,
        due(queue, state, peers) matches Some(fetch) ==> {
            &&& peers.connected.contains(fetch.peer)
            &&& queue == seq![fetch.path] + still_waiting(queue, peers)
            &&& state.current matches Some(pull) ==> (pull.path == fetch.path
                && peers.connected.contains(pull.peer) ==> state.active(fetch.peer, fetch.path))
        },
        due(queue, state, peers) is None ==> still_waiting(queue, peers) == queue,
{
    if queue.len() > 0 && peers.connected.len() > 0 {
        assert(peers.connected.contains(peers.connected[0]));
        assert(queue == seq![queue[0]] + queue.skip(1));
    }
}

/// A request that finds no peer connected is not lost: it is sent as soon as
/// one connects, whichever that is.
pub proof fn law_waiting_request_is_sent_on_connection(
    queue: Seq<Seq<char>>,
    state: SyncStateView,
    peers: TrackerView,
    peer: Seq<char>,
)
    requires
        queue.len() > 0,
        peers.connected.len() == 0,
    ensures
        still_waiting(queue, peers) == queue,
        due(queue, state, peers.after(PeerEventView::ConnectionEstablished(peer))) == Some(
            SentView { peer, path: queue[0], attempts: 0 },
        ),
{
    assert(peers.after(PeerEventView::ConnectionEstablished(peer)).connected == seq![peer]);
    crate::discovery::law_connected_peer_is_reconciled(peers, peer);
}

/// A failed request is sent again for as long as its transfer is pending: the
/// transfer is not given up.
pub proof fn law_pending_fetch_is_resent(state: SyncStateView, fetch: SentView)
    ensures
        resent(state, Some(fetch)) is Some <==> state.pending(fetch.peer, fetch.path),
        resent(state, Some(fetch)) matches Some(again) ==> again.wf() && again.peer == fetch.peer
            && again.path == fetch.path,
{
}

/// An answer never adds a transfer, and an acknowledgement or a manifest
/// leaves the queue alone.
pub proof fn law_answers_add_no_transfer(
    state: SyncStateView,
    response: SyncResponseView,
    sum: u32,
    peer: Seq<char>,
    path: Seq<char>,
)
    ensures
        after_response(state, response, sum).pending(peer, path) ==> state.pending(peer, path),
        response is Ack || response is Manifest ==> after_response(state, response, sum) == state,
{
    crate::transfers::law_ending_adds_no_transfer(state, peer, path);
}

/// A request for the manifest is answered with it, one for a file with the file
/// that its path names, and a change that is announced is applied, as it came.
pub proof fn law_requests_are_answered_in_kind(request: SyncRequestView)
    ensures
        request is Manifest <==> step_for(request) is SendManifest,
        request matches SyncRequestView::FetchFile { path } ==> step_for(request)
            == (RequestStepView::SendFile { path, relative: crate::paths::fs_path(path) }),
        request matches SyncRequestView::Event(event) ==> step_for(request)
            == RequestStepView::Apply(event),
{
}

/// A manifest is reconciled as it came. A file is taken for the one that the
/// transfer under way asked for, and ignored without one; that a file is
/// missing counts as a failure of that transfer; an acknowledgement changes
/// nothing.
pub proof fn law_answers_go_to_the_active_transfer(
    state: SyncStateView,
    response: SyncResponseView,
)
    ensures
        ({
            let sum = response_sum(response);
            let step = response_step(state, response, sum);
            let after = after_response(state, response, sum);
            &&& response matches SyncResponseView::Manifest(manifest) ==> after == state && step
                == ResponseStepView::Reconcile(manifest)
            &&& response is Ack ==> after == state && step is Nothing
            &&& response is NotFound ==> after == state.retried() && step
                == ResponseStepView::Send(state.retried().current_request())
            &&& response is File && state.current is None ==> after == state && step is Nothing
            &&& response matches SyncResponseView::File { path, data, checksum } ==> (
            state.current matches Some(pull) ==> {
                &&& sum == crate::checksum::crc32(data)
                &&& after == crate::sync::after_received(state, checksum, sum)
                &&& step == ResponseStepView::Received(
                    crate::sync::received(
                        state,
                        path,
                        data,
                        checksum,
                        sum,
                        pull.event_kind,
                        pull.username,
                    ),
                )
            })
        }),
{
}

/// A failed request is sent again to the same peer for the same file, for as
/// long as that pull is awaited; each failure is counted, and at the fifth the
/// count starts anew. Any other is forgotten.
pub proof fn law_failures_are_counted_to_five(state: SyncStateView, sent: Option<SentView>)
    ensures
        sent is None ==> resent(state, sent) is None,
        sent matches Some(fetch) ==> {
            let awaited = crate::transfers::is_awaited(state, fetch.peer, fetch.path);
            &&& !awaited ==> resent(state, sent) is None
            &&& awaited ==> (resent(state, sent) matches Some(again) && {
                &&& again.peer == fetch.peer
                &&& again.path == fetch.path
                &&& fetch.attempts < 4 ==> again.attempts == fetch.attempts + 1
                &&& fetch.attempts >= 4 ==> again.attempts == 0
            })
        },
{
    if let Some(fetch) = sent {
        crate::transfers::law_pending_is_active_or_queued(state, fetch.peer, fetch.path);
    }
}

/// Requests for files wait in the order in which they came; other requests do
/// not wait here.
pub proof fn law_requests_wait_in_order(queue: Seq<Seq<char>>, request: Option<SyncRequestView>)
    ensures
        request matches Some(SyncRequestView::FetchFile { path }) ==> with_request(queue, request)
            == queue + seq![path],
        request is None || request->0 is Manifest || request->0 is Event ==> with_request(
            queue,
            request,
        ) == queue,
{
    if let Some(SyncRequestView::FetchFile { path }) = request {
        assert(queue.push(path) =~= queue + seq![path]);
    }
}

/// A request that is sent is new, and for the first path that waits.
pub proof fn law_sent_request_is_the_first_that_waits(
    queue: Seq<Seq<char>>,
    state: SyncStateView,
    peers: TrackerView,
)
    ensures
        due(queue, state, peers) matches Some(fetch) ==> fetch.path == queue[0] && fetch.attempts
            == 0,
        due(queue, state, peers) matches Some(fetch) ==> {
            let own = state.current is Some && state.current->0.path == queue[0]
                && peers.connected.contains(state.current->0.peer);
            &&& own ==> fetch.peer == state.current->0.peer
            &&& !own ==> fetch.peer == peers.connected[0]
        },
{
}

/// A transfer is given up after ten minutes without progress, and makes way
/// for the next; before that, and without a transfer, nothing happens.
pub proof fn law_stale_transfer_makes_way(state: SyncStateView, idle_secs: u64)
    ensures
        state.current is Some && idle_secs >= 600 ==> is_stale(state, idle_secs)
            && crate::transfers::is_next(
            state,
            without_stale(state, idle_secs),
            without_stale(state, idle_secs).current_request(),
        ),
        state.current is None || idle_secs < 600 ==> !is_stale(state, idle_secs) && without_stale(
            state,
            idle_secs,
        ) == state,
{
    if state.queue.len() > 0 {
        assert(state.queue.skip(1) == state.queue.subrange(1, state.queue.len() as int));
    }
}

/// Steps, requests that were sent and the status are seen with all that they
/// hold.
pub proof fn law_worker_steps_tell_all(
    step: RequestStep,
    answer: ResponseStep,
    sent: SentFetch,
    info: P2pTransferInfo,
)
    ensures
        step is SendManifest <==> step@ is SendManifest,
        step matches RequestStep::SendFile { path, relative } ==> step@
            == (RequestStepView::SendFile { path: path@, relative: relative@ }),
        step matches RequestStep::Apply(event) ==> step@ == RequestStepView::Apply(event@),
        answer matches ResponseStep::Reconcile(m) ==> answer@ == ResponseStepView::Reconcile(m@),
        answer matches ResponseStep::Received(r) ==> answer@ == ResponseStepView::Received(r@),
        answer matches ResponseStep::Send(None) ==> answer@ == ResponseStepView::Send(None),
        answer matches ResponseStep::Send(Some(r)) ==> answer@ == ResponseStepView::Send(Some(r@)),
        answer is Nothing <==> answer@ is Nothing,
        sent@.peer == sent.peer@,
        sent@.path == sent.path@,
        sent@.attempts == sent.attempts,
        sent_view(Some(sent)) == Some(sent@),
        sent_view(None) is None,
        info@.path == info.path@,
        info@.peer_id == info.peer_id@,
        info@.event_kind == info.event_kind@,
        info@.progress_bytes == info.progress_bytes,
        info@.total_bytes == info.total_bytes,
        info@.username == info.username@,
{
}

/// The identity of a node on the usual port is in a file of its own; on any
/// other port the name of the file tells the port.
pub proof fn law_key_file_tells_the_port(port: u16)
    ensures
        port == 4001 ==> key_file(port) == "p2p_identity.key"@,
        port != 4001 ==> {
            let name = key_file(port);
            let digits = name.subrange(13, name.len() - 4);
            &&& name.len() > 17
            &&& name.take(13) == "p2p_identity-"@
            &&& name.skip(name.len() - 4) == ".key"@
            &&& crate::numbers::unsigned_value(digits) == Some(port as nat)
        },
{
    reveal_strlit("p2p_identity-");
    reveal_strlit(".key");
    let digits = crate::numbers::decimal_digits(port as nat);
    crate::numbers::law_decimal_round_trip(port as nat);
    crate::numbers::law_decimal_digits_are_canonical(port as nat, 0);
    assert("p2p_identity-"@.len() == 13 && ".key"@.len() == 4);
    if port != 4001 {
        let name = key_file(port);
        assert(name.take(13) =~= "p2p_identity-"@);
        assert(name.skip(name.len() - 4) =~= ".key"@);
        assert(name.subrange(13, name.len() - 4) =~= digits);
    }
}

} // verus!
