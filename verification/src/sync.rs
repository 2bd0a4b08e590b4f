//! Peer-to-peer file replication.
//!
//! - One file transfers at a time globally (no parallel transfers)
//! - Files are transferred in their entirety (no chunking)
//! - Manifest-based reconciliation decides what to pull/delete
//! - Simple request/response between peers
//!
//! The functions of this module decide; what they ask for on disk and on the
//! network is done by the caller, who hands back how it went.

use vstd::prelude::*;

use crate::checksum::crc32_of;
use crate::db::{EnvelopeView, EventEnvelope, EventKind};
use crate::numbers::hex_text;
use crate::paths::{fs_path_from_wire_path, normalize_wire_path};
use crate::peer::PeerId;
use crate::text::{copy_optional, text_eq};

pub use crate::messages::{
    ChangeEventView, FileChangeEvent, SyncRequest, SyncRequestView, SyncResponse, SyncResponseView,
};
pub use crate::reconcile::{diff_manifests, SyncAction, SyncActionView};
pub use crate::transfers::{PullView, SyncState, SyncStateView};

verus! {

// ---------------------------------------------------------------------------
// Work on the file system
// ---------------------------------------------------------------------------

/// Work on the file system. Paths are relative to the data directory.
#[derive(Debug, Clone)]
pub enum FileEffect {
    /// Delete a file, or a directory with all that it holds; what is not there
    /// counts as deleted.
    Delete { path: String },
    /// Create a directory and its parents.
    CreateDir { path: String },
    /// Move a file, after creating the parents of its new place.
    Rename { from: String, to: String },
    /// Copy a file, after creating the parents of the copy.
    Copy { from: String, to: String },
}

/// The contents of a [`FileEffect`].
pub enum EffectView {
    Delete { path: Seq<char> },
    CreateDir { path: Seq<char> },
    Rename { from: Seq<char>, to: Seq<char> },
    Copy { from: Seq<char>, to: Seq<char> },
}

impl View for FileEffect {
    type V = EffectView;

    open spec fn view(&self) -> EffectView {
        match self {
            FileEffect::Delete { path } => EffectView::Delete { path: path@ },
            FileEffect::CreateDir { path } => EffectView::CreateDir { path: path@ },
            FileEffect::Rename { from, to } => EffectView::Rename { from: from@, to: to@ },
            FileEffect::Copy { from, to } => EffectView::Copy { from: from@, to: to@ },
        }
    }
}

/// Work on the file system and the event that is recorded once it is done; if
/// the work fails, nothing is recorded.
#[derive(Debug, Clone)]
pub struct LoggedEffect {
    pub effect: FileEffect,
    pub record: EventEnvelope,
}

/// The contents of a [`LoggedEffect`].
pub struct LoggedView {
    pub effect: EffectView,
    pub record: EnvelopeView,
}

impl View for LoggedEffect {
    type V = LoggedView;

    open spec fn view(&self) -> LoggedView {
        LoggedView { effect: self.effect@, record: self.record@ }
    }
}

/// The contents of a list of effects.
pub open spec fn logged_views(effects: Seq<LoggedEffect>) -> Seq<LoggedView> {
    effects.map_values(|e: LoggedEffect| e@)
}

/// What was found at a path that is to be deleted.
#[derive(Debug, Clone, Copy, PartialEq, Eq, Structural)]
pub enum FoundOnDisk {
    Directory,
    File,
    Missing,
    Unreadable,
}

/// How a path is deleted.
#[derive(Debug, Clone, Copy, PartialEq, Eq, Structural)]
pub enum DeleteStep {
    RemoveTree,
    RemoveFile,
    Nothing,
    Fail,
}

/// Decides how a path is deleted: a directory with all that it holds; a
/// missing path counts as deleted.
pub fn apply_delete(found: FoundOnDisk) -> (step: DeleteStep)
    ensures
        step == match found {
            FoundOnDisk::Directory => DeleteStep::RemoveTree,
            FoundOnDisk::File => DeleteStep::RemoveFile,
            FoundOnDisk::Missing => DeleteStep::Nothing,
            FoundOnDisk::Unreadable => DeleteStep::Fail,
        },
{
    match found {
        FoundOnDisk::Directory => DeleteStep::RemoveTree,
        FoundOnDisk::File => DeleteStep::RemoveFile,
        FoundOnDisk::Missing => DeleteStep::Nothing,
        FoundOnDisk::Unreadable => DeleteStep::Fail,
    }
}

/// The event that is recorded for a change that came from a peer.
pub open spec fn peer_record(
    event_kind: EventKind,
    source_path: Seq<char>,
    destination_path: Option<Seq<char>>,
    checksum: Option<Seq<char>>,
    username: Seq<char>,
) -> EnvelopeView {
    EnvelopeView {
        event_kind,
        source_path,
        destination_path,
        checksum,
        method: "P2P"@,
        status_code: 200,
        username,
    }
}

fn peer_envelope(
    event_kind: EventKind,
    source_path: String,
    destination_path: Option<String>,
    checksum: Option<String>,
    username: String,
) -> (record: EventEnvelope)
    ensures
        record@ == peer_record(
            event_kind,
            source_path@,
            crate::text::optional_text(destination_path),
            crate::text::optional_text(checksum),
            username@,
        ),
{
    EventEnvelope {
        event_kind,
        source_path,
        destination_path,
        checksum,
        method: "P2P".to_string(),
        status_code: 200,
        username,
    }
}

// ---------------------------------------------------------------------------
// Incoming events
// ---------------------------------------------------------------------------

/// A rename, move or copy that a peer announced: done locally if its source is
/// there, pulled from the peer otherwise.
#[derive(Debug, Clone)]
pub struct Relocation {
    /// The path whose existence decides.
    pub source: String,
    pub local: LoggedEffect,
    pub peer: PeerId,
    pub target: String,
    pub checksum: Option<String>,
}

/// The contents of a [`Relocation`].
pub struct RelocationView {
    pub source: Seq<char>,
    pub local: LoggedView,
    pub peer: Seq<char>,
    pub target: Seq<char>,
    pub checksum: Option<Seq<char>>,
}

impl View for Relocation {
    type V = RelocationView;

    open spec fn view(&self) -> RelocationView {
        RelocationView {
            source: self.source@,
            local: self.local@,
            peer: self.peer@,
            target: self.target@,
            checksum: crate::text::optional_text(self.checksum),
        }
    }
}

impl RelocationView {
    /// The pull that takes the place of the local work.
    pub open spec fn pull(self) -> PullView {
        PullView {
            peer: self.peer,
            path: self.target,
            event_kind: self.local.record.event_kind,
            username: self.local.record.username,
        }
    }
}

/// What is to be done next about an incoming event.
#[derive(Debug, Clone)]
pub enum IncomingStep {
    /// Do the work; record the event if it succeeds, fail if it does not.
    Perform(LoggedEffect),
    /// Find out whether the source exists and go on with [`relocate`].
    Probe(Relocation),
    /// Nothing is left to do but to send the request, if any.
    Done(Option<SyncRequest>),
}

/// The contents of an [`IncomingStep`].
pub enum IncomingView {
    Perform(LoggedView),
    Probe(RelocationView),
    Done(Option<SyncRequestView>),
}

impl View for IncomingStep {
    type V = IncomingView;

    open spec fn view(&self) -> IncomingView {
        match self {
            IncomingStep::Perform(work) => IncomingView::Perform(work@),
            IncomingStep::Probe(relocation) => IncomingView::Probe(relocation@),
            IncomingStep::Done(request) => IncomingView::Done(
                crate::messages::requested(*request),
            ),
        }
    }
}

/// The path at which a change ends.
pub open spec fn target_of(event: ChangeEventView) -> Seq<char> {
    match event.destination_path {
        Some(path) => crate::paths::wire_path(path),
        None => crate::paths::wire_path(event.source_path),
    }
}

/// The normalised destination of a change.
pub open spec fn normalized_destination(event: ChangeEventView) -> Option<Seq<char>> {
    match event.destination_path {
        Some(path) => Some(crate::paths::wire_path(path)),
        None => None,
    }
}

/// The pull that fetches the path of a change.
pub open spec fn pull_of(peer: Seq<char>, event: ChangeEventView) -> PullView {
    PullView {
        peer,
        path: crate::paths::wire_path(event.source_path),
        event_kind: event.event_kind,
        username: event.username,
    }
}

/// The first step for an incoming event.
pub open spec fn incoming_step(
    state: SyncStateView,
    peer: Seq<char>,
    event: ChangeEventView,
) -> IncomingView {
    let source = crate::paths::wire_path(event.source_path);
    let target = target_of(event);
    let from = crate::paths::fs_path(source);
    let to = crate::paths::fs_path(target);
    match event.event_kind {
        EventKind::Deleted => IncomingView::Perform(
            LoggedView {
                effect: EffectView::Delete { path: from },
                record: peer_record(EventKind::Deleted, source, None, None, event.username),
            },
        ),
        EventKind::DirCreated => IncomingView::Perform(
            LoggedView {
                effect: EffectView::CreateDir { path: from },
                record: peer_record(EventKind::DirCreated, source, None, None, event.username),
            },
        ),
        EventKind::Renamed | EventKind::Moved | EventKind::Copied => IncomingView::Probe(
            RelocationView {
                source: from,
                local: LoggedView {
                    effect: if event.event_kind == EventKind::Copied {
                        EffectView::Copy { from, to }
                    } else {
                        EffectView::Rename { from, to }
                    },
                    record: peer_record(
                        event.event_kind,
                        source,
                        normalized_destination(event),
                        event.checksum,
                        event.username,
                    ),
                },
                peer,
                target,
                checksum: event.checksum,
            },
        ),
        EventKind::Created | EventKind::Edited => IncomingView::Done(
            state.start_request(pull_of(peer, event)),
        ),
    }
}

/// The transfer queue after the first step for an incoming event.
pub open spec fn after_incoming(
    state: SyncStateView,
    peer: Seq<char>,
    event: ChangeEventView,
) -> SyncStateView {
    match event.event_kind {
        EventKind::Created | EventKind::Edited => state.started(pull_of(peer, event)),
        _ => state,
    }
}

/// Decides what is to be done about a change that a peer announced.
pub fn handle_incoming_event(
    data_dir: &str,
    state: &mut SyncState,
    peer: PeerId,
    event: FileChangeEvent,
) -> (step: IncomingStep)
    ensures
        step@ == incoming_step(old(state)@, peer@, event@),
        final(state)@ == after_incoming(old(state)@, peer@, event@),
        old(state)@.wf() ==> final(state)@.wf(),
{
    let source_path: String = normalize_wire_path(&event.source_path);
    let destination_path: Option<String> = match &event.destination_path {
        Some(path) => Some(normalize_wire_path(path)),
        None => None,
    };
    match event.event_kind {
        EventKind::Deleted => {
            let path: String = fs_path_from_wire_path(&source_path);
            IncomingStep::Perform(
                LoggedEffect {
                    effect: FileEffect::Delete { path },
                    record: peer_envelope(
                        EventKind::Deleted,
                        source_path,
                        None,
                        None,
                        event.username,
                    ),
                },
            )
        },
        EventKind::DirCreated => {
            let path: String = fs_path_from_wire_path(&source_path);
            IncomingStep::Perform(
                LoggedEffect {
                    effect: FileEffect::CreateDir { path },
                    record: peer_envelope(
                        EventKind::DirCreated,
                        source_path,
                        None,
                        None,
                        event.username,
                    ),
                },
            )
        },
        EventKind::Renamed | EventKind::Moved | EventKind::Copied => {
            let target: String = match &destination_path {
                Some(path) => path.clone(),
                None => source_path.clone(),
            };
            let from: String = fs_path_from_wire_path(&source_path);
            let to: String = fs_path_from_wire_path(&target);
            let source: String = from.clone();
            let effect: FileEffect = if event.event_kind == EventKind::Copied {
                FileEffect::Copy { from, to }
            } else {
                FileEffect::Rename { from, to }
            };
            let record: EventEnvelope = peer_envelope(
                event.event_kind,
                source_path,
                destination_path,
                copy_optional(&event.checksum),
                event.username,
            );
            IncomingStep::Probe(
                Relocation {
                    source,
                    local: LoggedEffect { effect, record },
                    peer,
                    target,
                    checksum: event.checksum,
                },
            )
        },
        EventKind::Created | EventKind::Edited => {
            let request: Option<SyncRequest> = state.start_pull(
                data_dir,
                peer,
                source_path,
                event.checksum,
                event.event_kind,
                event.username,
            );
            IncomingStep::Done(request)
        },
    }
}

/// Goes on with a rename, move or copy once it is known whether its source
/// exists: it is done locally if it does, and its target pulled otherwise.
pub fn relocate(
    data_dir: &str,
    state: &mut SyncState,
    relocation: Relocation,
    source_exists: bool,
) -> (step: IncomingStep)
    ensures
        source_exists ==> step@ == IncomingView::Perform(relocation@.local) && final(state)@ == old(
            state,
        )@,
        !source_exists ==> step@ == IncomingView::Done(
            old(state)@.start_request(relocation@.pull()),
        ) && final(state)@ == old(state)@.started(relocation@.pull()),
        old(state)@.wf() ==> final(state)@.wf(),
{
    if source_exists {
        return IncomingStep::Perform(relocation.local);
    }
    let request: Option<SyncRequest> = state.start_pull(
        data_dir,
        relocation.peer,
        relocation.target,
        relocation.checksum,
        relocation.local.record.event_kind,
        relocation.local.record.username,
    );
    IncomingStep::Done(request)
}

// ---------------------------------------------------------------------------
// Received files
// ---------------------------------------------------------------------------

/// What is to be done about a file that a peer sent.
#[derive(Debug, Clone)]
pub enum ReceivedStep {
    /// Its checksum is wrong: send the request, if any.
    Retry(Option<SyncRequest>),
    /// Write it, after creating the parents of `target`, and go on with
    /// [`finish_file_response`].
    Write { target: String, data: Vec<u8>, record: EventEnvelope },
}

/// The contents of a [`ReceivedStep`].
pub enum ReceivedView {
    Retry(Option<SyncRequestView>),
    Write { target: Seq<char>, data: Seq<u8>, record: EnvelopeView },
}

impl View for ReceivedStep {
    type V = ReceivedView;

    open spec fn view(&self) -> ReceivedView {
        match self {
            ReceivedStep::Retry(request) => ReceivedView::Retry(
                crate::messages::requested(*request),
            ),
            ReceivedStep::Write { target, data, record } => ReceivedView::Write {
                target: target@,
                data: data@,
                record: record@,
            },
        }
    }
}

/// What is to be done about a received file whose CRC-32 is `sum`.
pub open spec fn received(
    state: SyncStateView,
    path: Seq<char>,
    data: Seq<u8>,
    checksum: Seq<char>,
    sum: u32,
    event_kind: EventKind,
    username: Seq<char>,
) -> ReceivedView {
    if crate::checksum::crc32_text(sum) == checksum {
        ReceivedView::Write {
            target: crate::paths::fs_path(path),
            data,
            record: peer_record(event_kind, path, None, Some(checksum), username),
        }
    } else {
        ReceivedView::Retry(state.retried().current_request())
    }
}

/// The transfer queue after a file whose CRC-32 is `sum` was received.
pub open spec fn after_received(state: SyncStateView, checksum: Seq<char>, sum: u32) -> SyncStateView {
    if crate::checksum::crc32_text(sum) == checksum {
        state
    } else {
        state.retried()
    }
}

/// Decides about a received file, given the CRC-32 of its content: it is
/// written only if that is the announced checksum, and asked for again
/// otherwise.
pub fn check_received_file(
    state: &mut SyncState,
    path: String,
    data: Vec<u8>,
    checksum: String,
    sum: u32,
    event_kind: EventKind,
    username: String,
) -> (step: ReceivedStep)
    ensures
        step@ == received(old(state)@, path@, data@, checksum@, sum, event_kind, username@),
        final(state)@ == after_received(old(state)@, checksum@, sum),
        old(state)@.wf() ==> final(state)@.wf(),
{
    let actual: String = hex_text(sum);
    if !text_eq(&actual, &checksum) {
        return ReceivedStep::Retry(state.retry_current());
    }
    let target: String = fs_path_from_wire_path(&path);
    ReceivedStep::Write {
        target,
        data,
        record: peer_envelope(event_kind, path, None, Some(actual), username),
    }
}

/// Decides about a file that a peer sent: it is written only if its content
/// has the announced checksum, and asked for again otherwise.
pub fn handle_file_response(
    state: &mut SyncState,
    path: String,
    data: Vec<u8>,
    checksum: String,
    event_kind: EventKind,
    username: String,
) -> (step: ReceivedStep)
    ensures
        step@ == received(
            old(state)@,
            path@,
            data@,
            checksum@,
            crate::checksum::crc32(data@),
            event_kind,
            username@,
        ),
        final(state)@ == after_received(
            old(state)@,
            checksum@,
            crate::checksum::crc32(data@),
        ),
        old(state)@.wf() ==> final(state)@.wf(),
{
    let sum: u32 = crc32_of(&data);
    check_received_file(state, path, data, checksum, sum, event_kind, username)
}

/// Goes on after a received file was to be written: a written file is
/// recorded and the next transfer starts, one that could not be written is
/// asked for again.
pub fn finish_file_response(
    state: &mut SyncState,
    peer: &PeerId,
    path: &str,
    record: EventEnvelope,
    written: bool,
) -> (outcome: (Option<EventEnvelope>, Option<SyncRequest>))
    ensures
        written ==> {
            &&& outcome.0 == Some(record)
            &&& final(state)@ == old(state)@.finished(peer@, path@)
            &&& crate::messages::requested(outcome.1) == old(state)@.finish_request(peer@, path@)
        },
        !written ==> {
            &&& outcome.0 is None
            &&& final(state)@ == old(state)@.retried()
            &&& crate::messages::requested(outcome.1) == old(state)@.retried().current_request()
        },
        old(state)@.wf() ==> final(state)@.wf(),
{
    if written {
        let request: Option<SyncRequest> = state.finish_transfer(peer, path);
        (Some(record), request)
    } else {
        (None, state.retry_current())
    }
}

/// Handles NotFound response - peer doesn't have the file.
/// Returns the next FetchFile request to send, if any.
pub fn handle_not_found(state: &mut SyncState, _peer: &PeerId, _path: &str) -> (request: Option<
    SyncRequest,
>)
    ensures
        final(state)@ == old(state)@.retried(),
        crate::messages::requested(request) == old(state)@.retried().current_request(),
        old(state)@.wf() ==> final(state)@.wf(),
{
    state.retry_current()
}

// ---------------------------------------------------------------------------
// Requested files
// ---------------------------------------------------------------------------

/// The answer to a request for a file.
pub open spec fn fetch_answer(path: Seq<char>, content: Option<Seq<u8>>, sum: u32) -> SyncResponseView {
    match content {
        Some(data) => SyncResponseView::File {
            path,
            data,
            checksum: crate::checksum::crc32_text(sum),
        },
        None => SyncResponseView::NotFound { path },
    }
}

/// The answer with a file whose CRC-32 is `sum`.
pub fn file_response(path: &str, data: Vec<u8>, sum: u32) -> (response: SyncResponse)
    ensures
        response@ == fetch_answer(path@, Some(data@), sum),
{
    SyncResponse::File { path: path.to_string(), data, checksum: hex_text(sum) }
}

/// Handles the sender side: answers with the complete file, or that there is
/// none if its content could not be read.
pub fn handle_fetch_request(path: &str, content: Option<Vec<u8>>) -> (response: SyncResponse)
    ensures
        content matches Some(data) ==> response@ == fetch_answer(
            path@,
            Some(data@),
            crate::checksum::crc32(data@),
        ),
        content is None ==> response@ == (SyncResponseView::NotFound { path: path@ }),
{
    match content {
        Some(data) => {
            let sum: u32 = crc32_of(&data);
            file_response(path, data, sum)
        },
        None => SyncResponse::NotFound { path: path.to_string() },
    }
}

// ---------------------------------------------------------------------------
// Manifest actions
// ---------------------------------------------------------------------------

/// The name under which changes from a peer's manifest are recorded.
pub open spec fn peer_username(peer: Seq<char>) -> Seq<char> {
    "p2p:"@ + peer
}

/// What actions amount to: the queue after them, the work on disk, and the
/// requests to send.
pub struct ActionsView {
    pub state: SyncStateView,
    pub effects: Seq<LoggedView>,
    pub requests: Seq<SyncRequestView>,
}

/// The pull that an action asks for.
pub open spec fn action_pull(peer: Seq<char>, path: Seq<char>) -> PullView {
    PullView { peer, path, event_kind: EventKind::Edited, username: peer_username(peer) }
}

/// The work on disk that an action asks for; none for a pull.
pub open spec fn action_effect(peer: Seq<char>, action: SyncActionView) -> Option<LoggedView> {
    match action {
        SyncActionView::CreateDir { path } => Some(
            LoggedView {
                effect: EffectView::CreateDir { path: crate::paths::fs_path(path) },
                record: peer_record(EventKind::DirCreated, path, None, None, peer_username(peer)),
            },
        ),
        SyncActionView::Delete { path } => Some(
            LoggedView {
                effect: EffectView::Delete { path: crate::paths::fs_path(path) },
                record: peer_record(EventKind::Deleted, path, None, None, peer_username(peer)),
            },
        ),
        SyncActionView::Pull { .. } => None,
    }
}

/// What one more action adds.
pub open spec fn with_action(
    before: ActionsView,
    peer: Seq<char>,
    action: SyncActionView,
) -> ActionsView {
    match action_effect(peer, action) {
        Some(work) => ActionsView { effects: before.effects.push(work), ..before },
        None => {
            let pull = action_pull(peer, action.target());
            ActionsView {
                state: before.state.started(pull),
                requests: match before.state.start_request(pull) {
                    Some(request) => before.requests.push(request),
                    None => before.requests,
                },
                ..before
            }
        },
    }
}

/// What a list of actions amounts to.
pub open spec fn with_actions(
    state: SyncStateView,
    peer: Seq<char>,
    actions: Seq<SyncActionView>,
) -> ActionsView
    decreases actions.len(),
{
    if actions.len() == 0 {
        ActionsView { state, effects: Seq::empty(), requests: Seq::empty() }
    } else {
        with_action(with_actions(state, peer, actions.drop_last()), peer, actions.last())
    }
}

/// The contents of a list of actions.
pub open spec fn action_views(actions: Seq<SyncAction>) -> Seq<SyncActionView> {
    actions.map_values(|a: SyncAction| a@)
}

/// Work that follows from a peer's manifest.
#[derive(Debug, Clone)]
pub struct ManifestWork {
    /// Work on disk, each with the event that is recorded if it succeeds; one
    /// that fails does not stop the others.
    pub effects: Vec<LoggedEffect>,
    /// Requests to send to the peer.
    pub requests: Vec<SyncRequest>,
}

/// Turns the actions computed by [`diff_manifests`] into work, and starts or
/// queues their pulls.
pub fn apply_manifest_actions(
    data_dir: &str,
    state: &mut SyncState,
    peer: &PeerId,
    actions: Vec<SyncAction>,
) -> (work: ManifestWork)
    ensures
        ({
            let all = with_actions(old(state)@, peer@, action_views(actions@));
            &&& final(state)@ == all.state
            &&& logged_views(work.effects@) == all.effects
            &&& crate::messages::request_views(work.requests@) == all.requests
        }),
        old(state)@.wf() ==> final(state)@.wf(),
{
    let username: String = "p2p:".to_string().concat(peer.text());
    let mut effects: Vec<LoggedEffect> = Vec::new();
    let mut requests: Vec<SyncRequest> = Vec::new();
    let ghost start = state@;
    let ghost views = action_views(actions@);
    assert(logged_views(effects@) == Seq::<LoggedView>::empty());
    assert(crate::messages::request_views(requests@) == Seq::<SyncRequestView>::empty());
    let count: usize = actions.len();
    for action in it: actions
        invariant
            it.seq() == actions@,
            views == action_views(actions@),
            start == old(state)@,
            username@ == peer_username(peer@),
            state@ == with_actions(start, peer@, views.take(it.index())).state,
            logged_views(effects@) == with_actions(start, peer@, views.take(it.index())).effects,
            crate::messages::request_views(requests@) == with_actions(
                start,
                peer@,
                views.take(it.index()),
            ).requests,
            start.wf() ==> state@.wf(),
    {
        let ghost i = it.index();
        let ghost effects_before = effects@;
        let ghost requests_before = requests@;
        proof {
            assert(views.take(i + 1).drop_last() == views.take(i));
            assert(views.take(i + 1).last() == action@);
        }
        match action {
            SyncAction::CreateDir { path } => {
                let relative: String = fs_path_from_wire_path(&path);
                let work = LoggedEffect {
                    effect: FileEffect::CreateDir { path: relative },
                    record: peer_envelope(
                        EventKind::DirCreated,
                        path,
                        None,
                        None,
                        username.clone(),
                    ),
                };
                let ghost added = work@;
                effects.push(work);
                assert(logged_views(effects@) == logged_views(effects_before).push(added));
            },
            SyncAction::Delete { path } => {
                let relative: String = fs_path_from_wire_path(&path);
                let work = LoggedEffect {
                    effect: FileEffect::Delete { path: relative },
                    record: peer_envelope(EventKind::Deleted, path, None, None, username.clone()),
                };
                let ghost added = work@;
                effects.push(work);
                assert(logged_views(effects@) == logged_views(effects_before).push(added));
            },
            SyncAction::Pull { path, checksum } => {
                let request: Option<SyncRequest> = state.start_pull(
                    data_dir,
                    peer.copy(),
                    path,
                    checksum,
                    EventKind::Edited,
                    username.clone(),
                );
                if let Some(request) = request {
                    let ghost added = request@;
                    requests.push(request);
                    assert(crate::messages::request_views(requests@)
                        == crate::messages::request_views(requests_before).push(added));
                }
            },
        }
    }
    assert(views.take(count as int) == views);
    ManifestWork { effects, requests }
}

// ---------------------------------------------------------------------------
// Laws
// ---------------------------------------------------------------------------

/// A file that a peer announced as created or edited is pulled: it is pending
/// afterwards.
pub proof fn law_announced_file_is_pulled(
    state: SyncStateView,
    peer: Seq<char>,
    event: ChangeEventView,
)
    requires
        event.event_kind == EventKind::Created || event.event_kind == EventKind::Edited,
    ensures
        after_incoming(state, peer, event).pending(
            peer,
            crate::paths::wire_path(event.source_path),
        ),
{
    crate::transfers::law_started_pulls_are_pending(
        state,
        pull_of(peer, event),
        peer,
        crate::paths::wire_path(event.source_path),
    );
}

/// A rename, move or copy whose source is missing locally is pulled: its
/// target is pending afterwards.
pub proof fn law_missing_source_is_pulled(state: SyncStateView, relocation: RelocationView)
    ensures
        state.started(relocation.pull()).pending(relocation.peer, relocation.target),
{
    crate::transfers::law_started_pulls_are_pending(
        state,
        relocation.pull(),
        relocation.peer,
        relocation.target,
    );
}

/// An event that is not a new or edited file leaves the transfer queue alone.
pub proof fn law_other_events_leave_the_queue(
    state: SyncStateView,
    peer: Seq<char>,
    event: ChangeEventView,
)
    requires
        event.event_kind != EventKind::Created,
        event.event_kind != EventKind::Edited,
    ensures
        after_incoming(state, peer, event) == state,
        !(incoming_step(state, peer, event) is Done),
{
}

/// A received file is written only if its CRC-32 is the announced one.
pub proof fn law_corrupt_file_is_not_written(
    state: SyncStateView,
    path: Seq<char>,
    data: Seq<u8>,
    checksum: Seq<char>,
    event_kind: EventKind,
    username: Seq<char>,
)
    ensures
        received(
            state,
            path,
            data,
            checksum,
            crate::checksum::crc32(data),
            event_kind,
            username,
        ) is Write <==> checksum == crate::checksum::transfer_checksum(data),
{
}

/// A file that one node answers a request with is written by the node that
/// receives it unchanged.
pub proof fn law_sent_file_is_accepted(
    state: SyncStateView,
    path: Seq<char>,
    data: Seq<u8>,
    event_kind: EventKind,
    username: Seq<char>,
)
    ensures
        fetch_answer(path, Some(data), crate::checksum::crc32(data)) matches SyncResponseView::File {
            path: sent_path,
            data: sent,
            checksum,
        } && received(
            state,
            sent_path,
            sent,
            checksum,
            crate::checksum::crc32(sent),
            event_kind,
            username,
        ) == (ReceivedView::Write {
            target: crate::paths::fs_path(path),
            data,
            record: peer_record(
                event_kind,
                path,
                None,
                Some(crate::checksum::transfer_checksum(data)),
                username,
            ),
        }),
{
}

/// Content with another CRC-32 than the announced one is always noticed.
pub proof fn law_changed_content_is_noticed(sent: Seq<u8>, arrived: Seq<u8>)
    requires
        crate::checksum::crc32(sent) != crate::checksum::crc32(arrived),
    ensures
        crate::checksum::transfer_checksum(sent) != crate::checksum::transfer_checksum(arrived),
{
    crate::numbers::law_hex_digits_are_injective(
        crate::checksum::crc32(sent),
        crate::checksum::crc32(arrived),
    );
}

/// Every file that a manifest tells to pull is pending afterwards, and at most
/// one request is sent: none while another transfer is active.
pub proof fn law_manifest_pulls_are_pending(
    state: SyncStateView,
    peer: Seq<char>,
    actions: Seq<SyncActionView>,
)
    ensures
        forall|i: int|
            0 <= i < actions.len() && (#[trigger] actions[i]) is Pull ==> with_actions(
                state,
                peer,
                actions,
            ).state.pending(peer, actions[i].target()),
        with_actions(state, peer, actions).requests.len() <= 1,
        with_actions(state, peer, actions).requests.len() == 1 ==> state.current is None
            && with_actions(state, peer, actions).state.current is Some,
        state.current is Some ==> with_actions(state, peer, actions).state.current
            == state.current,
    decreases actions.len(),
{
    if actions.len() != 0 {
        let front = actions.drop_last();
        let last = actions.last();
        law_manifest_pulls_are_pending(state, peer, front);
        let before = with_actions(state, peer, front);
        let after = with_actions(state, peer, actions);
        assert forall|i: int| 0 <= i < actions.len() && (
        #[trigger] actions[i]) is Pull implies after.state.pending(peer, actions[i].target()) by {
            if last is Pull {
                crate::transfers::law_started_pulls_are_pending(
                    before.state,
                    action_pull(peer, last.target()),
                    peer,
                    actions[i].target(),
                );
            }
            if i < front.len() {
                assert(front[i] == actions[i]);
            }
        }
    }
}

/// The actions that ask for work on disk.
pub open spec fn on_disk() -> spec_fn(SyncActionView) -> bool {
    |action: SyncActionView| !(action is Pull)
}

/// The work on disk that a manifest leads to is the work of its creations and
/// deletions, in their order.
pub proof fn law_manifest_effects_follow_actions(
    state: SyncStateView,
    peer: Seq<char>,
    actions: Seq<SyncActionView>,
)
    ensures
        with_actions(state, peer, actions).effects == actions.filter(on_disk()).map_values(
            |action: SyncActionView| action_effect(peer, action)->0,
        ),
    decreases actions.len(),
{
    reveal(Seq::filter);
    if actions.len() != 0 {
        law_manifest_effects_follow_actions(state, peer, actions.drop_last());
        let front = actions.drop_last().filter(on_disk());
        assert(actions.filter(on_disk()) == if actions.last() is Pull {
            front
        } else {
            front.push(actions.last())
        });
    }
}

// ---------------------------------------------------------------------------
// What follows from an announcement itself
// ---------------------------------------------------------------------------

/// The file on disk that a path or URL sent by a peer names.
pub open spec fn named_file(path: Seq<char>) -> Seq<char> {
    crate::paths::fs_path(crate::paths::wire_path(path))
}

/// Where a change that a peer announced ends, by the paths that it carries.
pub open spec fn end_of(event: ChangeEventView) -> Seq<char> {
    match event.destination_path {
        Some(path) => path,
        None => event.source_path,
    }
}

/// A rename or move that a peer announced is done as a rename, a copy as a
/// copy, each from the file that the announced source names to the one that
/// the announced destination names. Whether that source exists decides.
pub proof fn law_relocation_follows_the_announcement(
    state: SyncStateView,
    peer: Seq<char>,
    event: ChangeEventView,
)
    requires
        event.event_kind == EventKind::Renamed || event.event_kind == EventKind::Moved
            || event.event_kind == EventKind::Copied,
    ensures
        incoming_step(state, peer, event) matches IncomingView::Probe(relocation) && {
            let from = named_file(event.source_path);
            let to = named_file(end_of(event));
            &&& event.event_kind != EventKind::Copied ==> relocation.local.effect
                == (EffectView::Rename { from, to })
            &&& event.event_kind == EventKind::Copied ==> relocation.local.effect
                == (EffectView::Copy { from, to })
            &&& relocation.source == from
            &&& relocation.checksum == event.checksum
        },
        after_incoming(state, peer, event) == state,
{
}

/// What is recorded of a rename, move or copy that is done tells what was
/// announced; where its source is missing, its end is pulled from the peer
/// that announced it, on behalf of the same user.
pub proof fn law_relocation_is_recorded_or_pulled(
    state: SyncStateView,
    peer: Seq<char>,
    event: ChangeEventView,
)
    requires
        event.event_kind == EventKind::Renamed || event.event_kind == EventKind::Moved
            || event.event_kind == EventKind::Copied,
    ensures
        incoming_step(state, peer, event) matches IncomingView::Probe(relocation) && {
            let record = relocation.local.record;
            let pull = relocation.pull();
            &&& record.event_kind == event.event_kind
            &&& record.source_path == crate::paths::wire_path(event.source_path)
            &&& record.destination_path is Some <==> event.destination_path is Some
            &&& event.destination_path is Some ==> record.destination_path->0
                == crate::paths::wire_path(event.destination_path->0)
            &&& record.checksum == event.checksum
            &&& record.method == "P2P"@
            &&& record.status_code == 200
            &&& record.username == event.username
            &&& pull.peer == peer
            &&& pull.path == crate::paths::wire_path(end_of(event))
            &&& pull.event_kind == event.event_kind
            &&& pull.username == event.username
            &&& relocation.peer == peer
            &&& relocation.target == pull.path
        },
{
}

/// The files below the data directory after some work: their contents by their
/// paths. What lies below a directory goes with it when it is deleted.
pub open spec fn files_after(files: Map<Seq<char>, Seq<u8>>, effect: EffectView) -> Map<
    Seq<char>,
    Seq<u8>,
> {
    match effect {
        EffectView::Delete { path } => files.remove_keys(
            Set::new(
                |p: Seq<char>| p == path || exists|rest: Seq<char>| p == path + seq!['/'] + rest,
            ),
        ),
        EffectView::CreateDir { .. } => files,
        EffectView::Rename { from, to } => files.remove(from).insert(to, files[from]),
        EffectView::Copy { from, to } => files.insert(to, files[from]),
    }
}

/// After a rename or move that a peer announced was done here, its content is
/// at the destination and, unless that is the source, nothing is left at the
/// source; after a copy both hold it. No other file is touched.
pub proof fn law_relocated_content_is_at_its_end(
    state: SyncStateView,
    peer: Seq<char>,
    event: ChangeEventView,
    files: Map<Seq<char>, Seq<u8>>,
)
    requires
        event.event_kind == EventKind::Renamed || event.event_kind == EventKind::Moved
            || event.event_kind == EventKind::Copied,
        files.contains_key(named_file(event.source_path)),
    ensures
        incoming_step(state, peer, event) matches IncomingView::Probe(relocation) && {
            let from = named_file(event.source_path);
            let to = named_file(end_of(event));
            let after = files_after(files, relocation.local.effect);
            &&& relocation.source == from
            &&& after.contains_key(to) && after[to] == files[from]
            &&& event.event_kind != EventKind::Copied && from != to ==> !after.contains_key(from)
            &&& event.event_kind == EventKind::Copied ==> after.contains_key(from) && after[from]
                == files[from]
            &&& forall|p: Seq<char>|
                p != from && p != to ==> (#[trigger] after.contains_key(p) == files.contains_key(p))
                    && (files.contains_key(p) ==> after[p] == files[p])
        },
{
}

/// A deletion that a peer announced deletes the file that it names, with all
/// below it, and a folder that a peer created is created here, where it names
/// it; both are recorded as such, for the user who did it, without checksum.
pub proof fn law_deletions_and_folders_are_taken_over(
    state: SyncStateView,
    peer: Seq<char>,
    event: ChangeEventView,
    files: Map<Seq<char>, Seq<u8>>,
)
    requires
        event.event_kind == EventKind::Deleted || event.event_kind == EventKind::DirCreated,
    ensures
        incoming_step(state, peer, event) matches IncomingView::Perform(work) && {
            let path = named_file(event.source_path);
            &&& event.event_kind == EventKind::DirCreated ==> work.effect
                == (EffectView::CreateDir { path })
            &&& event.event_kind == EventKind::Deleted ==> work.effect == (EffectView::Delete {
                path,
            }) && !files_after(files, work.effect).contains_key(path)
            &&& work.record.event_kind == event.event_kind
            &&& work.record.source_path == crate::paths::wire_path(event.source_path)
            &&& work.record.destination_path is None
            &&& work.record.checksum is None
            &&& work.record.method == "P2P"@
            &&& work.record.status_code == 200
            &&& work.record.username == event.username
        },
        after_incoming(state, peer, event) == state,
{
}

/// A file that a peer announced as created or edited is pulled from that peer,
/// under the path that was announced: at once where nothing is under way, after
/// all others otherwise, and not twice.
pub proof fn law_announced_file_starts_or_waits(
    state: SyncStateView,
    peer: Seq<char>,
    event: ChangeEventView,
)
    requires
        event.event_kind == EventKind::Created || event.event_kind == EventKind::Edited,
    ensures
        ({
            let path = crate::paths::wire_path(event.source_path);
            let pull = PullView {
                peer,
                path,
                event_kind: event.event_kind,
                username: event.username,
            };
            let after = after_incoming(state, peer, event);
            let step = incoming_step(state, peer, event);
            let awaited = crate::transfers::is_awaited(state, peer, path);
            &&& awaited ==> after == state && step == IncomingView::Done(None)
            &&& !awaited && state.current is None ==> after.current == Some(pull) && after.queue
                == state.queue && step == IncomingView::Done(
                Some(SyncRequestView::FetchFile { path }),
            )
            &&& !awaited && state.current is Some ==> after.current == state.current
                && after.queue == state.queue.push(pull) && step == IncomingView::Done(None)
        }),
{
    crate::transfers::law_pull_starts_or_waits(state, pull_of(peer, event));
}

// ---------------------------------------------------------------------------
// What follows from an answer itself
// ---------------------------------------------------------------------------

/// A received file whose CRC-32, `sum`, is the announced one is written as it
/// came, to the file that its path names, and recorded for the transfer that
/// asked for it; the queue waits for the writing. Any other is not written but
/// asked for again.
pub proof fn law_received_file_is_written_as_it_came(
    state: SyncStateView,
    path: Seq<char>,
    data: Seq<u8>,
    checksum: Seq<char>,
    sum: u32,
    event_kind: EventKind,
    username: Seq<char>,
)
    ensures
        ({
            let step = received(state, path, data, checksum, sum, event_kind, username);
            let after = after_received(state, checksum, sum);
            &&& checksum == crate::numbers::hex_digits(sum as nat, 8) ==> after == state && (
            step matches ReceivedView::Write { target, data: written, record } && {
                &&& target == crate::paths::fs_path(path)
                &&& written == data
                &&& record.event_kind == event_kind
                &&& record.source_path == path
                &&& record.destination_path is None
                &&& record.checksum == Some(checksum)
                &&& record.method == "P2P"@
                &&& record.status_code == 200
                &&& record.username == username
            })
            &&& checksum != crate::numbers::hex_digits(sum as nat, 8) ==> after == state.retried()
                && step == ReceivedView::Retry(state.retried().current_request())
        }),
{
}

/// A request for a file is answered with its path, the whole of its content
/// and the CRC-32 of it, `sum`; where there is no content, with its path alone.
pub proof fn law_answer_holds_the_whole_file(path: Seq<char>, data: Seq<u8>, sum: u32)
    ensures
        fetch_answer(path, Some(data), sum) == (SyncResponseView::File {
            path,
            data,
            checksum: crate::numbers::hex_digits(sum as nat, 8),
        }),
        fetch_answer(path, None, sum) == (SyncResponseView::NotFound { path }),
{
}

// ---------------------------------------------------------------------------
// What follows from an action itself
// ---------------------------------------------------------------------------

/// One more action does its own work after that of the others: a folder is
/// created, a path deleted, a file pulled from the peer as an edit by it; the
/// rest of the work stays as it is.
pub proof fn law_each_action_does_its_work(
    state: SyncStateView,
    peer: Seq<char>,
    actions: Seq<SyncActionView>,
    action: SyncActionView,
)
    ensures
        ({
            let before = with_actions(state, peer, actions);
            let after = with_actions(state, peer, actions.push(action));
            let added = after.effects.last();
            let recorded = added.record;
            let pull = PullView {
                peer,
                path: action.target(),
                event_kind: EventKind::Edited,
                username: seq!['p', '2', 'p', ':'] + peer,
            };
            &&& action is Pull ==> {
                &&& after.effects == before.effects
                &&& after.state == before.state.started(pull)
                &&& before.state.start_request(pull) is None ==> after.requests == before.requests
                &&& before.state.start_request(pull) matches Some(request) ==> after.requests
                    == before.requests.push(request)
            }
            &&& !(action is Pull) ==> {
                &&& after.effects == before.effects.push(added)
                &&& after.state == before.state
                &&& after.requests == before.requests
                &&& recorded.source_path == action.target()
                &&& recorded.destination_path is None
                &&& recorded.checksum is None
                &&& recorded.method == "P2P"@
                &&& recorded.status_code == 200
                &&& recorded.username == seq!['p', '2', 'p', ':'] + peer
            }
            &&& action matches SyncActionView::CreateDir { path } ==> added.effect
                == (EffectView::CreateDir { path: crate::paths::fs_path(path) })
                && recorded.event_kind == EventKind::DirCreated && action.target() == path
            &&& action matches SyncActionView::Delete { path } ==> added.effect
                == (EffectView::Delete { path: crate::paths::fs_path(path) })
                && recorded.event_kind == EventKind::Deleted && action.target() == path
            &&& action matches SyncActionView::Pull { path, .. } ==> action.target() == path
        }),
        with_actions(state, peer, Seq::empty()).state == state,
        with_actions(state, peer, Seq::empty()).effects.len() == 0,
        with_actions(state, peer, Seq::empty()).requests.len() == 0,
{
    reveal_strlit("p2p:");
    assert("p2p:"@ =~= seq!['p', '2', 'p', ':']);
    assert(actions.push(action).drop_last() == actions);
    assert(actions.push(action).last() == action);
}

/// Work and steps are seen with all that they hold.
pub proof fn law_steps_tell_all(
    effect: FileEffect,
    work: LoggedEffect,
    relocation: Relocation,
    step: IncomingStep,
    received: ReceivedStep,
)
    ensures
        effect matches FileEffect::Delete { path } ==> effect@ == (EffectView::Delete {
            path: path@,
        }),
        effect matches FileEffect::CreateDir { path } ==> effect@ == (EffectView::CreateDir {
            path: path@,
        }),
        effect matches FileEffect::Rename { from, to } ==> effect@ == (EffectView::Rename {
            from: from@,
            to: to@,
        }),
        effect matches FileEffect::Copy { from, to } ==> effect@ == (EffectView::Copy {
            from: from@,
            to: to@,
        }),
        work@.effect == work.effect@,
        work@.record == work.record@,
        relocation@.source == relocation.source@,
        relocation@.local == relocation.local@,
        relocation@.peer == relocation.peer@,
        relocation@.target == relocation.target@,
        relocation@.checksum is Some <==> relocation.checksum is Some,
        relocation.checksum is Some ==> relocation@.checksum->0 == relocation.checksum->0@,
        step matches IncomingStep::Perform(w) ==> step@ == IncomingView::Perform(w@),
        step matches IncomingStep::Probe(r) ==> step@ == IncomingView::Probe(r@),
        step matches IncomingStep::Done(None) ==> step@ == IncomingView::Done(None),
        step matches IncomingStep::Done(Some(r)) ==> step@ == IncomingView::Done(Some(r@)),
        received matches ReceivedStep::Retry(None) ==> received@ == ReceivedView::Retry(None),
        received matches ReceivedStep::Retry(Some(r)) ==> received@ == ReceivedView::Retry(
            Some(r@),
        ),
        received matches ReceivedStep::Write { target, data, record } ==> received@
            == (ReceivedView::Write { target: target@, data: data@, record: record@ }),
{
}

/// Lists of work and of actions are seen item by item, in their order.
pub proof fn law_work_is_listed_in_order(
    effects: Seq<LoggedEffect>,
    actions: Seq<SyncAction>,
    i: int,
)
    ensures
        logged_views(effects).len() == effects.len(),
        0 <= i < effects.len() ==> logged_views(effects)[i] == effects[i]@,
        action_views(actions).len() == actions.len(),
        0 <= i < actions.len() ==> action_views(actions)[i] == actions[i]@,
{
}

} // verus!
