//! What peers say to each other.

use vstd::prelude::*;

use crate::db::EventKind;
use crate::manifest::{Manifest, ManifestView};

verus! {

/// A lightweight, content-free description of a change that happened
/// locally. Used both as the local message from the WebDAV layer to the p2p
/// worker, and as the wire payload of [`SyncRequest::Event`].
#[derive(Debug, Clone)]
pub struct FileChangeEvent {
    pub event_kind: EventKind,
    pub source_path: String,
    pub destination_path: Option<String>,
    pub checksum: Option<String>,
    pub size: u64,
    pub username: String,
}

/// The contents of a [`FileChangeEvent`].
pub struct ChangeEventView {
    pub event_kind: EventKind,
    pub source_path: Seq<char>,
    pub destination_path: Option<Seq<char>>,
    pub checksum: Option<Seq<char>>,
    pub size: u64,
    pub username: Seq<char>,
}

impl View for FileChangeEvent {
    type V = ChangeEventView;

    open spec fn view(&self) -> ChangeEventView {
        ChangeEventView {
            event_kind: self.event_kind,
            source_path: self.source_path@,
            destination_path: crate::text::optional_text(self.destination_path),
            checksum: crate::text::optional_text(self.checksum),
            size: self.size,
            username: self.username@,
        }
    }
}

/// A request to a peer.
#[derive(Debug, Clone)]
pub enum SyncRequest {
    /// Ask the peer for its full resource/tombstone manifest.
    Manifest,
    /// Ask the peer for a complete file.
    FetchFile { path: String },
    /// Notify the peer that a local change happened; carries no content.
    Event(FileChangeEvent),
}

/// The contents of a [`SyncRequest`].
pub enum SyncRequestView {
    Manifest,
    FetchFile { path: Seq<char> },
    Event(ChangeEventView),
}

impl View for SyncRequest {
    type V = SyncRequestView;

    open spec fn view(&self) -> SyncRequestView {
        match self {
            SyncRequest::Manifest => SyncRequestView::Manifest,
            SyncRequest::FetchFile { path } => SyncRequestView::FetchFile { path: path@ },
            SyncRequest::Event(event) => SyncRequestView::Event(event@),
        }
    }
}

/// The contents of an optional request.
pub open spec fn requested(request: Option<SyncRequest>) -> Option<SyncRequestView> {
    match request {
        Some(r) => Some(r@),
        None => None,
    }
}

/// The contents of a list of requests.
pub open spec fn request_views(requests: Seq<SyncRequest>) -> Seq<SyncRequestView> {
    requests.map_values(|r: SyncRequest| r@)
}

/// The answer to a request.
#[derive(Debug, Clone)]
pub enum SyncResponse {
    Manifest(Manifest),
    File { path: String, data: Vec<u8>, checksum: String },
    NotFound { path: String },
    Ack,
}

/// The contents of a [`SyncResponse`].
pub enum SyncResponseView {
    Manifest(ManifestView),
    File { path: Seq<char>, data: Seq<u8>, checksum: Seq<char> },
    NotFound { path: Seq<char> },
    Ack,
}

impl View for SyncResponse {
    type V = SyncResponseView;

    open spec fn view(&self) -> SyncResponseView {
        match self {
            SyncResponse::Manifest(manifest) => SyncResponseView::Manifest(manifest@),
            SyncResponse::File { path, data, checksum } => SyncResponseView::File {
                path: path@,
                data: data@,
                checksum: checksum@,
            },
            SyncResponse::NotFound { path } => SyncResponseView::NotFound { path: path@ },
            SyncResponse::Ack => SyncResponseView::Ack,
        }
    }
}

/// A change that is announced, and the requests and answers of peers, are seen
/// with all that they hold.
pub proof fn law_messages_tell_all(
    event: FileChangeEvent,
    request: SyncRequest,
    response: SyncResponse,
)
    ensures
        event@.event_kind == event.event_kind,
        event@.source_path == event.source_path@,
        event@.destination_path is Some <==> event.destination_path is Some,
        event.destination_path is Some ==> event@.destination_path->0
            == event.destination_path->0@,
        event@.checksum is Some <==> event.checksum is Some,
        event.checksum is Some ==> event@.checksum->0 == event.checksum->0@,
        event@.size == event.size,
        event@.username == event.username@,
        request is Manifest <==> request@ is Manifest,
        request matches SyncRequest::FetchFile { path } ==> request@
            == (SyncRequestView::FetchFile { path: path@ }),
        request matches SyncRequest::Event(e) ==> request@ == SyncRequestView::Event(e@),
        requested(Some(request)) == Some(request@),
        requested(None) is None,
        response matches SyncResponse::Manifest(m) ==> response@ == SyncResponseView::Manifest(m@),
        response matches SyncResponse::File { path, data, checksum } ==> response@
            == (SyncResponseView::File { path: path@, data: data@, checksum: checksum@ }),
        response matches SyncResponse::NotFound { path } ==> response@
            == (SyncResponseView::NotFound { path: path@ }),
        response is Ack <==> response@ is Ack,
{
}

/// A list of requests is seen request by request, in its order.
pub proof fn law_requests_are_listed_in_order(requests: Seq<SyncRequest>, i: int)
    ensures
        request_views(requests).len() == requests.len(),
        0 <= i < requests.len() ==> request_views(requests)[i] == requests[i]@,
{
}

} // verus!
