//! WebDAV requests: who may make them, what they did, and what is recorded
//! and announced of it.

use hyper::HeaderMap;
use vstd::prelude::*;

use crate::auth::{authorization_field, header_field, is_authorized};
use crate::checksum::sha256_hex;
use crate::db::{EnvelopeView, EventEnvelope, EventKind};
use crate::messages::{ChangeEventView, FileChangeEvent};
use crate::paths::{normalize_destination, normalize_request_path, parent_path};
use crate::text::{copy_optional, text_eq};

pub use crate::auth::{build_unauthorized_response, parse_basic_credentials};

verus! {

// ---------------------------------------------------------------------------
// File events
// ---------------------------------------------------------------------------

/// Semantic file event derived from a WebDAV HTTP method and its response status code.
#[derive(Debug, Clone, Copy, PartialEq, Eq, Structural)]
pub enum FileEvent {
    /// A new file was uploaded (PUT → 201 Created)
    Created,
    /// An existing file was overwritten (PUT → 204 No Content)
    Edited,
    /// A file or directory was removed (DELETE → 204 No Content)
    Deleted,
    /// A file was renamed within the same directory (MOVE → 201/204, same parent path)
    Renamed,
    /// A file or directory was relocated to a different path (MOVE → 201/204, different parent)
    Moved,
    /// A file was duplicated (COPY → 201/204)
    Copied,
    /// A new collection (directory) was created (MKCOL → 201 Created)
    DirCreated,
    /// Properties on a resource were updated (PROPPATCH → 207 Multi-Status)
    PropPatched,
    /// A lock was acquired on a resource (LOCK → 200 OK)
    Locked,
    /// A lock was released from a resource (UNLOCK → 204 No Content)
    Unlocked,
    /// A file was downloaded (GET/HEAD → 200 OK)
    Read,
    /// A collection listing or properties were retrieved (PROPFIND → 207 Multi-Status)
    Listed,
    /// Supported DAV capabilities were queried (OPTIONS → 200 OK)
    Options,
    /// An unrecognised method, or a 4xx/5xx error response
    Unknown,
}

/// Whether a move stays within its directory. The destination is the value of
/// the `Destination` header: a path or a URL, encoded as the path is.
pub open spec fn same_directory(path: Seq<char>, destination: Option<Seq<char>>) -> bool {
    match destination {
        Some(dest) => crate::paths::parent_of(crate::paths::wire_path(dest))
            == crate::paths::parent_of(crate::paths::request_path(path)),
        None => false,
    }
}

/// The event that a method and the status of its response stand for.
pub open spec fn event_of(
    method: Seq<char>,
    status: u16,
    path: Seq<char>,
    destination: Option<Seq<char>>,
) -> FileEvent {
    if method == "PUT"@ {
        if status == 201 {
            FileEvent::Created
        } else if status == 204 {
            FileEvent::Edited
        } else {
            FileEvent::Unknown
        }
    } else if method == "DELETE"@ && (status == 204 || status == 200) {
        FileEvent::Deleted
    } else if method == "MOVE"@ && (status == 201 || status == 204) {
        if same_directory(path, destination) {
            FileEvent::Renamed
        } else {
            FileEvent::Moved
        }
    } else if method == "COPY"@ && (status == 201 || status == 204) {
        FileEvent::Copied
    } else if method == "MKCOL"@ && status == 201 {
        FileEvent::DirCreated
    } else if method == "PROPPATCH"@ && status == 207 {
        FileEvent::PropPatched
    } else if method == "LOCK"@ && status == 200 {
        FileEvent::Locked
    } else if method == "UNLOCK"@ && status == 204 {
        FileEvent::Unlocked
    } else if (method == "GET"@ || method == "HEAD"@) && (status == 200 || status == 206) {
        FileEvent::Read
    } else if method == "PROPFIND"@ && status == 207 {
        FileEvent::Listed
    } else if method == "OPTIONS"@ && status == 200 {
        FileEvent::Options
    } else {
        FileEvent::Unknown
    }
}

/// The text of an optional string slice.
pub open spec fn optional_str(text: Option<&str>) -> Option<Seq<char>> {
    match text {
        Some(t) => Some(t@),
        None => None,
    }
}

/// Maps a WebDAV HTTP method and the resulting response status to a semantic
/// [`FileEvent`]. For MOVE requests the optional `destination` (value of the
/// `Destination` request header) is used to distinguish a rename (same
/// directory) from a move (different directory).
pub fn map_to_event(
    method: &str,
    status: u16,
    path: &str,
    destination: Option<&str>,
) -> (event: FileEvent)
    ensures
        event == event_of(method@, status, path@, optional_str(destination)),
{
    if text_eq(method, "PUT") {
        return if status == 201 {
            FileEvent::Created
        } else if status == 204 {
            FileEvent::Edited
        } else {
            FileEvent::Unknown
        };
    }
    if text_eq(method, "DELETE") && (status == 204 || status == 200) {
        return FileEvent::Deleted;
    }
    if text_eq(method, "MOVE") && (status == 201 || status == 204) {
        return if stays_in_directory(path, destination) {
            FileEvent::Renamed
        } else {
            FileEvent::Moved
        };
    }
    if text_eq(method, "COPY") && (status == 201 || status == 204) {
        return FileEvent::Copied;
    }
    if text_eq(method, "MKCOL") && status == 201 {
        return FileEvent::DirCreated;
    }
    if text_eq(method, "PROPPATCH") && status == 207 {
        return FileEvent::PropPatched;
    }
    if text_eq(method, "LOCK") && status == 200 {
        return FileEvent::Locked;
    }
    if text_eq(method, "UNLOCK") && status == 204 {
        return FileEvent::Unlocked;
    }
    if (text_eq(method, "GET") || text_eq(method, "HEAD")) && (status == 200 || status == 206) {
        return FileEvent::Read;
    }
    if text_eq(method, "PROPFIND") && status == 207 {
        return FileEvent::Listed;
    }
    if text_eq(method, "OPTIONS") && status == 200 {
        return FileEvent::Options;
    }
    FileEvent::Unknown
}

fn stays_in_directory(path: &str, destination: Option<&str>) -> (yes: bool)
    ensures
        yes == same_directory(path@, optional_str(destination)),
{
    match destination {
        Some(dest) => {
            let source: String = normalize_request_path(path);
            let source_parent: String = parent_path(&source);
            let target: String = normalize_destination(dest);
            let target_parent: String = parent_path(&target);
            text_eq(&target_parent, &source_parent)
        },
        None => false,
    }
}

/// The kind under which an event is stored, if it is one that changes files.
pub open spec fn storage_kind(event: FileEvent) -> Option<EventKind> {
    match event {
        FileEvent::Created => Some(EventKind::Created),
        FileEvent::Edited => Some(EventKind::Edited),
        FileEvent::Deleted => Some(EventKind::Deleted),
        FileEvent::Renamed => Some(EventKind::Renamed),
        FileEvent::Moved => Some(EventKind::Moved),
        FileEvent::Copied => Some(EventKind::Copied),
        FileEvent::DirCreated => Some(EventKind::DirCreated),
        _ => None,
    }
}

/// The kind under which an event is stored, if it is one that changes files.
pub fn event_kind_for_storage(event: &FileEvent) -> (kind: Option<EventKind>)
    ensures
        kind == storage_kind(*event),
{
    match event {
        FileEvent::Created => Some(EventKind::Created),
        FileEvent::Edited => Some(EventKind::Edited),
        FileEvent::Deleted => Some(EventKind::Deleted),
        FileEvent::Renamed => Some(EventKind::Renamed),
        FileEvent::Moved => Some(EventKind::Moved),
        FileEvent::Copied => Some(EventKind::Copied),
        FileEvent::DirCreated => Some(EventKind::DirCreated),
        _ => None,
    }
}

// ---------------------------------------------------------------------------
// The log
// ---------------------------------------------------------------------------

/// The name of an event in the log.
pub open spec fn event_tag(event: FileEvent) -> Seq<char> {
    match event {
        FileEvent::Created => "FILE CREATED"@,
        FileEvent::Edited => "FILE EDITED"@,
        FileEvent::Deleted => "FILE DELETED"@,
        FileEvent::Renamed => "FILE RENAMED"@,
        FileEvent::Moved => "FILE MOVED"@,
        FileEvent::Copied => "FILE COPIED"@,
        FileEvent::DirCreated => "DIR CREATED"@,
        FileEvent::PropPatched => "PROPS PATCHED"@,
        FileEvent::Locked => "RESOURCE LOCKED"@,
        FileEvent::Unlocked => "RESOURCE UNLOCKED"@,
        FileEvent::Read => "FILE READ"@,
        FileEvent::Listed => "DIR LISTED"@,
        FileEvent::Options => "OPTIONS"@,
        FileEvent::Unknown => "UNKNOWN"@,
    }
}

impl FileEvent {
    /// The name of the event in the log.
    pub fn tag(self) -> (tag: &'static str)
        ensures
            tag@ == event_tag(self),
    {
        match self {
            FileEvent::Created => "FILE CREATED",
            FileEvent::Edited => "FILE EDITED",
            FileEvent::Deleted => "FILE DELETED",
            FileEvent::Renamed => "FILE RENAMED",
            FileEvent::Moved => "FILE MOVED",
            FileEvent::Copied => "FILE COPIED",
            FileEvent::DirCreated => "DIR CREATED",
            FileEvent::PropPatched => "PROPS PATCHED",
            FileEvent::Locked => "RESOURCE LOCKED",
            FileEvent::Unlocked => "RESOURCE UNLOCKED",
            FileEvent::Read => "FILE READ",
            FileEvent::Listed => "DIR LISTED",
            FileEvent::Options => "OPTIONS",
            FileEvent::Unknown => "UNKNOWN",
        }
    }
}

/// How `hyper::StatusCode` displays a status: the number and its reason.
pub uninterp spec fn status_display(status: u16) -> Seq<char>;

/// Wraps `hyper::StatusCode::from_u16` and the `Display` of its result, for
/// the numbers of three digits that are status codes.
#[verifier::external_body]
pub(crate) fn status_text(status: u16) -> (text: String)
    requires
        100 <= status <= 999,
    ensures
        text@ == status_display(status),
{
    hyper::StatusCode::from_u16(status).unwrap().to_string()
}

/// A line of the log, and whether it tells of an error.
#[derive(Debug, Clone)]
pub struct LogLine {
    pub text: String,
    pub is_error: bool,
}

/// The statuses of client and server errors.
pub open spec fn error_status(status: u16) -> bool {
    400 <= status < 600
}

/// The text of a log line.
pub open spec fn log_text(
    event: FileEvent,
    method: Seq<char>,
    uri: Seq<char>,
    status_text: Seq<char>,
    user_agent: Seq<char>,
) -> Seq<char> {
    "["@ + event_tag(event) + "] "@ + method + " "@ + uri + " -> "@ + status_text + " (ua="@
        + user_agent + ")"@
}

/// Composes the text of a log line.
pub fn log_line(
    event: &FileEvent,
    method: &str,
    uri: &str,
    status_text: &str,
    user_agent: &str,
) -> (text: String)
    ensures
        text@ == log_text(*event, method@, uri@, status_text@, user_agent@),
{
    "[".to_string().concat(event.tag()).concat("] ").concat(method).concat(" ").concat(uri).concat(
        " -> ",
    ).concat(status_text).concat(" (ua=").concat(user_agent).concat(")")
}

/// Composes the line that is logged of a [`FileEvent`]: for stdout on success,
/// for stderr on 4xx/5xx errors, with the HTTP method, URI, response status,
/// and user-agent string.
pub fn log_file_event(
    event: &FileEvent,
    method: &str,
    uri: &str,
    status: u16,
    user_agent: &str,
) -> (line: LogLine)
    requires
        100 <= status <= 999,
    ensures
        line.text@ == log_text(*event, method@, uri@, status_display(status), user_agent@),
        line.is_error == error_status(status),
{
    let displayed: String = status_text(status);
    LogLine {
        text: log_line(event, method, uri, &displayed, user_agent),
        is_error: 400 <= status && status < 600,
    }
}

// ---------------------------------------------------------------------------
// Requests
// ---------------------------------------------------------------------------

/// The user agent that a request names.
pub open spec fn agent_of(headers: HeaderMap) -> Seq<char> {
    match crate::auth::field_text(headers, "user-agent"@) {
        Some(text) => text,
        None => "<none>"@,
    }
}

/// The user agent that a request names.
pub fn user_agent(headers: &HeaderMap) -> (agent: String)
    ensures
        agent@ == agent_of(*headers),
{
    proof {
        reveal_strlit("user-agent");
    }
    match header_field(headers, "user-agent") {
        Some(text) => text,
        None => "<none>".to_string(),
    }
}

/// The text of the `Destination` field.
pub open spec fn destination_text(headers: HeaderMap) -> Option<Seq<char>> {
    crate::auth::field_text(headers, "destination"@)
}

/// Reads the `Destination` field as it stands, still encoded.
pub fn destination_field(headers: &HeaderMap) -> (text: Option<String>)
    ensures
        crate::text::optional_text(text) == destination_text(*headers),
{
    proof {
        reveal_strlit("destination");
    }
    header_field(headers, "destination")
}

/// The path to which a request moves or copies.
pub open spec fn destination_of(headers: HeaderMap) -> Option<Seq<char>> {
    match destination_text(headers) {
        Some(text) => Some(crate::paths::wire_path(text)),
        None => None,
    }
}

/// The path to which a request moves or copies.
pub fn request_destination(headers: &HeaderMap) -> (destination: Option<String>)
    ensures
        crate::text::optional_text(destination) == destination_of(*headers),
{
    match destination_field(headers) {
        Some(text) => Some(normalize_destination(&text)),
        None => None,
    }
}

/// Why a request is refused.
#[derive(Debug, Clone, Copy, PartialEq, Eq, Structural)]
pub enum Refusal {
    /// There is no `Authorization` header, or it is not text.
    NoHeader,
    /// The header is not of the Basic scheme.
    NotBasic,
    /// The header names other credentials.
    Mismatch,
}

impl Refusal {
    /// The reason in words.
    pub open spec fn text(self) -> Seq<char> {
        match self {
            Refusal::NoHeader => "missing or invalid Authorization header"@,
            Refusal::NotBasic => "could not parse Basic credentials"@,
            Refusal::Mismatch => "username/password mismatch"@,
        }
    }

    /// The reason in words.
    pub fn reason(self) -> (reason: &'static str)
        ensures
            reason@ == self.text(),
    {
        match self {
            Refusal::NoHeader => "missing or invalid Authorization header",
            Refusal::NotBasic => "could not parse Basic credentials",
            Refusal::Mismatch => "username/password mismatch",
        }
    }
}

/// Why a request is refused; none if it is served.
pub open spec fn refused(
    headers: HeaderMap,
    user: Seq<char>,
    pass: Seq<char>,
    method: Seq<char>,
) -> Option<Refusal> {
    if crate::auth::authorized(headers, user, pass, method) {
        None
    } else {
        match crate::auth::authorization(headers) {
            None => Some(Refusal::NoHeader),
            Some(value) => if crate::auth::basic_credentials(value) is None {
                Some(Refusal::NotBasic)
            } else {
                Some(Refusal::Mismatch)
            },
        }
    }
}

/// Decides whether a request is served, and if it is not, why.
pub fn refuse_request(headers: &HeaderMap, user: &str, pass: &str, method: &str) -> (refusal:
    Option<Refusal>)
    ensures
        refusal == refused(*headers, user@, pass@, method@),
{
    if is_authorized(headers, user, pass, method) {
        return None;
    }
    match authorization_field(headers) {
        None => Some(Refusal::NoHeader),
        Some(value) => match parse_basic_credentials(&value) {
            None => Some(Refusal::NotBasic),
            Some(_) => Some(Refusal::Mismatch),
        },
    }
}

/// The value of a required environment variable, or the message that it is
/// missing.
pub fn required_env_var(name: &str, read: Result<String, String>) -> (value: Result<
    String,
    String,
>)
    ensures
        read matches Ok(text) ==> value == Ok::<String, String>(text),
        read matches Err(reason) ==> value matches Err(message) && message@
            == "Missing required environment variable "@ + name@ + ": "@ + reason@,
{
    match read {
        Ok(text) => Ok(text),
        Err(reason) => Err(
            "Missing required environment variable ".to_string().concat(name).concat(": ").concat(
                &reason,
            ),
        ),
    }
}

// ---------------------------------------------------------------------------
// What is recorded and announced
// ---------------------------------------------------------------------------

/// A change to the files that a request made.
#[derive(Debug, Clone)]
pub struct FileChange {
    pub event_kind: EventKind,
    pub source_path: String,
    pub destination_path: Option<String>,
    /// Where the change left the resource.
    pub final_path: String,
    /// Whether the checksum of the resource is wanted.
    pub should_hash: bool,
}

/// The contents of a [`FileChange`].
pub struct FileChangeView {
    pub event_kind: EventKind,
    pub source_path: Seq<char>,
    pub destination_path: Option<Seq<char>>,
    pub final_path: Seq<char>,
    pub should_hash: bool,
}

impl View for FileChange {
    type V = FileChangeView;

    open spec fn view(&self) -> FileChangeView {
        FileChangeView {
            event_kind: self.event_kind,
            source_path: self.source_path@,
            destination_path: crate::text::optional_text(self.destination_path),
            final_path: self.final_path@,
            should_hash: self.should_hash,
        }
    }
}

/// The kinds of change that leave content to hash.
pub open spec fn leaves_content(kind: EventKind) -> bool {
    match kind {
        EventKind::Created
        | EventKind::Edited
        | EventKind::Renamed
        | EventKind::Moved
        | EventKind::Copied => true,
        EventKind::Deleted | EventKind::DirCreated => false,
    }
}

/// The change that a request made, if its event is stored.
pub open spec fn change_made(
    event: FileEvent,
    path: Seq<char>,
    destination: Option<Seq<char>>,
) -> Option<FileChangeView> {
    match storage_kind(event) {
        Some(event_kind) => Some(
            FileChangeView {
                event_kind,
                source_path: crate::paths::request_path(path),
                destination_path: destination,
                final_path: match destination {
                    Some(dest) => dest,
                    None => crate::paths::request_path(path),
                },
                should_hash: leaves_content(event_kind),
            },
        ),
        None => None,
    }
}

/// The change that a request made, if its event is stored.
pub fn file_change(event: &FileEvent, path: &str, destination: &Option<String>) -> (change: Option<
    FileChange,
>)
    ensures
        change is Some <==> change_made(
            *event,
            path@,
            crate::text::optional_text(*destination),
        ) is Some,
        change matches Some(c) ==> change_made(
            *event,
            path@,
            crate::text::optional_text(*destination),
        ) == Some(c@),
{
    match event_kind_for_storage(event) {
        Some(event_kind) => {
            let source_path: String = normalize_request_path(path);
            let final_path: String = match destination {
                Some(dest) => dest.clone(),
                None => source_path.clone(),
            };
            let should_hash: bool = match event_kind {
                EventKind::Created
                | EventKind::Edited
                | EventKind::Renamed
                | EventKind::Moved
                | EventKind::Copied => true,
                EventKind::Deleted | EventKind::DirCreated => false,
            };
            Some(
                FileChange {
                    event_kind,
                    source_path,
                    destination_path: copy_optional(destination),
                    final_path,
                    should_hash,
                },
            )
        },
        None => None,
    }
}

/// What is recorded of a change, with the checksum of its content.
pub open spec fn change_record(
    change: FileChangeView,
    checksum: Option<Seq<char>>,
    method: Seq<char>,
    status_code: u16,
    username: Seq<char>,
) -> EnvelopeView {
    EnvelopeView {
        event_kind: change.event_kind,
        source_path: change.source_path,
        destination_path: change.destination_path,
        checksum,
        method,
        status_code,
        username,
    }
}

/// What is announced of a change, with the checksum and size of its content.
pub open spec fn change_announcement(
    change: FileChangeView,
    checksum: Option<Seq<char>>,
    size: u64,
    username: Seq<char>,
) -> ChangeEventView {
    ChangeEventView {
        event_kind: change.event_kind,
        source_path: change.source_path,
        destination_path: change.destination_path,
        checksum,
        size,
        username,
    }
}

/// What is recorded and announced of a change, given the checksum and the size
/// of its content; content that is missing has no checksum and size zero.
pub fn describe_change(
    change: FileChange,
    content: Option<(String, u64)>,
    method: &str,
    status_code: u16,
    username: &str,
) -> (described: (EventEnvelope, FileChangeEvent))
    ensures
        content matches Some((checksum, size)) ==> {
            &&& described.0@ == change_record(
                change@,
                Some(checksum@),
                method@,
                status_code,
                username@,
            )
            &&& described.1@ == change_announcement(change@, Some(checksum@), size, username@)
        },
        content is None ==> {
            &&& described.0@ == change_record(change@, None, method@, status_code, username@)
            &&& described.1@ == change_announcement(change@, None, 0, username@)
        },
{
    let (checksum, size): (Option<String>, u64) = match content {
        Some((checksum, size)) => (Some(checksum), size),
        None => (None, 0),
    };
    let record = EventEnvelope {
        event_kind: change.event_kind,
        source_path: change.source_path.clone(),
        destination_path: copy_optional(&change.destination_path),
        checksum: copy_optional(&checksum),
        method: method.to_string(),
        status_code,
        username: username.to_string(),
    };
    let announcement = FileChangeEvent {
        event_kind: change.event_kind,
        source_path: change.source_path,
        destination_path: change.destination_path,
        checksum,
        size,
        username: username.to_string(),
    };
    (record, announcement)
}

/// The checksum and the size of a file's content, if it could be read.
pub fn file_checksum_and_size(content: Option<Vec<u8>>) -> (found: Option<(String, u64)>)
    ensures
        found is Some <==> content is Some,
        content matches Some(data) ==> found matches Some((checksum, size)) && checksum@
            == crate::checksum::stored_checksum(data@) && size == data@.len(),
{
    match content {
        Some(data) => {
            let size: u64 = data.len() as u64;
            Some((sha256_hex(&data), size))
        },
        None => None,
    }
}

/// What is recorded and announced of a change, given the content that the
/// resource has after it, if any could be read.
pub fn spawn_p2p_announcement(
    change: FileChange,
    content: Option<Vec<u8>>,
    method: &str,
    status_code: u16,
    username: &str,
) -> (described: (EventEnvelope, FileChangeEvent))
    ensures
        content matches Some(data) ==> {
            &&& described.0@ == change_record(
                change@,
                Some(crate::checksum::stored_checksum(data@)),
                method@,
                status_code,
                username@,
            )
            &&& described.1@ == change_announcement(
                change@,
                Some(crate::checksum::stored_checksum(data@)),
                data@.len() as u64,
                username@,
            )
        },
        content is None ==> {
            &&& described.0@ == change_record(change@, None, method@, status_code, username@)
            &&& described.1@ == change_announcement(change@, None, 0, username@)
        },
{
    let found: Option<(String, u64)> = file_checksum_and_size(content);
    describe_change(change, found, method, status_code, username)
}

// ---------------------------------------------------------------------------
// Laws
// ---------------------------------------------------------------------------

/// A client or server error is never taken for an event.
pub proof fn law_errors_are_unknown(
    method: Seq<char>,
    status: u16,
    path: Seq<char>,
    destination: Option<Seq<char>>,
)
    requires
        error_status(status),
    ensures
        event_of(method, status, path, destination) == FileEvent::Unknown,
        change_made(event_of(method, status, path, destination), path, destination) is None,
{
}

/// Only requests that succeeded change what is stored.
pub proof fn law_only_successes_are_stored(
    method: Seq<char>,
    status: u16,
    path: Seq<char>,
    destination: Option<Seq<char>>,
)
    requires
        storage_kind(event_of(method, status, path, destination)) is Some,
    ensures
        200 <= status < 300,
{
}

/// Requests that only read never change what is stored.
pub proof fn law_reading_stores_nothing(
    method: Seq<char>,
    status: u16,
    path: Seq<char>,
    destination: Option<Seq<char>>,
)
    requires
        method == "GET"@ || method == "HEAD"@ || method == "PROPFIND"@ || method == "OPTIONS"@,
    ensures
        change_made(event_of(method, status, path, destination), path, destination) is None,
{
    reveal_strlit("GET");
    reveal_strlit("HEAD");
    reveal_strlit("PROPFIND");
    reveal_strlit("OPTIONS");
    reveal_strlit("PUT");
    reveal_strlit("DELETE");
    reveal_strlit("MOVE");
    reveal_strlit("COPY");
    reveal_strlit("MKCOL");
    assert("GET"@[0] == 'G' && "PUT"@[0] == 'P');
    assert("HEAD"@[0] == 'H' && "MOVE"@[0] == 'M' && "COPY"@[0] == 'C');
    assert("GET"@.len() == 3 && "PUT"@.len() == 3 && "DELETE"@.len() == 6 && "MOVE"@.len() == 4
        && "COPY"@.len() == 4 && "MKCOL"@.len() == 5 && "HEAD"@.len() == 4 && "PROPFIND"@.len()
        == 8 && "OPTIONS"@.len() == 7);
}

/// A successful move within one directory is a rename, any other a move.
pub proof fn law_rename_stays_in_directory(
    status: u16,
    path: Seq<char>,
    destination: Option<Seq<char>>,
)
    requires
        status == 201 || status == 204,
    ensures
        event_of("MOVE"@, status, path, destination) == FileEvent::Renamed <==> same_directory(
            path,
            destination,
        ),
        event_of("MOVE"@, status, path, destination) == FileEvent::Moved <==> !same_directory(
            path,
            destination,
        ),
{
    reveal_strlit("MOVE");
    reveal_strlit("PUT");
    reveal_strlit("DELETE");
    assert("MOVE"@.len() == 4 && "PUT"@.len() == 3 && "DELETE"@.len() == 6);
}

/// Whether a move is a rename is decided by the decoded paths, whether the
/// destination is a URL or a path.
pub proof fn law_rename_goes_by_decoded_paths(host: Seq<char>, from: Seq<char>, to: Seq<char>)
    requires
        to.len() > 0,
        to[0] == '/',
        forall|i: int| 0 <= i < host.len() ==> #[trigger] host[i] != '/',
    ensures
        same_directory(from, Some("http://"@ + host + to)) == (crate::paths::parent_of(
            crate::paths::request_path(to),
        ) == crate::paths::parent_of(crate::paths::request_path(from))),
        same_directory(from, Some("https://"@ + host + to)) == same_directory(
            from,
            Some("http://"@ + host + to),
        ),
        same_directory(from, Some(to)) == same_directory(from, Some("http://"@ + host + to)),
{
    crate::paths::law_url_names_its_path(host, to);
    reveal_strlit("http://");
    reveal_strlit("https://");
    assert(to.len() >= 7 ==> to.take(7)[0] == '/');
    assert(to.len() >= 8 ==> to.take(8)[0] == '/');
    assert("http://"@[0] == 'h' && "https://"@[0] == 'h');
    assert(crate::paths::url_path(to) == to);
}

/// What is recorded of a change and what is announced of it tell the same.
pub proof fn law_record_and_announcement_agree(
    change: FileChangeView,
    checksum: Option<Seq<char>>,
    size: u64,
    method: Seq<char>,
    status_code: u16,
    username: Seq<char>,
)
    ensures
        ({
            let record = change_record(change, checksum, method, status_code, username);
            let announced = change_announcement(change, checksum, size, username);
            &&& record.event_kind == announced.event_kind
            &&& record.source_path == announced.source_path
            &&& record.destination_path == announced.destination_path
            &&& record.checksum == announced.checksum
            &&& record.username == announced.username
        }),
{
}

/// The paths of a recorded change are absolute.
pub proof fn law_changed_paths_are_absolute(
    event: FileEvent,
    path: Seq<char>,
    headers: HeaderMap,
    change: FileChangeView,
)
    requires
        change_made(event, path, destination_of(headers)) == Some(change),
    ensures
        change.source_path.len() > 0 && change.source_path[0] == '/',
        change.final_path.len() > 0 && change.final_path[0] == '/',
{
    crate::paths::law_normalized_paths_are_absolute(path);
    match destination_text(headers) {
        Some(text) => crate::paths::law_normalized_paths_are_absolute(text),
        None => {},
    }
}

/// Exactly the requests that are not authorized are refused.
pub proof fn law_refusal_iff_unauthorized(
    headers: HeaderMap,
    user: Seq<char>,
    pass: Seq<char>,
    method: Seq<char>,
)
    ensures
        refused(headers, user, pass, method) is None <==> crate::auth::authorized(
            headers,
            user,
            pass,
            method,
        ),
        method == "OPTIONS"@ ==> refused(headers, user, pass, method) is None,
{
}

proof fn lemma_methods_differ()
    ensures
        "PUT"@.len() == 3 && "PUT"@[0] == 'P',
        "GET"@.len() == 3 && "GET"@[0] == 'G',
        "MOVE"@.len() == 4 && "MOVE"@[0] == 'M',
        "COPY"@.len() == 4 && "COPY"@[0] == 'C',
        "LOCK"@.len() == 4 && "LOCK"@[0] == 'L',
        "HEAD"@.len() == 4 && "HEAD"@[0] == 'H',
        "MKCOL"@.len() == 5,
        "DELETE"@.len() == 6 && "DELETE"@[0] == 'D',
        "UNLOCK"@.len() == 6 && "UNLOCK"@[0] == 'U',
        "OPTIONS"@.len() == 7,
        "PROPFIND"@.len() == 8,
        "PROPPATCH"@.len() == 9,
{
    reveal_strlit("PUT");
    reveal_strlit("GET");
    reveal_strlit("MOVE");
    reveal_strlit("COPY");
    reveal_strlit("LOCK");
    reveal_strlit("HEAD");
    reveal_strlit("MKCOL");
    reveal_strlit("DELETE");
    reveal_strlit("UNLOCK");
    reveal_strlit("OPTIONS");
    reveal_strlit("PROPFIND");
    reveal_strlit("PROPPATCH");
}

/// Each event stands for one method and its statuses, and for nothing else:
/// whatever path and destination the request carries, a copy is a copy and a
/// deletion a deletion. Only a move can be a rename or a move.
pub proof fn law_events_stand_for_methods(
    method: Seq<char>,
    status: u16,
    path: Seq<char>,
    destination: Option<Seq<char>>,
)
    ensures
        ({
            let event = event_of(method, status, path, destination);
            &&& event == FileEvent::Created <==> method == "PUT"@ && status == 201
            &&& event == FileEvent::Edited <==> method == "PUT"@ && status == 204
            &&& event == FileEvent::Deleted <==> method == "DELETE"@ && (status == 200 || status
                == 204)
            &&& event == FileEvent::Renamed || event == FileEvent::Moved <==> method == "MOVE"@ && (
            status == 201 || status == 204)
            &&& event == FileEvent::Copied <==> method == "COPY"@ && (status == 201 || status
                == 204)
            &&& event == FileEvent::DirCreated <==> method == "MKCOL"@ && status == 201
            &&& event == FileEvent::PropPatched <==> method == "PROPPATCH"@ && status == 207
            &&& event == FileEvent::Locked <==> method == "LOCK"@ && status == 200
            &&& event == FileEvent::Unlocked <==> method == "UNLOCK"@ && status == 204
            &&& event == FileEvent::Read <==> (method == "GET"@ || method == "HEAD"@) && (status
                == 200 || status == 206)
            &&& event == FileEvent::Listed <==> method == "PROPFIND"@ && status == 207
            &&& event == FileEvent::Options <==> method == "OPTIONS"@ && status == 200
        }),
{
    lemma_methods_differ();
}

/// Path and destination make a difference to a move alone.
pub proof fn law_only_moves_depend_on_paths(
    method: Seq<char>,
    status: u16,
    path: Seq<char>,
    destination: Option<Seq<char>>,
    other_path: Seq<char>,
    other_destination: Option<Seq<char>>,
)
    requires
        method != "MOVE"@,
    ensures
        event_of(method, status, path, destination) == event_of(
            method,
            status,
            other_path,
            other_destination,
        ),
{
}

/// A successful move is a rename exactly if it names a destination with the
/// same parent: both paths, decoded, have the same text before the last slash.
pub proof fn law_rename_keeps_the_parent(
    status: u16,
    path: Seq<char>,
    destination: Option<Seq<char>>,
)
    requires
        status == 201 || status == 204,
    ensures
        event_of("MOVE"@, status, path, destination) == FileEvent::Renamed <==> destination is Some
            && exists|parent: Seq<char>|
            crate::paths::is_parent(parent, crate::paths::request_path(path)) && #[trigger]
            crate::paths::is_parent(parent, crate::paths::wire_path(destination->0)),
{
    lemma_methods_differ();
    if let Some(dest) = destination {
        let from = crate::paths::request_path(path);
        let to = crate::paths::wire_path(dest);
        crate::paths::law_parent_stands_before_the_last_slash(from, from);
        crate::paths::law_parent_stands_before_the_last_slash(to, to);
        if same_directory(path, destination) {
            let parent = crate::paths::parent_of(from);
            assert(crate::paths::is_parent(parent, from) && crate::paths::is_parent(parent, to));
        }
        if exists|parent: Seq<char>|
            crate::paths::is_parent(parent, from) && #[trigger] crate::paths::is_parent(
                parent,
                to,
            ) {
            let parent = choose|parent: Seq<char>|
                crate::paths::is_parent(parent, from) && #[trigger] crate::paths::is_parent(
                    parent,
                    to,
                );
            crate::paths::law_parent_stands_before_the_last_slash(from, parent);
            crate::paths::law_parent_stands_before_the_last_slash(to, parent);
        }
    }
}

/// Exactly the events that change files are stored, each under its own kind.
pub proof fn law_changes_are_stored_under_their_kind(event: FileEvent)
    ensures
        storage_kind(event) == Some(EventKind::Created) <==> event == FileEvent::Created,
        storage_kind(event) == Some(EventKind::Edited) <==> event == FileEvent::Edited,
        storage_kind(event) == Some(EventKind::Deleted) <==> event == FileEvent::Deleted,
        storage_kind(event) == Some(EventKind::Renamed) <==> event == FileEvent::Renamed,
        storage_kind(event) == Some(EventKind::Moved) <==> event == FileEvent::Moved,
        storage_kind(event) == Some(EventKind::Copied) <==> event == FileEvent::Copied,
        storage_kind(event) == Some(EventKind::DirCreated) <==> event == FileEvent::DirCreated,
{
}

/// The change that a request made is told as the request was: from the path of
/// the request to the destination that it names, if it names one, where the
/// resource then is. Its content is wanted unless it was deleted or is a
/// folder.
pub proof fn law_change_tells_the_request(
    event: FileEvent,
    path: Seq<char>,
    destination: Option<Seq<char>>,
)
    ensures
        change_made(event, path, destination) is Some <==> storage_kind(event) is Some,
        change_made(event, path, destination) matches Some(change) ==> {
            &&& storage_kind(event) == Some(change.event_kind)
            &&& change.source_path == crate::paths::request_path(path)
            &&& change.destination_path == destination
            &&& destination is Some ==> change.final_path == destination->0
            &&& destination is None ==> change.final_path == change.source_path
            &&& change.should_hash <==> event != FileEvent::Deleted && event
                != FileEvent::DirCreated
        },
{
}

/// What is recorded and what is announced of a change tell all of it: its kind
/// and paths, the checksum and the size of its content, who made it and how.
pub proof fn law_record_and_announcement_tell_the_change(
    change: FileChangeView,
    checksum: Option<Seq<char>>,
    size: u64,
    method: Seq<char>,
    status_code: u16,
    username: Seq<char>,
)
    ensures
        ({
            let record = change_record(change, checksum, method, status_code, username);
            &&& record.event_kind == change.event_kind
            &&& record.source_path == change.source_path
            &&& record.destination_path == change.destination_path
            &&& record.checksum == checksum
            &&& record.method == method
            &&& record.status_code == status_code
            &&& record.username == username
        }),
        ({
            let announced = change_announcement(change, checksum, size, username);
            &&& announced.event_kind == change.event_kind
            &&& announced.source_path == change.source_path
            &&& announced.destination_path == change.destination_path
            &&& announced.checksum == checksum
            &&& announced.size == size
            &&& announced.username == username
        }),
{
}

/// A change is seen with all that it holds.
pub proof fn law_changes_tell_all(change: FileChange)
    ensures
        change@.event_kind == change.event_kind,
        change@.source_path == change.source_path@,
        change@.destination_path is Some <==> change.destination_path is Some,
        change.destination_path is Some ==> change@.destination_path->0
            == change.destination_path->0@,
        change@.final_path == change.final_path@,
        change@.should_hash == change.should_hash,
{
}

/// A request is refused for the first thing that is wrong with it: that it has
/// no readable `Authorization` field, that the field holds no Basic
/// credentials, or that these are not the expected ones.
pub proof fn law_refusal_tells_what_is_wrong(
    headers: HeaderMap,
    user: Seq<char>,
    pass: Seq<char>,
    method: Seq<char>,
)
    requires
        method != "OPTIONS"@,
    ensures
        ({
            let value = crate::auth::field_text(headers, "authorization"@);
            let refusal = refused(headers, user, pass, method);
            &&& value is None <==> refusal == Some(Refusal::NoHeader)
            &&& value is Some && crate::auth::basic_credentials(value->0) is None <==> refusal
                == Some(Refusal::NotBasic)
            &&& value is Some && crate::auth::basic_credentials(value->0) is Some
                && crate::auth::basic_credentials(value->0) != Some((user, pass)) <==> refusal
                == Some(Refusal::Mismatch)
        }),
{
}

/// The user agent of a request is the text of that field, or a mark where
/// there is none; its destination is the path that the `Destination` field
/// names.
pub proof fn law_request_fields_are_read(headers: HeaderMap)
    ensures
        crate::auth::field_text(headers, "user-agent"@) matches Some(text) ==> agent_of(headers)
            == text,
        crate::auth::field_text(headers, "user-agent"@) is None ==> agent_of(headers)
            == "<none>"@,
        destination_text(headers) == crate::auth::field_text(headers, "destination"@),
        destination_of(headers) is Some <==> crate::auth::field_text(headers, "destination"@)
            is Some,
        crate::auth::field_text(headers, "destination"@) matches Some(text) ==> destination_of(
            headers,
        ) == Some(crate::paths::wire_path(text)),
{
}

/// A line of the log tells the event first, then method, address, status and
/// user agent, in this order; it tells of an error exactly if the status is
/// that of a client or server error.
pub proof fn law_log_line_tells_the_request(
    event: FileEvent,
    method: Seq<char>,
    uri: Seq<char>,
    displayed: Seq<char>,
    agent: Seq<char>,
    status: u16,
)
    ensures
        ({
            let text = log_text(event, method, uri, displayed, agent);
            let head = seq!['['] + event_tag(event) + seq![']', ' '] + method + seq![' '] + uri
                + seq![' ', '-', '>', ' '];
            let tail = seq![' ', '(', 'u', 'a', '='] + agent + seq![')'];
            text == head + displayed + tail
        }),
        error_status(status) <==> status >= 400 && status <= 599,
{
    reveal_strlit("[");
    reveal_strlit("] ");
    reveal_strlit(" ");
    reveal_strlit(" -> ");
    reveal_strlit(" (ua=");
    reveal_strlit(")");
    assert("["@ =~= seq!['[']);
    assert("] "@ =~= seq![']', ' ']);
    assert(" "@ =~= seq![' ']);
    assert(" -> "@ =~= seq![' ', '-', '>', ' ']);
    assert(" (ua="@ =~= seq![' ', '(', 'u', 'a', '=']);
    assert(")"@ =~= seq![')']);
    let text = log_text(event, method, uri, displayed, agent);
    let head = seq!['['] + event_tag(event) + seq![']', ' '] + method + seq![' '] + uri + seq![
        ' ',
        '-',
        '>',
        ' ',
    ];
    let tail = seq![' ', '(', 'u', 'a', '='] + agent + seq![')'];
    assert(text =~= head + displayed + tail);
}

/// No two events have the same name in the log.
pub proof fn law_log_names_are_distinct(a: FileEvent, b: FileEvent)
    ensures
        event_tag(a) == event_tag(b) <==> a == b,
{
    reveal_strlit("FILE CREATED");
    reveal_strlit("FILE EDITED");
    reveal_strlit("FILE DELETED");
    reveal_strlit("FILE RENAMED");
    reveal_strlit("FILE MOVED");
    reveal_strlit("FILE COPIED");
    reveal_strlit("DIR CREATED");
    reveal_strlit("PROPS PATCHED");
    reveal_strlit("RESOURCE LOCKED");
    reveal_strlit("RESOURCE UNLOCKED");
    reveal_strlit("FILE READ");
    reveal_strlit("DIR LISTED");
    reveal_strlit("OPTIONS");
    reveal_strlit("UNKNOWN");
    assert("FILE CREATED"@.len() == 12 && "FILE CREATED"@[5] == 'C');
    assert("FILE DELETED"@.len() == 12 && "FILE DELETED"@[5] == 'D');
    assert("FILE RENAMED"@.len() == 12 && "FILE RENAMED"@[5] == 'R');
    assert("FILE EDITED"@.len() == 11 && "FILE EDITED"@[5] == 'E');
    assert("FILE COPIED"@.len() == 11 && "FILE COPIED"@[5] == 'C');
    assert("DIR CREATED"@.len() == 11 && "DIR CREATED"@[5] == 'R');
    assert("FILE MOVED"@.len() == 10 && "FILE MOVED"@[0] == 'F');
    assert("DIR LISTED"@.len() == 10 && "DIR LISTED"@[0] == 'D');
    assert("PROPS PATCHED"@.len() == 13);
    assert("RESOURCE LOCKED"@.len() == 15);
    assert("RESOURCE UNLOCKED"@.len() == 17);
    assert("FILE READ"@.len() == 9);
    assert("OPTIONS"@.len() == 7 && "OPTIONS"@[0] == 'O');
    assert("UNKNOWN"@.len() == 7 && "UNKNOWN"@[0] == 'U');
}

/// An event that is stored has the name of its kind in the log, in capitals,
/// behind what it concerns; the others have names of their own.
pub proof fn law_log_names_tell_the_kind(event: FileEvent)
    ensures
        storage_kind(event) is Some && event != FileEvent::DirCreated ==> {
            let tag = event_tag(event);
            &&& tag.take(5) == seq!['F', 'I', 'L', 'E', ' ']
            &&& crate::text::ascii_lowercase(tag.skip(5)) == storage_kind(event)->0.name()
            &&& forall|i: int| 5 <= i < tag.len() ==> 'A' <= #[trigger] tag[i] <= 'Z'
        },
        event_tag(FileEvent::DirCreated) == "DIR CREATED"@,
        event_tag(FileEvent::PropPatched) == "PROPS PATCHED"@,
        event_tag(FileEvent::Locked) == "RESOURCE LOCKED"@,
        event_tag(FileEvent::Unlocked) == "RESOURCE UNLOCKED"@,
        event_tag(FileEvent::Read) == "FILE READ"@,
        event_tag(FileEvent::Listed) == "DIR LISTED"@,
        event_tag(FileEvent::Options) == "OPTIONS"@,
        event_tag(FileEvent::Unknown) == "UNKNOWN"@,
{
    reveal_strlit("FILE CREATED");
    reveal_strlit("FILE EDITED");
    reveal_strlit("FILE DELETED");
    reveal_strlit("FILE RENAMED");
    reveal_strlit("FILE MOVED");
    reveal_strlit("FILE COPIED");
    reveal_strlit("created");
    reveal_strlit("edited");
    reveal_strlit("deleted");
    reveal_strlit("renamed");
    reveal_strlit("moved");
    reveal_strlit("copied");
    if storage_kind(event) is Some && event != FileEvent::DirCreated {
        let tag = event_tag(event);
        assert(tag.take(5) =~= seq!['F', 'I', 'L', 'E', ' ']);
        assert(crate::text::ascii_lowercase(tag.skip(5)) =~= storage_kind(event)->0.name());
    }
}

} // verus!
