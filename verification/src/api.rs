//! The REST API: who may use it and what it answers.

use hyper::HeaderMap;
use vstd::prelude::*;

use crate::auth::is_authorized;
use crate::manifest::{EntryView, Manifest, ManifestEntry, TombstoneEntry, TombstoneView};
use crate::numbers::parse_unsigned;
use crate::p2p::{P2pStatus, P2pTransferInfo};
use crate::sorting::sort_order;
use crate::text::{copy_optional, starts_with, text_eq};

verus! {

/// The status of a request without valid credentials.
pub const UNAUTHORIZED: u16 = 401;

/// The status of a request that the server failed to answer.
pub const INTERNAL_SERVER_ERROR: u16 = 500;

/// The number of items on a page where none is asked for.
pub const DEFAULT_LIMIT: usize = 100;

/// The largest number of items on a page.
pub const MAX_LIMIT: usize = 1000;

// ---------------------------------------------------------------------------
// Points in time
// ---------------------------------------------------------------------------

/// A point in time: seconds since the Unix epoch and nanoseconds of the second.
#[derive(Debug, Clone, Copy, PartialEq, Eq, Structural)]
pub struct Timestamp {
    pub secs: i64,
    pub nanos: u32,
}

/// The first second of the first year that dates reach.
pub const MIN_TIMESTAMP_SECS: i64 = -8334601228800;

/// The last second of the last year that dates reach.
pub const MAX_TIMESTAMP_SECS: i64 = 8210266876799;

impl Timestamp {
    /// A date reaches the second, and the nanoseconds are within it.
    pub open spec fn wf(self) -> bool {
        MIN_TIMESTAMP_SECS <= self.secs <= MAX_TIMESTAMP_SECS && self.nanos < 1_000_000_000
    }
}

/// Wraps `chrono::DateTime::<Utc>::from_timestamp`, and reads the seconds and
/// nanoseconds of what comes out: the given ones, if the year is one that
/// dates reach, from 262144 BCE to 262142 CE.
#[verifier::external_body]
pub(crate) fn checked_timestamp(secs: i64, nanos: u32) -> (parts: Option<(i64, u32)>)
    requires
        nanos < 1_000_000_000,
    ensures
        parts is Some <==> MIN_TIMESTAMP_SECS <= secs <= MAX_TIMESTAMP_SECS,
        parts matches Some((s, n)) ==> s == secs && n == nanos,
{
    chrono::DateTime::<chrono::Utc>::from_timestamp(secs, nanos)
        .map(|time| (time.timestamp(), time.timestamp_subsec_nanos()))
}

/// Wraps `chrono::Utc::now`, and reads the seconds and nanoseconds of what
/// comes out: always a date, with the nanoseconds of an ordinary second. Which
/// one depends on the clock, and is left unsaid; a clock that stands before the
/// Unix epoch makes the call panic.
#[verifier::external_body]
pub(crate) fn utc_now() -> (parts: (i64, u32))
    ensures
        MIN_TIMESTAMP_SECS <= parts.0 <= MAX_TIMESTAMP_SECS,
        parts.1 < 1_000_000_000,
{
    let now = chrono::Utc::now();
    (now.timestamp(), now.timestamp_subsec_nanos())
}

/// The present: a point in time that a date reaches. Which one depends on the
/// clock.
fn present() -> (now: Timestamp)
    ensures
        now.wf(),
{
    let (secs, nanos): (i64, u32) = utc_now();
    Timestamp { secs, nanos }
}

/// The signed number with the same lowest sixty-four bits.
pub open spec fn wrapped(n: nat) -> int {
    let low = n % 0x1_0000_0000_0000_0000;
    if low < 0x8000_0000_0000_0000 {
        low as int
    } else {
        low - 0x1_0000_0000_0000_0000
    }
}

/// The point in time that a number of nanoseconds in digits stands for; none
/// where it is no number, or no date reaches it.
pub open spec fn timestamp_value(text: Seq<char>) -> Option<Timestamp> {
    match crate::numbers::unsigned_value(text) {
        Some(nanos) => {
            let secs = wrapped(nanos / 1_000_000_000);
            if nanos <= u128::MAX && MIN_TIMESTAMP_SECS <= secs <= MAX_TIMESTAMP_SECS {
                Some(Timestamp { secs: secs as i64, nanos: (nanos % 1_000_000_000) as u32 })
            } else {
                None
            }
        },
        None => None,
    }
}

/// The point in time that a text stands for, or `now` where it stands for
/// none.
pub open spec fn timestamp_or(text: Seq<char>, now: Timestamp) -> Timestamp {
    match timestamp_value(text) {
        Some(time) => time,
        None => now,
    }
}

fn wrap_to_i64(n: u128) -> (wrapped_n: i64)
    ensures
        wrapped_n == wrapped(n as nat),
{
    let low: u128 = n % 0x1_0000_0000_0000_0000u128;
    if low < 0x8000_0000_0000_0000u128 {
        low as i64
    } else {
        (low as i128 - 0x1_0000_0000_0000_0000i128) as i64
    }
}

/// Reads a number of nanoseconds as a point in time.
pub fn read_timestamp(text: &str) -> (time: Option<Timestamp>)
    ensures
        time == timestamp_value(text@),
{
    match parse_unsigned(text, u128::MAX) {
        Some(total) => {
            let secs: i64 = wrap_to_i64(total / 1_000_000_000);
            let nanos: u32 = (total % 1_000_000_000) as u32;
            match checked_timestamp(secs, nanos) {
                Some((secs, nanos)) => Some(Timestamp { secs, nanos }),
                None => None,
            }
        },
        None => None,
    }
}

/// Reads a number of nanoseconds as a point in time; any other text gives the
/// present.
pub fn parse_timestamp(text: &str) -> (time: Timestamp)
    ensures
        timestamp_value(text@) matches Some(value) ==> time == value,
        time.wf(),
{
    match read_timestamp(text) {
        Some(time) => time,
        None => present(),
    }
}

// ---------------------------------------------------------------------------
// Authentication and health
// ---------------------------------------------------------------------------

/// Checks the credentials of a request.
pub fn check_auth(headers: &HeaderMap, auth_user: &str, auth_pass: &str) -> (allowed: Result<
    (),
    u16,
>)
    ensures
        allowed is Ok <==> crate::auth::authorized(
            *headers,
            auth_user@,
            auth_pass@,
            "GET"@,
        ),
        allowed matches Err(status) ==> status == UNAUTHORIZED,
{
    if is_authorized(headers, auth_user, auth_pass, "GET") {
        Ok(())
    } else {
        Err(UNAUTHORIZED)
    }
}

/// What the API offers.
#[derive(Debug, Clone, Copy, PartialEq, Eq, Structural)]
pub enum Endpoint {
    Health,
    Status,
    Peers,
    Files,
}

impl Endpoint {
    /// The path of the endpoint.
    pub open spec fn route(self) -> Seq<char> {
        match self {
            Endpoint::Health => "/health"@,
            Endpoint::Status => "/api/v1/status"@,
            Endpoint::Peers => "/api/v1/peers"@,
            Endpoint::Files => "/api/v1/files"@,
        }
    }

    /// The path of the endpoint.
    pub fn path(self) -> (path: &'static str)
        ensures
            path@ == self.route(),
    {
        match self {
            Endpoint::Health => "/health",
            Endpoint::Status => "/api/v1/status",
            Endpoint::Peers => "/api/v1/peers",
            Endpoint::Files => "/api/v1/files",
        }
    }
}

/// Whether a request to an endpoint is answered: the health check is public,
/// the others need the expected credentials.
pub open spec fn admitted(
    endpoint: Endpoint,
    headers: HeaderMap,
    user: Seq<char>,
    pass: Seq<char>,
) -> bool {
    endpoint == Endpoint::Health || crate::auth::authorized(headers, user, pass, "GET"@)
}

/// Decides whether a request to an endpoint is answered.
pub fn check_endpoint(endpoint: Endpoint, headers: &HeaderMap, auth_user: &str, auth_pass: &str) -> (allowed:
    Result<(), u16>)
    ensures
        allowed is Ok <==> admitted(endpoint, *headers, auth_user@, auth_pass@),
        allowed matches Err(status) ==> status == UNAUTHORIZED,
{
    match endpoint {
        Endpoint::Health => Ok(()),
        Endpoint::Status | Endpoint::Peers | Endpoint::Files => check_auth(
            headers,
            auth_user,
            auth_pass,
        ),
    }
}

/// The answer to a health check.
#[derive(Debug, Clone)]
pub struct HealthResponse {
    pub status: String,
    pub version: String,
    pub uptime_seconds: u64,
}

/// The answer to a health check.
pub fn health_response(version: &str, uptime_seconds: u64) -> (response: HealthResponse)
    ensures
        response.status@ == "ok"@,
        response.version@ == version@,
        response.uptime_seconds == uptime_seconds,
{
    HealthResponse { status: "ok".to_string(), version: version.to_string(), uptime_seconds }
}

// ---------------------------------------------------------------------------
// Status
// ---------------------------------------------------------------------------

/// What is going on between this node and its peers.
#[derive(Debug, Clone)]
pub struct SyncStatus {
    pub is_active: bool,
    pub current_transfer: Option<P2pTransferInfo>,
    pub queue_length: usize,
}

/// The answer to a request for the status.
#[derive(Debug, Clone)]
pub struct StatusResponse {
    pub sync: SyncStatus,
    pub peers_connected: usize,
}

/// The answer to a request for the status, given what the p2p worker replied;
/// an error if it did not.
pub fn status_response(reply: Option<P2pStatus>) -> (response: Result<StatusResponse, u16>)
    ensures
        reply is None ==> response == Err::<StatusResponse, u16>(INTERNAL_SERVER_ERROR),
        reply matches Some(status) ==> response == Ok::<StatusResponse, u16>(
            StatusResponse {
                sync: SyncStatus {
                    is_active: status.is_syncing,
                    current_transfer: status.current_transfer,
                    queue_length: status.queue_length,
                },
                peers_connected: status.peers_connected,
            },
        ),
{
    match reply {
        Some(status) => Ok(
            StatusResponse {
                sync: SyncStatus {
                    is_active: status.is_syncing,
                    current_transfer: status.current_transfer,
                    queue_length: status.queue_length,
                },
                peers_connected: status.peers_connected,
            },
        ),
        None => Err(INTERNAL_SERVER_ERROR),
    }
}

// ---------------------------------------------------------------------------
// Pages
// ---------------------------------------------------------------------------

/// Which part of a list an answer holds.
#[derive(Debug, Clone, Copy, PartialEq, Eq, Structural)]
pub struct Pagination {
    pub limit: usize,
    pub offset: usize,
    pub total: usize,
    pub has_more: bool,
}

/// The number of items on a page.
pub open spec fn page_limit(limit: Option<usize>) -> usize {
    match limit {
        Some(n) => if n <= MAX_LIMIT {
            n
        } else {
            MAX_LIMIT
        },
        None => DEFAULT_LIMIT,
    }
}

/// Where a page starts.
pub open spec fn page_offset(offset: Option<usize>) -> usize {
    match offset {
        Some(n) => n,
        None => 0,
    }
}

/// At most the first `n` items.
pub open spec fn at_most<A>(items: Seq<A>, n: int) -> Seq<A> {
    if n < items.len() {
        items.take(n)
    } else {
        items
    }
}

/// The items without the first `n`.
pub open spec fn beyond<A>(items: Seq<A>, n: int) -> Seq<A> {
    if n < items.len() {
        items.skip(n)
    } else {
        Seq::empty()
    }
}

/// A page of a list.
pub open spec fn page<A>(items: Seq<A>, offset: int, limit: int) -> Seq<A> {
    at_most(beyond(items, offset), limit)
}

/// Which part of a list of `total` items an answer holds.
pub open spec fn pagination(
    limit: Option<usize>,
    offset: Option<usize>,
    total: usize,
) -> Pagination {
    Pagination {
        limit: page_limit(limit),
        offset: page_offset(offset),
        total,
        has_more: page_offset(offset) + page_limit(limit) < total,
    }
}

/// Works out which part of a list of `total` items an answer holds.
pub fn paginate(limit: Option<usize>, offset: Option<usize>, total: usize) -> (part: Pagination)
    ensures
        part == pagination(limit, offset, total),
{
    let limit: usize = match limit {
        Some(n) => if n <= MAX_LIMIT {
            n
        } else {
            MAX_LIMIT
        },
        None => DEFAULT_LIMIT,
    };
    let offset: usize = match offset {
        Some(n) => n,
        None => 0,
    };
    Pagination { limit, offset, total, has_more: offset < total && limit < total - offset }
}

/// The first and the last index of a page of a list of `len` items.
fn page_bounds(offset: usize, limit: usize, len: usize) -> (bounds: (usize, usize))
    ensures
        bounds.0 <= bounds.1 <= len,
        offset < len ==> bounds.0 == offset,
        offset >= len ==> bounds.0 == bounds.1,
        offset < len && limit < len - offset ==> bounds.1 == offset + limit,
        offset < len && limit >= len - offset ==> bounds.1 == len,
{
    let start: usize = if offset < len {
        offset
    } else {
        len
    };
    let end: usize = if limit < len - start {
        start + limit
    } else {
        len
    };
    (start, end)
}

// ---------------------------------------------------------------------------
// Peers
// ---------------------------------------------------------------------------

/// What is known of a connected peer.
#[derive(Debug, Clone)]
pub struct PeerInfo {
    pub peer_id: String,
    pub connected_since: Timestamp,
    pub addresses: Vec<String>,
    pub last_heartbeat: Timestamp,
    pub is_synced: bool,
}

/// The parameters of a request for peers.
#[derive(Debug, Clone, Copy)]
pub struct PeersQuery {
    pub limit: Option<usize>,
    pub offset: Option<usize>,
}

/// The answer to a request for peers.
#[derive(Debug, Clone)]
pub struct PeersResponse {
    pub peers: Vec<PeerInfo>,
    pub pagination: Pagination,
}

/// The answer to a request for peers, given what the p2p worker replied; an
/// error if it did not.
pub fn peers_response(reply: Option<Vec<PeerInfo>>, query: PeersQuery) -> (response: Result<
    PeersResponse,
    u16,
>)
    ensures
        reply is None ==> response == Err::<PeersResponse, u16>(INTERNAL_SERVER_ERROR),
        reply matches Some(peers) ==> {
            &&& response matches Ok(answer)
            &&& answer.peers@ == page(
                peers@,
                page_offset(query.offset) as int,
                page_limit(query.limit) as int,
            )
            &&& answer.pagination == pagination(
                query.limit,
                query.offset,
                peers@.len() as usize,
            )
        },
{
    let peers: Vec<PeerInfo> = match reply {
        Some(peers) => peers,
        None => return Err(INTERNAL_SERVER_ERROR),
    };
    let part: Pagination = paginate(query.limit, query.offset, peers.len());
    let (start, end): (usize, usize) = page_bounds(part.offset, part.limit, peers.len());
    let ghost all = peers@;
    let count: usize = peers.len();
    let mut shown: Vec<PeerInfo> = Vec::new();
    let mut i: usize = 0;
    for peer in it: peers
        invariant
            it.seq() == all,
            all.len() == count,
            i == it.index(),
            start <= end <= all.len(),
            shown@ == if i <= start {
                Seq::<PeerInfo>::empty()
            } else if i <= end {
                all.subrange(start as int, i as int)
            } else {
                all.subrange(start as int, end as int)
            },
    {
        if start <= i && i < end {
            assert(all[i as int] == peer);
            shown.push(peer);
        }
        assert(i < all.len());
        i = i + 1;
    }
    assert(shown@ == all.subrange(start as int, end as int));
    assert(page(all, part.offset as int, part.limit as int) == all.subrange(
        start as int,
        end as int,
    ));
    Ok(PeersResponse { peers: shown, pagination: part })
}

// ---------------------------------------------------------------------------
// Files
// ---------------------------------------------------------------------------

/// The parameters of a request for files.
#[derive(Debug, Clone)]
pub struct FilesQuery {
    pub limit: Option<usize>,
    pub offset: Option<usize>,
    pub kind: Option<String>,
    pub path_prefix: Option<String>,
}

/// A live file or folder in an answer.
#[derive(Debug, Clone)]
pub struct FileEntry {
    pub path: String,
    pub kind: String,
    pub size: u64,
    pub checksum: Option<String>,
    pub updated_at: Timestamp,
}

/// The contents of a [`FileEntry`].
pub struct FileEntryView {
    pub path: Seq<char>,
    pub kind: Seq<char>,
    pub size: u64,
    pub checksum: Option<Seq<char>>,
    pub updated_at: Timestamp,
}

impl View for FileEntry {
    type V = FileEntryView;

    open spec fn view(&self) -> FileEntryView {
        FileEntryView {
            path: self.path@,
            kind: self.kind@,
            size: self.size,
            checksum: crate::text::optional_text(self.checksum),
            updated_at: self.updated_at,
        }
    }
}

/// A deleted path in an answer.
#[derive(Debug, Clone)]
pub struct DeletedEntry {
    pub path: String,
    pub deleted_at: Timestamp,
}

/// The contents of a [`DeletedEntry`].
pub struct DeletedView {
    pub path: Seq<char>,
    pub deleted_at: Timestamp,
}

impl View for DeletedEntry {
    type V = DeletedView;

    open spec fn view(&self) -> DeletedView {
        DeletedView { path: self.path@, deleted_at: self.deleted_at }
    }
}

/// The answer to a request for files.
#[derive(Debug, Clone)]
pub struct FilesResponse {
    pub resources: Vec<FileEntry>,
    pub tombstones: Vec<DeletedEntry>,
    pub pagination: Pagination,
}

/// The contents of live entries in an answer.
pub open spec fn file_views(entries: Seq<FileEntry>) -> Seq<FileEntryView> {
    entries.map_values(|e: FileEntry| e@)
}

/// The contents of deleted paths in an answer.
pub open spec fn deleted_views(entries: Seq<DeletedEntry>) -> Seq<DeletedView> {
    entries.map_values(|e: DeletedEntry| e@)
}

/// The path of a live entry.
pub open spec fn entry_path() -> spec_fn(EntryView) -> Seq<char> {
    |e: EntryView| e.resource_path
}

/// The path of a tombstone.
pub open spec fn tombstone_path() -> spec_fn(TombstoneView) -> Seq<char> {
    |t: TombstoneView| t.resource_path
}

/// A path that starts as asked for.
pub open spec fn path_wanted(path: Seq<char>, prefix: Option<Seq<char>>) -> bool {
    match prefix {
        Some(p) => crate::text::has_prefix(path, p),
        None => true,
    }
}

/// A kind that is asked for.
pub open spec fn kind_wanted(kind: Seq<char>, filter: Option<Seq<char>>) -> bool {
    match filter {
        Some(k) => k == "all"@ || kind == k,
        None => true,
    }
}

/// The live entries that are asked for.
pub open spec fn entry_wanted(
    kind: Option<Seq<char>>,
    prefix: Option<Seq<char>>,
) -> spec_fn(EntryView) -> bool {
    |e: EntryView| kind_wanted(e.resource_kind, kind) && path_wanted(e.resource_path, prefix)
}

/// The tombstones that are asked for.
pub open spec fn tombstone_wanted(prefix: Option<Seq<char>>) -> spec_fn(TombstoneView) -> bool {
    |t: TombstoneView| path_wanted(t.resource_path, prefix)
}

/// The live entries that a request finds, by path.
pub open spec fn found_entries(
    entries: Seq<EntryView>,
    kind: Option<Seq<char>>,
    prefix: Option<Seq<char>>,
) -> Seq<EntryView> {
    crate::sorting::sorted_by(entries.filter(entry_wanted(kind, prefix)), entry_path())
}

/// The tombstones that a request finds, by path.
pub open spec fn found_tombstones(
    tombstones: Seq<TombstoneView>,
    prefix: Option<Seq<char>>,
) -> Seq<TombstoneView> {
    crate::sorting::sorted_by(tombstones.filter(tombstone_wanted(prefix)), tombstone_path())
}

/// A live entry as it is shown.
pub open spec fn shown_entry(now: Timestamp) -> spec_fn(EntryView) -> FileEntryView {
    |e: EntryView|
        FileEntryView {
            path: e.resource_path,
            kind: e.resource_kind,
            size: e.size,
            checksum: e.checksum,
            updated_at: timestamp_or(e.updated_at, now),
        }
}

/// A tombstone as it is shown.
pub open spec fn shown_tombstone(now: Timestamp) -> spec_fn(TombstoneView) -> DeletedView {
    |t: TombstoneView|
        DeletedView { path: t.resource_path, deleted_at: timestamp_or(t.deleted_at, now) }
}

fn path_is_wanted(path: &str, prefix: &Option<String>) -> (yes: bool)
    ensures
        yes == path_wanted(path@, crate::text::optional_text(*prefix)),
{
    match prefix {
        Some(p) => starts_with(path, p),
        None => true,
    }
}

fn kind_is_wanted(kind: &str, filter: &Option<String>) -> (yes: bool)
    ensures
        yes == kind_wanted(kind@, crate::text::optional_text(*filter)),
{
    match filter {
        Some(k) => text_eq(k, "all") || text_eq(kind, k),
        None => true,
    }
}

fn time_or(text: &str, now: Timestamp) -> (time: Timestamp)
    ensures
        time == timestamp_or(text@, now),
{
    match read_timestamp(text) {
        Some(time) => time,
        None => now,
    }
}

/// The live entries that are asked for, in the order of the manifest.
fn wanted_entries(entries: Vec<ManifestEntry>, query: &FilesQuery) -> (kept: Vec<ManifestEntry>)
    ensures
        crate::manifest::entry_views(kept@) == crate::manifest::entry_views(entries@).filter(
            entry_wanted(
                crate::text::optional_text(query.kind),
                crate::text::optional_text(query.path_prefix),
            ),
        ),
        kept@.len() <= entries@.len(),
{
    let ghost all = crate::manifest::entry_views(entries@);
    let ghost keep = entry_wanted(
        crate::text::optional_text(query.kind),
        crate::text::optional_text(query.path_prefix),
    );
    let mut kept: Vec<ManifestEntry> = Vec::new();
    proof {
        reveal(Seq::filter);
        assert(crate::manifest::entry_views(kept@) == all.take(0).filter(keep));
    }
    for entry in it: entries
        invariant
            it.seq() == entries@,
            all == crate::manifest::entry_views(entries@),
            keep == entry_wanted(
                crate::text::optional_text(query.kind),
                crate::text::optional_text(query.path_prefix),
            ),
            crate::manifest::entry_views(kept@) == all.take(it.index()).filter(keep),
            kept@.len() <= it.index(),
    {
        let ghost i = it.index();
        let ghost before = kept@;
        proof {
            reveal(Seq::filter);
            assert(all.take(i + 1).drop_last() == all.take(i));
            assert(all.take(i + 1).last() == entry@);
        }
        if kind_is_wanted(&entry.resource_kind, &query.kind) && path_is_wanted(
            &entry.resource_path,
            &query.path_prefix,
        ) {
            let ghost added = entry@;
            kept.push(entry);
            assert(crate::manifest::entry_views(kept@) == crate::manifest::entry_views(
                before,
            ).push(added));
        }
    }
    assert(all.take(all.len() as int) == all);
    kept
}

/// The tombstones that are asked for, in the order of the manifest.
fn wanted_tombstones(tombstones: Vec<TombstoneEntry>, query: &FilesQuery) -> (kept: Vec<
    TombstoneEntry,
>)
    ensures
        crate::manifest::tombstone_views(kept@) == crate::manifest::tombstone_views(
            tombstones@,
        ).filter(tombstone_wanted(crate::text::optional_text(query.path_prefix))),
        kept@.len() <= tombstones@.len(),
{
    let ghost all = crate::manifest::tombstone_views(tombstones@);
    let ghost keep = tombstone_wanted(crate::text::optional_text(query.path_prefix));
    let mut kept: Vec<TombstoneEntry> = Vec::new();
    proof {
        reveal(Seq::filter);
        assert(crate::manifest::tombstone_views(kept@) == all.take(0).filter(keep));
    }
    for tombstone in it: tombstones
        invariant
            it.seq() == tombstones@,
            all == crate::manifest::tombstone_views(tombstones@),
            keep == tombstone_wanted(crate::text::optional_text(query.path_prefix)),
            crate::manifest::tombstone_views(kept@) == all.take(it.index()).filter(keep),
            kept@.len() <= it.index(),
    {
        let ghost i = it.index();
        let ghost before = kept@;
        proof {
            reveal(Seq::filter);
            assert(all.take(i + 1).drop_last() == all.take(i));
            assert(all.take(i + 1).last() == tombstone@);
        }
        if path_is_wanted(&tombstone.resource_path, &query.path_prefix) {
            let ghost added = tombstone@;
            kept.push(tombstone);
            assert(crate::manifest::tombstone_views(kept@) == crate::manifest::tombstone_views(
                before,
            ).push(added));
        }
    }
    assert(all.take(all.len() as int) == all);
    kept
}

/// The item at a position.
spec fn item_at<A>(items: Seq<A>) -> spec_fn(int) -> A {
    |i: int| items[i]
}

/// The positions of the entries, by path.
fn entry_order(entries: &Vec<ManifestEntry>) -> (order: Vec<usize>)
    ensures
        order@.len() == entries@.len(),
        crate::sorting::in_bounds(order@, entries@.len()),
        crate::sorting::as_ints(order@).map_values(
            item_at(crate::manifest::entry_views(entries@)),
        ) == crate::sorting::sorted_by(crate::manifest::entry_views(entries@), entry_path()),
{
    let mut keys: Vec<String> = Vec::new();
    let mut i: usize = 0;
    while i < entries.len()
        invariant
            i <= entries@.len(),
            keys@.len() == i,
            forall|k: int|
                0 <= k < i ==> (#[trigger] keys@[k])@ == entries@[k].resource_path@,
        decreases entries@.len() - i,
    {
        keys.push(entries[i].resource_path.clone());
        i = i + 1;
    }
    let order: Vec<usize> = sort_order(&keys);
    proof {
        let views = crate::manifest::entry_views(entries@);
        let all = crate::sorting::positions(0, keys@.len() as int);
        assert(all.map_values(item_at(views)) == views);
        assert forall|k: int| 0 <= k < all.len() implies (entry_path())(
            (item_at(views))(#[trigger] all[k]),
        ) == (crate::sorting::key_at(keys@))(all[k]) by {
            assert(keys@[k]@ == entries@[k].resource_path@);
        }
        crate::sorting::lemma_sorted_map(
            all,
            item_at(views),
            crate::sorting::key_at(keys@),
            entry_path(),
        );
    }
    order
}

/// The positions of the tombstones, by path.
fn tombstone_order(tombstones: &Vec<TombstoneEntry>) -> (order: Vec<usize>)
    ensures
        order@.len() == tombstones@.len(),
        crate::sorting::in_bounds(order@, tombstones@.len()),
        crate::sorting::as_ints(order@).map_values(
            item_at(crate::manifest::tombstone_views(tombstones@)),
        ) == crate::sorting::sorted_by(
            crate::manifest::tombstone_views(tombstones@),
            tombstone_path(),
        ),
{
    let mut keys: Vec<String> = Vec::new();
    let mut i: usize = 0;
    while i < tombstones.len()
        invariant
            i <= tombstones@.len(),
            keys@.len() == i,
            forall|k: int|
                0 <= k < i ==> (#[trigger] keys@[k])@ == tombstones@[k].resource_path@,
        decreases tombstones@.len() - i,
    {
        keys.push(tombstones[i].resource_path.clone());
        i = i + 1;
    }
    let order: Vec<usize> = sort_order(&keys);
    proof {
        let views = crate::manifest::tombstone_views(tombstones@);
        let all = crate::sorting::positions(0, keys@.len() as int);
        assert(all.map_values(item_at(views)) == views);
        assert forall|k: int| 0 <= k < all.len() implies (tombstone_path())(
            (item_at(views))(#[trigger] all[k]),
        ) == (crate::sorting::key_at(keys@))(all[k]) by {
            assert(keys@[k]@ == tombstones@[k].resource_path@);
        }
        crate::sorting::lemma_sorted_map(
            all,
            item_at(views),
            crate::sorting::key_at(keys@),
            tombstone_path(),
        );
    }
    order
}

/// The answer lists what a request asks for at the present `now`.
pub open spec fn lists_at(
    manifest: Manifest,
    query: FilesQuery,
    now: Timestamp,
    response: FilesResponse,
) -> bool {
    let kind = crate::text::optional_text(query.kind);
    let prefix = crate::text::optional_text(query.path_prefix);
    let files = found_entries(manifest@.resources, kind, prefix);
    let deleted = found_tombstones(manifest@.tombstones, prefix);
    let limit = page_limit(query.limit);
    let shown = page(files, page_offset(query.offset) as int, limit as int);
    &&& file_views(response.resources@) == shown.map_values(shown_entry(now))
    &&& deleted_views(response.tombstones@) == at_most(deleted, limit - shown.len()).map_values(
        shown_tombstone(now),
    )
    &&& response.pagination == pagination(
        query.limit,
        query.offset,
        (files.len() + deleted.len()) as usize,
    )
}

/// Lists the files and deleted paths that a request asks for, at a given
/// present: both filtered by path, the files by kind too, and sorted by path.
/// A page holds files first, and deleted paths where files leave room.
pub fn list_files(manifest: Manifest, query: &FilesQuery, now: Timestamp) -> (response:
    FilesResponse)
    requires
        manifest.resources@.len() + manifest.tombstones@.len() <= usize::MAX,
    ensures
        lists_at(manifest, *query, now, response),
{
    let ghost files = found_entries(
        manifest@.resources,
        crate::text::optional_text(query.kind),
        crate::text::optional_text(query.path_prefix),
    );
    let ghost deleted = found_tombstones(
        manifest@.tombstones,
        crate::text::optional_text(query.path_prefix),
    );
    let entries: Vec<ManifestEntry> = wanted_entries(manifest.resources, query);
    let tombstones: Vec<TombstoneEntry> = wanted_tombstones(manifest.tombstones, query);
    let order: Vec<usize> = entry_order(&entries);
    let tombstone_places: Vec<usize> = tombstone_order(&tombstones);
    let ghost views = crate::manifest::entry_views(entries@);
    let ghost tombs = crate::manifest::tombstone_views(tombstones@);
    assert(files.len() == entries@.len());
    assert(deleted.len() == tombstones@.len());
    let total: usize = entries.len() + tombstones.len();
    let part: Pagination = paginate(query.limit, query.offset, total);
    let (start, end): (usize, usize) = page_bounds(part.offset, part.limit, entries.len());
    let mut resources: Vec<FileEntry> = Vec::new();
    let mut i: usize = start;
    assert(file_views(resources@) == files.subrange(start as int, start as int).map_values(
        shown_entry(now),
    ));
    while i < end
        invariant
            start <= i <= end <= order@.len(),
            order@.len() == entries@.len(),
            files.len() == order@.len(),
            views == crate::manifest::entry_views(entries@),
            crate::sorting::in_bounds(order@, entries@.len()),
            crate::sorting::as_ints(order@).map_values(item_at(views)) == files,
            file_views(resources@) == files.subrange(start as int, i as int).map_values(
                shown_entry(now),
            ),
        decreases end - i,
    {
        let place: usize = order[i];
        let ghost before = resources@;
        let entry: &ManifestEntry = &entries[place];
        proof {
            assert(crate::sorting::as_ints(order@)[i as int] == place as int);
            assert(files[i as int] == views[place as int]);
            assert(views[place as int] == entry@);
        }
        let shown = FileEntry {
            path: entry.resource_path.clone(),
            kind: entry.resource_kind.clone(),
            size: entry.size,
            checksum: copy_optional(&entry.checksum),
            updated_at: time_or(&entry.updated_at, now),
        };
        let ghost added = shown@;
        resources.push(shown);
        proof {
            assert(added == (shown_entry(now))(files[i as int]));
            assert(file_views(resources@) == file_views(before).push(added));
            assert(files.subrange(start as int, i + 1) == files.subrange(
                start as int,
                i as int,
            ).push(files[i as int]));
            assert(files.subrange(start as int, i + 1).map_values(shown_entry(now))
                == files.subrange(start as int, i as int).map_values(shown_entry(now)).push(
                added,
            ));
        }
        i = i + 1;
    }
    let room: usize = part.limit - resources.len();
    let last: usize = page_bounds(0, room, tombstones.len()).1;
    let mut gone: Vec<DeletedEntry> = Vec::new();
    let mut j: usize = 0;
    assert(deleted_views(gone@) == deleted.subrange(0, 0).map_values(shown_tombstone(now)));
    while j < last
        invariant
            j <= last <= tombstone_places@.len(),
            tombstone_places@.len() == tombstones@.len(),
            deleted.len() == tombstone_places@.len(),
            tombs == crate::manifest::tombstone_views(tombstones@),
            crate::sorting::in_bounds(tombstone_places@, tombstones@.len()),
            crate::sorting::as_ints(tombstone_places@).map_values(item_at(tombs)) == deleted,
            deleted_views(gone@) == deleted.subrange(0, j as int).map_values(
                shown_tombstone(now),
            ),
        decreases last - j,
    {
        let place: usize = tombstone_places[j];
        let ghost before = gone@;
        let tombstone: &TombstoneEntry = &tombstones[place];
        proof {
            assert(crate::sorting::as_ints(tombstone_places@)[j as int] == place as int);
            assert(deleted[j as int] == tombs[place as int]);
            assert(tombs[place as int] == tombstone@);
        }
        let shown = DeletedEntry {
            path: tombstone.resource_path.clone(),
            deleted_at: time_or(&tombstone.deleted_at, now),
        };
        let ghost added = shown@;
        gone.push(shown);
        proof {
            assert(added == (shown_tombstone(now))(deleted[j as int]));
            assert(deleted_views(gone@) == deleted_views(before).push(added));
            assert(deleted.subrange(0, j + 1) == deleted.subrange(0, j as int).push(
                deleted[j as int],
            ));
            assert(deleted.subrange(0, j + 1).map_values(shown_tombstone(now))
                == deleted.subrange(0, j as int).map_values(shown_tombstone(now)).push(added));
        }
        j = j + 1;
    }
    proof {
        assert(page(files, part.offset as int, part.limit as int) == files.subrange(
            start as int,
            end as int,
        ));
        assert(at_most(deleted, room as int) == deleted.subrange(0, last as int));
    }
    FilesResponse { resources, tombstones: gone, pagination: part }
}

/// The answer to a request for files, given the manifest; an error if there is
/// none. Entries whose time is unknown are shown with the present.
pub fn files_response(manifest: Option<Manifest>, query: &FilesQuery) -> (response: Result<
    FilesResponse,
    u16,
>)
    requires
        manifest matches Some(m) ==> m.resources@.len() + m.tombstones@.len() <= usize::MAX,
    ensures
        manifest is None ==> response == Err::<FilesResponse, u16>(INTERNAL_SERVER_ERROR),
        manifest matches Some(m) ==> response matches Ok(answer) && exists|now: Timestamp|
            now.wf() && #[trigger] lists_at(m, *query, now, answer),
{
    match manifest {
        Some(m) => {
            let now: Timestamp = present();
            let response: Result<FilesResponse, u16> = Ok(list_files(m, query, now));
            assert(lists_at(m, *query, now, response->Ok_0));
            response
        },
        None => Err(INTERNAL_SERVER_ERROR),
    }
}

// ---------------------------------------------------------------------------
// Laws
// ---------------------------------------------------------------------------

/// The health check is public; every other endpoint is answered exactly if the
/// request carries the expected name and password.
pub proof fn law_endpoints_are_protected(
    endpoint: Endpoint,
    headers: HeaderMap,
    user: Seq<char>,
    pass: Seq<char>,
)
    ensures
        endpoint == Endpoint::Health ==> admitted(endpoint, headers, user, pass),
        endpoint != Endpoint::Health ==> (admitted(endpoint, headers, user, pass)
            <==> crate::auth::request_credentials(headers) == Some((user, pass))),
{
    reveal_strlit("GET");
    reveal_strlit("OPTIONS");
    assert("GET"@.len() == 3 && "OPTIONS"@.len() == 7);
}

/// Pages follow each other without gap or overlap.
pub proof fn law_pages_follow_each_other<A>(items: Seq<A>, offset: nat, limit: nat, next: nat)
    ensures
        page(items, offset as int, limit as int) + page(
            items,
            (offset + limit) as int,
            next as int,
        ) == page(items, offset as int, (limit + next) as int),
{
    assert(page(items, offset as int, limit as int) + page(
        items,
        (offset + limit) as int,
        next as int,
    ) =~= page(items, offset as int, (limit + next) as int));
}

/// A page after which there is no more reaches to the end of the list, and
/// another page follows one after which there is more.
pub proof fn law_last_page_reaches_the_end<A>(
    items: Seq<A>,
    limit: Option<usize>,
    offset: Option<usize>,
)
    requires
        items.len() <= usize::MAX,
    ensures
        ({
            let part = pagination(limit, offset, items.len() as usize);
            let from = part.offset as int;
            let size = part.limit as int;
            &&& !part.has_more ==> page(items, from, size) == beyond(items, from)
            &&& part.has_more ==> page(items, from, size).len() == size
            &&& part.has_more && size > 0 ==> page(items, from + size, size).len() > 0
        }),
{
}

/// A page never holds more than its limit, and the limit never exceeds the
/// largest one.
pub proof fn law_pages_are_limited<A, B>(
    items: Seq<A>,
    others: Seq<B>,
    limit: Option<usize>,
    offset: Option<usize>,
)
    ensures
        page_limit(limit) <= MAX_LIMIT,
        ({
            let shown = page(items, page_offset(offset) as int, page_limit(limit) as int);
            &&& shown.len() <= page_limit(limit)
            &&& shown.len() + at_most(others, page_limit(limit) - shown.len()).len()
                <= page_limit(limit)
        }),
{
}

/// The files that a request finds are sorted by path, and are the wanted ones
/// of the manifest: nothing is lost or added.
pub proof fn law_found_files_are_the_wanted_ones(
    entries: Seq<EntryView>,
    kind: Option<Seq<char>>,
    prefix: Option<Seq<char>>,
)
    ensures
        crate::sorting::is_sorted(found_entries(entries, kind, prefix), entry_path()),
        crate::sorting::same_for_each_key(
            found_entries(entries, kind, prefix),
            entries.filter(entry_wanted(kind, prefix)),
            entry_path(),
        ),
        found_entries(entries, kind, prefix).len() == entries.filter(
            entry_wanted(kind, prefix),
        ).len(),
{
    crate::sorting::law_sorting_is_stable(
        entries.filter(entry_wanted(kind, prefix)),
        entry_path(),
    );
}

/// A request that names neither kind nor prefix, or the kind `all` and the
/// empty prefix, finds everything.
pub proof fn law_no_filter_finds_everything(entries: Seq<EntryView>)
    ensures
        found_entries(entries, None, None) == crate::sorting::sorted_by(entries, entry_path()),
        found_entries(entries, Some("all"@), Some(Seq::empty())) == crate::sorting::sorted_by(
            entries,
            entry_path(),
        ),
{
    lemma_filter_all(entries, entry_wanted(None, None));
    let all = entry_wanted(Some("all"@), Some(Seq::empty()));
    assert forall|e: EntryView| #[trigger] all(e) by {
        assert(e.resource_path.take(0) == Seq::<char>::empty());
    }
    lemma_filter_all(entries, all);
}

proof fn lemma_filter_all(entries: Seq<EntryView>, keep: spec_fn(EntryView) -> bool)
    requires
        forall|e: EntryView| #[trigger] keep(e),
    ensures
        entries.filter(keep) == entries,
    decreases entries.len(),
{
    reveal(Seq::filter);
    if entries.len() != 0 {
        lemma_filter_all(entries.drop_last(), keep);
        assert(entries == entries.drop_last().push(entries.last()));
    } else {
        assert(entries == Seq::<EntryView>::empty());
    }
}

/// A number of nanoseconds that dates reach is read exactly.
pub proof fn law_nanoseconds_are_read_exactly(nanos: nat)
    requires
        nanos / 1_000_000_000 <= MAX_TIMESTAMP_SECS,
    ensures
        timestamp_value(crate::numbers::decimal_digits(nanos)) == Some(
            Timestamp {
                secs: (nanos / 1_000_000_000) as i64,
                nanos: (nanos % 1_000_000_000) as u32,
            },
        ),
{
    crate::numbers::law_decimal_round_trip(nanos);
}

/// A page holds the items from its offset on, one by one, up to its limit or
/// the end of the list.
pub proof fn law_page_holds_the_items_from_its_offset<A>(
    items: Seq<A>,
    offset: nat,
    limit: nat,
    i: int,
)
    ensures
        offset >= items.len() ==> page(items, offset as int, limit as int).len() == 0,
        offset < items.len() && offset + limit <= items.len() ==> page(
            items,
            offset as int,
            limit as int,
        ).len() == limit,
        offset < items.len() && offset + limit > items.len() ==> page(
            items,
            offset as int,
            limit as int,
        ).len() == items.len() - offset,
        0 <= i < page(items, offset as int, limit as int).len() ==> page(
            items,
            offset as int,
            limit as int,
        )[i] == items[offset + i],
{
}

/// What an answer tells of its page: the limit that was asked for, but no more
/// than a thousand, or a hundred; the offset that was asked for, or none; how
/// many items there are, and whether some follow the page.
pub proof fn law_pagination_tells_the_page(
    limit: Option<usize>,
    offset: Option<usize>,
    total: usize,
)
    ensures
        ({
            let part = pagination(limit, offset, total);
            &&& limit is None ==> part.limit == 100
            &&& limit is Some && limit->0 <= 1000 ==> part.limit == limit->0
            &&& limit is Some && limit->0 > 1000 ==> part.limit == 1000
            &&& offset is None ==> part.offset == 0
            &&& offset is Some ==> part.offset == offset->0
            &&& part.total == total
            &&& part.has_more <==> part.offset + part.limit < total
        }),
{
}

/// The seconds of a number that is too large are those with the same lowest
/// sixty-four bits, as a signed number.
proof fn lemma_wrapped(n: nat)
    ensures
        i64::MIN <= wrapped(n) <= i64::MAX,
        (n - wrapped(n)) % 0x1_0000_0000_0000_0000 == 0,
        n <= i64::MAX ==> wrapped(n) == n,
{
    let low = n % 0x1_0000_0000_0000_0000;
    assert((n - low) % 0x1_0000_0000_0000_0000 == 0);
    assert((n - low + 0x1_0000_0000_0000_0000) % 0x1_0000_0000_0000_0000 == 0);
}

/// Only a number of nanoseconds stands for a point in time: the seconds and
/// nanoseconds that it makes, the seconds kept to sixty-four bits, as far as
/// dates reach. Any other text stands for the present.
pub proof fn law_times_are_numbers_of_nanoseconds(text: Seq<char>, now: Timestamp, secs: i64)
    ensures
        ({
            let number = crate::numbers::unsigned_value(text);
            let time = timestamp_value(text);
            &&& number is None || number->0 > u128::MAX ==> time is None
            &&& time matches Some(t) ==> {
                &&& t.nanos == number->0 % 1_000_000_000
                &&& (number->0 / 1_000_000_000 - t.secs) % 0x1_0000_0000_0000_0000 == 0
                &&& -8334601228800 <= t.secs <= 8210266876799
            }
            &&& number is Some && number->0 / 1_000_000_000 <= 8210266876799 ==> time is Some
            &&& number is Some && number->0 <= u128::MAX && -8334601228800 <= secs <= 8210266876799
                && (number->0 / 1_000_000_000 - secs) % 0x1_0000_0000_0000_0000 == 0 ==> time
                == Some(Timestamp { secs, nanos: (number->0 % 1_000_000_000) as u32 })
            &&& time matches Some(t) ==> timestamp_or(text, now) == t
            &&& time is None ==> timestamp_or(text, now) == now
        }),
{
    if let Some(number) = crate::numbers::unsigned_value(text) {
        lemma_wrapped(number / 1_000_000_000);
        let total = number / 1_000_000_000;
        if (total - secs) % 0x1_0000_0000_0000_0000 == 0 {
            assert(wrapped(total) == secs) by {
                let low = total % 0x1_0000_0000_0000_0000;
                assert((total - low) % 0x1_0000_0000_0000_0000 == 0);
            }
        }
    }
}

/// An entry of the manifest that a request asks for: its kind is the one asked
/// for, unless all kinds are, and its path starts as asked for.
pub open spec fn is_asked_for(query: FilesQuery, entry: ManifestEntry) -> bool {
    &&& query.kind is None || query.kind->0@ == "all"@ || query.kind->0@ == entry.resource_kind@
    &&& query.path_prefix is None || exists|rest: Seq<char>|
        entry.resource_path@ == query.path_prefix->0@ + rest
}

/// A tombstone of the manifest that a request asks for: its path starts as
/// asked for.
pub open spec fn is_gone_asked_for(query: FilesQuery, tombstone: TombstoneEntry) -> bool {
    query.path_prefix is None || exists|rest: Seq<char>|
        tombstone.resource_path@ == query.path_prefix->0@ + rest
}

/// A file in an answer shows an entry of the manifest, field by field.
pub open spec fn shows_entry(shown: FileEntry, entry: ManifestEntry, now: Timestamp) -> bool {
    &&& shown.path@ == entry.resource_path@
    &&& shown.kind@ == entry.resource_kind@
    &&& shown.size == entry.size
    &&& shown.checksum is Some <==> entry.checksum is Some
    &&& entry.checksum is Some ==> shown.checksum->0@ == entry.checksum->0@
    &&& timestamp_value(entry.updated_at@) matches Some(time) ==> shown.updated_at == time
    &&& timestamp_value(entry.updated_at@) is None ==> shown.updated_at == now
}

/// A deleted path in an answer shows a tombstone of the manifest, field by
/// field.
pub open spec fn shows_tombstone(
    shown: DeletedEntry,
    tombstone: TombstoneEntry,
    now: Timestamp,
) -> bool {
    &&& shown.path@ == tombstone.resource_path@
    &&& timestamp_value(tombstone.deleted_at@) matches Some(time) ==> shown.deleted_at == time
    &&& timestamp_value(tombstone.deleted_at@) is None ==> shown.deleted_at == now
}

proof fn lemma_wanted_is_asked_for(query: FilesQuery, entry: ManifestEntry, gone: TombstoneEntry)
    ensures
        (entry_wanted(
            crate::text::optional_text(query.kind),
            crate::text::optional_text(query.path_prefix),
        ))(entry@) <==> is_asked_for(query, entry),
        (tombstone_wanted(crate::text::optional_text(query.path_prefix)))(gone@)
            <==> is_gone_asked_for(query, gone),
{
    if query.path_prefix is Some {
        crate::text::law_prefix_and_rest_make_the_text(
            entry.resource_path@,
            query.path_prefix->0@,
        );
        crate::text::law_prefix_and_rest_make_the_text(
            gone.resource_path@,
            query.path_prefix->0@,
        );
    }
}

/// Every file in an answer shows an entry of the manifest that was asked for,
/// and every deleted path a tombstone, with all their fields.
pub proof fn law_listed_files_show_the_manifest(
    manifest: Manifest,
    query: FilesQuery,
    now: Timestamp,
    response: FilesResponse,
    i: int,
)
    requires
        lists_at(manifest, query, now, response),
    ensures
        0 <= i < response.resources@.len() ==> exists|j: int|
            0 <= j < manifest.resources@.len() && #[trigger] is_asked_for(
                query,
                manifest.resources@[j],
            ) && shows_entry(response.resources@[i], manifest.resources@[j], now),
        0 <= i < response.tombstones@.len() ==> exists|j: int|
            0 <= j < manifest.tombstones@.len() && #[trigger] is_gone_asked_for(
                query,
                manifest.tombstones@[j],
            ) && shows_tombstone(response.tombstones@[i], manifest.tombstones@[j], now),
{
    let kind = crate::text::optional_text(query.kind);
    let prefix = crate::text::optional_text(query.path_prefix);
    let keep = entry_wanted(kind, prefix);
    let keep_gone = tombstone_wanted(prefix);
    let all = manifest@.resources;
    let all_gone = manifest@.tombstones;
    let files = found_entries(all, kind, prefix);
    let deleted = found_tombstones(all_gone, prefix);
    let offset = page_offset(query.offset) as int;
    let limit = page_limit(query.limit) as int;
    let shown = page(files, offset, limit);
    assert(file_views(response.resources@).len() == response.resources@.len());
    assert(deleted_views(response.tombstones@).len() == response.tombstones@.len());
    if 0 <= i < response.resources@.len() {
        assert(file_views(response.resources@)[i] == (shown_entry(now))(shown[i]));
        assert(shown[i] == files[offset + i]);
        assert(files.contains(shown[i]));
        crate::sorting::law_sorting_keeps_the_items(all.filter(keep), entry_path(), shown[i]);
        let m = choose|m: int| 0 <= m < all.filter(keep).len() && all.filter(keep)[m] == shown[i];
        all.lemma_filter_pred(keep, m);
        all.lemma_filter_contains_rev(keep, shown[i]);
        let j = choose|j: int| 0 <= j < all.len() && all[j] == shown[i];
        assert(all[j] == manifest.resources@[j]@);
        lemma_wanted_is_asked_for(query, manifest.resources@[j], arbitrary());
        assert(is_asked_for(query, manifest.resources@[j]));
        assert(response.resources@[i]@ == file_views(response.resources@)[i]);
        assert(shows_entry(response.resources@[i], manifest.resources@[j], now));
    }
    if 0 <= i < response.tombstones@.len() {
        let part = at_most(deleted, limit - shown.len());
        assert(deleted_views(response.tombstones@)[i] == (shown_tombstone(now))(part[i]));
        assert(part[i] == deleted[i]);
        assert(deleted.contains(part[i]));
        crate::sorting::law_sorting_keeps_the_items(
            all_gone.filter(keep_gone),
            tombstone_path(),
            part[i],
        );
        let m = choose|m: int|
            0 <= m < all_gone.filter(keep_gone).len() && all_gone.filter(keep_gone)[m] == part[i];
        all_gone.lemma_filter_pred(keep_gone, m);
        all_gone.lemma_filter_contains_rev(keep_gone, part[i]);
        let j = choose|j: int| 0 <= j < all_gone.len() && all_gone[j] == part[i];
        assert(all_gone[j] == manifest.tombstones@[j]@);
        lemma_wanted_is_asked_for(query, arbitrary(), manifest.tombstones@[j]);
        assert(is_gone_asked_for(query, manifest.tombstones@[j]));
        assert(response.tombstones@[i]@ == deleted_views(response.tombstones@)[i]);
        assert(shows_tombstone(response.tombstones@[i], manifest.tombstones@[j], now));
    }
}

/// An answer from the beginning after which nothing follows shows every entry
/// and every tombstone of the manifest that was asked for.
pub proof fn law_full_answer_shows_everything(
    manifest: Manifest,
    query: FilesQuery,
    now: Timestamp,
    response: FilesResponse,
    j: int,
)
    requires
        lists_at(manifest, query, now, response),
        manifest.resources@.len() + manifest.tombstones@.len() <= usize::MAX,
        query.offset is None || query.offset->0 == 0,
        !response.pagination.has_more,
    ensures
        0 <= j < manifest.resources@.len() && is_asked_for(query, manifest.resources@[j])
            ==> exists|i: int|
            0 <= i < response.resources@.len() && shows_entry(
                #[trigger] response.resources@[i],
                manifest.resources@[j],
                now,
            ),
        0 <= j < manifest.tombstones@.len() && is_gone_asked_for(query, manifest.tombstones@[j])
            ==> exists|i: int|
            0 <= i < response.tombstones@.len() && shows_tombstone(
                #[trigger] response.tombstones@[i],
                manifest.tombstones@[j],
                now,
            ),
        response.resources@.len() + response.tombstones@.len() == response.pagination.total,
{
    let kind = crate::text::optional_text(query.kind);
    let prefix = crate::text::optional_text(query.path_prefix);
    let keep = entry_wanted(kind, prefix);
    let keep_gone = tombstone_wanted(prefix);
    let all = manifest@.resources;
    let all_gone = manifest@.tombstones;
    let files = found_entries(all, kind, prefix);
    let deleted = found_tombstones(all_gone, prefix);
    let limit = page_limit(query.limit) as int;
    let shown = page(files, 0, limit);
    crate::sorting::law_sorting_is_stable(all.filter(keep), entry_path());
    crate::sorting::law_sorting_is_stable(all_gone.filter(keep_gone), tombstone_path());
    all.lemma_filter_len(keep);
    all_gone.lemma_filter_len(keep_gone);
    assert(shown =~= files);
    let part = at_most(deleted, limit - shown.len());
    assert(part =~= deleted);
    assert(file_views(response.resources@).len() == response.resources@.len());
    assert(deleted_views(response.tombstones@).len() == response.tombstones@.len());
    if 0 <= j < manifest.resources@.len() && is_asked_for(query, manifest.resources@[j]) {
        let entry = manifest.resources@[j];
        assert(all[j] == entry@);
        lemma_wanted_is_asked_for(query, entry, arbitrary());
        all.lemma_filter_contains(keep, j);
        crate::sorting::law_sorting_keeps_the_items(all.filter(keep), entry_path(), entry@);
        let i = choose|i: int| 0 <= i < files.len() && files[i] == entry@;
        assert(file_views(response.resources@)[i] == (shown_entry(now))(entry@));
        assert(response.resources@[i]@ == file_views(response.resources@)[i]);
        assert(shows_entry(response.resources@[i], entry, now));
    }
    if 0 <= j < manifest.tombstones@.len() && is_gone_asked_for(query, manifest.tombstones@[j]) {
        let gone = manifest.tombstones@[j];
        assert(all_gone[j] == gone@);
        lemma_wanted_is_asked_for(query, arbitrary(), gone);
        all_gone.lemma_filter_contains(keep_gone, j);
        crate::sorting::law_sorting_keeps_the_items(
            all_gone.filter(keep_gone),
            tombstone_path(),
            gone@,
        );
        let i = choose|i: int| 0 <= i < deleted.len() && deleted[i] == gone@;
        assert(deleted_views(response.tombstones@)[i] == (shown_tombstone(now))(gone@));
        assert(response.tombstones@[i]@ == deleted_views(response.tombstones@)[i]);
        assert(shows_tombstone(response.tombstones@[i], gone, now));
    }
}

/// Files and deleted paths are each listed in the order of their paths, and an
/// answer holds no more of both than its limit, which is the one asked for, at
/// most a thousand, or a hundred.
pub proof fn law_answers_are_sorted_and_limited(
    manifest: Manifest,
    query: FilesQuery,
    now: Timestamp,
    response: FilesResponse,
    i: int,
    k: int,
)
    requires
        lists_at(manifest, query, now, response),
    ensures
        0 <= i < k < response.resources@.len() ==> !crate::text::text_before(
            response.resources@[k].path@,
            response.resources@[i].path@,
        ),
        0 <= i < k < response.tombstones@.len() ==> !crate::text::text_before(
            response.tombstones@[k].path@,
            response.tombstones@[i].path@,
        ),
        response.resources@.len() + response.tombstones@.len() <= response.pagination.limit,
        response.pagination.limit <= 1000,
        query.limit matches Some(n) ==> response.pagination.limit <= n,
        query.limit is None ==> response.pagination.limit == 100,
        response.pagination.offset == match query.offset {
            Some(n) => n,
            None => 0,
        },
        response.pagination.has_more <==> response.pagination.offset + response.pagination.limit
            < response.pagination.total,
{
    let kind = crate::text::optional_text(query.kind);
    let prefix = crate::text::optional_text(query.path_prefix);
    let all = manifest@.resources.filter(entry_wanted(kind, prefix));
    let all_gone = manifest@.tombstones.filter(tombstone_wanted(prefix));
    let files = found_entries(manifest@.resources, kind, prefix);
    let deleted = found_tombstones(manifest@.tombstones, prefix);
    let offset = page_offset(query.offset) as int;
    let limit = page_limit(query.limit) as int;
    let shown = page(files, offset, limit);
    let part = at_most(deleted, limit - shown.len());
    crate::sorting::law_sorting_is_stable(all, entry_path());
    crate::sorting::law_sorting_is_stable(all_gone, tombstone_path());
    assert(file_views(response.resources@).len() == response.resources@.len());
    assert(deleted_views(response.tombstones@).len() == response.tombstones@.len());
    if 0 <= i < k < response.resources@.len() {
        assert(file_views(response.resources@)[i] == (shown_entry(now))(files[offset + i]));
        assert(file_views(response.resources@)[k] == (shown_entry(now))(files[offset + k]));
        assert(response.resources@[i]@ == file_views(response.resources@)[i]);
        assert(response.resources@[k]@ == file_views(response.resources@)[k]);
        assert(!crate::text::text_before(
            (entry_path())(files[offset + k]),
            (entry_path())(files[offset + i]),
        ));
    }
    if 0 <= i < k < response.tombstones@.len() {
        assert(deleted_views(response.tombstones@)[i] == (shown_tombstone(now))(deleted[i]));
        assert(deleted_views(response.tombstones@)[k] == (shown_tombstone(now))(deleted[k]));
        assert(response.tombstones@[i]@ == deleted_views(response.tombstones@)[i]);
        assert(response.tombstones@[k]@ == deleted_views(response.tombstones@)[k]);
        assert(!crate::text::text_before(
            (tombstone_path())(deleted[k]),
            (tombstone_path())(deleted[i]),
        ));
    }
}

/// The endpoints have different paths: that of the health check, and the
/// others below the one of this version of the API.
pub proof fn law_endpoints_are_told_apart(a: Endpoint, b: Endpoint)
    ensures
        a.route() == b.route() <==> a == b,
        Endpoint::Health.route() == "/health"@,
        Endpoint::Status.route() == "/api/v1/"@ + "status"@,
        Endpoint::Peers.route() == "/api/v1/"@ + "peers"@,
        Endpoint::Files.route() == "/api/v1/"@ + "files"@,
{
    reveal_strlit("/api/v1/");
    reveal_strlit("status");
    reveal_strlit("peers");
    reveal_strlit("files");
    reveal_strlit("/health");
    reveal_strlit("/api/v1/status");
    reveal_strlit("/api/v1/peers");
    reveal_strlit("/api/v1/files");
    assert("/health"@.len() == 7 && "/api/v1/status"@.len() == 14);
    assert("/api/v1/peers"@.len() == 13 && "/api/v1/peers"@[8] == 'p');
    assert("/api/v1/files"@.len() == 13 && "/api/v1/files"@[8] == 'f');
    assert("/api/v1/status"@ =~= "/api/v1/"@ + "status"@);
    assert("/api/v1/peers"@ =~= "/api/v1/"@ + "peers"@);
    assert("/api/v1/files"@ =~= "/api/v1/"@ + "files"@);
}

/// Answers for the same kinds and paths show one list of files, each from its
/// own offset on: at the same place they show the same, and one that has room
/// for more reaches the end of the list and shows all deleted paths.
pub proof fn law_answers_show_one_list(
    manifest: Manifest,
    query: FilesQuery,
    other: FilesQuery,
    now: Timestamp,
    response: FilesResponse,
    another: FilesResponse,
    i: int,
    j: int,
)
    requires
        query.kind == other.kind,
        query.path_prefix == other.path_prefix,
        lists_at(manifest, query, now, response),
        lists_at(manifest, other, now, another),
        0 <= j < another.resources@.len(),
    ensures
        0 <= i < response.resources@.len() && response.pagination.offset + i
            == another.pagination.offset + j ==> response.resources@[i]@
            == another.resources@[j]@,
        response.resources@.len() < response.pagination.limit ==> another.pagination.offset + j
            < response.pagination.offset + response.resources@.len(),
        response.pagination.offset <= another.pagination.offset + j
            < response.pagination.offset + response.pagination.limit ==> another.pagination.offset
            + j < response.pagination.offset + response.resources@.len(),
{
    let kind = crate::text::optional_text(query.kind);
    let prefix = crate::text::optional_text(query.path_prefix);
    let files = found_entries(manifest@.resources, kind, prefix);
    assert(file_views(response.resources@).len() == response.resources@.len());
    assert(file_views(another.resources@).len() == another.resources@.len());
    let from = page_offset(query.offset) as int;
    let other_from = page_offset(other.offset) as int;
    assert(file_views(another.resources@)[j] == (shown_entry(now))(files[other_from + j]));
    assert(another.resources@[j]@ == file_views(another.resources@)[j]);
    if 0 <= i < response.resources@.len() {
        assert(file_views(response.resources@)[i] == (shown_entry(now))(files[from + i]));
        assert(response.resources@[i]@ == file_views(response.resources@)[i]);
    }
}

/// An answer with room for more shows every deleted path that was asked for.
pub proof fn law_room_is_filled_with_deleted_paths(
    manifest: Manifest,
    query: FilesQuery,
    now: Timestamp,
    response: FilesResponse,
    j: int,
)
    requires
        lists_at(manifest, query, now, response),
        response.resources@.len() + response.tombstones@.len() < response.pagination.limit,
        0 <= j < manifest.tombstones@.len(),
        is_gone_asked_for(query, manifest.tombstones@[j]),
    ensures
        exists|i: int|
            0 <= i < response.tombstones@.len() && shows_tombstone(
                #[trigger] response.tombstones@[i],
                manifest.tombstones@[j],
                now,
            ),
{
    let prefix = crate::text::optional_text(query.path_prefix);
    let keep_gone = tombstone_wanted(prefix);
    let all_gone = manifest@.tombstones;
    let deleted = found_tombstones(all_gone, prefix);
    let gone = manifest.tombstones@[j];
    assert(file_views(response.resources@).len() == response.resources@.len());
    assert(deleted_views(response.tombstones@).len() == response.tombstones@.len());
    assert(all_gone[j] == gone@);
    lemma_wanted_is_asked_for(query, arbitrary(), gone);
    all_gone.lemma_filter_contains(keep_gone, j);
    crate::sorting::law_sorting_keeps_the_items(
        all_gone.filter(keep_gone),
        tombstone_path(),
        gone@,
    );
    let i = choose|i: int| 0 <= i < deleted.len() && deleted[i] == gone@;
    assert(deleted_views(response.tombstones@)[i] == (shown_tombstone(now))(gone@));
    assert(response.tombstones@[i]@ == deleted_views(response.tombstones@)[i]);
    assert(shows_tombstone(response.tombstones@[i], gone, now));
}

proof fn lemma_wanted_are_counted(entries: Seq<ManifestEntry>, query: FilesQuery)
    ensures
        crate::manifest::entry_views(entries).filter(
            entry_wanted(
                crate::text::optional_text(query.kind),
                crate::text::optional_text(query.path_prefix),
            ),
        ).len() == entries.filter(|e: ManifestEntry| is_asked_for(query, e)).len(),
    decreases entries.len(),
{
    reveal(Seq::filter);
    if entries.len() > 0 {
        let views = crate::manifest::entry_views(entries);
        lemma_wanted_are_counted(entries.drop_last(), query);
        assert(views.drop_last() =~= crate::manifest::entry_views(entries.drop_last()));
        assert(views.last() == entries.last()@);
        lemma_wanted_is_asked_for(query, entries.last(), arbitrary());
    }
}

proof fn lemma_gone_are_counted(tombstones: Seq<TombstoneEntry>, query: FilesQuery)
    ensures
        crate::manifest::tombstone_views(tombstones).filter(
            tombstone_wanted(crate::text::optional_text(query.path_prefix)),
        ).len() == tombstones.filter(|t: TombstoneEntry| is_gone_asked_for(query, t)).len(),
    decreases tombstones.len(),
{
    reveal(Seq::filter);
    if tombstones.len() > 0 {
        let views = crate::manifest::tombstone_views(tombstones);
        lemma_gone_are_counted(tombstones.drop_last(), query);
        assert(views.drop_last() =~= crate::manifest::tombstone_views(tombstones.drop_last()));
        assert(views.last() == tombstones.last()@);
        lemma_wanted_is_asked_for(query, arbitrary(), tombstones.last());
    }
}

/// An answer tells how many entries and tombstones of the manifest were asked
/// for, whichever part of them it shows.
pub proof fn law_answers_count_what_was_asked_for(
    manifest: Manifest,
    query: FilesQuery,
    now: Timestamp,
    response: FilesResponse,
)
    requires
        lists_at(manifest, query, now, response),
        manifest.resources@.len() + manifest.tombstones@.len() <= usize::MAX,
    ensures
        response.pagination.total == manifest.resources@.filter(
            |e: ManifestEntry| is_asked_for(query, e),
        ).len() + manifest.tombstones@.filter(
            |t: TombstoneEntry| is_gone_asked_for(query, t),
        ).len(),
{
    let kind = crate::text::optional_text(query.kind);
    let prefix = crate::text::optional_text(query.path_prefix);
    let keep = entry_wanted(kind, prefix);
    let keep_gone = tombstone_wanted(prefix);
    lemma_wanted_are_counted(manifest.resources@, query);
    lemma_gone_are_counted(manifest.tombstones@, query);
    crate::sorting::law_sorting_is_stable(manifest@.resources.filter(keep), entry_path());
    crate::sorting::law_sorting_is_stable(
        manifest@.tombstones.filter(keep_gone),
        tombstone_path(),
    );
    manifest@.resources.lemma_filter_len(keep);
    manifest@.tombstones.lemma_filter_len(keep_gone);
}

} // verus!
