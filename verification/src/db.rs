//! What the database keeps: live resources, archived resources and the history
//! of events, and how one event changes them.
//!
//! `apply_event` decides, from an event and the rows that it concerns, which
//! rows are archived, written and recorded. The statements themselves are
//! carried out by the caller.

use vstd::prelude::*;

use crate::checksum::sha256_hex;
use crate::text::{copy_optional, text_eq};

pub use crate::manifest::{Manifest, ManifestEntry, TombstoneEntry};
pub use crate::paths::{current_folder, normalize_path};

verus! {

// ---------------------------------------------------------------------------
// Events
// ---------------------------------------------------------------------------

/// The changes that are recorded.
#[derive(Debug, Clone, Copy, PartialEq, Eq, Structural)]
pub enum EventKind {
    Created,
    Edited,
    Deleted,
    Renamed,
    Moved,
    Copied,
    DirCreated,
}

impl EventKind {
    /// The name under which the kind is stored.
    pub open spec fn name(self) -> Seq<char> {
        match self {
            EventKind::Created => "created"@,
            EventKind::Edited => "edited"@,
            EventKind::Deleted => "deleted"@,
            EventKind::Renamed => "renamed"@,
            EventKind::Moved => "moved"@,
            EventKind::Copied => "copied"@,
            EventKind::DirCreated => "dir_created"@,
        }
    }

    /// Returns the name under which the kind is stored.
    pub fn as_str(self) -> (name: &'static str)
        ensures
            name@ == self.name(),
    {
        match self {
            EventKind::Created => "created",
            EventKind::Edited => "edited",
            EventKind::Deleted => "deleted",
            EventKind::Renamed => "renamed",
            EventKind::Moved => "moved",
            EventKind::Copied => "copied",
            EventKind::DirCreated => "dir_created",
        }
    }
}

/// A change as it is handed to the database.
///
/// `checksum` is the one that came with the change; rows keep the checksum
/// that is computed from the file on disk.
#[derive(Debug, Clone)]
pub struct EventEnvelope {
    pub event_kind: EventKind,
    pub source_path: String,
    pub destination_path: Option<String>,
    pub checksum: Option<String>,
    pub method: String,
    pub status_code: u16,
    pub username: String,
}

/// The contents of an [`EventEnvelope`].
pub struct EnvelopeView {
    pub event_kind: EventKind,
    pub source_path: Seq<char>,
    pub destination_path: Option<Seq<char>>,
    pub checksum: Option<Seq<char>>,
    pub method: Seq<char>,
    pub status_code: u16,
    pub username: Seq<char>,
}

impl View for EventEnvelope {
    type V = EnvelopeView;

    open spec fn view(&self) -> EnvelopeView {
        EnvelopeView {
            event_kind: self.event_kind,
            source_path: self.source_path@,
            destination_path: crate::text::optional_text(self.destination_path),
            checksum: crate::text::optional_text(self.checksum),
            method: self.method@,
            status_code: self.status_code,
            username: self.username@,
        }
    }
}

// ---------------------------------------------------------------------------
// Rows
// ---------------------------------------------------------------------------

/// Whether a resource is a file or a folder.
#[derive(Debug, Clone, Copy, PartialEq, Eq, Structural)]
pub enum ResourceKind {
    File,
    Folder,
}

impl ResourceKind {
    /// The name under which the kind is stored.
    pub open spec fn name(self) -> Seq<char> {
        match self {
            ResourceKind::File => "file"@,
            ResourceKind::Folder => "folder"@,
        }
    }

    /// Returns the name under which the kind is stored.
    pub fn as_str(self) -> (name: &'static str)
        ensures
            name@ == self.name(),
    {
        match self {
            ResourceKind::File => "file",
            ResourceKind::Folder => "folder",
        }
    }

    /// The kind that a stored name stands for: whatever is not a folder is a
    /// file.
    pub fn from_column(name: &str) -> (kind: ResourceKind)
        ensures
            kind == if name@ == "folder"@ {
                ResourceKind::Folder
            } else {
                ResourceKind::File
            },
    {
        if text_eq(name, "folder") {
            ResourceKind::Folder
        } else {
            ResourceKind::File
        }
    }
}

/// A row of the live resources, as far as events need it.
#[derive(Debug, Clone)]
pub struct ResourceRow {
    pub id: i64,
    pub resource_path: String,
    pub current_folder: String,
    pub resource_kind: ResourceKind,
    pub checksum: Option<String>,
    pub checksum_algorithm: String,
}

/// The contents of a [`ResourceRow`].
pub struct RowView {
    pub id: int,
    pub resource_path: Seq<char>,
    pub current_folder: Seq<char>,
    pub resource_kind: ResourceKind,
    pub checksum: Option<Seq<char>>,
    pub checksum_algorithm: Seq<char>,
}

impl View for ResourceRow {
    type V = RowView;

    open spec fn view(&self) -> RowView {
        RowView {
            id: self.id as int,
            resource_path: self.resource_path@,
            current_folder: self.current_folder@,
            resource_kind: self.resource_kind,
            checksum: crate::text::optional_text(self.checksum),
            checksum_algorithm: self.checksum_algorithm@,
        }
    }
}

/// The contents of an optional row.
pub open spec fn optional_row(row: Option<ResourceRow>) -> Option<RowView> {
    match row {
        Some(r) => Some(r@),
        None => None,
    }
}

/// Why a row left the live resources.
#[derive(Debug, Clone, Copy, PartialEq, Eq, Structural)]
pub enum ArchiveReason {
    Delete,
    Move,
    CopyReplace,
}

impl ArchiveReason {
    /// The name under which the reason is stored.
    pub open spec fn name(self) -> Seq<char> {
        match self {
            ArchiveReason::Delete => "delete"@,
            ArchiveReason::Move => "move"@,
            ArchiveReason::CopyReplace => "copy_replace"@,
        }
    }

    /// Returns the name under which the reason is stored.
    pub fn as_str(self) -> (name: &'static str)
        ensures
            name@ == self.name(),
    {
        match self {
            ArchiveReason::Delete => "delete",
            ArchiveReason::Move => "move",
            ArchiveReason::CopyReplace => "copy_replace",
        }
    }
}

/// A live row that is copied to the archive and then deleted.
#[derive(Debug, Clone)]
pub struct RetiredRow {
    pub row: ResourceRow,
    pub reason: ArchiveReason,
    pub event_kind: EventKind,
    pub method: String,
    pub status_code: i64,
    pub username: String,
}

/// The contents of a [`RetiredRow`].
pub struct RetiredView {
    pub row: RowView,
    pub reason: ArchiveReason,
    pub event_kind: EventKind,
    pub method: Seq<char>,
    pub status_code: int,
    pub username: Seq<char>,
}

impl View for RetiredRow {
    type V = RetiredView;

    open spec fn view(&self) -> RetiredView {
        RetiredView {
            row: self.row@,
            reason: self.reason,
            event_kind: self.event_kind,
            method: self.method@,
            status_code: self.status_code as int,
            username: self.username@,
        }
    }
}

/// The columns that an event writes to a live row.
#[derive(Debug, Clone)]
pub struct LiveResource {
    pub resource_path: String,
    pub current_folder: String,
    pub resource_kind: ResourceKind,
    pub checksum: Option<String>,
    pub last_event_type: EventKind,
    pub last_method: String,
    pub last_status_code: i64,
    pub username: String,
}

/// The contents of a [`LiveResource`].
pub struct LiveView {
    pub resource_path: Seq<char>,
    pub current_folder: Seq<char>,
    pub resource_kind: ResourceKind,
    pub checksum: Option<Seq<char>>,
    pub last_event_type: EventKind,
    pub last_method: Seq<char>,
    pub last_status_code: int,
    pub username: Seq<char>,
}

impl View for LiveResource {
    type V = LiveView;

    open spec fn view(&self) -> LiveView {
        LiveView {
            resource_path: self.resource_path@,
            current_folder: self.current_folder@,
            resource_kind: self.resource_kind,
            checksum: crate::text::optional_text(self.checksum),
            last_event_type: self.last_event_type,
            last_method: self.last_method@,
            last_status_code: self.last_status_code as int,
            username: self.username@,
        }
    }
}

/// What becomes of the live resources.
#[derive(Debug, Clone)]
pub enum ResourceChange {
    /// Nothing is written.
    Keep,
    /// The row with this id gets new columns.
    Update { id: i64, resource: LiveResource },
    /// A row is inserted, or written over the one with the same path.
    Upsert { resource: LiveResource },
}

/// The contents of a [`ResourceChange`].
pub enum ChangeView {
    Keep,
    Update { id: int, resource: LiveView },
    Upsert { resource: LiveView },
}

impl View for ResourceChange {
    type V = ChangeView;

    open spec fn view(&self) -> ChangeView {
        match self {
            ResourceChange::Keep => ChangeView::Keep,
            ResourceChange::Update { id, resource } => ChangeView::Update {
                id: *id as int,
                resource: resource@,
            },
            ResourceChange::Upsert { resource } => ChangeView::Upsert { resource: resource@ },
        }
    }
}

/// A row of the event history, but for the id of the archived row, if a row is
/// archived: it is known once that row is written, and
/// [`TableAction::Append`](crate::transaction::TableAction) adds it.
#[derive(Debug, Clone)]
pub struct EventRow {
    pub event_type: EventKind,
    pub source_path: String,
    pub destination_path: Option<String>,
    pub current_folder: String,
    pub resource_kind: ResourceKind,
    pub checksum: Option<String>,
    pub method: String,
    pub status_code: i64,
    pub username: String,
    pub source_resource_id: Option<i64>,
}

/// The contents of an [`EventRow`].
pub struct EventRowView {
    pub event_type: EventKind,
    pub source_path: Seq<char>,
    pub destination_path: Option<Seq<char>>,
    pub current_folder: Seq<char>,
    pub resource_kind: ResourceKind,
    pub checksum: Option<Seq<char>>,
    pub method: Seq<char>,
    pub status_code: int,
    pub username: Seq<char>,
    pub source_resource_id: Option<int>,
}

impl View for EventRow {
    type V = EventRowView;

    open spec fn view(&self) -> EventRowView {
        EventRowView {
            event_type: self.event_type,
            source_path: self.source_path@,
            destination_path: crate::text::optional_text(self.destination_path),
            current_folder: self.current_folder@,
            resource_kind: self.resource_kind,
            checksum: crate::text::optional_text(self.checksum),
            method: self.method@,
            status_code: self.status_code as int,
            username: self.username@,
            source_resource_id: match self.source_resource_id {
                Some(id) => Some(id as int),
                None => None,
            },
        }
    }
}

/// Everything that one event does to the database, in this order: a row is
/// archived and deleted, the live resources change, the event is appended.
#[derive(Debug, Clone)]
pub struct EventPlan {
    pub retired: Option<RetiredRow>,
    pub change: ResourceChange,
    pub event: EventRow,
}

/// The contents of an [`EventPlan`].
pub struct PlanView {
    pub retired: Option<RetiredView>,
    pub change: ChangeView,
    pub event: EventRowView,
}

impl View for EventPlan {
    type V = PlanView;

    open spec fn view(&self) -> PlanView {
        PlanView {
            retired: match self.retired {
                Some(r) => Some(r@),
                None => None,
            },
            change: self.change@,
            event: self.event@,
        }
    }
}

// ---------------------------------------------------------------------------
// Planning an event
// ---------------------------------------------------------------------------

/// The paths that an event concerns.
#[derive(Debug, Clone)]
pub struct EventPaths {
    /// Where the resource was.
    pub source_path: String,
    /// Where it went, if the event names a destination.
    pub destination_path: Option<String>,
    /// Where it is after the event.
    pub final_path: String,
}

/// The stored form of an event's source path.
pub open spec fn source_of(event: EnvelopeView) -> Seq<char> {
    crate::paths::stored_path(event.source_path)
}

/// The stored form of an event's destination path.
pub open spec fn destination_of(event: EnvelopeView) -> Option<Seq<char>> {
    match event.destination_path {
        Some(path) => Some(crate::paths::stored_path(path)),
        None => None,
    }
}

/// The path of the resource after the event.
pub open spec fn final_path_of(event: EnvelopeView) -> Seq<char> {
    match destination_of(event) {
        Some(path) => path,
        None => source_of(event),
    }
}

/// Returns the paths that an event concerns.
pub fn event_paths(event: &EventEnvelope) -> (paths: EventPaths)
    ensures
        paths.source_path@ == source_of(event@),
        crate::text::optional_text(paths.destination_path) == destination_of(event@),
        paths.final_path@ == final_path_of(event@),
        crate::paths::is_stored_form(event.source_path@, paths.source_path@),
        paths.destination_path is Some <==> event.destination_path is Some,
        event.destination_path matches Some(raw) ==> crate::paths::is_stored_form(
            raw@,
            paths.destination_path->0@,
        ) && paths.final_path@ == paths.destination_path->0@,
        event.destination_path is None ==> paths.final_path@ == paths.source_path@,
{
    proof {
        crate::paths::law_stored_form(event.source_path@, event.source_path@);
        if event.destination_path is Some {
            crate::paths::law_stored_form(event.destination_path->0@, event.source_path@);
        }
    }
    let source_path: String = normalize_path(&event.source_path);
    match &event.destination_path {
        Some(path) => {
            let destination: String = normalize_path(path);
            EventPaths {
                source_path,
                destination_path: Some(destination.clone()),
                final_path: destination,
            }
        },
        None => EventPaths {
            final_path: source_path.clone(),
            source_path,
            destination_path: None,
        },
    }
}

/// The kind of the resource that an event concerns.
pub open spec fn resolved_kind(event_kind: EventKind, existing: Option<RowView>) -> ResourceKind {
    match existing {
        Some(row) => row.resource_kind,
        None => match event_kind {
            EventKind::DirCreated => ResourceKind::Folder,
            _ => ResourceKind::File,
        },
    }
}

/// A known resource keeps its kind; an unknown one is a folder where one was
/// created, a file otherwise.
pub fn resolve_resource_kind(event_kind: EventKind, existing: Option<&ResourceRow>) -> (kind:
    ResourceKind)
    ensures
        kind == resolved_kind(
            event_kind,
            match existing {
                Some(row) => Some(row@),
                None => None,
            },
        ),
{
    match existing {
        Some(row) => row.resource_kind,
        None => match event_kind {
            EventKind::DirCreated => ResourceKind::Folder,
            _ => ResourceKind::File,
        },
    }
}

/// The row that an event retires, and why.
pub open spec fn retired_by(
    event: EnvelopeView,
    source: Option<RowView>,
    destination: Option<RowView>,
) -> Option<(RowView, ArchiveReason)> {
    match event.event_kind {
        EventKind::Deleted => match source {
            Some(row) => Some((row, ArchiveReason::Delete)),
            None => None,
        },
        EventKind::Renamed | EventKind::Moved => match destination {
            Some(row) => if event.destination_path is Some && !(source is Some && source->0.id
                == row.id) {
                Some((row, ArchiveReason::Move))
            } else {
                None
            },
            None => None,
        },
        EventKind::Copied => match destination {
            Some(row) => if event.destination_path is Some {
                Some((row, ArchiveReason::CopyReplace))
            } else {
                None
            },
            None => None,
        },
        _ => None,
    }
}

/// The columns that an event writes for the resource at `path`.
pub open spec fn live_columns(
    event: EnvelopeView,
    path: Seq<char>,
    kind: ResourceKind,
    checksum: Option<Seq<char>>,
) -> LiveView {
    LiveView {
        resource_path: path,
        current_folder: crate::paths::folder_of(path),
        resource_kind: kind,
        checksum,
        last_event_type: event.event_kind,
        last_method: event.method,
        last_status_code: event.status_code as int,
        username: event.username,
    }
}

/// The checksum of the resource: none for a folder, that of the file on disk
/// for a file.
pub open spec fn kept_checksum(kind: ResourceKind, on_disk: Option<Seq<char>>) -> Option<
    Seq<char>,
> {
    match kind {
        ResourceKind::Folder => None,
        ResourceKind::File => on_disk,
    }
}

/// What an event does to the database, given the live rows at its source and
/// destination and the checksum of the file at its final path.
pub open spec fn planned(
    event: EnvelopeView,
    source: Option<RowView>,
    destination: Option<RowView>,
    on_disk: Option<Seq<char>>,
) -> PlanView {
    let kind = resolved_kind(event.event_kind, source);
    let checksum = kept_checksum(kind, on_disk);
    PlanView {
        retired: match retired_by(event, source, destination) {
            Some((row, reason)) => Some(
                RetiredView {
                    row,
                    reason,
                    event_kind: event.event_kind,
                    method: event.method,
                    status_code: event.status_code as int,
                    username: event.username,
                },
            ),
            None => None,
        },
        change: match event.event_kind {
            EventKind::Deleted => ChangeView::Keep,
            EventKind::Renamed | EventKind::Moved => {
                let resource = live_columns(event, final_path_of(event), kind, checksum);
                match source {
                    Some(row) => ChangeView::Update { id: row.id, resource },
                    None => ChangeView::Upsert { resource },
                }
            },
            EventKind::Copied => ChangeView::Upsert {
                resource: live_columns(event, final_path_of(event), kind, checksum),
            },
            _ => ChangeView::Upsert {
                resource: live_columns(event, source_of(event), kind, checksum),
            },
        },
        event: EventRowView {
            event_type: event.event_kind,
            source_path: source_of(event),
            destination_path: destination_of(event),
            current_folder: crate::paths::folder_of(final_path_of(event)),
            resource_kind: kind,
            checksum: if event.event_kind == EventKind::Deleted && source is Some {
                source->0.checksum
            } else {
                checksum
            },
            method: event.method,
            status_code: event.status_code as int,
            username: event.username,
            source_resource_id: match source {
                Some(row) => Some(row.id),
                None => None,
            },
        },
    }
}

fn live_resource(
    event: &EventEnvelope,
    path: &str,
    kind: ResourceKind,
    checksum: &Option<String>,
) -> (resource: LiveResource)
    ensures
        resource@ == live_columns(event@, path@, kind, crate::text::optional_text(*checksum)),
{
    LiveResource {
        resource_path: path.to_string(),
        current_folder: current_folder(path),
        resource_kind: kind,
        checksum: copy_optional(checksum),
        last_event_type: event.event_kind,
        last_method: event.method.clone(),
        last_status_code: event.status_code as i64,
        username: event.username.clone(),
    }
}

fn retire(event: &EventEnvelope, row: ResourceRow, reason: ArchiveReason) -> (retired: RetiredRow)
    ensures
        retired@ == (RetiredView {
            row: row@,
            reason,
            event_kind: event.event_kind,
            method: event.method@,
            status_code: event.status_code as int,
            username: event.username@,
        }),
{
    RetiredRow {
        row,
        reason,
        event_kind: event.event_kind,
        method: event.method.clone(),
        status_code: event.status_code as i64,
        username: event.username.clone(),
    }
}

/// Decides what an event does to the database.
///
/// `source` and `destination` are the live rows at the event's stored paths,
/// and `on_disk` is the checksum of the file at its final path.
pub fn plan_event(
    event: EventEnvelope,
    source: Option<ResourceRow>,
    destination: Option<ResourceRow>,
    on_disk: Option<String>,
) -> (plan: EventPlan)
    ensures
        plan@ == planned(
            event@,
            optional_row(source),
            optional_row(destination),
            crate::text::optional_text(on_disk),
        ),
{
    let paths: EventPaths = event_paths(&event);
    let kind: ResourceKind = resolve_resource_kind(event.event_kind, source.as_ref());
    let mut checksum: Option<String> = if kind == ResourceKind::Folder {
        None
    } else {
        on_disk
    };
    let source_id: Option<i64> = match &source {
        Some(row) => Some(row.id),
        None => None,
    };
    let mut retired: Option<RetiredRow> = None;
    let change: ResourceChange = match event.event_kind {
        EventKind::Deleted => {
            if let Some(row) = source {
                checksum = copy_optional(&row.checksum);
                retired = Some(retire(&event, row, ArchiveReason::Delete));
            }
            ResourceChange::Keep
        },
        EventKind::Renamed | EventKind::Moved => {
            if event.destination_path.is_some() {
                if let Some(row) = destination {
                    let is_source: bool = match source_id {
                        Some(id) => id == row.id,
                        None => false,
                    };
                    if !is_source {
                        retired = Some(retire(&event, row, ArchiveReason::Move));
                    }
                }
            }
            let resource: LiveResource = live_resource(&event, &paths.final_path, kind, &checksum);
            match source_id {
                Some(id) => ResourceChange::Update { id, resource },
                None => ResourceChange::Upsert { resource },
            }
        },
        EventKind::Copied => {
            if event.destination_path.is_some() {
                if let Some(row) = destination {
                    retired = Some(retire(&event, row, ArchiveReason::CopyReplace));
                }
            }
            ResourceChange::Upsert {
                resource: live_resource(&event, &paths.final_path, kind, &checksum),
            }
        },
        EventKind::Created | EventKind::Edited | EventKind::DirCreated => {
            ResourceChange::Upsert {
                resource: live_resource(&event, &paths.source_path, kind, &checksum),
            }
        },
    };
    let folder: String = current_folder(&paths.final_path);
    EventPlan {
        retired,
        change,
        event: EventRow {
            event_type: event.event_kind,
            source_path: paths.source_path,
            destination_path: paths.destination_path,
            current_folder: folder,
            resource_kind: kind,
            checksum,
            method: event.method,
            status_code: event.status_code as i64,
            username: event.username,
            source_resource_id: source_id,
        },
    }
}

/// The checksum of optional file content.
pub open spec fn content_checksum(content: Option<Vec<u8>>) -> Option<Seq<char>> {
    match content {
        Some(data) => Some(crate::checksum::stored_checksum(data@)),
        None => None,
    }
}

/// Decides what an event does to the database, given the live rows at its
/// stored paths and the content of the file at its final path, if it could be
/// read.
pub fn apply_event(
    event: EventEnvelope,
    source: Option<ResourceRow>,
    destination: Option<ResourceRow>,
    content: Option<Vec<u8>>,
) -> (plan: EventPlan)
    ensures
        plan@ == planned(
            event@,
            optional_row(source),
            optional_row(destination),
            content_checksum(content),
        ),
{
    let on_disk: Option<String> = match &content {
        Some(data) => Some(sha256_hex(data)),
        None => None,
    };
    plan_event(event, source, destination, on_disk)
}

// ---------------------------------------------------------------------------
// Laws
// ---------------------------------------------------------------------------

/// An event and the rows of the live table are seen with all that they hold.
pub proof fn law_events_and_rows_tell_all(event: EventEnvelope, row: ResourceRow)
    ensures
        event@.event_kind == event.event_kind,
        event@.source_path == event.source_path@,
        event@.destination_path is Some <==> event.destination_path is Some,
        event.destination_path is Some ==> event@.destination_path->0
            == event.destination_path->0@,
        event@.checksum is Some <==> event.checksum is Some,
        event.checksum is Some ==> event@.checksum->0 == event.checksum->0@,
        event@.method == event.method@,
        event@.status_code == event.status_code,
        event@.username == event.username@,
        row@.id == row.id,
        row@.resource_path == row.resource_path@,
        row@.current_folder == row.current_folder@,
        row@.resource_kind == row.resource_kind,
        row@.checksum is Some <==> row.checksum is Some,
        row.checksum is Some ==> row@.checksum->0 == row.checksum->0@,
        row@.checksum_algorithm == row.checksum_algorithm@,
        optional_row(Some(row)) == Some(row@),
        optional_row(None) is None,
{
}

/// A plan is seen with all that it holds.
pub proof fn law_plans_tell_all(plan: EventPlan)
    ensures
        plan@.retired is Some <==> plan.retired is Some,
        plan.retired matches Some(retired) ==> {
            let shown = plan@.retired->0;
            &&& shown.row == retired.row@
            &&& shown.reason == retired.reason
            &&& shown.event_kind == retired.event_kind
            &&& shown.method == retired.method@
            &&& shown.status_code == retired.status_code
            &&& shown.username == retired.username@
        },
        plan.change is Keep <==> plan@.change is Keep,
        plan.change is Update <==> plan@.change is Update,
        plan.change matches ResourceChange::Update { id, resource } ==> plan@.change
            == (ChangeView::Update { id: id as int, resource: resource@ }),
        plan.change matches ResourceChange::Upsert { resource } ==> plan@.change
            == (ChangeView::Upsert { resource: resource@ }),
        plan@.event.event_type == plan.event.event_type,
        plan@.event.source_path == plan.event.source_path@,
        plan@.event.destination_path is Some <==> plan.event.destination_path is Some,
        plan.event.destination_path is Some ==> plan@.event.destination_path->0
            == plan.event.destination_path->0@,
        plan@.event.current_folder == plan.event.current_folder@,
        plan@.event.resource_kind == plan.event.resource_kind,
        plan@.event.checksum is Some <==> plan.event.checksum is Some,
        plan.event.checksum is Some ==> plan@.event.checksum->0 == plan.event.checksum->0@,
        plan@.event.method == plan.event.method@,
        plan@.event.status_code == plan.event.status_code,
        plan@.event.username == plan.event.username@,
        plan@.event.source_resource_id is Some <==> plan.event.source_resource_id is Some,
        plan.event.source_resource_id is Some ==> plan@.event.source_resource_id->0
            == plan.event.source_resource_id->0,
{
}

/// The columns of a live row are seen with all that they hold.
pub proof fn law_live_rows_tell_all(resource: LiveResource)
    ensures
        resource@.resource_path == resource.resource_path@,
        resource@.current_folder == resource.current_folder@,
        resource@.resource_kind == resource.resource_kind,
        resource@.checksum is Some <==> resource.checksum is Some,
        resource.checksum is Some ==> resource@.checksum->0 == resource.checksum->0@,
        resource@.last_event_type == resource.last_event_type,
        resource@.last_method == resource.last_method@,
        resource@.last_status_code == resource.last_status_code,
        resource@.username == resource.username@,
{
}

/// Where a resource is after an event, by the paths that the event carries:
/// at the destination, where one is named, or else at the source, in each case
/// without slashes at the end.
pub open spec fn ends_at(event: EnvelopeView, path: Seq<char>) -> bool {
    match event.destination_path {
        Some(destination) => crate::paths::is_stored_form(destination, path),
        None => crate::paths::is_stored_form(event.source_path, path),
    }
}

/// The row that is appended to the history tells the event as it was: its
/// kind, who did it and how, the paths that it carries in stored form, the
/// folder in which it left the resource, and the row that it concerned.
pub proof fn law_history_tells_the_event(
    event: EnvelopeView,
    source: Option<RowView>,
    destination: Option<RowView>,
    on_disk: Option<Seq<char>>,
)
    ensures
        ({
            let row = planned(event, source, destination, on_disk).event;
            &&& row.event_type == event.event_kind
            &&& row.method == event.method
            &&& row.status_code == event.status_code
            &&& row.username == event.username
            &&& crate::paths::is_stored_form(event.source_path, row.source_path)
            &&& row.destination_path is Some <==> event.destination_path is Some
            &&& event.destination_path is Some ==> crate::paths::is_stored_form(
                event.destination_path->0,
                row.destination_path->0,
            )
            &&& exists|path: Seq<char>|
                ends_at(event, path) && #[trigger] crate::paths::is_parent(
                    row.current_folder,
                    path,
                )
            &&& row.source_resource_id is Some <==> source is Some
            &&& source is Some ==> row.source_resource_id->0 == source->0.id
        }),
{
    let row = planned(event, source, destination, on_disk).event;
    let raw = match event.destination_path {
        Some(path) => path,
        None => event.source_path,
    };
    crate::paths::law_stored_form(event.source_path, row.source_path);
    crate::paths::law_stored_form(raw, raw);
    crate::paths::law_folder_is_the_parent_of_the_stored_path(
        raw,
        crate::paths::stored_path(raw),
    );
    assert(ends_at(event, crate::paths::stored_path(raw)) && crate::paths::is_parent(
        row.current_folder,
        crate::paths::stored_path(raw),
    ));
}

/// The kind that an event records is that of the row it concerns; where there
/// is none, a folder that was created is a folder and all else a file. Folders
/// have no checksum; a file has that of its content on disk, and a deleted
/// resource the one that was known of it.
pub proof fn law_history_tells_kind_and_checksum(
    event: EnvelopeView,
    source: Option<RowView>,
    destination: Option<RowView>,
    on_disk: Option<Seq<char>>,
)
    ensures
        ({
            let row = planned(event, source, destination, on_disk).event;
            &&& source is Some ==> row.resource_kind == source->0.resource_kind
            &&& source is None ==> (row.resource_kind == ResourceKind::Folder <==> event.event_kind
                == EventKind::DirCreated)
            &&& event.event_kind == EventKind::Deleted && source is Some ==> row.checksum
                == source->0.checksum
            &&& (event.event_kind != EventKind::Deleted || source is None) && row.resource_kind
                == ResourceKind::Folder ==> row.checksum is None
            &&& (event.event_kind != EventKind::Deleted || source is None) && row.resource_kind
                == ResourceKind::File ==> row.checksum == on_disk
        }),
{
}

/// An event other than a deletion writes one live row, with what the history
/// tells of the event: a created or edited resource at the source, a renamed,
/// moved or copied one where the event ends. A renamed or moved resource keeps
/// the row that it has; a deletion writes none.
pub proof fn law_live_row_follows_the_event(
    event: EnvelopeView,
    source: Option<RowView>,
    destination: Option<RowView>,
    on_disk: Option<Seq<char>>,
)
    ensures
        ({
            let plan = planned(event, source, destination, on_disk);
            let relocated = event.event_kind == EventKind::Renamed || event.event_kind
                == EventKind::Moved;
            let resource = match plan.change {
                ChangeView::Update { resource, .. } => resource,
                ChangeView::Upsert { resource } => resource,
                ChangeView::Keep => arbitrary(),
            };
            &&& plan.change is Keep <==> event.event_kind == EventKind::Deleted
            &&& plan.change is Update <==> relocated && source is Some
            &&& plan.change is Update ==> plan.change->id == source->0.id
            &&& event.event_kind != EventKind::Deleted ==> {
                &&& relocated || event.event_kind == EventKind::Copied ==> ends_at(
                    event,
                    resource.resource_path,
                )
                &&& !relocated && event.event_kind != EventKind::Copied
                    ==> crate::paths::is_stored_form(event.source_path, resource.resource_path)
                &&& crate::paths::is_parent(resource.current_folder, resource.resource_path)
                &&& resource.resource_kind == plan.event.resource_kind
                &&& resource.checksum == plan.event.checksum
                &&& resource.last_event_type == event.event_kind
                &&& resource.last_method == event.method
                &&& resource.last_status_code == event.status_code
                &&& resource.username == event.username
            }
        }),
{
    crate::paths::law_stored_form(event.source_path, event.source_path);
    crate::paths::law_folder_is_the_parent_of_the_stored_path(
        event.source_path,
        crate::paths::stored_path(event.source_path),
    );
    if let Some(path) = event.destination_path {
        crate::paths::law_stored_form(path, path);
        crate::paths::law_folder_is_the_parent_of_the_stored_path(
            path,
            crate::paths::stored_path(path),
        );
    }
}

/// A row is archived exactly where it is deleted, or where another resource is
/// renamed, moved or copied onto it; it is archived as it is, with the reason
/// and with the event that did it.
pub proof fn law_archived_row_is_the_one_replaced(
    event: EnvelopeView,
    source: Option<RowView>,
    destination: Option<RowView>,
    on_disk: Option<Seq<char>>,
)
    ensures
        ({
            let retired = planned(event, source, destination, on_disk).retired;
            let onto = event.destination_path is Some && destination is Some;
            let relocated = event.event_kind == EventKind::Renamed || event.event_kind
                == EventKind::Moved;
            let itself = source is Some && destination is Some && source->0.id
                == destination->0.id;
            &&& retired is Some <==> {
                ||| event.event_kind == EventKind::Deleted && source is Some
                ||| relocated && onto && !itself
                ||| event.event_kind == EventKind::Copied && onto
            }
            &&& retired matches Some(r) ==> {
                &&& event.event_kind == EventKind::Deleted ==> r.row == source->0 && r.reason
                    == ArchiveReason::Delete
                &&& relocated ==> r.row == destination->0 && r.reason == ArchiveReason::Move
                &&& event.event_kind == EventKind::Copied ==> r.row == destination->0 && r.reason
                    == ArchiveReason::CopyReplace
                &&& r.event_kind == event.event_kind
                &&& r.method == event.method
                &&& r.status_code == event.status_code
                &&& r.username == event.username
            }
        }),
{
}

/// The content that could be read counts with its checksum, content that could
/// not be read with none.
pub proof fn law_content_counts_with_its_checksum(content: Option<Vec<u8>>)
    ensures
        content is Some <==> content_checksum(content) is Some,
        content matches Some(data) ==> content_checksum(content) == Some(
            crate::numbers::hex_bytes(crate::checksum::sha256(data@)),
        ),
{
}

/// The names under which kinds, reasons and resources are stored are all
/// different.
pub proof fn law_stored_names_are_distinct(
    a: EventKind,
    b: EventKind,
    r: ArchiveReason,
    s: ArchiveReason,
)
    ensures
        a.name() == b.name() <==> a == b,
        r.name() == s.name() <==> r == s,
        ResourceKind::File.name() != ResourceKind::Folder.name(),
        ArchiveReason::Move.name() == "move"@,
        ArchiveReason::Delete.name() == "delete"@,
{
    reveal_strlit("created");
    reveal_strlit("edited");
    reveal_strlit("deleted");
    reveal_strlit("renamed");
    reveal_strlit("moved");
    reveal_strlit("copied");
    reveal_strlit("dir_created");
    reveal_strlit("delete");
    reveal_strlit("move");
    reveal_strlit("copy_replace");
    reveal_strlit("file");
    reveal_strlit("folder");
    assert("created"@[0] == 'c' && "edited"@[0] == 'e' && "deleted"@[0] == 'd' && "renamed"@[0]
        == 'r' && "moved"@[0] == 'm' && "copied"@[0] == 'c');
    assert("created"@.len() == 7 && "copied"@.len() == 6 && "dir_created"@.len() == 11
        && "deleted"@.len() == 7);
    assert("delete"@.len() == 6 && "move"@.len() == 4 && "copy_replace"@.len() == 12);
    assert("file"@.len() == 4 && "folder"@.len() == 6);
}

} // verus!
