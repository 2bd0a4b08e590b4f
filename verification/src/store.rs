//! A model of the database tables, and the laws that events keep.
//!
//! `carry_out` says what the statements of an [`EventPlan`](crate::db::EventPlan)
//! do to the three tables when all of them succeed; the laws hold of every plan
//! that is made from the rows of the tables it is carried out on.

use vstd::prelude::*;

use crate::db::{
    ArchiveReason, ChangeView, EnvelopeView, EventKind, EventRowView, LiveView, PlanView,
    ResourceKind, RetiredView, RowView,
};

verus! {

/// A live row: its id and its columns.
pub struct StoredRow {
    pub id: int,
    pub columns: LiveView,
}

/// An archived row: its id and its columns.
pub struct ArchivedRow {
    pub id: int,
    pub columns: RetiredView,
}

/// A row of the history: its columns, and the id of the row that was archived
/// on account of the event, if one was.
pub struct RecordedEvent {
    pub columns: EventRowView,
    pub archive_id: Option<int>,
}

/// The three tables, and the ids that the next live and the next archived row
/// get. Live rows are found by their path, which is unique.
pub struct Store {
    pub live: Map<Seq<char>, StoredRow>,
    pub archive: Seq<ArchivedRow>,
    pub events: Seq<RecordedEvent>,
    pub next_id: int,
    pub next_archive_id: int,
}

impl Store {
    /// Tables without rows.
    pub open spec fn empty() -> Store {
        Store {
            live: Map::empty(),
            archive: Seq::empty(),
            events: Seq::empty(),
            next_id: 1,
            next_archive_id: 1,
        }
    }

    /// Rows are found under their own path, which is in stored form, and in
    /// their own folder; ids are unique and were handed out; folders have no
    /// checksum; where an event names an archived row, that row exists.
    pub open spec fn wf(self) -> bool {
        &&& forall|p: Seq<char>| #[trigger]
            self.live.contains_key(p) ==> {
                &&& self.live[p].columns.resource_path == p
                &&& crate::paths::stored_path(p) == p
                &&& self.live[p].columns.current_folder == crate::paths::folder_of(p)
                &&& self.live[p].columns.resource_kind == ResourceKind::Folder
                    ==> self.live[p].columns.checksum is None
                &&& self.live[p].id < self.next_id
            }
        &&& forall|p: Seq<char>, q: Seq<char>|
            #![trigger self.live[p], self.live[q]]
            self.live.contains_key(p) && self.live.contains_key(q) && self.live[p].id
                == self.live[q].id ==> p == q
        &&& forall|i: int|
            0 <= i < self.archive.len() ==> (#[trigger] self.archive[i]).id < self.next_archive_id
        &&& forall|i: int, j: int|
            0 <= i < j < self.archive.len() ==> (#[trigger] self.archive[i]).id != (
            #[trigger] self.archive[j]).id
        &&& forall|i: int|
            0 <= i < self.events.len() ==> ((#[trigger] self.events[i]).archive_id matches Some(id)
                ==> self.has_archived(id))
    }

    /// The archive holds a row with the given id.
    pub open spec fn has_archived(self, id: int) -> bool {
        exists|i: int| 0 <= i < self.archive.len() && (#[trigger] self.archive[i]).id == id
    }

    /// The row that is loaded for a path.
    pub open spec fn row(self, path: Seq<char>) -> Option<RowView> {
        if self.live.contains_key(path) {
            let columns = self.live[path].columns;
            Some(
                RowView {
                    id: self.live[path].id,
                    resource_path: columns.resource_path,
                    current_folder: columns.current_folder,
                    resource_kind: columns.resource_kind,
                    checksum: columns.checksum,
                    checksum_algorithm: "sha256"@,
                },
            )
        } else {
            None
        }
    }

    /// The rows that are loaded for an event's destination.
    pub open spec fn destination_row(self, event: EnvelopeView) -> Option<RowView> {
        match crate::db::destination_of(event) {
            Some(path) => self.row(path),
            None => None,
        }
    }

    /// The plan that is made for an event on these tables.
    pub open spec fn plan(self, event: EnvelopeView, on_disk: Option<Seq<char>>) -> PlanView {
        crate::db::planned(
            event,
            self.row(crate::db::source_of(event)),
            self.destination_row(event),
            on_disk,
        )
    }
}

/// The live rows without the one with the given id.
pub open spec fn without_id(live: Map<Seq<char>, StoredRow>, id: int) -> Map<
    Seq<char>,
    StoredRow,
> {
    Map::new(|p: Seq<char>| live.contains_key(p) && live[p].id != id, |p: Seq<char>| live[p])
}

/// The tables after a row was copied to the archive.
pub open spec fn after_archiving(store: Store, retired: RetiredView) -> Store {
    Store {
        archive: store.archive.push(ArchivedRow { id: store.next_archive_id, columns: retired }),
        next_archive_id: store.next_archive_id + 1,
        ..store
    }
}

/// The tables after a live row was deleted.
pub open spec fn after_deleting(store: Store, id: int) -> Store {
    Store { live: without_id(store.live, id), ..store }
}

/// The tables after a row was archived and deleted.
pub open spec fn after_retiring(store: Store, retired: Option<RetiredView>) -> Store {
    match retired {
        Some(r) => after_deleting(after_archiving(store, r), r.row.id),
        None => store,
    }
}

/// The tables after the live resources changed.
pub open spec fn after_change(store: Store, change: ChangeView) -> Store {
    match change {
        ChangeView::Keep => store,
        ChangeView::Update { id, resource } => Store {
            live: without_id(store.live, id).insert(
                resource.resource_path,
                StoredRow { id, columns: resource },
            ),
            ..store
        },
        ChangeView::Upsert { resource } => if store.live.contains_key(resource.resource_path) {
            Store {
                live: store.live.insert(
                    resource.resource_path,
                    StoredRow { id: store.live[resource.resource_path].id, columns: resource },
                ),
                ..store
            }
        } else {
            Store {
                live: store.live.insert(
                    resource.resource_path,
                    StoredRow { id: store.next_id, columns: resource },
                ),
                next_id: store.next_id + 1,
                ..store
            }
        },
    }
}

/// The tables after an event was appended to the history.
pub open spec fn after_append(store: Store, event: RecordedEvent) -> Store {
    Store { events: store.events.push(event), ..store }
}

/// The row that a plan appends to the history. Exactly where the plan archives
/// a row, it names the id that this row gets.
pub open spec fn recorded(store: Store, plan: PlanView) -> RecordedEvent {
    RecordedEvent {
        columns: plan.event,
        archive_id: match plan.retired {
            Some(_) => Some(store.next_archive_id),
            None => None,
        },
    }
}

/// The tables after a plan was carried out.
pub open spec fn carry_out(store: Store, plan: PlanView) -> Store {
    after_append(
        after_change(after_retiring(store, plan.retired), plan.change),
        recorded(store, plan),
    )
}

/// The tables after an event.
pub open spec fn after_event(
    store: Store,
    event: EnvelopeView,
    on_disk: Option<Seq<char>>,
) -> Store {
    carry_out(store, store.plan(event, on_disk))
}

/// No statement of a plan runs into the uniqueness of paths: where a row gets
/// a new path, no other row is left there.
pub open spec fn path_is_free(store: Store, plan: PlanView) -> bool {
    match plan.change {
        ChangeView::Update { id, resource } => !without_id(
            after_retiring(store, plan.retired).live,
            id,
        ).contains_key(resource.resource_path),
        _ => true,
    }
}

// ---------------------------------------------------------------------------
// Laws
// ---------------------------------------------------------------------------

/// The empty tables are well-formed.
pub proof fn law_empty_store_is_well_formed()
    ensures
        Store::empty().wf(),
{
}

/// Every event keeps the tables well-formed, and no row is moved onto the path
/// of another.
pub proof fn law_events_keep_the_store_well_formed(
    store: Store,
    event: EnvelopeView,
    on_disk: Option<Seq<char>>,
)
    requires
        store.wf(),
    ensures
        after_event(store, event, on_disk).wf(),
        path_is_free(store, store.plan(event, on_disk)),
{
    crate::paths::law_stored_path_is_normal(event.source_path);
    if event.destination_path is Some {
        crate::paths::law_stored_path_is_normal(event.destination_path->0);
    }
    let after = after_event(store, event, on_disk);
    assert forall|i: int| 0 <= i < after.events.len() implies ((
    #[trigger] after.events[i]).archive_id matches Some(id) ==> after.has_archived(id)) by {
        if let Some(id) = after.events[i].archive_id {
            if i < store.events.len() {
                assert(after.events[i] == store.events[i]);
                let k = choose|k: int|
                    0 <= k < store.archive.len() && (#[trigger] store.archive[k]).id == id;
                assert(after.archive[k] == store.archive[k]);
            } else {
                assert(after.archive[store.archive.len() as int].id == id);
            }
        }
    }
}

/// The history is append-only: an event is recorded once, after all earlier
/// ones, and the archive only grows, by at most one row.
pub proof fn law_history_is_append_only(
    store: Store,
    event: EnvelopeView,
    on_disk: Option<Seq<char>>,
)
    ensures
        ({
            let after = after_event(store, event, on_disk);
            let plan = store.plan(event, on_disk);
            &&& after.events == store.events.push(recorded(store, plan))
            &&& after.events.last().columns.event_type == event.event_kind
            &&& after.events.last().columns.method == event.method
            &&& after.events.last().columns.status_code == event.status_code
            &&& after.events.last().columns.username == event.username
            &&& after.archive == match plan.retired {
                Some(row) => store.archive.push(
                    ArchivedRow { id: store.next_archive_id, columns: row },
                ),
                None => store.archive,
            }
        }),
{
}

/// An event names the row that was archived on account of it: exactly where the
/// archive grew, and by the id of the row that was added.
pub proof fn law_event_names_its_archived_row(
    store: Store,
    event: EnvelopeView,
    on_disk: Option<Seq<char>>,
)
    requires
        store.wf(),
    ensures
        ({
            let after = after_event(store, event, on_disk);
            let archive_id = after.events.last().archive_id;
            &&& archive_id is Some <==> after.archive.len() == store.archive.len() + 1
            &&& archive_id is None <==> after.archive == store.archive
            &&& archive_id matches Some(id) ==> {
                &&& after.archive.last().id == id
                &&& !store.has_archived(id)
            }
        }),
{
}

/// A deleted resource is no longer live; its row is the last of the archive,
/// with its checksum, and the event carries that checksum and the id of the
/// archived row.
pub proof fn law_deleted_resource_is_archived(
    store: Store,
    event: EnvelopeView,
    on_disk: Option<Seq<char>>,
)
    requires
        store.wf(),
        event.event_kind == EventKind::Deleted,
    ensures
        ({
            let path = crate::db::source_of(event);
            let after = after_event(store, event, on_disk);
            &&& !after.live.contains_key(path)
            &&& store.live.contains_key(path) ==> {
                &&& after.archive == store.archive.push(after.archive.last())
                &&& after.archive.last().columns.row == store.row(path)->0
                &&& after.archive.last().columns.reason == ArchiveReason::Delete
                &&& after.events.last().columns.checksum == store.live[path].columns.checksum
                &&& after.events.last().columns.source_resource_id == Some(store.live[path].id)
                &&& after.events.last().archive_id == Some(after.archive.last().id)
            }
            &&& !store.live.contains_key(path) ==> {
                &&& after.archive == store.archive
                &&& after.events.last().archive_id is None
            }
            &&& forall|p: Seq<char>|
                p != path ==> (#[trigger] after.live.contains_key(p) == store.live.contains_key(p))
                    && (store.live.contains_key(p) ==> after.live[p] == store.live[p])
        }),
{
}

/// After a file or folder was created or edited its path is live, with the
/// columns of that event, and nothing else changed or was archived.
pub proof fn law_written_resource_is_live(
    store: Store,
    event: EnvelopeView,
    on_disk: Option<Seq<char>>,
)
    requires
        store.wf(),
        event.event_kind == EventKind::Created || event.event_kind == EventKind::Edited
            || event.event_kind == EventKind::DirCreated,
    ensures
        ({
            let path = crate::db::source_of(event);
            let kind = crate::db::resolved_kind(event.event_kind, store.row(path));
            let after = after_event(store, event, on_disk);
            &&& after.live.contains_key(path)
            &&& after.live[path].columns == crate::db::live_columns(
                event,
                path,
                kind,
                crate::db::kept_checksum(kind, on_disk),
            )
            &&& store.live.contains_key(path) ==> after.live[path].id == store.live[path].id
            &&& after.archive == store.archive
            &&& forall|p: Seq<char>|
                p != path ==> (#[trigger] after.live.contains_key(p) == store.live.contains_key(p))
                    && (store.live.contains_key(p) ==> after.live[p] == store.live[p])
        }),
{
}

/// A moved resource is live at its final path, under the id that it had, and
/// no longer at its old one; a resource that was in its way is archived, and
/// the event carries the ids of both.
pub proof fn law_moved_resource_keeps_its_id(
    store: Store,
    event: EnvelopeView,
    on_disk: Option<Seq<char>>,
)
    requires
        store.wf(),
        event.event_kind == EventKind::Renamed || event.event_kind == EventKind::Moved,
    ensures
        ({
            let source = crate::db::source_of(event);
            let target = crate::db::final_path_of(event);
            let after = after_event(store, event, on_disk);
            &&& after.live.contains_key(target)
            &&& after.live[target].columns.resource_kind == crate::db::resolved_kind(
                event.event_kind,
                store.row(source),
            )
            &&& store.live.contains_key(source) ==> after.live[target].id == store.live[source].id
            &&& source != target ==> !after.live.contains_key(source)
            &&& after.live[target].columns.current_folder == crate::paths::folder_of(target)
            &&& store.live.contains_key(source) ==> after.events.last().columns.source_resource_id
                == Some(store.live[source].id)
            &&& source != target && store.live.contains_key(target) ==> {
                &&& after.archive == store.archive.push(after.archive.last())
                &&& after.archive.last().columns.row == store.row(target)->0
                &&& after.archive.last().columns.reason == ArchiveReason::Move
                &&& after.events.last().archive_id == Some(after.archive.last().id)
            }
            &&& source == target || !store.live.contains_key(target) ==> {
                &&& after.archive == store.archive
                &&& after.events.last().archive_id is None
            }
            &&& forall|p: Seq<char>|
                p != source && p != target ==> (#[trigger] after.live.contains_key(p)
                    == store.live.contains_key(p)) && (store.live.contains_key(p)
                    ==> after.live[p] == store.live[p])
        }),
{
}

/// A copy is live at its destination, under a new id; the source stays as it
/// was, and a resource that was replaced is archived.
pub proof fn law_copy_leaves_the_source(
    store: Store,
    event: EnvelopeView,
    on_disk: Option<Seq<char>>,
)
    requires
        store.wf(),
        event.event_kind == EventKind::Copied,
        event.destination_path is Some,
    ensures
        ({
            let source = crate::db::source_of(event);
            let target = crate::db::final_path_of(event);
            let after = after_event(store, event, on_disk);
            &&& after.live.contains_key(target)
            &&& after.live[target].id == store.next_id
            &&& store.live.contains_key(target) ==> {
                &&& after.archive == store.archive.push(after.archive.last())
                &&& after.archive.last().columns.row == store.row(target)->0
                &&& after.archive.last().columns.reason == ArchiveReason::CopyReplace
                &&& after.events.last().archive_id == Some(after.archive.last().id)
            }
            &&& !store.live.contains_key(target) ==> {
                &&& after.archive == store.archive
                &&& after.events.last().archive_id is None
            }
            &&& source != target && store.live.contains_key(source) ==> after.live.contains_key(
                source,
            ) && after.live[source] == store.live[source]
            &&& forall|p: Seq<char>|
                p != target ==> (#[trigger] after.live.contains_key(p) == store.live.contains_key(
                    p,
                )) && (store.live.contains_key(p) ==> after.live[p] == store.live[p])
        }),
{
}

/// Each record names the folder of the resource, whether it is a file or a
/// folder, and for a file its checksum: that on disk, or that of the row that
/// was deleted.
pub proof fn law_records_name_folder_kind_and_checksum(
    event: EnvelopeView,
    source: Option<RowView>,
    destination: Option<RowView>,
    on_disk: Option<Seq<char>>,
)
    ensures
        ({
            let plan = crate::db::planned(event, source, destination, on_disk);
            let kind = crate::db::resolved_kind(event.event_kind, source);
            let row = plan.event;
            &&& row.current_folder == crate::paths::folder_of(crate::db::final_path_of(event))
            &&& row.resource_kind == kind
            &&& event.event_kind != EventKind::Deleted ==> row.checksum == match kind {
                ResourceKind::Folder => None,
                ResourceKind::File => on_disk,
            }
            &&& event.event_kind == EventKind::Deleted && source is Some ==> row.checksum
                == source->0.checksum
            &&& match plan.change {
                ChangeView::Keep => event.event_kind == EventKind::Deleted,
                ChangeView::Update { resource, .. } | ChangeView::Upsert { resource } => {
                    &&& resource.current_folder == crate::paths::folder_of(resource.resource_path)
                    &&& resource.resource_kind == kind
                    &&& resource.checksum == row.checksum
                },
            }
        }),
{
}

/// An event together with the checksum that its file has on disk.
pub struct Occurrence {
    pub event: EnvelopeView,
    pub on_disk: Option<Seq<char>>,
}

/// The tables after a series of events.
pub open spec fn after_events(store: Store, occurrences: Seq<Occurrence>) -> Store
    decreases occurrences.len(),
{
    if occurrences.len() == 0 {
        store
    } else {
        let last = occurrences.last();
        after_event(after_events(store, occurrences.drop_last()), last.event, last.on_disk)
    }
}

/// Whatever events occur, the tables stay well-formed, every event is in the
/// history once and in order, and nothing leaves the history or the archive.
pub proof fn law_any_series_keeps_the_history(store: Store, occurrences: Seq<Occurrence>)
    requires
        store.wf(),
    ensures
        after_events(store, occurrences).wf(),
        after_events(store, occurrences).events.len() == store.events.len() + occurrences.len(),
        after_events(store, occurrences).events.take(store.events.len() as int) == store.events,
        forall|i: int|
            0 <= i < occurrences.len() ==> {
                let row = #[trigger] after_events(store, occurrences).events[store.events.len() + i];
                &&& row.columns.event_type == occurrences[i].event.event_kind
                &&& row.columns.source_path == crate::db::source_of(occurrences[i].event)
                &&& row.columns.destination_path == crate::db::destination_of(occurrences[i].event)
            },
        store.archive.is_prefix_of(after_events(store, occurrences).archive),
    decreases occurrences.len(),
{
    if occurrences.len() != 0 {
        let front = occurrences.drop_last();
        let last = occurrences.last();
        law_any_series_keeps_the_history(store, front);
        let before = after_events(store, front);
        let after = after_events(store, occurrences);
        law_events_keep_the_store_well_formed(before, last.event, last.on_disk);
        law_history_is_append_only(before, last.event, last.on_disk);
        assert(after.events.take(store.events.len() as int) == before.events.take(
            store.events.len() as int,
        ));
        assert forall|i: int| 0 <= i < occurrences.len() implies {
            let row = #[trigger] after.events[store.events.len() + i];
            &&& row.columns.event_type == occurrences[i].event.event_kind
            &&& row.columns.source_path == crate::db::source_of(occurrences[i].event)
            &&& row.columns.destination_path == crate::db::destination_of(occurrences[i].event)
        } by {
            if i < front.len() {
                assert(after.events[store.events.len() + i] == before.events[store.events.len()
                    + i]);
                assert(front[i] == occurrences[i]);
            }
        }
    } else {
        assert(store.events.take(store.events.len() as int) == store.events);
    }
}

// ---------------------------------------------------------------------------
// What an event does, by the paths that it carries
// ---------------------------------------------------------------------------

/// An event leaves all paths but two alone.
pub open spec fn unchanged_but(
    before: Store,
    after: Store,
    one: Seq<char>,
    other: Seq<char>,
) -> bool {
    forall|p: Seq<char>|
        p != one && p != other ==> (#[trigger] after.live.contains_key(p)
            == before.live.contains_key(p)) && (before.live.contains_key(p) ==> after.live[p]
            == before.live[p])
}

/// The row at a path, as it was, is the last of the archive, for the given
/// reason, and the event names it; no other row was archived.
pub open spec fn archived_from(
    before: Store,
    after: Store,
    path: Seq<char>,
    reason: ArchiveReason,
) -> bool {
    let last = after.archive.last();
    let row = before.live[path];
    &&& after.archive == before.archive.push(last)
    &&& last.columns.row.id == row.id
    &&& last.columns.row.resource_path == row.columns.resource_path
    &&& last.columns.row.current_folder == row.columns.current_folder
    &&& last.columns.row.resource_kind == row.columns.resource_kind
    &&& last.columns.row.checksum == row.columns.checksum
    &&& last.columns.row.checksum_algorithm == "sha256"@
    &&& last.columns.reason == reason
    &&& after.events.last().archive_id == Some(last.id)
}

/// After a rename or move the resource is live at the destination that the
/// event names and no longer at the source, where these differ; it keeps its
/// id, what was in its way is archived, and the history names the destination.
pub proof fn law_rename_moves_the_row(
    store: Store,
    event: EnvelopeView,
    on_disk: Option<Seq<char>>,
    source: Seq<char>,
    destination: Seq<char>,
)
    requires
        store.wf(),
        event.event_kind == EventKind::Renamed || event.event_kind == EventKind::Moved,
        event.destination_path is Some,
        crate::paths::is_stored_form(event.source_path, source),
        crate::paths::is_stored_form(event.destination_path->0, destination),
        source != destination,
    ensures
        ({
            let after = after_event(store, event, on_disk);
            &&& after.live.contains_key(destination)
            &&& !after.live.contains_key(source)
            &&& after.live[destination].columns.resource_path == destination
            &&& crate::paths::is_parent(after.live[destination].columns.current_folder, destination)
            &&& store.live.contains_key(source) ==> {
                &&& after.live[destination].id == store.live[source].id
                &&& after.live[destination].columns.resource_kind
                    == store.live[source].columns.resource_kind
                &&& after.events.last().columns.source_resource_id == Some(store.live[source].id)
            }
            &&& store.live.contains_key(destination) ==> archived_from(
                store,
                after,
                destination,
                ArchiveReason::Move,
            )
            &&& !store.live.contains_key(destination) ==> after.archive == store.archive
            &&& after.events.last().columns.source_path == source
            &&& after.events.last().columns.destination_path == Some(destination)
            &&& unchanged_but(store, after, source, destination)
        }),
{
    crate::paths::law_stored_form(event.source_path, source);
    crate::paths::law_stored_form(event.destination_path->0, destination);
    law_moved_resource_keeps_its_id(store, event, on_disk);
    law_events_keep_the_store_well_formed(store, event, on_disk);
    crate::paths::law_folder_is_the_parent_of_the_stored_path(
        event.destination_path->0,
        destination,
    );
}

/// After a copy the destination that the event names is live, under a new id,
/// and the source is as it was; what was in the way is archived, and the
/// history names the destination.
pub proof fn law_copy_adds_a_row(
    store: Store,
    event: EnvelopeView,
    on_disk: Option<Seq<char>>,
    source: Seq<char>,
    destination: Seq<char>,
)
    requires
        store.wf(),
        event.event_kind == EventKind::Copied,
        event.destination_path is Some,
        crate::paths::is_stored_form(event.source_path, source),
        crate::paths::is_stored_form(event.destination_path->0, destination),
    ensures
        ({
            let after = after_event(store, event, on_disk);
            &&& after.live.contains_key(destination)
            &&& after.live[destination].columns.resource_path == destination
            &&& crate::paths::is_parent(after.live[destination].columns.current_folder, destination)
            &&& forall|p: Seq<char>|
                store.live.contains_key(p) ==> after.live[destination].id != (
                #[trigger] store.live[p]).id
            &&& source != destination && store.live.contains_key(source) ==> {
                &&& after.live.contains_key(source)
                &&& after.live[source] == store.live[source]
                &&& after.live[destination].columns.resource_kind
                    == store.live[source].columns.resource_kind
            }
            &&& store.live.contains_key(destination) ==> archived_from(
                store,
                after,
                destination,
                ArchiveReason::CopyReplace,
            )
            &&& !store.live.contains_key(destination) ==> after.archive == store.archive
            &&& after.events.last().columns.source_path == source
            &&& after.events.last().columns.destination_path == Some(destination)
            &&& unchanged_but(store, after, destination, destination)
        }),
{
    crate::paths::law_stored_form(event.source_path, source);
    crate::paths::law_stored_form(event.destination_path->0, destination);
    law_copy_leaves_the_source(store, event, on_disk);
    law_events_keep_the_store_well_formed(store, event, on_disk);
    crate::paths::law_folder_is_the_parent_of_the_stored_path(
        event.destination_path->0,
        destination,
    );
}

/// After a deletion the path that the event names is not live, and the row
/// that was there is archived; a path that was not live is not archived.
pub proof fn law_deletion_archives_the_row(
    store: Store,
    event: EnvelopeView,
    on_disk: Option<Seq<char>>,
    source: Seq<char>,
)
    requires
        store.wf(),
        event.event_kind == EventKind::Deleted,
        crate::paths::is_stored_form(event.source_path, source),
    ensures
        ({
            let after = after_event(store, event, on_disk);
            &&& !after.live.contains_key(source)
            &&& store.live.contains_key(source) ==> archived_from(
                store,
                after,
                source,
                ArchiveReason::Delete,
            )
            &&& !store.live.contains_key(source) ==> after.archive == store.archive
            &&& after.events.last().columns.source_path == source
            &&& unchanged_but(store, after, source, source)
        }),
{
    crate::paths::law_stored_form(event.source_path, source);
    law_deleted_resource_is_archived(store, event, on_disk);
}

/// After a file or folder was created or edited the path that the event names
/// is live, with what the event tells; nothing else changed or was archived.
pub proof fn law_creation_writes_the_row(
    store: Store,
    event: EnvelopeView,
    on_disk: Option<Seq<char>>,
    source: Seq<char>,
)
    requires
        store.wf(),
        event.event_kind == EventKind::Created || event.event_kind == EventKind::Edited
            || event.event_kind == EventKind::DirCreated,
        crate::paths::is_stored_form(event.source_path, source),
    ensures
        ({
            let after = after_event(store, event, on_disk);
            let columns = after.live[source].columns;
            &&& after.live.contains_key(source)
            &&& columns.resource_path == source
            &&& crate::paths::is_parent(columns.current_folder, source)
            &&& columns.last_event_type == event.event_kind
            &&& columns.last_method == event.method
            &&& columns.last_status_code == event.status_code
            &&& columns.username == event.username
            &&& store.live.contains_key(source) ==> {
                &&& after.live[source].id == store.live[source].id
                &&& columns.resource_kind == store.live[source].columns.resource_kind
            }
            &&& !store.live.contains_key(source) ==> (columns.resource_kind == ResourceKind::Folder
                <==> event.event_kind == EventKind::DirCreated)
            &&& columns.resource_kind == ResourceKind::File ==> columns.checksum == on_disk
            &&& columns.resource_kind == ResourceKind::Folder ==> columns.checksum is None
            &&& after.archive == store.archive
            &&& after.events.last().columns.source_path == source
            &&& unchanged_but(store, after, source, source)
        }),
{
    crate::paths::law_stored_form(event.source_path, source);
    law_written_resource_is_live(store, event, on_disk);
    crate::paths::law_folder_is_the_parent_of_the_stored_path(event.source_path, source);
}

} // verus!
