use nacs_backend::checksum::sha256_hex;
use nacs_backend::db::{
    apply_event, current_folder, event_paths, normalize_path, plan_event, resolve_resource_kind,
    ArchiveReason, EventEnvelope, EventKind, EventPlan, LiveResource, ManifestEntry, ResourceChange,
    ResourceKind, ResourceRow, TombstoneEntry,
};
use nacs_backend::manifest::assemble_manifest;
use nacs_backend::paths::data_file_path;
use nacs_backend::transaction::{EventTransaction, StatementOutcome, TableAction};

fn event(event_kind: EventKind, source: &str, method: &str, status_code: u16) -> EventEnvelope {
    EventEnvelope {
        event_kind,
        source_path: source.to_string(),
        destination_path: None,
        checksum: None,
        method: method.to_string(),
        status_code,
        username: "alice".to_string(),
    }
}

fn event_to(event_kind: EventKind, source: &str, destination: &str) -> EventEnvelope {
    EventEnvelope {
        destination_path: Some(destination.to_string()),
        ..event(event_kind, source, "MOVE", 201)
    }
}

fn row(id: i64, path: &str, kind: ResourceKind) -> ResourceRow {
    ResourceRow {
        id,
        resource_path: path.to_string(),
        current_folder: current_folder(path),
        resource_kind: kind,
        checksum: Some(format!("sum-{id}")),
        checksum_algorithm: "sha256".to_string(),
    }
}

fn upserted(plan: &EventPlan) -> &LiveResource {
    match &plan.change {
        ResourceChange::Upsert { resource } => resource,
        other => panic!("expected an upsert, got {other:?}"),
    }
}

fn updated(plan: &EventPlan) -> (i64, &LiveResource) {
    match &plan.change {
        ResourceChange::Update { id, resource } => (*id, resource),
        other => panic!("expected an update, got {other:?}"),
    }
}

fn entry(path: &str, kind: &str, content: &[u8]) -> ManifestEntry {
    ManifestEntry {
        resource_path: path.to_string(),
        resource_kind: kind.to_string(),
        checksum: if kind == "file" { Some(sha256_hex(content)) } else { None },
        size: content.len() as u64,
        updated_at: "1".to_string(),
    }
}

fn tombstone(path: &str) -> TombstoneEntry {
    TombstoneEntry { resource_path: path.to_string(), deleted_at: "2".to_string() }
}

#[test]
fn current_folder_handles_nested_paths() {
    assert_eq!(current_folder("/docs/file.txt"), "/docs");
    assert_eq!(current_folder("/file.txt"), "/");
    assert_eq!(current_folder("/"), "/");
}

#[test]
fn normalize_path_trims_trailing_slash() {
    assert_eq!(normalize_path("/docs/"), "/docs");
    assert_eq!(normalize_path("/"), "/");
}

#[test]
fn normalize_path_keeps_the_root() {
    assert_eq!(normalize_path(""), "/");
    assert_eq!(normalize_path("///"), "/");
    assert_eq!(normalize_path("docs"), "docs");
    assert_eq!(current_folder("/a/b/c/"), "/a/b");
    assert_eq!(current_folder("file"), "/");
    assert_eq!(current_folder(""), "/");
}

#[test]
fn record_created_event_persists_resource_and_event() {
    let content = b"hello sqlite from webdav";
    let plan = apply_event(
        event(EventKind::Created, "/note.txt", "PUT", 201),
        None,
        None,
        Some(content.to_vec()),
    );

    assert!(plan.retired.is_none());
    let resource = upserted(&plan);
    assert_eq!(resource.resource_path, "/note.txt");
    assert_eq!(resource.resource_kind.as_str(), "file");
    assert_eq!(resource.current_folder, "/");
    assert_eq!(
        resource.checksum.as_deref(),
        Some("3049aa458aa61f057a3bd7ec96b5bb5dc003d3ff171a679be22fa92d21170e5f")
    );
    assert_eq!(resource.last_event_type.as_str(), "created");
    assert_eq!(resource.username, "alice");

    assert_eq!(plan.event.event_type.as_str(), "created");
    assert_eq!(plan.event.resource_kind.as_str(), "file");
    assert_eq!(plan.event.method, "PUT");
    assert_eq!(plan.event.status_code, 201);
    assert_eq!(plan.event.source_resource_id, None);
}

#[test]
fn record_deleted_event_archives_resource_and_removes_active_row() {
    let source = ResourceRow {
        checksum: Some(sha256_hex(b"to be removed")),
        ..row(1, "/old.txt", ResourceKind::File)
    };
    let plan =
        apply_event(event(EventKind::Deleted, "/old.txt", "DELETE", 204), Some(source), None, None);

    assert!(matches!(plan.change, ResourceChange::Keep));
    let retired = plan.retired.expect("the row should be archived");
    assert_eq!(retired.row.id, 1);
    assert_eq!(retired.row.resource_path, "/old.txt");
    assert_eq!(retired.reason.as_str(), "delete");
    assert_eq!(
        retired.row.checksum.as_deref(),
        Some("7c7bfe826b20f5e2dd3328afe12f02c6f6585af99bdf716fb617b5c06515fee7")
    );
    assert_eq!(plan.event.checksum, retired.row.checksum);
    assert_eq!(plan.event.source_resource_id, Some(1));
}

#[test]
fn checksum_is_computed_from_webdav_path_relative_to_data_dir() {
    let report = event(EventKind::Created, "/report.txt", "PUT", 201);
    assert_eq!(data_file_path(&event_paths(&report).final_path), "report.txt");
    let plan = apply_event(report, None, None, Some(b"checksum test content".to_vec()));
    assert_eq!(
        upserted(&plan).checksum.as_deref(),
        Some("b6020d8084e526224a6bc96216bf3b28b63216388070bd3147d3318b2aae0d57")
    );
}

#[test]
fn manifest_includes_existing_files_and_directories_without_prior_events() {
    let manifest = assemble_manifest(
        vec![entry("/docs", "folder", b""), entry("/docs/readme.txt", "file", b"hello from disk")],
        vec![],
    );
    let paths: Vec<_> = manifest.resources.iter().map(|entry| entry.resource_path.clone()).collect();
    assert!(paths.contains(&"/docs".to_string()));
    assert!(paths.contains(&"/docs/readme.txt".to_string()));
    assert!(manifest.resources.iter().any(|entry| entry.resource_kind == "file"));
}

#[test]
fn manifest_lists_live_resources_and_tombstones_for_deleted_ones() {
    let keep_content = b"keep me around";
    let manifest =
        assemble_manifest(vec![entry("/keep.txt", "file", keep_content)], vec![tombstone("/gone.txt")]);

    assert!(manifest.resources.iter().all(|entry| entry.resource_path != "/gone.txt"));
    let kept = manifest
        .resources
        .iter()
        .find(|entry| entry.resource_path == "/keep.txt")
        .expect("keep.txt should remain in the live manifest");
    assert_eq!(kept.resource_kind, "file");
    assert_eq!(kept.size, keep_content.len() as u64);
    assert_eq!(
        kept.checksum.as_deref(),
        Some("1c64ae7955799008ef89b4a61bfe89e971bd9c46292ad735156abf7911870d04")
    );
    assert_eq!(manifest.tombstones.len(), 1);
    assert_eq!(manifest.tombstones[0].resource_path, "/gone.txt");
}

#[test]
fn manifest_scan_ignores_sync_temp_files() {
    let manifest = assemble_manifest(
        vec![
            entry("/stable.txt", "file", b"stable"),
            entry("/ghost.txt.p2p-tmp", "file", b"ghost"),
            entry("/nested", "folder", b""),
            entry("/nested/ghost.txt.p2p-tmp.p2p-tmp", "file", b"ghost nested"),
        ],
        vec![tombstone("/other.p2p-tmp")],
    );
    assert!(manifest.resources.iter().any(|entry| entry.resource_path == "/stable.txt"));
    assert!(manifest.resources.iter().all(|entry| !entry.resource_path.contains(".p2p-tmp")));
    assert_eq!(manifest.resources.len(), 2);
    assert!(manifest.tombstones.is_empty());
}

#[test]
fn a_path_that_is_live_again_has_no_tombstone() {
    let manifest = assemble_manifest(
        vec![entry("/back.txt", "file", b"again")],
        vec![tombstone("/back.txt"), tombstone("/gone.txt")],
    );
    assert_eq!(manifest.tombstones.len(), 1);
    assert_eq!(manifest.tombstones[0].resource_path, "/gone.txt");
}

#[test]
fn deleting_an_unknown_path_only_records_the_event() {
    let plan = plan_event(event(EventKind::Deleted, "/x/", "DELETE", 204), None, None, None);
    assert!(plan.retired.is_none());
    assert!(matches!(plan.change, ResourceChange::Keep));
    assert_eq!(plan.event.source_path, "/x");
    assert_eq!(plan.event.current_folder, "/");
    assert_eq!(plan.event.checksum, None);
    assert_eq!(plan.event.source_resource_id, None);
}

#[test]
fn moving_keeps_the_row_and_archives_what_is_in_the_way() {
    let plan = plan_event(
        event_to(EventKind::Moved, "/a.txt", "/docs/b.txt/"),
        Some(row(3, "/a.txt", ResourceKind::File)),
        Some(row(5, "/docs/b.txt", ResourceKind::File)),
        Some("new-sum".to_string()),
    );
    let retired = plan.retired.clone().expect("the row in the way should be archived");
    assert_eq!(retired.row.id, 5);
    assert_eq!(retired.reason, ArchiveReason::Move);
    let (id, resource) = updated(&plan);
    assert_eq!(id, 3);
    assert_eq!(resource.resource_path, "/docs/b.txt");
    assert_eq!(resource.current_folder, "/docs");
    assert_eq!(resource.checksum.as_deref(), Some("new-sum"));
    assert_eq!(plan.event.destination_path.as_deref(), Some("/docs/b.txt"));
    assert_eq!(plan.event.source_resource_id, Some(3));
}

fn names(mut transaction: EventTransaction, failing: Option<usize>) -> (Vec<&'static str>, bool) {
    let mut names = Vec::new();
    loop {
        let name = match transaction.next_action() {
            TableAction::Archive(_) => "archive",
            TableAction::Delete { .. } => "delete",
            TableAction::Change(_) => "change",
            TableAction::Append { .. } => "append",
            TableAction::Commit => "commit",
            TableAction::RollBack => "roll back",
            TableAction::Finish { written } => return (names, written),
        };
        let outcome = if failing == Some(names.len()) {
            StatementOutcome::Failed
        } else {
            StatementOutcome::Done { id: 77 }
        };
        names.push(name);
        transaction.completed(outcome);
    }
}

fn deletion() -> EventTransaction {
    let source = row(7, "/old.txt", ResourceKind::File);
    let report = event(EventKind::Deleted, "/old.txt", "DELETE", 204);
    EventTransaction::new(apply_event(report, Some(source), None, None))
}

#[test]
fn an_event_is_written_in_one_transaction() {
    let statements = ["archive", "delete", "change", "append", "commit"];
    assert_eq!(names(deletion(), None), (statements.to_vec(), true));
    let report = event(EventKind::Created, "/new.txt", "PUT", 201);
    let creation = EventTransaction::new(apply_event(report, None, None, None));
    assert_eq!(names(creation, None), (statements[2..].to_vec(), true));
}

#[test]
fn an_event_is_rolled_back_at_the_first_failure() {
    let statements = ["archive", "delete", "change", "append", "commit"];
    for failing in 0..5 {
        let mut expected = statements[..=failing].to_vec();
        expected.push("roll back");
        assert_eq!(names(deletion(), Some(failing)), (expected, false));
    }
}

#[test]
fn an_event_names_the_archived_row() {
    let mut transaction = deletion();
    match transaction.next_action() {
        TableAction::Archive(retired) => assert_eq!(retired.row.id, 7),
        other => panic!("expected a row to archive, got {other:?}"),
    }
    transaction.completed(StatementOutcome::Done { id: 41 });
    match transaction.next_action() {
        TableAction::Delete { id } => assert_eq!(id, 7),
        other => panic!("expected a deletion, got {other:?}"),
    }
    transaction.completed(StatementOutcome::Done { id: 1 });
    transaction.completed(StatementOutcome::Done { id: 2 });
    match transaction.next_action() {
        TableAction::Append { event, archive_id } => {
            assert_eq!(event.source_path, "/old.txt");
            assert_eq!(event.source_resource_id, Some(7));
            assert_eq!(archive_id, Some(41));
        }
        other => panic!("expected an event to append, got {other:?}"),
    }

    let report = event(EventKind::Created, "/new.txt", "PUT", 201);
    let mut transaction = EventTransaction::new(apply_event(report, None, None, None));
    transaction.completed(StatementOutcome::Done { id: 41 });
    match transaction.next_action() {
        TableAction::Append { archive_id, .. } => assert_eq!(archive_id, None),
        other => panic!("expected an event to append, got {other:?}"),
    }
}

#[test]
fn moving_onto_itself_archives_nothing() {
    let plan = plan_event(
        event_to(EventKind::Renamed, "/a.txt", "/a.txt"),
        Some(row(3, "/a.txt", ResourceKind::File)),
        Some(row(3, "/a.txt", ResourceKind::File)),
        None,
    );
    assert!(plan.retired.is_none());
    assert_eq!(updated(&plan).0, 3);
}

#[test]
fn moving_an_unknown_path_writes_its_target() {
    let plan = plan_event(event_to(EventKind::Moved, "/a", "/b"), None, None, None);
    assert_eq!(upserted(&plan).resource_path, "/b");
    assert_eq!(upserted(&plan).resource_kind, ResourceKind::File);
}

#[test]
fn copying_archives_what_it_replaces() {
    let plan = plan_event(
        event_to(EventKind::Copied, "/a", "/b"),
        Some(row(1, "/a", ResourceKind::File)),
        Some(row(2, "/b", ResourceKind::File)),
        Some("sum".to_string()),
    );
    let retired = plan.retired.clone().expect("the replaced row should be archived");
    assert_eq!(retired.row.id, 2);
    assert_eq!(retired.reason.as_str(), "copy_replace");
    assert_eq!(upserted(&plan).resource_path, "/b");
}

#[test]
fn folders_have_no_checksum() {
    let plan = plan_event(
        event(EventKind::DirCreated, "/docs/", "MKCOL", 201),
        None,
        None,
        Some("ignored".to_string()),
    );
    assert_eq!(upserted(&plan).resource_kind, ResourceKind::Folder);
    assert_eq!(upserted(&plan).checksum, None);
    assert_eq!(plan.event.resource_kind.as_str(), "folder");
    assert_eq!(plan.event.checksum, None);
}

#[test]
fn known_resources_keep_their_kind() {
    let folder = row(1, "/d", ResourceKind::Folder);
    assert_eq!(resolve_resource_kind(EventKind::Moved, Some(&folder)), ResourceKind::Folder);
    assert_eq!(resolve_resource_kind(EventKind::DirCreated, None), ResourceKind::Folder);
    assert_eq!(resolve_resource_kind(EventKind::Created, None), ResourceKind::File);
    assert_eq!(ResourceKind::from_column("folder"), ResourceKind::Folder);
    assert_eq!(ResourceKind::from_column("anything"), ResourceKind::File);
}

#[test]
fn event_kinds_have_their_stored_names() {
    let names: Vec<&str> = [
        EventKind::Created,
        EventKind::Edited,
        EventKind::Deleted,
        EventKind::Renamed,
        EventKind::Moved,
        EventKind::Copied,
        EventKind::DirCreated,
    ]
    .iter()
    .map(|kind| kind.as_str())
    .collect();
    assert_eq!(names, vec!["created", "edited", "deleted", "renamed", "moved", "copied", "dir_created"]);
}
