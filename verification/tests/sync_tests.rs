use nacs_backend::checksum::crc32_hex;
use nacs_backend::db::{EventEnvelope, EventKind, Manifest, ManifestEntry, TombstoneEntry};
use nacs_backend::peer::PeerId;
use nacs_backend::sync::{
    apply_delete, apply_manifest_actions, check_received_file, diff_manifests, file_response,
    finish_file_response, handle_fetch_request, handle_file_response, handle_incoming_event,
    handle_not_found, relocate, DeleteStep, FileChangeEvent, FileEffect, FoundOnDisk, IncomingStep,
    LoggedEffect, ReceivedStep, Relocation, SyncAction, SyncRequest, SyncResponse, SyncState,
};

fn random_peer() -> PeerId {
    PeerId::from_text(libp2p::PeerId::random().to_base58())
}

fn start(state: &mut SyncState, peer: &PeerId, path: &str) -> Option<SyncRequest> {
    state.start_pull(
        ".",
        peer.copy(),
        path.to_string(),
        None,
        EventKind::Created,
        "peer:test".to_string(),
    )
}

fn fetched_path(request: Option<SyncRequest>) -> Option<String> {
    match request {
        Some(SyncRequest::FetchFile { path }) => Some(path),
        None => None,
        other => panic!("expected a fetch request, got {other:?}"),
    }
}

fn change(event_kind: EventKind, source: &str, destination: Option<&str>) -> FileChangeEvent {
    FileChangeEvent {
        event_kind,
        source_path: source.to_string(),
        destination_path: destination.map(|path| path.to_string()),
        checksum: None,
        size: 0,
        username: "peer:test".to_string(),
    }
}

fn performed(step: IncomingStep) -> LoggedEffect {
    match step {
        IncomingStep::Perform(work) => work,
        other => panic!("expected work on disk, got {other:?}"),
    }
}

fn probed(step: IncomingStep) -> Relocation {
    match step {
        IncomingStep::Probe(relocation) => relocation,
        other => panic!("expected a relocation, got {other:?}"),
    }
}

fn written(step: ReceivedStep) -> (String, Vec<u8>, EventEnvelope) {
    match step {
        ReceivedStep::Write { target, data, record } => (target, data, record),
        other => panic!("expected a file to write, got {other:?}"),
    }
}

fn manifest_entry(path: &str, checksum: &str, updated_at: &str) -> ManifestEntry {
    ManifestEntry {
        resource_path: path.to_string(),
        resource_kind: "file".to_string(),
        checksum: Some(checksum.to_string()),
        size: 0,
        updated_at: updated_at.to_string(),
    }
}

fn manifest_with_resource(path: &str, kind: &str, checksum: &str, updated_at: &str) -> Manifest {
    Manifest {
        resources: vec![ManifestEntry {
            resource_path: path.to_string(),
            resource_kind: kind.to_string(),
            checksum: Some(checksum.to_string()),
            size: 4,
            updated_at: updated_at.to_string(),
        }],
        tombstones: vec![],
    }
}

fn manifest_with_folder(path: &str, updated_at: &str) -> Manifest {
    Manifest {
        resources: vec![ManifestEntry {
            resource_path: path.to_string(),
            resource_kind: "folder".to_string(),
            checksum: None,
            size: 0,
            updated_at: updated_at.to_string(),
        }],
        tombstones: vec![],
    }
}

fn manifest_with_tombstone(path: &str, deleted_at: &str) -> Manifest {
    Manifest {
        resources: vec![],
        tombstones: vec![TombstoneEntry {
            resource_path: path.to_string(),
            deleted_at: deleted_at.to_string(),
        }],
    }
}

// --- Transfer queue ---

#[test]
fn sync_state_starts_idle() {
    let state = SyncState::new();
    assert!(!state.is_busy());
}

#[test]
fn sync_state_tracks_active_transfer() {
    let mut state = SyncState::new();
    let peer = random_peer();

    let req = start(&mut state, &peer, "/test.txt");
    assert!(req.is_some());
    assert!(state.is_busy());
    assert!(state.is_pending(&peer, "/test.txt"));
}

#[test]
fn sync_state_queues_second_transfer() {
    let mut state = SyncState::new();
    let peer = random_peer();

    start(&mut state, &peer, "/file1.txt");
    let req2 = start(&mut state, &peer, "/file2.txt");

    assert!(req2.is_none());
    assert_eq!(state.queue_len(), 1);
}

#[test]
fn sync_state_finishes_and_starts_next() {
    let mut state = SyncState::new();
    let peer = random_peer();

    start(&mut state, &peer, "/file1.txt");
    start(&mut state, &peer, "/file2.txt");

    let next = state.finish_transfer(&peer, "/file1.txt");
    assert!(next.is_some());
    assert!(state.is_pending(&peer, "/file2.txt"));
}

#[test]
fn sync_state_cancel_peer_removes_from_queue() {
    let mut state = SyncState::new();
    let peer1 = random_peer();
    let peer2 = random_peer();

    start(&mut state, &peer1, "/file1.txt");
    start(&mut state, &peer2, "/file2.txt");

    let next = state.cancel_peer(&peer1);
    assert!(next.is_some());
    assert!(!state.is_pending(&peer1, "/file1.txt"));
    assert!(state.is_pending(&peer2, "/file2.txt"));
}

#[test]
fn pulls_are_not_queued_twice() {
    let mut state = SyncState::default();
    let peer = random_peer();
    let other = random_peer();

    assert_eq!(fetched_path(start(&mut state, &peer, "/a")), Some("/a".to_string()));
    assert!(start(&mut state, &peer, "/a").is_none());
    start(&mut state, &peer, "/b");
    start(&mut state, &peer, "/b");
    assert_eq!(state.queue_len(), 1);
    start(&mut state, &other, "/b");
    assert_eq!(state.queue_len(), 2);
}

#[test]
fn finishing_another_transfer_changes_nothing() {
    let mut state = SyncState::new();
    let peer = random_peer();
    start(&mut state, &peer, "/a");
    start(&mut state, &peer, "/b");
    assert!(state.finish_transfer(&peer, "/b").is_none());
    assert!(state.finish_transfer(&random_peer(), "/a").is_none());
    assert!(state.is_pending(&peer, "/a"));
    assert_eq!(state.queue_len(), 1);
}

#[test]
fn transfers_are_given_up_after_three_retries() {
    let mut state = SyncState::new();
    let peer = random_peer();
    start(&mut state, &peer, "/a");
    start(&mut state, &peer, "/b");
    for _ in 0..3 {
        assert_eq!(fetched_path(state.retry_current()), Some("/a".to_string()));
    }
    assert_eq!(fetched_path(state.retry_current()), Some("/b".to_string()));
    assert!(!state.is_pending(&peer, "/a"));
    for _ in 0..3 {
        assert_eq!(fetched_path(state.retry_current()), Some("/b".to_string()));
    }
    assert!(state.retry_current().is_none());
    assert!(!state.is_busy());
}

#[test]
fn retries_are_counted_anew_for_each_transfer() {
    let mut state = SyncState::new();
    let peer = random_peer();
    start(&mut state, &peer, "/a");
    for _ in 0..3 {
        assert_eq!(fetched_path(state.retry_current()), Some("/a".to_string()));
    }
    state.cancel_peer(&peer);
    assert!(!state.is_busy());
    start(&mut state, &peer, "/a");
    for _ in 0..3 {
        assert_eq!(fetched_path(state.retry_current()), Some("/a".to_string()));
    }
    assert!(state.retry_current().is_none());
}

#[test]
fn current_transfer_is_described() {
    let mut state = SyncState::new();
    let peer = random_peer();
    assert!(state.current_transfer_info().is_none());
    assert!(state.current_transfer_source().is_none());
    start(&mut state, &peer, "/a");
    assert_eq!(state.current_transfer_info(), Some((EventKind::Created, "peer:test".to_string())));
    assert_eq!(state.current_transfer_source(), Some(("/a".to_string(), peer)));
}

#[test]
fn serial_mode_queues_multiple_pulls_fifo() {
    let peer = random_peer();
    let mut state = SyncState::new();

    let req1 = start(&mut state, &peer, "/file1.txt");
    assert!(req1.is_some());
    assert!(state.is_busy());

    let req2 = start(&mut state, &peer, "/file2.txt");
    assert!(req2.is_none());
    assert_eq!(state.queue_len(), 1);

    let req3 = start(&mut state, &peer, "/file3.txt");
    assert!(req3.is_none());
    assert_eq!(state.queue_len(), 2);

    let next = state.finish_transfer(&peer, "/file1.txt");
    assert!(next.is_some());
    assert!(state.is_pending(&peer, "/file2.txt"));
    assert_eq!(state.queue_len(), 1);

    let next = state.finish_transfer(&peer, "/file2.txt");
    assert!(next.is_some());
    assert!(state.is_pending(&peer, "/file3.txt"));
    assert_eq!(state.queue_len(), 0);

    let next = state.finish_transfer(&peer, "/file3.txt");
    assert!(next.is_none());
    assert!(!state.is_busy());
}

#[test]
fn cancel_peer_removes_queued_transfers() {
    let peer1 = random_peer();
    let peer2 = random_peer();
    let mut state = SyncState::new();

    start(&mut state, &peer1, "/file1.txt");
    start(&mut state, &peer2, "/file2.txt");

    assert!(state.is_pending(&peer1, "/file1.txt"));
    assert!(state.is_pending(&peer2, "/file2.txt"));

    let next = state.cancel_peer(&peer1);
    assert!(next.is_some());
    assert!(!state.is_pending(&peer1, "/file1.txt"));
    assert!(state.is_pending(&peer2, "/file2.txt"));
}

#[test]
fn cancel_peer_when_idle_does_nothing() {
    let mut state = SyncState::new();
    let peer = random_peer();

    let next = state.cancel_peer(&peer);
    assert!(next.is_none());
    assert!(!state.is_busy());
}

#[test]
fn cancelling_a_waiting_peer_keeps_the_active_transfer() {
    let mut state = SyncState::new();
    let peer1 = random_peer();
    let peer2 = random_peer();
    start(&mut state, &peer1, "/a");
    start(&mut state, &peer2, "/b");
    start(&mut state, &peer1, "/c");
    start(&mut state, &peer2, "/d");
    assert!(state.cancel_peer(&peer2).is_none());
    assert!(state.is_pending(&peer1, "/a"));
    assert!(state.is_pending(&peer1, "/c"));
    assert_eq!(state.queue_len(), 1);
}

// --- Reconciliation ---

#[test]
fn diff_manifests_pulls_newer_remote_file() {
    let local = Manifest::default();
    let remote = Manifest {
        resources: vec![manifest_entry("/a.txt", "abc123", "2024-01-02T00:00:00Z")],
        tombstones: vec![],
    };

    let actions = diff_manifests(&local, &remote);

    assert_eq!(
        actions,
        vec![SyncAction::Pull {
            path: "/a.txt".to_string(),
            checksum: Some("abc123".to_string()),
        }]
    );
}

#[test]
fn diff_manifests_ignores_older_or_equal_remote_file() {
    let local = Manifest {
        resources: vec![manifest_entry("/a.txt", "abc123", "2024-01-02T00:00:00Z")],
        tombstones: vec![],
    };
    let remote = Manifest {
        resources: vec![manifest_entry("/a.txt", "old", "2024-01-01T00:00:00Z")],
        tombstones: vec![],
    };

    assert!(diff_manifests(&local, &remote).is_empty());

    let remote_equal = Manifest {
        resources: vec![manifest_entry("/a.txt", "abc123", "2024-01-02T00:00:00Z")],
        tombstones: vec![],
    };
    assert!(diff_manifests(&local, &remote_equal).is_empty());
}

#[test]
fn diff_manifests_ignores_newer_remote_file_when_checksum_matches() {
    let local = Manifest {
        resources: vec![manifest_entry("/a.txt", "abc123", "2024-01-01T00:00:00Z")],
        tombstones: vec![],
    };
    let remote = Manifest {
        resources: vec![manifest_entry("/a.txt", "abc123", "2024-01-02T00:00:00Z")],
        tombstones: vec![],
    };

    assert!(diff_manifests(&local, &remote).is_empty());
}

#[test]
fn diff_manifests_creates_missing_remote_folder() {
    let local = Manifest::default();
    let remote = manifest_with_folder("/folder", "2024-01-01T00:00:00Z");

    assert_eq!(
        diff_manifests(&local, &remote),
        vec![SyncAction::CreateDir {
            path: "/folder".to_string(),
        }]
    );
}

#[test]
fn diff_manifests_deletes_locally_when_remote_tombstone_is_newer() {
    let local = Manifest {
        resources: vec![manifest_entry("/a.txt", "abc123", "2024-01-01T00:00:00Z")],
        tombstones: vec![],
    };
    let remote = manifest_with_tombstone("/a.txt", "2024-01-02T00:00:00Z");

    assert_eq!(
        diff_manifests(&local, &remote),
        vec![SyncAction::Delete {
            path: "/a.txt".to_string(),
        }]
    );
}

#[test]
fn diff_manifests_ignores_tombstone_for_path_not_present_locally() {
    let local = Manifest::default();
    let remote = manifest_with_tombstone("/never-existed.txt", "2024-01-02T00:00:00Z");

    assert!(diff_manifests(&local, &remote).is_empty());
}

#[test]
fn diff_manifests_is_empty_for_identical_manifests() {
    let manifest = Manifest {
        resources: vec![manifest_entry("/a.txt", "abc123", "2024-01-01T00:00:00Z")],
        tombstones: vec![],
    };

    assert!(diff_manifests(&manifest, &manifest).is_empty());
}

#[test]
fn moved_pulls_file_missing_locally() {
    let local = Manifest::default();
    let remote = manifest_with_resource("/docs/a.txt", "file", "abc", "2026-01-01 00:00:00");

    assert_eq!(
        diff_manifests(&local, &remote),
        vec![SyncAction::Pull {
            path: "/docs/a.txt".to_string(),
            checksum: Some("abc".to_string()),
        }]
    );
}

#[test]
fn moved_creates_dir_missing_locally() {
    let local = Manifest::default();
    let remote = manifest_with_folder("/docs", "2026-01-01 00:00:00");

    assert_eq!(
        diff_manifests(&local, &remote),
        vec![SyncAction::CreateDir {
            path: "/docs".to_string(),
        }]
    );
}

#[test]
fn moved_no_action_when_local_is_newer() {
    let local = manifest_with_resource("/docs/a.txt", "file", "newer", "2026-02-01 00:00:00");
    let remote = manifest_with_resource("/docs/a.txt", "file", "older", "2026-01-01 00:00:00");

    assert!(diff_manifests(&local, &remote).is_empty());
}

#[test]
fn moved_remote_tombstone_newer_than_local_live_deletes_locally() {
    let local = manifest_with_resource("/docs/a.txt", "file", "abc", "2026-01-01 00:00:00");
    let remote = manifest_with_tombstone("/docs/a.txt", "2026-02-01 00:00:00");

    assert_eq!(
        diff_manifests(&local, &remote),
        vec![SyncAction::Delete {
            path: "/docs/a.txt".to_string(),
        }]
    );
}

#[test]
fn moved_remote_tombstone_older_than_local_live_is_ignored() {
    let local = manifest_with_resource("/docs/a.txt", "file", "abc", "2026-02-01 00:00:00");
    let remote = manifest_with_tombstone("/docs/a.txt", "2026-01-01 00:00:00");

    assert!(diff_manifests(&local, &remote).is_empty());
}

#[test]
fn moved_both_tombstoned_is_a_no_op() {
    let local = manifest_with_tombstone("/docs/a.txt", "2026-01-01 00:00:00");
    let remote = manifest_with_tombstone("/docs/a.txt", "2026-02-01 00:00:00");

    assert!(diff_manifests(&local, &remote).is_empty());
}

#[test]
fn only_the_older_side_acts() {
    let old = manifest_with_resource("/a", "file", "x", "2026-01-01");
    let new = manifest_with_resource("/a", "file", "y", "2026-01-02");
    assert_eq!(diff_manifests(&old, &new).len(), 1);
    assert!(diff_manifests(&new, &old).is_empty());
}

#[test]
fn one_round_catches_up() {
    let local = manifest_with_resource("/a", "file", "x", "2026-01-01");
    let remote = manifest_with_resource("/a", "file", "y", "2026-01-02");
    assert_eq!(diff_manifests(&local, &remote).len(), 1);
    let caught_up = remote.clone();
    assert!(diff_manifests(&caught_up, &remote).is_empty());
    assert!(diff_manifests(&remote, &caught_up).is_empty());
}

fn pull(path: &str, checksum: &str) -> SyncAction {
    SyncAction::Pull { path: path.to_string(), checksum: Some(checksum.to_string()) }
}

#[test]
fn the_latest_state_of_a_path_counts() {
    let local = manifest_with_resource("/a", "file", "x", "2026-01-01");
    let mut remote = manifest_with_resource("/a", "file", "y", "2026-01-05");
    remote.tombstones = manifest_with_tombstone("/a", "2026-01-02").tombstones;
    assert_eq!(diff_manifests(&local, &remote), vec![pull("/a", "y")]);
    remote.tombstones = manifest_with_tombstone("/a", "2026-01-05").tombstones;
    assert_eq!(diff_manifests(&local, &remote), vec![SyncAction::Delete { path: "/a".to_string() }]);
    remote.tombstones = manifest_with_tombstone("/a", "2026-01-06").tombstones;
    assert_eq!(diff_manifests(&local, &remote), vec![SyncAction::Delete { path: "/a".to_string() }]);
}

#[test]
fn a_recreated_file_is_pulled() {
    let mut remote = manifest_with_resource("/a.txt", "file", "abc", "2024-01-02T00:00:00Z");
    remote.tombstones = manifest_with_tombstone("/a.txt", "2024-01-01T00:00:00Z").tombstones;
    assert_eq!(diff_manifests(&Manifest::default(), &remote), vec![pull("/a.txt", "abc")]);
}

#[test]
fn the_order_of_a_manifest_is_of_no_account() {
    let newer = manifest_entry("/a", "new", "2026-01-05");
    let older = manifest_entry("/a", "old", "2026-01-02");
    let mut remote = Manifest { resources: vec![newer.clone(), older.clone()], tombstones: vec![] };
    assert_eq!(diff_manifests(&Manifest::default(), &remote), vec![pull("/a", "new")]);
    remote.resources = vec![older, newer];
    assert_eq!(diff_manifests(&Manifest::default(), &remote), vec![pull("/a", "new")]);

    let local = manifest_with_resource("/a", "file", "x", "2026-01-01");
    let mut tombstones = manifest_with_tombstone("/a", "2026-01-06").tombstones;
    tombstones.extend(manifest_with_tombstone("/a", "2026-01-03").tombstones);
    remote.tombstones = tombstones;
    assert_eq!(diff_manifests(&local, &remote), vec![SyncAction::Delete { path: "/a".to_string() }]);
}

#[test]
fn every_differing_path_gets_one_action() {
    let remote = Manifest {
        resources: vec![
            manifest_entry("/a", "1", "2"),
            manifest_entry("/b", "1", "2"),
            manifest_entry("/a", "3", "4"),
        ],
        tombstones: vec![],
    };
    let actions = diff_manifests(&Manifest::default(), &remote);
    assert_eq!(actions.len(), 2);
    assert!(actions.contains(&SyncAction::Pull {
        path: "/a".to_string(),
        checksum: Some("3".to_string()),
    }));
}

// --- Incoming events ---

#[test]
fn incoming_move_event_with_absolute_destination_url_renames_to_relative_target() {
    let peer = random_peer();
    let mut state = SyncState::new();
    let event = change(
        EventKind::Moved,
        "/old/file.txt",
        Some("http://127.0.0.1:4918/new/file.txt"),
    );

    let relocation = probed(handle_incoming_event(".", &mut state, peer, event));
    assert_eq!(relocation.source, "old/file.txt");
    let work = performed(relocate(".", &mut state, relocation, true));

    match work.effect {
        FileEffect::Rename { from, to } => {
            assert_eq!(from, "old/file.txt");
            assert_eq!(to, "new/file.txt");
        }
        other => panic!("expected a rename, got {other:?}"),
    }
    assert_eq!(work.record.event_kind, EventKind::Moved);
    assert_eq!(work.record.source_path, "/old/file.txt");
    assert_eq!(work.record.destination_path.as_deref(), Some("/new/file.txt"));
    assert_eq!(work.record.method, "P2P");
    assert_eq!(work.record.status_code, 200);
    assert!(!state.is_busy());
}

#[test]
fn incoming_copy_event_with_absolute_destination_url_copies_to_relative_target() {
    let peer = random_peer();
    let mut state = SyncState::new();
    let event = change(
        EventKind::Copied,
        "/old/file.txt",
        Some("http://127.0.0.1:4918/new/file.txt"),
    );

    let relocation = probed(handle_incoming_event(".", &mut state, peer, event));
    let work = performed(relocate(".", &mut state, relocation, true));

    match work.effect {
        FileEffect::Copy { from, to } => {
            assert_eq!(from, "old/file.txt");
            assert_eq!(to, "new/file.txt");
        }
        other => panic!("expected a copy, got {other:?}"),
    }
    assert_eq!(work.record.event_kind, EventKind::Copied);
}

#[test]
fn relocations_without_a_source_are_pulled() {
    let peer = random_peer();
    let mut state = SyncState::new();
    let event = change(EventKind::Renamed, "/a.txt", Some("/b.txt"));
    let relocation = probed(handle_incoming_event(".", &mut state, peer.copy(), event));
    match relocate(".", &mut state, relocation, false) {
        IncomingStep::Done(request) => assert_eq!(fetched_path(request), Some("/b.txt".to_string())),
        other => panic!("expected a pull, got {other:?}"),
    }
    assert!(state.is_pending(&peer, "/b.txt"));
    assert_eq!(state.current_transfer_info(), Some((EventKind::Renamed, "peer:test".to_string())));
}

#[test]
fn incoming_created_event_starts_pull_when_missing() {
    let peer = random_peer();
    let mut state = SyncState::new();
    let content = b"hello from a peer";

    let event = FileChangeEvent {
        checksum: Some(crc32_hex(content)),
        size: content.len() as u64,
        ..change(EventKind::Created, "/incoming.txt", None)
    };

    match handle_incoming_event(".", &mut state, peer.copy(), event) {
        IncomingStep::Done(request) => {
            assert_eq!(fetched_path(request), Some("/incoming.txt".to_string()))
        }
        other => panic!("expected a pull, got {other:?}"),
    }
    assert!(state.is_pending(&peer, "/incoming.txt"));
}

#[test]
fn incoming_deleted_event_deletes_locally() {
    let mut state = SyncState::new();
    let event = change(EventKind::Deleted, "/todelete.txt", None);
    let work = performed(handle_incoming_event(".", &mut state, random_peer(), event));
    match work.effect {
        FileEffect::Delete { path } => assert_eq!(path, "todelete.txt"),
        other => panic!("expected a deletion, got {other:?}"),
    }
    assert_eq!(work.record.event_kind, EventKind::Deleted);
    assert!(!state.is_busy());
}

#[test]
fn incoming_dir_created_event_creates_directory() {
    let mut state = SyncState::new();
    let event = change(EventKind::DirCreated, "/newdir", None);
    let work = performed(handle_incoming_event(".", &mut state, random_peer(), event));
    match work.effect {
        FileEffect::CreateDir { path } => assert_eq!(path, "newdir"),
        other => panic!("expected a directory, got {other:?}"),
    }
    assert_eq!(work.record.username, "peer:test");
    assert!(!state.is_busy());
}

#[test]
fn missing_paths_count_as_deleted() {
    assert_eq!(apply_delete(FoundOnDisk::Directory), DeleteStep::RemoveTree);
    assert_eq!(apply_delete(FoundOnDisk::File), DeleteStep::RemoveFile);
    assert_eq!(apply_delete(FoundOnDisk::Missing), DeleteStep::Nothing);
    assert_eq!(apply_delete(FoundOnDisk::Unreadable), DeleteStep::Fail);
}

// --- File transfer ---

#[test]
fn fetch_request_returns_file_start() {
    let content = b"hello from a peer";
    match handle_fetch_request("/test.txt", Some(content.to_vec())) {
        SyncResponse::File { path, data, checksum } => {
            assert_eq!(path, "/test.txt");
            assert_eq!(data.len(), content.len());
            assert_eq!(data, content);
            assert_eq!(checksum, "43cc812f");
        }
        other => panic!("expected a file, got {other:?}"),
    }
}

#[test]
fn fetch_request_returns_not_found_for_missing_file() {
    match handle_fetch_request("/missing.txt", None) {
        SyncResponse::NotFound { path } => {
            assert_eq!(path, "/missing.txt");
        }
        other => panic!("expected not found response, got {other:?}"),
    }
}

#[test]
fn handle_file_start_and_chunk_writes_file_and_verifies_checksum() {
    let peer = random_peer();
    let mut state = SyncState::new();
    let content = b"hello from a peer";
    let checksum = crc32_hex(content);

    let req = start(&mut state, &peer, "/incoming.txt");
    assert!(req.is_some());

    let step = handle_file_response(
        &mut state,
        "/incoming.txt".to_string(),
        content.to_vec(),
        checksum.clone(),
        EventKind::Created,
        "peer:test".to_string(),
    );
    let (target, data, record) = written(step);
    assert_eq!(target, "incoming.txt");
    assert_eq!(data, content);
    assert_eq!(record.checksum, Some(checksum));

    let (recorded, next) = finish_file_response(&mut state, &peer, "/incoming.txt", record, true);
    assert_eq!(recorded.expect("a written file is recorded").source_path, "/incoming.txt");
    assert!(next.is_none());
    assert!(!state.is_busy());
}

#[test]
fn handle_file_chunk_discards_on_checksum_mismatch() {
    let peer = random_peer();
    let mut state = SyncState::new();
    let content = b"tampered content";

    start(&mut state, &peer, "/bad.txt");

    let next = match handle_file_response(
        &mut state,
        "/bad.txt".to_string(),
        content.to_vec(),
        "wrong-checksum".to_string(),
        EventKind::Created,
        "peer:test".to_string(),
    ) {
        ReceivedStep::Retry(next) => next,
        other => panic!("file with mismatched checksum must not be materialized: {other:?}"),
    };
    assert!(next.is_some());

    for _ in 0..3 {
        let step = handle_file_response(
            &mut state,
            "/bad.txt".to_string(),
            content.to_vec(),
            "wrong-checksum".to_string(),
            EventKind::Created,
            "peer:test".to_string(),
        );
        assert!(matches!(step, ReceivedStep::Retry(_)));
    }

    assert!(!state.is_busy());
}

#[test]
fn handle_not_found_removes_pending_transfer() {
    let peer = random_peer();
    let mut state = SyncState::new();

    start(&mut state, &peer, "/missing.txt");
    assert!(state.is_busy());

    for _ in 0..4 {
        handle_not_found(&mut state, &peer, "/missing.txt");
    }

    assert!(!state.is_busy());
}

#[test]
fn files_that_cannot_be_written_are_asked_for_again() {
    let peer = random_peer();
    let mut state = SyncState::new();
    start(&mut state, &peer, "/a");
    let (_, _, record) = written(check_received_file(
        &mut state,
        "/a".to_string(),
        vec![1, 2, 3],
        "00c0ffee".to_string(),
        0x00c0_ffee,
        EventKind::Edited,
        "u".to_string(),
    ));
    assert_eq!(record.event_kind, EventKind::Edited);
    let (recorded, next) = finish_file_response(&mut state, &peer, "/a", record, false);
    assert!(recorded.is_none());
    assert_eq!(fetched_path(next), Some("/a".to_string()));
    assert!(state.is_busy());
}

#[test]
fn a_sent_file_is_accepted_as_it_is() {
    let mut state = SyncState::new();
    start(&mut state, &random_peer(), "/a");
    let (path, data, checksum) = match handle_fetch_request("/a", Some(b"123456789".to_vec())) {
        SyncResponse::File { path, data, checksum } => (path, data, checksum),
        other => panic!("expected a file, got {other:?}"),
    };
    assert_eq!(checksum, "cbf43926");
    let step =
        handle_file_response(&mut state, path, data, checksum, EventKind::Created, "u".to_string());
    assert_eq!(written(step).1, b"123456789");
    match file_response("/z", vec![7], 0xdead_beef) {
        SyncResponse::File { checksum, .. } => assert_eq!(checksum, "deadbeef"),
        other => panic!("expected a file, got {other:?}"),
    }
}

// --- Manifest actions ---

#[test]
fn apply_manifest_actions_creates_dirs_and_deletes() {
    let peer = random_peer();
    let mut state = SyncState::new();

    let actions = vec![
        SyncAction::CreateDir { path: "/newdir".to_string() },
        SyncAction::Delete { path: "/old.txt".to_string() },
        SyncAction::Pull { path: "/file.txt".to_string(), checksum: Some("abc".to_string()) },
        SyncAction::Pull { path: "/more.txt".to_string(), checksum: None },
    ];

    let work = apply_manifest_actions(".", &mut state, &peer, actions);

    assert_eq!(work.effects.len(), 2);
    assert!(matches!(&work.effects[0].effect, FileEffect::CreateDir { path } if path == "newdir"));
    assert!(matches!(&work.effects[1].effect, FileEffect::Delete { path } if path == "old.txt"));
    assert_eq!(work.effects[0].record.source_path, "/newdir");
    assert_eq!(work.effects[0].record.username, format!("p2p:{}", peer.text()));
    assert_eq!(work.requests.len(), 1);
    assert!(state.is_pending(&peer, "/file.txt"));
    assert!(state.is_pending(&peer, "/more.txt"));
}
