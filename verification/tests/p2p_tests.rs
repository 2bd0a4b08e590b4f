use nacs_backend::db::{EventKind, Manifest, ManifestEntry};
use nacs_backend::p2p::{
    cleanup_stale_transfers, configured_peer_port, fetch_failed, handle_request, handle_response,
    key_path, listen_address, load_or_create_identity, manifest_response, newly_discovered_peers,
    worker_status, FetchQueue, PeerAction, PeerEvent, PeerTracker, RequestStep, ResponseStep,
    SentFetch, HEARTBEAT_INTERVAL_SECS, HEARTBEAT_TIMEOUT_SECS,
    IDLE_CONNECTION_TIMEOUT_SECS, MAX_FETCH_RETRIES, SYNC_REQUEST_TIMEOUT_SECS,
};
use nacs_backend::identity::identity_of;
use nacs_backend::peer::{PeerId, PeerSet};
use nacs_backend::settings::{
    configured_host, configured_port, parse_port, socket_address, EnvValue, DEFAULT_API_PORT,
    DEFAULT_WEBDAV_PORT,
};
use nacs_backend::sync::{FileChangeEvent, ReceivedStep, SyncRequest, SyncResponse, SyncState};

fn random_peer() -> PeerId {
    let key = libp2p::identity::Keypair::generate_ed25519();
    PeerId::from_text(key.public().to_peer_id().to_base58())
}

fn holds(peers: &[PeerId], peer: &PeerId) -> bool {
    peers.iter().any(|p| p.same(peer))
}

fn pulling(peer: &PeerId, path: &str) -> SyncState {
    let mut state = SyncState::new();
    state.start_pull(".", peer.copy(), path.to_string(), None, EventKind::Moved, "bob".to_string());
    state
}

#[test]
fn identity_is_persisted_and_reloaded() {
    let first = load_or_create_identity(None).expect("key should be created");
    assert!(first.is_new);
    let second =
        load_or_create_identity(Some(first.encoded.clone())).expect("key should be reloaded");
    assert!(!second.is_new);

    assert!(first.peer.same(&second.peer));
    assert_eq!(first.encoded, second.encoded);

    let key = libp2p::identity::Keypair::from_protobuf_encoding(&first.encoded).unwrap();
    assert_eq!(key.public().to_peer_id().to_base58(), first.peer.text());
}

#[test]
fn identities_that_cannot_be_decoded_are_errors() {
    assert!(load_or_create_identity(Some(vec![1, 2, 3])).is_err());
    assert!(load_or_create_identity(Some(Vec::new())).is_err());
    assert_eq!(identity_of(vec![1], Err("bad".to_string()), true).unwrap_err(), "bad");
    let identity = identity_of(vec![1], Ok("peer".to_string()), true).unwrap();
    assert_eq!(identity.peer.text(), "peer");
    assert!(identity.is_new);
}

#[test]
fn new_identities_differ() {
    let one = load_or_create_identity(None).unwrap();
    let other = load_or_create_identity(None).unwrap();
    assert!(!one.peer.same(&other.peer));
}

#[test]
fn discovery_filter_reports_each_peer_once() {
    let mut seen = PeerSet::new();
    let p1 = random_peer();
    let p2 = random_peer();

    let first_batch =
        newly_discovered_peers(&mut seen, vec![p1.copy(), p2.copy(), p1.copy()]);
    assert_eq!(first_batch.len(), 2);
    assert!(holds(&first_batch, &p1));
    assert!(holds(&first_batch, &p2));

    let second_batch = newly_discovered_peers(&mut seen, vec![p1, p2]);
    assert!(second_batch.is_empty());
}

#[test]
fn discovery_filter_reports_peer_again_after_removal() {
    let mut seen = PeerSet::new();
    let peer = random_peer();

    let first_batch = newly_discovered_peers(&mut seen, vec![peer.copy()]);
    assert_eq!(first_batch, vec![peer.copy()]);

    assert!(seen.remove(&peer));

    let rediscovered_batch = newly_discovered_peers(&mut seen, vec![peer.copy()]);
    assert_eq!(rediscovered_batch, vec![peer]);
}

#[test]
fn peer_sets_hold_each_peer_once() {
    let mut set = PeerSet::new();
    let a = random_peer();
    let b = random_peer();
    assert!(set.is_empty());
    assert!(set.insert(a.copy()));
    assert!(!set.insert(a.copy()));
    assert!(set.insert(b.copy()));
    assert_eq!(set.len(), 2);
    assert_eq!(set.list(), vec![a.copy(), b.copy()]);
    assert!(set.remove(&a));
    assert!(!set.remove(&a));
    assert!(!set.contains(&a));
    assert!(set.contains(&b));
}

#[test]
fn discovered_peers_are_dialled_once() {
    let local = random_peer();
    let peer = random_peer();
    let mut tracker = PeerTracker::new(local.copy());
    assert!(matches!(tracker.handle(PeerEvent::Discovered(local)), PeerAction::Nothing));
    match tracker.handle(PeerEvent::Discovered(peer.copy())) {
        PeerAction::Dial(dialled) => assert!(dialled.same(&peer)),
        other => panic!("expected a dial, got {other:?}"),
    }
    assert!(matches!(tracker.handle(PeerEvent::Discovered(peer)), PeerAction::Nothing));
}

#[test]
fn connections_are_reconciled_and_tracked() {
    let peer = random_peer();
    let mut tracker = PeerTracker::new(random_peer());
    assert!(matches!(tracker.handle(PeerEvent::DialStarted(peer.copy())), PeerAction::Nothing));
    match tracker.handle(PeerEvent::ConnectionEstablished(peer.copy())) {
        PeerAction::RequestManifest(asked) => assert!(asked.same(&peer)),
        other => panic!("expected a manifest request, got {other:?}"),
    }
    assert!(tracker.is_connected(&peer));
    assert_eq!(tracker.connected_len(), 1);
    assert_eq!(tracker.announcement_targets(), vec![peer.copy()]);
    assert!(matches!(tracker.handle(PeerEvent::Expired(peer.copy())), PeerAction::Nothing));
    assert!(matches!(tracker.handle(PeerEvent::DialFailed(peer.copy())), PeerAction::Nothing));
    assert!(tracker.is_connected(&peer));
    match tracker.handle(PeerEvent::ConnectionClosed(peer.copy())) {
        PeerAction::CancelTransfers(gone) => assert!(gone.same(&peer)),
        other => panic!("expected a cancellation, got {other:?}"),
    }
    assert!(!tracker.is_connected(&peer));
}

#[test]
fn unreachable_peers_are_dialled_again_when_discovered_again() {
    let peer = random_peer();
    let mut tracker = PeerTracker::new(random_peer());
    tracker.handle(PeerEvent::ConnectionEstablished(peer.copy()));
    assert!(matches!(tracker.handle(PeerEvent::HeartbeatFailed(peer.copy())), PeerAction::Nothing));
    assert!(!tracker.is_connected(&peer));
    assert!(matches!(tracker.handle(PeerEvent::Discovered(peer.copy())), PeerAction::Dial(_)));
    assert!(matches!(tracker.handle(PeerEvent::Discovered(peer.copy())), PeerAction::Nothing));
    assert!(matches!(tracker.handle(PeerEvent::Expired(peer.copy())), PeerAction::ReportLost(_)));
    assert!(matches!(tracker.handle(PeerEvent::Expired(peer.copy())), PeerAction::Nothing));
    assert!(matches!(tracker.handle(PeerEvent::Discovered(peer)), PeerAction::Dial(_)));
}

#[test]
fn peers_being_dialled_are_not_dialled_again() {
    let peer = random_peer();
    let mut tracker = PeerTracker::new(random_peer());
    tracker.handle(PeerEvent::DialStarted(peer.copy()));
    assert!(matches!(tracker.handle(PeerEvent::Discovered(peer.copy())), PeerAction::Nothing));
    tracker.handle(PeerEvent::DialFailed(peer.copy()));
    assert!(matches!(tracker.handle(PeerEvent::Discovered(peer.copy())), PeerAction::Nothing));
    assert!(matches!(tracker.handle(PeerEvent::Expired(peer.copy())), PeerAction::ReportLost(_)));
    assert!(matches!(tracker.handle(PeerEvent::Discovered(peer)), PeerAction::Dial(_)));
}

#[test]
fn peers_that_expired_while_connected_are_dialled_again() {
    let peer = random_peer();
    let mut tracker = PeerTracker::new(random_peer());
    tracker.handle(PeerEvent::ConnectionEstablished(peer.copy()));
    assert!(matches!(tracker.handle(PeerEvent::Expired(peer.copy())), PeerAction::Nothing));
    assert!(matches!(
        tracker.handle(PeerEvent::ConnectionClosed(peer.copy())),
        PeerAction::CancelTransfers(_)
    ));
    assert!(matches!(tracker.handle(PeerEvent::Discovered(peer)), PeerAction::Dial(_)));
}

#[test]
fn key_files_are_named_by_port() {
    assert_eq!(key_path(4001), "p2p_identity.key");
    assert_eq!(key_path(4002), "p2p_identity-4002.key");
    assert_eq!(key_path(0), "p2p_identity-0.key");
    assert_eq!(listen_address(4001), "/ip4/0.0.0.0/tcp/4001");
}

#[test]
fn peer_ports_are_read_from_the_environment() {
    assert_eq!(configured_peer_port(EnvValue::Missing), Ok(4001));
    assert_eq!(configured_peer_port(EnvValue::Present("4010".to_string())), Ok(4010));
    assert_eq!(configured_peer_port(EnvValue::Present("+7".to_string())), Ok(7));
    for raw in ["", "abc", "65536", "-1", " 4001", "+"] {
        assert_eq!(
            configured_peer_port(EnvValue::Present(raw.to_string())),
            Err(format!("Invalid P2P_PORT value: {raw}"))
        );
    }
    assert_eq!(
        configured_peer_port(EnvValue::Unreadable("not unicode".to_string())),
        Err("Unable to read P2P_PORT: not unicode".to_string())
    );
}

#[test]
fn settings_have_defaults() {
    assert_eq!(configured_port(None, DEFAULT_WEBDAV_PORT), 4918);
    assert_eq!(configured_port(Some("x".to_string()), DEFAULT_API_PORT), 3000);
    assert_eq!(configured_port(Some("8080".to_string()), DEFAULT_API_PORT), 8080);
    assert_eq!(configured_host(None), "127.0.0.1");
    assert_eq!(configured_host(Some("0.0.0.0".to_string())), "0.0.0.0");
    assert_eq!(socket_address("127.0.0.1", 4918), "127.0.0.1:4918");
    assert_eq!(parse_port("65535"), Some(65535));
    assert_eq!(parse_port("00080"), Some(80));
}

#[test]
fn heartbeats_keep_connections_open() {
    assert_eq!(HEARTBEAT_INTERVAL_SECS, 10);
    assert_eq!(HEARTBEAT_TIMEOUT_SECS, 8);
    assert_eq!(IDLE_CONNECTION_TIMEOUT_SECS, 60);
    assert_eq!(SYNC_REQUEST_TIMEOUT_SECS, 300);
}

#[test]
fn requests_are_told_apart() {
    assert!(matches!(handle_request(SyncRequest::Manifest), RequestStep::SendManifest));
    match handle_request(SyncRequest::FetchFile { path: "/a%20b/c".to_string() }) {
        RequestStep::SendFile { path, relative } => {
            assert_eq!(path, "/a%20b/c");
            assert_eq!(relative, "a b/c");
        }
        other => panic!("expected a file, got {other:?}"),
    }
    let event = FileChangeEvent {
        event_kind: EventKind::Deleted,
        source_path: "/a".to_string(),
        destination_path: None,
        checksum: None,
        size: 0,
        username: "alice".to_string(),
    };
    assert!(matches!(handle_request(SyncRequest::Event(event)), RequestStep::Apply(_)));
}

#[test]
fn a_missing_manifest_is_answered_as_empty() {
    match manifest_response(None) {
        SyncResponse::Manifest(manifest) => {
            assert!(manifest.resources.is_empty());
            assert!(manifest.tombstones.is_empty());
        }
        other => panic!("expected a manifest, got {other:?}"),
    }
    let entry = ManifestEntry {
        resource_path: "/a".to_string(),
        resource_kind: "folder".to_string(),
        checksum: None,
        size: 0,
        updated_at: "1".to_string(),
    };
    match manifest_response(Some(Manifest { resources: vec![entry], tombstones: vec![] })) {
        SyncResponse::Manifest(manifest) => assert_eq!(manifest.resources.len(), 1),
        other => panic!("expected a manifest, got {other:?}"),
    }
}

#[test]
fn answers_are_told_apart() {
    let peer = random_peer();
    let mut state = pulling(&peer, "/a");
    let manifest = SyncResponse::Manifest(Manifest::default());
    assert!(matches!(handle_response(&mut state, &peer, manifest), ResponseStep::Reconcile(_)));
    assert!(matches!(handle_response(&mut state, &peer, SyncResponse::Ack), ResponseStep::Nothing));
    let missing = SyncResponse::NotFound { path: "/a".to_string() };
    assert!(matches!(handle_response(&mut state, &peer, missing), ResponseStep::Send(Some(_))));
    let file = SyncResponse::File {
        path: "/a".to_string(),
        data: b"123456789".to_vec(),
        checksum: "cbf43926".to_string(),
    };
    match handle_response(&mut state, &peer, file.clone()) {
        ResponseStep::Received(ReceivedStep::Write { record, .. }) => {
            assert_eq!(record.event_kind, EventKind::Moved);
            assert_eq!(record.username, "bob");
        }
        other => panic!("expected a file to write, got {other:?}"),
    }
    let mut idle = SyncState::new();
    assert!(matches!(handle_response(&mut idle, &peer, file), ResponseStep::Nothing));
}

#[test]
fn failed_requests_are_sent_again() {
    let peer = random_peer();
    let state = pulling(&peer, "/a");
    assert!(fetch_failed(&state, None).is_none());
    let other = SentFetch::new(peer.copy(), "/b".to_string());
    assert!(fetch_failed(&state, Some(other)).is_none());
    let mut fetch = SentFetch::new(peer.copy(), "/a".to_string());
    assert!(matches!(fetch.request(), SyncRequest::FetchFile { path } if path == "/a"));
    for attempts in 1..MAX_FETCH_RETRIES {
        fetch = fetch_failed(&state, Some(fetch)).expect("a pending fetch is sent again");
        assert_eq!(fetch.attempts, attempts);
    }
    fetch = fetch_failed(&state, Some(fetch)).expect("a pending fetch is started anew");
    assert_eq!(fetch.attempts, 0);
}

fn fetch(path: &str) -> Option<SyncRequest> {
    Some(SyncRequest::FetchFile { path: path.to_string() })
}

#[test]
fn requests_wait_until_a_peer_is_connected() {
    let peer = random_peer();
    let state = pulling(&peer, "/a");
    let mut tracker = PeerTracker::new(random_peer());
    let mut queue = FetchQueue::new();
    queue.push(fetch("/a"));
    queue.push(None);
    queue.push(Some(SyncRequest::Manifest));
    assert!(queue.due_fetch(&state, &tracker).is_none());
    tracker.handle(PeerEvent::ConnectionEstablished(peer.copy()));
    let sent = queue.due_fetch(&state, &tracker).expect("the request is due");
    assert_eq!((sent.path.as_str(), sent.attempts), ("/a", 0));
    assert!(sent.peer.same(&peer));
    assert!(queue.due_fetch(&state, &tracker).is_none());
}

#[test]
fn requests_are_sent_to_any_connected_peer() {
    let peer = random_peer();
    let other = random_peer();
    let state = pulling(&peer, "/a");
    let mut tracker = PeerTracker::new(random_peer());
    tracker.handle(PeerEvent::ConnectionEstablished(other.copy()));
    let mut queue = FetchQueue::new();
    queue.push(fetch("/a"));
    let sent = queue.due_fetch(&state, &tracker).expect("the request is due");
    assert_eq!(sent.path, "/a");
    assert!(sent.peer.same(&other));
    tracker.handle(PeerEvent::ConnectionEstablished(peer.copy()));
    queue.push(fetch("/a"));
    queue.push(fetch("/b"));
    let sent = queue.due_fetch(&state, &tracker).expect("the first request is due");
    assert_eq!(sent.path, "/a");
    assert!(sent.peer.same(&peer));
    let sent = queue.due_fetch(&state, &tracker).expect("the second request is due");
    assert_eq!(sent.path, "/b");
    assert!(sent.peer.same(&other));
}

#[test]
fn stale_transfers_are_aborted() {
    let peer = random_peer();
    let mut state = pulling(&peer, "/a");
    let mut queue = FetchQueue::new();
    let mut tracker = PeerTracker::new(random_peer());
    tracker.handle(PeerEvent::ConnectionEstablished(peer.copy()));
    assert_eq!(cleanup_stale_transfers(&mut state, &mut queue, 599), 0);
    assert!(state.is_busy());
    state.start_pull(".", peer.copy(), "/b".to_string(), None, EventKind::Edited, "x".to_string());
    assert_eq!(cleanup_stale_transfers(&mut state, &mut queue, 600), 1);
    assert!(state.is_busy());
    let sent = queue.due_fetch(&state, &tracker).expect("the next transfer has begun");
    assert_eq!(sent.path, "/b");
    assert_eq!(cleanup_stale_transfers(&mut state, &mut queue, 600), 1);
    assert!(!state.is_busy());
    assert!(queue.due_fetch(&state, &tracker).is_none());
    assert_eq!(cleanup_stale_transfers(&mut state, &mut queue, 600), 0);
}

#[test]
fn status_tells_of_transfers_and_peers() {
    let peer = random_peer();
    let mut state = pulling(&peer, "/a");
    state.start_pull(".", peer.copy(), "/b".to_string(), None, EventKind::Edited, "x".to_string());
    let mut tracker = PeerTracker::new(random_peer());
    tracker.handle(PeerEvent::ConnectionEstablished(peer.copy()));
    let status = worker_status(&state, &tracker);
    assert!(status.is_syncing);
    assert_eq!(status.queue_length, 1);
    assert_eq!(status.peers_connected, 1);
    let transfer = status.current_transfer.expect("a transfer is active");
    assert_eq!(transfer.path, "/a");
    assert_eq!(transfer.peer_id, peer.text());
    assert_eq!(transfer.event_kind, "moved");
    assert_eq!(transfer.username, "bob");
    let idle = worker_status(&SyncState::new(), &tracker);
    assert!(!idle.is_syncing);
    assert!(idle.current_transfer.is_none());
}
