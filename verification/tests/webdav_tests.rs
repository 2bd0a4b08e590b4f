use hyper::HeaderMap;
use nacs_backend::db::EventKind;
use nacs_backend::webdav::{
    build_unauthorized_response, destination_field, event_kind_for_storage, file_change, file_checksum_and_size,
    log_file_event, log_line, map_to_event, parse_basic_credentials, refuse_request,
    request_destination, required_env_var, spawn_p2p_announcement, user_agent, FileChange,
    FileEvent, Refusal,
};

const CREATED: u16 = 201;
const NO_CONTENT: u16 = 204;
const MULTI_STATUS: u16 = 207;
const OK: u16 = 200;

#[test]
fn parse_basic_credentials_accepts_case_insensitive_scheme() {
    let auth = "bAsIc dXNlcjpwYXNz";
    let creds = parse_basic_credentials(auth).expect("credentials should parse");
    assert_eq!(creds.0, "user");
    assert_eq!(creds.1, "pass");
}

#[test]
fn parse_basic_credentials_rejects_missing_password_separator() {
    let auth = "Basic dXNlcg==";
    assert!(parse_basic_credentials(auth).is_none());
}

#[test]
fn parse_basic_credentials_accepts_colon_in_password() {
    let auth = "Basic dXNlcjpwYTpzcw==";
    let creds = parse_basic_credentials(auth).expect("credentials should parse");
    assert_eq!(creds.0, "user");
    assert_eq!(creds.1, "pa:ss");
}

#[test]
fn map_to_event_put_201_is_created() {
    assert_eq!(map_to_event("PUT", CREATED, "/file.txt", None), FileEvent::Created);
}

#[test]
fn map_to_event_put_204_is_edited() {
    assert_eq!(map_to_event("PUT", NO_CONTENT, "/file.txt", None), FileEvent::Edited);
}

#[test]
fn map_to_event_delete_204_is_deleted() {
    assert_eq!(map_to_event("DELETE", NO_CONTENT, "/file.txt", None), FileEvent::Deleted);
}

#[test]
fn map_to_event_move_same_dir_is_renamed() {
    assert_eq!(
        map_to_event(
            "MOVE",
            CREATED,
            "/docs/old.txt",
            Some("http://localhost:4918/docs/new.txt"),
        ),
        FileEvent::Renamed
    );
}

#[test]
fn map_to_event_move_root_same_dir_is_renamed() {
    assert_eq!(
        map_to_event("MOVE", NO_CONTENT, "/old.txt", Some("http://localhost:4918/new.txt")),
        FileEvent::Renamed
    );
}

#[test]
fn map_to_event_move_different_dir_is_moved() {
    assert_eq!(
        map_to_event(
            "MOVE",
            CREATED,
            "/docs/file.txt",
            Some("http://localhost:4918/archive/file.txt"),
        ),
        FileEvent::Moved
    );
}

#[test]
fn map_to_event_move_no_destination_is_moved() {
    assert_eq!(map_to_event("MOVE", NO_CONTENT, "/file.txt", None), FileEvent::Moved);
}

#[test]
fn map_to_event_copy_201_is_copied() {
    assert_eq!(map_to_event("COPY", CREATED, "/file.txt", None), FileEvent::Copied);
}

#[test]
fn map_to_event_mkcol_201_is_dir_created() {
    assert_eq!(map_to_event("MKCOL", CREATED, "/newdir", None), FileEvent::DirCreated);
}

#[test]
fn map_to_event_propfind_207_is_listed() {
    assert_eq!(map_to_event("PROPFIND", MULTI_STATUS, "/", None), FileEvent::Listed);
}

#[test]
fn map_to_event_proppatch_207_is_prop_patched() {
    assert_eq!(map_to_event("PROPPATCH", MULTI_STATUS, "/file.txt", None), FileEvent::PropPatched);
}

#[test]
fn map_to_event_get_200_is_read() {
    assert_eq!(map_to_event("GET", OK, "/file.txt", None), FileEvent::Read);
}

#[test]
fn map_to_event_lock_200_is_locked() {
    assert_eq!(map_to_event("LOCK", OK, "/file.txt", None), FileEvent::Locked);
}

#[test]
fn map_to_event_unlock_204_is_unlocked() {
    assert_eq!(map_to_event("UNLOCK", NO_CONTENT, "/file.txt", None), FileEvent::Unlocked);
}

#[test]
fn map_to_event_options_200_is_options() {
    assert_eq!(map_to_event("OPTIONS", OK, "/", None), FileEvent::Options);
}

#[test]
fn map_to_event_put_404_is_unknown() {
    assert_eq!(map_to_event("PUT", 404, "/file.txt", None), FileEvent::Unknown);
}

#[test]
fn unauthorized_response_includes_basic_challenge_and_content_length() {
    let response = build_unauthorized_response("PROPFIND");

    assert_eq!(response.status, 401);
    assert_eq!(
        response.header("WWW-Authenticate"),
        Some("Basic realm=\"webdav\", charset=\"UTF-8\"")
    );
    assert_eq!(response.header("Content-Length"), Some("0"));
}

#[test]
fn unauthorized_options_response_includes_dav_capability_headers() {
    let response = build_unauthorized_response("OPTIONS");

    assert_eq!(response.status, 401);
    assert_eq!(response.header("DAV"), Some("1,2"));
    assert_eq!(response.header("MS-Author-Via"), Some("DAV"));
    assert_eq!(
        response.header("Allow"),
        Some(
            "OPTIONS, GET, HEAD, PUT, DELETE, PROPFIND, PROPPATCH, MKCOL, COPY, MOVE, LOCK, UNLOCK"
        )
    );
}

fn change(event_kind: EventKind, path: &str) -> FileChange {
    FileChange {
        event_kind,
        source_path: path.to_string(),
        destination_path: None,
        final_path: path.to_string(),
        should_hash: true,
    }
}

#[test]
fn spawn_p2p_announcement_computes_checksum_in_background() {
    let (record, event) = spawn_p2p_announcement(
        change(EventKind::Created, "/report.txt"),
        Some(b"hello webdav".to_vec()),
        "PUT",
        201,
        "user",
    );

    assert_eq!(event.event_kind, EventKind::Created);
    assert_eq!(event.source_path, "/report.txt");
    assert_eq!(event.destination_path, None);
    assert_eq!(event.size, 12);
    assert!(event.checksum.is_some());
    assert_eq!(
        event.checksum.as_deref(),
        Some("a536514be0cb14f11c16d18f6714329ba4c2921a7a132344e14a3cfb2fb0d898")
    );
    assert_eq!(record.checksum, event.checksum);
    assert_eq!(record.method, "PUT");
    assert_eq!(record.status_code, 201);
    assert_eq!(record.username, "user");
}

#[test]
fn spawn_p2p_announcement_falls_back_when_file_is_missing() {
    let (record, event) =
        spawn_p2p_announcement(change(EventKind::Deleted, "/missing.txt"), None, "DELETE", 204, "user");

    assert_eq!(event.event_kind, EventKind::Deleted);
    assert_eq!(event.size, 0);
    assert_eq!(event.checksum, None);
    assert_eq!(record.checksum, None);
}

#[test]
fn other_statuses_and_methods_are_unknown() {
    assert_eq!(map_to_event("DELETE", 200, "/f", None), FileEvent::Deleted);
    assert_eq!(map_to_event("GET", 206, "/f", None), FileEvent::Read);
    assert_eq!(map_to_event("HEAD", 200, "/f", None), FileEvent::Read);
    assert_eq!(map_to_event("COPY", 204, "/f", None), FileEvent::Copied);
    assert_eq!(map_to_event("GET", 304, "/f", None), FileEvent::Unknown);
    assert_eq!(map_to_event("MKCOL", 204, "/f", None), FileEvent::Unknown);
    assert_eq!(map_to_event("LOCK", 201, "/f", None), FileEvent::Unknown);
    assert_eq!(map_to_event("PATCH", 200, "/f", None), FileEvent::Unknown);
    assert_eq!(map_to_event("put", 201, "/f", None), FileEvent::Unknown);
}

#[test]
fn client_and_server_errors_are_never_stored() {
    for method in ["PUT", "DELETE", "MOVE", "COPY", "MKCOL", "GET"] {
        for status in [400, 401, 404, 409, 423, 500, 507, 599] {
            let event = map_to_event(method, status, "/f", Some("/g"));
            assert_eq!(event, FileEvent::Unknown);
            assert_eq!(event_kind_for_storage(&event), None);
        }
    }
}

#[test]
fn a_rename_is_recognised_through_escapes() {
    assert_eq!(map_to_event("MOVE", 201, "/my%20docs/a", Some("/my docs/b")), FileEvent::Renamed);
    assert_eq!(map_to_event("MOVE", 201, "/docs/a", Some("https://host/docs/b")), FileEvent::Renamed);
    assert_eq!(map_to_event("MOVE", 201, "/docs/a", Some("https://host")), FileEvent::Moved);
    assert_eq!(
        map_to_event(
            "MOVE",
            201,
            "/my%20docs/a.txt",
            Some("http://localhost:4918/my%20docs/b.txt")
        ),
        FileEvent::Renamed
    );
    assert_eq!(
        map_to_event("MOVE", 201, "/my%20docs/a.txt", Some("/other%20docs/a.txt")),
        FileEvent::Moved
    );
}

#[test]
fn events_are_stored_under_their_kind() {
    assert_eq!(event_kind_for_storage(&FileEvent::Created), Some(EventKind::Created));
    assert_eq!(event_kind_for_storage(&FileEvent::Edited), Some(EventKind::Edited));
    assert_eq!(event_kind_for_storage(&FileEvent::Deleted), Some(EventKind::Deleted));
    assert_eq!(event_kind_for_storage(&FileEvent::Renamed), Some(EventKind::Renamed));
    assert_eq!(event_kind_for_storage(&FileEvent::Moved), Some(EventKind::Moved));
    assert_eq!(event_kind_for_storage(&FileEvent::Copied), Some(EventKind::Copied));
    assert_eq!(event_kind_for_storage(&FileEvent::DirCreated), Some(EventKind::DirCreated));
    for event in [FileEvent::PropPatched, FileEvent::Locked, FileEvent::Unlocked, FileEvent::Read,
        FileEvent::Listed, FileEvent::Options, FileEvent::Unknown]
    {
        assert_eq!(event_kind_for_storage(&event), None);
    }
}

#[test]
fn log_lines_name_event_and_status() {
    let line = log_file_event(&FileEvent::Created, "PUT", "/a.txt", 201, "curl/8");
    assert_eq!(line.text, "[FILE CREATED] PUT /a.txt -> 201 Created (ua=curl/8)");
    assert!(!line.is_error);
    let line = log_file_event(&FileEvent::Unknown, "GET", "/", 404, "<none>");
    assert_eq!(line.text, "[UNKNOWN] GET / -> 404 Not Found (ua=<none>)");
    assert!(line.is_error);
    let line = log_file_event(&FileEvent::Unknown, "GET", "/", 599, "x");
    assert_eq!(line.text, "[UNKNOWN] GET / -> 599 <unknown status code> (ua=x)");
    assert!(line.is_error);
    assert!(!log_file_event(&FileEvent::Unknown, "GET", "/", 600, "x").is_error);
    assert_eq!(log_line(&FileEvent::Listed, "PROPFIND", "/", "s", "u"), "[DIR LISTED] PROPFIND / -> s (ua=u)");
}

#[test]
fn refusals_name_their_reason() {
    let mut headers = HeaderMap::new();
    assert_eq!(refuse_request(&headers, "user", "pass", "GET"), Some(Refusal::NoHeader));
    assert_eq!(refuse_request(&headers, "user", "pass", "OPTIONS"), None);
    headers.insert("Authorization", "Bearer x".parse().unwrap());
    assert_eq!(refuse_request(&headers, "user", "pass", "GET"), Some(Refusal::NotBasic));
    headers.insert("Authorization", "Basic dXNlcjpwYXNz".parse().unwrap());
    assert_eq!(refuse_request(&headers, "user", "other", "GET"), Some(Refusal::Mismatch));
    assert_eq!(refuse_request(&headers, "user", "pass", "GET"), None);
    assert_eq!(Refusal::NoHeader.reason(), "missing or invalid Authorization header");
    assert_eq!(Refusal::NotBasic.reason(), "could not parse Basic credentials");
    assert_eq!(Refusal::Mismatch.reason(), "username/password mismatch");
}

#[test]
fn request_headers_are_read() {
    let mut headers = HeaderMap::new();
    assert_eq!(user_agent(&headers), "<none>");
    assert_eq!(request_destination(&headers), None);
    assert_eq!(destination_field(&headers), None);
    headers.insert("User-Agent", "davfs2".parse().unwrap());
    headers.insert("Destination", "http://host:4918/a%20b?x#y".parse().unwrap());
    assert_eq!(user_agent(&headers), "davfs2");
    assert_eq!(request_destination(&headers), Some("/a b".to_string()));
    assert_eq!(destination_field(&headers), Some("http://host:4918/a%20b?x#y".to_string()));
}

#[test]
fn missing_variables_are_named() {
    assert_eq!(required_env_var("WEBDAV_USER", Ok("me".to_string())), Ok("me".to_string()));
    assert_eq!(
        required_env_var("WEBDAV_USER", Err("environment variable not found".to_string())),
        Err("Missing required environment variable WEBDAV_USER: environment variable not found".to_string())
    );
}

#[test]
fn changes_name_where_the_resource_ended() {
    let moved = file_change(&FileEvent::Moved, "/a%2Fb", &Some("/c".to_string())).unwrap();
    assert_eq!(moved.source_path, "/a/b");
    assert_eq!(moved.destination_path, Some("/c".to_string()));
    assert_eq!(moved.final_path, "/c");
    assert!(moved.should_hash);
    let deleted = file_change(&FileEvent::Deleted, "/a", &None).unwrap();
    assert_eq!(deleted.final_path, "/a");
    assert!(!deleted.should_hash);
    assert!(!file_change(&FileEvent::DirCreated, "/a", &None).unwrap().should_hash);
    assert!(file_change(&FileEvent::Read, "/a", &None).is_none());
}

#[test]
fn content_is_described_by_checksum_and_size() {
    assert_eq!(
        file_checksum_and_size(Some(Vec::new())),
        Some(("e3b0c44298fc1c149afbf4c8996fb92427ae41e4649b934ca495991b7852b855".to_string(), 0))
    );
    assert_eq!(file_checksum_and_size(None), None);
}
