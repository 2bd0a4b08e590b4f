use hyper::header::{AUTHORIZATION, HeaderValue};
use hyper::HeaderMap;
use nacs_backend::auth::{
    build_unauthorized_response, credentials_match, extract_basic_auth, header_text,
    is_authorized, method_allows_unauthenticated, parse_basic_credentials, parse_basic_token,
    split_credentials,
};

fn pair(user: &str, pass: &str) -> Option<(String, String)> {
    Some((user.to_string(), pass.to_string()))
}

fn with_authorization(value: &str) -> HeaderMap {
    let mut headers = HeaderMap::new();
    headers.insert(AUTHORIZATION, value.parse().unwrap());
    headers
}

#[test]
fn parse_basic_credentials_valid() {
    let creds = parse_basic_credentials("Basic dXNlcjpwYXNz");
    assert_eq!(creds, Some(("user".to_string(), "pass".to_string())));
}

#[test]
fn parse_basic_credentials_invalid_scheme() {
    let creds = parse_basic_credentials("Bearer token");
    assert_eq!(creds, None);
}

#[test]
fn parse_basic_credentials_malformed() {
    let creds = parse_basic_credentials("Basic notbase64!");
    assert_eq!(creds, None);
}

#[test]
fn is_authorized_correct() {
    let headers = with_authorization("Basic dXNlcjpwYXNz");
    assert!(is_authorized(&headers, "user", "pass", "GET"));
}

#[test]
fn is_authorized_wrong_password() {
    let headers = with_authorization("Basic dXNlcjp3cm9uZw==");
    assert!(!is_authorized(&headers, "user", "pass", "GET"));
}

#[test]
fn is_authorized_options_allowed() {
    let headers = HeaderMap::new();
    assert!(is_authorized(&headers, "user", "pass", "OPTIONS"));
}

#[test]
fn only_options_needs_no_credentials() {
    let headers = HeaderMap::new();
    for method in ["GET", "PUT", "DELETE", "PROPFIND", "options", "OPTION", ""] {
        assert!(!method_allows_unauthenticated(method));
        assert!(!is_authorized(&headers, "user", "pass", method));
    }
    assert!(method_allows_unauthenticated("OPTIONS"));
}

#[test]
fn tokens_need_exactly_two_words() {
    assert_eq!(parse_basic_token("Basic abc"), Some("abc".to_string()));
    assert_eq!(parse_basic_token("  BASIC \t abc  "), Some("abc".to_string()));
    assert_eq!(parse_basic_token("Basic\u{a0}abc"), Some("abc".to_string()));
    assert_eq!(parse_basic_token("Basic"), None);
    assert_eq!(parse_basic_token(""), None);
    assert_eq!(parse_basic_token("Basic abc def"), None);
    assert_eq!(parse_basic_token("Basi abc"), None);
}

#[test]
fn credentials_need_utf8_and_a_colon() {
    assert_eq!(split_credentials(b"user:pa:ss".to_vec()), pair("user", "pa:ss"));
    assert_eq!(split_credentials(b":".to_vec()), pair("", ""));
    assert_eq!(split_credentials(b"user".to_vec()), None);
    assert_eq!(split_credentials(vec![0xff, b':', b'a']), None);
    assert_eq!(parse_basic_credentials("Basic /zph"), None);
    assert_eq!(split_credentials("jos\u{e9}:\u{1f511}".as_bytes().to_vec()), pair("jos\u{e9}", "\u{1f511}"));
}

#[test]
fn credentials_are_read_from_the_first_header() {
    let mut headers = with_authorization("Basic dXNlcjpwYXNz");
    headers.append(AUTHORIZATION, "Basic b3RoZXI6cGFzcw==".parse().unwrap());
    assert_eq!(extract_basic_auth(&headers), pair("user", "pass"));
    assert_eq!(extract_basic_auth(&HeaderMap::new()), None);
}

#[test]
fn headers_that_are_not_text_carry_no_credentials() {
    let mut headers = HeaderMap::new();
    headers.insert(AUTHORIZATION, HeaderValue::from_bytes(b"Basic dXNlcjpwYXNz\xff").unwrap());
    assert_eq!(extract_basic_auth(&headers), None);
    assert!(!is_authorized(&headers, "user", "pass", "GET"));
}

#[test]
fn header_text_is_visible_ascii() {
    assert_eq!(header_text(&b"a b\tc~".to_vec()), Some("a b\tc~".to_string()));
    assert_eq!(header_text(&Vec::new()), Some(String::new()));
    assert_eq!(header_text(&vec![127]), None);
    assert_eq!(header_text(&vec![10]), None);
    assert_eq!(header_text(&vec![200]), None);
}

#[test]
fn credentials_match_both_parts() {
    assert!(credentials_match(&pair("user", "pass"), "user", "pass"));
    assert!(!credentials_match(&pair("user", "pass"), "user", "Pass"));
    assert!(!credentials_match(&pair("user", "pass"), "use", "pass"));
    assert!(!credentials_match(&None, "", ""));
}

#[test]
fn refusal_headers_are_found_in_any_case() {
    let response = build_unauthorized_response("GET");
    assert_eq!(response.headers.len(), 2);
    assert_eq!(response.header("content-length"), Some("0"));
    assert_eq!(response.header("Allow"), None);
    assert_eq!(build_unauthorized_response("OPTIONS").headers.len(), 5);
}
