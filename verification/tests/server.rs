use tinyhttp::parse::{normalize_body, parse_request, user_agent, Method};
use tinyhttp::route::{file_path, handle, handle_bytes, read_outcome, write_outcome, Action};
use tinyhttp::status::HTTPStatus;

fn respond_of(a: Action) -> HTTPStatus {
    match a {
        Action::Respond(st) => st,
        other => panic!("expected a direct response, got {:?}", other),
    }
}

fn okay_of(st: HTTPStatus) -> (String, String) {
    match st {
        HTTPStatus::Okay(body, content_type) => (body, content_type),
        other => panic!("expected a 200 response, got {:?}", other),
    }
}

#[test]
fn root_exact_bytes() {
    let a = handle("GET / HTTP/1.1\r\nHost: localhost:4221\r\n\r\n", false);
    let st = respond_of(a);
    assert_eq!(
        st.to_string(),
        "HTTP/1.1 200 OK\r\nContent-Type: text/plain\r\nContent-Length: 13\r\n\r\nHello, world!"
    );
}

#[test]
fn echo_suffix() {
    let a = handle("GET /echo/abc HTTP/1.1\r\nHost: x\r\n\r\n", false);
    let (body, content_type) = okay_of(respond_of(a));
    assert_eq!(body, "abc");
    assert_eq!(content_type, "text/plain");
}

#[test]
fn echo_empty_suffix_is_valid() {
    let a = handle("GET /echo/ HTTP/1.1\r\n\r\n", false);
    let (body, content_type) = okay_of(respond_of(a));
    assert_eq!(body, "");
    assert_eq!(content_type, "text/plain");
}

#[test]
fn echo_content_length_counts_bytes() {
    let a = handle("GET /echo/héllo HTTP/1.1\r\n\r\n", false);
    let st = respond_of(a);
    let text = st.to_string();
    assert!(text.contains("Content-Length: 6\r\n"), "got {:?}", text);
    assert!(text.ends_with("\r\n\r\nhéllo"));
}

#[test]
fn user_agent_header_echoed() {
    let a = handle(
        "GET /user-agent HTTP/1.1\r\nHost: x\r\nUser-Agent: test-client/1.0\r\n\r\n",
        false,
    );
    let (body, content_type) = okay_of(respond_of(a));
    assert_eq!(body, "test-client/1.0");
    assert_eq!(content_type, "text/plain");
}

#[test]
fn user_agent_absent_is_unknown() {
    let a = handle("GET /user-agent HTTP/1.1\r\nHost: x\r\n\r\n", false);
    let (body, _) = okay_of(respond_of(a));
    assert_eq!(body, "Unknown");
}

#[test]
fn user_agent_name_is_case_sensitive() {
    let a = handle("GET /user-agent HTTP/1.1\r\nuser-agent: lower\r\n\r\n", false);
    let (body, _) = okay_of(respond_of(a));
    assert_eq!(body, "Unknown");
}

#[test]
fn user_agent_value_keeps_later_separators() {
    let r = parse_request("GET /user-agent HTTP/1.1\r\nUser-Agent: a: b\r\n\r\n");
    assert_eq!(user_agent(&r), "a: b");
}

#[test]
fn user_agent_first_match_wins() {
    let r = parse_request("GET / HTTP/1.1\r\nUser-Agent: one\r\nUser-Agent: two\r\n\r\n");
    assert_eq!(user_agent(&r), "one");
}

#[test]
fn files_round_trip_normalized() {
    let post = handle(
        "POST /files/note.txt HTTP/1.1\r\nHost: x\r\n\r\n  hello \r\nworld  ",
        true,
    );
    let (name, content) = match post {
        Action::WriteFile(name, content) => (name, content),
        other => panic!("expected a file write, got {:?}", other),
    };
    assert_eq!(name, "note.txt");
    assert_eq!(content, "hello\nworld");
    assert!(matches!(write_outcome(true), HTTPStatus::Created));

    let get = handle("GET /files/note.txt HTTP/1.1\r\nHost: x\r\n\r\n", true);
    match get {
        Action::ReadFile(read_name) => assert_eq!(read_name, "note.txt"),
        other => panic!("expected a file read, got {:?}", other),
    }
    let (body, content_type) = okay_of(read_outcome(Some(content.clone())));
    assert_eq!(body, content);
    assert_eq!(content_type, "application/octet-stream");
}

#[test]
fn files_read_failure_is_not_found() {
    let st = read_outcome(None);
    assert!(matches!(st, HTTPStatus::NotFound));
    assert_eq!(
        st.to_string(),
        "HTTP/1.1 404 NOT FOUND\r\nContent-Type: text/plain\r\nContent-Length: 0\r\n\r\n"
    );
}

#[test]
fn files_write_failure_is_not_found() {
    assert!(matches!(write_outcome(false), HTTPStatus::NotFound));
}

#[test]
fn files_without_directory_is_not_found() {
    let a = handle("GET /files/missing.txt HTTP/1.1\r\n\r\n", false);
    assert!(matches!(respond_of(a), HTTPStatus::NotFound));
    let b = handle("POST /files/missing.txt HTTP/1.1\r\n\r\nbody", false);
    assert!(matches!(respond_of(b), HTTPStatus::NotFound));
}

#[test]
fn files_empty_name_still_matches_prefix() {
    let a = handle("GET /files/ HTTP/1.1\r\n\r\n", true);
    match a {
        Action::ReadFile(name) => assert_eq!(name, ""),
        other => panic!("expected a file read, got {:?}", other),
    }
}

#[test]
fn unmatched_paths_are_not_found() {
    for request in [
        "GET /nope HTTP/1.1\r\n\r\n",
        "GET /index.html HTTP/1.1\r\n\r\n",
        "GET /echo HTTP/1.1\r\n\r\n",
        "GET /files HTTP/1.1\r\n\r\n",
        "DELETE /user-agents HTTP/1.1\r\n\r\n",
        "GET\r\n\r\n",
        "",
        "\r\n\r\n",
    ] {
        let a = handle(request, true);
        assert!(
            matches!(respond_of(a), HTTPStatus::NotFound),
            "request {:?} should be not found",
            request
        );
    }
}

#[test]
fn created_exact_bytes() {
    assert_eq!(
        HTTPStatus::Created.to_string(),
        "HTTP/1.1 201 CREATED\r\nContent-Type: text/plain\r\nContent-Length: 0\r\n\r\n"
    );
}

#[test]
fn content_type_per_status() {
    assert_eq!(HTTPStatus::NotFound.content_type(), "text/plain");
    assert_eq!(HTTPStatus::Created.content_type(), "text/plain");
    let st = HTTPStatus::Okay("x".to_owned(), "application/octet-stream".to_owned());
    assert_eq!(st.content_type(), "application/octet-stream");
}

#[test]
fn content_length_large_body() {
    let body = "a".repeat(1234);
    let st = HTTPStatus::Okay(body.clone(), "text/plain".to_owned());
    let text = st.to_string();
    assert!(text.contains("Content-Length: 1234\r\n"));
    assert!(text.ends_with(&body));
}

#[test]
fn parse_fields() {
    let r = parse_request("POST /files/a.txt HTTP/1.1\r\nHost: h\r\nUser-Agent: ua\r\n\r\nbody");
    assert_eq!(r.method, Method::Post);
    assert_eq!(r.path.as_deref(), Some("/files/a.txt"));
    assert_eq!(r.headers.len(), 2);
    assert_eq!(r.headers[0].name, "Host");
    assert_eq!(r.headers[0].value, "h");
    assert_eq!(r.headers[1].name, "User-Agent");
    assert_eq!(r.headers[1].value, "ua");
    assert_eq!(r.body, "body");
}

#[test]
fn parse_missing_path() {
    assert!(parse_request("GET").path.is_none());
    assert!(parse_request("").path.is_none());
    assert!(parse_request("   \r\n\r\n").path.is_none());
}

#[test]
fn parse_method_tokens() {
    assert_eq!(parse_request("GET / HTTP/1.1\r\n\r\n").method, Method::Get);
    assert_eq!(parse_request("POST / HTTP/1.1\r\n\r\n").method, Method::Post);
    assert_eq!(parse_request("PUT / HTTP/1.1\r\n\r\n").method, Method::Other);
    assert_eq!(parse_request("get / HTTP/1.1\r\n\r\n").method, Method::Other);
}

#[test]
fn parse_header_without_separator_is_skipped() {
    let r = parse_request("GET / HTTP/1.1\r\nUser-Agent\r\nHost: h\r\n\r\n");
    assert_eq!(r.headers.len(), 1);
    assert_eq!(r.headers[0].name, "Host");
    assert_eq!(user_agent(&r), "Unknown");
}

#[test]
fn parse_body_is_after_first_blank_line() {
    let r = parse_request("POST /files/x HTTP/1.1\r\nHost: h\r\n\r\nfirst\r\n\r\nsecond");
    assert_eq!(r.body, "first\r\n\r\nsecond");
}

#[test]
fn normalize_trims_and_rejoins() {
    assert_eq!(normalize_body("  a \r\n\tb\r\nc  "), "a\nb\nc");
    assert_eq!(normalize_body(""), "");
    assert_eq!(normalize_body("one"), "one");
    assert_eq!(normalize_body("a\r\n\r\nb"), "a\n\nb");
    assert_eq!(normalize_body("plain\nnewlines kept"), "plain\nnewlines kept");
}

#[test]
fn lossy_bytes_are_replaced() {
    let a = handle_bytes(b"GET /echo/a\xffb HTTP/1.1\r\n\r\n", false);
    let (body, _) = okay_of(respond_of(a));
    assert_eq!(body, "a\u{fffd}b");
}

#[test]
fn handle_bytes_matches_handle_on_valid_utf8() {
    let a = handle_bytes(b"GET /echo/same HTTP/1.1\r\n\r\n", false);
    let (body, _) = okay_of(respond_of(a));
    assert_eq!(body, "same");
}

#[test]
fn file_path_joins_with_slash() {
    assert_eq!(file_path("/tmp/base", "note.txt"), "/tmp/base/note.txt");
    assert_eq!(file_path("dir", ""), "dir/");
}
