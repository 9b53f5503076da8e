use rust_http_server::http_server::parse_http_info;
use rust_http_server::text::first_line;
use rust_http_server::text::occurs_str;
use rust_http_server::text::rfind_str;

#[test]
fn should_be_parse_http_method() {
    let http_req_str = String::from("GET / HTTP/1.1\r\n");
    let (http_method, _, _) = parse_http_info(&http_req_str).unwrap();
    assert_eq!(http_method, "GET");

    let http_req_str = String::from("POST / HTTP/1.1\r\n");
    let (http_method, _, _) = parse_http_info(&http_req_str).unwrap();
    assert_eq!(http_method, "POST");

    let http_req_str = String::from("DELETE / HTTP/1.1\r\n");
    let (http_method, _, _) = parse_http_info(&http_req_str).unwrap();
    assert_eq!(http_method, "DELETE");
}

#[test]
fn should_be_parse_http_version() {
    let http_req_str = String::from("GET / HTTP/1.1\r\n");
    let (_, _, http_version) = parse_http_info(&http_req_str).unwrap();
    assert_eq!(http_version, "HTTP/1.1");

    let http_req_str = String::from("POST / HTTP/2\r\n");
    let (_, _, http_version) = parse_http_info(&http_req_str).unwrap();
    assert_eq!(http_version, "HTTP/2");

    let http_req_str = String::from("POST / HTTP/2.0\r\n");
    let (_, _, http_version) = parse_http_info(&http_req_str).unwrap();
    assert_eq!(http_version, "HTTP/2.0");
}

#[test]
fn should_be_parse_request_path() {
    let http_req_str = String::from("GET / HTTP/1.1\r\n");
    let (_, request_path, _) = parse_http_info(&http_req_str).unwrap();
    assert_eq!(request_path, "/");

    let http_req_str = String::from("GET /test.html HTTP/1.1\r\n");
    let (_, request_path, _) = parse_http_info(&http_req_str).unwrap();
    assert_eq!(request_path, "/test.html");

    let http_req_str = String::from("GET /test.html?id=1 HTTP/1.1\r\n");
    let (_, request_path, _) = parse_http_info(&http_req_str).unwrap();
    assert_eq!(request_path, "/test.html?id=1");
}

#[test]
fn parses_all_three_parts_of_a_simple_request() {
    let (m, p, v) = parse_http_info("GET / HTTP/1.1\r\n").unwrap();
    assert_eq!(m, "GET");
    assert_eq!(p, "/");
    assert_eq!(v, "HTTP/1.1");
}

#[test]
fn parses_a_post_with_a_query_string() {
    let (m, p, v) = parse_http_info("POST /test.html?id=1 HTTP/1.1\r\n").unwrap();
    assert_eq!(m, "POST");
    assert_eq!(p, "/test.html?id=1");
    assert_eq!(v, "HTTP/1.1");
}

#[test]
fn parses_only_the_first_line() {
    let req = "GET /a.html HTTP/1.1\r\nHost: localhost\r\n\r\n";
    let (m, p, v) = parse_http_info(req).unwrap();
    assert_eq!(m, "GET");
    assert_eq!(p, "/a.html");
    assert_eq!(v, "HTTP/1.1");
}

#[test]
fn method_scan_takes_the_last_listed_token_found() {
    // The deliberate last-token-wins policy: a token inside the path wins
    // over the leading method when it stands later in the fixed list.
    let (m, _, _) = parse_http_info("GET /POST.html HTTP/1.1\r\n").unwrap();
    assert_eq!(m, "POST");
}

#[test]
fn unrecognized_method_defaults_to_get() {
    let (m, p, _) = parse_http_info("BREW /pot HTTP/1.1\r\n").unwrap();
    assert_eq!(m, "GET");
    // The path slice starts right after the default method's
    // three-character width, one character into the unrecognized token's
    // room, so the separating space leaks into it.
    assert_eq!(p, " /pot");
}

#[test]
fn too_short_a_line_is_rejected_not_sliced() {
    assert!(parse_http_info("GET\r\n").is_none());
    assert!(parse_http_info("").is_none());
}

#[test]
fn first_line_strips_the_line_ending() {
    assert_eq!(first_line("GET / HTTP/1.1\r\nHost: x\r\n"), "GET / HTTP/1.1");
    assert_eq!(first_line("no newline at all"), "no newline at all");
    assert_eq!(first_line("unix line\nrest"), "unix line");
}

#[test]
fn occurs_str_finds_substrings() {
    assert!(occurs_str("GET / HTTP/1.1", "HTTP/"));
    assert!(occurs_str("GET / HTTP/1.1", "GET"));
    assert!(!occurs_str("GET / HTTP/1.1", "POST"));
    assert!(occurs_str("abc", ""));
}

#[test]
fn rfind_str_reports_the_last_occurrence() {
    assert_eq!(rfind_str("HTTP/ and HTTP/1.1", "HTTP/"), Some(10));
    assert_eq!(rfind_str("GET / HTTP/1.1", "HTTP/"), Some(6));
    assert_eq!(rfind_str("GET /", "HTTP/"), None);
}
