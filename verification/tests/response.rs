use rust_http_server::decimal::usize_to_string;
use rust_http_server::http_server::build_response;
use rust_http_server::http_server::candidate_file_path;
use rust_http_server::http_server::get_response;
use rust_http_server::http_server::is_sleep_route;
use rust_http_server::http_server::route_path;

#[test]
fn root_routes_to_the_index_page() {
    assert_eq!(route_path("/"), "/index.html");
    assert_eq!(route_path("/about.html"), "/about.html");
    assert_eq!(route_path("/sleep.html"), "/sleep.html");
}

#[test]
fn sleep_route_is_recognized() {
    assert!(is_sleep_route("/sleep.html"));
    assert!(!is_sleep_route("/"));
    assert!(!is_sleep_route("/index.html"));
}

#[test]
fn candidate_path_joins_root_and_routed_path() {
    assert_eq!(candidate_file_path("./public", "/"), "./public/index.html");
    assert_eq!(candidate_file_path("./public", "/a.html"), "./public/a.html");
}

#[test]
fn get_of_an_existing_file_is_served_ok() {
    let (status, path) = get_response("GET / HTTP/1.1\r\n", "./public", true).unwrap();
    assert_eq!(status, "HTTP/1.1 200 OK");
    assert_eq!(path, "./public/index.html");
}

#[test]
fn a_missing_file_is_answered_with_the_404_page() {
    let (status, path) = get_response("GET /nope.html HTTP/1.1\r\n", "./public", false).unwrap();
    assert_eq!(status, "HTTP/1.1 404 NOT FOUND");
    assert_eq!(path, "./public/404.html");
}

#[test]
fn a_non_get_method_is_answered_404_even_for_an_existing_file() {
    let (status, path) = get_response("POST /test.html HTTP/1.1\r\n", "./public", true).unwrap();
    assert_eq!(status, "HTTP/1.1 404 NOT FOUND");
    assert_eq!(path, "./public/404.html");
}

#[test]
fn an_unparsable_request_yields_no_response() {
    assert!(get_response("GET\r\n", "./public", true).is_none());
}

#[test]
fn response_carries_the_status_the_length_and_the_body() {
    let body = "<html>hi</html>";
    let resp = build_response("HTTP/1.1 200 OK", body);
    assert_eq!(resp, "HTTP/1.1 200 OK\r\nContent-Length: 15\r\n\r\n<html>hi</html>");
}

#[test]
fn declared_content_length_matches_the_body_byte_for_byte() {
    for body in ["", "x", "hello world", "<p>404</p>\n"] {
        let resp = build_response("HTTP/1.1 200 OK", body);
        let head_and_body: Vec<&str> = resp.splitn(2, "\r\n\r\n").collect();
        assert_eq!(head_and_body[1].as_bytes(), body.as_bytes());
        let declared = head_and_body[0]
            .split("Content-Length: ")
            .nth(1)
            .unwrap()
            .parse::<usize>()
            .unwrap();
        assert_eq!(declared, body.as_bytes().len());
    }
}

#[test]
fn numbers_print_in_plain_decimal() {
    assert_eq!(usize_to_string(0), "0");
    assert_eq!(usize_to_string(7), "7");
    assert_eq!(usize_to_string(42), "42");
    assert_eq!(usize_to_string(1024), "1024");
    assert_eq!(usize_to_string(65535), "65535");
}
