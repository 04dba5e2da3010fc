use sdi_desktop::http::{
    find_double_crlf, get_request, parse_http, parse_http_body, post_request, HttpError,
};

#[test]
fn parse_http_extracts_status_and_body() {
    let raw = b"HTTP/1.1 200 OK\r\nContent-Type: text/plain\r\n\r\nhello";
    let resp = parse_http(raw).unwrap();
    assert_eq!(resp.status, 200);
    assert_eq!(resp.body, "hello");
}

#[test]
fn parse_http_rejects_malformed() {
    assert!(parse_http(b"not-http").is_err());
}

#[test]
fn parse_http_names_what_is_wrong() {
    assert_eq!(parse_http(b"not-http").unwrap_err(), HttpError::NoSplit);
    assert_eq!(parse_http(b"").unwrap_err(), HttpError::NoSplit);
    assert_eq!(parse_http(b"HTTP/1.1 200\r\n\r").unwrap_err(), HttpError::NoSplit);
    assert_eq!(parse_http(b"HTTP/1.1 \xff 200\r\n\r\n").unwrap_err(), HttpError::NonUtf8Headers);
    assert_eq!(parse_http(b"\r\n\r\nhello").unwrap_err(), HttpError::NoStatusLine);
    assert_eq!(parse_http(b"HTTP/1.1\r\n\r\n").unwrap_err(), HttpError::BadStatus);
    assert_eq!(parse_http(b"HTTP/1.1 OK 200\r\n\r\n").unwrap_err(), HttpError::BadStatus);
    assert_eq!(parse_http(b"HTTP/1.1 65536 OK\r\n\r\n").unwrap_err(), HttpError::BadStatus);
    assert_eq!(parse_http(b"HTTP/1.1\r\nX: 200\r\n\r\n").unwrap_err(), HttpError::BadStatus);
}

#[test]
fn http_errors_have_their_messages() {
    assert_eq!(HttpError::NoSplit.message(), "no header/body split");
    assert_eq!(HttpError::NonUtf8Headers.message(), "non-utf8 headers");
    assert_eq!(HttpError::NoStatusLine.message(), "no status line");
    assert_eq!(HttpError::BadStatus.message(), "bad status");
    assert_eq!(HttpError::Status(503).message(), "HTTP 503");
}

#[test]
fn response_without_headers_is_read() {
    let resp = parse_http(b"HTTP/1.1 204 No Content\r\n\r\n").unwrap();
    assert_eq!(resp.status, 204);
    assert_eq!(resp.body, "");
}

#[test]
fn body_starts_at_the_first_blank_line() {
    let resp = parse_http(b"HTTP/1.1 200 OK\r\nA: b\r\n\r\none\r\n\r\ntwo").unwrap();
    assert_eq!(resp.body, "one\r\n\r\ntwo");
}

#[test]
fn status_is_the_second_word_of_the_first_line() {
    assert_eq!(parse_http(b"HTTP/1.1\t 404  gone\nX: 200\r\n\r\n").unwrap().status, 404);
    assert_eq!(parse_http(b"x +007 y\r\n\r\n").unwrap().status, 7);
}

#[test]
fn invalid_bytes_in_a_body_are_replaced() {
    let resp = parse_http(b"HTTP/1.1 200 OK\r\n\r\na\xffb\xc3\xa9").unwrap();
    assert_eq!(resp.body, "a\u{FFFD}b\u{e9}");
}

#[test]
fn headers_may_hold_any_utf8() {
    let raw = "HTTP/1.1 200 OK\r\nX: gr\u{fc}n\r\n\r\n\u{1F534}".as_bytes();
    let resp = parse_http(raw).unwrap();
    assert_eq!(resp.status, 200);
    assert_eq!(resp.body, "\u{1F534}");
}

#[test]
fn refusals_have_no_body() {
    assert_eq!(parse_http_body(b"HTTP/1.1 399 x\r\n\r\nbody").unwrap(), "body");
    assert_eq!(
        parse_http_body(b"HTTP/1.1 400 Bad Request\r\n\r\nbody").unwrap_err(),
        HttpError::Status(400)
    );
    assert_eq!(
        parse_http_body(b"HTTP/1.1 404 Not Found\r\n\r\n").unwrap_err(),
        HttpError::Status(404)
    );
    assert_eq!(parse_http_body(b"\r\n\r\n").unwrap_err(), HttpError::BadStatus);
    assert_eq!(parse_http_body(b"HTTP/1.1 x\r\n\r\n").unwrap_err(), HttpError::BadStatus);
    assert_eq!(parse_http_body(b"\xff\r\n\r\n").unwrap_err(), HttpError::NonUtf8Headers);
    assert_eq!(parse_http_body(b"HTTP/1.1 200").unwrap_err(), HttpError::NoSplit);
}

#[test]
fn blank_line_is_found_where_it_first_stands() {
    assert_eq!(find_double_crlf(b""), None);
    assert_eq!(find_double_crlf(b"\r\n\r"), None);
    assert_eq!(find_double_crlf(b"\r\n\r\n"), Some(0));
    assert_eq!(find_double_crlf(b"a\r\r\n\r\n\r\n"), Some(2));
    assert_eq!(find_double_crlf(b"a\n\nb\r\n\nc"), None);
}

#[test]
fn get_is_written_with_its_path() {
    assert_eq!(
        get_request("/projects"),
        "GET /projects HTTP/1.1\r\nHost: localhost\r\nAccept: application/json\r\nConnection: close\r\n\r\n"
    );
}

#[test]
fn post_counts_the_bytes_of_its_body() {
    assert_eq!(
        post_request("/x", "{\"a\":\"\u{e9}\u{2014}\"}"),
        "POST /x HTTP/1.1\r\nHost: localhost\r\nContent-Type: application/json\r\nContent-Length: 13\r\nConnection: close\r\n\r\n{\"a\":\"\u{e9}\u{2014}\"}"
    );
    assert!(post_request("/x", "").contains("Content-Length: 0\r\n"));
}

#[test]
fn requests_are_framed_by_their_first_blank_line() {
    let body = "{\"a\":\"\u{e9}\r\n\r\n\"}";
    let request = post_request("/autonomy_policies/circuit_breaker", body);
    let at = find_double_crlf(request.as_bytes()).unwrap();
    assert_eq!(&request.as_bytes()[at + 4..], body.as_bytes());
    let request = get_request("/projects");
    assert_eq!(find_double_crlf(request.as_bytes()), Some(request.len() - 4));
}
