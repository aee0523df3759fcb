use codex_a2a::http::{
    body_start, chunk, chunked_headers, content_length, final_chunk, find_header_end, head_error,
    json_response, parse_head, read_head, receive_body, receive_head, status_text, HeadStep,
};
use codex_a2a::json::Json;

fn header<'a>(head: &'a codex_a2a::http::Head, name: &str) -> Option<&'a str> {
    head.headers.get(name).map(|v| v.as_str())
}

#[test]
fn the_head_ends_at_the_empty_line() {
    assert_eq!(find_header_end(&b"GET / HTTP/1.1\r\n\r\nbody".to_vec()), Some(14));
    assert_eq!(find_header_end(&b"GET / HTTP/1.1\r\n".to_vec()), None);
    assert_eq!(find_header_end(&Vec::new()), None);
    assert_eq!(find_header_end(&b"\r\n\r\n\r\n\r\n".to_vec()), Some(0));
}

#[test]
fn the_head_is_read_chunk_by_chunk() {
    let mut buffer = Vec::new();
    assert!(matches!(receive_head(&mut buffer, b"GET / HT", 100), HeadStep::More));
    assert!(matches!(
        receive_head(&mut buffer, b"TP/1.1\r\n\r\nx", 100),
        HeadStep::Complete(14)
    ));
    assert_eq!(buffer, b"GET / HTTP/1.1\r\n\r\nx".to_vec());
}

#[test]
fn a_head_that_does_not_come_is_an_error() {
    let mut buffer = Vec::new();
    let closed = receive_head(&mut buffer, b"", 100);
    assert_eq!(head_error(&closed), Some("connection closed before headers"));
    let mut buffer = Vec::new();
    let long = receive_head(&mut buffer, b"0123456789", 9);
    assert_eq!(head_error(&long), Some("request headers too large"));
    let mut buffer = Vec::new();
    let fits = receive_head(&mut buffer, b"0123456789", 10);
    assert_eq!(head_error(&fits), None);
}

#[test]
fn the_head_names_method_path_and_headers() {
    let head = parse_head(
        "POST  /a2a/jsonrpc?x=1 HTTP/1.1\r\nContent-Length:  12 \r\nAUTHORIZATION: Bearer a:b\r\nno colon\r\nX: 1\r\nx: 2",
    );
    assert_eq!(head.method, "POST");
    assert_eq!(head.path, "/a2a/jsonrpc");
    assert_eq!(header(&head, "content-length"), Some("12"));
    assert_eq!(header(&head, "authorization"), Some("Bearer a:b"));
    assert_eq!(header(&head, "x"), Some("2"));
    assert_eq!(header(&head, "no colon"), None);
    assert_eq!(content_length(&head.headers), 12);
}

#[test]
fn a_head_without_words_is_empty() {
    let head = parse_head("");
    assert_eq!(head.method, "");
    assert_eq!(head.path, "");
    assert_eq!(content_length(&head.headers), 0);
    let head = parse_head("GET / HTTP/1.1\r\nContent-Length: many");
    assert_eq!(content_length(&head.headers), 0);
}

#[test]
fn a_head_that_is_no_text_is_read_with_replacements() {
    let buffer = b"GET /\xff HTTP/1.1\r\n\r\n".to_vec();
    let head = read_head(&buffer, 15);
    assert_eq!(head.path, "/\u{fffd}");
}

#[test]
fn the_body_does_not_depend_on_the_chunks() {
    let (whole, done) = body_start(&b"H\r\n\r\nabcdef".to_vec(), 1, 4);
    assert!(done);
    assert_eq!(whole, b"abcd".to_vec());
    let (mut parts, done) = body_start(&b"H\r\n\r\n".to_vec(), 1, 4);
    assert!(!done);
    assert!(!receive_body(&mut parts, b"ab", 4));
    assert_eq!(parts, b"ab".to_vec());
    assert!(receive_body(&mut parts, b"cdef", 4));
    assert_eq!(parts, whole);
    let (mut short, done) = body_start(&b"H\r\n\r\nab".to_vec(), 1, 4);
    assert!(!done);
    assert!(receive_body(&mut short, b"", 4));
    assert_eq!(short, b"ab".to_vec());
    let (none, done) = body_start(&b"H\r\n\r\nab".to_vec(), 1, 0);
    assert!(done && none.is_empty());
}

#[test]
fn a_response_says_its_status_and_length() {
    let payload = Json::object().with("error", Json::text("not found"));
    let bytes = json_response(404, &payload);
    assert_eq!(
        String::from_utf8(bytes).expect("text"),
        "HTTP/1.1 404 Not Found\r\nContent-Type: application/json; charset=utf-8\r\nContent-Length: 21\r\nConnection: close\r\n\r\n{\"error\":\"not found\"}"
    );
}

#[test]
fn statuses_have_words() {
    assert_eq!(status_text(200), "OK");
    assert_eq!(status_text(400), "Bad Request");
    assert_eq!(status_text(401), "Unauthorized");
    assert_eq!(status_text(403), "Forbidden");
    assert_eq!(status_text(404), "Not Found");
    assert_eq!(status_text(413), "Payload Too Large");
    assert_eq!(status_text(500), "OK");
}

#[test]
fn chunks_say_their_length_in_hexadecimal() {
    assert_eq!(
        String::from_utf8(chunked_headers()).expect("text"),
        "HTTP/1.1 200 OK\r\nContent-Type: application/x-ndjson; charset=utf-8\r\nTransfer-Encoding: chunked\r\nConnection: close\r\n\r\n"
    );
    assert_eq!(
        String::from_utf8(chunk(&Json::text("abcdefghijklmn"))).expect("text"),
        "11\r\n\"abcdefghijklmn\"\n\r\n"
    );
    assert_eq!(final_chunk(), b"0\r\n\r\n".to_vec());
}
