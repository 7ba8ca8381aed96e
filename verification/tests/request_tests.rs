use lightron::request::{host_of, parse_request};

fn padded(req: &[u8]) -> Vec<u8> {
    // The listener reads into a fixed zero-filled buffer in one read.
    let mut buf = req.to_vec();
    buf.resize(1024, 0);
    buf
}

#[test]
fn parses_request_line_and_headers() {
    let buf = padded(b"GET /index.html HTTP/1.1\r\nHost: a\r\nAccept: text/html\r\n\r\n");
    let req = parse_request(&buf).unwrap();
    assert_eq!(req.method, b"GET".to_vec());
    assert_eq!(req.path, b"/index.html".to_vec());
    assert_eq!(req.headers.len(), 2);
    assert_eq!(req.headers[0].name, b"Host".to_vec());
    assert_eq!(req.headers[0].value, b"a".to_vec());
    assert_eq!(req.headers[1].name, b"Accept".to_vec());
    assert_eq!(req.headers[1].value, b"text/html".to_vec());
}

#[test]
fn header_values_lose_leading_spaces() {
    let buf = padded(b"GET / HTTP/1.1\r\nHost:    example\r\n\r\n");
    let req = parse_request(&buf).unwrap();
    assert_eq!(req.headers[0].value, b"example".to_vec());
}

#[test]
fn host_header_is_found() {
    let buf = padded(b"GET / HTTP/1.1\r\nAccept: */*\r\nHost: b\r\n\r\n");
    let req = parse_request(&buf).unwrap();
    assert_eq!(host_of(&req.headers), Some(b"b".to_vec()));
}

#[test]
fn missing_host_header_answers_nothing() {
    let buf = padded(b"GET / HTTP/1.1\r\nAccept: */*\r\n\r\n");
    let req = parse_request(&buf).unwrap();
    assert_eq!(host_of(&req.headers), None);
}

#[test]
fn request_without_line_breaks_is_refused() {
    assert!(parse_request(b"GET / HTTP/1.1").is_none());
}

#[test]
fn request_line_with_one_space_is_refused() {
    let buf = padded(b"GET /index.html\r\n\r\n");
    assert!(parse_request(&buf).is_none());
}

#[test]
fn header_line_without_colon_is_refused() {
    let buf = padded(b"GET / HTTP/1.1\r\nbroken header\r\n\r\n");
    assert!(parse_request(&buf).is_none());
}

#[test]
fn unterminated_headers_are_refused() {
    assert!(parse_request(b"GET / HTTP/1.1\r\nHost: a\r\n").is_none());
}

#[test]
fn bytes_after_the_empty_line_are_ignored() {
    let buf = padded(b"GET / HTTP/1.1\r\nHost: a\r\n\r\ntrailing noise");
    let req = parse_request(&buf).unwrap();
    assert_eq!(req.path, b"/".to_vec());
    assert_eq!(req.headers.len(), 1);
}
