use lightron::loader::{load_outcome, status_code, Status};
use lightron::media::{content_type_for, is_html_type};
use lightron::response::{http1_head, server_header_value};

#[test]
fn content_type_follows_the_extension() {
    // These would all fail if the media-type lookup handed its argument
    // back unchanged.
    assert_eq!(content_type_for(b"/srv/a/style.css"), b"text/css".to_vec());
    assert_eq!(content_type_for(b"/srv/a/app.js"), b"text/javascript".to_vec());
    assert_eq!(content_type_for(b"/srv/a/logo.png"), b"image/png".to_vec());
    assert_eq!(content_type_for(b"/srv/a/index.html"), b"text/html".to_vec());
}

#[test]
fn unknown_or_missing_extensions_default_to_html() {
    assert_eq!(content_type_for(b"/srv/a/README"), b"text/html".to_vec());
    assert_eq!(content_type_for(b"/srv/a/archive.zzyy"), b"text/html".to_vec());
    assert_eq!(content_type_for(b"/srv/a/.hidden"), b"text/html".to_vec());
}

#[test]
fn html_detection_matches_the_exact_type() {
    assert!(is_html_type(b"text/html"));
    assert!(!is_html_type(b"text/css"));
    assert!(!is_html_type(b"text/htm"));
}

#[test]
fn read_bytes_are_served_as_they_are() {
    let (status, body) = load_outcome(Some(b"<h1>hi</h1>".to_vec()), true, b"gone".to_vec());
    assert_eq!(status, Status::Served);
    assert_eq!(status_code(status), 200);
    assert_eq!(body, b"<h1>hi</h1>".to_vec());
}

#[test]
fn missing_html_resource_serves_the_error_page() {
    let (status, body) = load_outcome(None, true, b"<h1>404</h1>".to_vec());
    assert_eq!(status, Status::NotFound);
    assert_eq!(status_code(status), 404);
    assert_eq!(body, b"<h1>404</h1>".to_vec());
}

#[test]
fn missing_non_html_resource_has_an_empty_body() {
    let (status, body) = load_outcome(None, false, b"<h1>404</h1>".to_vec());
    assert_eq!(status, Status::NotFound);
    assert_eq!(body, Vec::<u8>::new());
}

#[test]
fn served_head_is_exact() {
    let head = http1_head(Status::Served, b"text/css");
    assert_eq!(
        head,
        b"HTTP/1.1 200 OK\r\nContent-Type: text/css\r\nServer: Lightron/0.1.0\r\n\r\n".to_vec()
    );
}

#[test]
fn not_found_head_is_exact() {
    let head = http1_head(Status::NotFound, b"text/html");
    assert_eq!(
        head,
        b"HTTP/1.1 404 Not Found\r\nContent-Type: text/html\r\nServer: Lightron/0.1.0\r\n\r\n"
            .to_vec()
    );
}

#[test]
fn server_header_is_fixed() {
    assert_eq!(server_header_value(), b"Lightron/0.1.0".to_vec());
}
