use lightron::http1::{plan_request, respond};
use lightron::http2::{plan_stream, respond_stream};
use lightron::registry::{build_registry, VirtualHostMap};
use lightron::site::Website;

fn padded(req: &[u8]) -> Vec<u8> {
    let mut buf = req.to_vec();
    buf.resize(1024, 0);
    buf
}

fn empty_map() -> VirtualHostMap {
    VirtualHostMap { entries: Vec::new() }
}

fn shared_map() -> VirtualHostMap {
    let reg = build_registry(vec![
        Website {
            name: "a".to_string(),
            class: "HTTPS".to_string(),
            access: "Public".to_string(),
            resource: "/srv/a".to_string(),
            certificate: "/srv/a/cert.pem".to_string(),
            private_key: "/srv/a/key.pem".to_string(),
            port_no: 443,
            push_protocol_files: Vec::new(),
            log_level: "Info".to_string(),
        },
        Website {
            name: "b".to_string(),
            class: "HTTPS".to_string(),
            access: "Public".to_string(),
            resource: "/srv/b".to_string(),
            certificate: "/srv/b/cert.pem".to_string(),
            private_key: "/srv/b/key.pem".to_string(),
            port_no: 443,
            push_protocol_files: Vec::new(),
            log_level: "Info".to_string(),
        },
    ])
    .unwrap();
    reg.virtual_host_map(0)
}

#[test]
fn unshared_request_is_served_from_the_own_root() {
    let buf = padded(b"GET /page.html HTTP/1.1\r\nHost: any\r\n\r\n");
    let plan = plan_request(&buf, false, "/srv/site", &empty_map()).unwrap();
    assert_eq!(plan.root, b"/srv/site".to_vec());
    assert_eq!(plan.target, b"/srv/site/page.html".to_vec());
}

#[test]
fn bare_root_request_targets_the_index_page() {
    let buf = padded(b"GET / HTTP/1.1\r\nHost: any\r\n\r\n");
    let plan = plan_request(&buf, false, "/srv/site", &empty_map()).unwrap();
    assert_eq!(plan.target, b"/srv/site/index.html".to_vec());
}

#[test]
fn shared_request_follows_the_host_header() {
    let buf = padded(b"GET /x.css HTTP/1.1\r\nHost: b\r\n\r\n");
    let plan = plan_request(&buf, true, "/unused", &shared_map()).unwrap();
    assert_eq!(plan.root, b"/srv/b".to_vec());
    assert_eq!(plan.target, b"/srv/b/x.css".to_vec());
}

#[test]
fn shared_request_with_unknown_host_is_dropped() {
    let buf = padded(b"GET /x.css HTTP/1.1\r\nHost: nobody\r\n\r\n");
    assert!(plan_request(&buf, true, "/unused", &shared_map()).is_none());
}

#[test]
fn shared_request_without_host_is_dropped() {
    let buf = padded(b"GET /x.css HTTP/1.1\r\nAccept: */*\r\n\r\n");
    assert!(plan_request(&buf, true, "/unused", &shared_map()).is_none());
}

#[test]
fn malformed_buffer_is_dropped() {
    assert!(plan_request(b"noise", false, "/srv/site", &empty_map()).is_none());
}

#[test]
fn http1_missing_html_resource_gets_404_with_error_page() {
    let reply = respond(b"/srv/site/gone.html", None, b"<h1>404</h1>".to_vec());
    assert_eq!(
        reply.head,
        b"HTTP/1.1 404 Not Found\r\nContent-Type: text/html\r\nServer: Lightron/0.1.0\r\n\r\n"
            .to_vec()
    );
    assert_eq!(reply.body, b"<h1>404</h1>".to_vec());
}

#[test]
fn http1_missing_css_resource_gets_404_with_empty_body() {
    let reply = respond(b"/srv/site/gone.css", None, b"<h1>404</h1>".to_vec());
    assert_eq!(
        reply.head,
        b"HTTP/1.1 404 Not Found\r\nContent-Type: text/css\r\nServer: Lightron/0.1.0\r\n\r\n"
            .to_vec()
    );
    assert_eq!(reply.body, Vec::<u8>::new());
}

#[test]
fn http1_read_resource_is_served() {
    let reply = respond(b"/srv/site/index.html", Some(b"<p>hi</p>".to_vec()), Vec::new());
    assert_eq!(
        reply.head,
        b"HTTP/1.1 200 OK\r\nContent-Type: text/html\r\nServer: Lightron/0.1.0\r\n\r\n".to_vec()
    );
    assert_eq!(reply.body, b"<p>hi</p>".to_vec());
}

#[test]
fn root_stream_pushes_resources_in_listed_order() {
    // A root request on a push-configured site pushes style.css, then
    // app.js, and only then the primary response for the index page.
    let push_files = vec!["style.css".to_string(), "app.js".to_string()];
    let plan = plan_stream(b"/", None, false, "/srv/site", &empty_map(), &push_files).unwrap();
    assert_eq!(plan.root, b"/srv/site".to_vec());
    assert_eq!(plan.pushes.len(), 2);
    assert_eq!(plan.pushes[0].path, b"/style.css".to_vec());
    assert_eq!(plan.pushes[0].content_type, b"text/css".to_vec());
    assert_eq!(plan.pushes[0].target, b"/srv/site/style.css".to_vec());
    assert_eq!(plan.pushes[1].path, b"/app.js".to_vec());
    assert_eq!(plan.pushes[1].content_type, b"text/javascript".to_vec());
    assert_eq!(plan.pushes[1].target, b"/srv/site/app.js".to_vec());
    assert_eq!(plan.target, b"/srv/site/index.html".to_vec());
}

#[test]
fn non_root_stream_pushes_nothing() {
    let push_files = vec!["style.css".to_string()];
    let plan =
        plan_stream(b"/about.html", None, false, "/srv/site", &empty_map(), &push_files).unwrap();
    assert_eq!(plan.pushes.len(), 0);
    assert_eq!(plan.target, b"/srv/site/about.html".to_vec());
}

#[test]
fn shared_stream_follows_the_authority() {
    let plan = plan_stream(
        b"/x.html",
        Some(b"a".to_vec()),
        true,
        "/unused",
        &shared_map(),
        &Vec::new(),
    )
    .unwrap();
    assert_eq!(plan.root, b"/srv/a".to_vec());
}

#[test]
fn shared_stream_with_unknown_authority_is_dropped() {
    let plan = plan_stream(
        b"/x.html",
        Some(b"nobody".to_vec()),
        true,
        "/unused",
        &shared_map(),
        &Vec::new(),
    );
    assert!(plan.is_none());
}

#[test]
fn stream_reply_carries_status_content_type_and_body() {
    let served = respond_stream(b"/srv/a/app.js", Some(b"x=1".to_vec()), Vec::new());
    assert_eq!(served.status, 200);
    assert_eq!(served.content_type, b"text/javascript".to_vec());
    assert_eq!(served.body, b"x=1".to_vec());
    let missing = respond_stream(b"/srv/a/gone.html", None, b"nope".to_vec());
    assert_eq!(missing.status, 404);
    assert_eq!(missing.content_type, b"text/html".to_vec());
    assert_eq!(missing.body, b"nope".to_vec());
}
