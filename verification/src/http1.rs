//! Planning the single exchange of one HTTP/1.1 connection.
//!
//! A connection lives for exactly one request: the caller reads one buffer,
//! [`plan_request`] parses it and selects the document root — by the `Host`
//! header when the port is virtually shared — and joins the requested path
//! onto it.  The caller canonicalizes the joined target, resolves it with
//! [`crate::paths::resolve_canonical`], attempts the read, and [`respond`]
//! turns the outcome into the exact head and body bytes to write before the
//! connection closes.  A buffer that does not parse, or a shared port whose
//! request names no known host, drops the connection.

use vstd::prelude::*;

use crate::loader::{load_outcome, spec_load};
use crate::media::{content_type_for, html_type, is_html_type, spec_content_type};
use crate::paths::{opt_bytes, requested_target, spec_join};
use crate::registry::{select_document_root, selected_root_ok, selection_fails, VirtualHostMap};
use crate::request::{host_of, parse_request, spec_host_of, spec_parse_request};
use crate::response::{http1_head, spec_http1_head};
use crate::text::utf8_bytes;

verus! {

/// What one parsed request asks the filesystem for: the selected document
/// root and the joined target to canonicalize and resolve against it.
pub struct RequestPlan {
    pub root: Vec<u8>,
    pub target: Vec<u8>,
}

/// Parses one request buffer and plans its exchange; answers nothing — and
/// the connection is dropped — when the buffer does not parse or a shared
/// port's request names no known virtual host.
pub fn plan_request(buf: &[u8], shared: bool, own_root: &str, vhost: &VirtualHostMap) -> (r:
    Option<RequestPlan>)
    ensures
        match r {
            Some(plan) => {
                &&& spec_parse_request(buf@) is Some
                &&& selected_root_ok(
                    shared,
                    utf8_bytes(own_root@),
                    vhost.entries@,
                    spec_host_of(spec_parse_request(buf@)->Some_0.headers),
                    plan.root@,
                )
                &&& plan.target@ == spec_join(
                    plan.root@,
                    spec_parse_request(buf@)->Some_0.path,
                )
            },
            None => spec_parse_request(buf@) is None || selection_fails(
                shared,
                vhost.entries@,
                spec_host_of(spec_parse_request(buf@)->Some_0.headers),
            ),
        },
{
    let req = match parse_request(buf) {
        Some(req) => req,
        None => {
            return None;
        },
    };
    let host = host_of(&req.headers);
    let root = match select_document_root(shared, own_root, vhost, host) {
        Some(root) => root,
        None => {
            return None;
        },
    };
    let target = requested_target(root.as_slice(), req.path.as_slice());
    Some(RequestPlan { root, target })
}

/// The head and body of one HTTP/1.1 response.
pub struct Http1Reply {
    pub head: Vec<u8>,
    pub body: Vec<u8>,
}

/// Builds the exact response for a resolved path and the outcome of reading
/// it: the content type follows the resolved path's extension, a failed read
/// answers 404 — with `error_page` as the body for HTML and an empty body
/// otherwise — and the head carries status line, `Content-Type` and the
/// fixed `Server` header.
pub fn respond(resolved: &[u8], read: Option<Vec<u8>>, error_page: Vec<u8>) -> (r: Http1Reply)
    ensures
        ({
            let ct = spec_content_type(resolved@);
            let out = spec_load(opt_bytes(read), ct == html_type(), error_page@);
            r.head@ == spec_http1_head(out.0, ct) && r.body@ == out.1
        }),
{
    let ct = content_type_for(resolved);
    let html = is_html_type(ct.as_slice());
    let (status, body) = load_outcome(read, html, error_page);
    let head = http1_head(status, ct.as_slice());
    Http1Reply { head, body }
}

} // verus!
