//! Planning one HTTP/2 stream: server push, then the primary response.
//!
//! A connection hosts many streams; each stream carries one request.  For a
//! request to the site root, the stream first pushes every resource in the
//! site's configured push list, in listed order — each push is promised,
//! answered with status 200 and the resource's own content type, and its
//! bytes are read from the serving document root — and only then is the
//! primary response sent.  [`plan_stream`] fixes the serving root — by the
//! request's authority when the port is virtually shared — and lays out the
//! pushes and the primary target in that order; the caller performs the
//! reads and frame writes, and [`respond_stream`] supplies the primary
//! response's status, content type and body.

use vstd::prelude::*;
use vstd::string::StringSliceAdditionalSpecFns;

use crate::loader::{load_outcome, spec_load, spec_status_code, status_code};
use crate::media::{content_type_for, html_type, is_html_type, spec_content_type};
use crate::paths::{opt_bytes, requested_target, spec_join, SEPARATOR};
use crate::registry::{select_document_root, selected_root_ok, selection_fails, VirtualHostMap};
use crate::text::{copy_bytes, str_bytes, utf8_bytes};

verus! {

/// One planned server push: the promised path, its content type, and the
/// filesystem target whose bytes are sent.
pub struct PushPlan {
    pub path: Vec<u8>,
    pub content_type: Vec<u8>,
    pub target: Vec<u8>,
}

/// One planned stream: the serving root, the pushes in the order they must
/// complete, and the primary request's joined target.
pub struct StreamPlan {
    pub root: Vec<u8>,
    pub pushes: Vec<PushPlan>,
    pub target: Vec<u8>,
}

/// Push `p` serves `file` from `root`: it promises `/file`, carries the
/// file's own content type, and sends the bytes of `root/file`.
pub open spec fn push_plan_ok(p: PushPlan, root: Seq<u8>, file: Seq<u8>) -> bool {
    &&& p.path@ == "/".spec_bytes() + file
    &&& p.content_type@ == spec_content_type(file)
    &&& p.target@ == root + "/".spec_bytes() + file
}

/// Plans one stream.  The pushes exist only for a request to the bare root,
/// one per configured push resource, in the configured order, each promised
/// and completed before the primary response; the primary target joins the
/// requested path onto the serving root.  Nothing is planned — and the
/// stream is dropped — when a shared port's request names no known
/// authority.
pub fn plan_stream(
    path: &[u8],
    authority: Option<Vec<u8>>,
    shared: bool,
    own_root: &str,
    vhost: &VirtualHostMap,
    push_files: &Vec<String>,
) -> (r: Option<StreamPlan>)
    ensures
        match r {
            Some(plan) => {
                &&& selected_root_ok(
                    shared,
                    utf8_bytes(own_root@),
                    vhost.entries@,
                    opt_bytes(authority),
                    plan.root@,
                )
                &&& plan.target@ == spec_join(plan.root@, path@)
                &&& (path@ == "/".spec_bytes() ==> {
                    &&& plan.pushes@.len() == push_files@.len()
                    &&& forall|k: int|
                        0 <= k < plan.pushes@.len() ==> push_plan_ok(
                            #[trigger] plan.pushes@[k],
                            plan.root@,
                            utf8_bytes(push_files@[k]@),
                        )
                })
                &&& (path@ != "/".spec_bytes() ==> plan.pushes@.len() == 0)
            },
            None => selection_fails(shared, vhost.entries@, opt_bytes(authority)),
        },
{
    let root = match select_document_root(shared, own_root, vhost, authority) {
        Some(root) => root,
        None => {
            return None;
        },
    };
    let target = requested_target(root.as_slice(), path);
    let mut pushes: Vec<PushPlan> = Vec::new();
    if crate::text::bytes_eq(path, "/".as_bytes()) {
        let mut i: usize = 0;
        while i < push_files.len()
            invariant
                i <= push_files@.len(),
                pushes@.len() == i,
                forall|k: int|
                    0 <= k < i ==> push_plan_ok(
                        #[trigger] pushes@[k],
                        root@,
                        utf8_bytes(push_files@[k]@),
                    ),
            decreases push_files@.len() - i,
        {
            let file = str_bytes(push_files[i].as_str());
            let mut ppath = str_bytes("/");
            let mut file_for_path = copy_bytes(&file);
            ppath.append(&mut file_for_path);
            let content_type = content_type_for(file.as_slice());
            let mut ptarget = copy_bytes(&root);
            let mut sep = str_bytes("/");
            ptarget.append(&mut sep);
            let mut file_for_target = copy_bytes(&file);
            ptarget.append(&mut file_for_target);
            pushes.push(PushPlan { path: ppath, content_type, target: ptarget });
            i += 1;
        }
    }
    Some(StreamPlan { root, pushes, target })
}

/// The primary response of one stream: status code, content type and body.
pub struct StreamReply {
    pub status: u16,
    pub content_type: Vec<u8>,
    pub body: Vec<u8>,
}

/// Builds the primary response for a resolved path and the outcome of
/// reading it, mirroring the HTTP/1.1 policy: content type from the resolved
/// path's extension, 404 with the error page or an empty body on a failed
/// read.  The HTTP/2 layer outside this crate frames these fields, together
/// with the fixed `Server` header, into the stream's response.
pub fn respond_stream(resolved: &[u8], read: Option<Vec<u8>>, error_page: Vec<u8>) -> (r:
    StreamReply)
    ensures
        ({
            let ct = spec_content_type(resolved@);
            let out = spec_load(opt_bytes(read), ct == html_type(), error_page@);
            &&& r.status == spec_status_code(out.0)
            &&& r.content_type@ == ct
            &&& r.body@ == out.1
        }),
{
    let content_type = content_type_for(resolved);
    let html = is_html_type(content_type.as_slice());
    let (status, body) = load_outcome(read, html, error_page);
    StreamReply { status: status_code(status), content_type, body }
}

} // verus!
