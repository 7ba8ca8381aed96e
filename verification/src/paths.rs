//! Traversal-safe mapping from a requested URL path to a filesystem path.
//!
//! A request path is first normalized (the bare root stands for the index
//! page) and appended to the site's document root.  The caller canonicalizes
//! the joined path against the filesystem — resolving `.`, `..` and symbolic
//! links — and hands the outcome back; [`resolve_canonical`] then accepts the
//! candidate only when it stays within the canonicalized document root, and
//! answers the server-wide forbidden-fallback path otherwise, so resolution
//! always yields some path to load.

use vstd::prelude::*;
use vstd::slice::{slice_subrange, slice_to_vec};
use vstd::string::StringSliceAdditionalSpecFns;

use crate::text::{bytes_eq, str_bytes};

verus! {

/// The byte that separates path components.
pub const SEPARATOR: u8 = 47;

/// The server-wide forbidden-fallback resource, served in place of any path
/// that escapes its document root or cannot be resolved.
pub open spec fn forbidden_fallback() -> Seq<u8> {
    "/var/www/403.html".spec_bytes()
}

/// The fixed path of the forbidden-fallback resource.
pub fn forbidden_fallback_path() -> (r: Vec<u8>)
    ensures
        r@ == forbidden_fallback(),
{
    str_bytes("/var/www/403.html")
}

/// A request for the bare root stands for the index page; every other
/// request path is kept as it is.
pub open spec fn spec_normalize(p: Seq<u8>) -> Seq<u8> {
    if p == "/".spec_bytes() {
        "/index.html".spec_bytes()
    } else {
        p
    }
}

/// Normalizes a request path.
pub fn normalize_request_path(p: &[u8]) -> (r: Vec<u8>)
    ensures
        r@ == spec_normalize(p@),
{
    if bytes_eq(p, "/".as_bytes()) {
        str_bytes("/index.html")
    } else {
        slice_to_vec(p)
    }
}

/// The filesystem path a request asks for: the document root with the
/// normalized request path appended.
pub open spec fn spec_join(root: Seq<u8>, p: Seq<u8>) -> Seq<u8> {
    root + spec_normalize(p)
}

/// Joins the normalized request path onto the document root.
pub fn requested_target(root: &[u8], p: &[u8]) -> (r: Vec<u8>)
    ensures
        r@ == spec_join(root@, p@),
{
    let mut r = slice_to_vec(root);
    let mut n = normalize_request_path(p);
    r.append(&mut n);
    r
}

/// `candidate` equals the root or is a descendant of it: the root's bytes
/// followed by a path separator.
pub open spec fn spec_within_root(root: Seq<u8>, candidate: Seq<u8>) -> bool {
    candidate == root || (candidate.len() > root.len() && candidate.subrange(
        0,
        root.len() as int,
    ) == root && candidate[root.len() as int] == SEPARATOR)
}

/// Decides whether `candidate` stays within the document root.
pub fn within_root(root: &[u8], candidate: &[u8]) -> (r: bool)
    ensures
        r == spec_within_root(root@, candidate@),
{
    if candidate.len() == root.len() {
        bytes_eq(candidate, root)
    } else if candidate.len() > root.len() {
        if candidate[root.len()] != SEPARATOR {
            return false;
        }
        bytes_eq(slice_subrange(candidate, 0, root.len()), root)
    } else {
        false
    }
}

/// The byte sequence held by an optional byte vector.
pub open spec fn opt_bytes(o: Option<Vec<u8>>) -> Option<Seq<u8>> {
    match o {
        Some(v) => Some(v@),
        None => None,
    }
}

/// What resolution answers for a canonicalization outcome: the candidate when
/// it stays within the root, the forbidden fallback on escape or failure.
pub open spec fn spec_resolve(root: Seq<u8>, canonical: Option<Seq<u8>>) -> Seq<u8> {
    match canonical {
        Some(c) => if spec_within_root(root, c) {
            c
        } else {
            forbidden_fallback()
        },
        None => forbidden_fallback(),
    }
}

/// Accepts a canonicalized candidate only when it stays within the
/// canonicalized document root; a traversal attempt or a resolution failure
/// falls back to the server-wide forbidden resource, so the caller always
/// receives some path to attempt to load.
pub fn resolve_canonical(root: &[u8], canonical: Option<Vec<u8>>) -> (r: Vec<u8>)
    ensures
        r@ == spec_resolve(root@, opt_bytes(canonical)),
        spec_within_root(root@, r@) || r@ == forbidden_fallback(),
{
    match canonical {
        Some(c) => {
            if within_root(root, c.as_slice()) {
                c
            } else {
                forbidden_fallback_path()
            }
        },
        None => forbidden_fallback_path(),
    }
}

/// The bare root and the index page ask for the same filesystem target, so
/// canonicalization and [`spec_resolve`] — both functions of that target —
/// treat the two requests alike.
pub proof fn lemma_root_index_alias(root: Seq<u8>)
    ensures
        spec_join(root, "/".spec_bytes()) == spec_join(root, "/index.html".spec_bytes()),
{
}

} // verus!
