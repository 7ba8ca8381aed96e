//! Turning a file-read outcome into a response's status and body.
//!
//! The caller attempts to read the resolved path and hands the outcome in,
//! together with the bytes of the global error page.  Every failure is
//! converted into a response here: a missing resource answers 404, with the
//! error page as its body when the request expects HTML and an empty body
//! otherwise.

use vstd::prelude::*;

use crate::paths::opt_bytes;

verus! {

/// The status of a response: the resource was served, or it was not found.
#[derive(Clone, Copy, PartialEq, Eq, Structural, Debug)]
pub enum Status {
    Served,
    NotFound,
}

/// The numeric HTTP status code.
pub open spec fn spec_status_code(st: Status) -> int {
    match st {
        Status::Served => 200,
        Status::NotFound => 404,
    }
}

/// The numeric HTTP status code.
pub fn status_code(st: Status) -> (r: u16)
    ensures
        r == spec_status_code(st),
{
    match st {
        Status::Served => 200,
        Status::NotFound => 404,
    }
}

/// The status and body answering a read outcome: a read resource is served
/// as it is; a failed read answers 404 with the error page for HTML and an
/// empty body for anything else.
pub open spec fn spec_load(read: Option<Seq<u8>>, html: bool, error_page: Seq<u8>) -> (Status, Seq<
    u8,
>) {
    match read {
        Some(bytes) => (Status::Served, bytes),
        None => (
            Status::NotFound,
            if html {
                error_page
            } else {
                Seq::empty()
            },
        ),
    }
}

/// Converts a read outcome into a response's status and body; no failure
/// escapes this boundary.
pub fn load_outcome(read: Option<Vec<u8>>, html: bool, error_page: Vec<u8>) -> (r: (Status, Vec<
    u8,
>))
    ensures
        r.0 == spec_load(opt_bytes(read), html, error_page@).0,
        r.1@ == spec_load(opt_bytes(read), html, error_page@).1,
{
    match read {
        Some(bytes) => (Status::Served, bytes),
        None => {
            if html {
                (Status::NotFound, error_page)
            } else {
                (Status::NotFound, Vec::new())
            }
        },
    }
}

} // verus!
