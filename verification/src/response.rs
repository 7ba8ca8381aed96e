//! Building HTTP/1.1 response heads, byte for byte.
//!
//! Every response carries a `Content-Type` header and the server's fixed
//! identification header.  HTTP/2 responses reuse the same status codes and
//! header values but are framed by the HTTP/2 layer outside this crate, so
//! only HTTP/1.1 serializes its head here.

use vstd::prelude::*;
use vstd::slice::slice_to_vec;
use vstd::string::StringSliceAdditionalSpecFns;

use crate::loader::Status;

verus! {

/// The server identification every response carries.
pub open spec fn server_name() -> Seq<u8> {
    "Lightron/0.1.0".spec_bytes()
}

/// The fixed value of the `Server` header.
pub fn server_header_value() -> (r: Vec<u8>)
    ensures
        r@ == server_name(),
{
    slice_to_vec("Lightron/0.1.0".as_bytes())
}

/// The status line of an HTTP/1.1 response: code and canonical reason.
pub open spec fn spec_status_line(st: Status) -> Seq<u8> {
    match st {
        Status::Served => "HTTP/1.1 200 OK\r\n".spec_bytes(),
        Status::NotFound => "HTTP/1.1 404 Not Found\r\n".spec_bytes(),
    }
}

/// The head of an HTTP/1.1 response: status line, `Content-Type`, the fixed
/// `Server` header, and the empty line before the body.
pub open spec fn spec_http1_head(st: Status, ct: Seq<u8>) -> Seq<u8> {
    spec_status_line(st) + "Content-Type: ".spec_bytes() + ct
        + "\r\nServer: Lightron/0.1.0\r\n\r\n".spec_bytes()
}

/// Serializes the head of an HTTP/1.1 response.
pub fn http1_head(st: Status, ct: &[u8]) -> (r: Vec<u8>)
    ensures
        r@ == spec_http1_head(st, ct@),
{
    let mut r: Vec<u8> = match st {
        Status::Served => slice_to_vec("HTTP/1.1 200 OK\r\n".as_bytes()),
        Status::NotFound => slice_to_vec("HTTP/1.1 404 Not Found\r\n".as_bytes()),
    };
    let mut label = slice_to_vec("Content-Type: ".as_bytes());
    r.append(&mut label);
    let mut ctv = slice_to_vec(ct);
    r.append(&mut ctv);
    let mut tail = slice_to_vec("\r\nServer: Lightron/0.1.0\r\n\r\n".as_bytes());
    r.append(&mut tail);
    r
}

} // verus!
