//! Parsing of HTTP/1.1 request bytes.
//!
//! One connection carries one request, read in a single fixed-size buffer.
//! The grammar recognized here is: a request line `METHOD SP PATH SP ...CRLF`
//! (the bytes after the second space, up to the line end, are not
//! interpreted), then header lines `NAME COLON value CRLF` with spaces after
//! the colon skipped, closed by an empty `CRLF` line.  Anything after the
//! empty line — such as the zero padding of a partially filled read buffer —
//! is ignored.  A buffer that does not fit this shape is refused as a whole,
//! and the connection is dropped.

use vstd::prelude::*;
use vstd::string::StringSliceAdditionalSpecFns;

use crate::text::{bytes_eq, bytes_range, copy_bytes, find_byte, lemma_seek, seek};

verus! {

/// Carriage return.
pub const CR: u8 = 13;

/// Line feed.
pub const LF: u8 = 10;

/// Space.
pub const SP: u8 = 32;

/// Colon, separating a header name from its value.
pub const COLON: u8 = 58;

/// One parsed header line.
pub struct Header {
    pub name: Vec<u8>,
    pub value: Vec<u8>,
}

/// The mathematical value of a header.
pub ghost struct HeaderView {
    pub name: Seq<u8>,
    pub value: Seq<u8>,
}

impl View for Header {
    type V = HeaderView;

    open spec fn view(&self) -> HeaderView {
        HeaderView { name: self.name@, value: self.value@ }
    }
}

/// One parsed request: the request line's method and path, and the headers.
pub struct Request {
    pub method: Vec<u8>,
    pub path: Vec<u8>,
    pub headers: Vec<Header>,
}

/// The mathematical value of a request.
pub ghost struct RequestView {
    pub method: Seq<u8>,
    pub path: Seq<u8>,
    pub headers: Seq<HeaderView>,
}

impl View for Request {
    type V = RequestView;

    open spec fn view(&self) -> RequestView {
        RequestView {
            method: self.method@,
            path: self.path@,
            headers: self.headers@.map_values(|h: Header| h@),
        }
    }
}

/// First position in `[i, end)` holding a byte other than a space; `end`
/// when all of them are spaces.
pub open spec fn skip_spaces(s: Seq<u8>, i: int, end: int) -> int
    decreases end - i when i <= end
{
    if i < 0 || i >= end || end > s.len() {
        end
    } else if s[i] == SP {
        skip_spaces(s, i + 1, end)
    } else {
        i
    }
}

/// The buffer opens with a well-formed request line: two spaces before the
/// first carriage return, which is followed by a line feed.
pub open spec fn request_line_valid(s: Seq<u8>) -> bool {
    let sp1 = seek(s, 0, SP);
    let sp2 = seek(s, sp1 + 1, SP);
    let cr = seek(s, 0, CR);
    &&& sp1 < cr
    &&& sp2 < cr
    &&& cr + 1 < s.len()
    &&& s[cr + 1] == LF
}

/// The headers parsed from position `from` on: each line holds a colon
/// before its carriage-return/line-feed end, and an empty line closes the
/// list.  `None` when the bytes do not fit that shape.
pub open spec fn spec_parse_headers(s: Seq<u8>, from: int) -> Option<Seq<HeaderView>>
    decreases s.len() - from
        when 0 <= from <= s.len()
        via spec_parse_headers_decreases
{
    if !(0 <= from <= s.len()) {
        None
    } else {
        let cr = seek(s, from, CR);
        if !(cr + 1 < s.len() && s[cr + 1] == LF) {
            None
        } else if cr == from {
            Some(Seq::empty())
        } else {
            let colon = seek(s, from, COLON);
            if !(colon < cr) {
                None
            } else {
                let name = s.subrange(from, colon);
                let value = s.subrange(skip_spaces(s, colon + 1, cr), cr);
                match spec_parse_headers(s, cr + 2) {
                    Some(rest) => Some(seq![HeaderView { name, value }] + rest),
                    None => None,
                }
            }
        }
    }
}

#[via_fn]
proof fn spec_parse_headers_decreases(s: Seq<u8>, from: int) {
    lemma_seek(s, from, CR);
}

/// The request parsed from a whole buffer: the request line's method and
/// path, and the headers that follow it.
pub open spec fn spec_parse_request(s: Seq<u8>) -> Option<RequestView> {
    if request_line_valid(s) {
        let sp1 = seek(s, 0, SP);
        let sp2 = seek(s, sp1 + 1, SP);
        let cr = seek(s, 0, CR);
        match spec_parse_headers(s, cr + 2) {
            Some(headers) => Some(
                RequestView {
                    method: s.subrange(0, sp1),
                    path: s.subrange(sp1 + 1, sp2),
                    headers,
                },
            ),
            None => None,
        }
    } else {
        None
    }
}

/// First position in `[i, end)` holding a byte other than a space.
fn find_non_space(s: &[u8], i: usize, end: usize) -> (r: usize)
    requires
        i <= end <= s@.len(),
    ensures
        r == skip_spaces(s@, i as int, end as int),
        i <= r <= end,
{
    let mut k: usize = i;
    while k < end
        invariant
            i <= k <= end <= s@.len(),
            skip_spaces(s@, i as int, end as int) == skip_spaces(s@, k as int, end as int),
        decreases end - k,
    {
        if s[k] != SP {
            return k;
        }
        k += 1;
    }
    k
}

/// `rest` with `prefix` prepended, when `rest` parsed at all.
pub open spec fn prepend(prefix: Seq<HeaderView>, rest: Option<Seq<HeaderView>>) -> Option<
    Seq<HeaderView>,
> {
    match rest {
        Some(hs) => Some(prefix + hs),
        None => None,
    }
}

/// Parses the header lines from position `from` on.
fn parse_headers(s: &[u8], from: usize) -> (r: Option<Vec<Header>>)
    requires
        from <= s@.len(),
    ensures
        match r {
            Some(hs) => spec_parse_headers(s@, from as int) == Some(
                hs@.map_values(|h: Header| h@),
            ),
            None => spec_parse_headers(s@, from as int) is None,
        },
{
    let mut headers: Vec<Header> = Vec::new();
    let mut cur: usize = from;
    proof {
        assert(headers@.map_values(|h: Header| h@) + spec_parse_headers(
            s@,
            from as int,
        )->Some_0 =~= spec_parse_headers(s@, from as int)->Some_0);
    }
    loop
        invariant
            from <= cur <= s@.len(),
            spec_parse_headers(s@, from as int) == prepend(
                headers@.map_values(|h: Header| h@),
                spec_parse_headers(s@, cur as int),
            ),
        decreases s@.len() - cur,
    {
        let cr = find_byte(s, cur, CR);
        proof {
            lemma_seek(s@, cur as int, CR);
        }
        if !(cr < s.len()) {
            return None;
        }
        if !(cr + 1 < s.len()) {
            return None;
        }
        if s[cr + 1] != LF {
            return None;
        }
        if cr == cur {
            // The empty line closes the header list.
            proof {
                assert(spec_parse_headers(s@, cur as int) == Some(Seq::<HeaderView>::empty()));
                assert(headers@.map_values(|h: Header| h@) + Seq::<HeaderView>::empty()
                    =~= headers@.map_values(|h: Header| h@));
            }
            return Some(headers);
        }
        proof {
            lemma_seek(s@, cur as int, COLON);
        }
        let colon = find_byte(s, cur, COLON);
        if !(colon < cr) {
            return None;
        }
        let vstart = find_non_space(s, colon + 1, cr);
        let name = bytes_range(s, cur, colon);
        let value = bytes_range(s, vstart, cr);
        let ghost old_headers = headers@;
        headers.push(Header { name, value });
        proof {
            let hv = HeaderView {
                name: s@.subrange(cur as int, colon as int),
                value: s@.subrange(skip_spaces(s@, colon as int + 1, cr as int), cr as int),
            };
            assert(headers@.map_values(|h: Header| h@) =~= old_headers.map_values(
                |h: Header| h@,
            ).push(hv));
            match spec_parse_headers(s@, cr as int + 2) {
                Some(hs) => {
                    assert(spec_parse_headers(s@, cur as int) == Some(seq![hv] + hs));
                    assert(old_headers.map_values(|h: Header| h@) + (seq![hv] + hs)
                        =~= headers@.map_values(|h: Header| h@) + hs);
                },
                None => {
                    assert(spec_parse_headers(s@, cur as int) is None);
                },
            }
        }
        cur = cr + 2;
    }
}

/// Parses a whole request buffer; refuses any buffer that does not fit the
/// grammar.
pub fn parse_request(buf: &[u8]) -> (r: Option<Request>)
    ensures
        match r {
            Some(req) => spec_parse_request(buf@) == Some(req@),
            None => spec_parse_request(buf@) is None,
        },
{
    let sp1 = find_byte(buf, 0, SP);
    let cr = find_byte(buf, 0, CR);
    proof {
        lemma_seek(buf@, 0, SP);
        lemma_seek(buf@, 0, CR);
    }
    if !(sp1 < cr) {
        return None;
    }
    let sp2 = find_byte(buf, sp1 + 1, SP);
    proof {
        lemma_seek(buf@, sp1 as int + 1, SP);
    }
    if !(sp2 < cr) {
        return None;
    }
    if !(cr < buf.len()) {
        return None;
    }
    if !(cr + 1 < buf.len()) {
        return None;
    }
    if buf[cr + 1] != LF {
        return None;
    }
    let method = bytes_range(buf, 0, sp1);
    let path = bytes_range(buf, sp1 + 1, sp2);
    match parse_headers(buf, cr + 2) {
        Some(headers) => Some(Request { method, path, headers }),
        None => None,
    }
}

/// The value of the first header named `Host`, if any.
pub open spec fn spec_host_of(headers: Seq<HeaderView>) -> Option<Seq<u8>>
    decreases headers.len(),
{
    if headers.len() == 0 {
        None
    } else if headers[0].name == "Host".spec_bytes() {
        Some(headers[0].value)
    } else {
        spec_host_of(headers.drop_first())
    }
}

/// Finds the value of the first `Host` header, which names the virtual host
/// a request is addressed to.
pub fn host_of(headers: &Vec<Header>) -> (r: Option<Vec<u8>>)
    ensures
        match r {
            Some(v) => spec_host_of(headers@.map_values(|h: Header| h@)) == Some(v@),
            None => spec_host_of(headers@.map_values(|h: Header| h@)) is None,
        },
{
    let ghost all = headers@.map_values(|h: Header| h@);
    proof {
        assert(all.skip(0) =~= all);
    }
    let mut i: usize = 0;
    while i < headers.len()
        invariant
            i <= headers@.len(),
            all == headers@.map_values(|h: Header| h@),
            spec_host_of(all) == spec_host_of(all.skip(i as int)),
        decreases headers@.len() - i,
    {
        if bytes_eq(headers[i].name.as_slice(), "Host".as_bytes()) {
            proof {
                assert(all.skip(i as int)[0] == all[i as int]);
                assert(spec_host_of(all.skip(i as int)) == Some(all[i as int].value));
            }
            return Some(copy_bytes(&headers[i].value));
        }
        proof {
            assert(all.skip(i as int)[0] == all[i as int]);
            assert(all.skip(i as int).drop_first() =~= all.skip(i as int + 1));
        }
        i += 1;
    }
    proof {
        assert(all.skip(i as int).len() == 0);
    }
    None
}

} // verus!
