//! Content types, derived from a resolved file path's extension.

use vstd::prelude::*;
use vstd::string::StringSliceAdditionalSpecFns;

use crate::paths::SEPARATOR;
use crate::text::{bytes_eq, bytes_range, str_bytes};

verus! {

/// The byte that separates a file name from its extension.
pub const DOT: u8 = 46;

/// What the media-type table answers for a file extension: the first known
/// mapping, or nothing.  The table is fixed at build time, so the result is a
/// function of the extension alone.
pub uninterp spec fn mime_of_extension(ext: Seq<u8>) -> Option<Seq<u8>>;

/// Relies on `mime_guess::MimeGuess::from_ext` and `first_raw`: a
/// case-insensitive lookup in a built-in table keyed by the file extension
/// alone, answering the first mapped media-type string, or nothing when the
/// extension is empty, not valid text, or unknown to the table.
#[verifier::external_body]
fn mime_for_extension(ext: &[u8]) -> (r: Option<Vec<u8>>)
    ensures
        match r {
            Some(v) => mime_of_extension(ext@) == Some(v@),
            None => mime_of_extension(ext@) is None,
        },
{
    match core::str::from_utf8(ext) {
        Ok(e) => mime_guess::MimeGuess::from_ext(e).first_raw().map(|m| m.as_bytes().to_vec()),
        Err(_) => None,
    }
}

/// Position of the last occurrence of `b` in `s`; `-1` when `b` does not
/// occur.
pub open spec fn last_index_of(s: Seq<u8>, b: u8) -> int
    decreases s.len(),
{
    if s.len() == 0 {
        -1
    } else if s[s.len() - 1] == b {
        s.len() - 1
    } else {
        last_index_of(s.drop_last(), b)
    }
}

/// Position of the last occurrence of `b` in `s`.
fn find_last_byte(s: &[u8], b: u8) -> (r: Option<usize>)
    ensures
        match r {
            Some(k) => last_index_of(s@, b) == k,
            None => last_index_of(s@, b) == -1,
        },
{
    proof {
        assert(s@.subrange(0, s@.len() as int) =~= s@);
    }
    let mut i: usize = s.len();
    while i > 0
        invariant
            i <= s@.len(),
            last_index_of(s@, b) == last_index_of(s@.subrange(0, i as int), b),
        decreases i,
    {
        proof {
            assert(s@.subrange(0, i as int).drop_last() =~= s@.subrange(0, i as int - 1));
            assert(s@.subrange(0, i as int)[i as int - 1] == s@[i as int - 1]);
        }
        if s[i - 1] == b {
            proof {
                assert(last_index_of(s@.subrange(0, i as int), b) == i - 1);
            }
            return Some(i - 1);
        }
        i -= 1;
    }
    proof {
        assert(s@.subrange(0, 0) =~= Seq::<u8>::empty());
    }
    None
}

/// The last occurrence of a byte lies before the sequence's end.
proof fn lemma_last_index_range(s: Seq<u8>, b: u8)
    ensures
        -1 <= last_index_of(s, b) < s.len(),
    decreases s.len(),
{
    if s.len() > 0 && s[s.len() - 1] != b {
        lemma_last_index_range(s.drop_last(), b);
    }
}

/// The extension of a path: the bytes after the last dot of the final path
/// component, provided that dot is neither the component's first byte nor
/// absent.
pub open spec fn spec_extension(path: Seq<u8>) -> Option<Seq<u8>> {
    let d = last_index_of(path, DOT);
    let p = last_index_of(path, SEPARATOR);
    if d > p + 1 {
        Some(path.subrange(d + 1, path.len() as int))
    } else {
        None
    }
}

/// Extracts a path's file extension.
pub fn extension_of(path: &[u8]) -> (r: Option<Vec<u8>>)
    ensures
        match r {
            Some(e) => spec_extension(path@) == Some(e@),
            None => spec_extension(path@) is None,
        },
{
    proof {
        lemma_last_index_range(path@, DOT);
        lemma_last_index_range(path@, SEPARATOR);
    }
    let n: usize = path.len();
    let d = match find_last_byte(path, DOT) {
        Some(d) => d,
        None => {
            return None;
        },
    };
    proof {
        assert(d < path@.len());
    }
    let keep = match find_last_byte(path, SEPARATOR) {
        Some(p) => {
            proof {
                assert(p < path@.len());
            }
            d > p + 1
        },
        None => d > 0,
    };
    if keep {
        Some(bytes_range(path, d + 1, n))
    } else {
        None
    }
}

/// The media type every response carries when nothing better is known, and
/// the type whose missing resources are answered with the global error page.
pub open spec fn html_type() -> Seq<u8> {
    "text/html".spec_bytes()
}

/// The content type of a response serving `path`: the table's answer for the
/// path's extension, or `text/html` when the extension is missing or
/// unknown.
pub open spec fn spec_content_type(path: Seq<u8>) -> Seq<u8> {
    match spec_extension(path) {
        Some(e) => match mime_of_extension(e) {
            Some(m) => m,
            None => html_type(),
        },
        None => html_type(),
    }
}

/// Picks the content type for a response serving `path`.
pub fn content_type_for(path: &[u8]) -> (r: Vec<u8>)
    ensures
        r@ == spec_content_type(path@),
{
    match extension_of(path) {
        Some(e) => match mime_for_extension(e.as_slice()) {
            Some(m) => m,
            None => str_bytes("text/html"),
        },
        None => str_bytes("text/html"),
    }
}

/// Decides whether a content type is HTML, which selects the global error
/// page as the body of a missing resource's response.
pub fn is_html_type(ct: &[u8]) -> (r: bool)
    ensures
        r == (ct@ == html_type()),
{
    bytes_eq(ct, "text/html".as_bytes())
}

} // verus!
