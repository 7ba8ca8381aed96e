//! The configured sites that the server hosts.

use vstd::prelude::*;

use crate::text::str_eq;

verus! {

/// One configured site, as handed over by the configuration collaborator.
///
/// `class` is `"HTTPS"` for HTTP/2 over TLS and anything else for plain
/// HTTP/1.1; `access` is `"Local"` for loopback-only binding and anything
/// else for all interfaces.  `certificate`, `private_key` and
/// `push_protocol_files` carry meaning only for HTTPS sites; `log_level` is
/// informational and consumed outside this crate.
pub struct Website {
    pub name: String,
    pub class: String,
    pub access: String,
    pub resource: String,
    pub certificate: String,
    pub private_key: String,
    pub port_no: u16,
    pub push_protocol_files: Vec<String>,
    pub log_level: String,
}

/// A site serves HTTP/2 over TLS exactly when its protocol class reads "HTTPS".
pub open spec fn is_https(site: Website) -> bool {
    site.class@ == "HTTPS"@
}

/// A site binds only the loopback interface exactly when its access scope
/// reads "Local".
pub open spec fn is_local(site: Website) -> bool {
    site.access@ == "Local"@
}

/// Decides the protocol class of a site.
pub fn site_is_https(site: &Website) -> (r: bool)
    ensures
        r == is_https(*site),
{
    str_eq(site.class.as_str(), "HTTPS")
}

/// Decides the access scope of a site.
pub fn site_is_local(site: &Website) -> (r: bool)
    ensures
        r == is_local(*site),
{
    str_eq(site.access.as_str(), "Local")
}

} // verus!
