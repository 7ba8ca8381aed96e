//! Grouping of configured sites by listening port, and the per-port
//! virtual-host identity maps.
//!
//! The registry is built once at startup from the ordered site list and never
//! mutated.  Every distinct port gets one [`PortGroup`] holding the indices of
//! all sites bound to that port, in configuration order; groups appear in
//! first-seen port order.  A port shared by more than one site is served by
//! virtual hosting, with a [`VirtualHostMap`] keyed by site name.  Building
//! fails exactly when two HTTPS sites share a port under the same name, since
//! that name would be an ambiguous TLS server-name key.

use vstd::prelude::*;

use crate::site::{is_https, site_is_https, Website};
use crate::text::{bytes_eq, str_eq, utf8_bytes};

verus! {

/// The set of sites bound to one port: indices into the registry's site
/// list, in configuration order.
pub struct PortGroup {
    pub port: u16,
    pub members: Vec<usize>,
}

/// All port groups derived from one configured site list.
pub struct SiteRegistry {
    pub sites: Vec<Website>,
    pub groups: Vec<PortGroup>,
}

/// One virtual host: a site name together with the document root and TLS
/// identity paths that serve it.
pub struct HostEntry {
    pub name: String,
    pub resource: String,
    pub certificate: String,
    pub private_key: String,
}

/// The hostname-keyed identity map of one shared port.
pub struct VirtualHostMap {
    pub entries: Vec<HostEntry>,
}

/// A fatal configuration fault found while building the registry.
#[derive(Debug)]
pub enum ConfigError {
    /// Two HTTPS sites on one port carry the same name, so the name cannot
    /// select a single TLS identity.
    AmbiguousServerName { port: u16, name: String },
}

/// Sites `a` and `b` collide: they share a port, both speak TLS, and carry
/// the same name.
pub open spec fn collides(sites: Seq<Website>, a: int, b: int) -> bool {
    &&& 0 <= a < sites.len()
    &&& 0 <= b < sites.len()
    &&& a != b
    &&& sites[a].port_no == sites[b].port_no
    &&& is_https(sites[a])
    &&& is_https(sites[b])
    &&& sites[a].name@ == sites[b].name@
}

/// Some pair of sites would make a TLS server name ambiguous.
pub open spec fn ambiguous(sites: Seq<Website>) -> bool {
    exists|a: int, b: int| #[trigger] collides(sites, a, b)
}

/// A group holds exactly the indices of the sites on its port, in ascending
/// order.
pub open spec fn group_wf(sites: Seq<Website>, g: PortGroup) -> bool {
    &&& forall|k: int|
        0 <= k < g.members.len() ==> (#[trigger] g.members[k]) < sites.len()
            && sites[g.members[k] as int].port_no == g.port
    &&& forall|i: int|
        0 <= i < sites.len() && (#[trigger] sites[i]).port_no == g.port ==> g.members@.contains(
            i as usize,
        )
    &&& forall|k: int, l: int|
        0 <= k < l < g.members.len() ==> #[trigger] g.members[k] < #[trigger] g.members[l]
    &&& g.members.len() > 0
}

/// Some group of the registry serves the port of site `i`.
pub open spec fn port_covered(r: SiteRegistry, i: int) -> bool {
    exists|gi: int|
        0 <= gi < r.groups.len() && (#[trigger] r.groups[gi]).port == r.sites@[i].port_no
}

/// The registry covers every site, holds each port once, and lists groups
/// in first-seen port order: each group opens with the first-configured
/// site of its port, and groups are ordered by those sites.
pub open spec fn registry_wf(r: SiteRegistry) -> bool {
    &&& forall|gi: int| 0 <= gi < r.groups.len() ==> group_wf(r.sites@, #[trigger] r.groups[gi])
    &&& forall|gi: int, gj: int|
        0 <= gi < gj < r.groups.len() ==> (#[trigger] r.groups[gi]).port != (#[trigger] r.groups[gj]).port
    &&& forall|i: int| 0 <= i < r.sites.len() ==> #[trigger] port_covered(r, i)
    &&& forall|gi: int, gj: int|
        0 <= gi < gj < r.groups.len() ==> (#[trigger] r.groups[gi]).members[0] < (
        #[trigger] r.groups[gj]).members[0]
}

/// A sorted member list that contains `i`, with no member below `i`, opens
/// with `i`.
proof fn lemma_first_member(members: Seq<usize>, i: usize)
    requires
        members.contains(i),
        forall|k: int| 0 <= k < members.len() ==> #[trigger] members[k] >= i,
        forall|k: int, l: int|
            0 <= k < l < members.len() ==> #[trigger] members[k] < #[trigger] members[l],
    ensures
        members.len() > 0,
        members[0] == i,
{
    let k0 = choose|k: int| 0 <= k < members.len() && members[k] == i;
    if k0 > 0 {
        assert(members[0] < members[k0]);
    }
}

/// A port is served by virtual hosting when more than one site is bound to
/// it.
pub open spec fn spec_is_shared(g: PortGroup) -> bool {
    g.members.len() > 1
}

/// True when some already-built group serves `port`.
fn port_present(groups: &Vec<PortGroup>, port: u16) -> (r: bool)
    ensures
        r == exists|gi: int| 0 <= gi < groups.len() && (#[trigger] groups[gi]).port == port,
{
    let mut gi: usize = 0;
    while gi < groups.len()
        invariant
            gi <= groups.len(),
            forall|k: int| 0 <= k < gi ==> (#[trigger] groups@[k]).port != port,
        decreases groups.len() - gi,
    {
        if groups[gi].port == port {
            return true;
        }
        gi += 1;
    }
    false
}

/// Collects, in ascending order, the indices of all sites bound to `port`.
fn collect_members(sites: &Vec<Website>, port: u16) -> (r: Vec<usize>)
    ensures
        forall|k: int|
            0 <= k < r.len() ==> (#[trigger] r[k]) < sites.len() && sites[r[k] as int].port_no
                == port,
        forall|i: int|
            0 <= i < sites.len() && (#[trigger] sites[i]).port_no == port ==> r@.contains(
                i as usize,
            ),
        forall|k: int, l: int| 0 <= k < l < r.len() ==> #[trigger] r[k] < #[trigger] r[l],
{
    let mut members: Vec<usize> = Vec::new();
    let mut i: usize = 0;
    while i < sites.len()
        invariant
            i <= sites.len(),
            forall|k: int|
                0 <= k < members.len() ==> (#[trigger] members[k]) < i && sites[members[k] as int].port_no
                    == port,
            forall|j: int|
                0 <= j < i && (#[trigger] sites@[j]).port_no == port ==> members@.contains(
                    j as usize,
                ),
            forall|k: int, l: int|
                0 <= k < l < members.len() ==> #[trigger] members[k] < #[trigger] members[l],
        decreases sites.len() - i,
    {
        if sites[i].port_no == port {
            let ghost old_members = members@;
            members.push(i);
            proof {
                assert(members@[old_members.len() as int] == i as usize);
                assert forall|j: int|
                    0 <= j < i + 1 && (#[trigger] sites@[j]).port_no == port implies members@.contains(
                    j as usize,
                ) by {
                    if j < i {
                        let idx = choose|idx: int|
                            0 <= idx < old_members.len() && old_members[idx] == j as usize;
                        assert(members@[idx] == j as usize);
                    } else {
                        assert(members@[old_members.len() as int] == j as usize);
                    }
                }
            }
        }
        i += 1;
    }
    members
}

/// Builds the registry: one group per distinct port, in first-seen order,
/// refusing a site list whose TLS server names are ambiguous.
#[verifier::rlimit(30)]
pub fn build_registry(sites: Vec<Website>) -> (r: Result<SiteRegistry, ConfigError>)
    ensures
        match r {
            Ok(reg) => {
                &&& reg.sites == sites
                &&& registry_wf(reg)
                &&& !ambiguous(sites@)
            },
            Err(e) => {
                &&& ambiguous(sites@)
                &&& e matches ConfigError::AmbiguousServerName { port, name } && exists|a: int, b: int|
                    #[trigger] collides(sites@, a, b) && sites@[a].port_no == port && sites@[a].name@
                        == name@
            },
        },
{
    // Refuse ambiguous TLS server names first: this is a configuration
    // error, not a runtime error.
    let mut i: usize = 0;
    while i < sites.len()
        invariant
            i <= sites.len(),
            forall|a: int, b: int| 0 <= a < i && a < b < sites.len() ==> !#[trigger] collides(
                sites@,
                a,
                b,
            ),
        decreases sites.len() - i,
    {
        if site_is_https(&sites[i]) {
            let mut j: usize = i + 1;
            while j < sites.len()
                invariant
                    i < j <= sites.len(),
                    i < sites.len(),
                    is_https(sites@[i as int]),
                    forall|b: int| i < b < j ==> !#[trigger] collides(sites@, i as int, b),
                decreases sites.len() - j,
            {
                if sites[j].port_no == sites[i].port_no && site_is_https(&sites[j]) && str_eq(
                    sites[j].name.as_str(),
                    sites[i].name.as_str(),
                ) {
                    let err = ConfigError::AmbiguousServerName {
                        port: sites[i].port_no,
                        name: sites[i].name.clone(),
                    };
                    proof {
                        assert(collides(sites@, i as int, j as int));
                    }
                    return Err(err);
                }
                j += 1;
            }
        }
        i += 1;
    }
    proof {
        assert(!ambiguous(sites@)) by {
            // A collision is symmetric, so one of its two orderings was
            // examined by the scan above.
            assert forall|a: int, b: int| !#[trigger] collides(sites@, a, b) by {
                if collides(sites@, a, b) {
                    assert(collides(sites@, b, a));
                }
            }
        }
    }
    let mut groups: Vec<PortGroup> = Vec::new();
    let mut i: usize = 0;
    while i < sites.len()
        invariant
            i <= sites.len(),
            forall|gi: int| 0 <= gi < groups.len() ==> group_wf(sites@, #[trigger] groups[gi]),
            forall|gi: int, gj: int|
                0 <= gi < gj < groups.len() ==> (#[trigger] groups[gi]).port != (#[trigger] groups[gj]).port,
            forall|j: int|
                0 <= j < i ==> exists|gi: int|
                    0 <= gi < groups.len() && (#[trigger] groups[gi]).port == (#[trigger] sites@[j]).port_no,
            forall|gi: int, gj: int|
                0 <= gi < gj < groups.len() ==> (#[trigger] groups[gi]).members[0] < (
                #[trigger] groups[gj]).members[0],
            forall|gi: int| 0 <= gi < groups.len() ==> (#[trigger] groups[gi]).members[0] < i,
        decreases sites.len() - i,
    {
        let port = sites[i].port_no;
        if !port_present(&groups, port) {
            let members = collect_members(&sites, port);
            proof {
                assert(members@.contains(i as usize));
                // No earlier site has this port — its group would already
                // exist — so the current site is the least member.
                assert forall|k: int|
                    0 <= k < members@.len() implies (#[trigger] members@[k]) >= i by {
                    if members@[k] < i as usize {
                        let j = members@[k];
                        assert(sites@[j as int].port_no == port);
                        assert(0 <= j < i);
                        let gw = choose|gw: int|
                            0 <= gw < groups@.len() && (#[trigger] groups@[gw]).port
                                == sites@[j as int].port_no;
                        assert(groups@[gw].port == port);
                    }
                }
                lemma_first_member(members@, i);
            }
            let ghost old_groups = groups@;
            groups.push(PortGroup { port, members });
            proof {
                assert(forall|gi: int|
                    0 <= gi < old_groups.len() ==> groups@[gi] == #[trigger] old_groups[gi]);
                assert(groups@[old_groups.len() as int].port == sites@[i as int].port_no);
                assert(groups@[old_groups.len() as int].members[0] == i as usize);
                assert forall|j: int| 0 <= j < i + 1 implies exists|gi: int|
                    0 <= gi < groups.len() && (#[trigger] groups[gi]).port == (#[trigger] sites@[j]).port_no by {
                    if j < i {
                        let gi = choose|gi: int|
                            0 <= gi < old_groups.len() && (#[trigger] old_groups[gi]).port
                                == sites@[j].port_no;
                        assert(groups@[gi].port == sites@[j].port_no);
                    } else {
                        assert(groups@[old_groups.len() as int].port == sites@[j].port_no);
                    }
                }
            }
        }
        i += 1;
    }
    let ghost final_sites = sites@;
    let ghost final_groups = groups@;
    let result = SiteRegistry { sites, groups };
    proof {
        assert forall|ix: int| 0 <= ix < result.sites@.len() implies #[trigger] port_covered(
            result,
            ix,
        ) by {
            assert(0 <= ix < i);
            let gw = choose|gi: int|
                0 <= gi < final_groups.len() && (#[trigger] final_groups[gi]).port
                    == final_sites[ix].port_no;
            assert(result.groups@[gw].port == result.sites@[ix].port_no);
        }
    }
    Ok(result)
}

impl SiteRegistry {
    /// Whether the group at `gi` is served by virtual hosting.
    pub fn is_shared(&self, gi: usize) -> (r: bool)
        requires
            gi < self.groups.len(),
        ensures
            r == spec_is_shared(self.groups[gi as int]),
    {
        self.groups[gi].members.len() > 1
    }

    /// Builds the hostname-keyed identity map of the group at `gi`: one entry
    /// per member site, in configuration order, carrying that site's name,
    /// document root and TLS identity paths.
    pub fn virtual_host_map(&self, gi: usize) -> (r: VirtualHostMap)
        requires
            gi < self.groups.len(),
            registry_wf(*self),
        ensures
            r.entries.len() == self.groups[gi as int].members.len(),
            forall|k: int|
                0 <= k < r.entries.len() ==> entry_matches_site(
                    #[trigger] r.entries[k],
                    self.sites[self.groups[gi as int].members[k] as int],
                ),
    {
        let members = &self.groups[gi].members;
        let mut entries: Vec<HostEntry> = Vec::new();
        let mut k: usize = 0;
        while k < members.len()
            invariant
                k <= members.len(),
                members == self.groups[gi as int].members,
                gi < self.groups.len(),
                registry_wf(*self),
                entries.len() == k,
                forall|l: int|
                    0 <= l < k ==> entry_matches_site(
                        #[trigger] entries[l],
                        self.sites[members[l] as int],
                    ),
            decreases members.len() - k,
        {
            let m = members[k];
            let site = &self.sites[m];
            entries.push(
                HostEntry {
                    name: site.name.clone(),
                    resource: site.resource.clone(),
                    certificate: site.certificate.clone(),
                    private_key: site.private_key.clone(),
                },
            );
            k += 1;
        }
        VirtualHostMap { entries }
    }
}

/// An entry carries exactly the site's name, document root and identity
/// paths.
pub open spec fn entry_matches_site(e: HostEntry, s: Website) -> bool {
    &&& e.name@ == s.name@
    &&& e.resource@ == s.resource@
    &&& e.certificate@ == s.certificate@
    &&& e.private_key@ == s.private_key@
}

/// Entry `k` is the first whose name's UTF-8 bytes equal `host`.
pub open spec fn first_host_match(entries: Seq<HostEntry>, host: Seq<u8>, k: int) -> bool {
    &&& 0 <= k < entries.len()
    &&& utf8_bytes(entries[k].name@) == host
    &&& forall|l: int| 0 <= l < k ==> utf8_bytes((#[trigger] entries[l]).name@) != host
}

/// No entry's name has the UTF-8 bytes `host`.
pub open spec fn no_host_match(entries: Seq<HostEntry>, host: Seq<u8>) -> bool {
    forall|l: int| 0 <= l < entries.len() ==> utf8_bytes((#[trigger] entries[l]).name@) != host
}

/// `sel` is the document root that serves a request: the site's own root on
/// an unshared port, and the named virtual host's root on a shared one.
pub open spec fn selected_root_ok(
    shared: bool,
    own_root: Seq<u8>,
    entries: Seq<HostEntry>,
    host: Option<Seq<u8>>,
    sel: Seq<u8>,
) -> bool {
    if !shared {
        sel == own_root
    } else {
        match host {
            None => false,
            Some(h) => exists|k: int|
                #[trigger] first_host_match(entries, h, k) && sel == utf8_bytes(
                    entries[k].resource@,
                ),
        }
    }
}

/// On a shared port, no document root serves the request: the client named
/// no host, or named one that no entry carries.
pub open spec fn selection_fails(shared: bool, entries: Seq<HostEntry>, host: Option<Seq<u8>>) -> bool {
    shared && match host {
        None => true,
        Some(h) => no_host_match(entries, h),
    }
}

/// A TLS handshake that presents a member site's name selects exactly that
/// site's entry — and so its document root — in the port's virtual-host
/// map: in an unambiguous configuration, no other HTTPS site on the port
/// carries the same name, so the first matching entry is the named site's
/// own.
pub proof fn lemma_server_name_selects_site(
    sites: Seq<Website>,
    g: PortGroup,
    entries: Seq<HostEntry>,
    k: int,
    j: int,
)
    requires
        group_wf(sites, g),
        !ambiguous(sites),
        entries.len() == g.members.len(),
        forall|l: int|
            0 <= l < entries.len() ==> entry_matches_site(
                #[trigger] entries[l],
                sites[g.members[l] as int],
            ),
        forall|l: int| 0 <= l < entries.len() ==> is_https(sites[(#[trigger] g.members[l]) as int]),
        0 <= j < entries.len(),
        first_host_match(entries, utf8_bytes(sites[g.members[j] as int].name@), k),
    ensures
        k == j,
        entries[k].resource@ == sites[g.members[j] as int].resource@,
{
    let a = g.members[k] as int;
    let b = g.members[j] as int;
    assert(entry_matches_site(entries[k], sites[a]));
    crate::text::lemma_encode_utf8_injective(entries[k].name@, sites[b].name@);
    assert(sites[a].name@ == sites[b].name@);
    if k != j {
        assert(g.members[k] != g.members[j]) by {
            if k < j {
                assert(g.members[k] < g.members[j]);
            } else {
                assert(g.members[j] < g.members[k]);
            }
        }
        assert(collides(sites, a, b));
        assert(false);
    }
    assert(entry_matches_site(entries[j], sites[b]));
}

impl VirtualHostMap {
    /// Finds the first entry whose name's UTF-8 bytes equal `host`, as
    /// presented in an HTTP `Host` header or a TLS server name.
    pub fn lookup(&self, host: &[u8]) -> (r: Option<usize>)
        ensures
            match r {
                Some(k) => first_host_match(self.entries@, host@, k as int),
                None => no_host_match(self.entries@, host@),
            },
    {
        let mut k: usize = 0;
        while k < self.entries.len()
            invariant
                k <= self.entries.len(),
                forall|l: int|
                    0 <= l < k ==> utf8_bytes((#[trigger] self.entries[l]).name@) != host@,
            decreases self.entries.len() - k,
        {
            if bytes_eq(self.entries[k].name.as_str().as_bytes(), host) {
                return Some(k);
            }
            k += 1;
        }
        None
    }
}

/// Selects the document root serving a request: the site's own root on an
/// unshared port; on a shared port, the root of the virtual host that the
/// presented host name selects, or nothing when no entry matches.
pub fn select_document_root(
    shared: bool,
    own_root: &str,
    map: &VirtualHostMap,
    host: Option<Vec<u8>>,
) -> (r: Option<Vec<u8>>)
    ensures
        match r {
            Some(sel) => selected_root_ok(
                shared,
                utf8_bytes(own_root@),
                map.entries@,
                crate::paths::opt_bytes(host),
                sel@,
            ),
            None => selection_fails(shared, map.entries@, crate::paths::opt_bytes(host)),
        },
{
    let ghost hostv = crate::paths::opt_bytes(host);
    if !shared {
        return Some(crate::text::str_bytes(own_root));
    }
    match host {
        None => {
            proof {
                assert(hostv is None);
            }
            None
        },
        Some(h) => {
            proof {
                assert(hostv == Some(h@));
            }
            match map.lookup(h.as_slice()) {
                None => None,
                Some(k) => {
                    let sel = crate::text::str_bytes(map.entries[k].resource.as_str());
                    proof {
                        assert(first_host_match(map.entries@, h@, k as int) && sel@ == utf8_bytes(
                            map.entries@[k as int].resource@,
                        ));
                        assert(hostv->Some_0 == h@);
                        assert(first_host_match(map.entries@, hostv->Some_0, k as int));
                        assert(selected_root_ok(
                            shared,
                            utf8_bytes(own_root@),
                            map.entries@,
                            hostv,
                            sel@,
                        ));
                    }
                    Some(sel)
                },
            }
        },
    }
}

} // verus!
