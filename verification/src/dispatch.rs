//! One worker per distinct port: protocol, bind scope and sharing.
//!
//! For every port group the dispatcher starts exactly one listener, which
//! owns its port for the server's lifetime.  The group's first-configured
//! site fixes the worker's protocol class and access scope: an HTTPS group
//! gets the TLS/HTTP/2 listener, any other group the plain HTTP/1.1
//! listener; a Local site binds only the loopback interface, any other site
//! all interfaces.  Startup failures are per port: each worker's plan is a
//! function of its own group alone, so one port's failure leaves every other
//! worker's plan — and its startup — unchanged.

use vstd::prelude::*;

use crate::registry::{group_wf, registry_wf, spec_is_shared, SiteRegistry};
use crate::site::{is_https, is_local, site_is_https, site_is_local};

verus! {

/// What one port's worker needs to start: its port, its protocol class,
/// whether it binds only loopback, and whether it serves virtual hosts.
#[derive(PartialEq, Eq, Structural, Clone, Copy, Debug)]
pub struct WorkerPlan {
    pub port: u16,
    pub https: bool,
    pub loopback: bool,
    pub shared: bool,
}

/// The worker plan of the group at `gi`, determined by that group alone:
/// its port, and the protocol class and access scope of its
/// first-configured site.
pub open spec fn spec_worker_plan(r: SiteRegistry, gi: int) -> WorkerPlan {
    let g = r.groups[gi];
    let lead = r.sites[g.members[0] as int];
    WorkerPlan {
        port: g.port,
        https: is_https(lead),
        loopback: is_local(lead),
        shared: spec_is_shared(g),
    }
}

/// Plans one worker per port group.  Each plan is a function of its own
/// group alone, so no group's faults can reach another port's worker.
pub fn plan_workers(reg: &SiteRegistry) -> (r: Vec<WorkerPlan>)
    requires
        registry_wf(*reg),
    ensures
        r@.len() == reg.groups@.len(),
        forall|gi: int| 0 <= gi < r@.len() ==> r@[gi] == spec_worker_plan(*reg, gi),
{
    let mut plans: Vec<WorkerPlan> = Vec::new();
    let mut gi: usize = 0;
    while gi < reg.groups.len()
        invariant
            gi <= reg.groups@.len(),
            registry_wf(*reg),
            plans@.len() == gi,
            forall|k: int| 0 <= k < gi ==> plans@[k] == spec_worker_plan(*reg, k),
        decreases reg.groups@.len() - gi,
    {
        let group = &reg.groups[gi];
        proof {
            assert(group_wf(reg.sites@, reg.groups@[gi as int]));
        }
        let lead = group.members[0];
        let site = &reg.sites[lead];
        plans.push(
            WorkerPlan {
                port: group.port,
                https: site_is_https(site),
                loopback: site_is_local(site),
                shared: group.members.len() > 1,
            },
        );
        gi += 1;
    }
    plans
}

} // verus!
