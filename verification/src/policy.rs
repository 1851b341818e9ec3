use vstd::prelude::*;

verus! {

/// The memory ceiling granted to every sandboxed child: the host's total
/// memory divided evenly among its processors, in the unit the host figure
/// came in.
pub fn memory_limit(total_kb: u64, cpus: u64) -> (r: u64)
    requires
        cpus > 0,
    ensures
        r == total_kb as int / cpus as int,
{
    total_kb / cpus
}

/// The per-child resource ceiling, fixed once at service startup and never
/// changed afterwards: no operation of this type mutates it.
pub struct ResourcePolicy {
    limit_kb: u64,
}

impl ResourcePolicy {
    /// The ceiling this policy grants, in kilobytes.
    pub closed spec fn spec_limit(self) -> u64 {
        self.limit_kb
    }

    pub fn new(total_kb: u64, cpus: u64) -> (r: ResourcePolicy)
        requires
            cpus > 0,
        ensures
            r.spec_limit() == total_kb as int / cpus as int,
    {
        ResourcePolicy { limit_kb: memory_limit(total_kb, cpus) }
    }

    /// The ceiling granted to one request: always the startup value, so every
    /// request within one service lifetime receives the identical ceiling.
    pub fn grant(&self) -> (r: u64)
        ensures
            r == self.spec_limit(),
    {
        self.limit_kb
    }
}

/// `limit` is what dividing some host memory figure evenly among `cpus`
/// processors yields.
pub open spec fn is_even_share(limit: u64, cpus: u64) -> bool {
    exists|total: u64| limit == #[trigger] (total as int / cpus as int)
}

/// Relies on sys_info::mem_info: reads the host's total physical memory in
/// kilobytes. The figure depends on the machine, so nothing is promised of it.
#[verifier::external_body]
fn host_total_memory_kb() -> Option<u64> {
    sys_info::mem_info().ok().map(|m| m.total)
}

/// Computes the startup resource ceiling from the host's reported memory:
/// total memory divided evenly among the processors. `None` when the host
/// figure cannot be read, a fatal startup condition for the caller, since no
/// safe default exists.
pub fn startup_memory_limit(cpus: u64) -> (r: Option<u64>)
    requires
        cpus > 0,
    ensures
        r matches Some(limit) ==> is_even_share(limit, cpus),
{
    match host_total_memory_kb() {
        None => None,
        Some(total) => {
            let limit = memory_limit(total, cpus);
            proof {
                assert(limit == total as int / cpus as int);
            }
            Some(limit)
        },
    }
}

} // verus!
