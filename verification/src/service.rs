use vstd::prelude::*;
use vstd::string::StringExecFns;
use crate::policy::ResourcePolicy;
use crate::numerals::dec_rep;
use crate::numerals::usize_to_string;

verus! {

/// Hands out the identifiers that name temp files: one fresh identifier per
/// request, strictly increasing, never repeated within a service lifetime.
pub struct FileCounter {
    next: usize,
}

impl FileCounter {
    /// The identifier the counter will hand out next.
    pub closed spec fn spec_next(self) -> int {
        self.next as int
    }

    /// The identifiers handed out so far.
    pub open spec fn issued(self) -> Set<int> {
        Set::new(|i: int| 0 <= i < self.spec_next())
    }

    pub fn new() -> (r: FileCounter)
        ensures
            r.spec_next() == 0,
            r.issued() =~= Set::<int>::empty(),
    {
        FileCounter { next: 0 }
    }

    /// Whether the counter can still hand out an identifier.
    pub fn can_issue(&self) -> (r: bool)
        ensures
            r == (self.spec_next() < usize::MAX),
    {
        self.next < usize::MAX
    }

    /// Hands out a fresh identifier: one never handed out before, larger than
    /// every identifier handed out so far.
    pub fn fresh_id(&mut self) -> (id: usize)
        requires
            old(self).spec_next() < usize::MAX,
        ensures
            id == old(self).spec_next(),
            final(self).spec_next() == old(self).spec_next() + 1,
            !old(self).issued().contains(id as int),
            final(self).issued() =~= old(self).issued().insert(id as int),
            forall|j: int| old(self).issued().contains(j) ==> j < id,
    {
        let id = self.next;
        self.next = self.next + 1;
        id
    }
}

/// The service's only shared state: the startup resource policy and the
/// temp-file counter. One value of this type lives for the whole service.
pub struct ServiceState {
    pub policy: ResourcePolicy,
    pub counter: FileCounter,
}

/// How one served request relates the service state before it to the state
/// after it, the resource ceiling it was granted, and the temp-file
/// identifier it received.
pub open spec fn request_rel(pre: ServiceState, post: ServiceState, ceiling: u64, id: usize) -> bool {
    &&& ceiling == pre.policy.spec_limit()
    &&& post.policy == pre.policy
    &&& id == pre.counter.spec_next()
    &&& post.counter.spec_next() == pre.counter.spec_next() + 1
}

impl ServiceState {
    pub fn new(total_kb: u64, cpus: u64) -> (r: ServiceState)
        requires
            cpus > 0,
        ensures
            r.policy.spec_limit() == total_kb as int / cpus as int,
            r.counter.spec_next() == 0,
    {
        ServiceState { policy: ResourcePolicy::new(total_kb, cpus), counter: FileCounter::new() }
    }

    /// Serves one request: grants it the immutable resource ceiling and a
    /// fresh temp-file identifier.
    pub fn serve_request(&mut self) -> (r: (u64, usize))
        requires
            old(self).counter.spec_next() < usize::MAX,
        ensures
            request_rel(*old(self), *final(self), r.0, r.1),
            !old(self).counter.issued().contains(r.1 as int),
    {
        let ceiling = self.policy.grant();
        let id = self.counter.fresh_id();
        (ceiling, id)
    }
}

/// Law: any two requests served in turn within one service lifetime receive
/// the identical resource ceiling, and the later request's temp-file
/// identifier is strictly larger than the earlier one's, so identifiers are
/// never reused. (requests are served one at a time: the counter update is
/// a single atomic step of the shared state.)
pub proof fn lemma_requests_uniform_and_fresh(
    s0: ServiceState,
    s1: ServiceState,
    s2: ServiceState,
    c1: u64,
    id1: usize,
    c2: u64,
    id2: usize,
)
    requires
        request_rel(s0, s1, c1, id1),
        request_rel(s1, s2, c2, id2),
    ensures
        c1 == c2,
        id1 < id2,
        s1.counter.issued().contains(id1 as int),
        !s1.counter.issued().contains(id2 as int),
{
}

/// The name of the temp file for one request: the identifier, rendered in
/// decimal, placed in `dir` with extension `ext`.
pub fn temp_file_name(dir: &str, id: usize, ext: &str) -> (r: String)
    ensures
        r@ == dir@ + "/"@ + dec_rep(id as nat) + "."@ + ext@,
{
    let mut s = String::from_str(dir);
    s.append("/");
    let digits = usize_to_string(id);
    s.append(digits.as_str());
    s.append(".");
    s.append(ext);
    proof {
        assert(s@ =~= dir@ + "/"@ + dec_rep(id as nat) + "."@ + ext@);
    }
    s
}

/// The name of the coverage data file that accompanies one temp file.
pub fn cov_file_name(base: &str) -> (r: String)
    ensures
        r@ == base@ + ".cov"@,
{
    let mut s = String::from_str(base);
    s.append(".cov");
    s
}

} // verus!
