use vstd::prelude::*;

verus! {

/// Counts of calculation requests and of those that failed.
#[derive(Clone, Copy, Debug, PartialEq, Eq, Structural)]
pub struct RequestCounters {
    pub requests: u64,
    pub errors: u64,
}

/// One more after `n`, staying at the largest value once there.
pub open spec fn bumped(n: u64) -> u64 {
    if n < u64::MAX {
        (n + 1) as u64
    } else {
        n
    }
}

impl RequestCounters {
    pub fn new() -> (r: RequestCounters)
        ensures
            r.requests == 0 && r.errors == 0,
    {
        RequestCounters { requests: 0, errors: 0 }
    }
}

/// Counts one more request.
pub fn increment_requests(counters: &mut RequestCounters)
    ensures
        final(counters).requests == bumped(old(counters).requests),
        final(counters).errors == old(counters).errors,
{
    if counters.requests < u64::MAX {
        counters.requests = counters.requests + 1;
    }
}

/// Counts one more failed request.
pub fn increment_errors(counters: &mut RequestCounters)
    ensures
        final(counters).errors == bumped(old(counters).errors),
        final(counters).requests == old(counters).requests,
{
    if counters.errors < u64::MAX {
        counters.errors = counters.errors + 1;
    }
}

} // verus!
