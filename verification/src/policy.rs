//! Termination policies for the sampling loop: a pure decision over the
//! number of samples completed so far, the wall-clock time elapsed since the
//! policy was made, and whether an interactive stop signal has arrived.
//!
//! The shell around the library measures the clock and listens for the stop
//! signal; the decision itself is taken here.

use vstd::prelude::*;

verus! {

/// When another sampling pass may start.
#[derive(Debug, Clone, Copy)]
pub struct Policy {
    /// Greatest number of samples to take.
    pub max: u32,
    /// Wall-clock bound in milliseconds, measured from policy creation, if
    /// any.
    pub limit_ms: Option<u64>,
    /// Whether an interactive stop signal is listened for.
    pub cancellable: bool,
}

/// The decision: another pass may run while the sample cap is not reached,
/// the time bound (if any) is not reached, and no listened-for stop signal
/// has arrived.
pub open spec fn policy_allows(p: Policy, samples: u32, elapsed_ms: u64, cancelled: bool) -> bool {
    samples < p.max && (match p.limit_ms {
        Some(l) => elapsed_ms < l,
        None => true,
    }) && !(p.cancellable && cancelled)
}

impl Policy {
    /// Decides whether another sampling pass may start.
    pub fn allows(&self, samples: u32, elapsed_ms: u64, cancelled: bool) -> (r: bool)
        ensures
            r == policy_allows(*self, samples, elapsed_ms, cancelled),
    {
        if samples >= self.max {
            return false;
        }
        if let Some(l) = self.limit_ms {
            if elapsed_ms >= l {
                return false;
            }
        }
        if self.cancellable && cancelled {
            return false;
        }
        true
    }
}

/// A count-bounded policy: passes run while fewer than `max` samples are
/// done.
pub fn samples_limit(max: u32) -> (r: Policy)
    ensures
        r == (Policy { max, limit_ms: None::<u64>, cancellable: false }),
{
    Policy { max, limit_ms: None, cancellable: false }
}

/// A time-bounded policy: passes run while fewer than `max` samples are done
/// and less than `limit_ms` milliseconds have gone by since the policy was
/// made.
pub fn time_limit(max: u32, limit_ms: u64) -> (r: Policy)
    ensures
        r == (Policy { max, limit_ms: Some(limit_ms), cancellable: false }),
{
    Policy { max, limit_ms: Some(limit_ms), cancellable: false }
}

/// An interactive policy: as `time_limit` (the bound being optional), and a
/// stop signal ends the run as well.
pub fn progressive(max: u32, limit_ms: Option<u64>) -> (r: Policy)
    ensures
        r == (Policy { max, limit_ms, cancellable: true }),
{
    Policy { max, limit_ms, cancellable: true }
}

/// Count-bounded law: whatever the clock or signals say, a count-bounded
/// policy with cap `max` allows a pass exactly for sample counts below
/// `max`; in particular a cap of zero allows none.
pub proof fn lemma_count_bounded(max: u32, samples: u32, elapsed_ms: u64, cancelled: bool)
    ensures
        policy_allows(
            (Policy { max, limit_ms: None::<u64>, cancellable: false }),
            samples,
            elapsed_ms,
            cancelled,
        ) <==> samples < max,
{
}

/// Time-bounded law: a time-bounded policy refuses once the elapsed time
/// reaches its bound even when the sample cap is not reached, refuses once
/// the cap is reached even with time left, and allows when both are still
/// short.
pub proof fn lemma_time_bounded(max: u32, limit_ms: u64, samples: u32, elapsed_ms: u64)
    ensures
        elapsed_ms >= limit_ms ==> !policy_allows(
            (Policy { max, limit_ms: Some(limit_ms), cancellable: false }),
            samples,
            elapsed_ms,
            false,
        ),
        samples >= max ==> !policy_allows(
            (Policy { max, limit_ms: Some(limit_ms), cancellable: false }),
            samples,
            elapsed_ms,
            false,
        ),
        samples < max && elapsed_ms < limit_ms ==> policy_allows(
            (Policy { max, limit_ms: Some(limit_ms), cancellable: false }),
            samples,
            elapsed_ms,
            false,
        ),
{
}

/// Cancellation law: a policy that listens for the stop signal refuses as
/// soon as the signal is seen, and otherwise decides as the same policy
/// without listening would.
pub proof fn lemma_cancellation(p: Policy, samples: u32, elapsed_ms: u64)
    requires
        p.cancellable,
    ensures
        !policy_allows(p, samples, elapsed_ms, true),
        policy_allows(p, samples, elapsed_ms, false) == policy_allows(
            (Policy { max: p.max, limit_ms: p.limit_ms, cancellable: false }),
            samples,
            elapsed_ms,
            false,
        ),
{
}

} // verus!
