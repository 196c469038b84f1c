//! Waiting for a job: the decisions of the poll loop. The caller fetches the
//! job, asks [`poll_decide`] what to do, and between fetches pauses for the
//! current interval, which grows by half each time up to a ceiling. The
//! interval is floored and the total wait capped, so no configuration can
//! busy-loop or poll unbounded.

use vstd::prelude::*;

use crate::enums::job_status::spec_terminal;
use crate::errors::Api2ConvertError;
use crate::models::{copy_messages, same_message, Job};

verus! {

/// The poll schedule of one wait.
pub struct PollPlan {
    /// The first pause.
    pub interval_ns: u64,
    /// The ceiling the pause backs off to.
    pub max_interval_ns: u64,
    /// The total wait before giving up.
    pub timeout_ns: u64,
}

/// The schedule of a wait, from the configuration and an optional per-call
/// timeout: the timeout capped at 14400s, interval and ceiling floored at
/// 500ms.
pub fn poll_plan(
    poll_interval_ns: u64,
    poll_max_interval_ns: u64,
    poll_timeout_ns: u64,
    timeout_override_ns: Option<u64>,
) -> (r: PollPlan)
    ensures
        r.timeout_ns == (match timeout_override_ns {
            Some(t) => if t > 14_400_000_000_000 {
                14_400_000_000_000
            } else {
                t
            },
            None => if poll_timeout_ns > 14_400_000_000_000 {
                14_400_000_000_000
            } else {
                poll_timeout_ns
            },
        }),
        r.interval_ns == (if poll_interval_ns < 500_000_000 {
            500_000_000
        } else {
            poll_interval_ns
        }),
        r.max_interval_ns == (if poll_max_interval_ns < 500_000_000 {
            500_000_000
        } else {
            poll_max_interval_ns
        }),
{
    let t = match timeout_override_ns {
        Some(t) => t,
        None => poll_timeout_ns,
    };
    PollPlan {
        interval_ns: if poll_interval_ns < 500_000_000 {
            500_000_000
        } else {
            poll_interval_ns
        },
        max_interval_ns: if poll_max_interval_ns < 500_000_000 {
            500_000_000
        } else {
            poll_max_interval_ns
        },
        timeout_ns: if t > 14_400_000_000_000 {
            14_400_000_000_000
        } else {
            t
        },
    }
}

/// The next pause: one and a half times the current one, up to the ceiling,
/// in nanoseconds (the resolution of a duration); half a nanosecond of an
/// odd pause is dropped.
pub open spec fn spec_next_interval(interval: u64, max_interval: u64) -> u64 {
    if 3 * interval >= 2 * max_interval {
        max_interval
    } else {
        ((3 * interval) / 2) as u64
    }
}

/// Twice the exact next pause: three times the current one, at most twice
/// the ceiling.
pub open spec fn grown_interval(interval: u64, max_interval: u64) -> int {
    if 3 * interval < 2 * max_interval {
        3 * interval
    } else {
        2 * max_interval
    }
}

/// The next pause: one and a half times the current one, up to the ceiling.
pub fn next_interval(interval_ns: u64, max_interval_ns: u64) -> (r: u64)
    ensures
        r == spec_next_interval(interval_ns, max_interval_ns),
        2 * r <= grown_interval(interval_ns, max_interval_ns) <= 2 * r + 1,
        interval_ns % 2 == 0 ==> 2 * r == grown_interval(interval_ns, max_interval_ns),
{
    let grown: u128 = 3 * (interval_ns as u128);
    if grown >= 2 * (max_interval_ns as u128) {
        max_interval_ns
    } else {
        (grown / 2) as u64
    }
}

/// The pause before the `k`-th re-fetch.
pub open spec fn interval_after(first: u64, max_interval: u64, k: nat) -> u64
    decreases k,
{
    if k == 0 {
        first
    } else {
        spec_next_interval(interval_after(first, max_interval, (k - 1) as nat), max_interval)
    }
}

/// Every pause of a wait lies between the 500ms floor and the ceiling, and
/// the pauses never shrink.
pub proof fn poll_interval_stays_in_bounds(plan: PollPlan, k: nat)
    requires
        plan.interval_ns >= 500_000_000,
        plan.max_interval_ns >= plan.interval_ns,
    ensures
        500_000_000 <= interval_after(plan.interval_ns, plan.max_interval_ns, k) <= plan.max_interval_ns,
        interval_after(plan.interval_ns, plan.max_interval_ns, k) <= interval_after(
            plan.interval_ns,
            plan.max_interval_ns,
            k + 1,
        ),
    decreases k,
{
    if k > 0 {
        poll_interval_stays_in_bounds(plan, (k - 1) as nat);
    }
}

/// A wait's total is at most 14400s, whatever the configuration.
pub proof fn poll_wait_is_capped(
    poll_interval_ns: u64,
    poll_max_interval_ns: u64,
    poll_timeout_ns: u64,
    timeout_override_ns: Option<u64>,
    plan: PollPlan,
)
    requires
        plan.timeout_ns == (match timeout_override_ns {
            Some(t) => if t > 14_400_000_000_000 {
                14_400_000_000_000
            } else {
                t
            },
            None => if poll_timeout_ns > 14_400_000_000_000 {
                14_400_000_000_000
            } else {
                poll_timeout_ns
            },
        }),
        plan.interval_ns == (if poll_interval_ns < 500_000_000 {
            500_000_000
        } else {
            poll_interval_ns
        }),
    ensures
        plan.timeout_ns <= 14_400_000_000_000,
        plan.interval_ns >= 500_000_000,
{
}

/// What the poll loop does after fetching the job.
pub enum PollStep {
    /// The job is terminal: return it.
    Done(Job),
    /// Stop with this error (failed/canceled job, or deadline passed).
    Fail(Api2ConvertError),
    /// Pause, then fetch again.
    Continue,
}

/// The decision after a fetch, `elapsed_ns` after the wait began: a failed or
/// canceled job is an error when `throw_on_failure`; a terminal job is
/// returned; past the deadline the wait times out; otherwise keep polling.
pub fn poll_decide(job: Job, throw_on_failure: bool, elapsed_ns: u64, timeout_ns: u64) -> (r: PollStep)
    ensures
        throw_on_failure && (job.status.code@ == "failed"@ || job.status.code@ == "canceled"@)
            ==> (r matches PollStep::Fail(Api2ConvertError::ConversionFailed { job: j, errors }) && *j
            == job && errors@.len() == job.errors@.len() && forall|i: int|
            0 <= i < errors@.len() ==> same_message(#[trigger] errors@[i], job.errors@[i])),
        !(throw_on_failure && (job.status.code@ == "failed"@ || job.status.code@ == "canceled"@))
            && spec_terminal(job.status.code@) ==> r == PollStep::Done(job),
        !spec_terminal(job.status.code@) && elapsed_ns >= timeout_ns ==> r == PollStep::Fail(
            Api2ConvertError::ConversionTimeout { job: Box::new(job) },
        ),
        !spec_terminal(job.status.code@) && elapsed_ns < timeout_ns ==> r == PollStep::Continue,
{
    if throw_on_failure && (job.is_failed() || job.is_canceled()) {
        let errors = copy_messages(&job.errors);
        return PollStep::Fail(Api2ConvertError::ConversionFailed { job: Box::new(job), errors });
    }
    if job.is_terminal() {
        return PollStep::Done(job);
    }
    if elapsed_ns >= timeout_ns {
        return PollStep::Fail(Api2ConvertError::ConversionTimeout { job: Box::new(job) });
    }
    PollStep::Continue
}

/// Whether a fetch that saw status `code`, `elapsed` after the wait began,
/// keeps the wait going ([`poll_decide`] answers [`PollStep::Continue`]
/// exactly then).
pub open spec fn keeps_polling(code: Seq<char>, elapsed: u64, timeout_ns: u64) -> bool {
    !spec_terminal(code) && elapsed < timeout_ns
}

/// The number of fetches a wait makes, counting from fetch `i` (0-based),
/// when the `k`-th fetch sees status `codes[k]` at time `elapsed[k]`.
pub open spec fn fetches_from(codes: Seq<Seq<char>>, elapsed: Seq<u64>, timeout_ns: u64, i: nat) -> nat
    decreases codes.len() - i,
{
    if i + 1 < codes.len() && keeps_polling(codes[i as int], elapsed[i as int], timeout_ns) {
        fetches_from(codes, elapsed, timeout_ns, i + 1)
    } else {
        i + 1
    }
}

proof fn lemma_fetches_from(codes: Seq<Seq<char>>, elapsed: Seq<u64>, timeout_ns: u64, i: nat)
    requires
        i < codes.len(),
    ensures
        i + 1 <= fetches_from(codes, elapsed, timeout_ns, i) <= codes.len(),
        forall|k: nat|
            i <= k < fetches_from(codes, elapsed, timeout_ns, i) - 1 ==> keeps_polling(
                #[trigger] codes[k as int],
                elapsed[k as int],
                timeout_ns,
            ),
        fetches_from(codes, elapsed, timeout_ns, i) < codes.len() ==> !keeps_polling(
            codes[fetches_from(codes, elapsed, timeout_ns, i) - 1],
            elapsed[fetches_from(codes, elapsed, timeout_ns, i) - 1],
            timeout_ns,
        ),
    decreases codes.len() - i,
{
    if i + 1 < codes.len() && keeps_polling(codes[i as int], elapsed[i as int], timeout_ns) {
        lemma_fetches_from(codes, elapsed, timeout_ns, i + 1);
    }
}

/// Paced fetches: each fetch comes at least the scheduled pause after the
/// one before.
pub open spec fn paced(plan: PollPlan, elapsed: Seq<u64>) -> bool {
    forall|k: nat|
        k + 1 < elapsed.len() ==> elapsed[k + 1int] >= #[trigger] elapsed[k as int] + interval_after(
            plan.interval_ns,
            plan.max_interval_ns,
            k,
        )
}

proof fn lemma_paced_elapsed(plan: PollPlan, elapsed: Seq<u64>, k: nat)
    requires
        plan.interval_ns >= 500_000_000,
        plan.max_interval_ns >= plan.interval_ns,
        paced(plan, elapsed),
        k < elapsed.len(),
    ensures
        elapsed[k as int] >= k * 500_000_000,
    decreases k,
{
    if k > 0 {
        let j = (k - 1) as nat;
        lemma_paced_elapsed(plan, elapsed, j);
        poll_interval_stays_in_bounds(plan, j);
        assert(elapsed[j + 1int] >= elapsed[j as int] + interval_after(plan.interval_ns, plan.max_interval_ns, j));
        assert(j + 1 == k);
    }
}

/// Over a whole wait: whatever statuses the fetches bring back, the wait
/// fetches at least once; every fetch but the last sees a non-terminal job
/// before the deadline (so the loop pauses, for `interval_after(first,
/// ceiling, k)` after fetch `k`, between 500ms and the ceiling); the last
/// fetch ends the wait (a terminal job, or the deadline reached); and since
/// the pauses are at least 500ms, a wait fetches at most
/// `timeout / 500ms + 1` times. `codes` and `elapsed` give the status each
/// possible fetch would see and when it would complete.
pub proof fn poll_run_is_bounded(plan: PollPlan, codes: Seq<Seq<char>>, elapsed: Seq<u64>)
    requires
        plan.interval_ns >= 500_000_000,
        plan.max_interval_ns >= plan.interval_ns,
        codes.len() > 0,
        elapsed.len() == codes.len(),
        paced(plan, elapsed),
    ensures
        1 <= fetches_from(codes, elapsed, plan.timeout_ns, 0) <= codes.len(),
        forall|k: nat|
            k < fetches_from(codes, elapsed, plan.timeout_ns, 0) - 1 ==> keeps_polling(
                #[trigger] codes[k as int],
                elapsed[k as int],
                plan.timeout_ns,
            ) && 500_000_000 <= interval_after(plan.interval_ns, plan.max_interval_ns, k)
                <= plan.max_interval_ns,
        fetches_from(codes, elapsed, plan.timeout_ns, 0) < codes.len() ==> !keeps_polling(
            codes[fetches_from(codes, elapsed, plan.timeout_ns, 0) - 1],
            elapsed[fetches_from(codes, elapsed, plan.timeout_ns, 0) - 1],
            plan.timeout_ns,
        ),
        (fetches_from(codes, elapsed, plan.timeout_ns, 0) - 1) * 500_000_000 < plan.timeout_ns
            + 500_000_000,
{
    let n = fetches_from(codes, elapsed, plan.timeout_ns, 0);
    lemma_fetches_from(codes, elapsed, plan.timeout_ns, 0);
    assert forall|k: nat| k < n - 1 implies keeps_polling(
        #[trigger] codes[k as int],
        elapsed[k as int],
        plan.timeout_ns,
    ) && 500_000_000 <= interval_after(plan.interval_ns, plan.max_interval_ns, k) <= plan.max_interval_ns by {
        poll_interval_stays_in_bounds(plan, k);
    }
    if n >= 2 {
        let j = (n - 2) as nat;
        lemma_paced_elapsed(plan, elapsed, j);
        assert(keeps_polling(codes[j as int], elapsed[j as int], plan.timeout_ns));
        assert((n - 1) * 500_000_000 == j * 500_000_000 + 500_000_000) by (nonlinear_arith)
            requires
                j == n - 2,
        ;
    }
}

} // verus!
