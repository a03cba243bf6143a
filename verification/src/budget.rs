//! Deadline arithmetic of the retry loop.
//!
//! [`Budget`] holds the overall deadline of a call and the cap on one attempt; [`PairBudget`]
//! shares one attempt's budget between its connect phase and its RPC phase, so that a slow connect
//! eats into the time left for the RPC. Both anchor their deadline once and floor at zero.
use vstd::prelude::*;

use crate::retry_policy::RetryPolicy;
use crate::time::{Duration, Instant, MAX_NANOS};

verus! {

/// The deadlines of one call.
#[derive(Clone, Copy, Debug, PartialEq, Eq, Structural)]
pub struct Budget {
    deadline: u128,
    per_attempt: Duration,
}

/// What a [`Budget`] holds, in nanoseconds: the point at which the call must end, and the cap on
/// one attempt.
pub struct BudgetView {
    pub deadline: nat,
    pub per_attempt: nat,
}

impl View for Budget {
    type V = BudgetView;

    closed spec fn view(&self) -> BudgetView {
        BudgetView { deadline: self.deadline as nat, per_attempt: self.per_attempt@ }
    }
}

impl BudgetView {
    /// Time left of the whole call at `now`.
    pub open spec fn left(self, now: nat) -> nat {
        if now < self.deadline {
            (self.deadline - now) as nat
        } else {
            0
        }
    }

    /// What an attempt that starts at `now` may take; `None` once the call's deadline is reached.
    pub open spec fn attempt(self, now: nat) -> Option<nat> {
        if now >= self.deadline {
            None
        } else if self.left(now) <= self.per_attempt {
            Some(self.left(now))
        } else {
            Some(self.per_attempt)
        }
    }

    /// A backoff that does not sleep past the call's deadline.
    pub open spec fn clamped(self, backoff: nat, now: nat) -> nat {
        if backoff <= self.left(now) {
            backoff
        } else {
            self.left(now)
        }
    }
}

impl Budget {
    /// Anchors the call's deadline at `now + overall_deadline` and takes the cap on one attempt
    /// from the policy.
    pub fn start(policy: &RetryPolicy, now: Instant) -> (r: Budget)
        ensures
            r@.deadline == now@ + policy.overall_deadline@,
            r@.per_attempt == policy.per_attempt_deadline@,
    {
        Budget {
            deadline: now.as_nanos() + policy.overall_deadline.as_nanos(),
            per_attempt: policy.per_attempt_deadline,
        }
    }

    /// Budget of an attempt that starts now, or `None` where the call's deadline is reached: the
    /// smaller of the time left and the cap on one attempt.
    pub fn next_attempt(&self, now: Instant) -> (r: Option<Duration>)
        ensures
            match r {
                Some(budget) => self@.attempt(now@) == Some(budget@),
                None => self@.attempt(now@) is None,
            },
    {
        let now_nanos: u128 = now.as_nanos();
        if now_nanos >= self.deadline {
            return None;
        }
        let left: u128 = self.deadline - now_nanos;
        if left <= self.per_attempt.as_nanos() {
            Some(Duration::from_nanos_saturating(left))
        } else {
            Some(self.per_attempt)
        }
    }

    /// Shortens a proposed backoff so that it does not sleep past the call's deadline.
    pub fn clamp_backoff(&self, backoff: Duration, now: Instant) -> (r: Duration)
        ensures
            r@ == self@.clamped(backoff@, now@),
    {
        let now_nanos: u128 = now.as_nanos();
        let left: u128 = if now_nanos < self.deadline {
            self.deadline - now_nanos
        } else {
            0
        };
        if backoff.as_nanos() <= left {
            backoff
        } else {
            Duration::from_nanos_saturating(left)
        }
    }
}

/// The deadline that the two phases of one attempt share.
#[derive(Clone, Copy, Debug, PartialEq, Eq, Structural)]
pub struct PairBudget {
    deadline: u128,
}

impl View for PairBudget {
    type V = nat;

    closed spec fn view(&self) -> nat {
        self.deadline as nat
    }
}

/// Time left at `now` until `deadline`; none once it has passed. A span longer than a
/// [`Duration`] holds counts as the longest one.
pub open spec fn phase_left(deadline: nat, now: nat) -> nat {
    if now >= deadline {
        0
    } else if deadline - now <= MAX_NANOS {
        (deadline - now) as nat
    } else {
        MAX_NANOS as nat
    }
}

impl PairBudget {
    /// Anchors the deadline of the pair at `now + budget`.
    pub fn start(budget: Duration, now: Instant) -> (r: PairBudget)
        ensures
            r@ == now@ + budget@,
    {
        PairBudget { deadline: now.as_nanos() + budget.as_nanos() }
    }

    /// Time left for the next phase at `now`; nothing, where the first phase took it all.
    pub fn remaining(&self, now: Instant) -> (r: Duration)
        ensures
            r@ == phase_left(self@, now@),
    {
        let now_nanos: u128 = now.as_nanos();
        if now_nanos < self.deadline {
            Duration::from_nanos_saturating(self.deadline - now_nanos)
        } else {
            Duration::zero()
        }
    }
}

/// An attempt never outlives the call's deadline nor its own cap, one is granted exactly while the
/// deadline lies ahead, and it gets all it may have: its cap, or the time up to the deadline.
pub proof fn law_attempt_within_both_caps(budget: BudgetView, now: nat)
    ensures
        budget.attempt(now) is Some <==> now < budget.deadline,
        budget.attempt(now) matches Some(granted) ==> granted <= budget.per_attempt && now + granted
            <= budget.deadline && (granted == budget.per_attempt || now + granted
            == budget.deadline),
{
}

/// What a policy grants an attempt: one is granted exactly until the overall deadline has passed
/// since the call started, and it gets the deadline of one attempt, or what is left of the overall
/// one where that is less.
pub proof fn law_attempt_gets_all_it_may(
    policy: RetryPolicy,
    start: Instant,
    budget: Budget,
    now: Instant,
    granted: Option<Duration>,
)
    requires
        call_ensures(Budget::start, (&policy, start), budget),
        call_ensures(Budget::next_attempt, (&budget, now), granted),
    ensures
        granted is Some <==> now@ < start@ + policy.overall_deadline@,
        granted matches Some(span) ==> {
            &&& span@ <= policy.per_attempt_deadline@
            &&& now@ + span@ <= start@ + policy.overall_deadline@
            &&& span@ == policy.per_attempt_deadline@ || now@ + span@ == start@
                + policy.overall_deadline@
        },
{
}

/// A backoff is slept whole where it ends before the overall deadline, and up to that deadline where
/// it does not; past it none is taken.
pub proof fn law_backoff_gets_all_it_may(
    policy: RetryPolicy,
    start: Instant,
    budget: Budget,
    backoff: Duration,
    now: Instant,
    slept: Duration,
)
    requires
        call_ensures(Budget::start, (&policy, start), budget),
        call_ensures(Budget::clamp_backoff, (&budget, backoff, now), slept),
    ensures
        now@ + backoff@ <= start@ + policy.overall_deadline@ ==> slept@ == backoff@,
        now@ <= start@ + policy.overall_deadline@ < now@ + backoff@ ==> now@ + slept@ == start@
            + policy.overall_deadline@,
        now@ >= start@ + policy.overall_deadline@ ==> slept@ == 0,
{
}

/// The second phase of an attempt gets exactly what the first left of the budget: the two end
/// together at the point that the budget reaches from the start, and nothing is left past it.
pub proof fn law_second_phase_gets_the_rest(
    budget: Duration,
    start: Instant,
    pair: PairBudget,
    now: Instant,
    left: Duration,
)
    requires
        call_ensures(PairBudget::start, (budget, start), pair),
        call_ensures(PairBudget::remaining, (&pair, now), left),
    ensures
        now@ >= start@ + budget@ ==> left@ == 0,
        now@ < start@ + budget@ <= now@ + MAX_NANOS ==> now@ + left@ == start@ + budget@,
        now@ + MAX_NANOS < start@ + budget@ ==> left@ == MAX_NANOS,
{
}

/// What the connect phase took of an attempt's budget is gone for the RPC phase: the two together
/// never take longer than the budget, and a connect that took it all leaves nothing.
pub proof fn law_phases_share_one_budget(start: nat, budget: nat, now: nat)
    requires
        start <= now,
    ensures
        now - start >= budget ==> phase_left(start + budget, now) == 0,
        now - start < budget ==> (now - start) + phase_left(start + budget, now) <= budget,
        now - start < budget && budget <= MAX_NANOS ==> (now - start) + phase_left(
            start + budget,
            now,
        ) == budget,
{
}

/// A backoff that starts before the deadline ends no later than it; past the deadline none is
/// taken.
pub proof fn law_backoff_within_deadline(budget: BudgetView, backoff: nat, now: nat)
    ensures
        budget.clamped(backoff, now) <= backoff,
        now <= budget.deadline ==> now + budget.clamped(backoff, now) <= budget.deadline,
        now >= budget.deadline ==> budget.clamped(backoff, now) == 0,
{
}

} // verus!
