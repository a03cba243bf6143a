//! Retry and deadline policy of the client's RPCs.
//!
//! `per_attempt_deadline` bounds one dial with its RPC, `overall_deadline` a whole call over all
//! candidate endpoints. `max_attempts` caps the failed attempts of a call, but never below the
//! number of endpoints of its first worklist, so that one cold sweep dials every endpoint it knows.
//! `base_backoff` is the unit of the jittered exponential backoff between attempts whose last error
//! was a transport failure. `leader_ttl` bounds how long a cached leader is kept without a
//! successful RPC against it.
use vstd::arithmetic::power2;
use vstd::prelude::*;

use crate::error::{ClientError, ErrorView};
use crate::status::Code;
use crate::time::Duration;

verus! {

/// Longest single backoff sleep, in nanoseconds.
pub const MAX_BACKOFF_NANOS: u128 = 5_000_000_000;

/// Retry and deadline knobs of the client's RPCs.
#[derive(Clone, Copy, Debug, PartialEq, Eq, Structural)]
pub struct RetryPolicy {
    /// Cap on the failed attempts of one call; see the module's description for its floor.
    /// Leader-hint redirects are not charged against it.
    pub max_attempts: usize,
    /// Deadline of one dial together with its RPC.
    pub per_attempt_deadline: Duration,
    /// Deadline of a whole call.
    pub overall_deadline: Duration,
    /// Unit of the jittered exponential backoff.
    pub base_backoff: Duration,
    /// Time that a cached leader stays fresh after its last use.
    pub leader_ttl: Duration,
}

impl RetryPolicy {
    /// Five attempts, two seconds each, ten seconds in all, backoff from fifty milliseconds, and a
    /// leader that stays fresh for thirty seconds.
    pub open spec fn is_default(self) -> bool {
        &&& self.max_attempts == 5
        &&& self.per_attempt_deadline@ == 2_000_000_000
        &&& self.overall_deadline@ == 10_000_000_000
        &&& self.base_backoff@ == 50_000_000
        &&& self.leader_ttl@ == 30_000_000_000
    }

    /// Longest single backoff sleep, whatever `base_backoff` and the attempt count are.
    pub fn max_backoff() -> (r: Duration)
        ensures
            r@ == MAX_BACKOFF_NANOS,
    {
        Duration::from_secs(5)
    }
}

impl Default for RetryPolicy {
    /// The policy of [`RetryPolicy::is_default`].
    fn default() -> (r: RetryPolicy)
        ensures
            r.is_default(),
    {
        RetryPolicy {
            max_attempts: 5,
            per_attempt_deadline: Duration::from_secs(2),
            overall_deadline: Duration::from_secs(10),
            base_backoff: Duration::from_millis(50),
            leader_ttl: Duration::from_secs(30),
        }
    }
}

/// True of an error that says the connection itself failed: the peer was unreachable, the attempt
/// timed out, or the transport could not be set up.
pub open spec fn transport_failure(error: ErrorView) -> bool {
    match error {
        ErrorView::Rpc(status) => status.code == Code::Unavailable || status.code
            == Code::DeadlineExceeded,
        ErrorView::Transport(_) => true,
        ErrorView::TransportFanout(_) => true,
        _ => false,
    }
}

/// Tells whether an error says that the connection itself failed. One predicate drives both the
/// backoff before the next attempt and the eviction of the cached channel.
pub fn is_transport_failure(error: &ClientError) -> (r: bool)
    ensures
        r == transport_failure(error@),
{
    match error {
        ClientError::Rpc(status) => status.code == Code::Unavailable || status.code
            == Code::DeadlineExceeded,
        ClientError::Transport(_) | ClientError::TransportFanout(_) => true,
        ClientError::NoReachableEndpoints
        | ClientError::InvalidEndpoint(_)
        | ClientError::InvalidCount(_)
        | ClientError::Connector(_)
        | ClientError::DriverGone
        | ClientError::InvalidSeqKey
        | ClientError::SeqUncertain => false,
    }
}

/// Tells whether to sleep before the next attempt: after a transport failure, and after nothing
/// else.
pub fn should_backoff(error: &ClientError) -> (r: bool)
    ensures
        r == transport_failure(error@),
{
    is_transport_failure(error)
}

/// Upper end of the backoff window, in nanoseconds: `base` doubled `attempt` times, at most
/// [`MAX_BACKOFF_NANOS`].
pub open spec fn backoff_window(base: nat, attempt: nat) -> nat {
    if base * power2::pow2(attempt) <= MAX_BACKOFF_NANOS {
        base * power2::pow2(attempt)
    } else {
        MAX_BACKOFF_NANOS as nat
    }
}

/// The upper end of the backoff window in whole microseconds.
pub fn backoff_window_micros(base: Duration, attempt: u32) -> (r: u64)
    ensures
        r == backoff_window(base@, attempt as nat) / 1_000,
{
    let nanos: u128 = base.as_nanos();
    let mut upper: u128 = nanos;
    let mut doublings: u32 = 0;
    assert(power2::pow2(0) == 1) by {
        power2::lemma2_to64();
    }
    assert(upper == base@ * power2::pow2(0)) by (nonlinear_arith)
        requires
            upper == base@,
            power2::pow2(0) == 1,
    ;
    while doublings < attempt && upper <= MAX_BACKOFF_NANOS && nanos > 0
        invariant
            doublings <= attempt,
            nanos == base@,
            nanos <= crate::time::MAX_NANOS,
            upper == base@ * power2::pow2(doublings as nat),
            upper <= crate::time::MAX_NANOS || upper <= 2 * MAX_BACKOFF_NANOS,
        decreases attempt - doublings,
    {
        proof {
            power2::lemma_pow2_adds(doublings as nat, 1);
            power2::lemma2_to64();
            assert(base@ * (power2::pow2(doublings as nat) * 2) == (base@ * power2::pow2(doublings as nat)) * 2)
                by (nonlinear_arith);
        }
        upper = upper * 2;
        doublings = doublings + 1;
    }
    proof {
        if nanos == 0 {
            assert(base@ * power2::pow2(attempt as nat) == 0) by (nonlinear_arith)
                requires
                    base@ == 0,
            ;
            assert(base@ * power2::pow2(doublings as nat) == 0) by (nonlinear_arith)
                requires
                    base@ == 0,
            ;
        } else if doublings < attempt {
            power2::lemma_pow2_strictly_increases(doublings as nat, attempt as nat);
            assert(base@ * power2::pow2(attempt as nat) >= base@ * power2::pow2(doublings as nat))
                by (nonlinear_arith)
                requires
                    power2::pow2(attempt as nat) >= power2::pow2(doublings as nat),
            ;
        }
    }
    if upper <= MAX_BACKOFF_NANOS {
        (upper / 1_000) as u64
    } else {
        (MAX_BACKOFF_NANOS / 1_000) as u64
    }
}

/// `rand::random_range` over `0..=upper`: some value of that range. Which one is left open, as
/// the draws are random.
#[verifier::external_body]
pub(crate) fn random_up_to(upper: u64) -> (r: u64)
    ensures
        r <= upper,
{
    rand::random_range(0..=upper)
}

/// True of a number that a draw from `0..=upper` gave.
pub closed spec fn drawn(upper: u64, number: u64) -> bool {
    call_ensures(random_up_to, (upper,), number)
}

/// What a draw gave was drawn.
pub(crate) proof fn lemma_drawn(upper: u64, number: u64)
    requires
        call_ensures(random_up_to, (upper,), number),
    ensures
        drawn(upper, number),
{
}

/// A number that was drawn lies in the range it was drawn from.
pub proof fn law_draws_stay_in_range(upper: u64, number: u64)
    requires
        drawn(upper, number),
    ensures
        number <= upper,
{
}

/// Jittered exponential backoff: a span drawn from `[0, base * 2^attempt]`, capped at
/// [`RetryPolicy::max_backoff`], in whole microseconds. Full jitter keeps clients from retrying in
/// step. Which span of the window is drawn is left open.
pub fn jittered_backoff(base: Duration, attempt: u32) -> (r: Duration)
    ensures
        r@ <= backoff_window(base@, attempt as nat),
        r@ % 1_000 == 0,
        exists|number: u64| #[trigger]
            drawn((backoff_window(base@, attempt as nat) / 1_000) as u64, number) && r@ == number
                * 1_000,
{
    let upper: u64 = backoff_window_micros(base, attempt);
    let draw = random_up_to;
    let number: u64 = draw(upper);
    assert((backoff_window(base@, attempt as nat) / 1_000) as u64 == upper);
    assert(drawn(upper, number));
    Duration::from_micros(number)
}

/// No backoff is longer than the cap, the window of a zero base is empty, attempt zero draws from
/// `[0, base]`, and the window never shrinks from one attempt to the next.
pub proof fn law_backoff_window(base: nat, attempt: nat)
    ensures
        backoff_window(base, attempt) <= MAX_BACKOFF_NANOS,
        backoff_window(0, attempt) == 0,
        base <= MAX_BACKOFF_NANOS ==> backoff_window(base, 0) == base,
        backoff_window(base, attempt) <= backoff_window(base, attempt + 1),
{
    power2::lemma2_to64();
    power2::lemma_pow2_adds(attempt, 1);
    assert(0 * power2::pow2(attempt) == 0) by (nonlinear_arith);
    assert(base * (power2::pow2(attempt) * 2) == (base * power2::pow2(attempt)) * 2) by (nonlinear_arith);
    assert(base * power2::pow2(attempt) >= 0) by (nonlinear_arith);
    assert(base * 1 == base) by (nonlinear_arith);
}

/// The backoff window is the base at first and doubles from one attempt to the next, up to five
/// seconds.
pub proof fn law_backoff_window_doubles(
    base: Duration,
    attempt: u32,
    first: u64,
    this: u64,
    next: u64,
)
    requires
        attempt < u32::MAX,
        call_ensures(backoff_window_micros, (base, 0), first),
        call_ensures(backoff_window_micros, (base, attempt), this),
        call_ensures(backoff_window_micros, (base, (attempt + 1) as u32), next),
    ensures
        base@ <= 5_000_000_000 ==> first == base@ / 1_000,
        base@ > 5_000_000_000 ==> first == 5_000_000,
        this <= 5_000_000,
        next == 5_000_000 || 2 * this <= next <= 2 * this + 1,
        2 * this > 5_000_000 ==> next == 5_000_000,
{
    power2::lemma2_to64();
    power2::lemma_pow2_adds(attempt as nat, 1);
    let window = base@ * power2::pow2(attempt as nat);
    assert(base@ * (power2::pow2(attempt as nat) * 2) == window * 2) by (nonlinear_arith)
        requires
            window == base@ * power2::pow2(attempt as nat),
    ;
    assert(base@ * 1 == base@) by (nonlinear_arith);
}

/// Every backoff is a number of microseconds that was drawn from the whole window, and so within
/// five seconds.
pub proof fn law_a_backoff_is_drawn_from_its_window(
    base: Duration,
    attempt: u32,
    window: u64,
    backoff: Duration,
    longest: Duration,
)
    requires
        call_ensures(backoff_window_micros, (base, attempt), window),
        call_ensures(jittered_backoff, (base, attempt), backoff),
        call_ensures(RetryPolicy::max_backoff, (), longest),
    ensures
        longest@ == 5_000_000_000,
        exists|number: u64| #[trigger] drawn(window, number) && backoff@ == number * 1_000,
        backoff@ <= window * 1_000,
        backoff@ <= longest@,
{
}

/// The policy that a client has unless it is given another one.
pub proof fn law_the_policy_by_default(policy: RetryPolicy)
    requires
        call_ensures(<RetryPolicy as Default>::default, (), policy),
    ensures
        policy.max_attempts == 5,
        policy.per_attempt_deadline@ == 2_000_000_000,
        policy.overall_deadline@ == 10_000_000_000,
        policy.base_backoff@ == 50_000_000,
        policy.leader_ttl@ == 30_000_000_000,
{
}

} // verus!
