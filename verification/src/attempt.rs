//! One attempt against one endpoint: a connect phase and an RPC phase under one budget, and what
//! their outcome means.
//!
//! Whoever runs an attempt dials and calls; the decisions are made here. A transport failure after
//! the channel was handed out drops that channel from the pool, in this one place; an answer over a
//! healthy connection, even a faulty one, does not.
use vstd::prelude::*;
use vstd::string::*;

use crate::budget;
use crate::budget::PairBudget;
use crate::channel_pool::{ChannelPool, PoolView};
use crate::error::{ClientError, ErrorView};
use crate::leader_hint;
use crate::leader_hint::{classify_not_leader_hint, LeaderHintLookup, LookupView};
use crate::response;
use crate::response::{decode_get_ts_response, GetTsResponse, RangeView, TimestampRange};
use crate::retry_policy;
use crate::retry_policy::is_transport_failure;
use crate::status;
use crate::status::{Code, Status, StatusView};
use crate::time;
use crate::time::{Duration, Instant};
use crate::timestamp;
use crate::timestamp::Epoch;

verus! {

/// Why a leader hint could not be followed.
#[derive(Clone, Copy, Debug, PartialEq, Eq, Structural)]
pub enum HintUnusableReason {
    /// A sound hint that could not outrank the cached leader: the cluster is in flux, and the loop
    /// rides it out.
    StaleEpoch,
    /// A hint that cannot be acted on, for good: malformed, without an endpoint, or a plaintext one
    /// under TLS. The loop fails fast.
    Rejected,
}

/// What one attempt came to.
#[allow(inconsistent_fields)]
#[derive(Debug)]
pub enum AttemptOutcome {
    /// The leader answered with these timestamps, at this epoch.
    Served { range: TimestampRange, epoch: u128 },
    /// The peer refused with this status, as it does not lead, and points at the one that does.
    LeaderHint { status: Status, endpoint: String, epoch: Option<u128> },
    /// The peer does not lead and knows no leader: an election is under way.
    NoLeaderYet(Status),
    /// The peer does not lead and its hint could not be followed.
    HintUnusable { status: Status, reason: HintUnusableReason },
    /// The attempt failed.
    Failed(ClientError),
}

/// What an [`AttemptOutcome`] says.
#[allow(inconsistent_fields)]
#[verifier::ext_equal]
pub enum OutcomeView {
    Served { range: RangeView, epoch: u128 },
    LeaderHint { status: StatusView, endpoint: Seq<char>, epoch: Option<u128> },
    NoLeaderYet(StatusView),
    HintUnusable { status: StatusView, reason: HintUnusableReason },
    Failed(ErrorView),
}

impl View for AttemptOutcome {
    type V = OutcomeView;

    open spec fn view(&self) -> OutcomeView {
        match self {
            AttemptOutcome::Served { range, epoch } => OutcomeView::Served {
                range: range@,
                epoch: *epoch,
            },
            AttemptOutcome::LeaderHint { status, endpoint, epoch } => OutcomeView::LeaderHint {
                status: status@,
                endpoint: endpoint@,
                epoch: *epoch,
            },
            AttemptOutcome::NoLeaderYet(inner) => OutcomeView::NoLeaderYet(inner@),
            AttemptOutcome::HintUnusable { status, reason } => OutcomeView::HintUnusable {
                status: status@,
                reason: *reason,
            },
            AttemptOutcome::Failed(error) => OutcomeView::Failed(error@),
        }
    }
}

/// How the connect phase ended. `C` is what stands for a channel.
#[derive(Debug)]
pub enum Connected<C> {
    /// The channel is there.
    Leased(C),
    /// Opening the channel failed.
    Failed(ClientError),
    /// Opening the channel took longer than the attempt's budget.
    TimedOut,
}

/// How the RPC phase ended.
#[derive(Debug)]
pub enum Reply {
    /// The server answered.
    Answer(GetTsResponse),
    /// The call ended with this status, whose leader-hint trailer held this.
    Refused { status: Status, hint: LeaderHintLookup },
    /// The call took longer than what the connect phase left of the budget.
    TimedOut,
}

/// What a [`Reply`] says.
#[verifier::ext_equal]
pub enum ReplyView {
    Answer(GetTsResponse),
    Refused { status: StatusView, hint: LookupView },
    TimedOut,
}

impl View for Reply {
    type V = ReplyView;

    open spec fn view(&self) -> ReplyView {
        match self {
            Reply::Answer(resp) => ReplyView::Answer(*resp),
            Reply::Refused { status, hint } => ReplyView::Refused { status: status@, hint: hint@ },
            Reply::TimedOut => ReplyView::TimedOut,
        }
    }
}

/// The error of a connect phase that took longer than `budget`.
pub open spec fn connect_timeout(budget: nat) -> ErrorView {
    ErrorView::Rpc(
        status::bare_status(
            Code::DeadlineExceeded,
            "connect exceeded per_attempt_deadline of "@ + time::span_text(budget),
        ),
    )
}

/// The error of an RPC phase that took longer than `rpc_budget`, its share of `budget`.
pub open spec fn rpc_timeout(rpc_budget: nat, budget: nat) -> ErrorView {
    ErrorView::Rpc(
        status::bare_status(
            Code::DeadlineExceeded,
            "rpc exceeded its share of per_attempt_deadline ("@ + time::span_text(rpc_budget)
                + " of "@ + time::span_text(budget) + ")"@,
        ),
    )
}

/// The error of a connect phase that took longer than `budget`.
pub fn connect_timeout_error(budget: Duration) -> (r: ClientError)
    ensures
        r@ == connect_timeout(budget@),
{
    let mut why = String::from_str("connect exceeded per_attempt_deadline of ");
    why.append(budget.text().as_str());
    ClientError::Rpc(Status::new(Code::DeadlineExceeded, why))
}

/// The error of an RPC phase that took longer than `rpc_budget`, its share of `budget`.
pub fn rpc_timeout_error(rpc_budget: Duration, budget: Duration) -> (r: ClientError)
    ensures
        r@ == rpc_timeout(rpc_budget@, budget@),
{
    let mut why = String::from_str("rpc exceeded its share of per_attempt_deadline (");
    why.append(rpc_budget.text().as_str());
    why.append(" of ");
    why.append(budget.text().as_str());
    why.append(")");
    ClientError::Rpc(Status::new(Code::DeadlineExceeded, why))
}

/// The two phases of one attempt against one endpoint, under one budget.
#[derive(Clone, Copy, Debug)]
pub struct Attempt {
    budget: Duration,
    pair: PairBudget,
}

/// What an [`Attempt`] holds, in nanoseconds: its budget, and the deadline both phases share.
pub struct AttemptView {
    pub budget: nat,
    pub deadline: nat,
}

impl View for Attempt {
    type V = AttemptView;

    closed spec fn view(&self) -> AttemptView {
        AttemptView { budget: self.budget@, deadline: self.pair@ }
    }
}

impl Attempt {
    /// An attempt that starts now and may take `budget`.
    pub fn start(budget: Duration, now: Instant) -> (r: Attempt)
        ensures
            r@.budget == budget@,
            r@.deadline == now@ + budget@,
    {
        Attempt { budget, pair: PairBudget::start(budget, now) }
    }

    /// Ends the connect phase: the channel and what is left for the RPC where it is there, else the
    /// error that the attempt fails with. No channel was handed out then, so none has to be dropped.
    pub fn connected<C>(&self, outcome: Connected<C>, now: Instant) -> (r: Result<
        (C, Duration),
        ClientError,
    >)
        ensures
            match (outcome, r) {
                (Connected::Leased(channel), Ok((handed, left))) => handed == channel && left@
                    == budget::phase_left(self@.deadline, now@),
                (Connected::Failed(error), Err(failed)) => failed == error,
                (Connected::TimedOut, Err(failed)) => failed@ == connect_timeout(self@.budget),
                _ => false,
            },
    {
        match outcome {
            Connected::Leased(channel) => Ok((channel, self.pair.remaining(now))),
            Connected::Failed(error) => Err(error),
            Connected::TimedOut => Err(connect_timeout_error(self.budget)),
        }
    }

    /// Ends the RPC phase of a timestamp request for `count` timestamps over the channel of `cell`,
    /// which had `rpc_budget`.
    pub fn replied(
        &self,
        pool: &mut ChannelPool,
        endpoint: &str,
        cell: u64,
        count: u32,
        reply: Reply,
        rpc_budget: Duration,
        now: Instant,
    ) -> (r: AttemptOutcome)
        requires
            old(pool).wf(),
        ensures
            final(pool).wf(),
            (final(pool)@, r@) == judged(
                old(pool)@,
                endpoint@,
                cell,
                count,
                reply@,
                rpc_timeout(rpc_budget@, self@.budget),
                now@,
            ),
    {
        let error = match reply {
            Reply::Answer(resp) => {
                let epoch: u128 = Epoch::from_wire(resp.epoch_hi, resp.epoch_lo).0;
                return match decode_get_ts_response(resp, count) {
                    Ok(range) => AttemptOutcome::Served { range, epoch },
                    Err(error) => AttemptOutcome::Failed(error),
                };
            },
            Reply::Refused { status, hint } => {
                if status.code == Code::FailedPrecondition {
                    return classify_not_leader_hint(pool, status, hint, now);
                }
                ClientError::Rpc(status)
            },
            Reply::TimedOut => rpc_timeout_error(rpc_budget, self.budget),
        };
        if is_transport_failure(&error) {
            pool.evict_if_current(endpoint, cell);
        }
        AttemptOutcome::Failed(error)
    }
}

/// What the reply to a timestamp request means, and the pool after it; `timeout` is the error of a
/// call that timed out.
pub open spec fn judged(
    pool: PoolView,
    endpoint: Seq<char>,
    cell: u64,
    count: u32,
    reply: ReplyView,
    timeout: ErrorView,
    now: nat,
) -> (PoolView, OutcomeView) {
    match reply {
        ReplyView::Answer(resp) => match response::response_fault(resp, count) {
            None => (
                pool,
                OutcomeView::Served {
                    range: RangeView {
                        physical_ms: resp.physical_ms,
                        logical_start: resp.logical_start,
                        count: resp.count,
                    },
                    epoch: timestamp::epoch_of(resp.epoch_hi, resp.epoch_lo),
                },
            ),
            Some(why) => (pool, OutcomeView::Failed(response::fault_error(why))),
        },
        ReplyView::Refused { status, hint } => if status.code == Code::FailedPrecondition {
            leader_hint::classified(pool, status, hint, now)
        } else {
            failed_over(pool, endpoint, cell, ErrorView::Rpc(status))
        },
        ReplyView::TimedOut => failed_over(pool, endpoint, cell, timeout),
    }
}

/// A failed attempt over the channel of `cell`: the channel goes where the transport failed.
pub open spec fn failed_over(
    pool: PoolView,
    endpoint: Seq<char>,
    cell: u64,
    error: ErrorView,
) -> (PoolView, OutcomeView) {
    if retry_policy::transport_failure(error) {
        (pool.evicted(endpoint, cell), OutcomeView::Failed(error))
    } else {
        (pool, OutcomeView::Failed(error))
    }
}

/// The channel of an attempt is dropped exactly where the attempt fails with a transport failure;
/// an answer, a redirect, and every other status keep it.
pub proof fn law_only_transport_failures_evict(
    pool: PoolView,
    endpoint: Seq<char>,
    cell: u64,
    count: u32,
    reply: ReplyView,
    rpc_budget: nat,
    budget: nat,
    now: nat,
)
    ensures
        ({
            let (after, outcome) = judged(
                pool,
                endpoint,
                cell,
                count,
                reply,
                rpc_timeout(rpc_budget, budget),
                now,
            );
            &&& after.channels == if outcome matches OutcomeView::Failed(error)
                && retry_policy::transport_failure(error) {
                pool.evicted(endpoint, cell).channels
            } else {
                pool.channels
            }
            &&& reply is TimedOut ==> outcome is Failed && retry_policy::transport_failure(
                outcome->Failed_0,
            )
        }),
{
}

/// An attempt that is served hands back a valid range of exactly the count that was asked for.
pub proof fn law_served_means_sound(
    pool: PoolView,
    endpoint: Seq<char>,
    cell: u64,
    count: u32,
    reply: ReplyView,
    timeout: ErrorView,
    now: nat,
)
    ensures
        judged(pool, endpoint, cell, count, reply, timeout, now).1 matches OutcomeView::Served {
            range,
            ..
        } ==> range.valid() && range.count == count && count > 0,
{
}

} // verus!
