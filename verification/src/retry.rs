//! The retry loop of a client call: which endpoint to dial next, when to pause, when to stop, and
//! what to report.
//!
//! A call works in passes over a worklist of endpoints. A leader hint puts the hinted endpoint in
//! front; an endpoint is dialed at most once per pass. A pass that saw a reachable server report an
//! election is followed by another one, after a pause and while the call's deadline lies ahead;
//! any other pass that ends without an answer ends the call.
//!
//! Three things bound a call: its deadline, the cap on failed attempts (never below the number of
//! endpoints of the first worklist), and two caps on leader hints, one per pass and one for the
//! whole call. The loop is run from outside: [`RetryLoop::next`] says what to do, and
//! [`RetryLoop::on_attempt`] or [`RetryLoop::on_seq_attempt`] takes what came of it.
use vstd::prelude::*;
use vstd::string::*;

use crate::attempt::{AttemptOutcome, HintUnusableReason, OutcomeView};
use crate::budget::{Budget, BudgetView};
use crate::channel_pool::{ChannelPool, PoolView, SeatSource};
use crate::error::{ClientError, ErrorView};
use crate::response::{RangeView, TimestampRange};
use crate::retry_policy;
use crate::retry_policy::{is_transport_failure, jittered_backoff, should_backoff, RetryPolicy};
use crate::seq_attempt::{SeqAttemptOutcome, SeqBlock, SeqOutcomeView};
use crate::status;
use crate::status::{Code, Status, StatusView};
use crate::text;
use crate::text::decimal_text;
use crate::time::{Duration, Instant};
use crate::worklist::{Worklist, WorklistView};

verus! {

/// Most leader hints that one pass follows. Beyond it the pass ends, as if an election had been
/// reported.
pub const MAX_LEADER_REDIRECTS: u32 = 16;

/// Most leader hints that one call follows, over all passes. Beyond it the call ends, whatever time
/// it has left.
pub const MAX_TOTAL_LEADER_REDIRECTS: u32 = 64;

/// Where a call stands.
#[derive(Clone, Copy, Debug, PartialEq, Eq, Structural)]
pub enum Phase {
    /// In a pass, about to take the next endpoint.
    Polling,
    /// An attempt is under way.
    Dialing,
    /// The pass is over.
    PassOver,
    /// A pause before another pass is under way.
    NewPass,
    /// The call is over.
    Stopped,
}

/// What to do next.
#[derive(Debug)]
pub enum Step {
    /// Make an attempt against this endpoint within this budget, and hand its outcome back.
    Dial { endpoint: String, budget: Duration },
    /// Pause for [`RetryLoop::pause`] of this exponent, then ask again.
    Backoff { exponent: u32 },
    /// The call ends with [`RetryLoop::into_error`].
    GiveUp,
}

/// What a [`Step`] says.
#[verifier::ext_equal]
pub enum StepView {
    Dial { endpoint: Seq<char>, budget: nat },
    Backoff { exponent: u32 },
    GiveUp,
}

impl View for Step {
    type V = StepView;

    open spec fn view(&self) -> StepView {
        match self {
            Step::Dial { endpoint, budget } => StepView::Dial {
                endpoint: endpoint@,
                budget: budget@,
            },
            Step::Backoff { exponent } => StepView::Backoff { exponent: *exponent },
            Step::GiveUp => StepView::GiveUp,
        }
    }
}

/// What became of an attempt that did not end the call by success.
#[derive(Debug)]
pub enum Verdict {
    /// The peer refused with this status and named the leader.
    Redirect { status: Status, endpoint: String },
    /// A reachable server reported an election.
    Election(Status),
    /// The server turned the request down for good.
    Rejected(Status),
    /// The attempt failed.
    Failed(ClientError),
}

/// What a [`Verdict`] says.
#[verifier::ext_equal]
pub enum VerdictView {
    Redirect { status: StatusView, endpoint: Seq<char> },
    Election(StatusView),
    Rejected(StatusView),
    Failed(ErrorView),
}

impl View for Verdict {
    type V = VerdictView;

    open spec fn view(&self) -> VerdictView {
        match self {
            Verdict::Redirect { status, endpoint } => VerdictView::Redirect {
                status: status@,
                endpoint: endpoint@,
            },
            Verdict::Election(inner) => VerdictView::Election(inner@),
            Verdict::Rejected(inner) => VerdictView::Rejected(inner@),
            Verdict::Failed(error) => VerdictView::Failed(error@),
        }
    }
}

/// What follows an attempt.
#[derive(Debug)]
pub enum AfterAttempt<T> {
    /// The call ends with this.
    Done(T),
    /// Pause for [`RetryLoop::pause`] of this exponent, then ask for the next step.
    Backoff { exponent: u32 },
    /// Ask for the next step at once.
    Continue,
}

/// The state of one call.
pub struct RetryLoop {
    policy: RetryPolicy,
    budget: Budget,
    worklist: Worklist,
    phase: Phase,
    redirects: u32,
    total_redirects: u32,
    failed_attempts: u32,
    attempt_cap: usize,
    pass: u32,
    saw_election_signal: bool,
    election_signal: Option<Status>,
    last_err: Option<ClientError>,
}

/// What a [`RetryLoop`] holds.
#[verifier::ext_equal]
pub struct RetryView {
    /// Base of the backoff, in nanoseconds.
    pub base_backoff: nat,
    /// The deadlines.
    pub budget: BudgetView,
    /// The endpoints of this pass.
    pub worklist: WorklistView,
    /// Where the call stands.
    pub phase: Phase,
    /// Leader hints followed in this pass.
    pub redirects: u32,
    /// Leader hints followed in the whole call.
    pub total_redirects: u32,
    /// Attempts that failed in the whole call.
    pub failed_attempts: u32,
    /// Cap on those.
    pub attempt_cap: usize,
    /// Number of this pass, from zero.
    pub pass: u32,
    /// Whether this pass saw an election reported.
    pub saw_election_signal: bool,
    /// The last report of an election in the whole call.
    pub election_signal: Option<StatusView>,
    /// The last error in the whole call, or the first refusal with a leader hint where there was
    /// none.
    pub last_err: Option<ErrorView>,
}

/// The error of a call that ran into the cap on its leader hints.
pub open spec fn total_cap_status() -> StatusView {
    status::bare_status(
        Code::FailedPrecondition,
        "absolute leader-hint redirect cap ("@ + text::spec_decimal(
            MAX_TOTAL_LEADER_REDIRECTS as nat,
        ) + ") reached across passes before finding the live leader"@,
    )
}

/// The status of a pass that ran into the cap on its leader hints.
pub open spec fn pass_cap_status() -> StatusView {
    status::bare_status(
        Code::FailedPrecondition,
        "leader-hint redirect cap ("@ + text::spec_decimal(MAX_LEADER_REDIRECTS as nat)
            + ") reached before finding the live leader"@,
    )
}

/// What a call that ends without an answer reports: the recorded error where that is definite, else
/// the last report of an election, else the recorded transport failure, else that nothing could be
/// tried.
pub open spec fn surfaced(
    election_signal: Option<StatusView>,
    last_err: Option<ErrorView>,
) -> ErrorView {
    match (last_err, election_signal) {
        (Some(error), Some(signal)) => if retry_policy::transport_failure(error) {
            ErrorView::Rpc(signal)
        } else {
            error
        },
        (Some(error), None) => error,
        (None, Some(signal)) => ErrorView::Rpc(signal),
        (None, None) => ErrorView::NoReachableEndpoints,
    }
}

/// Chooses what a call that ends without an answer reports; see [`surfaced`].
pub fn surface_error(election_signal: Option<Status>, last_err: Option<ClientError>) -> (r:
    ClientError)
    ensures
        r@ == surfaced(text::option_view(election_signal), text::option_view(last_err)),
{
    match last_err {
        Some(error) => {
            if !is_transport_failure(&error) {
                return error;
            }
            match election_signal {
                Some(signal) => ClientError::Rpc(signal),
                None => error,
            }
        },
        None => match election_signal {
            Some(signal) => ClientError::Rpc(signal),
            None => ClientError::NoReachableEndpoints,
        },
    }
}

/// `n + 1`, or the largest value where that is no more.
pub open spec fn bumped(n: u32) -> u32 {
    if n == u32::MAX {
        n
    } else {
        (n + 1) as u32
    }
}

impl RetryView {
    /// A call over the pool that starts at `now`.
    pub open spec fn started(pool: PoolView, now: nat) -> RetryView {
        let order = pool.dial_order(now);
        RetryView {
            base_backoff: pool.retry_policy.base_backoff@,
            budget: BudgetView {
                deadline: now + pool.retry_policy.overall_deadline@,
                per_attempt: pool.retry_policy.per_attempt_deadline@,
            },
            worklist: WorklistView::seeded(order),
            phase: Phase::Polling,
            redirects: 0,
            total_redirects: 0,
            failed_attempts: 0,
            attempt_cap: if pool.retry_policy.max_attempts >= order.len() {
                pool.retry_policy.max_attempts
            } else {
                order.len() as usize
            },
            pass: 0,
            saw_election_signal: false,
            election_signal: None,
            last_err: None,
        }
    }

    /// The caps hold, an attempt is under way only below the cap on failures, and what was seen is
    /// recorded.
    pub open spec fn inv(self) -> bool {
        &&& self.redirects <= MAX_LEADER_REDIRECTS
        &&& self.total_redirects <= MAX_TOTAL_LEADER_REDIRECTS
        &&& self.redirects <= self.total_redirects
        &&& self.failed_attempts <= self.attempt_cap
        &&& self.phase == Phase::Dialing ==> self.failed_attempts < self.attempt_cap
        &&& self.saw_election_signal ==> self.election_signal is Some
        &&& self.election_signal is Some ==> self.last_err is Some
        &&& self.phase == Phase::NewPass ==> self.election_signal is Some
    }

    /// Another pass: a new worklist, a new allowance of hints, and nothing seen yet.
    pub open spec fn repolled(self, pool: PoolView, now: nat) -> RetryView {
        RetryView {
            worklist: WorklistView::seeded(pool.dial_order(now)),
            redirects: 0,
            saw_election_signal: false,
            phase: Phase::Polling,
            ..self
        }
    }

    /// The end of a pass: another one where an election was reported and time is left.
    pub open spec fn pass_ended(self, now: nat) -> (RetryView, StepView) {
        if self.saw_election_signal && self.budget.attempt(now) is Some {
            (
                RetryView { phase: Phase::NewPass, pass: bumped(self.pass), ..self },
                StepView::Backoff { exponent: self.pass },
            )
        } else {
            (RetryView { phase: Phase::Stopped, ..self }, StepView::GiveUp)
        }
    }

    /// The next endpoint of a pass, or its end.
    pub open spec fn polled(self, now: nat) -> (RetryView, StepView) {
        let (found, rest) = self.worklist.popped();
        let taken = RetryView { worklist: rest, ..self };
        match (found, self.budget.attempt(now)) {
            (Some(endpoint), Some(budget)) => if self.failed_attempts < self.attempt_cap {
                (
                    RetryView { phase: Phase::Dialing, ..taken },
                    StepView::Dial { endpoint, budget },
                )
            } else {
                taken.pass_ended(now)
            },
            _ => taken.pass_ended(now),
        }
    }

    /// What to do next.
    pub open spec fn stepped(self, pool: PoolView, now: nat) -> (RetryView, PoolView, StepView) {
        match self.phase {
            Phase::Polling => {
                let (after, step) = self.polled(now);
                (after, pool, step)
            },
            Phase::NewPass => {
                let (after, step) = self.repolled(pool, now).polled(now);
                (after, pool.rotated(), step)
            },
            Phase::PassOver => {
                let (after, step) = self.pass_ended(now);
                (after, pool, step)
            },
            Phase::Dialing | Phase::Stopped => (
                RetryView { phase: Phase::Stopped, ..self },
                pool,
                StepView::GiveUp,
            ),
        }
    }

    /// The call after an attempt, and the exponent of the pause that follows it, where one does.
    ///
    /// - A redirect beyond the call's cap ends the call; beyond the pass's cap it ends the pass as
    ///   a report of an election; else the hinted endpoint is next, and the refusal is recorded
    ///   where nothing was yet. None is charged as a failure.
    /// - A report of an election is kept for the end of the pass, and for good as what to report.
    /// - A rejection is only recorded.
    /// - A failure is recorded and charged; after a transport failure the loop pauses.
    pub open spec fn settled(self, verdict: VerdictView) -> (RetryView, Option<u32>) {
        match verdict {
            VerdictView::Redirect { status, endpoint } => if self.total_redirects
                >= MAX_TOTAL_LEADER_REDIRECTS {
                (
                    RetryView {
                        last_err: Some(ErrorView::Rpc(total_cap_status())),
                        phase: Phase::Stopped,
                        ..self
                    },
                    None,
                )
            } else if self.redirects >= MAX_LEADER_REDIRECTS {
                (
                    RetryView {
                        saw_election_signal: true,
                        election_signal: Some(pass_cap_status()),
                        last_err: Some(ErrorView::Rpc(pass_cap_status())),
                        phase: Phase::PassOver,
                        ..self
                    },
                    None,
                )
            } else {
                (
                    RetryView {
                        redirects: (self.redirects + 1) as u32,
                        total_redirects: (self.total_redirects + 1) as u32,
                        worklist: self.worklist.redirected(endpoint),
                        last_err: if self.last_err is None {
                            Some(ErrorView::Rpc(status))
                        } else {
                            self.last_err
                        },
                        phase: Phase::Polling,
                        ..self
                    },
                    None,
                )
            },
            VerdictView::Election(signal) => (
                RetryView {
                    saw_election_signal: true,
                    election_signal: Some(signal),
                    last_err: Some(ErrorView::Rpc(signal)),
                    phase: Phase::Polling,
                    ..self
                },
                None,
            ),
            VerdictView::Rejected(inner) => (
                RetryView {
                    last_err: Some(ErrorView::Rpc(inner)),
                    phase: Phase::Polling,
                    ..self
                },
                None,
            ),
            VerdictView::Failed(error) => (
                RetryView {
                    last_err: Some(error),
                    failed_attempts: bumped(self.failed_attempts),
                    phase: Phase::Polling,
                    ..self
                },
                if retry_policy::transport_failure(error) {
                    Some((bumped(self.failed_attempts) - 1) as u32)
                } else {
                    None
                },
            ),
        }
    }
}

/// What an attempt that was not served means for the loop.
pub open spec fn verdict_of(outcome: OutcomeView) -> VerdictView {
    match outcome {
        OutcomeView::LeaderHint { status, endpoint, .. } => VerdictView::Redirect {
            status,
            endpoint,
        },
        OutcomeView::NoLeaderYet(signal) => VerdictView::Election(signal),
        OutcomeView::HintUnusable { status, reason } => if reason
            == HintUnusableReason::StaleEpoch {
            VerdictView::Election(status)
        } else {
            VerdictView::Rejected(status)
        },
        OutcomeView::Failed(error) => VerdictView::Failed(error),
        OutcomeView::Served { .. } => VerdictView::Failed(ErrorView::NoReachableEndpoints),
    }
}

/// What an attempt at a block that took none, and is not uncertain, means for the loop.
pub open spec fn seq_verdict_of(outcome: SeqOutcomeView) -> VerdictView {
    match outcome {
        SeqOutcomeView::LeaderHint { status, endpoint, .. } => VerdictView::Redirect {
            status,
            endpoint,
        },
        SeqOutcomeView::NoLeaderYet(signal) => VerdictView::Election(signal),
        SeqOutcomeView::Failed(error) => VerdictView::Failed(error),
        SeqOutcomeView::Uncertain => VerdictView::Failed(ErrorView::SeqUncertain),
    }
}

impl View for RetryLoop {
    type V = RetryView;

    closed spec fn view(&self) -> RetryView {
        RetryView {
            base_backoff: self.policy.base_backoff@,
            budget: self.budget@,
            worklist: self.worklist@,
            phase: self.phase,
            redirects: self.redirects,
            total_redirects: self.total_redirects,
            failed_attempts: self.failed_attempts,
            attempt_cap: self.attempt_cap,
            pass: self.pass,
            saw_election_signal: self.saw_election_signal,
            election_signal: text::option_view(self.election_signal),
            last_err: text::option_view(self.last_err),
        }
    }
}

fn bump(n: u32) -> (r: u32)
    ensures
        r == bumped(n),
{
    if n == u32::MAX {
        n
    } else {
        n + 1
    }
}

impl RetryLoop {
    /// Starts a call over the pool.
    pub fn start(pool: &mut ChannelPool, now: Instant) -> (r: RetryLoop)
        requires
            old(pool).wf(),
        ensures
            final(pool).wf(),
            final(pool)@ == old(pool)@.rotated(),
            r@ == RetryView::started(old(pool)@, now@),
            r@.inv(),
    {
        let policy: RetryPolicy = *pool.retry_policy();
        let budget = Budget::start(&policy, now);
        let endpoints = pool.iter_round_robin(now);
        assert(text::views(endpoints@).len() == endpoints@.len());
        let attempt_cap: usize = if policy.max_attempts >= endpoints.len() {
            policy.max_attempts
        } else {
            endpoints.len()
        };
        RetryLoop {
            policy,
            budget,
            worklist: Worklist::new(endpoints),
            phase: Phase::Polling,
            redirects: 0,
            total_redirects: 0,
            failed_attempts: 0,
            attempt_cap,
            pass: 0,
            saw_election_signal: false,
            election_signal: None,
            last_err: None,
        }
    }

    /// Says what to do next. An attempt that is under way has to be settled first.
    pub fn next(&mut self, pool: &mut ChannelPool, now: Instant) -> (r: Step)
        requires
            old(pool).wf(),
            old(self)@.inv(),
            old(self)@.phase != Phase::Dialing,
        ensures
            final(pool).wf(),
            (final(self)@, final(pool)@, r@) == old(self)@.stepped(old(pool)@, now@),
            final(self)@.inv(),
    {
        match self.phase {
            Phase::Polling => self.poll(now),
            Phase::NewPass => {
                self.worklist = Worklist::new(pool.iter_round_robin(now));
                self.redirects = 0;
                self.saw_election_signal = false;
                self.phase = Phase::Polling;
                self.poll(now)
            },
            Phase::PassOver => self.end_pass(now),
            Phase::Dialing | Phase::Stopped => {
                self.phase = Phase::Stopped;
                Step::GiveUp
            },
        }
    }

    fn poll(&mut self, now: Instant) -> (r: Step)
        requires
            old(self)@.inv(),
            old(self)@.phase == Phase::Polling,
        ensures
            (final(self)@, r@) == old(self)@.polled(now@),
            final(self)@.inv(),
    {
        let found = self.worklist.next();
        match found {
            Some(endpoint) => {
                if self.failed_attempts as usize >= self.attempt_cap {
                    return self.end_pass(now);
                }
                match self.budget.next_attempt(now) {
                    Some(budget) => {
                        self.phase = Phase::Dialing;
                        Step::Dial { endpoint, budget }
                    },
                    None => self.end_pass(now),
                }
            },
            None => self.end_pass(now),
        }
    }

    fn end_pass(&mut self, now: Instant) -> (r: Step)
        requires
            old(self)@.inv(),
        ensures
            (final(self)@, r@) == old(self)@.pass_ended(now@),
            final(self)@.inv(),
    {
        if self.saw_election_signal && self.budget.next_attempt(now).is_some() {
            let exponent: u32 = self.pass;
            self.pass = bump(self.pass);
            self.phase = Phase::NewPass;
            Step::Backoff { exponent }
        } else {
            self.phase = Phase::Stopped;
            Step::GiveUp
        }
    }

    /// The pause of the given exponent: a jittered backoff that does not sleep past the call's
    /// deadline. Which span of the window is drawn is left open.
    pub fn pause(&self, exponent: u32, now: Instant) -> (r: Duration)
        ensures
            r@ <= retry_policy::backoff_window(self@.base_backoff, exponent as nat),
            r@ <= self@.budget.left(now@),
            r@ % 1_000 == 0 || r@ == self@.budget.left(now@),
            exists|number: u64| #[trigger]
                retry_policy::drawn(
                    (retry_policy::backoff_window(self@.base_backoff, exponent as nat)
                        / 1_000) as u64,
                    number,
                ) && r@ == if number * 1_000 <= self@.budget.left(now@) {
                    (number * 1_000) as nat
                } else {
                    self@.budget.left(now@)
                },
    {
        let backoff = jittered_backoff(self.policy.base_backoff, exponent);
        self.budget.clamp_backoff(backoff, now)
    }

    /// Takes the outcome of an attempt that did not end the call by success; gives the exponent of
    /// the pause that follows, where one does.
    pub fn settle(&mut self, verdict: Verdict) -> (r: Option<u32>)
        requires
            old(self)@.inv(),
            old(self)@.phase == Phase::Dialing,
        ensures
            (final(self)@, r) == old(self)@.settled(verdict@),
            final(self)@.inv(),
    {
        match verdict {
            Verdict::Redirect { status: refusal, endpoint } => {
                if self.total_redirects >= MAX_TOTAL_LEADER_REDIRECTS {
                    let mut why = String::from_str("absolute leader-hint redirect cap (");
                    why.append(decimal_text(MAX_TOTAL_LEADER_REDIRECTS as u64).as_str());
                    why.append(") reached across passes before finding the live leader");
                    self.last_err = Some(
                        ClientError::Rpc(Status::new(Code::FailedPrecondition, why)),
                    );
                    self.phase = Phase::Stopped;
                    return None;
                }
                if self.redirects >= MAX_LEADER_REDIRECTS {
                    let mut why = String::from_str("leader-hint redirect cap (");
                    why.append(decimal_text(MAX_LEADER_REDIRECTS as u64).as_str());
                    why.append(") reached before finding the live leader");
                    let signal = Status::new(Code::FailedPrecondition, why);
                    self.election_signal = Some(signal.clone());
                    self.last_err = Some(ClientError::Rpc(signal));
                    self.saw_election_signal = true;
                    self.phase = Phase::PassOver;
                    return None;
                }
                self.redirects = self.redirects + 1;
                self.total_redirects = self.total_redirects + 1;
                self.worklist.redirect_to(endpoint);
                if self.last_err.is_none() {
                    self.last_err = Some(ClientError::Rpc(refusal));
                }
                self.phase = Phase::Polling;
                None
            },
            Verdict::Election(signal) => {
                self.saw_election_signal = true;
                self.election_signal = Some(signal.clone());
                self.last_err = Some(ClientError::Rpc(signal));
                self.phase = Phase::Polling;
                None
            },
            Verdict::Rejected(inner) => {
                self.last_err = Some(ClientError::Rpc(inner));
                self.phase = Phase::Polling;
                None
            },
            Verdict::Failed(error) => {
                let pauses: bool = should_backoff(&error);
                self.last_err = Some(error);
                self.failed_attempts = bump(self.failed_attempts);
                self.phase = Phase::Polling;
                if pauses {
                    Some(self.failed_attempts - 1)
                } else {
                    None
                }
            },
        }
    }

    /// Takes the outcome of an attempt at timestamps. One that was served ends the call and seats
    /// its endpoint as the confirmed leader; every other one is settled.
    pub fn on_attempt(
        &mut self,
        pool: &mut ChannelPool,
        endpoint: &str,
        outcome: AttemptOutcome,
        now: Instant,
    ) -> (r: AfterAttempt<TimestampRange>)
        requires
            old(pool).wf(),
            old(self)@.inv(),
            old(self)@.phase == Phase::Dialing,
        ensures
            final(pool).wf(),
            final(self)@.inv(),
            match outcome@ {
                OutcomeView::Served { range, epoch } => {
                    &&& r matches AfterAttempt::Done(served) && served@ == range
                    &&& final(self)@ == (RetryView { phase: Phase::Stopped, ..old(self)@ })
                    &&& final(pool)@ == old(pool)@.seat(
                        endpoint@,
                        Some(epoch),
                        SeatSource::Confirmed,
                        now@,
                    ).0
                },
                other => {
                    &&& final(pool)@ == old(pool)@
                    &&& continued(old(self)@, verdict_of(other), final(self)@, r)
                },
            },
    {
        let verdict = match outcome {
            AttemptOutcome::Served { range, epoch } => {
                pool.record_success(endpoint, epoch, now);
                self.phase = Phase::Stopped;
                return AfterAttempt::Done(range);
            },
            AttemptOutcome::LeaderHint {
                status: refusal,
                endpoint: hinted,
                ..
            } => Verdict::Redirect { status: refusal, endpoint: hinted },
            AttemptOutcome::NoLeaderYet(signal) => Verdict::Election(signal),
            AttemptOutcome::HintUnusable { status: inner, reason } => match reason {
                HintUnusableReason::StaleEpoch => Verdict::Election(inner),
                HintUnusableReason::Rejected => Verdict::Rejected(inner),
            },
            AttemptOutcome::Failed(error) => Verdict::Failed(error),
        };
        match self.settle(verdict) {
            Some(exponent) => AfterAttempt::Backoff { exponent },
            None => AfterAttempt::Continue,
        }
    }

    /// Takes the outcome of an attempt at a dense block. A block ends the call, and so does an
    /// uncertain outcome, which is never retried; every other one is settled.
    pub fn on_seq_attempt(&mut self, outcome: Result<SeqBlock, SeqAttemptOutcome>) -> (r:
        AfterAttempt<Result<SeqBlock, ClientError>>)
        requires
            old(self)@.inv(),
            old(self)@.phase == Phase::Dialing,
        ensures
            final(self)@.inv(),
            match outcome {
                Ok(block) => {
                    &&& r == AfterAttempt::<Result<SeqBlock, ClientError>>::Done(Ok(block))
                    &&& final(self)@ == (RetryView { phase: Phase::Stopped, ..old(self)@ })
                },
                Err(SeqAttemptOutcome::Uncertain) => {
                    &&& r matches AfterAttempt::Done(Err(error)) && error@
                        == ErrorView::SeqUncertain
                    &&& final(self)@ == (RetryView { phase: Phase::Stopped, ..old(self)@ })
                },
                Err(other) => continued(old(self)@, seq_verdict_of(other@), final(self)@, r),
            },
    {
        let verdict = match outcome {
            Ok(block) => {
                self.phase = Phase::Stopped;
                return AfterAttempt::Done(Ok(block));
            },
            Err(SeqAttemptOutcome::Uncertain) => {
                self.phase = Phase::Stopped;
                return AfterAttempt::Done(Err(ClientError::SeqUncertain));
            },
            Err(
                SeqAttemptOutcome::LeaderHint { status: refusal, endpoint: hinted, .. },
            ) => Verdict::Redirect { status: refusal, endpoint: hinted },
            Err(SeqAttemptOutcome::NoLeaderYet(signal)) => Verdict::Election(signal),
            Err(SeqAttemptOutcome::Failed(error)) => Verdict::Failed(error),
        };
        match self.settle(verdict) {
            Some(exponent) => AfterAttempt::Backoff { exponent },
            None => AfterAttempt::Continue,
        }
    }

    /// What a call that ends without an answer reports.
    pub fn into_error(self) -> (r: ClientError)
        ensures
            r@ == surfaced(self@.election_signal, self@.last_err),
    {
        surface_error(self.election_signal, self.last_err)
    }
}

/// The call goes on after an attempt with this verdict, and `next` says how.
pub open spec fn continued<T>(
    before: RetryView,
    verdict: VerdictView,
    after: RetryView,
    next: AfterAttempt<T>,
) -> bool {
    let (settled, exponent) = before.settled(verdict);
    &&& after == settled
    &&& next == match exponent {
        Some(exponent) => AfterAttempt::<T>::Backoff { exponent },
        None => AfterAttempt::<T>::Continue,
    }
}

} // verus!
