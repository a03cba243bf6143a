//! What holds of a whole client call, whatever the endpoints answer.
use vstd::prelude::*;

use crate::attempt;
use crate::attempt::{AttemptOutcome, HintUnusableReason, OutcomeView, ReplyView};
use crate::attempt_laws;
use crate::channel_pool::{ChannelPool, PoolView};
use crate::error::{ClientError, ErrorView};
use crate::response::TimestampRange;
use crate::retry;
use crate::retry::{
    AfterAttempt, Phase, RetryLoop, RetryView, Step, StepView, Verdict, VerdictView,
    MAX_LEADER_REDIRECTS, MAX_TOTAL_LEADER_REDIRECTS,
};
use crate::retry_policy;
use crate::seq_attempt;
use crate::seq_attempt::{SeqAttemptOutcome, SeqBlock, SeqOutcomeView, SeqReplyView};
use crate::status::{Code, Status, StatusView};
use crate::text;
use crate::time::{Duration, Instant};
use crate::worklist;

verus! {

/// One round of a call as seen from outside: the pool and the time when the next step was asked
/// for, and what became of the attempt, where there was one.
pub struct Round {
    pub pool: PoolView,
    pub now: nat,
    pub verdict: VerdictView,
}

/// The call after one round.
pub open spec fn after_round(call: RetryView, round: Round) -> RetryView {
    let (stepped, _, step) = call.stepped(round.pool, round.now);
    match step {
        StepView::Dial { .. } => stepped.settled(round.verdict).0,
        _ => stepped,
    }
}

/// True where the round made an attempt.
pub open spec fn dials(call: RetryView, round: Round) -> bool {
    call.stepped(round.pool, round.now).2 is Dial
}

/// The number of attempts, over the given rounds, whose verdict is counted.
pub open spec fn counted(
    call: RetryView,
    rounds: Seq<Round>,
    wanted: spec_fn(VerdictView) -> bool,
) -> nat
    decreases rounds.len(),
{
    if rounds.len() == 0 {
        0
    } else {
        let here: nat = if dials(call, rounds[0]) && wanted(rounds[0].verdict) {
            1
        } else {
            0
        };
        here + counted(after_round(call, rounds[0]), rounds.drop_first(), wanted)
    }
}

/// The caps on hints and failures hold at the start of every call and after every round of it.
pub proof fn law_caps_hold(pool: PoolView, start: nat, call: RetryView, round: Round)
    ensures
        RetryView::started(pool, start).inv(),
        call.inv() && call.phase != Phase::Dialing ==> after_round(call, round).inv()
            && after_round(call, round).phase != Phase::Dialing,
{
}

/// An attempt is granted only before the call's deadline, within it, and within the cap on one
/// attempt; at the deadline no attempt starts, however many endpoints are queued.
pub proof fn law_attempts_respect_deadline(call: RetryView, pool: PoolView, now: nat)
    ensures
        call.stepped(pool, now).2 matches StepView::Dial { budget, .. } ==> now
            < call.budget.deadline && now + budget <= call.budget.deadline && budget
            <= call.budget.per_attempt,
        now >= call.budget.deadline ==> call.stepped(pool, now).2 is GiveUp,
{
}

/// A redirect below both caps to an endpoint this pass has not dialed is dialed next, as long as
/// the failures are below their cap and the deadline lies ahead. It charges no failure.
pub proof fn law_redirect_is_followed(
    call: RetryView,
    status: StatusView,
    hinted: Seq<char>,
    pool: PoolView,
    now: nat,
)
    requires
        call.phase == Phase::Dialing,
        call.inv(),
        call.redirects < MAX_LEADER_REDIRECTS,
        call.total_redirects < MAX_TOTAL_LEADER_REDIRECTS,
        !call.worklist.visited.contains(hinted),
        now < call.budget.deadline,
    ensures
        ({
            let (settled, pause) = call.settled(VerdictView::Redirect { status, endpoint: hinted });
            &&& pause is None
            &&& settled.failed_attempts == call.failed_attempts
            &&& settled.stepped(pool, now).2 matches StepView::Dial { endpoint, .. } && endpoint
                == hinted
        }),
{
    worklist::law_redirect_is_next(call.worklist, hinted);
}

/// True where a pass is at its end: it ran into its cap on hints, or no endpoint is left, or the
/// failures are at their cap, or the deadline is reached.
pub open spec fn pass_is_over(call: RetryView, now: nat) -> bool {
    ||| call.phase == Phase::PassOver
    ||| call.phase == Phase::Polling && (call.worklist.popped().0 is None || call.failed_attempts
        >= call.attempt_cap || now >= call.budget.deadline)
}

/// A pass, however it ends, is followed by another one exactly where it saw an election reported
/// and the deadline lies ahead; else the call ends there. A pass that is not at its end dials, and
/// one that has just begun is not followed by another at once.
pub proof fn law_ride_out_only_on_election(call: RetryView, pool: PoolView, now: nat)
    ensures
        pass_is_over(call, now) ==> match call.stepped(pool, now).2 {
            StepView::Backoff { exponent } => call.saw_election_signal && now
                < call.budget.deadline && exponent == call.pass,
            StepView::GiveUp => !(call.saw_election_signal && now < call.budget.deadline),
            StepView::Dial { .. } => false,
        },
        call.phase == Phase::Polling && !pass_is_over(call, now) ==> call.stepped(
            pool,
            now,
        ).2 is Dial,
        call.phase == Phase::NewPass ==> !(call.stepped(pool, now).2 is Backoff),
{
}

spec fn unsignalled(call: RetryView) -> bool {
    &&& !call.saw_election_signal
    &&& call.phase == Phase::Polling || call.phase == Phase::Stopped
}

proof fn lemma_unsignalled(call: RetryView, rounds: Seq<Round>)
    requires
        unsignalled(call),
        call.redirects + counted(call, rounds, |v: VerdictView| v is Redirect)
            <= MAX_LEADER_REDIRECTS,
        forall|i: int| 0 <= i < rounds.len() ==> !((#[trigger] rounds[i]).verdict is Election),
    ensures
        unsignalled(after_rounds(call, rounds)),
    decreases rounds.len(),
{
    if rounds.len() > 0 {
        let next = after_round(call, rounds[0]);
        assert(!(rounds[0].verdict is Election));
        assert forall|i: int| 0 <= i < rounds.drop_first().len() implies !((
        #[trigger] rounds.drop_first()[i]).verdict is Election) by {
            assert(rounds.drop_first()[i] == rounds[i + 1]);
        }
        lemma_unsignalled(next, rounds.drop_first());
    }
}

/// A call to which no server ever reported an election, and that stayed within one pass's cap on
/// hints, never starts a second pass: a dead pool, and peers that turn the request down or send
/// bad hints, make it fail fast, however long its deadline is.
pub proof fn law_no_election_no_second_pass(
    pool: PoolView,
    start: nat,
    rounds: Seq<Round>,
    last_pool: PoolView,
    now: nat,
)
    requires
        forall|i: int| 0 <= i < rounds.len() ==> !((#[trigger] rounds[i]).verdict is Election),
        counted(RetryView::started(pool, start), rounds, |v: VerdictView| v is Redirect)
            <= MAX_LEADER_REDIRECTS,
    ensures
        !(after_rounds(RetryView::started(pool, start), rounds).stepped(last_pool, now).2
            is Backoff),
{
    lemma_unsignalled(RetryView::started(pool, start), rounds);
}

/// Only a report of an election, or the cap on a pass's hints, makes a pass count as having seen
/// one: neither a failure nor a rejection does, so an unreachable pool and a peer that sends bad
/// hints end the call after one pass.
pub proof fn law_what_signals_an_election(call: RetryView, verdict: VerdictView)
    ensures
        call.settled(verdict).0.saw_election_signal <==> (call.saw_election_signal
            || verdict is Election || (verdict is Redirect && call.total_redirects
            < MAX_TOTAL_LEADER_REDIRECTS && call.redirects >= MAX_LEADER_REDIRECTS)),
{
}

/// Which outcomes of an attempt report an election: no leader known, or a stale hint. A hint that
/// was rejected does not.
pub proof fn law_which_outcomes_signal_an_election(outcome: OutcomeView)
    requires
        !(outcome is Served),
    ensures
        retry::verdict_of(outcome) is Election <==> (outcome is NoLeaderYet || (
        outcome matches OutcomeView::HintUnusable { reason, .. } && reason
            == HintUnusableReason::StaleEpoch)),
        retry::verdict_of(outcome) is Failed <==> outcome is Failed,
{
}

/// A call remembers that an election was reported to its end, over all passes.
pub proof fn law_election_signal_is_sticky(call: RetryView, round: Round)
    requires
        call.election_signal is Some,
    ensures
        after_round(call, round).election_signal is Some,
{
}

/// What a call reports: a definite error that was recorded last wins over a report of an election,
/// which wins over a transport failure; that nothing was reachable is reported only where nothing
/// was recorded at all.
pub proof fn law_what_is_surfaced(signal: StatusView, error: ErrorView)
    ensures
        !retry_policy::transport_failure(error) ==> retry::surfaced(Some(signal), Some(error))
            == error,
        retry_policy::transport_failure(error) ==> retry::surfaced(Some(signal), Some(error))
            == ErrorView::Rpc(signal),
        retry::surfaced(None, Some(error)) == error,
        retry::surfaced(None, None) == ErrorView::NoReachableEndpoints,
{
}

/// The call after all rounds.
pub open spec fn after_rounds(call: RetryView, rounds: Seq<Round>) -> RetryView
    decreases rounds.len(),
{
    if rounds.len() == 0 {
        call
    } else {
        after_rounds(after_round(call, rounds[0]), rounds.drop_first())
    }
}

/// What the call reports where it ends after the given rounds.
pub open spec fn report(call: RetryView, rounds: Seq<Round>) -> ErrorView {
    let ended = after_rounds(call, rounds);
    retry::surfaced(ended.election_signal, ended.last_err)
}

spec fn tried(call: RetryView) -> bool {
    call.last_err is Some && !(call.last_err->0 is NoReachableEndpoints)
}

spec fn untried(call: RetryView) -> bool {
    call.last_err is None && call.election_signal is None
}

proof fn lemma_tried(call: RetryView, rounds: Seq<Round>)
    requires
        tried(call) || untried(call),
        forall|i: int|
            0 <= i < rounds.len() ==> (#[trigger] rounds[i]).verdict != VerdictView::Failed(
                ErrorView::NoReachableEndpoints,
            ),
    ensures
        tried(after_rounds(call, rounds)) <==> tried(call) || counted(
            call,
            rounds,
            |v: VerdictView| true,
        ) > 0,
        tried(after_rounds(call, rounds)) || untried(after_rounds(call, rounds)),
    decreases rounds.len(),
{
    if rounds.len() > 0 {
        let next = after_round(call, rounds[0]);
        assert(rounds[0].verdict != VerdictView::Failed(ErrorView::NoReachableEndpoints));
        assert(dials(call, rounds[0]) ==> tried(next));
        assert(!dials(call, rounds[0]) ==> next.last_err == call.last_err && next.election_signal
            == call.election_signal);
        assert forall|i: int| 0 <= i < rounds.drop_first().len() implies (
        #[trigger] rounds.drop_first()[i]).verdict != VerdictView::Failed(
            ErrorView::NoReachableEndpoints,
        ) by {
            assert(rounds.drop_first()[i] == rounds[i + 1]);
        }
        lemma_tried(next, rounds.drop_first());
    }
}

/// A call reports that no endpoint was reachable exactly where it made no attempt at all. Once it
/// dialed, it reports what an endpoint answered or how the attempt failed, even where all that came
/// back were leader hints in a circle. This is claimed of calls none of whose attempts failed with
/// that very error.
pub proof fn law_nothing_reachable_means_nothing_tried(
    pool: PoolView,
    start: nat,
    rounds: Seq<Round>,
)
    requires
        forall|i: int|
            0 <= i < rounds.len() ==> (#[trigger] rounds[i]).verdict != VerdictView::Failed(
                ErrorView::NoReachableEndpoints,
            ),
    ensures
        report(RetryView::started(pool, start), rounds) is NoReachableEndpoints <==> counted(
            RetryView::started(pool, start),
            rounds,
            |v: VerdictView| true,
        ) == 0,
{
    lemma_tried(RetryView::started(pool, start), rounds);
}

spec fn clean_signal(call: RetryView) -> bool {
    call.election_signal matches Some(signal) ==> !retry_policy::transport_failure(
        ErrorView::Rpc(signal),
    )
}

proof fn lemma_clean_signal(call: RetryView, rounds: Seq<Round>)
    requires
        clean_signal(call),
        forall|i: int|
            0 <= i < rounds.len() ==> ((#[trigger] rounds[i]).verdict matches VerdictView::Election(
                signal,
            ) ==> signal.code == Code::FailedPrecondition),
    ensures
        clean_signal(after_rounds(call, rounds)),
    decreases rounds.len(),
{
    if rounds.len() > 0 {
        let next = after_round(call, rounds[0]);
        assert(rounds[0].verdict matches VerdictView::Election(signal) ==> signal.code
            == Code::FailedPrecondition);
        assert forall|i: int| 0 <= i < rounds.drop_first().len() implies ((
        #[trigger] rounds.drop_first()[i]).verdict matches VerdictView::Election(signal)
            ==> signal.code == Code::FailedPrecondition) by {
            assert(rounds.drop_first()[i] == rounds[i + 1]);
        }
        lemma_clean_signal(next, rounds.drop_first());
    }
}

/// Once a server reported an election, the call never ends in a transport failure, however many of
/// its later attempts fail at the wire.
pub proof fn law_election_outranks_the_wire(pool: PoolView, start: nat, rounds: Seq<Round>)
    requires
        after_rounds(RetryView::started(pool, start), rounds).election_signal is Some,
        forall|i: int|
            0 <= i < rounds.len() ==> ((#[trigger] rounds[i]).verdict matches VerdictView::Election(
                signal,
            ) ==> signal.code == Code::FailedPrecondition),
    ensures
        !retry_policy::transport_failure(report(RetryView::started(pool, start), rounds)),
{
    lemma_clean_signal(RetryView::started(pool, start), rounds);
}

/// Every report of an election, for timestamps and for blocks alike, and every leader hint, comes
/// of a refusal under FAILED_PRECONDITION, and carries it.
pub proof fn law_elections_come_of_refusals(
    pool: PoolView,
    endpoint: Seq<char>,
    cell: u64,
    count: u32,
    reply: ReplyView,
    timeout: ErrorView,
    key: Seq<char>,
    seq_reply: SeqReplyView,
    now: nat,
)
    ensures
        ({
            let outcome = attempt::judged(pool, endpoint, cell, count, reply, timeout, now).1;
            match retry::verdict_of(outcome) {
                VerdictView::Election(status) => reply matches ReplyView::Refused { status: s, .. }
                    && s == status && status.code == Code::FailedPrecondition,
                VerdictView::Redirect { status, .. } => reply matches ReplyView::Refused {
                    status: s,
                    ..
                } && s == status && status.code == Code::FailedPrecondition,
                _ => true,
            }
        }),
        seq_attempt::seq_judged(pool, endpoint, cell, key, count, seq_reply, now).1 matches Err(
            outcome,
        ) ==> match retry::seq_verdict_of(outcome) {
            VerdictView::Election(status) => seq_reply matches SeqReplyView::Refused {
                status: s,
                ..
            } && s == status && status.code == Code::FailedPrecondition,
            VerdictView::Redirect { status, .. } => seq_reply matches SeqReplyView::Refused {
                status: s,
                ..
            } && s == status && status.code == Code::FailedPrecondition,
            _ => true,
        },
{
}

/// Once a call is over it never dials again: neither after an answer, nor after an uncertain
/// block, nor after it ran into the cap on its hints.
pub proof fn law_stopped_for_good(call: RetryView, rounds: Seq<Round>)
    requires
        call.phase == Phase::Stopped,
    ensures
        counted(call, rounds, |v: VerdictView| true) == 0,
    decreases rounds.len(),
{
    if rounds.len() > 0 {
        law_stopped_for_good(after_round(call, rounds[0]), rounds.drop_first());
    }
}

/// The error of the last attempt that the given rounds make, where they make one and it fails.
pub open spec fn last_failure(call: RetryView, rounds: Seq<Round>) -> Option<ErrorView>
    decreases rounds.len(),
{
    if rounds.len() == 0 {
        None
    } else {
        let later = last_failure(after_round(call, rounds[0]), rounds.drop_first());
        if later is Some {
            later
        } else if dials(call, rounds[0]) && rounds[0].verdict is Failed {
            Some(rounds[0].verdict->Failed_0)
        } else {
            None
        }
    }
}

/// True of rounds of a block request whose attempts fail in connecting, so that nothing was sent.
pub open spec fn connecting_fails(rounds: Seq<Round>) -> bool {
    forall|i: int|
        0 <= i < rounds.len() ==> ((#[trigger] rounds[i]).verdict matches VerdictView::Failed(error)
            && rounds[i].verdict == retry::seq_verdict_of(SeqOutcomeView::Failed(error))
            && !(error is SeqUncertain))
}

proof fn lemma_connecting_fails(call: RetryView, rounds: Seq<Round>)
    requires
        call.election_signal is None,
        connecting_fails(rounds),
    ensures
        after_rounds(call, rounds).election_signal is None,
        after_rounds(call, rounds).last_err == match last_failure(call, rounds) {
            Some(error) => Some(error),
            None => call.last_err,
        },
        last_failure(call, rounds) matches Some(error) ==> !(error is SeqUncertain),
        last_failure(call, rounds) is Some <==> counted(call, rounds, |v: VerdictView| true) > 0,
    decreases rounds.len(),
{
    if rounds.len() > 0 {
        assert(rounds[0].verdict is Failed && !(rounds[0].verdict->Failed_0 is SeqUncertain));
        assert forall|i: int| 0 <= i < rounds.drop_first().len() implies ((
        #[trigger] rounds.drop_first()[i]).verdict matches VerdictView::Failed(error)
            && rounds.drop_first()[i].verdict == retry::seq_verdict_of(
            SeqOutcomeView::Failed(error),
        ) && !(error is SeqUncertain)) by {
            assert(rounds.drop_first()[i] == rounds[i + 1]);
        }
        lemma_connecting_fails(after_round(call, rounds[0]), rounds.drop_first());
    }
}

/// A block request whose attempts all fail in connecting is never uncertain: it reports the error of
/// its last attempt, and that nothing was reachable where it made none.
pub proof fn law_failing_to_connect_is_certain(pool: PoolView, start: nat, rounds: Seq<Round>)
    requires
        connecting_fails(rounds),
    ensures
        ({
            let call = RetryView::started(pool, start);
            &&& report(call, rounds) == match last_failure(call, rounds) {
                Some(error) => error,
                None => ErrorView::NoReachableEndpoints,
            }
            &&& last_failure(call, rounds) is Some <==> counted(
                call,
                rounds,
                |v: VerdictView| true,
            ) > 0
            &&& !(report(call, rounds) is SeqUncertain)
        }),
{
    lemma_connecting_fails(RetryView::started(pool, start), rounds);
}

/// The hint beyond the call's cap ends the call, and what it reports then is that cap, under
/// FAILED_PRECONDITION, whatever was reported before.
pub proof fn law_total_cap_ends_the_call(
    call: RetryView,
    status: StatusView,
    hinted: Seq<char>,
)
    requires
        call.total_redirects >= MAX_TOTAL_LEADER_REDIRECTS,
    ensures
        ({
            let (settled, pause) = call.settled(VerdictView::Redirect { status, endpoint: hinted });
            &&& settled.phase == Phase::Stopped
            &&& pause is None
            &&& retry::surfaced(settled.election_signal, settled.last_err) == ErrorView::Rpc(
                retry::total_cap_status(),
            )
            &&& retry::total_cap_status().code == Code::FailedPrecondition
        }),
{
}

spec fn hint_allowance(call: RetryView) -> int {
    if call.phase == Phase::Stopped {
        0
    } else {
        17 * (MAX_TOTAL_LEADER_REDIRECTS - call.total_redirects) + 16 + if call.phase
            == Phase::Polling || call.phase == Phase::Dialing {
            call.redirects as int
        } else {
            0
        }
    }
}

proof fn lemma_hint_allowance_step(call: RetryView, round: Round)
    requires
        call.inv(),
        call.phase != Phase::Dialing,
    ensures
        after_round(call, round).inv(),
        after_round(call, round).phase != Phase::Dialing,
        hint_allowance(call) >= 0,
        hint_allowance(after_round(call, round)) <= hint_allowance(call),
        dials(call, round) && round.verdict is Redirect ==> hint_allowance(
            after_round(call, round),
        ) + 16 <= hint_allowance(call),
{
}

proof fn lemma_redirects_counted(call: RetryView, rounds: Seq<Round>)
    requires
        call.inv(),
        call.phase != Phase::Dialing,
    ensures
        16 * counted(call, rounds, |v: VerdictView| v is Redirect) <= hint_allowance(call),
    decreases rounds.len(),
{
    if rounds.len() > 0 {
        lemma_hint_allowance_step(call, rounds[0]);
        lemma_redirects_counted(after_round(call, rounds[0]), rounds.drop_first());
    } else {
        assert(hint_allowance(call) >= 0);
    }
}

/// However long its deadline is, a call makes at most 69 attempts that end in a leader hint: the
/// hints it follows, one more per pass that ran into its cap, and the one that ends it. So peers
/// that name a fresh leader every time cannot keep it dialing.
pub proof fn law_hints_are_bounded(pool: PoolView, start: nat, rounds: Seq<Round>)
    ensures
        counted(RetryView::started(pool, start), rounds, |v: VerdictView| v is Redirect) <= 69,
{
    lemma_redirects_counted(RetryView::started(pool, start), rounds);
}

proof fn lemma_failures_counted(call: RetryView, rounds: Seq<Round>)
    requires
        call.inv(),
        call.phase != Phase::Dialing,
        call.attempt_cap <= u32::MAX,
    ensures
        counted(call, rounds, |v: VerdictView| v is Failed) <= call.attempt_cap
            - call.failed_attempts,
    decreases rounds.len(),
{
    if rounds.len() > 0 {
        let next = after_round(call, rounds[0]);
        assert(next.attempt_cap == call.attempt_cap);
        assert(dials(call, rounds[0]) && rounds[0].verdict is Failed ==> next.failed_attempts
            == call.failed_attempts + 1);
        assert(next.failed_attempts >= call.failed_attempts);
        law_caps_hold(rounds[0].pool, rounds[0].now, call, rounds[0]);
        lemma_failures_counted(next, rounds.drop_first());
    }
}

/// A call makes at most as many failed attempts as its cap says, over all passes. The count of
/// failures is kept in 32 bits, so this is claimed of caps that fit.
pub proof fn law_failures_are_bounded(pool: PoolView, start: nat, rounds: Seq<Round>)
    requires
        RetryView::started(pool, start).attempt_cap <= u32::MAX,
    ensures
        counted(RetryView::started(pool, start), rounds, |v: VerdictView| v is Failed)
            <= RetryView::started(pool, start).attempt_cap,
{
    lemma_failures_counted(RetryView::started(pool, start), rounds);
}

/// The endpoints that the given rounds dial, in order.
pub open spec fn dialed(call: RetryView, rounds: Seq<Round>) -> Seq<Seq<char>>
    decreases rounds.len(),
{
    if rounds.len() == 0 {
        Seq::empty()
    } else {
        let tail = dialed(after_round(call, rounds[0]), rounds.drop_first());
        match call.stepped(rounds[0].pool, rounds[0].now).2 {
            StepView::Dial { endpoint, .. } => seq![endpoint] + tail,
            _ => tail,
        }
    }
}

/// True of rounds that all fail, each before the deadline.
pub open spec fn all_fail_in_time(rounds: Seq<Round>, deadline: nat) -> bool {
    forall|i: int|
        0 <= i < rounds.len() ==> (#[trigger] rounds[i]).verdict is Failed && rounds[i].now
            < deadline
}

proof fn lemma_popped_shrinks(queue: Seq<Seq<char>>, visited: Set<Seq<char>>)
    ensures
        worklist::take_next(queue, visited).0 is Some ==> worklist::take_next(
            queue,
            visited,
        ).1.len() < queue.len(),
        worklist::take_next(queue, visited).0 is None ==> worklist::take_next(
            queue,
            visited,
        ).1.len() == 0,
        forall|e: Seq<char>| #[trigger]
            queue.contains(e) && !visited.contains(e) ==> worklist::take_next(queue, visited).0
                == Some(e) || worklist::take_next(queue, visited).1.contains(e),
    decreases queue.len(),
{
    if queue.len() > 0 {
        let rest = queue.drop_first();
        lemma_popped_shrinks(rest, visited);
        assert forall|e: Seq<char>| #[trigger]
            queue.contains(e) && !visited.contains(e) implies worklist::take_next(
            queue,
            visited,
        ).0 == Some(e) || worklist::take_next(queue, visited).1.contains(e) by {
            let i = choose|i: int| 0 <= i < queue.len() && queue[i] == e;
            if i > 0 {
                assert(rest[i - 1] == e);
                assert(rest.contains(e));
            }
        }
    }
}

proof fn lemma_sweep(call: RetryView, rounds: Seq<Round>, endpoint: Seq<char>)
    requires
        call.inv(),
        call.phase == Phase::Polling,
        call.failed_attempts + call.worklist.queue.len() <= call.attempt_cap,
        call.attempt_cap <= u32::MAX,
        all_fail_in_time(rounds, call.budget.deadline),
        rounds.len() >= call.worklist.queue.len(),
        call.worklist.queue.contains(endpoint),
        !call.worklist.visited.contains(endpoint),
    ensures
        dialed(call, rounds).contains(endpoint),
    decreases rounds.len(),
{
    let round = rounds[0];
    let queue = call.worklist.queue;
    let visited = call.worklist.visited;
    lemma_popped_shrinks(queue, visited);
    assert(round.now < call.budget.deadline);
    assert(worklist::take_next(queue, visited).0 is Some);
    let first = worklist::take_next(queue, visited).0->0;
    let tail = dialed(after_round(call, round), rounds.drop_first());
    assert(call.stepped(round.pool, round.now).2 matches StepView::Dial { endpoint, .. }
        && endpoint == first);
    assert(dialed(call, rounds) == seq![first] + tail);
    if first == endpoint {
        assert(dialed(call, rounds)[0] == endpoint);
    } else {
        let next = after_round(call, round);
        assert(round.verdict is Failed);
        assert forall|i: int| 0 <= i < rounds.drop_first().len() implies (
        #[trigger] rounds.drop_first()[i]).verdict is Failed && rounds.drop_first()[i].now
            < next.budget.deadline by {
            assert(rounds.drop_first()[i] == rounds[i + 1]);
        }
        law_caps_hold(round.pool, round.now, call, round);
        lemma_sweep(next, rounds.drop_first(), endpoint);
        let k = choose|k: int| 0 <= k < tail.len() && tail[k] == endpoint;
        assert(dialed(call, rounds)[k + 1] == endpoint);
    }
}

/// One cold sweep reaches every endpoint: however small `max_attempts` is, and wherever the
/// rotation starts, a call all of whose attempts fail before its deadline has dialed every endpoint
/// of its first worklist after as many rounds as that has entries. The count of failures is kept in
/// 32 bits, so this is claimed of caps that fit.
pub proof fn law_sweep_reaches_every_endpoint(
    pool: PoolView,
    start: nat,
    rounds: Seq<Round>,
    endpoint: Seq<char>,
)
    requires
        RetryView::started(pool, start).attempt_cap <= u32::MAX,
        pool.dial_order(start).len() <= usize::MAX,
        pool.dial_order(start).contains(endpoint),
        all_fail_in_time(rounds, start + pool.retry_policy.overall_deadline@),
        rounds.len() >= pool.dial_order(start).len(),
    ensures
        dialed(RetryView::started(pool, start), rounds).contains(endpoint),
{
    lemma_sweep(RetryView::started(pool, start), rounds, endpoint);
}

/// A verdict of a block attempt charges or rides out as its outcome says: a hint is followed, a
/// peer without a (newer) leader is an election, everything else that is not uncertain is charged.
pub proof fn law_which_block_outcomes_signal_an_election(outcome: SeqOutcomeView)
    requires
        !(outcome is Uncertain),
    ensures
        retry::seq_verdict_of(outcome) is Election <==> outcome is NoLeaderYet,
        retry::seq_verdict_of(outcome) is Redirect <==> outcome is LeaderHint,
        retry::seq_verdict_of(outcome) is Failed <==> outcome is Failed,
        !(retry::seq_verdict_of(outcome) is Rejected),
{
}

/// True of a call that starts: the pool's dial order is ahead of it, nothing is dialed, counted or
/// recorded, and the deadlines are those of the pool's policy from now on. It may fail as often as the
/// policy says, and at least once per endpoint ahead of it.
pub open spec fn fresh_call(pool: PoolView, now: nat, call: RetryView) -> bool {
    let policy = pool.retry_policy;
    let order = pool.dial_order(now);
    &&& call.worklist.queue == order
    &&& forall|e: Seq<char>| !(#[trigger] call.worklist.visited.contains(e))
    &&& call.phase == Phase::Polling
    &&& call.redirects == 0 && call.total_redirects == 0
    &&& call.failed_attempts == 0 && call.pass == 0
    &&& !call.saw_election_signal && call.election_signal is None
    &&& call.last_err is None
    &&& call.budget.deadline == now + policy.overall_deadline@
    &&& call.budget.per_attempt == policy.per_attempt_deadline@
    &&& call.base_backoff == policy.base_backoff@
    &&& order.len() <= usize::MAX ==> {
        &&& call.attempt_cap >= policy.max_attempts && call.attempt_cap >= order.len()
        &&& call.attempt_cap == policy.max_attempts || call.attempt_cap == order.len()
    }
}

/// True where the cursor of the pool moved on by one, if there is an endpoint to move on to, and
/// nothing else of it changed.
pub open spec fn turned(before: PoolView, after: PoolView) -> bool {
    &&& after == (PoolView { rotation: after.rotation, ..before })
    &&& before.configured.len() == 0 ==> after.rotation == before.rotation
    &&& before.configured.len() > 0 && before.rotation < usize::MAX ==> after.rotation
        == before.rotation + 1
    &&& before.configured.len() > 0 && before.rotation == usize::MAX ==> after.rotation == 0
}

/// How a call starts: see [`fresh_call`]. It moves the cursor of the pool on.
pub proof fn law_a_call_starts(pool: &mut ChannelPool, now: Instant, call: RetryLoop)
    requires
        call_ensures(RetryLoop::start, (pool, now), call),
    ensures
        fresh_call(old(pool)@, now@, call@),
        turned(old(pool)@, final(pool)@),
{
}

/// True where nothing of a call changed that neither a step nor an attempt changes.
pub open spec fn same_call(before: RetryView, after: RetryView) -> bool {
    &&& after.base_backoff == before.base_backoff
    &&& after.budget == before.budget
    &&& after.attempt_cap == before.attempt_cap
}

/// True where nothing was counted or recorded.
pub open spec fn same_record(before: RetryView, after: RetryView) -> bool {
    &&& after.total_redirects == before.total_redirects
    &&& after.failed_attempts == before.failed_attempts
    &&& after.election_signal == before.election_signal
    &&& after.last_err == before.last_err
}

/// True where a pass with this worklist goes on, or ends, as it has to.
///
/// - The first endpoint of the worklist that this pass has not dialed is dialed while the failures
///   are below their cap and the deadline lies ahead, for as long as one attempt may take, or what
///   is left where that is less.
/// - Else the pass is over: another one follows, after a pause by the number of this one, where this
///   one saw an election and the deadline lies ahead; else the call is.
pub open spec fn pass_goes_on(
    before: RetryView,
    saw: bool,
    queue: Seq<Seq<char>>,
    visited: Set<Seq<char>>,
    now: nat,
    after: RetryView,
    step: StepView,
) -> bool {
    let in_time = now < before.budget.deadline;
    let left = before.budget.deadline - now;
    let i = choose|i: int| worklist::first_new(queue, visited, i);
    if i < queue.len() && in_time && before.failed_attempts < before.attempt_cap {
        &&& step matches StepView::Dial { endpoint, budget } && endpoint == queue[i] && budget
            == if left <= before.budget.per_attempt {
            left
        } else {
            before.budget.per_attempt as int
        }
        &&& after.phase == Phase::Dialing && after.pass == before.pass
        &&& after.worklist.queue == queue.skip(i + 1)
        &&& after.worklist.visited == visited.insert(queue[i])
    } else {
        pass_ends(before, saw, now, after, step)
    }
}

/// True where a pass that is over is followed by another one, or ends the call, as it has to.
pub open spec fn pass_ends(
    before: RetryView,
    saw: bool,
    now: nat,
    after: RetryView,
    step: StepView,
) -> bool {
    if saw && now < before.budget.deadline {
        &&& step == (StepView::Backoff { exponent: before.pass })
        &&& after.phase == Phase::NewPass
        &&& before.pass < u32::MAX ==> after.pass == before.pass + 1
    } else {
        step is GiveUp && after.phase == Phase::Stopped && after.pass == before.pass
    }
}

proof fn lemma_chosen(queue: Seq<Seq<char>>, visited: Set<Seq<char>>)
    ensures
        ({
            let i = choose|i: int| worklist::first_new(queue, visited, i);
            &&& worklist::first_new(queue, visited, i)
            &&& i < queue.len() ==> worklist::take_next(queue, visited) == (
                Some(queue[i]),
                queue.skip(i + 1),
            )
            &&& i == queue.len() ==> worklist::take_next(queue, visited).0 is None
        }),
{
    let k = worklist::lemma_first_new(queue, visited);
    let i = choose|i: int| worklist::first_new(queue, visited, i);
    assert(k == i) by {
        if k < i {
            assert(visited.contains(queue[k]));
        }
        if i < k {
            assert(visited.contains(queue[i]));
        }
    }
}

/// What a call does next. In a pass it goes on with that pass. After a pause it begins another one
/// over the pool's dial order of that time, with a new allowance of hints and nothing seen; the
/// counts and the records of the call stay. A pass that ran into its cap on hints is over, and a call
/// that is over stays so. Only another pass asks the pool for an order.
pub proof fn law_what_a_call_does_next(
    call: &mut RetryLoop,
    pool: &mut ChannelPool,
    now: Instant,
    step: Step,
)
    requires
        old(call)@.phase != Phase::Dialing,
        call_ensures(RetryLoop::next, (call, pool, now), step),
    ensures
        same_call(old(call)@, final(call)@),
        same_record(old(call)@, final(call)@),
        match old(call)@.phase {
            Phase::Polling => {
                &&& pass_goes_on(
                    old(call)@,
                    old(call)@.saw_election_signal,
                    old(call)@.worklist.queue,
                    old(call)@.worklist.visited,
                    now@,
                    final(call)@,
                    step@,
                )
                &&& final(call)@.redirects == old(call)@.redirects
                &&& final(call)@.saw_election_signal == old(call)@.saw_election_signal
            },
            Phase::NewPass => {
                &&& pass_goes_on(
                    old(call)@,
                    false,
                    old(pool)@.dial_order(now@),
                    Set::empty(),
                    now@,
                    final(call)@,
                    step@,
                )
                &&& final(call)@.redirects == 0 && !final(call)@.saw_election_signal
            },
            Phase::PassOver => pass_ends(
                old(call)@,
                old(call)@.saw_election_signal,
                now@,
                final(call)@,
                step@,
            ),
            _ => step is GiveUp && final(call)@.phase == Phase::Stopped,
        },
        old(call)@.phase != Phase::NewPass ==> final(pool)@ == old(pool)@,
        old(call)@.phase == Phase::NewPass ==> turned(old(pool)@, final(pool)@),
{
    lemma_chosen(old(call)@.worklist.queue, old(call)@.worklist.visited);
    lemma_chosen(old(pool)@.dial_order(now@), Set::empty());
}

/// True where an attempt with this verdict is taken as it has to be, and `pause` is the exponent of
/// the pause that follows, where one does.
///
/// - A leader hint is dialed next and counted, up to sixteen in a pass and sixty-four in a call; it
///   is recorded where nothing was yet. The seventeenth of a pass ends the pass as an election does,
///   and the sixty-fifth of a call the call, both under FAILED_PRECONDITION. None is a failure.
/// - An election is remembered, for the pass and for the call, and recorded.
/// - A rejection is recorded.
/// - A failure is recorded and counted, and a pause follows where the transport failed, by the number
///   of failures before it.
pub open spec fn attempt_taken(
    before: RetryView,
    verdict: VerdictView,
    after: RetryView,
    pause: Option<u32>,
) -> bool {
    &&& same_call(before, after)
    &&& after.pass == before.pass
    &&& match verdict {
        VerdictView::Redirect { status, endpoint } => {
            &&& pause is None
            &&& after.failed_attempts == before.failed_attempts
            &&& if before.total_redirects >= 64 {
                &&& after.phase == Phase::Stopped
                &&& after.last_err matches Some(ErrorView::Rpc(cap)) && cap.code
                    == Code::FailedPrecondition
                &&& after.election_signal == before.election_signal
                &&& after.total_redirects == before.total_redirects
            } else if before.redirects >= 16 {
                &&& after.phase == Phase::PassOver
                &&& after.saw_election_signal
                &&& after.election_signal matches Some(cap) && cap.code == Code::FailedPrecondition
                    && after.last_err == Some(ErrorView::Rpc(cap))
                &&& after.total_redirects == before.total_redirects
            } else {
                &&& after.phase == Phase::Polling
                &&& after.redirects == before.redirects + 1
                &&& after.total_redirects == before.total_redirects + 1
                &&& after.worklist.queue == seq![endpoint] + before.worklist.queue
                &&& after.worklist.visited == before.worklist.visited
                &&& after.saw_election_signal == before.saw_election_signal
                &&& after.election_signal == before.election_signal
                &&& before.last_err is Some ==> after.last_err == before.last_err
                &&& before.last_err is None ==> after.last_err == Some(ErrorView::Rpc(status))
            }
        },
        VerdictView::Election(signal) => {
            &&& pause is None
            &&& after.phase == Phase::Polling
            &&& after.saw_election_signal
            &&& after.election_signal == Some(signal)
            &&& after.last_err == Some(ErrorView::Rpc(signal))
            &&& same_counts(before, after)
            &&& after.failed_attempts == before.failed_attempts
        },
        VerdictView::Rejected(status) => {
            &&& pause is None
            &&& after.phase == Phase::Polling
            &&& after.saw_election_signal == before.saw_election_signal
            &&& after.election_signal == before.election_signal
            &&& after.last_err == Some(ErrorView::Rpc(status))
            &&& same_counts(before, after)
            &&& after.failed_attempts == before.failed_attempts
        },
        VerdictView::Failed(error) => {
            &&& pause is Some <==> match error {
                ErrorView::Rpc(status) => status.code == Code::Unavailable || status.code
                    == Code::DeadlineExceeded,
                _ => error is Transport || error is TransportFanout,
            }
            &&& before.failed_attempts < u32::MAX ==> after.failed_attempts
                == before.failed_attempts + 1
            &&& pause is Some && before.failed_attempts < u32::MAX ==> pause
                == Some(before.failed_attempts)
            &&& after.phase == Phase::Polling
            &&& after.saw_election_signal == before.saw_election_signal
            &&& after.election_signal == before.election_signal
            &&& after.last_err == Some(error)
            &&& same_counts(before, after)
        },
    }
}

/// True where no hint was counted and the worklist stayed.
pub open spec fn same_counts(before: RetryView, after: RetryView) -> bool {
    &&& after.redirects == before.redirects
    &&& after.total_redirects == before.total_redirects
    &&& after.worklist == before.worklist
}

/// True of the pause that follows an attempt after which the call goes on.
pub open spec fn pauses<T>(next: AfterAttempt<T>, pause: Option<u32>) -> bool {
    match pause {
        Some(n) => next matches AfterAttempt::Backoff { exponent } && exponent == n,
        None => next is Continue,
    }
}

/// An attempt that did not end the call by success is taken as [`attempt_taken`] says.
pub proof fn law_an_attempt_is_settled(
    call: &mut RetryLoop,
    verdict: Verdict,
    pause: Option<u32>,
)
    requires
        call_ensures(RetryLoop::settle, (call, verdict), pause),
    ensures
        attempt_taken(old(call)@, verdict@, final(call)@, pause),
{
}

/// An attempt at timestamps. One that was served ends the call with the very range, and is noted as
/// an answer of its endpoint. A leader hint is followed to its endpoint; no leader and a stale hint
/// are an election; a rejected hint is a rejection; a failure a failure, each with what it carries.
/// Then the pool stays as it is.
pub proof fn law_what_follows_an_attempt(
    call: &mut RetryLoop,
    pool: &mut ChannelPool,
    endpoint: &str,
    outcome: AttemptOutcome,
    now: Instant,
    next: AfterAttempt<TimestampRange>,
)
    requires
        call_ensures(RetryLoop::on_attempt, (call, pool, endpoint, outcome, now), next),
    ensures
        match outcome@ {
            OutcomeView::Served { range, epoch } => {
                &&& next matches AfterAttempt::Done(served) && served@ == range
                &&& final(call)@.phase == Phase::Stopped
                &&& attempt_laws::noted(old(pool)@, final(pool)@, endpoint@, epoch, now@)
            },
            other => final(pool)@ == old(pool)@ && exists|pause: Option<u32>| #[trigger]
                pauses(next, pause) && attempt_taken(
                    old(call)@,
                    match other {
                        OutcomeView::LeaderHint { status, endpoint, .. } => VerdictView::Redirect {
                            status,
                            endpoint,
                        },
                        OutcomeView::NoLeaderYet(status) => VerdictView::Election(status),
                        OutcomeView::HintUnusable { status, reason } => match reason {
                            HintUnusableReason::StaleEpoch => VerdictView::Election(status),
                            HintUnusableReason::Rejected => VerdictView::Rejected(status),
                        },
                        OutcomeView::Failed(error) => VerdictView::Failed(error),
                        OutcomeView::Served { .. } => arbitrary(),
                    },
                    final(call)@,
                    pause,
                ),
        },
{
    let pause = old(call)@.settled(retry::verdict_of(outcome@)).1;
    if !(outcome@ is Served) {
        assert(pauses(next, pause));
    }
}

/// An attempt at a block. A block ends the call as it is, and so does an uncertain outcome, as such.
/// A leader hint is followed to its endpoint, no leader is an election, and a failure a failure, each
/// with what it carries.
pub proof fn law_what_follows_a_block_attempt(
    call: &mut RetryLoop,
    outcome: Result<SeqBlock, SeqAttemptOutcome>,
    next: AfterAttempt<Result<SeqBlock, ClientError>>,
)
    requires
        call_ensures(RetryLoop::on_seq_attempt, (call, outcome), next),
    ensures
        match outcome {
            Ok(block) => {
                &&& next matches AfterAttempt::Done(Ok(taken)) && taken == block
                &&& final(call)@.phase == Phase::Stopped
            },
            Err(SeqAttemptOutcome::Uncertain) => {
                &&& next matches AfterAttempt::Done(Err(error)) && error@ is SeqUncertain
                &&& final(call)@.phase == Phase::Stopped
            },
            Err(other) => exists|pause: Option<u32>| #[trigger]
                pauses(next, pause) && attempt_taken(
                    old(call)@,
                    match other@ {
                        SeqOutcomeView::LeaderHint {
                            status,
                            endpoint,
                            ..
                        } => VerdictView::Redirect { status, endpoint },
                        SeqOutcomeView::NoLeaderYet(status) => VerdictView::Election(status),
                        SeqOutcomeView::Failed(error) => VerdictView::Failed(error),
                        SeqOutcomeView::Uncertain => arbitrary(),
                    },
                    final(call)@,
                    pause,
                ),
        },
{
    if let Err(other) = outcome {
        if !(other is Uncertain) {
            let pause = old(call)@.settled(retry::seq_verdict_of(other@)).1;
            assert(pauses(next, pause));
        }
    }
}

/// What a call that ends without an answer reports. A recorded error that is not of the transport is
/// reported as it is. Where the transport failed last, or nothing was recorded, a report of an
/// election goes before it; without one the failure is reported, and without both that nothing was
/// reachable.
pub proof fn law_what_a_call_reports(call: RetryLoop, error: ClientError)
    requires
        call_ensures(RetryLoop::into_error, (call,), error),
    ensures
        ({
            let of_transport = match call@.last_err {
                Some(ErrorView::Rpc(status)) => status.code == Code::Unavailable || status.code
                    == Code::DeadlineExceeded,
                Some(last) => last is Transport || last is TransportFanout,
                None => true,
            };
            &&& !of_transport ==> Some(error@) == call@.last_err
            &&& of_transport ==> (call@.election_signal matches Some(signal) ==> error@
                == ErrorView::Rpc(signal))
            &&& of_transport && call@.election_signal is None && call@.last_err is Some
                ==> Some(error@) == call@.last_err
            &&& call@.election_signal is None && call@.last_err is None
                ==> error@ is NoReachableEndpoints
        }),
{
}

/// A pause is a number of microseconds that was drawn from the window of its exponent, or what is
/// left of the call where that is less.
pub proof fn law_a_pause_is_drawn_from_its_window(
    call: RetryLoop,
    exponent: u32,
    now: Instant,
    base: Duration,
    window: u64,
    span: Duration,
)
    requires
        base@ == call@.base_backoff,
        call_ensures(retry_policy::backoff_window_micros, (base, exponent), window),
        call_ensures(RetryLoop::pause, (&call, exponent, now), span),
    ensures
        exists|number: u64| #[trigger]
            retry_policy::drawn(window, number) && (span@ == number * 1_000 || (span@ < number
                * 1_000 && now@ + span@ >= call@.budget.deadline)),
        span@ <= 5_000_000_000,
        span@ <= call@.base_backoff * vstd::arithmetic::power2::pow2(exponent as nat),
        now@ <= call@.budget.deadline ==> now@ + span@ <= call@.budget.deadline,
        now@ >= call@.budget.deadline ==> span@ == 0,
{
    let upper = retry_policy::backoff_window(call@.base_backoff, exponent as nat) / 1_000;
    assert(upper as u64 == window);
}

/// At most sixteen hints are followed in a pass and sixty-four in a call.
pub proof fn law_the_caps_on_hints()
    ensures
        MAX_LEADER_REDIRECTS == 16,
        MAX_TOTAL_LEADER_REDIRECTS == 64,
{
}

/// What is reported out of the last report of an election and the last recorded error: an error that
/// is not of the transport before all else, then the election, then the failure of the transport, and
/// without any of them that nothing was reachable.
pub proof fn law_which_error_is_surfaced(
    signal: Option<Status>,
    last: Option<ClientError>,
    error: ClientError,
)
    requires
        call_ensures(retry::surface_error, (signal, last), error),
    ensures
        ({
            let of_transport = last matches Some(given) && match given@ {
                ErrorView::Rpc(status) => status.code == Code::Unavailable || status.code
                    == Code::DeadlineExceeded,
                other => other is Transport || other is TransportFanout,
            };
            &&& last is Some && !of_transport ==> error@ == last->0@
            &&& (last is None || of_transport) && signal is Some ==> error@ == ErrorView::Rpc(
                signal->0@,
            )
            &&& of_transport && signal is None ==> error@ == last->0@
            &&& last is None && signal is None ==> error@ is NoReachableEndpoints
        }),
{
}

/// What is said where a cap on hints was run into.
pub proof fn law_what_is_said_of_the_caps()
    ensures
        retry::total_cap_status().code == Code::FailedPrecondition,
        retry::total_cap_status().message == "absolute leader-hint redirect cap ("@
            + text::spec_decimal(64)
            + ") reached across passes before finding the live leader"@,
        retry::pass_cap_status().code == Code::FailedPrecondition,
        retry::pass_cap_status().message == "leader-hint redirect cap ("@ + text::spec_decimal(16)
            + ") reached before finding the live leader"@,
{
}

} // verus!
