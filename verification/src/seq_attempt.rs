//! One attempt to take a dense block of a sequence, and what its outcome means.
//!
//! Taking a block is not idempotent: where a request may have reached the server and its outcome is
//! not known for certain, that is reported and never retried.
use vstd::prelude::*;
use vstd::string::*;

use crate::attempt::{AttemptOutcome, HintUnusableReason, OutcomeView};
use crate::channel_pool::{ChannelPool, PoolView, SeatSource};
use crate::error::{ClientError, ErrorView};
use crate::leader_hint;
use crate::leader_hint::{classify_not_leader_hint, EpochWire, LeaderHintLookup, LookupView};
use crate::status::{Code, Status, StatusView};
use crate::time::Instant;
use crate::timestamp;
use crate::timestamp::Epoch;

verus! {

/// A contiguous dense block that was taken.
#[derive(Clone, Copy, Debug, PartialEq, Eq, Structural)]
pub struct SeqBlock {
    pub start: u64,
    pub count: u32,
    pub epoch: u128,
}

/// What an attempt that took no block came to.
#[derive(Debug)]
pub enum SeqAttemptOutcome {
    /// The peer refused with this status before anything was spent and points at the leader.
    LeaderHint { status: Status, endpoint: String, epoch: Option<u128> },
    /// The peer refused before anything was spent: no leader, or an older one, is known to it.
    NoLeaderYet(Status),
    /// A block may have been spent.
    Uncertain,
    /// The attempt failed, and nothing was spent.
    Failed(ClientError),
}

/// What a [`SeqAttemptOutcome`] says.
#[verifier::ext_equal]
pub enum SeqOutcomeView {
    LeaderHint { status: StatusView, endpoint: Seq<char>, epoch: Option<u128> },
    NoLeaderYet(StatusView),
    Uncertain,
    Failed(ErrorView),
}

impl View for SeqAttemptOutcome {
    type V = SeqOutcomeView;

    open spec fn view(&self) -> SeqOutcomeView {
        match self {
            SeqAttemptOutcome::LeaderHint {
                status,
                endpoint,
                epoch,
            } => SeqOutcomeView::LeaderHint {
                status: status@,
                endpoint: endpoint@,
                epoch: *epoch,
            },
            SeqAttemptOutcome::NoLeaderYet(status) => SeqOutcomeView::NoLeaderYet(status@),
            SeqAttemptOutcome::Uncertain => SeqOutcomeView::Uncertain,
            SeqAttemptOutcome::Failed(error) => SeqOutcomeView::Failed(error@),
        }
    }
}

/// The answer to a block request, as it came over the wire.
#[derive(Debug)]
pub struct GetSeqResponse {
    pub key: String,
    pub start: u64,
    pub count: u32,
    pub epoch: Option<EpochWire>,
}

/// How the RPC phase of a block request ended.
#[derive(Debug)]
pub enum SeqReply {
    /// The server answered.
    Answer(GetSeqResponse),
    /// The call ended with this status, whose leader-hint trailer held this.
    Refused { status: Status, hint: LeaderHintLookup },
    /// The call took longer than what the connect phase left of the budget.
    TimedOut,
}

/// What a [`SeqReply`] says.
#[verifier::ext_equal]
pub enum SeqReplyView {
    Answer { key: Seq<char>, start: u64, count: u32, epoch: Option<u128> },
    Refused { status: StatusView, hint: LookupView },
    TimedOut,
}

impl View for SeqReply {
    type V = SeqReplyView;

    open spec fn view(&self) -> SeqReplyView {
        match self {
            SeqReply::Answer(resp) => SeqReplyView::Answer {
                key: resp.key@,
                start: resp.start,
                count: resp.count,
                epoch: match resp.epoch {
                    Some(wire) => Some(timestamp::epoch_of(wire.hi, wire.lo)),
                    None => None,
                },
            },
            SeqReply::Refused { status, hint } => SeqReplyView::Refused {
                status: status@,
                hint: hint@,
            },
            SeqReply::TimedOut => SeqReplyView::TimedOut,
        }
    }
}

/// What a failed block request means when its status held no leader hint. `sent` says that the
/// request reached the wire.
///
/// Only codes with which the server refuses before it commits anything are definite once the
/// request was sent; every other one leaves open whether a block was spent.
pub open spec fn seq_status(status: StatusView, sent: bool) -> SeqOutcomeView {
    if status.code == Code::InvalidArgument {
        SeqOutcomeView::Failed(ErrorView::InvalidSeqKey)
    } else if status.code == Code::FailedPrecondition {
        SeqOutcomeView::Failed(ErrorView::Rpc(status))
    } else if sent {
        SeqOutcomeView::Uncertain
    } else if status.code == Code::Unavailable || status.code == Code::DeadlineExceeded {
        SeqOutcomeView::NoLeaderYet(status)
    } else {
        SeqOutcomeView::Failed(ErrorView::Rpc(status))
    }
}

/// Classifies a failed block request whose status held no leader hint.
pub fn classify_seq_status(status: Status, sent: bool) -> (r: SeqAttemptOutcome)
    ensures
        r@ == seq_status(status@, sent),
{
    match status.code {
        Code::InvalidArgument => SeqAttemptOutcome::Failed(ClientError::InvalidSeqKey),
        Code::FailedPrecondition => SeqAttemptOutcome::Failed(ClientError::Rpc(status)),
        Code::Unavailable | Code::DeadlineExceeded => {
            if sent {
                SeqAttemptOutcome::Uncertain
            } else {
                SeqAttemptOutcome::NoLeaderYet(status)
            }
        },
        _ => {
            if sent {
                SeqAttemptOutcome::Uncertain
            } else {
                SeqAttemptOutcome::Failed(ClientError::Rpc(status))
            }
        },
    }
}

/// What the reply to a request for `count` of `key` means, and the pool after it.
///
/// An answer that does not describe the block that was asked for, or names no epoch, leaves the
/// block uncertain: the server has committed something. A refusal without a leader hint is a
/// definite rejection, not a sign of an election. A stale hint is a sign of one.
pub open spec fn seq_judged(
    pool: PoolView,
    endpoint: Seq<char>,
    cell: u64,
    key: Seq<char>,
    count: u32,
    reply: SeqReplyView,
    now: nat,
) -> (PoolView, Result<SeqBlock, SeqOutcomeView>) {
    match reply {
        SeqReplyView::Answer { key: answered, start, count: got, epoch } => if answered != key
            || got != count {
            (pool, Err(SeqOutcomeView::Uncertain))
        } else {
            match epoch {
                Some(epoch) => (
                    pool.seat(endpoint, Some(epoch), SeatSource::Confirmed, now).0,
                    Ok(SeqBlock { start, count: got, epoch }),
                ),
                None => (pool, Err(SeqOutcomeView::Uncertain)),
            }
        },
        SeqReplyView::Refused { status, hint } => if status.code == Code::FailedPrecondition {
            if hint is Absent {
                (pool, Err(seq_status(status, false)))
            } else {
                let (after, outcome) = leader_hint::classified(pool, status, hint, now);
                (after, Err(seq_redirect(outcome)))
            }
        } else if status.code == Code::Unavailable || status.code == Code::DeadlineExceeded {
            (pool.evicted(endpoint, cell), Err(seq_status(status, true)))
        } else {
            (pool, Err(seq_status(status, true)))
        },
        SeqReplyView::TimedOut => (pool.evicted(endpoint, cell), Err(SeqOutcomeView::Uncertain)),
    }
}

/// What a classified NOT_LEADER reply means for a block request.
pub open spec fn seq_redirect(outcome: OutcomeView) -> SeqOutcomeView {
    match outcome {
        OutcomeView::LeaderHint { status, endpoint, epoch } => SeqOutcomeView::LeaderHint {
            status,
            endpoint,
            epoch,
        },
        OutcomeView::NoLeaderYet(status) => SeqOutcomeView::NoLeaderYet(status),
        OutcomeView::HintUnusable { status, reason } => if reason
            == HintUnusableReason::StaleEpoch {
            SeqOutcomeView::NoLeaderYet(status)
        } else {
            SeqOutcomeView::Failed(ErrorView::Rpc(status))
        },
        OutcomeView::Failed(error) => SeqOutcomeView::Failed(error),
        OutcomeView::Served { .. } => SeqOutcomeView::Uncertain,
    }
}

/// Ends the RPC phase of a request for `count` of `key` over the channel of `cell`. A block that was
/// taken seats its endpoint as the confirmed leader.
pub fn seq_replied(
    pool: &mut ChannelPool,
    endpoint: &str,
    cell: u64,
    key: &String,
    count: u32,
    reply: SeqReply,
    now: Instant,
) -> (r: Result<SeqBlock, SeqAttemptOutcome>)
    requires
        old(pool).wf(),
    ensures
        final(pool).wf(),
        ({
            let (after, judged) = seq_judged(
                old(pool)@,
                endpoint@,
                cell,
                key@,
                count,
                reply@,
                now@,
            );
            &&& final(pool)@ == after
            &&& match r {
                Ok(block) => judged == Ok::<SeqBlock, SeqOutcomeView>(block),
                Err(outcome) => judged == Err::<SeqBlock, SeqOutcomeView>(outcome@),
            }
        }),
{
    match reply {
        SeqReply::Answer(resp) => {
            if resp.key != *key || resp.count != count {
                return Err(SeqAttemptOutcome::Uncertain);
            }
            match resp.epoch {
                Some(wire) => {
                    let epoch: u128 = Epoch::from_wire(wire.hi, wire.lo).0;
                    pool.record_success(endpoint, epoch, now);
                    Ok(SeqBlock { start: resp.start, count: resp.count, epoch })
                },
                None => Err(SeqAttemptOutcome::Uncertain),
            }
        },
        SeqReply::Refused { status, hint } => {
            if status.code == Code::FailedPrecondition {
                let absent: bool = matches!(hint, LeaderHintLookup::Absent);
                if absent {
                    return Err(classify_seq_status(status, false));
                }
                match classify_not_leader_hint(pool, status, hint, now) {
                    AttemptOutcome::LeaderHint { status, endpoint, epoch } => Err(
                        SeqAttemptOutcome::LeaderHint { status, endpoint, epoch },
                    ),
                    AttemptOutcome::NoLeaderYet(status) => Err(
                        SeqAttemptOutcome::NoLeaderYet(status),
                    ),
                    AttemptOutcome::HintUnusable { status, reason } => match reason {
                        HintUnusableReason::StaleEpoch => Err(
                            SeqAttemptOutcome::NoLeaderYet(status),
                        ),
                        HintUnusableReason::Rejected => Err(
                            SeqAttemptOutcome::Failed(ClientError::Rpc(status)),
                        ),
                    },
                    AttemptOutcome::Failed(error) => Err(SeqAttemptOutcome::Failed(error)),
                    AttemptOutcome::Served { .. } => Err(SeqAttemptOutcome::Uncertain),
                }
            } else {
                if status.code == Code::Unavailable || status.code == Code::DeadlineExceeded {
                    pool.evict_if_current(endpoint, cell);
                }
                Err(classify_seq_status(status, true))
            }
        },
        SeqReply::TimedOut => {
            pool.evict_if_current(endpoint, cell);
            Err(SeqAttemptOutcome::Uncertain)
        },
    }
}

/// A block is handed out only where the server answered for the very key and count that were asked
/// for and named its epoch; an answer that does not is uncertain, never a failure to retry.
pub proof fn law_block_matches_request(
    pool: PoolView,
    endpoint: Seq<char>,
    cell: u64,
    key: Seq<char>,
    count: u32,
    reply: SeqReplyView,
    now: nat,
)
    ensures
        ({
            let result = seq_judged(pool, endpoint, cell, key, count, reply, now).1;
            &&& result matches Ok(block) ==> block.count == count && reply
                == (SeqReplyView::Answer {
                key,
                start: block.start,
                count,
                epoch: Some(block.epoch),
            })
            &&& reply is Answer ==> result is Ok || result == Err::<SeqBlock, SeqOutcomeView>(
                SeqOutcomeView::Uncertain,
            )
        }),
{
}

/// Once a request was sent, whatever ends it without an answer is retried or reported as definite
/// only for codes with which the server refuses before it commits: everything else is uncertain.
pub proof fn law_sent_is_uncertain_by_default(
    pool: PoolView,
    endpoint: Seq<char>,
    cell: u64,
    key: Seq<char>,
    count: u32,
    reply: SeqReplyView,
    now: nat,
)
    requires
        match reply {
            SeqReplyView::Refused { status, .. } => status.code != Code::FailedPrecondition
                && status.code != Code::InvalidArgument,
            SeqReplyView::TimedOut => true,
            SeqReplyView::Answer { .. } => false,
        },
    ensures
        seq_judged(pool, endpoint, cell, key, count, reply, now).1 == Err::<
            SeqBlock,
            SeqOutcomeView,
        >(SeqOutcomeView::Uncertain),
{
}

} // verus!
