//! What the views of the library's values keep: two values that say the same hold the same, so that
//! what is stated of a view is stated of all that a caller can read.
use vstd::prelude::*;

use crate::attempt::{AttemptOutcome, Reply};
use crate::channel_pool::CachedLeader;
use crate::error::ClientError;
use crate::leader_hint::LeaderHintLookup;
use crate::node::members::MemberAddr;
use crate::retry::{Step, Verdict};
use crate::seq_attempt::{SeqAttemptOutcome, SeqReply};
use crate::status::{Status, Trailer};
use crate::text;

verus! {

/// The views of a list are those of its items, in their places; the view of nothing is nothing.
pub proof fn law_views_of_lists<T: View>(items: Seq<T>, item: Option<T>)
    ensures
        text::views(items).len() == items.len(),
        forall|i: int| 0 <= i < items.len() ==> #[trigger] text::views(items)[i] == items[i]@,
        text::option_view(item) is Some <==> item is Some,
        item matches Some(inner) ==> text::option_view(item) == Some(inner@),
{
}

/// Two trailers that say the same have the same key and the same bytes.
pub proof fn law_what_trailers_say(a: Trailer, b: Trailer)
    requires
        a@ == b@,
    ensures
        a.key@ == b.key@,
        a.value@ == b.value@,
{
}

/// Two statuses that say the same have the same code, message, details, trailers and source.
pub proof fn law_what_statuses_say(a: Status, b: Status)
    requires
        a@ == b@,
    ensures
        a.code == b.code,
        a.message@ == b.message@,
        a.details@ == b.details@,
        a.trailers@.len() == b.trailers@.len(),
        forall|i: int|
            0 <= i < a.trailers@.len() ==> (#[trigger] a.trailers@[i])@ == b.trailers@[i]@,
        a.source is Some <==> b.source is Some,
        a.source is Some ==> a.source->0@ == b.source->0@,
{
    let x = a.trailers@.map_values(|t: Trailer| t@);
    let y = b.trailers@.map_values(|t: Trailer| t@);
    assert(a@.trailers == x && b@.trailers == y);
    assert(x.len() == a.trailers@.len() && y.len() == b.trailers@.len());
    assert forall|i: int| 0 <= i < a.trailers@.len() implies (#[trigger] a.trailers@[i])@
        == b.trailers@[i]@ by {
        assert(x[i] == a.trailers@[i]@ && y[i] == b.trailers@[i]@);
    }
    text_of(a.source, b.source);
}

proof fn text_of(a: Option<String>, b: Option<String>)
    requires
        text::option_view(a) == text::option_view(b),
    ensures
        a is Some <==> b is Some,
        a is Some ==> a->0@ == b->0@,
{
}

/// Two errors that say the same are of the same kind and carry the same.
pub proof fn law_what_errors_say(a: ClientError, b: ClientError)
    requires
        a@ == b@,
    ensures
        match (a, b) {
            (ClientError::NoReachableEndpoints, ClientError::NoReachableEndpoints) => true,
            (ClientError::Transport(x), ClientError::Transport(y)) => x@ == y@,
            (ClientError::TransportFanout(x), ClientError::TransportFanout(y)) => x@ == y@,
            (ClientError::Rpc(x), ClientError::Rpc(y)) => x@ == y@,
            (ClientError::InvalidEndpoint(x), ClientError::InvalidEndpoint(y)) => x@ == y@,
            (ClientError::InvalidCount(x), ClientError::InvalidCount(y)) => x == y,
            (ClientError::Connector(x), ClientError::Connector(y)) => x@ == y@,
            (ClientError::DriverGone, ClientError::DriverGone) => true,
            (ClientError::InvalidSeqKey, ClientError::InvalidSeqKey) => true,
            (ClientError::SeqUncertain, ClientError::SeqUncertain) => true,
            _ => false,
        },
{
}

/// Two outcomes of an attempt that say the same are of the same kind and carry the same.
pub proof fn law_what_outcomes_say(a: AttemptOutcome, b: AttemptOutcome)
    requires
        a@ == b@,
    ensures
        match (a, b) {
            (
                AttemptOutcome::Served { range: x, epoch: m },
                AttemptOutcome::Served { range: y, epoch: n },
            ) => x@ == y@ && m == n,
            (
                AttemptOutcome::LeaderHint { status: x, endpoint: p, epoch: m },
                AttemptOutcome::LeaderHint { status: y, endpoint: q, epoch: n },
            ) => x@ == y@ && p@ == q@ && m == n,
            (AttemptOutcome::NoLeaderYet(x), AttemptOutcome::NoLeaderYet(y)) => x@ == y@,
            (
                AttemptOutcome::HintUnusable { status: x, reason: m },
                AttemptOutcome::HintUnusable { status: y, reason: n },
            ) => x@ == y@ && m == n,
            (AttemptOutcome::Failed(x), AttemptOutcome::Failed(y)) => x@ == y@,
            _ => false,
        },
{
}

/// Two outcomes of a block request that say the same are of the same kind and carry the same.
pub proof fn law_what_block_outcomes_say(a: SeqAttemptOutcome, b: SeqAttemptOutcome)
    requires
        a@ == b@,
    ensures
        match (a, b) {
            (
                SeqAttemptOutcome::LeaderHint { status: x, endpoint: p, epoch: m },
                SeqAttemptOutcome::LeaderHint { status: y, endpoint: q, epoch: n },
            ) => x@ == y@ && p@ == q@ && m == n,
            (SeqAttemptOutcome::NoLeaderYet(x), SeqAttemptOutcome::NoLeaderYet(y)) => x@ == y@,
            (SeqAttemptOutcome::Uncertain, SeqAttemptOutcome::Uncertain) => true,
            (SeqAttemptOutcome::Failed(x), SeqAttemptOutcome::Failed(y)) => x@ == y@,
            _ => false,
        },
{
}

/// Two replies that say the same are of the same kind and carry the same.
pub proof fn law_what_replies_say(a: Reply, b: Reply, c: SeqReply, d: SeqReply)
    requires
        a@ == b@,
        c@ == d@,
    ensures
        match (a, b) {
            (Reply::Answer(x), Reply::Answer(y)) => x == y,
            (Reply::Refused { status: x, hint: p }, Reply::Refused { status: y, hint: q }) => x@
                == y@ && p@ == q@,
            (Reply::TimedOut, Reply::TimedOut) => true,
            _ => false,
        },
        match (c, d) {
            (SeqReply::Answer(x), SeqReply::Answer(y)) => x.key@ == y.key@ && x.start == y.start
                && x.count == y.count && (x.epoch is Some <==> y.epoch is Some) && (x.epoch is Some
                ==> x.epoch->0.hi == y.epoch->0.hi && x.epoch->0.lo == y.epoch->0.lo),
            (SeqReply::Refused { status: x, hint: p }, SeqReply::Refused { status: y, hint: q }) => x@
                == y@ && p@ == q@,
            (SeqReply::TimedOut, SeqReply::TimedOut) => true,
            _ => false,
        },
{
    if let (SeqReply::Answer(x), SeqReply::Answer(y)) = (c, d) {
        if let (Some(m), Some(n)) = (x.epoch, y.epoch) {
            crate::timestamp::law_epoch_survives_wire(m.hi, m.lo, n.hi, n.lo);
            crate::timestamp::law_epoch_survives_wire(n.hi, n.lo, m.hi, m.lo);
        }
    }
}

/// Two hints that say the same name the same leader at the same epoch.
pub proof fn law_what_hints_say(a: LeaderHintLookup, b: LeaderHintLookup)
    requires
        a@ == b@,
    ensures
        match (a, b) {
            (LeaderHintLookup::Absent, LeaderHintLookup::Absent) => true,
            (LeaderHintLookup::Malformed, LeaderHintLookup::Malformed) => true,
            (LeaderHintLookup::Decoded(x), LeaderHintLookup::Decoded(y)) => {
                &&& x.leader_endpoint is Some <==> y.leader_endpoint is Some
                &&& x.leader_endpoint is Some ==> x.leader_endpoint->0@ == y.leader_endpoint->0@
                &&& x.leader_epoch is Some <==> y.leader_epoch is Some
                &&& x.leader_epoch is Some ==> x.leader_epoch->0.hi == y.leader_epoch->0.hi
                    && x.leader_epoch->0.lo == y.leader_epoch->0.lo
            },
            _ => false,
        },
{
    if let (LeaderHintLookup::Decoded(x), LeaderHintLookup::Decoded(y)) = (a, b) {
        text_of(x.leader_endpoint, y.leader_endpoint);
        if let (Some(m), Some(n)) = (x.leader_epoch, y.leader_epoch) {
            crate::timestamp::law_epoch_survives_wire(m.hi, m.lo, n.hi, n.lo);
            crate::timestamp::law_epoch_survives_wire(n.hi, n.lo, m.hi, m.lo);
        }
    }
}

/// Two steps of a call that say the same are the same: the endpoint to dial with its budget, the
/// exponent of the pause, or the end.
pub proof fn law_what_steps_say(a: Step, b: Step, c: Verdict, d: Verdict)
    requires
        a@ == b@,
        c@ == d@,
    ensures
        match (a, b) {
            (Step::Dial { endpoint: x, budget: m }, Step::Dial { endpoint: y, budget: n }) => x@
                == y@ && m@ == n@,
            (Step::Backoff { exponent: m }, Step::Backoff { exponent: n }) => m == n,
            (Step::GiveUp, Step::GiveUp) => true,
            _ => false,
        },
        match (c, d) {
            (
                Verdict::Redirect { status: x, endpoint: p },
                Verdict::Redirect { status: y, endpoint: q },
            ) => x@ == y@ && p@ == q@,
            (Verdict::Election(x), Verdict::Election(y)) => x@ == y@,
            (Verdict::Rejected(x), Verdict::Rejected(y)) => x@ == y@,
            (Verdict::Failed(x), Verdict::Failed(y)) => x@ == y@,
            _ => false,
        },
{
}

/// Two cache entries, and two members, that say the same hold the same.
pub proof fn law_what_entries_say(a: CachedLeader, b: CachedLeader, c: MemberAddr, d: MemberAddr)
    requires
        a@ == b@,
        c@ == d@,
    ensures
        a.endpoint@ == b.endpoint@,
        a.epoch == b.epoch,
        a.last_used@ == b.last_used@,
        c.raft_addr@ == d.raft_addr@,
        c.service_endpoint@ == d.service_endpoint@,
        c.admin_endpoint@ == d.admin_endpoint@,
{
}

} // verus!
