//! Classifying a NOT_LEADER reply: what its leader hint says, whether following it would downgrade
//! the transport, and whether it may be seated in the leader cache. The cache is written in the
//! same step that decides.
use vstd::prelude::*;
use vstd::string::*;

use crate::attempt::{AttemptOutcome, HintUnusableReason, OutcomeView};
use crate::channel_pool::{ChannelPool, PoolView, SeatSource};
use crate::status::{Status, StatusView};
use crate::text::starts_with;
use crate::time::Instant;
use crate::timestamp;
use crate::timestamp::Epoch;

verus! {

/// A leader epoch as it comes over the wire, in two halves.
#[derive(Clone, Copy, Debug, PartialEq, Eq, Structural)]
pub struct EpochWire {
    pub hi: u64,
    pub lo: u64,
}

/// A leader hint: where the leader is, and at which epoch, as far as the peer knew.
#[derive(Debug)]
pub struct LeaderHint {
    pub leader_endpoint: Option<String>,
    pub leader_epoch: Option<EpochWire>,
}

/// What the leader-hint trailer of a reply held.
#[derive(Debug)]
pub enum LeaderHintLookup {
    /// There was no trailer.
    Absent,
    /// The trailer's bytes are no leader hint.
    Malformed,
    /// The trailer held this hint.
    Decoded(LeaderHint),
}

/// What a [`LeaderHintLookup`] says.
#[verifier::ext_equal]
pub enum LookupView {
    Absent,
    Malformed,
    Decoded { endpoint: Option<Seq<char>>, epoch: Option<u128> },
}

impl View for LeaderHintLookup {
    type V = LookupView;

    open spec fn view(&self) -> LookupView {
        match self {
            LeaderHintLookup::Absent => LookupView::Absent,
            LeaderHintLookup::Malformed => LookupView::Malformed,
            LeaderHintLookup::Decoded(hint) => LookupView::Decoded {
                endpoint: crate::text::option_view(hint.leader_endpoint),
                epoch: match hint.leader_epoch {
                    Some(wire) => Some(timestamp::epoch_of(wire.hi, wire.lo)),
                    None => None,
                },
            },
        }
    }
}

/// True of a hint that would take the next RPC off TLS.
pub open spec fn downgrades(tls_required: bool, endpoint: Seq<char>) -> bool {
    tls_required && "http://"@.is_prefix_of(endpoint)
}

/// What a NOT_LEADER reply means for the retry loop, and the pool after it.
///
/// - Without a trailer no leader is known yet.
/// - A trailer that is malformed, names no endpoint, or would downgrade the transport is rejected.
/// - Otherwise the hint is followed where the cache takes it, else it is stale.
pub open spec fn classified(
    pool: PoolView,
    status: StatusView,
    lookup: LookupView,
    now: nat,
) -> (PoolView, OutcomeView) {
    let rejected = OutcomeView::HintUnusable { status, reason: HintUnusableReason::Rejected };
    match lookup {
        LookupView::Absent => (pool, OutcomeView::NoLeaderYet(status)),
        LookupView::Malformed => (pool, rejected),
        LookupView::Decoded { endpoint: None, .. } => (pool, rejected),
        LookupView::Decoded { endpoint: Some(endpoint), epoch } => if downgrades(
            pool.tls_required,
            endpoint,
        ) {
            (pool, rejected)
        } else {
            let (after, accepted) = pool.seat(endpoint, epoch, SeatSource::Hinted, now);
            if accepted {
                (after, OutcomeView::LeaderHint { status, endpoint, epoch })
            } else {
                (
                    after,
                    OutcomeView::HintUnusable { status, reason: HintUnusableReason::StaleEpoch },
                )
            }
        },
    }
}

/// Decides what the retry loop should do with a NOT_LEADER reply, and seats a hint that may be
/// followed.
pub fn classify_not_leader_hint(
    pool: &mut ChannelPool,
    status: Status,
    lookup: LeaderHintLookup,
    now: Instant,
) -> (r: AttemptOutcome)
    requires
        old(pool).wf(),
    ensures
        final(pool).wf(),
        (final(pool)@, r@) == classified(old(pool)@, status@, lookup@, now@),
{
    let (hinted, epoch): (Option<String>, Option<u128>) = match lookup {
        LeaderHintLookup::Decoded(hint) => {
            let epoch: Option<u128> = match hint.leader_epoch {
                Some(wire) => Some(Epoch::from_wire(wire.hi, wire.lo).0),
                None => None,
            };
            (hint.leader_endpoint, epoch)
        },
        LeaderHintLookup::Absent => {
            return AttemptOutcome::NoLeaderYet(status);
        },
        LeaderHintLookup::Malformed => (None, None),
    };
    match hinted {
        Some(endpoint) => {
            if rejects_plaintext_hint(pool, endpoint.as_str()) {
                return AttemptOutcome::HintUnusable {
                    status,
                    reason: HintUnusableReason::Rejected,
                };
            }
            if pool.compare_and_set_leader(endpoint.clone(), epoch, now) {
                AttemptOutcome::LeaderHint { status, endpoint, epoch }
            } else {
                AttemptOutcome::HintUnusable { status, reason: HintUnusableReason::StaleEpoch }
            }
        },
        None => AttemptOutcome::HintUnusable { status, reason: HintUnusableReason::Rejected },
    }
}

/// Tells whether a hint off the wire has to be refused because it would take the next RPC off TLS.
/// Endpoints that the operator configured are not asked.
pub fn rejects_plaintext_hint(pool: &ChannelPool, hint: &str) -> (r: bool)
    ensures
        r == downgrades(pool@.tls_required, hint@),
{
    pool.tls_required() && starts_with(hint, "http://")
}

/// Under TLS no plaintext hint is followed, nor does it touch the pool, whatever epoch it claims.
pub proof fn law_no_downgrade_under_tls(
    pool: PoolView,
    status: StatusView,
    endpoint: Seq<char>,
    epoch: Option<u128>,
    now: nat,
)
    requires
        pool.tls_required,
        "http://"@.is_prefix_of(endpoint),
    ensures
        classified(
            pool,
            status,
            LookupView::Decoded { endpoint: Some(endpoint), epoch },
            now,
        ) == (
            pool,
            OutcomeView::HintUnusable { status, reason: HintUnusableReason::Rejected },
        ),
{
}

/// Whatever a NOT_LEADER reply holds, it never clears the leader cache: it changes only where a
/// hint is followed, and then it names the hinted endpoint.
pub proof fn law_cache_changes_only_by_followed_hint(
    pool: PoolView,
    status: StatusView,
    lookup: LookupView,
    now: nat,
)
    ensures
        match classified(pool, status, lookup, now).1 {
            OutcomeView::LeaderHint { endpoint, .. } => classified(
                pool,
                status,
                lookup,
                now,
            ).0.leader matches Some(cached) && cached.endpoint == endpoint,
            _ => classified(pool, status, lookup, now).0 == pool,
        },
{
}

/// Two peers that hint at different epochs while the first hint is fresh: the client ends up at
/// the leader of the higher epoch, in whichever order the hints arrive.
pub proof fn law_higher_epoch_hint_wins(
    pool: PoolView,
    status: StatusView,
    low_endpoint: Seq<char>,
    low: u128,
    high_endpoint: Seq<char>,
    high: u128,
    first: nat,
    second: nat,
)
    requires
        low_endpoint != high_endpoint,
        low < high,
        first <= second,
        second - first < pool.retry_policy.leader_ttl@,
        pool.leader is Some && pool.leader->0.epoch is Some ==> pool.leader->0.epoch->0 <= high,
        !downgrades(pool.tls_required, low_endpoint),
        !downgrades(pool.tls_required, high_endpoint),
    ensures
        ({
            let low_hint = LookupView::Decoded { endpoint: Some(low_endpoint), epoch: Some(low) };
            let high_hint = LookupView::Decoded {
                endpoint: Some(high_endpoint),
                epoch: Some(high),
            };
            let low_first = classified(
                classified(pool, status, low_hint, first).0,
                status,
                high_hint,
                second,
            ).0;
            let high_first = classified(
                classified(pool, status, high_hint, first).0,
                status,
                low_hint,
                second,
            ).0;
            &&& low_first.fresh_endpoint(second) == Some(high_endpoint)
            &&& high_first.fresh_endpoint(second) == Some(high_endpoint)
        }),
{
}

/// A hint is refused for its scheme exactly where the pool asks for TLS and the hint begins with
/// `http://`.
pub proof fn law_which_hints_leave_tls(pool: ChannelPool, hint: &str, refused: bool)
    requires
        call_ensures(rejects_plaintext_hint, (&pool, hint), refused),
    ensures
        refused <==> pool@.tls_required && "http://"@.is_prefix_of(hint@),
{
}

} // verus!
