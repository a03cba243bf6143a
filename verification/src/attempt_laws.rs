//! What one attempt, one reply and one request come to, in terms of what the server said.
use vstd::prelude::*;

use crate::attempt;
use crate::attempt::{Attempt, AttemptOutcome, Connected, HintUnusableReason, OutcomeView, Reply};
use crate::channel_pool;
use crate::channel_pool::{ChannelPool, Connector, LeaderView, PoolView};
use crate::client::{BuilderView, Client, ClientBuilder, MaxSafe, MaxSafeReply, SeqLimits};
use crate::driver::Waiter;
use crate::error::{ClientError, ErrorView};
use crate::leader_hint;
use crate::leader_hint::{EpochWire, LeaderHintLookup};
use crate::response;
use crate::response::{GetTsResponse, TimestampRange};
use crate::retry::RetryLoop;
use crate::retry_laws;
use crate::retry_policy;
use crate::retry_policy::RetryPolicy;
use crate::seq_attempt;
use crate::seq_attempt::{SeqAttemptOutcome, SeqBlock, SeqOutcomeView, SeqReply};
use crate::status::{Code, Status, StatusView};
use crate::text;
use crate::time;
use crate::time::{Duration, Instant, MAX_NANOS};
use crate::timestamp::{Epoch, Timestamp};

verus! {

/// The number whose halves came over the wire.
pub open spec fn halves(hi: u64, lo: u64) -> int {
    hi * 0x1_0000_0000_0000_0000 + lo
}

/// True of the epoch whose halves came over the wire, where they did.
pub open spec fn carries(wire: Option<EpochWire>, epoch: Option<u128>) -> bool {
    match (wire, epoch) {
        (Some(given), Some(got)) => got == halves(given.hi, given.lo),
        (None, None) => true,
        _ => false,
    }
}

/// True of a cache entry younger than the time to live.
pub open spec fn still_fresh(leader: LeaderView, ttl: nat, now: nat) -> bool {
    ttl > 0 && now < leader.last_used + ttl
}

/// True where the pool believes in another leader, freshly and at a known epoch, that a hint does
/// not reach: its epoch is lower, or it has none and names an endpoint that is not configured.
pub open spec fn behind(pool: PoolView, endpoint: Seq<char>, epoch: Option<u128>, now: nat) -> bool {
    &&& pool.leader matches Some(cached) && {
        &&& cached.endpoint != endpoint
        &&& still_fresh(cached, pool.retry_policy.leader_ttl@, now)
        &&& cached.epoch matches Some(known) && match epoch {
            Some(hinted) => hinted < known,
            None => !pool.configured.contains(endpoint),
        }
    }
}

/// True where nothing of the pool but its leader cache changed.
pub open spec fn same_but_leader(before: PoolView, after: PoolView) -> bool {
    &&& after.configured == before.configured
    &&& after.channels == before.channels
    &&& after.connector == before.connector
    &&& after.tls_required == before.tls_required
    &&& after.retry_policy == before.retry_policy
    &&& after.rotation == before.rotation
    &&& after.next_cell == before.next_cell
}

/// True where the pool now believes in the endpoint, as of now, at the epoch given; where it did
/// already, at the higher of both epochs.
pub open spec fn believes(
    before: PoolView,
    after: PoolView,
    endpoint: Seq<char>,
    epoch: Option<u128>,
    now: nat,
) -> bool {
    &&& same_but_leader(before, after)
    &&& after.leader matches Some(cached) && {
        &&& cached.endpoint == endpoint
        &&& cached.last_used == now
        &&& if before.leader is Some && before.leader->0.endpoint == endpoint {
            &&& before.leader->0.epoch matches Some(known) ==> cached.epoch is Some
                && cached.epoch->0 >= known
            &&& epoch matches Some(given) ==> cached.epoch is Some && cached.epoch->0 >= given
            &&& cached.epoch == epoch || cached.epoch == before.leader->0.epoch
        } else {
            cached.epoch == epoch
        }
    }
}

/// True where an answer of `endpoint` at `epoch` is noted: the pool believes in it, unless it freshly
/// believes in another leader of a higher or an unknown epoch.
pub open spec fn noted(
    before: PoolView,
    after: PoolView,
    endpoint: Seq<char>,
    epoch: u128,
    now: nat,
) -> bool {
    let outdone = before.leader is Some && {
        let cached = before.leader->0;
        &&& cached.endpoint != endpoint
        &&& still_fresh(cached, before.retry_policy.leader_ttl@, now)
        &&& cached.epoch is None || epoch < cached.epoch->0
    };
    if outdone {
        after == before
    } else {
        believes(before, after, endpoint, Some(epoch), now)
    }
}

/// True where the endpoint's channel is gone, if it was the one of that cell, and nothing else
/// changed.
pub open spec fn channel_dropped(
    before: PoolView,
    after: PoolView,
    endpoint: Seq<char>,
    cell: u64,
) -> bool {
    &&& after.configured == before.configured
    &&& after.leader == before.leader
    &&& after.connector == before.connector
    &&& after.tls_required == before.tls_required
    &&& after.retry_policy == before.retry_policy
    &&& after.rotation == before.rotation
    &&& after.next_cell == before.next_cell
    &&& forall|e: Seq<char>| #[trigger]
        after.channels.dom().contains(e) <==> before.channels.dom().contains(e) && !(e == endpoint
            && before.channels[e].cell == cell)
    &&& forall|e: Seq<char>| #[trigger]
        after.channels.dom().contains(e) ==> after.channels[e] == before.channels[e]
}

/// What a refusal for want of leadership comes to. Without a leader hint no leader is known. A hint
/// that cannot be read, names no endpoint, or would take a client of TLS to plaintext, is rejected.
/// A hint behind the leader that the pool freshly believes in is stale. Every other hint is followed
/// to its endpoint, and the pool believes it from then on. The status comes along in each case.
pub open spec fn hint_taken(
    before: PoolView,
    after: PoolView,
    status: Status,
    lookup: LeaderHintLookup,
    now: nat,
    outcome: OutcomeView,
) -> bool {
    let rejected = outcome == (OutcomeView::HintUnusable {
        status: status@,
        reason: HintUnusableReason::Rejected,
    }) && after == before;
    match lookup {
        LeaderHintLookup::Absent => outcome == OutcomeView::NoLeaderYet(status@) && after == before,
        LeaderHintLookup::Malformed => rejected,
        LeaderHintLookup::Decoded(hint) => match hint.leader_endpoint {
            None => rejected,
            Some(endpoint) => if before.tls_required && "http://"@.is_prefix_of(endpoint@) {
                rejected
            } else {
                exists|epoch: Option<u128>| #[trigger]
                    carries(hint.leader_epoch, epoch) && if behind(before, endpoint@, epoch, now) {
                        after == before && outcome == (OutcomeView::HintUnusable {
                            status: status@,
                            reason: HintUnusableReason::StaleEpoch,
                        })
                    } else {
                        believes(before, after, endpoint@, epoch, now) && outcome == (
                        OutcomeView::LeaderHint {
                            status: status@,
                            endpoint: endpoint@,
                            epoch,
                        })
                    }
            },
        },
    }
}

proof fn lemma_epoch(wire: Option<EpochWire>) -> (epoch: Option<u128>)
    ensures
        carries(wire, epoch),
        wire matches Some(w) ==> epoch == Some(crate::timestamp::epoch_of(w.hi, w.lo)),
        wire is None ==> epoch is None,
{
    match wire {
        Some(w) => {
            assert(0 <= halves(w.hi, w.lo) <= u128::MAX);
            Some(crate::timestamp::epoch_of(w.hi, w.lo))
        },
        None => None,
    }
}

/// What a refusal for want of leadership comes to: see [`hint_taken`].
pub proof fn law_a_hint_is_followed_rejected_or_stale(
    pool: &mut ChannelPool,
    status: Status,
    lookup: LeaderHintLookup,
    now: Instant,
    outcome: AttemptOutcome,
)
    requires
        call_ensures(
            leader_hint::classify_not_leader_hint,
            (pool, status, lookup, now),
            outcome,
        ),
    ensures
        hint_taken(old(pool)@, final(pool)@, status, lookup, now@, outcome@),
{
    if let LeaderHintLookup::Decoded(hint) = lookup {
        let epoch = lemma_epoch(hint.leader_epoch);
        assert(carries(hint.leader_epoch, epoch));
    }
}

/// True of an answer to a request for `count` timestamps that can be handed out: it carries that
/// count, at least one, and every one of its timestamps fits 46 bits of milliseconds and 18 bits of
/// counter.
pub open spec fn is_sound(resp: GetTsResponse, count: u32) -> bool {
    &&& resp.count == count
    &&& 1 <= count
    &&& resp.logical_start + count <= 0x4_0000
    &&& resp.physical_ms < 0x4000_0000_0000
}

/// True of the status of an RPC that took longer than its share of a budget.
pub open spec fn took_too_long(share: nat, budget: nat, status: StatusView) -> bool {
    &&& status.code == Code::DeadlineExceeded
    &&& status.message == "rpc exceeded its share of per_attempt_deadline ("@ + time::span_text(
        share,
    ) + " of "@ + time::span_text(budget) + ")"@
    &&& status.details.len() == 0 && status.trailers.len() == 0 && status.source is None
}

/// What the reply to a timestamp request comes to. A sound answer is served as it is: its
/// millisecond, its first counter, its count, and the epoch whose halves it carries. Any other answer
/// fails with an INTERNAL status. A refusal for want of leadership goes by its hint. Every other
/// refusal fails with its status, and so does a reply that does not come in time, with
/// DEADLINE_EXCEEDED. The channel is dropped after UNAVAILABLE and DEADLINE_EXCEEDED alone; but for
/// that and for hints the pool stays as it is.
pub proof fn law_what_a_reply_comes_to(
    attempt: Attempt,
    pool: &mut ChannelPool,
    endpoint: &str,
    cell: u64,
    count: u32,
    reply: Reply,
    rpc_budget: Duration,
    now: Instant,
    outcome: AttemptOutcome,
)
    requires
        call_ensures(
            Attempt::replied,
            (&attempt, pool, endpoint, cell, count, reply, rpc_budget, now),
            outcome,
        ),
    ensures
        match reply {
            Reply::Answer(resp) => final(pool)@ == old(pool)@ && if is_sound(resp, count) {
                outcome@ matches OutcomeView::Served { range, epoch } && {
                    &&& range.physical_ms == resp.physical_ms
                    &&& range.logical_start == resp.logical_start
                    &&& range.count == resp.count
                    &&& epoch == halves(resp.epoch_hi, resp.epoch_lo)
                }
            } else {
                outcome@ matches OutcomeView::Failed(ErrorView::Rpc(status)) && status.code
                    == Code::Internal
            },
            Reply::Refused { status, hint } => if status.code == Code::FailedPrecondition {
                hint_taken(old(pool)@, final(pool)@, status, hint, now@, outcome@)
            } else {
                &&& outcome@ == OutcomeView::Failed(ErrorView::Rpc(status@))
                &&& if status.code == Code::Unavailable || status.code == Code::DeadlineExceeded {
                    channel_dropped(old(pool)@, final(pool)@, endpoint@, cell)
                } else {
                    final(pool)@ == old(pool)@
                }
            },
            Reply::TimedOut => {
                &&& outcome@ matches OutcomeView::Failed(ErrorView::Rpc(status)) && took_too_long(
                    rpc_budget@,
                    attempt@.budget,
                    status,
                )
                &&& channel_dropped(old(pool)@, final(pool)@, endpoint@, cell)
            },
        },
{
    match reply {
        Reply::Answer(resp) => {
            assert(0 <= halves(resp.epoch_hi, resp.epoch_lo) <= u128::MAX);
        },
        Reply::Refused { status, hint } => {
            if let LeaderHintLookup::Decoded(given) = hint {
                let epoch = lemma_epoch(given.leader_epoch);
                assert(carries(given.leader_epoch, epoch));
            }
        },
        Reply::TimedOut => {},
    }
}

/// An answer is taken exactly where it is sound, and its range is the one it carries.
pub proof fn law_an_answer_is_decoded_as_it_is(
    resp: GetTsResponse,
    requested: u32,
    decoded: Result<TimestampRange, ClientError>,
)
    requires
        call_ensures(response::decode_get_ts_response, (resp, requested), decoded),
    ensures
        decoded is Ok <==> is_sound(resp, requested),
        decoded matches Ok(range) ==> range@.physical_ms == resp.physical_ms
            && range@.logical_start == resp.logical_start && range@.count == resp.count,
        decoded matches Err(error) ==> (error@ matches ErrorView::Rpc(status) && status.code
            == Code::Internal && status.message == if resp.count != requested {
            "server returned count="@ + text::spec_decimal(resp.count as nat)
                + " for requested count="@ + text::spec_decimal(requested as nat)
        } else if resp.count == 0 || resp.count > 0x4_0000 {
            "server returned out-of-range count="@ + text::spec_decimal(resp.count as nat)
        } else if resp.logical_start + resp.count > 0x4_0000 {
            "server returned logical_start="@ + text::spec_decimal(resp.logical_start as nat)
                + " + count="@ + text::spec_decimal(resp.count as nat)
                + " that overflows LOGICAL_MAX="@ + text::spec_decimal(262_143)
        } else {
            "server returned invalid timestamp fields: "@ + ("physical_ms "@ + text::spec_decimal(
                resp.physical_ms as nat,
            ) + " exceeds PHYSICAL_MS_MAX="@ + text::spec_decimal(70_368_744_177_663))
        }),
{
}

/// The connect phase hands on the channel it was given, with what is left of the attempt's budget
/// then; a failure to connect is handed on as it is, and one that took too long is
/// DEADLINE_EXCEEDED.
pub proof fn law_a_connect_phase_hands_on<C>(
    budget: Duration,
    start: Instant,
    attempt: Attempt,
    outcome: Connected<C>,
    now: Instant,
    connected: Result<(C, Duration), ClientError>,
)
    requires
        call_ensures(Attempt::start, (budget, start), attempt),
        call_ensures(Attempt::connected::<C>, (&attempt, outcome, now), connected),
    ensures
        outcome matches Connected::Leased(channel) ==> {
            &&& connected matches Ok((handed, left)) && handed == channel && {
                &&& now@ >= start@ + budget@ ==> left@ == 0
                &&& now@ < start@ + budget@ <= now@ + MAX_NANOS ==> now@ + left@ == start@ + budget@
            }
        },
        outcome matches Connected::Failed(error) ==> connected == Err::<(C, Duration), _>(error),
        outcome is TimedOut ==> (connected matches Err(error) && error@ matches ErrorView::Rpc(
            status,
        ) && status.code == Code::DeadlineExceeded && status.message
            == "connect exceeded per_attempt_deadline of "@ + time::span_text(budget@)),
{
}

/// Which errors say that the connection itself failed: an RPC that ended with UNAVAILABLE or
/// DEADLINE_EXCEEDED, and a failed transport, first-hand or handed on. After these and no others a
/// call pauses.
pub proof fn law_which_errors_are_of_the_transport(error: ClientError, failed: bool, pauses: bool)
    requires
        call_ensures(retry_policy::is_transport_failure, (&error,), failed),
        call_ensures(retry_policy::should_backoff, (&error,), pauses),
    ensures
        pauses == failed,
        failed <==> match error {
            ClientError::Rpc(status) => status.code == Code::Unavailable || status.code
                == Code::DeadlineExceeded,
            _ => error is Transport || error is TransportFanout,
        },
{
}

/// What the reply to a block request comes to.
///
/// - An answer for the key and the count that were asked for, at a known epoch, is the block that it
///   describes, and is noted as an answer of its endpoint; any other answer is uncertain.
/// - A refusal for want of leadership is never uncertain: a hint is followed or stale as for
///   timestamps, and without a usable one the request failed with the status.
/// - INVALID_ARGUMENT is a bad key. Every other refusal, and a reply that does not come in time, is
///   uncertain.
/// - The channel is dropped after UNAVAILABLE, DEADLINE_EXCEEDED and a reply that does not come.
pub proof fn law_what_a_block_reply_comes_to(
    pool: &mut ChannelPool,
    endpoint: &str,
    cell: u64,
    key: String,
    count: u32,
    reply: SeqReply,
    now: Instant,
    result: Result<SeqBlock, SeqAttemptOutcome>,
)
    requires
        call_ensures(
            seq_attempt::seq_replied,
            (pool, endpoint, cell, &key, count, reply, now),
            result,
        ),
    ensures
        match reply {
            SeqReply::Answer(resp) => if resp.key@ == key@ && resp.count == count
                && resp.epoch is Some {
                result matches Ok(block) && {
                    &&& block.start == resp.start
                    &&& block.count == count
                    &&& block.epoch == halves(resp.epoch->0.hi, resp.epoch->0.lo)
                    &&& noted(old(pool)@, final(pool)@, endpoint@, block.epoch, now@)
                }
            } else {
                result matches Err(outcome) && outcome is Uncertain && final(pool)@ == old(pool)@
            },
            SeqReply::Refused { status, hint } => result matches Err(outcome) && if status.code
                == Code::FailedPrecondition {
                block_hint_taken(old(pool)@, final(pool)@, status, hint, now@, outcome@)
            } else if status.code == Code::InvalidArgument {
                outcome@ == SeqOutcomeView::Failed(ErrorView::InvalidSeqKey) && final(pool)@
                    == old(pool)@
            } else if status.code == Code::Unavailable || status.code == Code::DeadlineExceeded {
                outcome is Uncertain && channel_dropped(
                    old(pool)@,
                    final(pool)@,
                    endpoint@,
                    cell,
                )
            } else {
                outcome is Uncertain && final(pool)@ == old(pool)@
            },
            SeqReply::TimedOut => result matches Err(outcome) && outcome is Uncertain
                && channel_dropped(old(pool)@, final(pool)@, endpoint@, cell),
        },
{
    match reply {
        SeqReply::Answer(resp) => {
            let epoch = lemma_epoch(resp.epoch);
            assert(carries(resp.epoch, epoch));
        },
        SeqReply::Refused { status, hint } => {
            if let LeaderHintLookup::Decoded(given) = hint {
                let epoch = lemma_epoch(given.leader_epoch);
                assert(carries(given.leader_epoch, epoch));
            }
        },
        SeqReply::TimedOut => {},
    }
}

/// What a refusal of a block request for want of leadership comes to. Nothing was spent, so it is
/// never uncertain. Without a leader hint, and with one that is rejected as for timestamps, the
/// request failed with the status; a stale hint is a sign of an election; every other one is
/// followed.
pub open spec fn block_hint_taken(
    before: PoolView,
    after: PoolView,
    status: Status,
    lookup: LeaderHintLookup,
    now: nat,
    outcome: SeqOutcomeView,
) -> bool {
    let refused = outcome == SeqOutcomeView::Failed(ErrorView::Rpc(status@)) && after == before;
    match lookup {
        LeaderHintLookup::Absent => refused,
        LeaderHintLookup::Malformed => refused,
        LeaderHintLookup::Decoded(hint) => match hint.leader_endpoint {
            None => refused,
            Some(endpoint) => if before.tls_required && "http://"@.is_prefix_of(endpoint@) {
                refused
            } else {
                exists|epoch: Option<u128>| #[trigger]
                    carries(hint.leader_epoch, epoch) && if behind(before, endpoint@, epoch, now) {
                        after == before && outcome == SeqOutcomeView::NoLeaderYet(status@)
                    } else {
                        believes(before, after, endpoint@, epoch, now) && outcome == (
                        SeqOutcomeView::LeaderHint {
                            status: status@,
                            endpoint: endpoint@,
                            epoch,
                        })
                    }
            },
        },
    }
}

/// No refusal under FAILED_PRECONDITION is uncertain, and one whose hint names an endpoint that may
/// be followed comes to that hint, at its endpoint and its epoch.
pub proof fn law_a_refused_block_is_certain(
    pool: &mut ChannelPool,
    endpoint: &str,
    cell: u64,
    key: String,
    count: u32,
    status: Status,
    hint: LeaderHintLookup,
    now: Instant,
    result: Result<SeqBlock, SeqAttemptOutcome>,
)
    requires
        status.code == Code::FailedPrecondition,
        call_ensures(
            seq_attempt::seq_replied,
            (pool, endpoint, cell, &key, count, SeqReply::Refused { status, hint }, now),
            result,
        ),
    ensures
        result is Err,
        !(result->Err_0 is Uncertain),
        hint matches LeaderHintLookup::Decoded(named) ==> named.leader_endpoint matches Some(leader)
            ==> (result->Err_0 is LeaderHint ==> result->Err_0@->endpoint == leader@ && carries(
            named.leader_epoch,
            result->Err_0@->epoch,
        )),
        hint matches LeaderHintLookup::Decoded(named) ==> named.leader_endpoint matches Some(leader)
            ==> (old(pool)@.leader is None && !old(pool)@.tls_required
            ==> result->Err_0 is LeaderHint),
{
    law_what_a_block_reply_comes_to(
        pool,
        endpoint,
        cell,
        key,
        count,
        SeqReply::Refused { status, hint },
        now,
        result,
    );
}

/// What a status that held no leader hint means for a block request, sent or not: a bad key, a
/// refusal before anything was spent, or, once it was sent, that a block may have been spent.
pub proof fn law_what_a_block_status_means(
    status: Status,
    sent: bool,
    outcome: SeqAttemptOutcome,
)
    requires
        call_ensures(seq_attempt::classify_seq_status, (status, sent), outcome),
    ensures
        status.code == Code::InvalidArgument ==> outcome@ == SeqOutcomeView::Failed(
            ErrorView::InvalidSeqKey,
        ),
        status.code == Code::FailedPrecondition ==> outcome@ == SeqOutcomeView::Failed(
            ErrorView::Rpc(status@),
        ),
        outcome is Uncertain <==> sent && status.code != Code::InvalidArgument && status.code
            != Code::FailedPrecondition,
        !sent && (status.code == Code::Unavailable || status.code == Code::DeadlineExceeded)
            ==> outcome@ == SeqOutcomeView::NoLeaderYet(status@),
        !sent && status.code != Code::Unavailable && status.code != Code::DeadlineExceeded
            && status.code != Code::InvalidArgument ==> outcome@ == SeqOutcomeView::Failed(
            ErrorView::Rpc(status@),
        ),
{
}

/// A safe-point request that the server answers gives exactly the safe point of the answer and the
/// epoch whose halves it carries, and leaves the pool as it is. One that is refused fails with that
/// status, and one that is not answered in time with DEADLINE_EXCEEDED; the channel is dropped after
/// UNAVAILABLE and DEADLINE_EXCEEDED alone.
pub proof fn law_a_safe_point_is_handed_on(
    pool: &mut ChannelPool,
    endpoint: &str,
    cell: u64,
    reply: MaxSafeReply,
    rpc_budget: Duration,
    budget: Duration,
    result: Result<MaxSafe, ClientError>,
)
    requires
        call_ensures(
            Client::max_safe_replied,
            (pool, endpoint, cell, reply, rpc_budget, budget),
            result,
        ),
    ensures
        match reply {
            MaxSafeReply::Answer { max_safe_physical_ms, epoch_hi, epoch_lo } => {
                &&& result matches Ok(safe) && safe.max_safe_physical_ms == max_safe_physical_ms
                    && safe.epoch.0 == halves(epoch_hi, epoch_lo)
                &&& final(pool)@ == old(pool)@
            },
            MaxSafeReply::Refused(status) => {
                &&& result matches Err(error) && error@ == ErrorView::Rpc(status@)
                &&& if status.code == Code::Unavailable || status.code == Code::DeadlineExceeded {
                    channel_dropped(old(pool)@, final(pool)@, endpoint@, cell)
                } else {
                    final(pool)@ == old(pool)@
                }
            },
            MaxSafeReply::TimedOut => {
                &&& result matches Err(error) && error@ matches ErrorView::Rpc(status)
                    && took_too_long(rpc_budget@, budget@, status)
                &&& channel_dropped(old(pool)@, final(pool)@, endpoint@, cell)
            },
        },
{
    if let MaxSafeReply::Answer { epoch_hi, epoch_lo, .. } = reply {
        assert(0 <= halves(epoch_hi, epoch_lo) <= u128::MAX);
    }
}

/// A safe-point request goes to the leader that the pool freshly believes in, else to the first
/// configured endpoint.
pub proof fn law_where_a_safe_point_is_asked(
    pool: ChannelPool,
    now: Instant,
    result: Result<String, ClientError>,
)
    requires
        call_ensures(Client::get_current_max_safe, (&pool, now), result),
    ensures
        pool@.leader is Some && still_fresh(
            pool@.leader->0,
            pool@.retry_policy.leader_ttl@,
            now@,
        ) ==> (result matches Ok(endpoint) && endpoint@ == pool@.leader->0.endpoint),
        !(pool@.leader is Some && still_fresh(
            pool@.leader->0,
            pool@.retry_policy.leader_ttl@,
            now@,
        )) && pool@.configured.len() > 0 ==> (result matches Ok(endpoint) && endpoint@
            == pool@.configured[0]),
        result matches Err(error) ==> error@ is NoReachableEndpoints && pool@.configured.len() == 0,
{
}

/// A request for one timestamp asks for one, and a request for several for as many as were asked
/// for, between one and 262,144; any other count is refused with that count. The answer goes where
/// it was asked for.
pub proof fn law_requests_ask_for_what_was_asked<R>(
    respond: R,
    count: u32,
    single: Waiter<R>,
    several: Result<Waiter<R>, ClientError>,
)
    requires
        call_ensures(Client::get_ts::<R>, (respond,), single),
        call_ensures(Client::get_ts_batch::<R>, (count, respond), several),
    ensures
        single.count == 1 && single.respond == respond,
        several is Ok <==> 1 <= count <= 0x4_0000,
        several matches Ok(waiter) ==> waiter.count == count && waiter.respond == respond,
        several matches Err(error) ==> error@ == ErrorView::InvalidCount(count),
{
}

/// A block request starts exactly where its key is not empty and not too long, and its count between
/// one and the largest that is allowed; the key is looked at first. A request that is refused leaves
/// the pool as it is.
pub proof fn law_which_block_requests_start(
    pool: &mut ChannelPool,
    key: &str,
    count: u32,
    limits: SeqLimits,
    now: Instant,
    result: Result<RetryLoop, ClientError>,
)
    requires
        call_ensures(Client::get_seq, (pool, key, count, limits, now), result),
    ensures
        ({
            let key_fits = key@.len() > 0 && key.len() <= limits.max_key_len;
            let count_fits = 1 <= count <= limits.max_count;
            &&& result is Ok <==> key_fits && count_fits
            &&& result matches Err(error) ==> final(pool)@ == old(pool)@ && error@ == if key_fits {
                ErrorView::InvalidCount(count)
            } else {
                ErrorView::InvalidSeqKey
            }
            &&& result matches Ok(call) ==> retry_laws::fresh_call(old(pool)@, now@, call@)
                && retry_laws::turned(old(pool)@, final(pool)@)
        }),
{
}

/// What a client is built with: the endpoints given, plaintext, a flush interval of one millisecond,
/// five attempts of two seconds within ten, a backoff from fifty milliseconds, and a leader that is
/// believed in for thirty seconds; each setting changes its own part alone.
pub proof fn law_what_a_client_is_built_with(
    endpoints: Vec<String>,
    builder: ClientBuilder,
    flush_interval: Duration,
    flushing: ClientBuilder,
    policy: RetryPolicy,
    retrying: ClientBuilder,
    over_tls: ClientBuilder,
    custom: ClientBuilder,
)
    requires
        call_ensures(ClientBuilder::endpoints, (endpoints,), builder),
        call_ensures(ClientBuilder::batch_flush_interval, (builder, flush_interval), flushing),
        call_ensures(ClientBuilder::retry_policy, (builder, policy), retrying),
        call_ensures(ClientBuilder::tls_config, (builder,), over_tls),
        call_ensures(ClientBuilder::channel_connector, (builder,), custom),
    ensures
        builder@.endpoints == text::views(endpoints@),
        builder@.flush_interval == 1_000_000,
        builder@.connector == Connector::Plaintext && !builder@.tls_required,
        builder@.retry_policy.max_attempts == 5,
        builder@.retry_policy.per_attempt_deadline@ == 2_000_000_000,
        builder@.retry_policy.overall_deadline@ == 10_000_000_000,
        builder@.retry_policy.base_backoff@ == 50_000_000,
        builder@.retry_policy.leader_ttl@ == 30_000_000_000,
        flushing@ == (BuilderView { flush_interval: flush_interval@, ..builder@ }),
        retrying@ == (BuilderView { retry_policy: policy, ..builder@ }),
        over_tls@.endpoints == builder@.endpoints && custom@.endpoints == builder@.endpoints,
        over_tls@.retry_policy == builder@.retry_policy,
        custom@.retry_policy == builder@.retry_policy,
        over_tls@.flush_interval == builder@.flush_interval,
        custom@.flush_interval == builder@.flush_interval,
        over_tls@.connector == Connector::Tls && over_tls@.tls_required,
        custom@.connector == Connector::Custom && !custom@.tls_required,
{
}

/// A client is built exactly where it has an endpoint, and then out of what its builder holds: no
/// leader is believed in, and no channel is open.
pub proof fn law_a_client_holds_what_it_was_built_with(
    builder: ClientBuilder,
    built: Result<Client, ClientError>,
    parts: (ChannelPool, Duration),
)
    requires
        call_ensures(ClientBuilder::build, (builder,), built),
        built matches Ok(client) ==> call_ensures(Client::into_parts, (client,), parts),
    ensures
        built is Ok <==> builder@.endpoints.len() > 0,
        built matches Err(error) ==> error@ is NoReachableEndpoints,
        built is Ok ==> {
            &&& parts.0@.configured == builder@.endpoints
            &&& parts.0@.connector == builder@.connector
            &&& parts.0@.tls_required == builder@.tls_required
            &&& parts.0@.retry_policy == builder@.retry_policy
            &&& channel_pool::drawn_at_random(parts.0@.rotation)
            &&& parts.0@.leader is None
            &&& parts.0@.channels.dom().is_empty()
            &&& parts.1@ == builder@.flush_interval
        },
{
    assert(Map::<Seq<char>, crate::channel_pool::Slot>::empty().dom() =~= Set::empty());
}

/// A client of endpoints alone has the settings that a builder starts with.
pub proof fn law_a_client_connects_with_defaults(
    endpoints: Vec<String>,
    connected: Result<Client, ClientError>,
)
    requires
        call_ensures(Client::connect, (endpoints,), connected),
    ensures
        connected is Ok <==> endpoints@.len() > 0,
        connected matches Err(error) ==> error@ is NoReachableEndpoints,
        connected matches Ok(client) ==> {
            &&& client@.flush_interval == 1_000_000
            &&& client@.pool.configured == text::views(endpoints@)
            &&& client@.pool.connector == Connector::Plaintext && !client@.pool.tls_required
            &&& client@.pool.retry_policy.max_attempts == 5
            &&& client@.pool.retry_policy.per_attempt_deadline@ == 2_000_000_000
            &&& client@.pool.retry_policy.overall_deadline@ == 10_000_000_000
            &&& client@.pool.retry_policy.base_backoff@ == 50_000_000
            &&& client@.pool.retry_policy.leader_ttl@ == 30_000_000_000
            &&& client@.pool.leader is None
        },
{
}

/// A client names a leader exactly while it freshly believes in it.
pub proof fn law_which_leader_a_client_names(
    client: Client,
    now: Instant,
    named: Option<String>,
)
    requires
        call_ensures(Client::cached_leader, (&client, now), named),
    ensures
        named is Some <==> client@.pool.leader is Some && still_fresh(
            client@.pool.leader->0,
            client@.pool.retry_policy.leader_ttl@,
            now@,
        ),
        named matches Some(endpoint) ==> endpoint@ == client@.pool.leader->0.endpoint,
{
}

/// The timestamps of a range are those of its millisecond with consecutive counters from its first
/// on, as many as were asked for; all of them are as many as it counts.
pub proof fn law_a_range_hands_out_its_timestamps(
    physical_ms: u64,
    logical_start: u32,
    count: u32,
    range: TimestampRange,
    from: u32,
    n: u32,
    some: Vec<Timestamp>,
    all: Vec<Timestamp>,
    total: u32,
    i: int,
)
    requires
        physical_ms < 0x4000_0000_0000,
        logical_start + count <= 0x4_0000,
        from + n <= count,
        call_ensures(TimestampRange::new, (physical_ms, logical_start, count), range),
        call_ensures(TimestampRange::slice, (&range, from, n), some),
        call_ensures(TimestampRange::iter, (&range,), all),
        call_ensures(TimestampRange::count, (&range,), total),
    ensures
        total == count,
        some@.len() == n,
        all@.len() == count,
        0 <= i < n ==> some@[i].0 == physical_ms * 0x4_0000 + logical_start + from + i,
        0 <= i < count ==> all@[i].0 == physical_ms * 0x4_0000 + logical_start + i,
{
}

/// A timestamp keeps its milliseconds above eighteen bits of counter, and gives both back; parts
/// that do not fit 46 and 18 bits are refused.
pub proof fn law_a_timestamp_keeps_its_parts(
    physical_ms: u64,
    logical: u32,
    packed: Result<Timestamp, String>,
    ms: u64,
    counter: u32,
)
    requires
        call_ensures(Timestamp::try_pack, (physical_ms, logical), packed),
        packed matches Ok(ts) ==> call_ensures(Timestamp::physical_ms, (ts,), ms),
        packed matches Ok(ts) ==> call_ensures(Timestamp::logical, (ts,), counter),
    ensures
        packed is Ok <==> physical_ms < 0x4000_0000_0000 && logical < 0x4_0000,
        packed matches Ok(ts) ==> ts.0 == physical_ms * 0x4_0000 + logical && ms == physical_ms
            && counter == logical,
        packed matches Err(why) ==> why@ == if physical_ms >= 0x4000_0000_0000 {
            "physical_ms "@ + text::spec_decimal(physical_ms as nat)
                + " exceeds PHYSICAL_MS_MAX="@ + text::spec_decimal(70_368_744_177_663)
        } else {
            "logical "@ + text::spec_decimal(logical as nat) + " exceeds LOGICAL_MAX="@
                + text::spec_decimal(262_143)
        },
{
}

/// An epoch survives the wire in both directions.
pub proof fn law_an_epoch_crosses_the_wire(epoch: Epoch, wire: (u64, u64), back: Epoch)
    requires
        call_ensures(Epoch::to_wire, (epoch,), wire),
        call_ensures(Epoch::from_wire, (wire.0, wire.1), back),
    ensures
        back == epoch,
        epoch.0 == halves(wire.0, wire.1),
{
}

/// What is said of a phase that took too long: that the deadline was exceeded, and the spans it had.
pub proof fn law_what_is_said_of_a_timeout(
    share: Duration,
    budget: Duration,
    part: String,
    whole: String,
    connect: ClientError,
    rpc: ClientError,
)
    requires
        call_ensures(Duration::text, (&share,), part),
        call_ensures(Duration::text, (&budget,), whole),
        call_ensures(attempt::connect_timeout_error, (budget,), connect),
        call_ensures(attempt::rpc_timeout_error, (share, budget), rpc),
    ensures
        connect@ matches ErrorView::Rpc(status) && status.code == Code::DeadlineExceeded
            && status.message == "connect exceeded per_attempt_deadline of "@ + whole@,
        rpc@ matches ErrorView::Rpc(status) && status.code == Code::DeadlineExceeded
            && status.message == "rpc exceeded its share of per_attempt_deadline ("@ + part@
            + " of "@ + whole@ + ")"@,
{
}

/// Two parts that fit are packed side by side, the logical one in the lower eighteen bits.
pub proof fn law_parts_are_packed_side_by_side(
    physical_ms: u64,
    logical: u32,
    packed: Timestamp,
)
    requires
        physical_ms < 0x4000_0000_0000,
        logical < 0x4_0000,
        call_ensures(Timestamp::pack, (physical_ms, logical), packed),
    ensures
        packed.0 == physical_ms * 0x4_0000 + logical,
{
}

/// The pool that a client runs attempts over is the one that it was built with.
pub proof fn law_a_client_runs_over_its_pool(client: Client, pool: &ChannelPool)
    requires
        call_ensures(Client::pool, (&client,), pool),
    ensures
        pool@ == client@.pool,
{
}

} // verus!
