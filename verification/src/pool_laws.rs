//! What holds of the channel pool over several calls: the leader cache only moves forward, the
//! number of channels stays bounded, and every configured endpoint gets its turn.
use vstd::prelude::*;

use crate::attempt_laws;
use crate::channel_pool;
use crate::channel_pool::{
    CachedLeader, ChannelPool, Connector, DialPlan, LeaderView, PoolView, SeatSource, Slot,
    MAX_HINT_CHANNELS,
};
use crate::error::{ClientError, ErrorView};
use crate::retry_policy;
use crate::retry_policy::RetryPolicy;
use crate::text;
use crate::time::Instant;
use crate::transport;

verus! {

/// Merging epochs never moves backward: the result is known where either is, and no lower than
/// either.
pub proof fn law_merge_moves_forward(cached: Option<u128>, incoming: Option<u128>)
    ensures
        ({
            let merged = channel_pool::merged_epoch(cached, incoming);
            &&& cached matches Some(a) ==> merged is Some && merged->0 >= a
            &&& incoming matches Some(b) ==> merged is Some && merged->0 >= b
            &&& merged is Some ==> merged == cached || merged == incoming
        }),
{
}

/// While a leader cached at a known epoch is fresh, no write lowers that epoch. The one write that
/// can replace it without naming an epoch is a hint to a configured endpoint.
pub proof fn law_fresh_epoch_never_lowered(
    pool: PoolView,
    endpoint: Seq<char>,
    epoch: Option<u128>,
    source: SeatSource,
    now: nat,
)
    requires
        pool.leader is Some,
        pool.leader->0.epoch is Some,
        channel_pool::is_fresh(pool.leader->0, now, pool.retry_policy.leader_ttl@),
    ensures
        ({
            let (after, accepted) = pool.seat(endpoint, epoch, source, now);
            let floor = pool.leader->0.epoch->0;
            &&& after.leader is Some
            &&& match after.leader->0.epoch {
                Some(kept) => kept >= floor,
                None => accepted && source == SeatSource::Hinted && epoch is None
                    && pool.configured.contains(endpoint) && endpoint != pool.leader->0.endpoint,
            }
        }),
{
}

/// A write that names the cached endpoint always keeps it seated, refreshes it, and holds the
/// higher epoch, fresh or not.
pub proof fn law_same_endpoint_is_refreshed(
    pool: PoolView,
    epoch: Option<u128>,
    source: SeatSource,
    now: nat,
)
    requires
        pool.leader is Some,
    ensures
        ({
            let cached = pool.leader->0;
            let (after, accepted) = pool.seat(cached.endpoint, epoch, source, now);
            &&& accepted
            &&& after.leader == Some(
                LeaderView {
                    endpoint: cached.endpoint,
                    epoch: channel_pool::merged_epoch(cached.epoch, epoch),
                    last_used: now,
                },
            )
        }),
{
}

/// An absent or expired entry sets no floor: every write is taken as it is.
pub proof fn law_expired_entry_sets_no_floor(
    pool: PoolView,
    endpoint: Seq<char>,
    epoch: Option<u128>,
    source: SeatSource,
    now: nat,
)
    requires
        pool.fresh_endpoint(now) is None,
        pool.leader is Some ==> pool.leader->0.endpoint != endpoint,
    ensures
        pool.seat(endpoint, epoch, source, now).1,
        pool.seat(endpoint, epoch, source, now).0.leader == Some(
            LeaderView { endpoint, epoch, last_used: now },
        ),
{
}

/// A refused write leaves the pool as it was; a taken one makes the written endpoint the cached
/// leader as of now, fresh under every positive `leader_ttl`, at the written epoch, or, where the
/// entry named that endpoint already, at the later of both. So the known epoch of a fresh entry is
/// never replaced by a smaller known one, and the known epoch of an endpoint that stays is never
/// lowered or lost.
pub proof fn law_seat_is_all_or_nothing(
    pool: PoolView,
    endpoint: Seq<char>,
    epoch: Option<u128>,
    source: SeatSource,
    now: nat,
)
    ensures
        ({
            let (after, accepted) = pool.seat(endpoint, epoch, source, now);
            &&& !accepted ==> after == pool
            &&& accepted ==> after.leader == Some(
                LeaderView {
                    endpoint,
                    epoch: if pool.leader is Some && pool.leader->0.endpoint == endpoint {
                        channel_pool::merged_epoch(pool.leader->0.epoch, epoch)
                    } else {
                        epoch
                    },
                    last_used: now,
                },
            )
            &&& match (pool.leader, after.leader) {
                (Some(LeaderView { endpoint: named, epoch: Some(known), last_used }), Some(kept)) => {
                    let cached = LeaderView { endpoint: named, epoch: Some(known), last_used };
                    let fresh = channel_pool::is_fresh(cached, now, pool.retry_policy.leader_ttl@);
                    &&& kept.epoch is Some && (fresh || named == endpoint) ==> kept.epoch->0
                        >= known
                    &&& named == endpoint ==> kept.epoch is Some
                },
                _ => pool.leader is Some ==> after.leader is Some,
            }
            &&& accepted && pool.retry_policy.leader_ttl@ > 0 ==> after.fresh_endpoint(now)
                == Some(endpoint)
        }),
{
}

/// A success against another endpoint unseats a fresh leader exactly where both epochs are known
/// and the success is not behind.
pub proof fn law_success_unseats_only_by_rank(
    pool: PoolView,
    endpoint: Seq<char>,
    epoch: u128,
    now: nat,
)
    requires
        pool.leader is Some,
        pool.leader->0.endpoint != endpoint,
        channel_pool::is_fresh(pool.leader->0, now, pool.retry_policy.leader_ttl@),
    ensures
        pool.seat(endpoint, Some(epoch), SeatSource::Confirmed, now).1 <==> (
        pool.leader->0.epoch is Some && epoch >= pool.leader->0.epoch->0),
{
}

/// Of two hints that arrive while the first is fresh, the one with the higher epoch ends up
/// seated, in whichever order they arrive, unless the cache already knew a higher epoch than both.
pub proof fn law_higher_epoch_hint_wins(
    pool: PoolView,
    low_endpoint: Seq<char>,
    low: u128,
    high_endpoint: Seq<char>,
    high: u128,
    first: nat,
    second: nat,
)
    requires
        low_endpoint != high_endpoint,
        low < high,
        first <= second,
        second - first < pool.retry_policy.leader_ttl@,
        pool.leader is Some && pool.leader->0.epoch is Some ==> pool.leader->0.epoch->0 <= high,
    ensures
        ({
            let low_first = pool.seat(low_endpoint, Some(low), SeatSource::Hinted, first).0.seat(
                high_endpoint,
                Some(high),
                SeatSource::Hinted,
                second,
            ).0;
            let high_first = pool.seat(high_endpoint, Some(high), SeatSource::Hinted, first).0.seat(
                low_endpoint,
                Some(low),
                SeatSource::Hinted,
                second,
            ).0;
            &&& low_first.fresh_endpoint(second) == Some(high_endpoint)
            &&& high_first.fresh_endpoint(second) == Some(high_endpoint)
        }),
{
}

proof fn lemma_hints_finite(pool: PoolView)
    requires
        pool.channels.dom().finite(),
    ensures
        channel_pool::hint_endpoints(pool.channels, pool.configured).finite(),
{
    let hints = channel_pool::hint_endpoints(pool.channels, pool.configured);
    assert(hints.subset_of(pool.channels.dom()));
    vstd::set_lib::lemma_set_subset_finite(pool.channels.dom(), hints);
}

/// Handing out a channel keeps the pool bounded: at most [`MAX_HINT_CHANNELS`] channels to
/// endpoints off the configured list, and at most that many more than configured endpoints in all.
/// A configured endpoint's channel is never dropped for it, and neither is the one handed out.
pub proof fn law_channels_stay_bounded(
    before: PoolView,
    after: PoolView,
    endpoint: Seq<char>,
    now: Instant,
    cell: u64,
)
    requires
        before.channels.dom().finite(),
        channel_pool::hint_endpoints(before.channels, before.configured).len() <= MAX_HINT_CHANNELS,
        channel_pool::leased(before, after, endpoint, now, cell),
    ensures
        after.channels.dom().finite(),
        channel_pool::hint_endpoints(after.channels, after.configured).len() <= MAX_HINT_CHANNELS,
        after.channels.dom().len() <= after.configured.len() + MAX_HINT_CHANNELS,
        after.channels.dom().contains(endpoint),
        forall|e: Seq<char>| #[trigger]
            before.channels.dom().contains(e) && before.configured.contains(e)
                ==> after.channels.dom().contains(e),
{
    let handed = before.channels.insert(endpoint, Slot { cell, last_used: now });
    assert(handed.dom().contains(endpoint));
    assert(after.channels.dom().subset_of(handed.dom()));
    vstd::set_lib::lemma_set_subset_finite(handed.dom(), after.channels.dom());
    if before.channels.dom().contains(endpoint) {
        assert(channel_pool::hint_endpoints(after.channels, after.configured)
            =~= channel_pool::hint_endpoints(before.channels, before.configured));
    }
    assert forall|e: Seq<char>| #[trigger]
        before.channels.dom().contains(e) && before.configured.contains(
            e,
        ) implies after.channels.dom().contains(e) by {
        assert(handed.dom().contains(e));
    }
    lemma_hints_finite(after);
    let hints = channel_pool::hint_endpoints(after.channels, after.configured);
    let known = after.configured.to_set();
    assert(after.channels.dom().subset_of(hints.union(known)));
    vstd::seq_lib::seq_to_set_is_finite(after.configured);
    vstd::set_lib::lemma_len_union(hints, known);
    vstd::set_lib::lemma_len_subset(after.channels.dom(), hints.union(known));
    after.configured.lemma_cardinality_of_set();
}

/// A hint channel that was used more recently than another one is not the victim of the next one
/// opened.
pub proof fn law_recently_used_channel_survives(
    before: PoolView,
    after: PoolView,
    opened: Seq<char>,
    now: Instant,
    cell: u64,
    recent: Seq<char>,
    older: Seq<char>,
)
    requires
        before.channels.dom().finite(),
        channel_pool::hint_endpoints(before.channels, before.configured).len() <= MAX_HINT_CHANNELS,
        channel_pool::leased(before, after, opened, now, cell),
        before.channels.dom().contains(recent),
        before.channels.dom().contains(older),
        !before.configured.contains(older),
        before.channels[older].last_used@ < before.channels[recent].last_used@,
    ensures
        after.channels.dom().contains(recent),
{
    if !after.channels.dom().contains(recent) {
        let handed = before.channels.insert(opened, Slot { cell, last_used: now });
        assert(!before.channels.dom().contains(opened));
        assert(handed[recent] == before.channels[recent]);
        assert(handed[older] == before.channels[older]);
        assert(handed.dom().contains(recent));
        let hints = channel_pool::hint_endpoints(before.channels, before.configured);
        let hints_handed = channel_pool::hint_endpoints(handed, before.configured);
        let hints_after = channel_pool::hint_endpoints(after.channels, before.configured);
        lemma_hints_finite(before);
        lemma_hints_finite(PoolView { channels: handed, ..before });
        if before.configured.contains(recent) {
            assert(after.channels.dom().contains(recent));
        }
        if after.channels.dom().contains(older) {
            assert(handed[recent].last_used@ <= handed[older].last_used@);
        } else {
            // Both are gone: one more than the cap can have taken.
            assert(hints_handed.subset_of(hints.insert(opened)));
            vstd::set_lib::lemma_len_subset(hints_handed, hints.insert(opened));
            assert(hints_after.subset_of(hints_handed.remove(recent).remove(older)));
            assert(hints_handed.contains(recent) && hints_handed.contains(older));
            vstd::set_lib::lemma_len_subset(
                hints_after,
                hints_handed.remove(recent).remove(older),
            );
            assert(hints_after.len() <= hints_handed.len() - 2);
        }
        assert(false);
    }
}

/// Once a cell was dropped, the endpoint's next cell has another number, so that a late failure of
/// the old connection cannot take the new one down.
pub proof fn law_late_failure_spares_new_cell(
    before: PoolView,
    after: PoolView,
    endpoint: Seq<char>,
    now: Instant,
    fresh_cell: u64,
)
    requires
        before.channels.dom().contains(endpoint),
        before.channels[endpoint].cell < before.next_cell,
        before.next_cell < u64::MAX,
        channel_pool::leased(
            before.evicted(endpoint, before.channels[endpoint].cell),
            after,
            endpoint,
            now,
            fresh_cell,
        ),
    ensures
        fresh_cell != before.channels[endpoint].cell,
        after.evicted(endpoint, before.channels[endpoint].cell) == after,
{
    let stale = before.channels[endpoint].cell;
    let mid = before.evicted(endpoint, stale);
    let handed = mid.channels.insert(endpoint, Slot { cell: fresh_cell, last_used: now });
    assert(handed.dom().contains(endpoint));
    assert(after.channels.dom().contains(endpoint));
    assert(after.channels[endpoint] == handed[endpoint]);
}

/// One operation on a pool.
pub enum PoolOp {
    /// The endpoint's cell of this number is handed out at this time.
    Lease { endpoint: Seq<char>, now: Instant, cell: u64 },
    /// The endpoint's channel is dropped where it is the one of this cell.
    Evict { endpoint: Seq<char>, cell: u64 },
    /// The leader cache is written.
    Seat { endpoint: Seq<char>, epoch: Option<u128>, source: SeatSource, now: nat },
    /// A call asked for its dial order.
    Rotate,
}

/// True where the operation leads from one pool to the other.
pub open spec fn op_leads(before: PoolView, op: PoolOp, after: PoolView) -> bool {
    match op {
        PoolOp::Lease { endpoint, now, cell } => channel_pool::leased(
            before,
            after,
            endpoint,
            now,
            cell,
        ),
        PoolOp::Evict { endpoint, cell } => after == before.evicted(endpoint, cell),
        PoolOp::Seat { endpoint, epoch, source, now } => after == before.seat(
            endpoint,
            epoch,
            source,
            now,
        ).0,
        PoolOp::Rotate => after == before.rotated(),
    }
}

/// True of pools that the operations lead through, one after the other.
pub open spec fn pool_history(pools: Seq<PoolView>, ops: Seq<PoolOp>) -> bool {
    &&& pools.len() == ops.len() + 1
    &&& forall|i: int|
        0 <= i < ops.len() ==> op_leads(pools[i], #[trigger] ops[i], pools[i + 1])
}

/// As long as an endpoint's channel is not dropped, every caller that asks for it, in whichever
/// order and with whatever happens to other channels in between, gets the one cell.
pub proof fn law_one_cell_until_dropped(
    pools: Seq<PoolView>,
    ops: Seq<PoolOp>,
    endpoint: Seq<char>,
    i: int,
)
    requires
        pool_history(pools, ops),
        forall|k: int|
            0 <= k < pools.len() ==> (#[trigger] pools[k]).channels.dom().contains(endpoint),
        0 <= i < pools.len(),
    ensures
        pools[i].channels[endpoint].cell == pools[0].channels[endpoint].cell,
        i < ops.len() ==> (ops[i] matches PoolOp::Lease { endpoint: e, cell, .. } ==> e == endpoint
            ==> cell == pools[0].channels[endpoint].cell),
    decreases i,
{
    assert(pools[i].channels.dom().contains(endpoint));
    if i > 0 {
        law_one_cell_until_dropped(pools, ops, endpoint, i - 1);
        assert(op_leads(pools[i - 1], ops[i - 1], pools[i]));
        assert(pools[i - 1].channels.dom().contains(endpoint));
    }
    if i < ops.len() {
        assert(op_leads(pools[i], ops[i], pools[i + 1]));
    }
}

/// The channel of a configured endpoint is dropped by nothing but a failure of its own: as long as
/// no failure drops it, the pool keeps it.
pub proof fn law_configured_channel_is_kept(
    pools: Seq<PoolView>,
    ops: Seq<PoolOp>,
    endpoint: Seq<char>,
    i: int,
)
    requires
        pool_history(pools, ops),
        pools[0].configured.contains(endpoint),
        pools[0].channels.dom().contains(endpoint),
        forall|k: int|
            0 <= k < ops.len() ==> ((#[trigger] ops[k]) matches PoolOp::Evict { endpoint: e, .. }
                ==> e != endpoint),
        0 <= i < pools.len(),
    ensures
        pools[i].channels.dom().contains(endpoint),
        pools[i].configured == pools[0].configured,
    decreases i,
{
    if i > 0 {
        law_configured_channel_is_kept(pools, ops, endpoint, i - 1);
        let before = pools[i - 1];
        assert(op_leads(before, ops[i - 1], pools[i]));
        match ops[i - 1] {
            PoolOp::Lease { endpoint: leased_one, now, cell } => {
                let handed = before.channels.insert(leased_one, Slot { cell, last_used: now });
                assert(handed.dom().contains(endpoint));
            },
            _ => {},
        }
    }
}

/// A dial that failed: whose channel was asked for, when, and the cell that was handed out for it.
pub struct FailedDial {
    pub endpoint: Seq<char>,
    pub now: Instant,
    pub cell: u64,
}

/// True where one pool comes of the other by a dial that failed: the cell is handed out, and given
/// up again.
pub open spec fn dial_failed(before: PoolView, dial: FailedDial, after: PoolView) -> bool {
    exists|handed: PoolView| #[trigger]
        channel_pool::leased(before, handed, dial.endpoint, dial.now, dial.cell) && after
            == handed.evicted(dial.endpoint, dial.cell)
}

/// A run of dials that fail leaves nothing behind: none of their endpoints has an entry, every
/// entry that there is was there before with the same cell, and whoever asks for one of them next
/// gets a new cell, and so dials again.
pub proof fn law_failed_dials_leave_nothing(
    pools: Seq<PoolView>,
    dials: Seq<FailedDial>,
    now: Instant,
    after: PoolView,
    cell: u64,
)
    requires
        pools.len() == dials.len() + 1,
        forall|i: int|
            0 <= i < dials.len() ==> dial_failed(pools[i], #[trigger] dials[i], pools[i + 1]),
    ensures
        forall|e: Seq<char>| #[trigger]
            pools.last().channels.dom().contains(e) ==> pools[0].channels.dom().contains(e)
                && pools.last().channels[e] == pools[0].channels[e],
        forall|i: int|
            0 <= i < dials.len() ==> !pools.last().channels.dom().contains(
                (#[trigger] dials[i]).endpoint,
            ),
        forall|i: int|
            0 <= i < dials.len() && channel_pool::leased(
                pools.last(),
                after,
                (#[trigger] dials[i]).endpoint,
                now,
                cell,
            ) ==> cell == pools.last().next_cell,
    decreases dials.len(),
{
    if dials.len() > 0 {
        let n = dials.len() - 1;
        let dial = dials[n];
        let fewer = pools.drop_last();
        assert forall|i: int| 0 <= i < dials.drop_last().len() implies dial_failed(
            fewer[i],
            #[trigger] dials.drop_last()[i],
            fewer[i + 1],
        ) by {
            assert(dials.drop_last()[i] == dials[i]);
            assert(fewer[i] == pools[i]);
            assert(fewer[i + 1] == pools[i + 1]);
        }
        law_failed_dials_leave_nothing(fewer, dials.drop_last(), now, after, cell);
        assert(fewer.last() == pools[n]);
        assert(dial_failed(pools[n], dials[n], pools[n + 1]));
        let handed = choose|handed: PoolView| #[trigger]
            channel_pool::leased(pools[n], handed, dial.endpoint, dial.now, dial.cell) && pools[n
                + 1] == handed.evicted(dial.endpoint, dial.cell);
        let with_it = pools[n].channels.insert(
            dial.endpoint,
            Slot { cell: dial.cell, last_used: dial.now },
        );
        assert(with_it.dom().contains(dial.endpoint));
        assert(handed.channels.dom().contains(dial.endpoint));
        assert(handed.channels[dial.endpoint] == with_it[dial.endpoint]);
        assert(pools.last() == pools[n + 1]);
        assert forall|e: Seq<char>| #[trigger]
            pools.last().channels.dom().contains(e) implies pools[0].channels.dom().contains(e)
            && pools.last().channels[e] == pools[0].channels[e] by {
            assert(e != dial.endpoint);
            assert(handed.channels.dom().contains(e));
            assert(fewer.last().channels.dom().contains(e));
            assert(fewer[0] == pools[0]);
        }
        assert forall|i: int| 0 <= i < dials.len() implies !pools.last().channels.dom().contains(
            (#[trigger] dials[i]).endpoint,
        ) by {
            if i < n {
                assert(dials.drop_last()[i] == dials[i]);
                let e = dials[i].endpoint;
                if pools.last().channels.dom().contains(e) {
                    assert(handed.channels.dom().contains(e));
                    assert(fewer.last().channels.dom().contains(e));
                }
            }
        }
    }
}

/// Dropping a channel undoes nothing else: the other channels, the leader cache and the rotation
/// stay, and a second drop of the same cell does nothing.
pub proof fn law_evict_is_local(pool: PoolView, endpoint: Seq<char>, cell: u64)
    ensures
        ({
            let after = pool.evicted(endpoint, cell);
            &&& after.leader == pool.leader
            &&& after.configured == pool.configured
            &&& after.rotation == pool.rotation
            &&& after.next_cell == pool.next_cell
            &&& forall|e: Seq<char>|
                e != endpoint ==> (#[trigger] after.channels.dom().contains(e)
                    <==> pool.channels.dom().contains(e))
            &&& after.evicted(endpoint, cell) == after
        }),
{
}

proof fn lemma_filter_keeps(items: Seq<Seq<char>>, wanted: spec_fn(Seq<char>) -> bool, i: int)
    requires
        0 <= i < items.len(),
        wanted(items[i]),
    ensures
        items.filter(wanted).contains(items[i]),
    decreases items.len(),
{
    reveal(Seq::filter);
    let rest = items.drop_last();
    if i < rest.len() {
        lemma_filter_keeps(rest, wanted, i);
        let k = choose|k: int|
            0 <= k < rest.filter(wanted).len() && rest.filter(wanted)[k] == items[i];
        assert(items.filter(wanted)[k] == items[i]);
    } else {
        assert(items.filter(wanted)[items.filter(wanted).len() - 1] == items[i]);
    }
}

proof fn lemma_filter_only(items: Seq<Seq<char>>, wanted: spec_fn(Seq<char>) -> bool)
    ensures
        items.filter(wanted).len() <= items.len(),
        forall|k: int|
            0 <= k < items.filter(wanted).len() ==> wanted(#[trigger] items.filter(wanted)[k])
                && items.contains(items.filter(wanted)[k]),
    decreases items.len(),
{
    reveal(Seq::filter);
    if items.len() > 0 {
        let rest = items.drop_last();
        lemma_filter_only(rest, wanted);
        assert forall|k: int| 0 <= k < items.filter(wanted).len() implies wanted(
            #[trigger] items.filter(wanted)[k],
        ) && items.contains(items.filter(wanted)[k]) by {
            if k < rest.filter(wanted).len() {
                let e = rest.filter(wanted)[k];
                assert(rest.contains(e));
                let i = choose|i: int| 0 <= i < rest.len() && rest[i] == e;
                assert(items[i] == e);
            } else {
                assert(items[items.len() - 1] == items.last());
            }
        }
    }
}

/// A dial order starts with the fresh leader, where there is one, and holds it once; it holds every
/// configured endpoint, nothing else, and is at most one longer than the configured list.
pub proof fn law_dial_order_covers(
    leader: Option<Seq<char>>,
    configured: Seq<Seq<char>>,
    cursor: usize,
)
    ensures
        ({
            let order = channel_pool::dial_order(leader, configured, cursor);
            &&& leader matches Some(l) ==> order.len() > 0 && order[0] == l && forall|k: int|
                0 < k < order.len() ==> #[trigger] order[k] != l
            &&& forall|i: int|
                0 <= i < configured.len() ==> order.contains(#[trigger] configured[i])
            &&& forall|k: int|
                0 <= k < order.len() ==> leader == Some(#[trigger] order[k]) || configured.contains(
                    order[k],
                )
            &&& order.len() <= configured.len() + 1
        }),
{
    let order = channel_pool::dial_order(leader, configured, cursor);
    if configured.len() > 0 {
        let n = configured.len() as int;
        let offset = cursor as int % n;
        let turned = channel_pool::rotation_of(configured, offset);
        let wanted = |e: Seq<char>| leader != Some(e);
        let head: Seq<Seq<char>> = match leader {
            Some(l) => seq![l],
            None => Seq::empty(),
        };
        let tail = turned.filter(wanted);
        assert(order == head + tail);
        lemma_filter_only(turned, wanted);
        assert forall|k: int| 0 <= k < order.len() implies leader == Some(#[trigger] order[k])
            || configured.contains(order[k]) by {
            if k >= head.len() {
                let e = tail[k - head.len()];
                assert(turned.contains(e));
                let j = choose|j: int| 0 <= j < turned.len() && turned[j] == e;
                if j < n - offset {
                    assert(configured[offset + j] == e);
                } else {
                    assert(configured[j - (n - offset)] == e);
                }
            }
        }
        assert forall|i: int| 0 <= i < configured.len() implies order.contains(
            #[trigger] configured[i],
        ) by {
            let e = configured[i];
            if leader == Some(e) {
                assert(order[0] == e);
            } else {
                let j = if i >= offset {
                    i - offset
                } else {
                    i + (n - offset)
                };
                assert(turned[j] == e);
                lemma_filter_keeps(turned, wanted, j);
                let k = choose|k: int| 0 <= k < tail.len() && tail[k] == e;
                assert(order[head.len() + k] == e);
            }
        }
        if let Some(l) = leader {
            assert forall|k: int| 0 < k < order.len() implies #[trigger] order[k] != l by {
                assert(order[k] == tail[k - 1]);
                assert(wanted(tail[k - 1]));
            }
        }
    }
}

/// A filter that keeps everything changes nothing.
pub proof fn lemma_filter_all(items: Seq<Seq<char>>, wanted: spec_fn(Seq<char>) -> bool)
    requires
        forall|e: Seq<char>| #[trigger] wanted(e),
    ensures
        items.filter(wanted) == items,
    decreases items.len(),
{
    reveal(Seq::filter);
    if items.len() > 0 {
        lemma_filter_all(items.drop_last(), wanted);
        assert(items.drop_last().push(items.last()) =~= items);
    } else {
        assert(items.filter(wanted) =~= items);
    }
}

proof fn lemma_round_index(cursor: int, k: int, n: int)
    requires
        0 <= cursor,
        0 <= k < n,
    ensures
        0 <= cursor % n < n,
        (cursor + k) % n == if k < n - cursor % n {
            cursor % n + k
        } else {
            cursor % n + k - n
        },
{
    let rounds = cursor / n;
    let offset = cursor % n;
    vstd::arithmetic::div_mod::lemma_fundamental_div_mod(cursor, n);
    vstd::arithmetic::div_mod::lemma_mod_bound(cursor, n);
    if k < n - offset {
        assert(cursor + k == rounds * n + (offset + k)) by (nonlinear_arith)
            requires
                cursor == n * rounds + offset,
        ;
        vstd::arithmetic::div_mod::lemma_fundamental_div_mod_converse(
            cursor + k,
            n,
            rounds,
            offset + k,
        );
    } else {
        assert(cursor + k == (rounds + 1) * n + (offset + k - n)) by (nonlinear_arith)
            requires
                cursor == n * rounds + offset,
        ;
        vstd::arithmetic::div_mod::lemma_fundamental_div_mod_converse(
            cursor + k,
            n,
            rounds + 1,
            offset + k - n,
        );
    }
}

proof fn lemma_cold_order(configured: Seq<Seq<char>>, cursor: usize)
    requires
        configured.len() > 0,
    ensures
        channel_pool::dial_order(None, configured, cursor) == channel_pool::rotation_of(
            configured,
            cursor as int % configured.len() as int,
        ),
{
    let turned = channel_pool::rotation_of(configured, cursor as int % configured.len() as int);
    let none: Option<Seq<char>> = None;
    lemma_filter_all(turned, |e: Seq<char>| none != Some(e));
    assert(Seq::<Seq<char>>::empty() + turned =~= turned);
}

proof fn lemma_turned_at(items: Seq<Seq<char>>, offset: int, k: int)
    requires
        0 <= offset < items.len(),
        0 <= k < items.len(),
    ensures
        channel_pool::rotation_of(items, offset).len() == items.len(),
        channel_pool::rotation_of(items, offset)[k] == items[if k < items.len() - offset {
            offset + k
        } else {
            offset + k - items.len()
        }],
{
}

/// Without a cached leader the call at cursor position `cursor` dials `configured[cursor % n]`
/// first and goes round from there, so that `n` calls in a row start at `n` different places of
/// the list.
pub proof fn law_cold_calls_rotate(configured: Seq<Seq<char>>, cursor: usize)
    requires
        configured.len() > 0,
    ensures
        channel_pool::dial_order(None, configured, cursor).len() == configured.len(),
        forall|k: int|
            0 <= k < configured.len() ==> #[trigger] channel_pool::dial_order(
                None,
                configured,
                cursor,
            )[k] == configured[(cursor + k) % configured.len() as int],
{
    let n = configured.len() as int;
    let offset = cursor as int % n;
    lemma_cold_order(configured, cursor);
    lemma_round_index(cursor as int, 0, n);
    lemma_turned_at(configured, offset, 0);
    let order = channel_pool::dial_order(None, configured, cursor);
    assert forall|k: int| 0 <= k < n implies #[trigger] order[k] == configured[(cursor + k) % n] by {
        lemma_round_index(cursor as int, k, n);
        lemma_turned_at(configured, offset, k);
    }
}

/// A pool that was just built holds what it was given: no channel is open and no leader believed in.
/// Its cursor is the one it was given, or one that was drawn from all there are.
pub proof fn law_a_pool_starts_as_given(
    endpoints: Vec<String>,
    connector: Connector,
    tls_required: bool,
    policy: RetryPolicy,
    seed: usize,
    seeded: ChannelPool,
    random: ChannelPool,
)
    requires
        call_ensures(
            ChannelPool::with_rotation,
            (endpoints, connector, tls_required, policy, seed),
            seeded,
        ),
        call_ensures(ChannelPool::new, (endpoints, connector, tls_required, policy), random),
    ensures
        seeded@.rotation == seed,
        exists|number: u64| #[trigger]
            retry_policy::drawn(usize::MAX as u64, number) && random@.rotation == number,
        seeded@.configured == text::views(endpoints@) && random@.configured == text::views(
            endpoints@,
        ),
        seeded@.connector == connector && random@.connector == connector,
        seeded@.tls_required == tls_required && random@.tls_required == tls_required,
        seeded@.retry_policy == policy && random@.retry_policy == policy,
        seeded@.leader is None && random@.leader is None,
        forall|e: Seq<char>|
            !(#[trigger] seeded@.channels.dom().contains(e)) && !random@.channels.dom().contains(e),
{
}

/// A pool names a leader exactly while its entry is younger than the time to live, and hands the
/// whole entry out then.
pub proof fn law_a_leader_is_named_while_fresh(
    pool: ChannelPool,
    now: Instant,
    named: Option<String>,
    entry: Option<CachedLeader>,
)
    requires
        call_ensures(ChannelPool::cached_leader, (&pool, now), named),
        call_ensures(ChannelPool::fresh_leader, (&pool, now), entry),
    ensures
        ({
            let ttl = pool@.retry_policy.leader_ttl@;
            let fresh = pool@.leader is Some && attempt_laws::still_fresh(
                pool@.leader->0,
                ttl,
                now@,
            );
            &&& named is Some <==> fresh
            &&& entry is Some <==> fresh
            &&& named matches Some(endpoint) ==> endpoint@ == pool@.leader->0.endpoint
            &&& entry matches Some(cached) ==> Some(cached@) == pool@.leader
        }),
{
}

/// A success is noted: the pool believes in its endpoint from then on, unless it freshly believes in
/// another leader of a higher or an unknown epoch.
pub proof fn law_a_success_is_noted(
    pool: &mut ChannelPool,
    endpoint: &str,
    epoch: u128,
    now: Instant,
)
    requires
        call_ensures(ChannelPool::record_success, (pool, endpoint, epoch, now), ()),
    ensures
        attempt_laws::noted(old(pool)@, final(pool)@, endpoint@, epoch, now@),
{
}

/// A hint is believed exactly where it is not behind the leader that the pool freshly believes in:
/// the same endpoint, a higher or equal epoch, a leader of unknown epoch or an expired one, and an
/// epoch-less hint to a configured endpoint, all make it so.
pub proof fn law_a_hint_is_believed_unless_behind(
    pool: &mut ChannelPool,
    endpoint: String,
    epoch: Option<u128>,
    now: Instant,
    believed: bool,
)
    requires
        call_ensures(ChannelPool::compare_and_set_leader, (pool, endpoint, epoch, now), believed),
    ensures
        believed <==> !attempt_laws::behind(old(pool)@, endpoint@, epoch, now@),
        believed ==> attempt_laws::believes(old(pool)@, final(pool)@, endpoint@, epoch, now@),
        !believed ==> final(pool)@ == old(pool)@,
{
}

/// The dial order of a call without a leader to go to: the configured endpoints from the cursor on,
/// round.
pub open spec fn cold_order(configured: Seq<Seq<char>>, cursor: int) -> Seq<Seq<char>> {
    Seq::new(configured.len(), |k: int| configured[(cursor + k) % configured.len() as int])
}

/// A call dials the leader that the pool freshly believes in first, and then the configured
/// endpoints but for it, from the cursor on, round; the cursor moves on by one, and nothing else
/// changes.
pub proof fn law_the_order_in_which_a_call_dials(
    pool: &mut ChannelPool,
    now: Instant,
    order: Vec<String>,
)
    requires
        call_ensures(ChannelPool::iter_round_robin, (pool, now), order),
    ensures
        ({
            let before = old(pool)@;
            let cold = cold_order(before.configured, before.rotation as int);
            &&& before.leader is Some && attempt_laws::still_fresh(
                before.leader->0,
                before.retry_policy.leader_ttl@,
                now@,
            ) ==> text::views(order@) == seq![before.leader->0.endpoint] + cold.filter(
                |e: Seq<char>| e != before.leader->0.endpoint,
            )
            &&& !(before.leader is Some && attempt_laws::still_fresh(
                before.leader->0,
                before.retry_policy.leader_ttl@,
                now@,
            )) ==> text::views(order@) == cold
            &&& final(pool)@ == (PoolView { rotation: final(pool)@.rotation, ..before })
            &&& before.configured.len() > 0 && before.rotation < usize::MAX
                ==> final(pool)@.rotation == before.rotation + 1
            &&& before.configured.len() > 0 && before.rotation == usize::MAX
                ==> final(pool)@.rotation == 0
        }),
{
    let before = old(pool)@;
    lemma_order(before.fresh_endpoint(now@), before.configured, before.rotation);
}

proof fn lemma_order(leader: Option<Seq<char>>, configured: Seq<Seq<char>>, cursor: usize)
    ensures
        channel_pool::dial_order(leader, configured, cursor) == match leader {
            Some(named) => seq![named] + cold_order(configured, cursor as int).filter(
                |e: Seq<char>| e != named,
            ),
            None => cold_order(configured, cursor as int),
        },
{
    let cold = cold_order(configured, cursor as int);
    if configured.len() > 0 {
        law_cold_calls_rotate(configured, cursor);
        lemma_cold_order(configured, cursor);
        let turned = channel_pool::rotation_of(configured, cursor as int % configured.len() as int);
        assert(turned =~= cold);
        if let Some(named) = leader {
            assert((|e: Seq<char>| leader != Some(e)) =~= (|e: Seq<char>| e != named));
        }
    } else {
        assert(cold =~= Seq::empty());
        reveal(Seq::filter);
        if let Some(named) = leader {
            let left = |e: Seq<char>| e != named;
            assert(cold.filter(left) =~= Seq::empty());
            assert(seq![named] + cold.filter(left) =~= seq![named]);
        }
    }
}

/// A cell that is handed out: the endpoint's own where it has one, else a new one that nobody has,
/// numbered behind all others. The endpoint holds it then, used as of now. Where that makes at most
/// eight channels to endpoints that are not configured, every other channel stays as it was; and the
/// pool is otherwise unchanged.
pub proof fn law_a_cell_is_handed_out(
    pool: &mut ChannelPool,
    endpoint: &str,
    now: Instant,
    cell: u64,
)
    requires
        old(pool)@.channels.dom().finite(),
        old(pool)@.next_cell < u64::MAX,
        call_ensures(ChannelPool::client_with_cell, (pool, endpoint, now), cell),
    ensures
        ({
            let before = old(pool)@;
            let after = final(pool)@;
            let hints = before.channels.dom().insert(endpoint@).filter(
                |e: Seq<char>| !before.configured.contains(e),
            );
            let had = before.channels.dom().contains(endpoint@);
            &&& cell == if had {
                before.channels[endpoint@].cell
            } else {
                before.next_cell
            }
            &&& after.next_cell == before.next_cell + if had {
                0int
            } else {
                1int
            }
            &&& after.channels.dom().contains(endpoint@)
            &&& after.channels[endpoint@].cell == cell && after.channels[endpoint@].last_used == now
            &&& forall|e: Seq<char>|
                e != endpoint@ && (#[trigger] after.channels.dom().contains(e))
                    ==> before.channels.dom().contains(e) && after.channels[e]
                    == before.channels[e]
            &&& had || hints.len() <= 8 ==> forall|e: Seq<char>| #[trigger]
                before.channels.dom().contains(e) ==> after.channels.dom().contains(e)
            &&& forall|e: Seq<char>| #[trigger]
                before.channels.dom().contains(e) && before.configured.contains(e)
                    ==> after.channels.dom().contains(e)
            &&& after == (PoolView {
                channels: after.channels,
                next_cell: after.next_cell,
                ..before
            })
        }),
{
    let before = old(pool)@;
    let after = final(pool)@;
    let slot = Slot { cell, last_used: now };
    let handed = before.channels.insert(endpoint@, slot);
    let hints = before.channels.dom().insert(endpoint@).filter(
        |e: Seq<char>| !before.configured.contains(e),
    );
    let kept = channel_pool::hint_endpoints(after.channels, before.configured);
    assert(handed.dom() =~= before.channels.dom().insert(endpoint@));
    assert(channel_pool::hint_endpoints(handed, before.configured) =~= hints);
    assert(handed.dom().contains(endpoint@));
    assert forall|e: Seq<char>| #[trigger] before.channels.dom().contains(e) implies handed.dom()
        .contains(e) by {}
    if !before.channels.dom().contains(endpoint@) {
        assert(channel_pool::cap_enforced(handed, after.channels, before.configured, endpoint@));
        assert(after.channels.dom().contains(endpoint@));
        if hints.len() <= 8 {
            assert(hints.subset_of(handed.dom()));
            vstd::set_lib::lemma_set_subset_finite(handed.dom(), hints);
            assert(kept.subset_of(hints)) by {
                assert forall|e: Seq<char>| kept.contains(e) implies hints.contains(e) by {
                    assert(after.channels.dom().contains(e));
                }
            }
            vstd::set_lib::lemma_subset_equality(kept, hints);
            assert forall|e: Seq<char>| #[trigger]
                before.channels.dom().contains(e) implies after.channels.dom().contains(e) by {
                assert(handed.dom().contains(e));
                if !before.configured.contains(e) {
                    assert(hints.contains(e));
                    assert(kept.contains(e));
                }
            }
        }
    }
}

/// Where a new cell would make a ninth channel to an endpoint that is not configured, exactly eight
/// are left, and of those that were there before, each that goes was used no more recently than each
/// that stays.
pub proof fn law_the_least_recent_hint_channel_goes(
    pool: &mut ChannelPool,
    endpoint: &str,
    now: Instant,
    cell: u64,
    gone: Seq<char>,
    stayed: Seq<char>,
)
    requires
        !old(pool)@.channels.dom().contains(endpoint@),
        old(pool)@.channels.dom().insert(endpoint@).filter(
            |e: Seq<char>| !old(pool)@.configured.contains(e),
        ).len() > 8,
        call_ensures(ChannelPool::client_with_cell, (pool, endpoint, now), cell),
    ensures
        final(pool)@.channels.dom().filter(
            |e: Seq<char>| !old(pool)@.configured.contains(e),
        ).len() == 8,
        old(pool)@.channels.dom().contains(gone) && !final(pool)@.channels.dom().contains(gone)
            && final(pool)@.channels.dom().contains(stayed) && !old(pool)@.configured.contains(
            stayed,
        ) && stayed != endpoint@ ==> old(pool)@.channels[gone].last_used@
            <= old(pool)@.channels[stayed].last_used@,
{
    let before = old(pool)@;
    let after = final(pool)@;
    let handed = before.channels.insert(endpoint@, Slot { cell, last_used: now });
    assert(handed.dom() =~= before.channels.dom().insert(endpoint@));
    assert(channel_pool::hint_endpoints(handed, before.configured)
        =~= before.channels.dom().insert(endpoint@).filter(
        |e: Seq<char>| !before.configured.contains(e),
    ));
    assert(channel_pool::hint_endpoints(after.channels, before.configured)
        =~= after.channels.dom().filter(|e: Seq<char>| !before.configured.contains(e)));
    assert(channel_pool::cap_enforced(handed, after.channels, before.configured, endpoint@));
    if before.channels.dom().contains(gone) && !after.channels.dom().contains(gone)
        && after.channels.dom().contains(stayed) && !before.configured.contains(stayed) && stayed
        != endpoint@ {
        assert(handed.dom().contains(gone));
        assert(handed.dom().contains(stayed));
        assert(handed[gone] == before.channels[gone]);
        assert(handed[stayed] == before.channels[stayed]);
        assert(handed[gone].last_used@ <= handed[stayed].last_used@);
    }
}

/// A channel is dropped exactly where it is the one of the cell that failed: on its own, and at the
/// end of a dial that failed, which hands its error on; a dial that succeeded hands its channel and
/// cell on and drops nothing.
pub proof fn law_a_channel_goes_with_its_cell<C>(
    pool: &mut ChannelPool,
    ended: &mut ChannelPool,
    endpoint: &str,
    cell: u64,
    outcome: Result<C, ClientError>,
    result: Result<(C, u64), ClientError>,
)
    requires
        call_ensures(ChannelPool::evict_if_current, (pool, endpoint, cell), ()),
        call_ensures(ChannelPool::dialed::<C>, (ended, endpoint, cell, outcome), result),
    ensures
        attempt_laws::channel_dropped(old(pool)@, final(pool)@, endpoint@, cell),
        outcome matches Ok(channel) ==> result == Ok::<(C, u64), ClientError>((channel, cell))
            && final(ended)@ == old(ended)@,
        outcome matches Err(error) ==> result == Err::<(C, u64), ClientError>(error)
            && attempt_laws::channel_dropped(old(ended)@, final(ended)@, endpoint@, cell),
{
}

/// An endpoint holds a cell exactly where its channel is that cell's; and its cell can be handed out
/// where it has one or the numbers are not used up.
pub proof fn law_who_holds_a_cell(
    pool: ChannelPool,
    endpoint: &str,
    cell: u64,
    held: bool,
    possible: bool,
)
    requires
        call_ensures(ChannelPool::holds, (&pool, endpoint, cell), held),
        call_ensures(ChannelPool::can_lease, (&pool, endpoint), possible),
    ensures
        held <==> pool@.channels.dom().contains(endpoint@) && pool@.channels[endpoint@].cell
            == cell,
        possible <==> pool@.channels.dom().contains(endpoint@) || pool@.next_cell < u64::MAX,
        held ==> possible,
{
}

/// What a pool opens for an endpoint. The caller's own connector gets the endpoint as it is. The
/// built-in transport opens the endpoint where it names its scheme, else the endpoint behind
/// `https://` or `http://`, as the pool was built; and where that is no URI it opens nothing and
/// names the endpoint as it was given.
pub proof fn law_what_a_pool_opens(
    pool: ChannelPool,
    endpoint: &str,
    target: Result<DialPlan, ClientError>,
)
    requires
        call_ensures(ChannelPool::dial_target, (&pool, endpoint), target),
    ensures
        match pool@.connector {
            Connector::Custom => target matches Ok(DialPlan::Custom(raw)) && raw@ == endpoint@,
            _ => exists|uri: Seq<char>| #[trigger]
                opens(pool@.connector, endpoint@, uri) && if transport::is_uri(uri) {
                    target matches Ok(DialPlan::BuiltIn(given)) && given@ == uri
                } else {
                    target matches Err(error) && error@ == ErrorView::InvalidEndpoint(endpoint@)
                },
        },
{
    if pool@.connector != Connector::Custom {
        let uri = transport::normalized(endpoint@, pool@.connector == Connector::Tls);
        assert(opens(pool@.connector, endpoint@, uri));
    }
}

/// True of the URI that the built-in transport opens for an endpoint.
pub open spec fn opens(connector: Connector, endpoint: Seq<char>, uri: Seq<char>) -> bool {
    if "http://"@.is_prefix_of(endpoint) || "https://"@.is_prefix_of(endpoint) {
        uri == endpoint
    } else if connector == Connector::Tls {
        uri == "https://"@ + endpoint
    } else {
        uri == "http://"@ + endpoint
    }
}

/// The channels that lead off the configured list are eight at most.
pub proof fn law_the_cap_on_hint_channels()
    ensures
        MAX_HINT_CHANNELS == 8,
{
}

/// The later of two epochs: the larger where both are known, the known one where one is.
pub proof fn law_the_later_epoch(
    cached: Option<u128>,
    incoming: Option<u128>,
    merged: Option<u128>,
)
    requires
        call_ensures(channel_pool::merge_epoch_forward, (cached, incoming), merged),
    ensures
        merged == cached || merged == incoming,
        merged is None <==> cached is None && incoming is None,
        cached matches Some(known) ==> merged->0 >= known,
        incoming matches Some(known) ==> merged->0 >= known,
{
}

/// What a pool tells of itself is what it was built with.
pub proof fn law_a_pool_tells_what_it_holds(
    pool: ChannelPool,
    tls_required: bool,
    policy: &RetryPolicy,
    first: Option<String>,
)
    requires
        call_ensures(ChannelPool::tls_required, (&pool,), tls_required),
        call_ensures(ChannelPool::retry_policy, (&pool,), policy),
        call_ensures(ChannelPool::first_configured, (&pool,), first),
    ensures
        tls_required == pool@.tls_required,
        *policy == pool@.retry_policy,
        first is Some <==> pool@.configured.len() > 0,
        first matches Some(endpoint) ==> endpoint@ == pool@.configured[0],
{
}

/// Setting the cursor changes nothing but the cursor, so that the next call without a leader starts
/// at the endpoint it points to.
pub proof fn law_a_pinned_pool_starts_there(
    pool: &mut ChannelPool,
    seed: usize,
    dialing: &mut ChannelPool,
    now: Instant,
    order: Vec<String>,
)
    requires
        call_ensures(ChannelPool::pin_rotation, (pool, seed), ()),
        *final(pool) == *old(dialing),
        call_ensures(ChannelPool::iter_round_robin, (dialing, now), order),
    ensures
        final(pool)@ == (PoolView { rotation: seed, ..old(pool)@ }),
        old(pool)@.leader is None && old(pool)@.configured.len() > 0 ==> order@.len() > 0
            && order@[0]@ == old(pool)@.configured[seed as int
            % old(pool)@.configured.len() as int],
{
    let before = old(pool)@;
    lemma_order(old(dialing)@.fresh_endpoint(now@), before.configured, seed);
    if before.leader is None && before.configured.len() > 0 {
        assert(text::views(order@) == cold_order(before.configured, seed as int));
        assert(text::views(order@).len() == order@.len());
        assert(text::views(order@)[0] == order@[0]@);
    }
}

/// A plan is carried out as it is, but for a URI that cannot be read: that is an error that names
/// the endpoint as it was given.
pub proof fn law_which_plans_are_carried_out(
    plan: DialPlan,
    endpoint: &str,
    readable: bool,
    judged: Result<DialPlan, ClientError>,
)
    requires
        call_ensures(DialPlan::judged, (plan, endpoint, readable), judged),
    ensures
        judged is Err <==> plan is BuiltIn && !readable,
        judged matches Ok(same) ==> same == plan,
        judged matches Err(error) ==> error@ == ErrorView::InvalidEndpoint(endpoint@),
{
}

/// What a pool plans to open for an endpoint.
pub proof fn law_what_a_pool_plans(pool: ChannelPool, endpoint: &str, plan: DialPlan)
    requires
        call_ensures(ChannelPool::dial_plan, (&pool, endpoint), plan),
    ensures
        match plan {
            DialPlan::Custom(raw) => pool@.connector == Connector::Custom && raw@ == endpoint@,
            DialPlan::BuiltIn(uri) => pool@.connector != Connector::Custom && opens(
                pool@.connector,
                endpoint@,
                uri@,
            ),
        },
{
}

} // verus!
