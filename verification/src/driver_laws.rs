//! What holds of coalesced requests: nobody is lost, nobody is served twice, and nobody gets
//! timestamps from before it asked.
use std::collections::VecDeque;
use vstd::prelude::*;

use crate::driver;
use crate::driver::{
    Answer, Batch, BatchStep, Chunk, DriverState, DriverView, Wait, Waiter, QUEUE_CAPACITY,
    QUEUE_HALF,
};
use crate::error::{ClientError, ErrorView};
use crate::response::{RangeView, TimestampRange, MAX_TIMESTAMPS_PER_RPC};
use crate::retry_policy;
use crate::status::Code;
use crate::text;
use crate::time::{Duration, Instant, MAX_NANOS};
use crate::timestamp::Timestamp;

verus! {

/// The waiters that an RPC can serve, in order.
pub open spec fn servable_of<R>(waiters: Seq<Waiter<R>>) -> Seq<Waiter<R>> {
    waiters.filter(|w: Waiter<R>| driver::servable(w.count))
}

proof fn lemma_flatten_push<A>(groups: Seq<Seq<A>>, group: Seq<A>)
    ensures
        groups.push(group).flatten() == groups.flatten() + group,
    decreases groups.len(),
{
    if groups.len() == 0 {
        assert(groups.push(group).first() == group);
        assert(groups.push(group).drop_first() =~= groups);
        assert(group + Seq::<A>::empty() =~= group);
        assert(groups.flatten() =~= Seq::<A>::empty());
        assert(groups.push(group).flatten() =~= group + groups.flatten());
        assert(groups.push(group).flatten() =~= groups.flatten() + group);
    } else {
        lemma_flatten_push(groups.drop_first(), group);
        assert(groups.push(group).drop_first() =~= groups.drop_first().push(group));
        assert(groups.push(group).first() == groups.first());
        assert(groups.push(group).flatten() =~= groups.flatten() + group);
    }
}

proof fn lemma_packing<R>(waiters: Seq<Waiter<R>>)
    ensures
        driver::packing(waiters).0.flatten() + driver::packing(waiters).1 == servable_of(waiters),
        driver::total_count(driver::packing(waiters).1) <= MAX_TIMESTAMPS_PER_RPC,
        driver::packing(waiters).1.len() > 0 ==> driver::total_count(driver::packing(waiters).1)
            > 0,
        forall|i: int|
            0 <= i < driver::packing(waiters).0.len() ==> 0 < driver::total_count(
                #[trigger] driver::packing(waiters).0[i],
            ) <= MAX_TIMESTAMPS_PER_RPC && driver::packing(waiters).0[i].len() > 0,
        driver::packing(waiters).0.len() > 0 ==> driver::packing(waiters).1.len() > 0,
    decreases waiters.len(),
{
    reveal(Seq::filter);
    if waiters.len() == 0 {
        assert(driver::packing(waiters).0.flatten() + driver::packing(waiters).1 =~= servable_of(
            waiters,
        ));
    } else {
        let rest = waiters.drop_last();
        let waiter = waiters.last();
        lemma_packing(rest);
        let (closed, open) = driver::packing(rest);
        if driver::servable(waiter.count) {
            if driver::total_count(open) + waiter.count <= MAX_TIMESTAMPS_PER_RPC {
                assert(open.push(waiter).drop_last() =~= open);
                assert(closed.flatten() + open.push(waiter) =~= (closed.flatten() + open).push(
                    waiter,
                ));
            } else {
                lemma_flatten_push(closed, open);
                assert(seq![waiter].drop_last() =~= Seq::<Waiter<R>>::empty());
                assert(driver::total_count(seq![waiter].drop_last()) == 0);
                assert(driver::total_count(seq![waiter]) == waiter.count);
                assert((closed.flatten() + open) + seq![waiter] =~= (closed.flatten()
                    + open).push(waiter));
                assert(open.len() > 0) by {
                    if open.len() == 0 {
                        assert(driver::total_count(open) == 0);
                    }
                }
            }
        }
    }
}

/// Draining a queue loses nobody and serves nobody twice: the chunks, one after the other, hold
/// exactly the waiters that an RPC can serve, in the order in which they queued up.
pub proof fn law_chunks_keep_everyone<R>(waiters: Seq<Waiter<R>>)
    ensures
        driver::chunks_of(waiters).flatten() == servable_of(waiters),
        driver::unservable(waiters) == waiters.filter(
            |w: Waiter<R>| !driver::servable(w.count),
        ),
        driver::unservable(waiters).len() + servable_of(waiters).len() == waiters.len(),
{
    lemma_packing(waiters);
    lemma_unservable(waiters);
    let (closed, open) = driver::packing(waiters);
    if open.len() == 0 {
        assert(closed.flatten() + open =~= closed.flatten());
    } else {
        lemma_flatten_push(closed, open);
    }
}

proof fn lemma_unservable<R>(waiters: Seq<Waiter<R>>)
    ensures
        driver::unservable(waiters) == waiters.filter(|w: Waiter<R>| !driver::servable(w.count)),
        driver::unservable(waiters).len() + servable_of(waiters).len() == waiters.len(),
    decreases waiters.len(),
{
    reveal(Seq::filter);
    if waiters.len() > 0 {
        lemma_unservable(waiters.drop_last());
    } else {
        assert(driver::unservable(waiters) =~= waiters.filter(
            |w: Waiter<R>| !driver::servable(w.count),
        ));
    }
}

/// No chunk is empty, and none asks for more than one RPC can carry.
pub proof fn law_chunks_fit_one_rpc<R>(waiters: Seq<Waiter<R>>, i: int)
    requires
        0 <= i < driver::chunks_of(waiters).len(),
    ensures
        driver::chunks_of(waiters)[i].len() > 0,
        0 < driver::total_count(driver::chunks_of(waiters)[i]) <= MAX_TIMESTAMPS_PER_RPC,
{
    lemma_packing(waiters);
}

/// A batch goes out exactly where some waiter can be served.
pub proof fn law_batch_iff_servable<R>(waiters: Seq<Waiter<R>>)
    ensures
        driver::chunks_of(waiters).len() > 0 <==> servable_of(waiters).len() > 0,
{
    lemma_packing(waiters);
    law_chunks_keep_everyone(waiters);
    let chunks = driver::chunks_of(waiters);
    if chunks.len() > 0 {
        assert(chunks[0].len() > 0);
        assert(chunks.flatten() =~= chunks.first() + chunks.drop_first().flatten());
    } else {
        assert(chunks.flatten() =~= Seq::<Waiter<R>>::empty());
    }
}

/// True of two chunks where the second one's first waiter does not fit into the first.
pub open spec fn overflows<R>(chunk: Seq<Waiter<R>>, next: Seq<Waiter<R>>) -> bool {
    next.len() > 0 && driver::total_count(chunk) + next[0].count > MAX_TIMESTAMPS_PER_RPC
}

proof fn lemma_packing_is_tight<R>(waiters: Seq<Waiter<R>>)
    ensures
        forall|i: int, k: int|
            0 <= i && k == i + 1 && k < driver::packing(waiters).0.len() ==> overflows(
                #[trigger] driver::packing(waiters).0[i],
                #[trigger] driver::packing(waiters).0[k],
            ),
        driver::packing(waiters).0.len() > 0 ==> overflows(
            driver::packing(waiters).0.last(),
            driver::packing(waiters).1,
        ),
    decreases waiters.len(),
{
    if waiters.len() > 0 {
        let rest = waiters.drop_last();
        lemma_packing_is_tight(rest);
        lemma_packing(rest);
        let (closed, open) = driver::packing(rest);
        let (after, last) = driver::packing(waiters);
        if closed.len() > 0 {
            assert(open.push(waiters.last())[0] == open[0]);
        }
        assert forall|i: int, k: int|
            0 <= i && k == i + 1 && k < after.len() implies overflows(
            #[trigger] after[i],
            #[trigger] after[k],
        ) by {
            if after.len() > closed.len() && k == closed.len() {
                assert(after[i] == closed.last());
                assert(after[k] == open);
            } else {
                assert(after[i] == closed[i] && after[k] == closed[k]);
            }
        }
    }
}

/// Each chunk is as full as the order allows: the first waiter of the chunk behind it does not fit.
pub proof fn law_chunks_are_full<R>(waiters: Seq<Waiter<R>>, i: int)
    requires
        0 <= i < driver::chunks_of(waiters).len() - 1,
    ensures
        driver::chunks_of(waiters)[i + 1].len() > 0,
        driver::total_count(driver::chunks_of(waiters)[i]) + driver::chunks_of(waiters)[i
            + 1][0].count > MAX_TIMESTAMPS_PER_RPC,
{
    lemma_packing(waiters);
    lemma_packing_is_tight(waiters);
    let (closed, open) = driver::packing(waiters);
    let chunks = driver::chunks_of(waiters);
    assert(overflows(chunks[i], chunks[i + 1])) by {
        if i + 1 < closed.len() {
            assert(overflows(closed[i], closed[i + 1]));
        } else {
            assert(chunks[i] == closed.last() && chunks[i + 1] == open);
        }
    }
}

/// True of a cut into groups that one RPC each can carry.
pub open spec fn each_fits<R>(groups: Seq<Seq<Waiter<R>>>) -> bool {
    forall|i: int|
        0 <= i < groups.len() ==> driver::total_count(#[trigger] groups[i])
            <= MAX_TIMESTAMPS_PER_RPC
}

proof fn lemma_fewest<R>(waiters: Seq<Waiter<R>>, groups: Seq<Seq<Waiter<R>>>)
    requires
        groups.len() > 0,
        groups.flatten() == servable_of(waiters),
        each_fits(groups),
    ensures
        ({
            let (closed, open) = driver::packing(waiters);
            ||| groups.len() > closed.len() + 1
            ||| groups.len() == closed.len() + 1 && driver::total_count(groups.last())
                >= driver::total_count(open)
        }),
    decreases waiters.len(), groups.len(),
{
    reveal(Seq::filter);
    if waiters.len() > 0 {
        let rest = waiters.drop_last();
        let waiter = waiters.last();
        let front = groups.drop_last();
        let last = groups.last();
        assert(front.push(last) =~= groups);
        lemma_flatten_push(front, last);
        if !driver::servable(waiter.count) {
            lemma_fewest(rest, groups);
        } else if last.len() == 0 {
            assert(front.flatten() + last =~= front.flatten());
            if front.len() == 0 {
                assert(front.flatten() =~= Seq::<Waiter<R>>::empty());
                assert(servable_of(waiters).len() > 0);
            }
            assert forall|i: int| 0 <= i < front.len() implies driver::total_count(
                #[trigger] front[i],
            ) <= MAX_TIMESTAMPS_PER_RPC by {
                assert(groups[i] == front[i]);
            }
            lemma_fewest(waiters, front);
        } else {
            let (closed, open) = driver::packing(rest);
            let shorter = front.push(last.drop_last());
            lemma_flatten_push(front, last.drop_last());
            assert(servable_of(waiters) == servable_of(rest).push(waiter));
            assert(groups.flatten().last() == last.last());
            assert(shorter.flatten() =~= groups.flatten().drop_last());
            assert(servable_of(rest) =~= servable_of(waiters).drop_last());
            assert(driver::total_count(groups[groups.len() - 1]) <= MAX_TIMESTAMPS_PER_RPC);
            assert(driver::total_count(last) == driver::total_count(last.drop_last())
                + waiter.count);
            assert forall|i: int| 0 <= i < shorter.len() implies driver::total_count(
                #[trigger] shorter[i],
            ) <= MAX_TIMESTAMPS_PER_RPC by {
                if i < front.len() {
                    assert(groups[i] == shorter[i]);
                }
            }
            lemma_fewest(rest, shorter);
            assert(open.push(waiter).drop_last() =~= open);
            assert(seq![waiter].drop_last() =~= Seq::<Waiter<R>>::empty());
            assert(driver::total_count(seq![waiter].drop_last()) == 0);
            assert(driver::total_count(seq![waiter]) == waiter.count);
        }
    }
}

/// No cut takes fewer RPCs: whoever cuts the waiters that can be served, in their order, into groups
/// that one RPC each can carry, gets at least as many groups as there are chunks.
pub proof fn law_fewest_chunks<R>(waiters: Seq<Waiter<R>>, groups: Seq<Seq<Waiter<R>>>)
    requires
        groups.flatten() == servable_of(waiters),
        each_fits(groups),
    ensures
        driver::chunks_of(waiters).len() <= groups.len(),
{
    lemma_packing(waiters);
    law_batch_iff_servable(waiters);
    if groups.len() == 0 {
        assert(groups.flatten() =~= Seq::<Waiter<R>>::empty());
    } else {
        lemma_fewest(waiters, groups);
    }
}

/// The timestamps of the first `n` waiters' shares, one share after the other.
pub open spec fn handed_out<R>(waiters: Seq<Waiter<R>>, range: RangeView, n: int) -> Seq<Timestamp>
    decreases n,
{
    if n <= 0 {
        Seq::empty()
    } else {
        handed_out(waiters, range, n - 1) + driver::share(
            waiters,
            Ok(range),
            range.count,
            n - 1,
        )->Ok_0
    }
}

proof fn lemma_handed_out<R>(waiters: Seq<Waiter<R>>, range: RangeView, n: int)
    requires
        0 <= n <= waiters.len(),
    ensures
        handed_out(waiters, range, n) == range.slice(
            0,
            driver::total_count(waiters.take(n)),
        ),
    decreases n,
{
    if n > 0 {
        lemma_handed_out(waiters, range, n - 1);
        assert(waiters.take(n).drop_last() =~= waiters.take(n - 1));
        assert(handed_out(waiters, range, n) =~= range.slice(
            0,
            driver::total_count(waiters.take(n)),
        ));
    } else {
        assert(waiters.take(0) =~= Seq::<Waiter<R>>::empty());
        assert(handed_out(waiters, range, n) =~= range.slice(
            0,
            driver::total_count(waiters.take(n)),
        ));
    }
}

/// The shares of a chunk partition its range: each waiter gets as many timestamps as it asked for,
/// and the shares, one after the other, are the whole range. So no two waiters get the same
/// timestamp, and a later one gets later timestamps.
pub proof fn law_shares_partition_the_range<R>(waiters: Seq<Waiter<R>>, range: RangeView, i: int)
    requires
        driver::total_count(waiters) == range.count,
        0 <= i < waiters.len(),
    ensures
        handed_out(waiters, range, waiters.len() as int) == range.slice(0, range.count as nat),
        driver::share(waiters, Ok(range), range.count, i) is Ok,
        driver::share(waiters, Ok(range), range.count, i)->Ok_0.len() == waiters[i].count,
{
    lemma_handed_out(waiters, range, waiters.len() as int);
    assert(waiters.take(waiters.len() as int) =~= waiters);
}

/// A range of another length than was asked for is handed to nobody, not even in part.
pub proof fn law_wrong_length_serves_nobody<R>(
    waiters: Seq<Waiter<R>>,
    range: RangeView,
    expected: u32,
    i: int,
)
    requires
        range.count != expected,
    ensures
        driver::share(waiters, Ok(range), expected, i) == Err::<Seq<Timestamp>, ErrorView>(
            driver::violation(expected, range.count),
        ),
{
}

/// Handing an error on a second time changes nothing, it never turns a transport failure of one
/// endpoint into a report that nothing was reachable, and it stays in its class.
pub proof fn law_fan_out_is_stable(error: ErrorView)
    ensures
        driver::fanned_out(driver::fanned_out(error)) == driver::fanned_out(error),
        retry_policy::transport_failure(driver::fanned_out(error))
            == retry_policy::transport_failure(error),
        driver::fanned_out(error) is NoReachableEndpoints <==> error is NoReachableEndpoints,
{
}

/// At most [`QUEUE_CAPACITY`] waiters are held: those queued, and those in the other half, which
/// feeds the queue.
pub proof fn law_waiters_are_bounded<R>(state: DriverView<R>, feeding: nat)
    requires
        state.inv(),
        feeding <= QUEUE_CAPACITY - QUEUE_HALF,
    ensures
        state.queue.len() + feeding <= QUEUE_CAPACITY,
{
}

/// One event in a driver's life.
pub enum DriverEvent<R> {
    /// This waiter is received at this time.
    Arrival(Waiter<R>, nat),
    /// The batch under way is done.
    BatchDone,
    /// The queue is drained into a batch at this time.
    Dispatch(nat),
    /// Nobody is left who could send a waiter.
    Closed,
}

/// True of an event that can happen to a driver with this flush interval: a waiter is received, or
/// the lack of any noticed, only below the bound; a batch goes out only where the queue is due; and
/// nothing happens after the end.
pub open spec fn possible<R>(
    state: DriverView<R>,
    flush_interval: nat,
    event: DriverEvent<R>,
) -> bool {
    match event {
        DriverEvent::Arrival(_, _) => !state.ended && state.receives(),
        DriverEvent::BatchDone => !state.ended && state.in_flight,
        DriverEvent::Dispatch(now) => state.due(flush_interval, now),
        DriverEvent::Closed => !state.ended && state.receives(),
    }
}

/// The driver after one event.
pub open spec fn after_event<R>(state: DriverView<R>, event: DriverEvent<R>) -> DriverView<R> {
    match event {
        DriverEvent::Arrival(waiter, now) => state.after_arrival(waiter, now),
        DriverEvent::BatchDone => state.after_batch(),
        DriverEvent::Dispatch(_) => state.after_dispatch(),
        DriverEvent::Closed => state.after_close(),
    }
}

/// A driver without waiters.
pub open spec fn idle<R>() -> DriverView<R> {
    DriverView { queue: Seq::empty(), first_arrival: None, in_flight: false, ended: false }
}

/// A driver that started without waiters, after all events.
pub open spec fn after_events<R>(events: Seq<DriverEvent<R>>) -> DriverView<R>
    decreases events.len(),
{
    if events.len() == 0 {
        idle()
    } else {
        after_event(after_events(events.drop_last()), events.last())
    }
}

/// True of events each of which can happen where it does.
pub open spec fn all_possible<R>(flush_interval: nat, events: Seq<DriverEvent<R>>) -> bool
    decreases events.len(),
{
    events.len() == 0 || (all_possible(flush_interval, events.drop_last()) && possible(
        after_events(events.drop_last()),
        flush_interval,
        events.last(),
    ))
}

/// The waiters received over the events, in order.
pub open spec fn arrivals<R>(events: Seq<DriverEvent<R>>) -> Seq<Waiter<R>>
    decreases events.len(),
{
    if events.len() == 0 {
        Seq::empty()
    } else {
        match events.last() {
            DriverEvent::Arrival(waiter, _) => arrivals(events.drop_last()).push(waiter),
            _ => arrivals(events.drop_last()),
        }
    }
}

/// When they were received.
pub open spec fn arrival_times<R>(events: Seq<DriverEvent<R>>) -> Seq<nat>
    decreases events.len(),
{
    if events.len() == 0 {
        Seq::empty()
    } else {
        match events.last() {
            DriverEvent::Arrival(_, now) => arrival_times(events.drop_last()).push(now),
            _ => arrival_times(events.drop_last()),
        }
    }
}

/// The waiters that went into batches over the events, batch after batch.
pub open spec fn batched<R>(events: Seq<DriverEvent<R>>) -> Seq<Waiter<R>>
    decreases events.len(),
{
    if events.len() == 0 {
        Seq::empty()
    } else {
        let before = batched(events.drop_last());
        match events.last() {
            DriverEvent::Dispatch(_) => before + after_events(events.drop_last()).queue,
            _ => before,
        }
    }
}

/// At every point of a driver's life, the waiters that went into batches so far, followed by those
/// still queued, are exactly the waiters received so far, in order. So a waiter goes into one
/// batch, and into one that went out after it was received: its timestamps are never older than its
/// request. The queue stays within its bound throughout.
pub proof fn law_served_only_after_asking<R>(flush_interval: nat, events: Seq<DriverEvent<R>>)
    requires
        all_possible(flush_interval, events),
    ensures
        batched(events) + after_events(events).queue == arrivals(events),
        after_events(events).inv(),
        after_events(events).queue.len() <= QUEUE_HALF,
    decreases events.len(),
{
    if events.len() > 0 {
        let rest = events.drop_last();
        law_served_only_after_asking(flush_interval, rest);
        let before = after_events(rest);
        match events.last() {
            DriverEvent::Arrival(waiter, _) => {
                assert(batched(rest) + before.queue.push(waiter) =~= (batched(rest)
                    + before.queue).push(waiter));
            },
            DriverEvent::Dispatch(_) => {
                assert((batched(rest) + before.queue) + Seq::<Waiter<R>>::empty() =~= batched(rest)
                    + before.queue);
            },
            _ => {},
        }
    } else {
        assert(batched(events) + idle::<R>().queue =~= arrivals(events));
    }
}

proof fn lemma_first_arrival<R>(flush_interval: nat, events: Seq<DriverEvent<R>>)
    requires
        all_possible(flush_interval, events),
    ensures
        arrival_times(events).len() == arrivals(events).len(),
        after_events(events).first_arrival == if after_events(events).queue.len() == 0 {
            None::<nat>
        } else {
            Some(arrival_times(events)[batched(events).len() as int])
        },
    decreases events.len(),
{
    law_served_only_after_asking(flush_interval, events);
    if events.len() > 0 {
        let rest = events.drop_last();
        lemma_first_arrival(flush_interval, rest);
        law_served_only_after_asking(flush_interval, rest);
        assert(batched(rest).len() + after_events(rest).queue.len() == arrivals(rest).len());
        assert(batched(events).len() + after_events(events).queue.len() == arrivals(events).len());
    }
}

/// No batch goes out before the flush interval has passed since its first waiter was received: the
/// waiter behind those of all earlier batches.
pub proof fn law_no_batch_before_the_flush_interval<R>(
    flush_interval: nat,
    events: Seq<DriverEvent<R>>,
    now: nat,
)
    requires
        all_possible(flush_interval, events.push(DriverEvent::Dispatch(now))),
        flush_interval > 0,
    ensures
        batched(events).len() < arrivals(events).len(),
        arrival_times(events).len() == arrivals(events).len(),
        after_events(events).queue[0] == arrivals(events)[batched(events).len() as int],
        now >= arrival_times(events)[batched(events).len() as int] + flush_interval,
{
    let all = events.push(DriverEvent::Dispatch(now));
    assert(all.drop_last() =~= events);
    lemma_first_arrival(flush_interval, events);
    law_served_only_after_asking(flush_interval, events);
    assert((batched(events) + after_events(events).queue)[batched(events).len() as int]
        == after_events(events).queue[0]);
}

/// The number of batches that started over the events.
pub open spec fn started<R>(events: Seq<DriverEvent<R>>) -> nat
    decreases events.len(),
{
    if events.len() == 0 {
        0
    } else {
        let here: nat = if events.last() is Dispatch && after_events(events).in_flight {
            1
        } else {
            0
        };
        started(events.drop_last()) + here
    }
}

/// The number of batches that ended over the events.
pub open spec fn finished<R>(events: Seq<DriverEvent<R>>) -> nat
    decreases events.len(),
{
    if events.len() == 0 {
        0
    } else {
        let here: nat = if events.last() is BatchDone {
            1
        } else {
            0
        };
        finished(events.drop_last()) + here
    }
}

/// At every point of a driver's life at most one batch is under way.
pub proof fn law_one_batch_at_a_time<R>(flush_interval: nat, events: Seq<DriverEvent<R>>)
    requires
        all_possible(flush_interval, events),
    ensures
        started(events) == finished(events) + if after_events(events).in_flight {
            1nat
        } else {
            0
        },
    decreases events.len(),
{
    if events.len() > 0 {
        law_one_batch_at_a_time(flush_interval, events.drop_last());
    }
}

/// Once nobody is left who could send a waiter, the driver is at its end and nothing happens any
/// more; and it ends by nothing else.
pub proof fn law_ends_when_nobody_sends<R>(
    flush_interval: nat,
    events: Seq<DriverEvent<R>>,
    next: DriverEvent<R>,
)
    requires
        all_possible(flush_interval, events),
    ensures
        after_events(events).ended <==> events.len() > 0 && events.last() is Closed,
        after_events(events).ended ==> !possible(after_events(events), flush_interval, next),
    decreases events.len(),
{
    if events.len() > 0 {
        law_ends_when_nobody_sends(flush_interval, events.drop_last(), events.last());
    }
}

/// The sum of all chunks' totals.
pub open spec fn sum_of_totals<R>(chunks: Seq<Seq<Waiter<R>>>) -> nat
    decreases chunks.len(),
{
    if chunks.len() == 0 {
        0
    } else {
        driver::total_count(chunks.first()) + sum_of_totals(chunks.drop_first())
    }
}

/// The chunks that the server is asked for over the events, one RPC each, where none fails.
pub open spec fn asked<R>(events: Seq<DriverEvent<R>>) -> Seq<Seq<Waiter<R>>>
    decreases events.len(),
{
    if events.len() == 0 {
        Seq::empty()
    } else {
        let before = asked(events.drop_last());
        match events.last() {
            DriverEvent::Dispatch(_) => before + driver::chunks_of(
                after_events(events.drop_last()).queue,
            ),
            _ => before,
        }
    }
}

proof fn lemma_total_of_both<R>(front: Seq<Waiter<R>>, back: Seq<Waiter<R>>)
    ensures
        driver::total_count(front + back) == driver::total_count(front) + driver::total_count(back),
    decreases back.len(),
{
    if back.len() == 0 {
        assert(front + back =~= front);
    } else {
        assert((front + back).drop_last() =~= front + back.drop_last());
        lemma_total_of_both(front, back.drop_last());
    }
}

proof fn lemma_sum_of_totals<R>(chunks: Seq<Seq<Waiter<R>>>)
    ensures
        sum_of_totals(chunks) == driver::total_count(chunks.flatten()),
    decreases chunks.len(),
{
    if chunks.len() > 0 {
        lemma_sum_of_totals(chunks.drop_first());
        assert(chunks.flatten() =~= chunks.first() + chunks.drop_first().flatten());
        lemma_total_of_both(chunks.first(), chunks.drop_first().flatten());
    } else {
        assert(chunks.flatten() =~= Seq::<Waiter<R>>::empty());
    }
}

proof fn lemma_asked<R>(flush_interval: nat, events: Seq<DriverEvent<R>>)
    requires
        all_possible(flush_interval, events),
    ensures
        asked(events).flatten() == servable_of(batched(events)),
        forall|i: int|
            0 <= i < asked(events).len() ==> 0 < driver::total_count(#[trigger] asked(events)[i])
                <= MAX_TIMESTAMPS_PER_RPC,
    decreases events.len(),
{
    let wanted = |w: Waiter<R>| driver::servable(w.count);
    if events.len() > 0 {
        let rest = events.drop_last();
        lemma_asked(flush_interval, rest);
        if events.last() is Dispatch {
            let queue = after_events(rest).queue;
            let chunks = driver::chunks_of(queue);
            law_chunks_keep_everyone(queue);
            vstd::seq_lib::lemma_flatten_concat(asked(rest), chunks);
            Seq::filter_distributes_over_add(batched(rest), queue, wanted);
            assert forall|i: int| 0 <= i < asked(events).len() implies 0 < driver::total_count(
                #[trigger] asked(events)[i],
            ) <= MAX_TIMESTAMPS_PER_RPC by {
                if i < asked(rest).len() {
                    assert(asked(events)[i] == asked(rest)[i]);
                } else {
                    law_chunks_fit_one_rpc(queue, i - asked(rest).len());
                }
            }
        }
    } else {
        reveal(Seq::filter);
        assert(asked(events).flatten() =~= servable_of(batched(events)));
    }
}

/// Over a whole schedule of requests the counts that the server is asked for, where no RPC fails,
/// sum up to the servable counts of the requests that went into batches: nothing is lost, asked for
/// twice, or fetched ahead. Each of them is one that an RPC can carry. So once the queue is empty
/// and every request was servable, the counts asked for sum up to those requested.
pub proof fn law_asked_for_what_was_requested<R>(flush_interval: nat, events: Seq<DriverEvent<R>>)
    requires
        all_possible(flush_interval, events),
    ensures
        sum_of_totals(asked(events)) + driver::total_count(servable_of(after_events(events).queue))
            == driver::total_count(servable_of(arrivals(events))),
        forall|i: int|
            0 <= i < asked(events).len() ==> 0 < driver::total_count(#[trigger] asked(events)[i])
                <= MAX_TIMESTAMPS_PER_RPC,
        (forall|i: int|
            0 <= i < arrivals(events).len() ==> driver::servable(
                (#[trigger] arrivals(events)[i]).count,
            )) && after_events(events).queue.len() == 0 ==> sum_of_totals(asked(events))
            == driver::total_count(arrivals(events)),
{
    let wanted = |w: Waiter<R>| driver::servable(w.count);
    let queue = after_events(events).queue;
    lemma_asked(flush_interval, events);
    lemma_sum_of_totals(asked(events));
    law_served_only_after_asking(flush_interval, events);
    Seq::filter_distributes_over_add(batched(events), queue, wanted);
    lemma_total_of_both(servable_of(batched(events)), servable_of(queue));
    if forall|i: int|
        0 <= i < arrivals(events).len() ==> driver::servable(
            (#[trigger] arrivals(events)[i]).count,
        ) {
        lemma_all_servable(arrivals(events));
        if queue.len() == 0 {
            reveal(Seq::filter);
            assert(servable_of(queue) =~= Seq::<Waiter<R>>::empty());
        }
    }
}

proof fn lemma_all_servable<R>(waiters: Seq<Waiter<R>>)
    requires
        forall|i: int|
            0 <= i < waiters.len() ==> driver::servable((#[trigger] waiters[i]).count),
    ensures
        servable_of(waiters) == waiters,
    decreases waiters.len(),
{
    reveal(Seq::filter);
    if waiters.len() > 0 {
        let rest = waiters.drop_last();
        assert forall|i: int| 0 <= i < rest.len() implies driver::servable(
            (#[trigger] rest[i]).count,
        ) by {
            assert(rest[i] == waiters[i]);
        }
        lemma_all_servable(rest);
        assert(driver::servable(waiters[waiters.len() - 1].count));
        assert(servable_of(waiters) =~= rest.push(waiters.last()));
    } else {
        assert(servable_of(waiters) =~= waiters);
    }
}

/// What the waiters of all chunks get, one after the other, where the RPC of each chunk is answered
/// with the range at its place.
pub open spec fn served<R>(chunks: Seq<Seq<Waiter<R>>>, ranges: Seq<RangeView>) -> Seq<
    Result<Seq<Timestamp>, ErrorView>,
>
    decreases chunks.len(),
{
    if chunks.len() == 0 {
        Seq::empty()
    } else {
        let chunk = chunks.first();
        let total = driver::total_count(chunk) as u32;
        Seq::new(chunk.len(), |i: int| driver::share(chunk, Ok(ranges.first()), total, i)) + served(
            chunks.drop_first(),
            ranges.drop_first(),
        )
    }
}

proof fn lemma_served<R>(chunks: Seq<Seq<Waiter<R>>>, ranges: Seq<RangeView>)
    requires
        chunks.len() == ranges.len(),
        forall|j: int|
            0 <= j < chunks.len() ==> (#[trigger] ranges[j]).count == driver::total_count(
                chunks[j],
            ),
    ensures
        served(chunks, ranges).len() == chunks.flatten().len(),
        forall|i: int|
            0 <= i < chunks.flatten().len() ==> ((#[trigger] served(chunks, ranges)[i]) matches Ok(
                timestamps,
            ) && timestamps.len() == chunks.flatten()[i].count),
    decreases chunks.len(),
{
    if chunks.len() > 0 {
        let chunk = chunks.first();
        let rest = chunks.drop_first();
        let later = ranges.drop_first();
        assert(ranges[0].count == driver::total_count(chunks[0]));
        assert forall|j: int| 0 <= j < rest.len() implies (#[trigger] later[j]).count
            == driver::total_count(rest[j]) by {
            assert(later[j] == ranges[j + 1]);
            assert(rest[j] == chunks[j + 1]);
        }
        lemma_served(rest, later);
        let all = chunks.flatten();
        assert(all =~= chunk + rest.flatten());
        assert forall|i: int| 0 <= i < all.len() implies ((#[trigger] served(
            chunks,
            ranges,
        )[i]) matches Ok(timestamps) && timestamps.len() == all[i].count) by {
            if i < chunk.len() {
                law_shares_partition_the_range(chunk, ranges.first(), i);
                assert(all[i] == chunk[i]);
            } else {
                assert(served(chunks, ranges)[i] == served(rest, later)[i - chunk.len()]);
                assert(all[i] == rest.flatten()[i - chunk.len()]);
            }
        }
    } else {
        assert(chunks.flatten() =~= Seq::<Waiter<R>>::empty());
    }
}

/// Where every RPC over a schedule is answered with a range of the count that it asked for, every
/// request that went into a batch and can be served gets exactly as many timestamps as it asked
/// for.
pub proof fn law_everyone_gets_what_they_asked<R>(
    flush_interval: nat,
    events: Seq<DriverEvent<R>>,
    ranges: Seq<RangeView>,
)
    requires
        all_possible(flush_interval, events),
        ranges.len() == asked(events).len(),
        forall|j: int|
            0 <= j < ranges.len() ==> (#[trigger] ranges[j]).count == driver::total_count(
                asked(events)[j],
            ),
    ensures
        served(asked(events), ranges).len() == servable_of(batched(events)).len(),
        forall|i: int|
            0 <= i < servable_of(batched(events)).len() ==> ((#[trigger] served(
                asked(events),
                ranges,
            )[i]) matches Ok(timestamps) && timestamps.len() == servable_of(
                batched(events),
            )[i].count),
{
    lemma_asked(flush_interval, events);
    lemma_served(asked(events), ranges);
}

/// The counts that one RPC can serve are those from one to the width of the logical counter, which
/// has eighteen bits.
pub proof fn law_which_counts_are_served(count: u32)
    ensures
        driver::servable(count) <==> 1 <= count <= 0x4_0000,
        MAX_TIMESTAMPS_PER_RPC == 0x4_0000,
{
}

/// The total of waiters is the sum of their counts: one waiter's count, and of two groups together
/// the sum of both.
pub proof fn law_totals_add_up<R>(waiter: Waiter<R>, front: Seq<Waiter<R>>, back: Seq<Waiter<R>>)
    ensures
        driver::total_count(Seq::<Waiter<R>>::empty()) == 0,
        driver::total_count(seq![waiter]) == waiter.count,
        driver::total_count(front + back) == driver::total_count(front) + driver::total_count(back),
{
    assert(seq![waiter].drop_last() =~= Seq::<Waiter<R>>::empty());
    assert(driver::total_count(seq![waiter].drop_last()) == 0);
    lemma_total_of_both(front, back);
}

/// What a driver waits for. At its end: nothing. While a batch is under way: that batch. Without a
/// waiter: the first one. With one: until the flush interval has passed since the first waiter
/// arrived, and not a moment longer; from then on the queue goes out. A further waiter is received,
/// beside a batch or the flush interval, exactly while fewer than half the capacity are queued.
pub proof fn law_what_the_driver_waits_for<R>(
    state: DriverState<R>,
    flush_interval: Duration,
    now: Instant,
    wait: Wait,
)
    requires
        state@.inv(),
        call_ensures(DriverState::<R>::waiting, (&state, flush_interval, now), wait),
    ensures
        wait is End <==> state@.ended,
        wait is Batch <==> !state@.ended && state@.in_flight,
        wait is Arrival <==> !state@.ended && !state@.in_flight && state@.queue.len() == 0,
        wait is Dispatch <==> {
            &&& !state@.ended && !state@.in_flight && state@.queue.len() > 0
            &&& flush_interval@ == 0 || now@ >= state@.first_arrival->0 + flush_interval@
        },
        wait matches Wait::Batch { receive } ==> (receive <==> state@.queue.len() < 2048),
        wait matches Wait::Flush { left, receive } ==> {
            &&& receive <==> state@.queue.len() < 2048
            &&& now@ < state@.first_arrival->0 + flush_interval@
            &&& state@.first_arrival->0 + flush_interval@ <= now@ + MAX_NANOS ==> now@ + left@
                == state@.first_arrival->0 + flush_interval@
            &&& left@ > 0
        },
{
}

/// A queue that holds a waiter, with no batch under way and the driver not at its end, is due as
/// soon as the flush interval has passed since its first waiter arrived, however many are queued;
/// and it is not due before, nor in any other state.
pub proof fn law_a_queue_is_due_in_time<R>(
    state: DriverView<R>,
    first: nat,
    flush_interval: nat,
    now: nat,
)
    requires
        state.first_arrival == Some(first),
        !state.ended,
        !state.in_flight,
    ensures
        now >= first + flush_interval ==> state.due(flush_interval, now),
        flush_interval == 0 ==> state.due(flush_interval, now),
        flush_interval > 0 && now < first + flush_interval ==> !state.due(flush_interval, now),
{
}

/// At every point of a driver's life, once a request is queued, no batch is under way, and the flush
/// interval has passed since the first queued request was received, the queue can be dispatched, and
/// then all that were queued are in the batch.
pub proof fn law_every_request_can_go_out<R>(
    flush_interval: nat,
    events: Seq<DriverEvent<R>>,
    now: nat,
)
    requires
        all_possible(flush_interval, events),
        batched(events).len() < arrivals(events).len(),
        !after_events(events).in_flight,
        !after_events(events).ended,
        now >= arrival_times(events)[batched(events).len() as int] + flush_interval,
    ensures
        possible(after_events(events), flush_interval, DriverEvent::Dispatch(now)),
        batched(events.push(DriverEvent::Dispatch(now))) == arrivals(events),
{
    lemma_first_arrival(flush_interval, events);
    law_served_only_after_asking(flush_interval, events);
    let all = events.push(DriverEvent::Dispatch(now));
    assert(all.drop_last() =~= events);
}

/// A waiter is received exactly while fewer than half the capacity are queued; the two halves are
/// 4096 waiters together.
pub proof fn law_room_for_a_waiter<R>(state: DriverView<R>)
    ensures
        state.receives() <==> state.queue.len() < 2048,
        QUEUE_HALF + QUEUE_HALF == QUEUE_CAPACITY == 4096,
{
}

/// A waiter that is received stands behind all that were queued, with its count and where its answer
/// goes. The flush interval counts from the first that was queued, whoever comes later. Nothing else
/// changes.
pub proof fn law_a_waiter_is_queued<R>(
    state: &mut DriverState<R>,
    waiter: Waiter<R>,
    now: Instant,
)
    requires
        old(state)@.inv(),
        call_ensures(DriverState::<R>::arrived, (state, waiter, now), ()),
    ensures
        final(state)@.queue == old(state)@.queue.push(waiter),
        old(state)@.queue.len() == 0 ==> final(state)@.first_arrival == Some(now@),
        old(state)@.queue.len() > 0 ==> final(state)@.first_arrival == old(state)@.first_arrival,
        final(state)@.in_flight == old(state)@.in_flight,
        final(state)@.ended == old(state)@.ended,
{
}

/// A driver starts with nobody queued, nothing under way, and not at its end.
pub proof fn law_a_driver_starts_idle<R>(state: DriverState<R>)
    requires
        call_ensures(DriverState::<R>::new, (), state),
    ensures
        state@.queue.len() == 0,
        state@.first_arrival is None,
        !state@.in_flight,
        !state@.ended,
{
}

/// A batch that is done makes room for the next one and touches nobody who is queued.
pub proof fn law_a_batch_that_is_done<R>(state: &mut DriverState<R>)
    requires
        call_ensures(DriverState::<R>::batch_done, (state,), ()),
    ensures
        !final(state)@.in_flight,
        final(state)@.queue == old(state)@.queue,
        final(state)@.first_arrival == old(state)@.first_arrival,
        final(state)@.ended == old(state)@.ended,
{
}

/// Once nobody is left who could send a waiter the driver is at its end.
pub proof fn law_a_driver_that_is_closed<R>(state: &mut DriverState<R>)
    requires
        call_ensures(DriverState::<R>::closed, (state,), ()),
    ensures
        final(state)@.ended,
        final(state)@.queue == old(state)@.queue,
        final(state)@.in_flight == old(state)@.in_flight,
{
}

/// Dispatching takes everybody out of the queue. Who asked for one to 262,144 timestamps goes into
/// the batch, in order, in groups that ask for at most 262,144 each; everybody else is turned away
/// with the count they asked for. A batch is under way then exactly where somebody went into it.
pub proof fn law_dispatch_takes_everybody<R>(
    state: &mut DriverState<R>,
    flush_interval: Duration,
    now: Instant,
    out: (Batch<R>, Vec<Answer<R>>),
)
    requires
        call_ensures(DriverState::<R>::dispatch, (state, flush_interval, now), out),
    ensures
        final(state)@.queue.len() == 0,
        final(state)@.first_arrival is None,
        final(state)@.ended == old(state)@.ended,
        final(state)@.in_flight <==> exists|i: int|
            0 <= i < old(state)@.queue.len() && 1 <= (#[trigger] old(state)@.queue[i]).count
                <= 0x4_0000,
        out.0@.failed is None,
        out.0@.groups.flatten() == old(state)@.queue.filter(
            |w: Waiter<R>| 1 <= w.count <= 0x4_0000,
        ),
        forall|i: int|
            0 <= i < out.0@.groups.len() ==> (#[trigger] out.0@.groups[i]).len() > 0 && 1
                <= driver::total_count(out.0@.groups[i]) <= 0x4_0000,
        out.1@.len() + out.0@.groups.flatten().len() == old(state)@.queue.len(),
        forall|i: int|
            0 <= i < out.1@.len() ==> {
                let refused = old(state)@.queue.filter(
                    |w: Waiter<R>| !(1 <= w.count <= 0x4_0000),
                );
                &&& (#[trigger] out.1@[i]).respond == refused[i].respond
                &&& out.1@[i].outcome matches Err(error) && error@ == ErrorView::InvalidCount(
                    refused[i].count,
                )
            },
{
    let queue = old(state)@.queue;
    law_chunks_keep_everyone(queue);
    law_batch_iff_servable(queue);
    lemma_packing(queue);
    let wanted = |w: Waiter<R>| 1 <= w.count <= 0x4_0000;
    let unwanted = |w: Waiter<R>| !(1 <= w.count <= 0x4_0000);
    assert(wanted =~= (|w: Waiter<R>| driver::servable(w.count)));
    assert(unwanted =~= (|w: Waiter<R>| !driver::servable(w.count)));
    lemma_filter_nonempty(queue, wanted);
    assert forall|i: int| 0 <= i < out.0@.groups.len() implies (
    #[trigger] out.0@.groups[i]).len() > 0 && 1 <= driver::total_count(out.0@.groups[i])
        <= 0x4_0000 by {
        law_chunks_fit_one_rpc(queue, i);
    }
    if exists|i: int| 0 <= i < queue.len() && 1 <= (#[trigger] queue[i]).count <= 0x4_0000 {
        let i = choose|i: int| 0 <= i < queue.len() && 1 <= (#[trigger] queue[i]).count <= 0x4_0000;
        assert(wanted(queue[i]));
    }
    if queue.filter(wanted).len() > 0 {
        let i = choose|i: int| 0 <= i < queue.len() && wanted(#[trigger] queue[i]);
        assert(1 <= queue[i].count <= 0x4_0000);
    }
}

proof fn lemma_filter_nonempty<A>(items: Seq<A>, wanted: spec_fn(A) -> bool)
    ensures
        items.filter(wanted).len() > 0 <==> exists|i: int|
            0 <= i < items.len() && wanted(#[trigger] items[i]),
    decreases items.len(),
{
    reveal(Seq::filter);
    if items.len() > 0 {
        let rest = items.drop_last();
        lemma_filter_nonempty(rest, wanted);
        if exists|i: int| 0 <= i < rest.len() && wanted(#[trigger] rest[i]) {
            let i = choose|i: int| 0 <= i < rest.len() && wanted(#[trigger] rest[i]);
            assert(items[i] == rest[i]);
        }
        if exists|i: int| 0 <= i < items.len() && wanted(#[trigger] items[i]) {
            let i = choose|i: int| 0 <= i < items.len() && wanted(#[trigger] items[i]);
            if i < rest.len() {
                assert(rest[i] == items[i]);
            }
        }
        if wanted(items.last()) {
            assert(items[items.len() - 1] == items.last());
        }
    }
}

/// Where the RPC of a group is answered with a range of the count that was asked for, and the group
/// asks for no more between them, every caller gets its own slice: as many timestamps as it asked
/// for, of the millisecond of the range, with consecutive counters that begin behind those of the
/// callers before it.
pub proof fn law_every_caller_gets_its_slice<R>(
    waiters: VecDeque<Waiter<R>>,
    range: TimestampRange,
    expected: u32,
    answers: Vec<Answer<R>>,
    i: int,
    k: int,
)
    requires
        call_ensures(driver::deliver::<R>, (waiters, Ok(range), expected), answers),
        range@.valid(),
        range@.count == expected,
        driver::total_count(waiters@) <= expected,
        0 <= i < waiters@.len(),
        0 <= k < waiters@[i].count,
    ensures
        answers@.len() == waiters@.len(),
        answers@[i].respond == waiters@[i].respond,
        answers@[i].outcome matches Ok(timestamps) && {
            &&& timestamps@.len() == waiters@[i].count
            &&& timestamps@[k].0 == range@.physical_ms * 0x4_0000 + range@.logical_start
                + driver::total_count(waiters@.take(i)) + k
        },
{
    let result = driver::result_view(Ok(range));
    assert(driver::delivered(answers@, waiters@, result, expected));
    assert(answers@[i].respond == waiters@[i].respond);
    assert(waiters@.take(i) + waiters@.skip(i) =~= waiters@);
    lemma_total_of_both(waiters@.take(i), waiters@.skip(i));
    lemma_total_of_both(waiters@.skip(i).take(1), waiters@.skip(i).skip(1));
    assert(waiters@.skip(i).take(1) + waiters@.skip(i).skip(1) =~= waiters@.skip(i));
    assert(waiters@.skip(i).take(1) =~= seq![waiters@[i]]);
    law_totals_add_up(waiters@[i], Seq::<Waiter<R>>::empty(), Seq::<Waiter<R>>::empty());
}

/// Where the RPC of a group is answered with another number of timestamps than was asked for, or
/// fails, every caller gets an error and nobody a timestamp: an INTERNAL status in the first case, in
/// the second the error of the RPC. Of a status its code, its message and its trailers are handed
/// on; the failure of a transport is told apart as one that was handed on, with its text.
pub proof fn law_a_failed_group_fails_every_caller<R>(
    waiters: VecDeque<Waiter<R>>,
    result: Result<TimestampRange, ClientError>,
    expected: u32,
    answers: Vec<Answer<R>>,
    i: int,
)
    requires
        call_ensures(driver::deliver::<R>, (waiters, result, expected), answers),
        result matches Ok(range) ==> range@.count != expected,
        0 <= i < waiters@.len(),
    ensures
        answers@.len() == waiters@.len(),
        answers@[i].respond == waiters@[i].respond,
        answers@[i].outcome matches Err(error) && match result {
            Ok(range) => error@ matches ErrorView::Rpc(status) && status.code == Code::Internal
                && status.message == "tsoracle protocol violation: requested "@
                + text::spec_decimal(expected as nat) + " timestamps, server returned "@
                + text::spec_decimal(range@.count as nat),
            Err(cause) => handed_on(cause@, error@),
        },
{
    assert(driver::delivered(answers@, waiters@, driver::result_view(result), expected));
    assert(answers@[i].respond == waiters@[i].respond);
}

/// True of an error that hands another one on.
pub open spec fn handed_on(cause: ErrorView, error: ErrorView) -> bool {
    match (cause, error) {
        (ErrorView::Rpc(given), ErrorView::Rpc(got)) => {
            &&& got.code == given.code
            &&& got.message == given.message
            &&& got.trailers == given.trailers
            &&& got.details.len() == 0
            &&& got.source is None
        },
        (ErrorView::Transport(given), ErrorView::TransportFanout(got)) => got == given,
        (ErrorView::TransportFanout(given), ErrorView::TransportFanout(got)) => got == given,
        (ErrorView::NoReachableEndpoints, ErrorView::NoReachableEndpoints) => true,
        (ErrorView::InvalidEndpoint(given), ErrorView::InvalidEndpoint(got)) => got == given,
        (ErrorView::InvalidCount(given), ErrorView::InvalidCount(got)) => got == given,
        (ErrorView::Connector(given), ErrorView::Connector(got)) => got == given,
        (ErrorView::DriverGone, ErrorView::DriverGone) => true,
        (ErrorView::InvalidSeqKey, ErrorView::InvalidSeqKey) => true,
        (ErrorView::SeqUncertain, ErrorView::SeqUncertain) => true,
        _ => false,
    }
}

/// A copy of an error for another caller hands that error on.
pub proof fn law_a_copied_error_is_handed_on(error: ClientError, copy: ClientError)
    requires
        call_ensures(driver::clone_client_error, (&error,), copy),
    ensures
        handed_on(error@, copy@),
{
}

/// A batch asks for its groups one after the other, each by one RPC for the sum of its counts; once
/// an RPC has failed, the groups behind it get its error without another one; and when no group is
/// left the batch is done.
pub proof fn law_a_batch_asks_group_by_group<R>(batch: &mut Batch<R>, step: BatchStep<R>)
    requires
        call_ensures(Batch::<R>::next, (batch,), step),
    ensures
        step is Done <==> old(batch)@.groups.len() == 0,
        step is Rpc <==> old(batch)@.groups.len() > 0 && old(batch)@.failed is None,
        step matches BatchStep::Rpc { count } ==> count == driver::total_count(
            old(batch)@.groups[0],
        ) && final(batch)@ == old(batch)@,
        step matches BatchStep::Answers(answers) ==> {
            &&& final(batch)@.groups == old(batch)@.groups.drop_first()
            &&& final(batch)@.failed == old(batch)@.failed
            &&& answers@.len() == old(batch)@.groups[0].len()
            &&& forall|i: int|
                0 <= i < answers@.len() ==> (#[trigger] answers@[i]).respond
                    == old(batch)@.groups[0][i].respond && (answers@[i].outcome matches Err(error)
                    && handed_on(driver::fanned_out(old(batch)@.failed->0), error@))
        },
{
}

/// The outcome of an RPC goes to the callers of the first group, which is then done with; an error
/// stays for the groups behind it, and a range leaves none.
pub proof fn law_a_batch_takes_an_outcome<R>(
    batch: &mut Batch<R>,
    result: Result<TimestampRange, ClientError>,
    answers: Vec<Answer<R>>,
)
    requires
        old(batch)@.groups.len() > 0,
        driver::total_count(old(batch)@.groups[0]) <= u32::MAX,
        call_ensures(Batch::<R>::on_result, (batch, result), answers),
    ensures
        final(batch)@.groups == old(batch)@.groups.drop_first(),
        result is Ok ==> final(batch)@.failed is None,
        result matches Err(error) ==> final(batch)@.failed is Some && handed_on(
            error@,
            final(batch)@.failed->0,
        ),
        answers@.len() == old(batch)@.groups[0].len(),
        forall|i: int|
            0 <= i < answers@.len() ==> (#[trigger] answers@[i]).respond
                == old(batch)@.groups[0][i].respond && (answers@[i].outcome is Ok <==> (
            result matches Ok(range) && range@.count == driver::total_count(
                old(batch)@.groups[0],
            ))),
        forall|i: int|
            0 <= i < answers@.len() ==> ((#[trigger] answers@[i]).outcome matches Err(error)
                ==> match result {
                Ok(_) => error@ matches ErrorView::Rpc(status) && status.code == Code::Internal,
                Err(cause) => handed_on(cause@, error@),
            }),
        forall|i: int|
            0 <= i < answers@.len() ==> ((#[trigger] answers@[i]).outcome matches Ok(timestamps)
                ==> timestamps@ == result->Ok_0@.slice(
                driver::total_count(old(batch)@.groups[0].take(i)) as int,
                old(batch)@.groups[0][i].count as nat,
            )),
{
}

/// Draining a queue empties it. Who asked for one to 262,144 timestamps ends up in a chunk, in
/// order; a chunk's total is the sum of its counts, at most 262,144, and what the first waiter of
/// the next chunk asks for does not fit into it any more. Everybody else is turned away with the
/// count they asked for.
pub proof fn law_a_queue_is_drained_into_chunks<R>(
    queue: &mut VecDeque<Waiter<R>>,
    out: (Vec<Chunk<R>>, Vec<Answer<R>>),
    i: int,
)
    requires
        call_ensures(driver::chunk_queue::<R>, (queue,), out),
        0 <= i < out.0@.len(),
    ensures
        final(queue)@.len() == 0,
        1 <= out.0@[i].total <= 0x4_0000,
        out.0@[i].waiters@.len() > 0,
        out.0@[i].total == driver::total_count(out.0@[i].waiters@),
        i + 1 < out.0@.len() ==> out.0@[i].total + out.0@[i + 1].waiters@[0].count > 0x4_0000,
        Seq::new(out.0@.len(), |k: int| out.0@[k].waiters@).flatten() == old(queue)@.filter(
            |w: Waiter<R>| 1 <= w.count <= 0x4_0000,
        ),
        out.1@.len() == old(queue)@.filter(|w: Waiter<R>| !(1 <= w.count <= 0x4_0000)).len(),
        forall|k: int|
            0 <= k < out.1@.len() ==> {
                let refused = old(queue)@.filter(|w: Waiter<R>| !(1 <= w.count <= 0x4_0000));
                &&& (#[trigger] out.1@[k]).respond == refused[k].respond
                &&& out.1@[k].outcome matches Err(error) && error@ == ErrorView::InvalidCount(
                    refused[k].count,
                )
            },
{
    let waiters = old(queue)@;
    let chunks = driver::chunks_of(waiters);
    law_chunks_keep_everyone(waiters);
    law_chunks_fit_one_rpc(waiters, i);
    if i + 1 < out.0@.len() {
        law_chunks_are_full(waiters, i);
        assert(out.0@[i + 1].waiters@ == chunks[i + 1]);
    }
    assert(Seq::new(out.0@.len(), |k: int| out.0@[k].waiters@) =~= chunks);
    assert((|w: Waiter<R>| 1 <= w.count <= 0x4_0000) =~= (|w: Waiter<R>| driver::servable(
        w.count,
    )));
    assert((|w: Waiter<R>| !(1 <= w.count <= 0x4_0000)) =~= (|w: Waiter<R>| !driver::servable(
        w.count,
    )));
}

} // verus!
