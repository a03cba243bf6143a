//! Coalescing concurrent timestamp requests into few RPCs.
//!
//! Waiters queue up while a batch is under way; when it is done, all of them go into the next
//! batch, packed into chunks that one RPC each can serve. No timestamp is kept for later: a waiter
//! is answered from an RPC that was issued after it queued up.
//!
//! A waiter carries whatever its answer is sent through, of type `R`; it is handed back together
//! with the answer. The driver is run from outside: [`DriverState`] says what to wait for, and
//! [`Batch`] which RPC to issue next.
use std::collections::VecDeque;
use vstd::prelude::*;
use vstd::string::*;

use crate::budget;
use crate::error::{ClientError, ErrorView};
use crate::response::{RangeView, TimestampRange, MAX_TIMESTAMPS_PER_RPC};
use crate::status;
use crate::status::{Code, Status, StatusView};
use crate::text;
use crate::text::decimal_text;
use crate::time::{Duration, Instant, MAX_NANOS};
use crate::timestamp::Timestamp;

verus! {

/// Most waiters that are held at any moment: half of them in the queue here, half in the channel
/// that feeds it.
pub const QUEUE_CAPACITY: usize = 4096;

/// Most waiters in the queue; at this length no further one is received.
pub const QUEUE_HALF: usize = 2048;

/// One request: how many timestamps, and where the answer goes.
#[derive(Debug)]
pub struct Waiter<R> {
    pub count: u32,
    pub respond: R,
}

/// An answer to send.
#[derive(Debug)]
pub struct Answer<R> {
    pub respond: R,
    pub outcome: Result<Vec<Timestamp>, ClientError>,
}

/// What an answer says.
pub open spec fn outcome_view(outcome: Result<Vec<Timestamp>, ClientError>) -> Result<
    Seq<Timestamp>,
    ErrorView,
> {
    match outcome {
        Ok(timestamps) => Ok(timestamps@),
        Err(error) => Err(error@),
    }
}

/// Requests that one RPC serves together, with the sum of their counts.
#[derive(Debug)]
pub struct Chunk<R> {
    pub total: u32,
    pub waiters: VecDeque<Waiter<R>>,
}

/// True of a count that one RPC can serve.
pub open spec fn servable(count: u32) -> bool {
    1 <= count <= MAX_TIMESTAMPS_PER_RPC
}

/// The sum of the waiters' counts.
pub open spec fn total_count<R>(waiters: Seq<Waiter<R>>) -> nat
    decreases waiters.len(),
{
    if waiters.len() == 0 {
        0
    } else {
        total_count(waiters.drop_last()) + waiters.last().count as nat
    }
}

/// The waiters packed into chunks, each as full as the order allows: the chunks that are closed,
/// and the one still open. Waiters that no RPC can serve are left out.
pub open spec fn packing<R>(waiters: Seq<Waiter<R>>) -> (Seq<Seq<Waiter<R>>>, Seq<Waiter<R>>)
    decreases waiters.len(),
{
    if waiters.len() == 0 {
        (Seq::empty(), Seq::empty())
    } else {
        let (closed, open) = packing(waiters.drop_last());
        let waiter = waiters.last();
        if !servable(waiter.count) {
            (closed, open)
        } else if total_count(open) + waiter.count <= MAX_TIMESTAMPS_PER_RPC {
            (closed, open.push(waiter))
        } else {
            (closed.push(open), seq![waiter])
        }
    }
}

/// The chunks that a queue is drained into.
pub open spec fn chunks_of<R>(waiters: Seq<Waiter<R>>) -> Seq<Seq<Waiter<R>>> {
    let (closed, open) = packing(waiters);
    if open.len() == 0 {
        closed
    } else {
        closed.push(open)
    }
}

/// The waiters that no RPC can serve, in order.
pub open spec fn unservable<R>(waiters: Seq<Waiter<R>>) -> Seq<Waiter<R>>
    decreases waiters.len(),
{
    if waiters.len() == 0 {
        Seq::empty()
    } else if servable(waiters.last().count) {
        unservable(waiters.drop_last())
    } else {
        unservable(waiters.drop_last()).push(waiters.last())
    }
}

/// `chunks` are the given groups, each with its total.
pub open spec fn chunks_match<R>(chunks: Seq<Chunk<R>>, groups: Seq<Seq<Waiter<R>>>) -> bool {
    &&& chunks.len() == groups.len()
    &&& forall|i: int|
        0 <= i < chunks.len() ==> (#[trigger] chunks[i]).waiters@ == groups[i] && chunks[i].total
            == total_count(groups[i])
}

/// `answers` turn the given waiters away, each for its own count.
pub open spec fn turned_away<R>(answers: Seq<Answer<R>>, waiters: Seq<Waiter<R>>) -> bool {
    &&& answers.len() == waiters.len()
    &&& forall|i: int|
        0 <= i < answers.len() ==> (#[trigger] answers[i]).respond == waiters[i].respond
            && outcome_view(answers[i].outcome) == Err::<Seq<Timestamp>, ErrorView>(
            ErrorView::InvalidCount(waiters[i].count),
        )
}

/// Drains the queue into chunks that one RPC each can serve. A waiter whose count no RPC can serve
/// is turned away at once: it must not take its neighbours down.
pub fn chunk_queue<R>(queue: &mut VecDeque<Waiter<R>>) -> (r: (Vec<Chunk<R>>, Vec<Answer<R>>))
    ensures
        final(queue)@ == Seq::<Waiter<R>>::empty(),
        chunks_match(r.0@, chunks_of(old(queue)@)),
        turned_away(r.1@, unservable(old(queue)@)),
{
    let ghost all = queue@;
    let mut chunks: Vec<Chunk<R>> = Vec::new();
    let mut answers: Vec<Answer<R>> = Vec::new();
    let mut current: VecDeque<Waiter<R>> = VecDeque::new();
    let mut current_total: u32 = 0;
    let ghost mut done: int = 0;
    assert(all.take(0) =~= Seq::empty());
    assert(all.skip(0) =~= all);
    loop
        invariant
            0 <= done <= all.len(),
            queue@ == all.skip(done),
            all == old(queue)@,
            chunks_match(chunks@, packing(all.take(done)).0),
            current@ == packing(all.take(done)).1,
            current_total == total_count(current@),
            current_total <= MAX_TIMESTAMPS_PER_RPC,
            turned_away(answers@, unservable(all.take(done))),
        decreases all.len() - done,
    {
        let ghost before = queue@;
        match queue.pop_front() {
            None => {
                assert(all.take(done) =~= all);
                if current.len() > 0 {
                    chunks.push(Chunk { total: current_total, waiters: current });
                }
                return (chunks, answers);
            },
            Some(waiter) => {
                proof {
                    assert(waiter == all[done]);
                    assert(all.take(done + 1).drop_last() =~= all.take(done));
                    assert(all.take(done + 1).last() == waiter);
                    assert(queue@ =~= all.skip(done + 1));
                    done = done + 1;
                }
                if waiter.count == 0 || waiter.count > MAX_TIMESTAMPS_PER_RPC {
                    answers.push(
                        Answer {
                            respond: waiter.respond,
                            outcome: Err(ClientError::InvalidCount(waiter.count)),
                        },
                    );
                } else {
                    if waiter.count > MAX_TIMESTAMPS_PER_RPC - current_total {
                        let full = Chunk { total: current_total, waiters: current };
                        chunks.push(full);
                        current = VecDeque::new();
                        current_total = 0;
                    }
                    let ghost open = current@;
                    assert(current_total == total_count(open));
                    current_total = current_total + waiter.count;
                    current.push_back(waiter);
                    proof {
                        assert(current@ =~= open.push(waiter));
                        assert(open.push(waiter).drop_last() =~= open);
                        assert(total_count(open.push(waiter)) == total_count(open) + waiter.count);
                        assert(current@ =~= packing(all.take(done)).1);
                    }
                }
            },
        }
    }
}

/// An error as every waiter of a failed chunk gets it: the same, but a transport failure is told
/// apart as one that was handed on, and of the status of an RPC only the code, the message and the
/// trailers are handed on.
pub open spec fn fanned_out(error: ErrorView) -> ErrorView {
    match error {
        ErrorView::Rpc(inner) => ErrorView::Rpc(
            StatusView { details: Seq::empty(), source: None, ..inner },
        ),
        ErrorView::Transport(text) => ErrorView::TransportFanout(text),
        other => other,
    }
}

/// A copy of an error for one of the waiters of a failed chunk. The status of an RPC is built anew
/// from its code, its message and its trailers.
pub fn clone_client_error(error: &ClientError) -> (r: ClientError)
    ensures
        r@ == fanned_out(error@),
{
    match error {
        ClientError::Rpc(inner) => {
            let mut copy = Status::new(inner.code, inner.message.clone());
            copy.trailers = inner.clone().trailers;
            ClientError::Rpc(copy)
        },
        ClientError::Transport(why) => ClientError::TransportFanout(why.clone()),
        ClientError::TransportFanout(why) => ClientError::TransportFanout(why.clone()),
        ClientError::NoReachableEndpoints => ClientError::NoReachableEndpoints,
        ClientError::InvalidEndpoint(endpoint) => ClientError::InvalidEndpoint(endpoint.clone()),
        ClientError::InvalidCount(count) => ClientError::InvalidCount(*count),
        ClientError::Connector(why) => ClientError::Connector(why.clone()),
        ClientError::DriverGone => ClientError::DriverGone,
        ClientError::InvalidSeqKey => ClientError::InvalidSeqKey,
        ClientError::SeqUncertain => ClientError::SeqUncertain,
    }
}

/// The error of an answer that carries another number of timestamps than was asked for.
pub open spec fn violation(expected: u32, got: u32) -> ErrorView {
    ErrorView::Rpc(
        status::bare_status(
            Code::Internal,
            "tsoracle protocol violation: requested "@ + text::spec_decimal(expected as nat)
                + " timestamps, server returned "@ + text::spec_decimal(got as nat),
        ),
    )
}

/// What the RPC of a chunk came to.
pub open spec fn result_view(result: Result<TimestampRange, ClientError>) -> Result<
    RangeView,
    ErrorView,
> {
    match result {
        Ok(range) => Ok(range@),
        Err(error) => Err(error@),
    }
}

/// What the `i`-th waiter of a chunk gets: its own slice of the range, behind those of the waiters
/// before it; or the chunk's error.
pub open spec fn share<R>(
    waiters: Seq<Waiter<R>>,
    result: Result<RangeView, ErrorView>,
    expected: u32,
    i: int,
) -> Result<Seq<Timestamp>, ErrorView> {
    match result {
        Ok(range) => if range.count != expected {
            Err(violation(expected, range.count))
        } else {
            Ok(range.slice(total_count(waiters.take(i)) as int, waiters[i].count as nat))
        },
        Err(error) => Err(fanned_out(error)),
    }
}

/// `answers` give every waiter its share.
pub open spec fn delivered<R>(
    answers: Seq<Answer<R>>,
    waiters: Seq<Waiter<R>>,
    result: Result<RangeView, ErrorView>,
    expected: u32,
) -> bool {
    &&& answers.len() == waiters.len()
    &&& forall|i: int|
        0 <= i < answers.len() ==> (#[trigger] answers[i]).respond == waiters[i].respond
            && outcome_view(answers[i].outcome) == share(waiters, result, expected, i)
}

proof fn lemma_total_prefix<R>(waiters: Seq<Waiter<R>>, i: int)
    requires
        0 <= i < waiters.len(),
    ensures
        total_count(waiters.take(i + 1)) == total_count(waiters.take(i)) + waiters[i].count,
        total_count(waiters.take(i + 1)) <= total_count(waiters),
    decreases waiters.len(),
{
    assert(waiters.take(i + 1).drop_last() =~= waiters.take(i));
    if i + 1 < waiters.len() {
        let rest = waiters.drop_last();
        lemma_total_prefix(rest, i);
        assert(rest.take(i + 1) =~= waiters.take(i + 1));
    } else {
        assert(waiters.take(i + 1) =~= waiters);
    }
}

/// Turns the outcome of a chunk's RPC into an answer for each of its waiters. `expected` is the
/// count that the RPC asked for; a range of another length is handed to nobody. One of that length
/// has to go round: the waiters ask for no more between them.
pub fn deliver<R>(
    waiters: VecDeque<Waiter<R>>,
    result: Result<TimestampRange, ClientError>,
    expected: u32,
) -> (r: Vec<Answer<R>>)
    requires
        result matches Ok(range) && range@.count == expected ==> total_count(waiters@) <= expected,
    ensures
        delivered(r@, waiters@, result_view(result), expected),
{
    let mut waiters = waiters;
    let ghost all = waiters@;
    let ghost view = result_view(result);
    let mut answers: Vec<Answer<R>> = Vec::new();
    let mut offset: u32 = 0;
    assert(all.take(0) =~= Seq::empty());
    assert(all.skip(0) =~= all);
    while waiters.len() > 0
        invariant
            answers.len() <= all.len(),
            waiters@ == all.skip(answers.len() as int),
            view == result_view(result),
            result matches Ok(range) && range@.count == expected ==> total_count(all) <= expected
                && offset == total_count(all.take(answers.len() as int)),
            forall|i: int|
                0 <= i < answers.len() ==> (#[trigger] answers@[i]).respond == all[i].respond
                    && outcome_view(answers@[i].outcome) == share(all, view, expected, i),
        decreases waiters.len(),
    {
        let ghost i = answers.len() as int;
        proof {
            lemma_total_prefix(all, i);
        }
        match waiters.pop_front() {
            Some(waiter) => {
                assert(waiter == all[i]);
                assert(waiters@ =~= all.skip(i + 1));
                let outcome: Result<Vec<Timestamp>, ClientError> = match &result {
                    Ok(range) => {
                        if range.count() != expected {
                            let mut why = String::from_str(
                                "tsoracle protocol violation: requested ",
                            );
                            why.append(decimal_text(expected as u64).as_str());
                            why.append(" timestamps, server returned ");
                            why.append(decimal_text(range.count() as u64).as_str());
                            Err(ClientError::Rpc(Status::new(Code::Internal, why)))
                        } else {
                            let from: u32 = offset;
                            offset = offset + waiter.count;
                            Ok(range.slice(from, waiter.count))
                        }
                    },
                    Err(error) => Err(clone_client_error(error)),
                };
                answers.push(Answer { respond: waiter.respond, outcome });
            },
            None => {},
        }
    }
    answers
}

/// The chunks of one batch that are still to be served, and the error that ended the batch, where
/// one did.
pub struct Batch<R> {
    chunks: VecDeque<Chunk<R>>,
    failed: Option<ClientError>,
}

/// What a [`Batch`] holds.
#[verifier::ext_equal]
pub struct BatchView<R> {
    pub groups: Seq<Seq<Waiter<R>>>,
    pub failed: Option<ErrorView>,
}

/// What to do next for a batch.
#[derive(Debug)]
pub enum BatchStep<R> {
    /// Issue one RPC for this many timestamps, and hand its outcome back.
    Rpc { count: u32 },
    /// Send these answers: an earlier chunk's error, without another RPC.
    Answers(Vec<Answer<R>>),
    /// The batch is done.
    Done,
}

spec fn groups_of<R>(chunks: Seq<Chunk<R>>) -> Seq<Seq<Waiter<R>>> {
    Seq::new(chunks.len(), |i: int| chunks[i].waiters@)
}

impl<R> View for Batch<R> {
    type V = BatchView<R>;

    closed spec fn view(&self) -> BatchView<R> {
        BatchView {
            groups: groups_of(self.chunks@),
            failed: text::option_view(self.failed),
        }
    }
}

impl<R> Batch<R> {
    /// Every chunk's total is the sum of its waiters' counts.
    pub closed spec fn wf(&self) -> bool {
        forall|i: int|
            0 <= i < self.chunks@.len() ==> (#[trigger] self.chunks@[i]).total == total_count(
                self.chunks@[i].waiters@,
            )
    }

    /// A batch of the given chunks.
    pub fn new(chunks: Vec<Chunk<R>>) -> (r: Batch<R>)
        requires
            forall|i: int|
                0 <= i < chunks@.len() ==> (#[trigger] chunks@[i]).total == total_count(
                    chunks@[i].waiters@,
                ),
        ensures
            r.wf(),
            r@.failed is None,
            r@.groups.len() == chunks@.len(),
            forall|i: int|
                0 <= i < chunks@.len() ==> #[trigger] r@.groups[i] == chunks@[i].waiters@,
    {
        let mut chunks = chunks;
        let ghost given = chunks@;
        let mut queue: VecDeque<Chunk<R>> = VecDeque::new();
        while chunks.len() > 0
            invariant
                chunks@ + queue@ == given,
            decreases chunks.len(),
        {
            let ghost before = chunks@ + queue@;
            match chunks.pop() {
                Some(last) => {
                    queue.push_front(last);
                },
                None => {},
            }
            assert(chunks@ + queue@ =~= before);
        }
        assert(queue@ =~= given);
        Batch { chunks: queue, failed: None }
    }

    /// Says what to do next. Once a chunk has failed, the chunks behind it get its error without
    /// another RPC.
    pub fn next(&mut self) -> (r: BatchStep<R>)
        requires
            old(self).wf(),
        ensures
            final(self).wf(),
            if old(self)@.groups.len() == 0 {
                r is Done && final(self)@ == old(self)@
            } else {
                match old(self)@.failed {
                    None => r matches BatchStep::Rpc { count } && count == total_count(
                        old(self)@.groups[0],
                    ) && final(self)@ == old(self)@,
                    Some(error) => {
                        &&& r matches BatchStep::Answers(answers) && delivered(
                            answers@,
                            old(self)@.groups[0],
                            Err(fanned_out(error)),
                            total_count(old(self)@.groups[0]) as u32,
                        )
                        &&& final(self)@ == (BatchView {
                            groups: old(self)@.groups.drop_first(),
                            failed: Some(error),
                        })
                    },
                }
            },
    {
        if self.chunks.len() == 0 {
            return BatchStep::Done;
        }
        assert(self@.groups[0] == self.chunks@[0].waiters@);
        match &self.failed {
            None => BatchStep::Rpc { count: self.chunks[0].total },
            Some(error) => {
                let error = clone_client_error(error);
                let ghost before = self.chunks@;
                match self.chunks.pop_front() {
                    Some(chunk) => {
                        proof {
                            assert(self@.groups =~= old(self)@.groups.drop_first());
                            assert forall|i: int| 0 <= i < self.chunks@.len() implies (
                            #[trigger] self.chunks@[i]).total == total_count(
                                self.chunks@[i].waiters@,
                            ) by {
                                assert(self.chunks@[i] == before[i + 1]);
                            }
                        }
                        BatchStep::Answers(deliver(chunk.waiters, Err(error), chunk.total))
                    },
                    None => BatchStep::Done,
                }
            },
        }
    }

    /// Takes the outcome of the first chunk's RPC and gives the answers of its waiters. An error is
    /// kept for the chunks behind it.
    pub fn on_result(&mut self, result: Result<TimestampRange, ClientError>) -> (r: Vec<Answer<R>>)
        requires
            old(self).wf(),
            old(self)@.groups.len() > 0,
            old(self)@.failed is None,
        ensures
            final(self).wf(),
            delivered(
                r@,
                old(self)@.groups[0],
                result_view(result),
                total_count(old(self)@.groups[0]) as u32,
            ),
            final(self)@.groups == old(self)@.groups.drop_first(),
            final(self)@.failed == match result_view(result) {
                Ok(_) => None,
                Err(error) => Some(fanned_out(error)),
            },
    {
        assert(self@.groups[0] == self.chunks@[0].waiters@);
        if let Err(error) = &result {
            self.failed = Some(clone_client_error(error));
        }
        let ghost before = self.chunks@;
        match self.chunks.pop_front() {
            Some(chunk) => {
                proof {
                    assert(self@.groups =~= old(self)@.groups.drop_first());
                    assert forall|i: int| 0 <= i < self.chunks@.len() implies (
                    #[trigger] self.chunks@[i]).total == total_count(self.chunks@[i].waiters@) by {
                        assert(self.chunks@[i] == before[i + 1]);
                    }
                }
                deliver(chunk.waiters, result, chunk.total)
            },
            None => {
                proof {
                    assert(false);
                }
                Vec::new()
            },
        }
    }
}

/// The driver: the waiters that are queued, when the first of them arrived, whether a batch is
/// under way, and whether the driver is at its end.
pub struct DriverState<R> {
    queue: VecDeque<Waiter<R>>,
    first_arrival: Option<Instant>,
    in_flight: bool,
    ended: bool,
}

/// What a [`DriverState`] holds.
#[verifier::ext_equal]
pub struct DriverView<R> {
    pub queue: Seq<Waiter<R>>,
    pub first_arrival: Option<nat>,
    pub in_flight: bool,
    pub ended: bool,
}

/// What the driver waits for.
#[derive(Clone, Copy, Debug)]
pub enum Wait {
    /// The batch under way, or a further waiter where `receive` is set.
    Batch { receive: bool },
    /// A first waiter.
    Arrival,
    /// The end of the flush interval, which is `left` away, or a further waiter where `receive` is
    /// set.
    Flush { left: Duration, receive: bool },
    /// Nothing: the queue is to be dispatched now.
    Dispatch,
    /// Nothing: no waiter will come any more, and the driver is at its end.
    End,
}

impl<R> DriverView<R> {
    /// The queue is within its half of the capacity, and it is known since when it is not empty.
    pub open spec fn inv(self) -> bool {
        &&& self.queue.len() <= QUEUE_HALF
        &&& self.queue.len() > 0 <==> self.first_arrival is Some
    }

    /// True where the queue is to be dispatched: no batch is under way, and `flush_interval`, unless
    /// that is empty, has passed since the first waiter arrived.
    pub open spec fn due(self, flush_interval: nat, now: nat) -> bool {
        &&& !self.ended
        &&& !self.in_flight
        &&& self.first_arrival matches Some(first) && (flush_interval == 0 || first + flush_interval
            <= now)
    }

    /// True where a further waiter may be received.
    pub open spec fn receives(self) -> bool {
        self.queue.len() < QUEUE_HALF
    }

    /// The driver after a waiter was received at `now`: it is queued behind the others, whatever is
    /// under way.
    pub open spec fn after_arrival(self, waiter: Waiter<R>, now: nat) -> DriverView<R> {
        DriverView {
            queue: self.queue.push(waiter),
            first_arrival: if self.first_arrival is None {
                Some(now)
            } else {
                self.first_arrival
            },
            ..self
        }
    }

    /// The driver after the batch under way is done.
    pub open spec fn after_batch(self) -> DriverView<R> {
        DriverView { in_flight: false, ..self }
    }

    /// The driver after its queue was drained into a batch.
    pub open spec fn after_dispatch(self) -> DriverView<R> {
        DriverView {
            queue: Seq::empty(),
            first_arrival: None,
            in_flight: chunks_of(self.queue).len() > 0,
            ended: self.ended,
        }
    }

    /// The driver after nobody is left who could send a waiter.
    pub open spec fn after_close(self) -> DriverView<R> {
        DriverView { ended: true, ..self }
    }
}

impl<R> View for DriverState<R> {
    type V = DriverView<R>;

    closed spec fn view(&self) -> DriverView<R> {
        DriverView {
            queue: self.queue@,
            first_arrival: text::option_view(self.first_arrival),
            in_flight: self.in_flight,
            ended: self.ended,
        }
    }
}

impl<R> DriverState<R> {
    /// A driver without waiters.
    pub fn new() -> (r: DriverState<R>)
        ensures
            r@ == (DriverView::<R> {
                queue: Seq::empty(),
                first_arrival: None,
                in_flight: false,
                ended: false,
            }),
            r@.inv(),
    {
        DriverState { queue: VecDeque::new(), first_arrival: None, in_flight: false, ended: false }
    }

    /// Says what to wait for. While a batch is under way nothing is dispatched; after it, waiters
    /// are gathered until `flush_interval` after the first of them arrived.
    pub fn waiting(&self, flush_interval: Duration, now: Instant) -> (r: Wait)
        requires
            self@.inv(),
        ensures
            if self@.ended {
                r is End
            } else if self@.in_flight {
                r == (Wait::Batch { receive: self@.receives() })
            } else if self@.first_arrival is None {
                r is Arrival
            } else if self@.due(flush_interval@, now@) {
                r is Dispatch
            } else {
                r matches Wait::Flush { left, receive } && left@ == budget::phase_left(
                    self@.first_arrival->0 + flush_interval@,
                    now@,
                ) && receive == self@.receives()
            },
    {
        let receive: bool = self.queue.len() < QUEUE_HALF;
        if self.ended {
            return Wait::End;
        }
        if self.in_flight {
            return Wait::Batch { receive };
        }
        match self.first_arrival {
            None => Wait::Arrival,
            Some(first) => {
                let deadline: u128 = first.as_nanos() + flush_interval.as_nanos();
                let now_nanos: u128 = now.as_nanos();
                if flush_interval.is_zero() || deadline <= now_nanos {
                    Wait::Dispatch
                } else {
                    let left: u128 = deadline - now_nanos;
                    Wait::Flush { left: Duration::from_nanos_saturating(left), receive }
                }
            },
        }
    }

    /// Queues a waiter that was received.
    pub fn arrived(&mut self, waiter: Waiter<R>, now: Instant)
        requires
            old(self)@.inv(),
            old(self)@.receives(),
        ensures
            final(self)@.inv(),
            final(self)@ == old(self)@.after_arrival(waiter, now@),
    {
        if self.first_arrival.is_none() {
            self.first_arrival = Some(now);
        }
        self.queue.push_back(waiter);
    }

    /// Notes that the batch under way is done, by success or not.
    pub fn batch_done(&mut self)
        requires
            old(self)@.inv(),
        ensures
            final(self)@.inv(),
            final(self)@ == old(self)@.after_batch(),
    {
        self.in_flight = false;
    }

    /// Notes that nobody is left who could send a waiter: the driver is at its end, and those still
    /// queued are given up.
    pub fn closed(&mut self)
        requires
            old(self)@.inv(),
        ensures
            final(self)@.inv(),
            final(self)@ == old(self)@.after_close(),
    {
        self.ended = true;
    }

    /// Drains the queue, once it is due, into a batch, which is then under way unless every waiter
    /// was turned away, and gives the answers of those that were.
    pub fn dispatch(&mut self, flush_interval: Duration, now: Instant) -> (r: (
        Batch<R>,
        Vec<Answer<R>>,
    ))
        requires
            old(self)@.inv(),
            old(self)@.due(flush_interval@, now@),
        ensures
            r.0.wf(),
            r.0@ == (BatchView { groups: chunks_of(old(self)@.queue), failed: None }),
            turned_away(r.1@, unservable(old(self)@.queue)),
            final(self)@.inv(),
            final(self)@ == old(self)@.after_dispatch(),
    {
        self.first_arrival = None;
        let (chunks, answers) = chunk_queue(&mut self.queue);
        self.in_flight = chunks.len() > 0;
        let batch = Batch::new(chunks);
        assert(batch@.groups =~= chunks_of(old(self)@.queue));
        (batch, answers)
    }
}

} // verus!
