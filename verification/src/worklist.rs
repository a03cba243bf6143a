//! Candidate-endpoint worklist of the retry loop.
//!
//! Owns the queue of endpoints to dial, the set of those already dialed, and the steering to a
//! hinted leader: the hinted endpoint goes to the front, so it is dialed next rather than at the
//! end of the pass. An endpoint is dialed at most once, also where a hint points back at it.
use std::collections::VecDeque;
use vstd::prelude::*;

use crate::text;
use crate::text::position_of;

verus! {

/// Endpoints to dial, in order, with the endpoints that were dialed.
pub struct Worklist {
    queue: VecDeque<String>,
    visited: Vec<String>,
}

/// What a [`Worklist`] holds: the endpoints still queued, and those dialed.
#[verifier::ext_equal]
pub struct WorklistView {
    pub queue: Seq<Seq<char>>,
    pub visited: Set<Seq<char>>,
}

impl View for Worklist {
    type V = WorklistView;

    closed spec fn view(&self) -> WorklistView {
        WorklistView { queue: text::views(self.queue@), visited: text::views(self.visited@).to_set() }
    }
}

/// The first queued endpoint that was not dialed, with what is queued behind it; `None` and an
/// empty queue where all were dialed.
pub open spec fn take_next(
    queue: Seq<Seq<char>>,
    visited: Set<Seq<char>>,
) -> (Option<Seq<char>>, Seq<Seq<char>>)
    decreases queue.len(),
{
    if queue.len() == 0 {
        (None, queue)
    } else if visited.contains(queue[0]) {
        take_next(queue.drop_first(), visited)
    } else {
        (Some(queue[0]), queue.drop_first())
    }
}

impl WorklistView {
    /// The worklist that starts out with the given endpoints.
    pub open spec fn seeded(endpoints: Seq<Seq<char>>) -> WorklistView {
        WorklistView { queue: endpoints, visited: Set::empty() }
    }

    /// The endpoint to dial next, and the worklist after it was taken.
    pub open spec fn popped(self) -> (Option<Seq<char>>, WorklistView) {
        let (found, rest) = take_next(self.queue, self.visited);
        match found {
            Some(endpoint) => (
                found,
                WorklistView { queue: rest, visited: self.visited.insert(endpoint) },
            ),
            None => (found, WorklistView { queue: rest, visited: self.visited }),
        }
    }

    /// The worklist with `endpoint` put in front.
    pub open spec fn redirected(self, endpoint: Seq<char>) -> WorklistView {
        WorklistView { queue: seq![endpoint] + self.queue, visited: self.visited }
    }
}

impl Worklist {
    /// A worklist that dials `endpoints` in order.
    pub fn new(endpoints: Vec<String>) -> (r: Worklist)
        ensures
            r@ == WorklistView::seeded(text::views(endpoints@)),
    {
        let mut endpoints = endpoints;
        let ghost given = endpoints@;
        let mut queue: VecDeque<String> = VecDeque::new();
        while endpoints.len() > 0
            invariant
                endpoints@ + queue@ == given,
            decreases endpoints.len(),
        {
            let ghost before = endpoints@ + queue@;
            match endpoints.pop() {
                Some(last) => {
                    queue.push_front(last);
                },
                None => {},
            }
            assert(endpoints@ + queue@ =~= before);
        }
        assert(queue@ =~= given);
        let r = Worklist { queue, visited: Vec::new() };
        assert(r@.visited =~= Set::empty());
        r
    }

    /// Takes the next endpoint that was not dialed and counts it as dialed. Entries that were
    /// dialed already (a repeat in the seed, a redirect back) are dropped on the way.
    pub fn next(&mut self) -> (r: Option<String>)
        ensures
            final(self)@ == old(self)@.popped().1,
            match r {
                Some(endpoint) => old(self)@.popped().0 == Some(endpoint@),
                None => old(self)@.popped().0 is None,
            },
    {
        let ghost start = self@;
        loop
            invariant
                self@.visited == start.visited,
                take_next(self@.queue, start.visited) == take_next(start.queue, start.visited),
                old(self)@ == start,
            decreases self.queue@.len(),
        {
            let ghost before = self@;
            match self.queue.pop_front() {
                None => {
                    assert(self@.queue =~= before.queue);
                    return None;
                },
                Some(endpoint) => {
                    assert(before.queue.len() > 0);
                    assert(before.queue[0] == endpoint@);
                    assert(self@.queue =~= before.queue.drop_first());
                    if position_of(&self.visited, &endpoint).is_none() {
                        assert(!before.visited.contains(endpoint@));
                        let ghost seen = self.visited@;
                        self.visited.push(endpoint.clone());
                        proof {
                            text::lemma_views_push(seen, endpoint);
                            text::lemma_to_set_push(text::views(seen), endpoint@);
                        }
                        return Some(endpoint);
                    }
                    assert(before.visited.contains(endpoint@));
                },
            }
        }
    }

    /// Puts a hinted leader in front of everything that is queued.
    pub fn redirect_to(&mut self, endpoint: String)
        ensures
            final(self)@ == old(self)@.redirected(endpoint@),
    {
        self.queue.push_front(endpoint);
        assert(self@.queue =~= seq![endpoint@] + old(self)@.queue);
    }
}

/// One step of a worklist's use.
pub enum WorklistOp {
    /// Take the next endpoint.
    Next,
    /// Steer to a hinted endpoint.
    Redirect(Seq<char>),
}

/// The endpoints that the steps `ops` hand out, in order.
pub open spec fn dialed(worklist: WorklistView, ops: Seq<WorklistOp>) -> Seq<Seq<char>>
    decreases ops.len(),
{
    if ops.len() == 0 {
        Seq::empty()
    } else {
        match ops[0] {
            WorklistOp::Redirect(endpoint) => dialed(
                worklist.redirected(endpoint),
                ops.drop_first(),
            ),
            WorklistOp::Next => {
                let (found, rest) = worklist.popped();
                match found {
                    Some(endpoint) => seq![endpoint] + dialed(rest, ops.drop_first()),
                    None => dialed(rest, ops.drop_first()),
                }
            },
        }
    }
}

proof fn lemma_take_next(queue: Seq<Seq<char>>, visited: Set<Seq<char>>)
    ensures
        take_next(queue, visited).0 matches Some(endpoint) ==> !visited.contains(endpoint)
            && queue.contains(endpoint),
        take_next(queue, visited).0 is None <==> forall|i: int|
            0 <= i < queue.len() ==> visited.contains(#[trigger] queue[i]),
    decreases queue.len(),
{
    if queue.len() > 0 {
        if visited.contains(queue[0]) {
            lemma_take_next(queue.drop_first(), visited);
            if take_next(queue, visited).0 is Some {
                let endpoint = take_next(queue, visited).0->0;
                let i = choose|i: int|
                    0 <= i < queue.drop_first().len() && queue.drop_first()[i] == endpoint;
                assert(queue[i + 1] == endpoint);
            }
            if take_next(queue, visited).0 is None {
                assert forall|i: int| 0 <= i < queue.len() implies visited.contains(
                    #[trigger] queue[i],
                ) by {
                    if i > 0 {
                        assert(queue.drop_first()[i - 1] == queue[i]);
                    }
                }
            }
            if forall|i: int| 0 <= i < queue.len() ==> visited.contains(#[trigger] queue[i]) {
                assert forall|i: int| 0 <= i < queue.drop_first().len() implies visited.contains(
                    #[trigger] queue.drop_first()[i],
                ) by {
                    assert(queue.drop_first()[i] == queue[i + 1]);
                }
            }
        } else {
            assert(queue.contains(queue[0]));
        }
    }
}

/// However it is steered, a worklist hands out no endpoint twice, and none that was dialed
/// before.
pub proof fn law_each_endpoint_once(worklist: WorklistView, ops: Seq<WorklistOp>)
    ensures
        dialed(worklist, ops).no_duplicates(),
        forall|i: int|
            0 <= i < dialed(worklist, ops).len() ==> !worklist.visited.contains(
                #[trigger] dialed(worklist, ops)[i],
            ),
    decreases ops.len(),
{
    if ops.len() > 0 {
        match ops[0] {
            WorklistOp::Redirect(endpoint) => {
                law_each_endpoint_once(worklist.redirected(endpoint), ops.drop_first());
            },
            WorklistOp::Next => {
                let (found, rest) = worklist.popped();
                lemma_take_next(worklist.queue, worklist.visited);
                law_each_endpoint_once(rest, ops.drop_first());
                if let Some(endpoint) = found {
                    let tail = dialed(rest, ops.drop_first());
                    assert(rest.visited.contains(endpoint));
                    assert forall|i: int, j: int|
                        0 <= i < dialed(worklist, ops).len() && 0 <= j < dialed(
                            worklist,
                            ops,
                        ).len() && i != j implies dialed(worklist, ops)[i] != dialed(
                        worklist,
                        ops,
                    )[j] by {
                        if i > 0 {
                            assert(dialed(worklist, ops)[i] == tail[i - 1]);
                        }
                        if j > 0 {
                            assert(dialed(worklist, ops)[j] == tail[j - 1]);
                        }
                    }
                    assert forall|i: int| 0 <= i < dialed(worklist, ops).len() implies
                        !worklist.visited.contains(#[trigger] dialed(worklist, ops)[i]) by {
                        if i > 0 {
                            assert(dialed(worklist, ops)[i] == tail[i - 1]);
                            assert(!rest.visited.contains(tail[i - 1]));
                        }
                    }
                }
            },
        }
    }
}

/// The worklist after the steps `ops`.
pub open spec fn after_steps(worklist: WorklistView, ops: Seq<WorklistOp>) -> WorklistView
    decreases ops.len(),
{
    if ops.len() == 0 {
        worklist
    } else {
        match ops[0] {
            WorklistOp::Redirect(endpoint) => after_steps(
                worklist.redirected(endpoint),
                ops.drop_first(),
            ),
            WorklistOp::Next => after_steps(worklist.popped().1, ops.drop_first()),
        }
    }
}

proof fn lemma_take_next_keeps(
    queue: Seq<Seq<char>>,
    visited: Set<Seq<char>>,
    endpoint: Seq<char>,
)
    requires
        queue.contains(endpoint),
    ensures
        ({
            let (found, rest) = take_next(queue, visited);
            visited.contains(endpoint) || found == Some(endpoint) || rest.contains(endpoint)
        }),
    decreases queue.len(),
{
    let i = choose|i: int| 0 <= i < queue.len() && queue[i] == endpoint;
    if i > 0 {
        assert(queue.drop_first()[i - 1] == endpoint);
        if visited.contains(queue[0]) {
            lemma_take_next_keeps(queue.drop_first(), visited, endpoint);
        }
    }
}

/// Once nothing comes next, nothing was left out: every endpoint that was queued at first, and every
/// endpoint that was steered to, was handed out, unless it was dialed before.
pub proof fn law_nothing_left_out(
    worklist: WorklistView,
    ops: Seq<WorklistOp>,
    endpoint: Seq<char>,
)
    requires
        after_steps(worklist, ops).popped().0 is None,
        worklist.queue.contains(endpoint) || ops.contains(WorklistOp::Redirect(endpoint)),
    ensures
        worklist.visited.contains(endpoint) || dialed(worklist, ops).contains(endpoint),
    decreases ops.len(),
{
    if ops.len() == 0 {
        lemma_take_next(worklist.queue, worklist.visited);
    } else {
        let tail = ops.drop_first();
        if ops.contains(WorklistOp::Redirect(endpoint)) && ops[0] != WorklistOp::Redirect(endpoint) {
            let i = choose|i: int| 0 <= i < ops.len() && ops[i] == WorklistOp::Redirect(endpoint);
            assert(tail[i - 1] == ops[i]);
        }
        match ops[0] {
            WorklistOp::Redirect(steered) => {
                let next = worklist.redirected(steered);
                assert(next.queue[0] == steered);
                if worklist.queue.contains(endpoint) {
                    let i = choose|i: int|
                        0 <= i < worklist.queue.len() && worklist.queue[i] == endpoint;
                    assert(next.queue[i + 1] == endpoint);
                }
                law_nothing_left_out(next, tail, endpoint);
            },
            WorklistOp::Next => {
                let (found, rest) = worklist.popped();
                if worklist.queue.contains(endpoint) {
                    lemma_take_next_keeps(worklist.queue, worklist.visited, endpoint);
                }
                let later = dialed(rest, tail);
                if found == Some(endpoint) {
                    assert(dialed(worklist, ops)[0] == endpoint);
                } else if !worklist.visited.contains(endpoint) {
                    law_nothing_left_out(rest, tail, endpoint);
                    let i = choose|i: int| 0 <= i < later.len() && later[i] == endpoint;
                    if found is Some {
                        assert(dialed(worklist, ops)[i + 1] == endpoint);
                    } else {
                        assert(dialed(worklist, ops)[i] == endpoint);
                    }
                }
            },
        }
    }
}

/// A redirect to an endpoint that was not dialed makes it the next one handed out; a redirect to
/// one that was dialed changes nothing about what comes next.
pub proof fn law_redirect_is_next(worklist: WorklistView, endpoint: Seq<char>)
    ensures
        !worklist.visited.contains(endpoint) ==> worklist.redirected(endpoint).popped().0 == Some(
            endpoint,
        ) && worklist.redirected(endpoint).popped().1.queue == worklist.queue,
        worklist.visited.contains(endpoint) ==> worklist.redirected(endpoint).popped()
            == worklist.popped(),
{
    let pushed = seq![endpoint] + worklist.queue;
    assert(pushed.drop_first() =~= worklist.queue);
}

/// A worklist starts with the endpoints in the order given, none of them dialed.
pub proof fn law_a_worklist_starts_as_given(endpoints: Vec<String>, worklist: Worklist)
    requires
        call_ensures(Worklist::new, (endpoints,), worklist),
    ensures
        worklist@.queue.len() == endpoints@.len(),
        forall|i: int|
            0 <= i < endpoints@.len() ==> #[trigger] worklist@.queue[i] == endpoints@[i]@,
        forall|e: Seq<char>| !(#[trigger] worklist@.visited.contains(e)),
{
}

/// True of the place of the first queued endpoint that was not dialed; the length where all were.
pub open spec fn first_new(queue: Seq<Seq<char>>, visited: Set<Seq<char>>, i: int) -> bool {
    &&& 0 <= i <= queue.len()
    &&& forall|j: int| 0 <= j < i ==> visited.contains(#[trigger] queue[j])
    &&& i < queue.len() ==> !visited.contains(queue[i])
}

/// There is such a place, and it is where the next endpoint is taken.
pub proof fn lemma_first_new(queue: Seq<Seq<char>>, visited: Set<Seq<char>>) -> (i: int)
    ensures
        first_new(queue, visited, i),
        i < queue.len() ==> take_next(queue, visited) == (Some(queue[i]), queue.skip(i + 1)),
        i == queue.len() ==> take_next(queue, visited).0 is None && take_next(
            queue,
            visited,
        ).1.len() == 0,
    decreases queue.len(),
{
    if queue.len() == 0 {
        0
    } else if visited.contains(queue[0]) {
        let k = lemma_first_new(queue.drop_first(), visited);
        assert forall|j: int| 0 <= j < k + 1 implies visited.contains(#[trigger] queue[j]) by {
            if j > 0 {
                assert(queue.drop_first()[j - 1] == queue[j]);
            }
        }
        if k < queue.drop_first().len() {
            assert(queue.drop_first().skip(k + 1) =~= queue.skip(k + 2));
        }
        k + 1
    } else {
        assert(queue.skip(1) =~= queue.drop_first());
        0
    }
}

/// The next endpoint is the first queued one that was not dialed: it counts as dialed from then on,
/// and what was queued behind it stays. There is none exactly where all queued ones were dialed.
pub proof fn law_next_is_the_first_new_one(
    worklist: &mut Worklist,
    found: Option<String>,
    i: int,
)
    requires
        call_ensures(Worklist::next, (worklist,), found),
        first_new(old(worklist)@.queue, old(worklist)@.visited, i),
    ensures
        found is Some <==> i < old(worklist)@.queue.len(),
        found matches Some(endpoint) ==> {
            &&& endpoint@ == old(worklist)@.queue[i]
            &&& final(worklist)@.queue == old(worklist)@.queue.skip(i + 1)
            &&& final(worklist)@.visited == old(worklist)@.visited.insert(endpoint@)
        },
        found is None ==> final(worklist)@.queue.len() == 0 && final(worklist)@.visited
            == old(worklist)@.visited,
{
    let queue = old(worklist)@.queue;
    let visited = old(worklist)@.visited;
    let k = lemma_first_new(queue, visited);
    assert(k == i) by {
        if k < i {
            assert(visited.contains(queue[k]));
        }
        if i < k {
            assert(visited.contains(queue[i]));
        }
    }
}

/// Steering puts the endpoint in front of all that are queued and changes nothing else.
pub proof fn law_steering_puts_in_front(worklist: &mut Worklist, endpoint: String)
    requires
        call_ensures(Worklist::redirect_to, (worklist, endpoint), ()),
    ensures
        final(worklist)@.queue.len() == old(worklist)@.queue.len() + 1,
        final(worklist)@.queue[0] == endpoint@,
        forall|i: int|
            0 <= i < old(worklist)@.queue.len() ==> final(worklist)@.queue[i + 1]
                == #[trigger] old(worklist)@.queue[i],
        final(worklist)@.visited == old(worklist)@.visited,
{
}

} // verus!
