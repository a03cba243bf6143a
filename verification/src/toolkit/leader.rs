//! Leadership transitions of a raft instance, out of its metrics.
//!
//! Only a change of role is reported; a new term or another leader under the same role is not. The
//! first state is always reported.
use vstd::prelude::*;

verus! {

/// Role of a raft instance.
#[derive(Clone, Copy, Debug, PartialEq, Eq, Structural)]
pub enum RoleClass {
    Leader,
    Follower,
    Candidate,
    Learner,
    Shutdown,
}

/// State of a raft instance, as far as a role transition needs it. `N` describes a member.
#[derive(Clone, Debug, PartialEq, Eq)]
pub enum LeadershipState<N> {
    Leader { term: u64 },
    Follower { term: u64, leader: Option<(u64, N)> },
    Candidate { term: u64 },
    Learner,
    Shutdown,
}

/// What the metrics of a raft instance say: its term, where that is a number, its role, the leader
/// it knows, and the members of its configuration.
#[derive(Debug)]
pub struct RaftMetrics<N> {
    pub current_term: Option<u64>,
    pub state: RoleClass,
    pub current_leader: Option<u64>,
    pub nodes: Vec<(u64, N)>,
}

impl<N> LeadershipState<N> {
    /// The role of the state.
    pub open spec fn role(self) -> RoleClass {
        match self {
            LeadershipState::Leader { .. } => RoleClass::Leader,
            LeadershipState::Follower { .. } => RoleClass::Follower,
            LeadershipState::Candidate { .. } => RoleClass::Candidate,
            LeadershipState::Learner => RoleClass::Learner,
            LeadershipState::Shutdown => RoleClass::Shutdown,
        }
    }

    /// The role of the state.
    pub fn class(&self) -> (r: RoleClass)
        ensures
            r == self.role(),
    {
        match self {
            LeadershipState::Leader { .. } => RoleClass::Leader,
            LeadershipState::Follower { .. } => RoleClass::Follower,
            LeadershipState::Candidate { .. } => RoleClass::Candidate,
            LeadershipState::Learner => RoleClass::Learner,
            LeadershipState::Shutdown => RoleClass::Shutdown,
        }
    }
}

/// True of `found` where it is the first member with the leader's number, copied, or nothing where
/// no leader is known or no member has its number.
pub open spec fn leader_resolved<N: Clone>(
    metrics: RaftMetrics<N>,
    found: Option<(u64, N)>,
) -> bool {
    match (metrics.current_leader, found) {
        (None, found) => found is None,
        (Some(id), None) => forall|i: int|
            0 <= i < metrics.nodes@.len() ==> (#[trigger] metrics.nodes@[i]).0 != id,
        (Some(id), Some(member)) => exists|i: int|
            0 <= i < metrics.nodes@.len() && (#[trigger] metrics.nodes@[i]).0 == id && member.0
                == id && cloned(metrics.nodes@[i].1, member.1) && forall|j: int|
                0 <= j < i ==> (#[trigger] metrics.nodes@[j]).0 != id,
    }
}

/// The member that leads, as far as the metrics know it.
pub fn resolve_leader<N: Clone>(metrics: &RaftMetrics<N>) -> (r: Option<(u64, N)>)
    ensures
        leader_resolved(*metrics, r),
{
    match metrics.current_leader {
        None => None,
        Some(id) => {
            let mut i: usize = 0;
            while i < metrics.nodes.len()
                invariant
                    i <= metrics.nodes.len(),
                    metrics.current_leader == Some(id),
                    forall|j: int| 0 <= j < i ==> (#[trigger] metrics.nodes@[j]).0 != id,
                decreases metrics.nodes.len() - i,
            {
                if metrics.nodes[i].0 == id {
                    return Some((id, metrics.nodes[i].1.clone()));
                }
                i = i + 1;
            }
            None
        },
    }
}

/// True of the state that metrics stand for. A term that is no number counts as zero.
pub open spec fn projected<N: Clone>(metrics: RaftMetrics<N>, state: LeadershipState<N>) -> bool {
    let current = match metrics.current_term {
        Some(term) => term,
        None => 0,
    };
    match (metrics.state, state) {
        (RoleClass::Leader, LeadershipState::Leader { term }) => term == current,
        (RoleClass::Candidate, LeadershipState::Candidate { term }) => term == current,
        (RoleClass::Follower, LeadershipState::Follower { term, leader }) => term == current
            && leader_resolved(metrics, leader),
        (RoleClass::Learner, LeadershipState::Learner) => true,
        (RoleClass::Shutdown, LeadershipState::Shutdown) => true,
        _ => false,
    }
}

/// The state that metrics stand for. A term that is no number counts as zero.
pub fn project_state<N: Clone>(metrics: &RaftMetrics<N>) -> (r: LeadershipState<N>)
    ensures
        projected(*metrics, r),
        r.role() == metrics.state,
{
    let term: u64 = match metrics.current_term {
        Some(term) => term,
        None => 0,
    };
    match metrics.state {
        RoleClass::Leader => LeadershipState::Leader { term },
        RoleClass::Candidate => LeadershipState::Candidate { term },
        RoleClass::Follower => LeadershipState::Follower { term, leader: resolve_leader(metrics) },
        RoleClass::Learner => LeadershipState::Learner,
        RoleClass::Shutdown => LeadershipState::Shutdown,
    }
}

/// What a stream of transitions does next.
#[derive(Clone, Debug)]
pub enum StreamStep<N> {
    /// This state is its next item.
    Emit(LeadershipState<N>),
    /// It waits for other metrics.
    Wait,
    /// It ends.
    End,
}

/// True of one look at metrics: `before` is the role that was reported last, `after` the one that is
/// reported last then, and `item` the state to report, which there is where its role is another.
pub open spec fn looked<N: Clone>(
    before: Option<RoleClass>,
    metrics: RaftMetrics<N>,
    after: Option<RoleClass>,
    item: Option<LeadershipState<N>>,
) -> bool {
    &&& after == Some(metrics.state)
    &&& item is Some <==> before != Some(metrics.state)
    &&& item matches Some(state) ==> projected(metrics, state)
}

/// The filter behind a stream of transitions: it remembers the role it reported last.
#[derive(Clone, Copy, Debug)]
pub struct RoleFilter {
    last: Option<RoleClass>,
}

impl View for RoleFilter {
    type V = Option<RoleClass>;

    closed spec fn view(&self) -> Option<RoleClass> {
        self.last
    }
}

impl RoleFilter {
    /// A filter that has reported nothing yet.
    pub fn new() -> (r: RoleFilter)
        ensures
            r@ is None,
    {
        RoleFilter { last: None }
    }

    /// Looks at the metrics and gives the state to report, where its role is not the one reported
    /// last.
    pub fn stream_from_receiver<N: Clone>(&mut self, metrics: &RaftMetrics<N>) -> (r: Option<
        LeadershipState<N>,
    >)
        ensures
            looked(old(self)@, *metrics, final(self)@, r),
    {
        let projected = project_state(metrics);
        let class = projected.class();
        let repeated: bool = match self.last {
            Some(last) => last == class,
            None => false,
        };
        self.last = Some(class);
        if repeated {
            None
        } else {
            Some(projected)
        }
    }
}

impl RoleFilter {
    /// Looks at the metrics and says what the stream does next. It ends only where nothing is left
    /// to report and the metrics are `closed`: nobody is left who could publish others.
    pub fn advance<N: Clone>(&mut self, metrics: &RaftMetrics<N>, closed: bool) -> (r: StreamStep<N>)
        ensures
            final(self)@ == Some(metrics.state),
            if old(self)@ != Some(metrics.state) {
                r matches StreamStep::Emit(state) && projected(*metrics, state)
            } else if closed {
                r is End
            } else {
                r is Wait
            },
    {
        match self.stream_from_receiver(metrics) {
            Some(state) => StreamStep::Emit(state),
            None => {
                if closed {
                    StreamStep::End
                } else {
                    StreamStep::Wait
                }
            },
        }
    }
}

/// True of the items that a filter, which reported `last` before, lets through out of the metrics
/// it sees, one step after the other.
pub open spec fn streamed<N: Clone>(
    last: Option<RoleClass>,
    seen: Seq<RaftMetrics<N>>,
    items: Seq<LeadershipState<N>>,
) -> bool
    decreases seen.len(),
{
    if seen.len() == 0 {
        items.len() == 0
    } else if last == Some(seen[0].state) {
        streamed(last, seen.drop_first(), items)
    } else {
        &&& items.len() > 0
        &&& projected(seen[0], items[0])
        &&& streamed(Some(seen[0].state), seen.drop_first(), items.drop_first())
    }
}

/// The role that a filter has reported last, which reported `last` before it saw the metrics.
pub open spec fn reported<N>(last: Option<RoleClass>, seen: Seq<RaftMetrics<N>>) -> Option<
    RoleClass,
> {
    if seen.len() == 0 {
        last
    } else {
        Some(seen.last().state)
    }
}

/// One more look extends the stream: the metrics are one more that the filter has seen, and what it
/// reports is one more item.
pub proof fn law_each_look_extends_the_stream<N: Clone>(
    last: Option<RoleClass>,
    seen: Seq<RaftMetrics<N>>,
    items: Seq<LeadershipState<N>>,
    metrics: RaftMetrics<N>,
    after: Option<RoleClass>,
    item: Option<LeadershipState<N>>,
)
    requires
        streamed(last, seen, items),
        looked(reported(last, seen), metrics, after, item),
    ensures
        after == reported(last, seen.push(metrics)),
        streamed(
            last,
            seen.push(metrics),
            match item {
                Some(state) => items.push(state),
                None => items,
            },
        ),
    decreases seen.len(),
{
    let more = seen.push(metrics);
    if seen.len() == 0 {
        assert(more.drop_first() =~= seen);
        if let Some(state) = item {
            assert(items.push(state).drop_first() =~= items);
            assert(streamed(Some(metrics.state), seen, items));
        }
    } else {
        let rest = seen.drop_first();
        assert(more[0] == seen[0]);
        assert(more.drop_first() =~= rest.push(metrics));
        assert(reported(Some(seen[0].state), rest) == reported(last, seen));
        if last == Some(seen[0].state) {
            law_each_look_extends_the_stream(last, rest, items, metrics, after, item);
        } else {
            law_each_look_extends_the_stream(
                Some(seen[0].state),
                rest,
                items.drop_first(),
                metrics,
                after,
                item,
            );
            if let Some(state) = item {
                assert(items.push(state).drop_first() =~= items.drop_first().push(state));
                assert(items.push(state)[0] == items[0]);
            }
        }
    }
}

/// True of a state that some of the metrics stand for.
pub open spec fn published<N: Clone>(
    seen: Seq<RaftMetrics<N>>,
    item: LeadershipState<N>,
) -> bool {
    exists|j: int| 0 <= j < seen.len() && #[trigger] projected(seen[j], item)
}

/// No two items in a row are of the same role.
pub open spec fn roles_change<N>(items: Seq<LeadershipState<N>>) -> bool {
    forall|i: int, k: int|
        #![trigger items[i], items[k]]
        0 <= i && k == i + 1 && k < items.len() ==> items[i].role() != items[k].role()
}

proof fn lemma_streamed<N: Clone>(
    last: Option<RoleClass>,
    seen: Seq<RaftMetrics<N>>,
    items: Seq<LeadershipState<N>>,
)
    requires
        streamed(last, seen, items),
    ensures
        items.len() > 0 ==> last != Some(items[0].role()),
        roles_change(items),
        forall|i: int| 0 <= i < items.len() ==> published(seen, #[trigger] items[i]),
        items.len() == 0 && seen.len() > 0 ==> last == Some(seen.last().state),
        items.len() > 0 ==> seen.len() > 0 && items.last().role() == seen.last().state,
    decreases seen.len(),
{
    if seen.len() > 0 {
        let rest = seen.drop_first();
        let emits = last != Some(seen[0].state);
        let tail = if emits {
            items.drop_first()
        } else {
            items
        };
        lemma_streamed(Some(seen[0].state), rest, tail);
        assert forall|i: int| 0 <= i < items.len() implies published(seen, #[trigger] items[i]) by {
            if emits && i == 0 {
                assert(projected(seen[0], items[0]));
            } else {
                let k = if emits {
                    i - 1
                } else {
                    i
                };
                assert(tail[k] == items[i]);
                assert(published(rest, tail[k]));
                let j = choose|j: int| 0 <= j < rest.len() && #[trigger] projected(rest[j], tail[k]);
                assert(rest[j] == seen[j + 1]);
                assert(projected(seen[j + 1], items[i]));
            }
        }
        if emits {
            assert forall|i: int, k: int|
                #![trigger items[i], items[k]]
                0 <= i && k == i + 1 && k < items.len() implies items[i].role()
                != items[k].role() by {
                assert(tail[k - 1] == items[k]);
                if i > 0 {
                    assert(tail[i - 1] == items[i]);
                }
            }
        }
        if rest.len() > 0 {
            assert(rest.last() == seen.last());
        }
        if tail.len() > 0 {
            assert(tail.last() == items.last());
        }
    }
}

/// The items of a stream of transitions, whatever metrics are published: the first one is the state
/// of the metrics at the start, every one is the state of metrics that were published, no two in a
/// row are of the same role, and the last one is of the role that was seen last. So a new term or
/// another leader under the same role adds none.
pub proof fn law_stream_of_transitions<N: Clone>(
    seen: Seq<RaftMetrics<N>>,
    items: Seq<LeadershipState<N>>,
)
    requires
        seen.len() > 0,
        streamed(None, seen, items),
    ensures
        items.len() > 0,
        projected(seen[0], items[0]),
        forall|i: int| 0 <= i < items.len() ==> published(seen, #[trigger] items[i]),
        roles_change(items),
        items.last().role() == seen.last().state,
{
    lemma_streamed(None, seen, items);
}

/// True of the leader that metrics know: the first member with the number of the current leader.
pub open spec fn knows_leader<N: Clone>(metrics: RaftMetrics<N>, found: Option<(u64, N)>) -> bool {
    match found {
        Some((id, node)) => {
            &&& metrics.current_leader == Some(id)
            &&& exists|i: int|
                0 <= i < metrics.nodes@.len() && (#[trigger] metrics.nodes@[i]).0 == id && cloned(
                    metrics.nodes@[i].1,
                    node,
                ) && forall|j: int| 0 <= j < i ==> (#[trigger] metrics.nodes@[j]).0 != id
        },
        None => metrics.current_leader matches Some(id) ==> forall|i: int|
            0 <= i < metrics.nodes@.len() ==> (#[trigger] metrics.nodes@[i]).0 != id,
    }
}

/// The state that metrics stand for has their role and their term, zero for none, and a follower's
/// holds the leader that they know.
pub proof fn law_what_metrics_stand_for<N: Clone>(
    metrics: RaftMetrics<N>,
    leader: Option<(u64, N)>,
    state: LeadershipState<N>,
    class: RoleClass,
)
    requires
        call_ensures(resolve_leader::<N>, (&metrics,), leader),
        call_ensures(project_state::<N>, (&metrics,), state),
        call_ensures(LeadershipState::<N>::class, (&state,), class),
    ensures
        knows_leader(metrics, leader),
        class == metrics.state,
        match state {
            LeadershipState::Leader { term } => {
                &&& metrics.state == RoleClass::Leader
                &&& metrics.current_term == Some(term) || (metrics.current_term is None && term
                    == 0)
            },
            LeadershipState::Follower { term, leader } => {
                &&& metrics.state == RoleClass::Follower
                &&& metrics.current_term == Some(term) || (metrics.current_term is None && term
                    == 0)
                &&& knows_leader(metrics, leader)
            },
            LeadershipState::Candidate { term } => {
                &&& metrics.state == RoleClass::Candidate
                &&& metrics.current_term == Some(term) || (metrics.current_term is None && term
                    == 0)
            },
            LeadershipState::Learner => metrics.state == RoleClass::Learner,
            LeadershipState::Shutdown => metrics.state == RoleClass::Shutdown,
        },
{
}

/// A look reports the state of the metrics exactly where their role is not the one reported last,
/// and remembers that role. A new filter has reported none, so its first look always reports.
pub proof fn law_a_look_reports_a_change_of_role<N: Clone>(
    fresh: RoleFilter,
    filter: &mut RoleFilter,
    metrics: RaftMetrics<N>,
    item: Option<LeadershipState<N>>,
)
    requires
        call_ensures(RoleFilter::new, (), fresh),
        call_ensures(RoleFilter::stream_from_receiver::<N>, (filter, &metrics), item),
    ensures
        fresh@ is None,
        final(filter)@ == Some(metrics.state),
        item is None <==> old(filter)@ == Some(metrics.state),
        item matches Some(state) ==> projected(metrics, state),
{
}

/// A stream goes on with the state of the metrics where their role is new, else it waits for others,
/// and it ends where there will be none.
pub proof fn law_how_a_stream_goes_on<N: Clone>(
    filter: &mut RoleFilter,
    metrics: RaftMetrics<N>,
    closed: bool,
    step: StreamStep<N>,
)
    requires
        call_ensures(RoleFilter::advance::<N>, (filter, &metrics, closed), step),
    ensures
        final(filter)@ == Some(metrics.state),
        step is Emit <==> old(filter)@ != Some(metrics.state),
        step is End <==> old(filter)@ == Some(metrics.state) && closed,
        step is Wait <==> old(filter)@ == Some(metrics.state) && !closed,
        step matches StreamStep::Emit(state) ==> projected(metrics, state),
{
}

} // verus!
