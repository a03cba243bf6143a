//! The client's channel pool: which channels are held open, which endpoint is believed to lead,
//! and in which order endpoints are dialed.
//!
//! A channel is stood for by the number of its cell; whoever runs the pool keeps, per cell, the
//! connection itself. Every time is handed in by the caller.
use vstd::prelude::*;
use vstd::string::*;

use crate::endpoint_map::EndpointMap;
use crate::error::{ClientError, ErrorView};
use crate::retry_policy;
use crate::retry_policy::{random_up_to, RetryPolicy};
use crate::text;
use crate::text::position_of;
use crate::time::Instant;
use crate::transport;
use crate::transport::{normalize_uri, parses_as_endpoint};

verus! {

/// Most channels to endpoints outside the configured list that the pool keeps. Such endpoints come
/// from leader hints, that is off the wire, so their number has to be bounded here; beyond it the
/// least recently used one is dropped.
pub const MAX_HINT_CHANNELS: usize = 8;

/// The endpoint that last behaved like the leader, the epoch it was seen at (where one is known),
/// and when the entry was last confirmed.
#[derive(Debug)]
pub struct CachedLeader {
    pub endpoint: String,
    pub epoch: Option<u128>,
    pub last_used: Instant,
}

/// What a [`CachedLeader`] says.
#[verifier::ext_equal]
pub struct LeaderView {
    pub endpoint: Seq<char>,
    pub epoch: Option<u128>,
    pub last_used: nat,
}

impl View for CachedLeader {
    type V = LeaderView;

    open spec fn view(&self) -> LeaderView {
        LeaderView { endpoint: self.endpoint@, epoch: self.epoch, last_used: self.last_used@ }
    }
}

impl Clone for CachedLeader {
    fn clone(&self) -> (r: CachedLeader)
        ensures
            r@ == self@,
    {
        CachedLeader {
            endpoint: self.endpoint.clone(),
            epoch: self.epoch,
            last_used: self.last_used,
        }
    }
}

/// Who seats the leader cache. A `Confirmed` write is backed by an RPC that succeeded, maybe long
/// ago; a `Hinted` one by a peer's claim about who leads now. The two differ only where the cache
/// and the write cannot be ranked by epoch.
#[derive(Clone, Copy, Debug, PartialEq, Eq, Structural)]
pub enum SeatSource {
    Confirmed,
    Hinted,
}

/// How the pool's channels are opened.
#[derive(Clone, Copy, Debug, PartialEq, Eq, Structural)]
pub enum Connector {
    /// By the built-in transport, in the clear unless the endpoint says otherwise.
    Plaintext,
    /// By the built-in transport, over TLS unless the endpoint says otherwise.
    Tls,
    /// By the caller's own connector, which gets the endpoint as it is.
    Custom,
}

/// What to open for an endpoint.
#[derive(Debug)]
pub enum DialPlan {
    /// Open this URI with the built-in transport.
    BuiltIn(String),
    /// Hand this endpoint to the caller's connector.
    Custom(String),
}

impl DialPlan {
    /// The plan for `endpoint`, given whether its URI can be read: the built-in transport opens
    /// nothing else. A connector of the caller's own is asked whatever the endpoint looks like.
    pub fn judged(self, endpoint: &str, readable: bool) -> (r: Result<DialPlan, ClientError>)
        ensures
            if self is BuiltIn && !readable {
                r matches Err(error) && error@ == ErrorView::InvalidEndpoint(endpoint@)
            } else {
                r == Ok::<DialPlan, ClientError>(self)
            },
    {
        match self {
            DialPlan::BuiltIn(uri) => if readable {
                Ok(DialPlan::BuiltIn(uri))
            } else {
                Err(ClientError::InvalidEndpoint(String::from_str(endpoint)))
            },
            DialPlan::Custom(named) => Ok(DialPlan::Custom(named)),
        }
    }
}

/// The later of two epochs, where a known one counts as later than an unknown one.
pub open spec fn merged_epoch(cached: Option<u128>, incoming: Option<u128>) -> Option<u128> {
    match (cached, incoming) {
        (Some(a), Some(b)) => Some(if a >= b { a } else { b }),
        (Some(a), None) => Some(a),
        (None, _) => incoming,
    }
}

/// Merges an incoming epoch into the cached one without moving backward: the larger of two known
/// epochs, and a known epoch rather than none.
pub fn merge_epoch_forward(cached: Option<u128>, incoming: Option<u128>) -> (r: Option<u128>)
    ensures
        r == merged_epoch(cached, incoming),
{
    match (cached, incoming) {
        (Some(a), Some(b)) => Some(
            if a >= b {
                a
            } else {
                b
            },
        ),
        (Some(a), None) => Some(a),
        (None, b) => b,
    }
}

/// True of a cache entry that was confirmed less than `ttl` before `now`.
pub open spec fn is_fresh(leader: LeaderView, now: nat, ttl: nat) -> bool {
    (if leader.last_used <= now {
        now - leader.last_used
    } else {
        0
    }) < ttl
}

/// True where a write naming a different endpoint may replace a fresh entry: it has to show that
/// it outranks it.
pub open spec fn outranks(
    cached: Option<u128>,
    incoming: Option<u128>,
    is_configured: bool,
    source: SeatSource,
) -> bool {
    match (cached, incoming) {
        (Some(a), Some(b)) => b >= a,
        (Some(_), None) => source == SeatSource::Hinted && is_configured,
        (None, _) => source == SeatSource::Hinted,
    }
}

/// The leader cache after a write, and whether the cache now names the written endpoint.
///
/// - The same endpoint keeps its place, is refreshed, and its epoch moves forward.
/// - A different endpoint replaces a fresh entry where it outranks it.
/// - An absent or expired entry is replaced.
pub open spec fn seated(
    leader: Option<LeaderView>,
    configured: Seq<Seq<char>>,
    ttl: nat,
    endpoint: Seq<char>,
    epoch: Option<u128>,
    source: SeatSource,
    now: nat,
) -> (Option<LeaderView>, bool) {
    let written = LeaderView { endpoint, epoch, last_used: now };
    match leader {
        Some(cached) => if cached.endpoint == endpoint {
            (
                Some(
                    LeaderView {
                        endpoint,
                        epoch: merged_epoch(cached.epoch, epoch),
                        last_used: now,
                    },
                ),
                true,
            )
        } else if is_fresh(cached, now, ttl) && !outranks(
            cached.epoch,
            epoch,
            configured.contains(endpoint),
            source,
        ) {
            (leader, false)
        } else {
            (Some(written), true)
        },
        None => (Some(written), true),
    }
}

/// One pooled channel: the cell that holds the connection, and when it was last handed out.
#[derive(Clone, Copy, Debug)]
pub struct Slot {
    pub cell: u64,
    pub last_used: Instant,
}

/// The pool.
pub struct ChannelPool {
    configured: Vec<String>,
    channels: EndpointMap<Slot>,
    leader: Option<CachedLeader>,
    connector: Connector,
    tls_required: bool,
    retry_policy: RetryPolicy,
    rotation: usize,
    next_cell: u64,
}

/// What a [`ChannelPool`] holds: the configured endpoints in order, the channels by endpoint, the
/// leader cache, how channels are opened, whether plaintext hints are refused, the policy, the
/// cursor of the rotation, and the number that the next new cell gets.
#[verifier::ext_equal]
pub struct PoolView {
    pub configured: Seq<Seq<char>>,
    pub channels: Map<Seq<char>, Slot>,
    pub leader: Option<LeaderView>,
    pub connector: Connector,
    pub tls_required: bool,
    pub retry_policy: RetryPolicy,
    pub rotation: usize,
    pub next_cell: u64,
}

impl PoolView {
    /// True where `endpoint`'s cell can be handed out: it has one, or a new one can still be
    /// numbered.
    pub open spec fn can_lease(self, endpoint: Seq<char>) -> bool {
        self.channels.dom().contains(endpoint) || self.next_cell < u64::MAX
    }

    /// The cached leader's endpoint while its entry is fresh.
    pub open spec fn fresh_endpoint(self, now: nat) -> Option<Seq<char>> {
        match self.leader {
            Some(cached) => if is_fresh(cached, now, self.retry_policy.leader_ttl@) {
                Some(cached.endpoint)
            } else {
                None
            },
            None => None,
        }
    }

    /// The pool after a write to the leader cache, and whether it was taken.
    pub open spec fn seat(
        self,
        endpoint: Seq<char>,
        epoch: Option<u128>,
        source: SeatSource,
        now: nat,
    ) -> (PoolView, bool) {
        let (leader, accepted) = seated(
            self.leader,
            self.configured,
            self.retry_policy.leader_ttl@,
            endpoint,
            epoch,
            source,
            now,
        );
        (PoolView { leader, ..self }, accepted)
    }

    /// The pool after `endpoint`'s channel was dropped, where it still is the one of `cell`.
    pub open spec fn evicted(self, endpoint: Seq<char>, cell: u64) -> PoolView {
        if self.channels.dom().contains(endpoint) && self.channels[endpoint].cell == cell {
            PoolView { channels: self.channels.remove(endpoint), ..self }
        } else {
            self
        }
    }

    /// The endpoints in the order in which a call that starts at `now` dials them.
    pub open spec fn dial_order(self, now: nat) -> Seq<Seq<char>> {
        dial_order(self.fresh_endpoint(now), self.configured, self.rotation)
    }

    /// The pool after a call asked for its dial order.
    pub open spec fn rotated(self) -> PoolView {
        if self.configured.len() == 0 {
            self
        } else {
            PoolView {
                rotation: if self.rotation == usize::MAX {
                    0
                } else {
                    (self.rotation + 1) as usize
                },
                ..self
            }
        }
    }
}

/// `items` from position `offset` on, then those before it.
pub open spec fn rotation_of(items: Seq<Seq<char>>, offset: int) -> Seq<Seq<char>> {
    items.skip(offset) + items.take(offset)
}

/// The dial order: the fresh leader first, then the configured endpoints from the cursor on,
/// without the leader.
pub open spec fn dial_order(
    leader: Option<Seq<char>>,
    configured: Seq<Seq<char>>,
    cursor: usize,
) -> Seq<Seq<char>> {
    let head = match leader {
        Some(endpoint) => seq![endpoint],
        None => Seq::empty(),
    };
    if configured.len() == 0 {
        head
    } else {
        head + rotation_of(configured, cursor as int % configured.len() as int).filter(
            |e: Seq<char>| leader != Some(e),
        )
    }
}

/// The endpoints with a channel that are not configured.
pub open spec fn hint_endpoints(
    channels: Map<Seq<char>, Slot>,
    configured: Seq<Seq<char>>,
) -> Set<Seq<char>> {
    channels.dom().filter(|e: Seq<char>| !configured.contains(e))
}

/// `after` is `before` with the cap on hint channels enforced: nothing else changed, configured
/// endpoints and `kept` stayed, at most [`MAX_HINT_CHANNELS`] hint channels are left and no more
/// were dropped than that took, and none was dropped that was used more recently than one that
/// stayed (`kept` aside).
pub open spec fn cap_enforced(
    before: Map<Seq<char>, Slot>,
    after: Map<Seq<char>, Slot>,
    configured: Seq<Seq<char>>,
    kept: Seq<char>,
) -> bool {
    &&& forall|e: Seq<char>| #[trigger]
        after.dom().contains(e) ==> before.dom().contains(e) && after[e] == before[e]
    &&& forall|e: Seq<char>| #[trigger]
        before.dom().contains(e) && (configured.contains(e) || e == kept) ==> after.dom().contains(
            e,
        )
    &&& hint_endpoints(after, configured).len() == if hint_endpoints(before, configured).len()
        <= MAX_HINT_CHANNELS {
        hint_endpoints(before, configured).len()
    } else {
        MAX_HINT_CHANNELS as nat
    }
    &&& forall|dropped: Seq<char>, stayed: Seq<char>|
        before.dom().contains(dropped) && !after.dom().contains(dropped) && after.dom().contains(
            stayed,
        ) && !configured.contains(stayed) && stayed != kept ==> (
        #[trigger] before[dropped]).last_used@ <= (#[trigger] before[stayed]).last_used@
}

proof fn lemma_hint_endpoints_remove(
    channels: Map<Seq<char>, Slot>,
    configured: Seq<Seq<char>>,
    gone: Seq<char>,
)
    requires
        channels.dom().finite(),
        channels.dom().contains(gone),
        !configured.contains(gone),
    ensures
        hint_endpoints(channels.remove(gone), configured).len() + 1 == hint_endpoints(
            channels,
            configured,
        ).len(),
{
    let hints = hint_endpoints(channels, configured);
    assert(hint_endpoints(channels.remove(gone), configured) =~= hints.remove(gone));
    assert(hints.finite()) by {
        assert(hints.subset_of(channels.dom()));
        vstd::set_lib::lemma_set_subset_finite(channels.dom(), hints);
    }
    assert(hints.contains(gone));
}

proof fn lemma_hints_shrink(
    channels: Map<Seq<char>, Slot>,
    configured: Seq<Seq<char>>,
    gone: Seq<char>,
)
    requires
        channels.dom().finite(),
    ensures
        hint_endpoints(channels.remove(gone), configured).len() <= hint_endpoints(
            channels,
            configured,
        ).len(),
{
    let hints = hint_endpoints(channels, configured);
    let left = hint_endpoints(channels.remove(gone), configured);
    assert(hints.subset_of(channels.dom()));
    vstd::set_lib::lemma_set_subset_finite(channels.dom(), hints);
    assert(left.subset_of(hints));
    vstd::set_lib::lemma_len_subset(left, hints);
}

impl View for ChannelPool {
    type V = PoolView;

    closed spec fn view(&self) -> PoolView {
        PoolView {
            configured: text::views(self.configured@),
            channels: self.channels@,
            leader: match self.leader {
                Some(cached) => Some(cached@),
                None => None,
            },
            connector: self.connector,
            tls_required: self.tls_required,
            retry_policy: self.retry_policy,
            rotation: self.rotation,
            next_cell: self.next_cell,
        }
    }
}

impl ChannelPool {
    /// The pool holds one slot per endpoint, and every cell it holds was numbered by it.
    spec fn numbered(&self) -> bool {
        &&& self.channels.wf()
        &&& forall|e: Seq<char>| #[trigger]
            self.channels@.dom().contains(e) ==> self.channels@[e].cell < self.next_cell
    }

    /// The pool holds one slot per endpoint, every cell it holds was numbered by it, and the hint
    /// channels are within their cap.
    pub closed spec fn wf(&self) -> bool {
        &&& self.numbered()
        &&& hint_endpoints(self@.channels, self@.configured).len() <= MAX_HINT_CHANNELS
    }

    /// In every pool, whatever was done with it, a cell's number is below the number that the next
    /// new cell gets, and the channels are bounded: at most [`MAX_HINT_CHANNELS`] lead off the
    /// configured list, and there are at most that many more than configured endpoints.
    pub proof fn law_pool_is_bounded(&self)
        requires
            self.wf(),
        ensures
            self@.channels.dom().finite(),
            forall|e: Seq<char>| #[trigger]
                self@.channels.dom().contains(e) ==> self@.channels[e].cell < self@.next_cell,
            hint_endpoints(self@.channels, self@.configured).len() <= MAX_HINT_CHANNELS,
            self@.channels.dom().len() <= self@.configured.len() + MAX_HINT_CHANNELS,
    {
        self.channels.lemma_positions();
        let hints = hint_endpoints(self@.channels, self@.configured);
        let known = self@.configured.to_set();
        assert(hints.subset_of(self@.channels.dom()));
        vstd::set_lib::lemma_set_subset_finite(self@.channels.dom(), hints);
        assert(self@.channels.dom().subset_of(hints.union(known)));
        vstd::seq_lib::seq_to_set_is_finite(self@.configured);
        vstd::set_lib::lemma_len_union(hints, known);
        vstd::set_lib::lemma_len_subset(self@.channels.dom(), hints.union(known));
        self@.configured.lemma_cardinality_of_set();
    }

    /// A pool for the given endpoints that starts its rotation at a random one, so that a fleet's
    /// cold start spreads over the nodes. Where it starts is left open.
    pub fn new(
        endpoints: Vec<String>,
        connector: Connector,
        tls_required: bool,
        retry_policy: RetryPolicy,
    ) -> (r: ChannelPool)
        ensures
            r.wf(),
            r@ == pool_start(
                text::views(endpoints@),
                connector,
                tls_required,
                retry_policy,
                r@.rotation,
            ),
            drawn_at_random(r@.rotation),
    {
        let draw = random_up_to;
        let number: u64 = draw(usize::MAX as u64);
        proof {
            retry_policy::lemma_drawn(usize::MAX as u64, number);
        }
        let seed: usize = number as usize;
        ChannelPool::with_rotation(endpoints, connector, tls_required, retry_policy, seed)
    }

    /// A pool for the given endpoints whose rotation starts at `seed`.
    pub fn with_rotation(
        endpoints: Vec<String>,
        connector: Connector,
        tls_required: bool,
        retry_policy: RetryPolicy,
        seed: usize,
    ) -> (r: ChannelPool)
        ensures
            r.wf(),
            r@ == pool_start(
                text::views(endpoints@),
                connector,
                tls_required,
                retry_policy,
                seed,
            ),
    {
        let r = ChannelPool {
            configured: endpoints,
            channels: EndpointMap::new(),
            leader: None,
            connector,
            tls_required,
            retry_policy,
            rotation: seed,
            next_cell: 0,
        };
        assert(r@.channels =~= Map::empty());
        assert(hint_endpoints(r@.channels, r@.configured) =~= Set::empty());
        r
    }

    /// True where the built-in TLS transport is in use, so that a plaintext leader hint off the
    /// wire has to be refused.
    pub fn tls_required(&self) -> (r: bool)
        ensures
            r == self@.tls_required,
    {
        self.tls_required
    }

    /// The policy the pool was built with.
    pub fn retry_policy(&self) -> (r: &RetryPolicy)
        ensures
            *r == self@.retry_policy,
    {
        &self.retry_policy
    }

    /// The endpoint cached as leader, or `None` where none is or its entry has aged past
    /// `leader_ttl`.
    pub fn cached_leader(&self, now: Instant) -> (r: Option<String>)
        ensures
            match r {
                Some(endpoint) => self@.fresh_endpoint(now@) == Some(endpoint@),
                None => self@.fresh_endpoint(now@) is None,
            },
    {
        match self.fresh_leader(now) {
            Some(cached) => Some(cached.endpoint),
            None => None,
        }
    }

    /// The whole cache entry while it is fresh.
    pub fn fresh_leader(&self, now: Instant) -> (r: Option<CachedLeader>)
        ensures
            match r {
                Some(cached) => self@.leader == Some(cached@) && is_fresh(
                    cached@,
                    now@,
                    self@.retry_policy.leader_ttl@,
                ),
                None => self@.fresh_endpoint(now@) is None,
            },
    {
        match &self.leader {
            Some(cached) => {
                if now.saturating_since(&cached.last_used).is_shorter_than(
                    &self.retry_policy.leader_ttl,
                ) {
                    Some(cached.clone())
                } else {
                    None
                }
            },
            None => None,
        }
    }

    /// Records an RPC that succeeded against `endpoint` and saw the leader at `epoch`. A late
    /// answer from a deposed leader must not lower the cache: see [`seated`].
    pub fn record_success(&mut self, endpoint: &str, epoch: u128, now: Instant)
        requires
            old(self).wf(),
        ensures
            final(self).wf(),
            final(self)@ == old(self)@.seat(
                endpoint@,
                Some(epoch),
                SeatSource::Confirmed,
                now@,
            ).0,
    {
        self.seat_leader(endpoint, Some(epoch), SeatSource::Confirmed, now);
    }

    /// Seats a hinted leader where the rule of [`seated`] lets it, and tells whether it did.
    pub fn compare_and_set_leader(
        &mut self,
        endpoint: String,
        epoch: Option<u128>,
        now: Instant,
    ) -> (r: bool)
        requires
            old(self).wf(),
        ensures
            final(self).wf(),
            (final(self)@, r) == old(self)@.seat(endpoint@, epoch, SeatSource::Hinted, now@),
    {
        self.seat_leader(endpoint.as_str(), epoch, SeatSource::Hinted, now)
    }

    /// The one writer of the leader cache; the rule is [`seated`].
    fn seat_leader(
        &mut self,
        endpoint: &str,
        epoch: Option<u128>,
        source: SeatSource,
        now: Instant,
    ) -> (r: bool)
        requires
            old(self).wf(),
        ensures
            final(self).wf(),
            (final(self)@, r) == old(self)@.seat(endpoint@, epoch, source, now@),
    {
        let named = String::from_str(endpoint);
        let mut merged: Option<u128> = epoch;
        let mut accept: bool = true;
        match &self.leader {
            Some(cached) => {
                if cached.endpoint == named {
                    merged = merge_epoch_forward(cached.epoch, epoch);
                } else if now.saturating_since(&cached.last_used).is_shorter_than(
                    &self.retry_policy.leader_ttl,
                ) {
                    accept = match (cached.epoch, epoch) {
                        (Some(cached_epoch), Some(incoming)) => incoming >= cached_epoch,
                        (Some(_), None) => match source {
                            SeatSource::Hinted => self.is_configured(&named),
                            SeatSource::Confirmed => false,
                        },
                        (None, _) => match source {
                            SeatSource::Hinted => true,
                            SeatSource::Confirmed => false,
                        },
                    };
                }
            },
            None => {},
        }
        if accept {
            self.leader = Some(CachedLeader { endpoint: named, epoch: merged, last_used: now });
        }
        accept
    }

    /// Sets the cursor of the rotation.
    pub fn pin_rotation(&mut self, seed: usize)
        requires
            old(self).wf(),
        ensures
            final(self).wf(),
            final(self)@ == (PoolView { rotation: seed, ..old(self)@ }),
    {
        self.rotation = seed;
    }

    /// What to open for an endpoint that has no channel.
    pub fn dial_plan(&self, endpoint: &str) -> (r: DialPlan)
        ensures
            match self@.connector {
                Connector::Plaintext => r matches DialPlan::BuiltIn(uri) && uri@
                    == transport::normalized(endpoint@, false),
                Connector::Tls => r matches DialPlan::BuiltIn(uri) && uri@
                    == transport::normalized(endpoint@, true),
                Connector::Custom => r matches DialPlan::Custom(raw) && raw@ == endpoint@,
            },
    {
        match self.connector {
            Connector::Plaintext => DialPlan::BuiltIn(normalize_uri(endpoint, false)),
            Connector::Tls => DialPlan::BuiltIn(normalize_uri(endpoint, true)),
            Connector::Custom => DialPlan::Custom(String::from_str(endpoint)),
        }
    }

    /// What to open for an endpoint that has no channel, or that its URI cannot be read.
    pub fn dial_target(&self, endpoint: &str) -> (r: Result<DialPlan, ClientError>)
        ensures
            match self@.connector {
                Connector::Custom => r matches Ok(DialPlan::Custom(raw)) && raw@ == endpoint@,
                _ => {
                    let uri = transport::normalized(endpoint@, self@.connector == Connector::Tls);
                    if transport::is_uri(uri) {
                        r matches Ok(DialPlan::BuiltIn(target)) && target@ == uri
                    } else {
                        r matches Err(error) && error@ == ErrorView::InvalidEndpoint(endpoint@)
                    }
                },
            },
    {
        let plan = self.dial_plan(endpoint);
        let readable: bool = match &plan {
            DialPlan::BuiltIn(uri) => parses_as_endpoint(uri.as_str()),
            DialPlan::Custom(_) => true,
        };
        plan.judged(endpoint, readable)
    }

    /// True where `endpoint`'s cell can be handed out: it has one, or a new one can still be
    /// numbered.
    pub fn can_lease(&self, endpoint: &str) -> (r: bool)
        requires
            self.wf(),
        ensures
            r == self@.can_lease(endpoint@),
    {
        self.next_cell < u64::MAX || self.channels.get(&String::from_str(endpoint)).is_some()
    }

    /// Hands out the cell of `endpoint`'s channel, opening a new one on first use. Every hand-out
    /// counts as a use. Only a new cell can push the hint channels over their cap, so only then is
    /// the cap enforced; the cell that is handed out is never the one to go.
    pub fn client_with_cell(&mut self, endpoint: &str, now: Instant) -> (r: u64)
        requires
            old(self).wf(),
            old(self)@.can_lease(endpoint@),
        ensures
            final(self).wf(),
            leased(old(self)@, final(self)@, endpoint@, now, r),
    {
        let named = String::from_str(endpoint);
        let ghost before = self@;
        match self.channels.get(&named) {
            Some(slot) => {
                self.channels.insert(named, Slot { cell: slot.cell, last_used: now });
                assert(hint_endpoints(self@.channels, self@.configured) =~= hint_endpoints(
                    before.channels,
                    before.configured,
                ));
                slot.cell
            },
            None => {
                let cell: u64 = self.next_cell;
                self.channels.insert(named, Slot { cell, last_used: now });
                self.next_cell = cell + 1;
                assert(self@ == PoolView {
                    channels: before.channels.insert(endpoint@, Slot { cell, last_used: now }),
                    next_cell: (cell + 1) as u64,
                    ..before
                });
                let protected = String::from_str(endpoint);
                self.enforce_hint_cap(&protected);
                cell
            },
        }
    }

    /// Drops `endpoint`'s channel while it still is the one of `cell`: after a failed dial, and
    /// after a transport failure on it. A cell that was put in its place meanwhile stays.
    pub fn evict_if_current(&mut self, endpoint: &str, cell: u64)
        requires
            old(self).wf(),
        ensures
            final(self).wf(),
            final(self)@ == old(self)@.evicted(endpoint@, cell),
    {
        let named = String::from_str(endpoint);
        match self.channels.get(&named) {
            Some(slot) => {
                if slot.cell == cell {
                    proof {
                        self.channels.lemma_positions();
                        lemma_hints_shrink(self@.channels, self@.configured, endpoint@);
                    }
                    self.channels.remove(&named);
                }
            },
            None => {},
        }
    }

    /// Ends the dial of `endpoint`'s channel for the caller that holds `cell`: a dial that failed
    /// gives the cell up and hands its error on.
    pub fn dialed<C>(
        &mut self,
        endpoint: &str,
        cell: u64,
        outcome: Result<C, ClientError>,
    ) -> (r: Result<(C, u64), ClientError>)
        requires
            old(self).wf(),
        ensures
            final(self).wf(),
            match outcome {
                Ok(channel) => r == Ok::<(C, u64), ClientError>((channel, cell)) && final(self)@
                    == old(self)@,
                Err(error) => r == Err::<(C, u64), ClientError>(error) && final(self)@
                    == old(self)@.evicted(endpoint@, cell),
            },
    {
        match outcome {
            Ok(channel) => Ok((channel, cell)),
            Err(error) => {
                self.evict_if_current(endpoint, cell);
                Err(error)
            },
        }
    }

    /// True where the endpoint's channel is the one of `cell`.
    pub fn holds(&self, endpoint: &str, cell: u64) -> (r: bool)
        requires
            self.wf(),
        ensures
            r == (self@.channels.dom().contains(endpoint@) && self@.channels[endpoint@].cell
                == cell),
    {
        match self.channels.get(&String::from_str(endpoint)) {
            Some(slot) => slot.cell == cell,
            None => false,
        }
    }

    /// The first endpoint of the configured list, where it has one.
    pub fn first_configured(&self) -> (r: Option<String>)
        ensures
            match r {
                Some(endpoint) => self@.configured.len() > 0 && endpoint@ == self@.configured[0],
                None => self@.configured.len() == 0,
            },
    {
        if self.configured.len() == 0 {
            None
        } else {
            Some(self.configured[0].clone())
        }
    }

    /// True of an endpoint of the configured list.
    fn is_configured(&self, endpoint: &String) -> (r: bool)
        ensures
            r == self@.configured.contains(endpoint@),
    {
        position_of(&self.configured, endpoint).is_some()
    }

    /// True of an endpoint whose channel may be dropped: not configured, and not `protected`.
    spec fn droppable(&self, endpoint: Seq<char>, protected: Seq<char>) -> bool {
        endpoint != protected && !self@.configured.contains(endpoint)
    }

    /// The least recently used endpoint whose channel may be dropped.
    fn oldest_hint(&self, protected: &String) -> (r: Option<String>)
        requires
            self.numbered(),
        ensures
            match r {
                Some(victim) => {
                    &&& self@.channels.dom().contains(victim@)
                    &&& self.droppable(victim@, protected@)
                    &&& forall|e: Seq<char>| #[trigger]
                        self@.channels.dom().contains(e) && self.droppable(e, protected@)
                            ==> self@.channels[victim@].last_used@
                            <= self@.channels[e].last_used@
                },
                None => forall|e: Seq<char>| #[trigger]
                    self@.channels.dom().contains(e) ==> !self.droppable(e, protected@),
            },
    {
        let mut best: Option<usize> = None;
        let mut i: usize = 0;
        while i < self.channels.len()
            invariant
                self.numbered(),
                i <= self.channels.size(),
                match best {
                    Some(v) => {
                        &&& v < i
                        &&& self.droppable(self.channels.key(v as int), protected@)
                        &&& forall|j: int|
                            0 <= j < i && self.droppable(#[trigger] self.channels.key(j), protected@)
                                ==> self.channels@[self.channels.key(v as int)].last_used@
                                <= self.channels@[self.channels.key(j)].last_used@
                    },
                    None => forall|j: int|
                        0 <= j < i ==> !self.droppable(
                            #[trigger] self.channels.key(j),
                            protected@,
                        ),
                },
            decreases self.channels.size() - i,
        {
            let endpoint = self.channels.key_at(i);
            if *endpoint != *protected && !self.is_configured(endpoint) {
                match best {
                    Some(v) => {
                        if self.channels.value_at(i).last_used.as_nanos() < self.channels.value_at(
                            v,
                        ).last_used.as_nanos() {
                            best = Some(i);
                        }
                    },
                    None => {
                        best = Some(i);
                    },
                }
            }
            i = i + 1;
        }
        proof {
            self.channels.lemma_positions();
        }
        match best {
            Some(v) => Some(self.channels.key_at(v).clone()),
            None => None,
        }
    }

    /// Drops least recently used hint channels until at most [`MAX_HINT_CHANNELS`] are left, and
    /// never the one to `protected`, which was just handed out.
    fn enforce_hint_cap(&mut self, protected: &String)
        requires
            old(self).numbered(),
        ensures
            final(self).wf(),
            final(self)@ == (PoolView { channels: final(self)@.channels, ..old(self)@ }),
            cap_enforced(
                old(self)@.channels,
                final(self)@.channels,
                old(self)@.configured,
                protected@,
            ),
    {
        let ghost before = self@;
        loop
            invariant
                self.numbered(),
                self@ == (PoolView { channels: self@.channels, ..before }),
                before == old(self)@,
                forall|e: Seq<char>| #[trigger]
                    self@.channels.dom().contains(e) ==> before.channels.dom().contains(e)
                        && self@.channels[e] == before.channels[e],
                forall|e: Seq<char>| #[trigger]
                    before.channels.dom().contains(e) && (before.configured.contains(e) || e
                        == protected@) ==> self@.channels.dom().contains(e),
                forall|dropped: Seq<char>, stayed: Seq<char>|
                    before.channels.dom().contains(dropped) && !self@.channels.dom().contains(
                        dropped,
                    ) && self@.channels.dom().contains(stayed) && !before.configured.contains(
                        stayed,
                    ) && stayed != protected@ ==> (
                    #[trigger] before.channels[dropped]).last_used@ <= (
                    #[trigger] before.channels[stayed]).last_used@,
                hint_endpoints(self@.channels, before.configured).len() == hint_endpoints(
                    before.channels,
                    before.configured,
                ).len() || hint_endpoints(self@.channels, before.configured).len()
                    >= MAX_HINT_CHANNELS,
                hint_endpoints(self@.channels, before.configured).len() <= hint_endpoints(
                    before.channels,
                    before.configured,
                ).len(),
            decreases hint_endpoints(self@.channels, before.configured).len(),
        {
            let hints: usize = self.channels.count_outside(&self.configured);
            if hints <= MAX_HINT_CHANNELS {
                return;
            }
            let ghost held = self@.channels;
            match self.oldest_hint(protected) {
                Some(victim) => {
                    proof {
                        self.channels.lemma_positions();
                        lemma_hint_endpoints_remove(held, before.configured, victim@);
                    }
                    self.channels.remove(&victim);
                },
                None => {
                    proof {
                        // Every channel left is configured or protected: at most one hint.
                        let left = hint_endpoints(held, before.configured);
                        assert forall|e: Seq<char>| left.contains(e) implies e == protected@ by {
                            assert(held.dom().contains(e));
                        }
                        assert(left.subset_of(Set::empty().insert(protected@)));
                        vstd::set_lib::lemma_len_subset(left, Set::empty().insert(protected@));
                        assert(false);
                    }
                    return;
                },
            }
        }
    }

    /// The order in which a call dials: the fresh cached leader first, then the configured
    /// endpoints from the cursor on, without the leader. Each call moves the cursor by one, so that
    /// successive calls start at different endpoints.
    pub fn iter_round_robin(&mut self, now: Instant) -> (r: Vec<String>)
        requires
            old(self).wf(),
        ensures
            final(self).wf(),
            text::views(r@) == old(self)@.dial_order(now@),
            final(self)@ == old(self)@.rotated(),
    {
        let leader = self.cached_leader(now);
        let mut endpoints: Vec<String> = Vec::new();
        let ghost named: Option<Seq<char>> = self@.fresh_endpoint(now@);
        let ghost head: Seq<Seq<char>> = match named {
            Some(endpoint) => seq![endpoint],
            None => Seq::empty(),
        };
        if let Some(endpoint) = &leader {
            endpoints.push(endpoint.clone());
        }
        assert(text::views(endpoints@) =~= head);
        let n: usize = self.configured.len();
        if n == 0 {
            assert(self@.configured.len() == 0);
            return endpoints;
        }
        let offset: usize = self.rotation % n;
        let ghost conf = self@.configured;
        let ghost turned = rotation_of(conf, offset as int);
        let ghost wanted = |e: Seq<char>| named != Some(e);
        let mut k: usize = 0;
        assert(turned.take(0).filter(wanted) =~= Seq::empty()) by {
            reveal(Seq::filter);
        }
        assert(head + turned.take(0).filter(wanted) =~= head);
        while k < n
            invariant
                k <= n,
                n == self.configured.len(),
                offset < n,
                conf == text::views(self.configured@),
                conf.len() == n,
                turned == rotation_of(conf, offset as int),
                wanted == (|e: Seq<char>| named != Some(e)),
                match leader {
                    Some(endpoint) => named == Some(endpoint@),
                    None => named is None,
                },
                text::views(endpoints@) == head + turned.take(k as int).filter(wanted),
            decreases n - k,
        {
            let i: usize = if k < n - offset {
                offset + k
            } else {
                k - (n - offset)
            };
            let endpoint = self.configured[i].clone();
            let ghost prefix = turned.take(k as int);
            proof {
                assert(turned[k as int] == endpoint@);
                assert(turned.take(k + 1) =~= prefix.push(endpoint@));
                assert(prefix.push(endpoint@).drop_last() =~= prefix);
                reveal(Seq::filter);
            }
            let is_leader: bool = match &leader {
                Some(l) => *l == endpoint,
                None => false,
            };
            if !is_leader {
                proof {
                    text::lemma_views_push(endpoints@, endpoint);
                    assert(head + prefix.filter(wanted).push(endpoint@) =~= (head + prefix.filter(
                        wanted,
                    )).push(endpoint@));
                }
                endpoints.push(endpoint);
            }
            k = k + 1;
        }
        assert(turned.take(n as int) =~= turned);
        self.rotation = self.rotation.wrapping_add(1);
        endpoints
    }
}

/// True of a cursor that was drawn from all there are.
pub open spec fn drawn_at_random(rotation: usize) -> bool {
    exists|number: u64| #[trigger]
        retry_policy::drawn(usize::MAX as u64, number) && rotation == number
}

/// The pool that was just built.
pub open spec fn pool_start(
    configured: Seq<Seq<char>>,
    connector: Connector,
    tls_required: bool,
    retry_policy: RetryPolicy,
    rotation: usize,
) -> PoolView {
    PoolView {
        configured,
        channels: Map::empty(),
        leader: None,
        connector,
        tls_required,
        retry_policy,
        rotation,
        next_cell: 0,
    }
}

/// `after` is `before` with `endpoint`'s cell, numbered `cell`, handed out at `now`.
///
/// A cell that was there is kept and counts as used. Else it gets the next number, and the cap on
/// hint channels is enforced on the channels with it, sparing it. Nothing else changes.
pub open spec fn leased(
    before: PoolView,
    after: PoolView,
    endpoint: Seq<char>,
    now: Instant,
    cell: u64,
) -> bool {
    let handed = before.channels.insert(endpoint, Slot { cell, last_used: now });
    if before.channels.dom().contains(endpoint) {
        &&& cell == before.channels[endpoint].cell
        &&& after == PoolView { channels: handed, ..before }
    } else {
        &&& cell == before.next_cell
        &&& after == PoolView {
            channels: after.channels,
            next_cell: (before.next_cell + 1) as u64,
            ..before
        }
        &&& cap_enforced(handed, after.channels, before.configured, endpoint)
    }
}

} // verus!
