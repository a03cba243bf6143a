//! A channel pool without a cap and without rotation: it dials the configured endpoints in their
//! order, behind the cached leader.
//!
//! Its leader cache moves forward by a rule of its own: see [`after_success`] and [`after_hint`].
use vstd::prelude::*;
use vstd::string::*;

use crate::attempt_laws;
use crate::channel_pool;
use crate::channel_pool::{CachedLeader, Connector, DialPlan, LeaderView};
use crate::endpoint_map::EndpointMap;
use crate::error::{ClientError, ErrorView};
use crate::pool_laws;
use crate::retry_policy::RetryPolicy;
use crate::text;
use crate::text::position_of;
use crate::time::Instant;
use crate::transport;
use crate::transport::{normalize_uri, parses_as_endpoint};

verus! {

/// The pool.
pub struct ChannelPool {
    configured: Vec<String>,
    channels: EndpointMap<u64>,
    leader: Option<CachedLeader>,
    connector: Connector,
    tls_required: bool,
    retry_policy: RetryPolicy,
    next_cell: u64,
}

/// What a [`ChannelPool`] holds: the configured endpoints in order, the cell of each endpoint with
/// a channel, the leader cache, how channels are opened, whether plaintext hints are refused, the
/// policy, and the number that the next new cell gets.
#[verifier::ext_equal]
pub struct PoolView {
    pub configured: Seq<Seq<char>>,
    pub channels: Map<Seq<char>, u64>,
    pub leader: Option<LeaderView>,
    pub connector: Connector,
    pub tls_required: bool,
    pub retry_policy: RetryPolicy,
    pub next_cell: u64,
}

/// The leader cache after an RPC succeeded against `endpoint` at `epoch`: the same endpoint is
/// refreshed and keeps the higher epoch; another one replaces the entry unless that is fresh and
/// known to be of a higher epoch.
pub open spec fn after_success(
    leader: Option<LeaderView>,
    ttl: nat,
    endpoint: Seq<char>,
    epoch: u128,
    now: nat,
) -> LeaderView {
    match leader {
        Some(cached) => if cached.endpoint == endpoint {
            LeaderView {
                endpoint,
                epoch: channel_pool::merged_epoch(cached.epoch, Some(epoch)),
                last_used: now,
            }
        } else if channel_pool::is_fresh(cached, now, ttl) && cached.epoch is Some && epoch
            < cached.epoch->0 {
            cached
        } else {
            LeaderView { endpoint, epoch: Some(epoch), last_used: now }
        },
        None => LeaderView { endpoint, epoch: Some(epoch), last_used: now },
    }
}

/// True where a hint may be seated: always over an absent or expired entry or one of unknown epoch;
/// over a known epoch where the hint's is not below it, or where the hint has none but names a
/// configured endpoint.
pub open spec fn hint_accepted(
    leader: Option<LeaderView>,
    ttl: nat,
    is_configured: bool,
    epoch: Option<u128>,
    now: nat,
) -> bool {
    match leader {
        Some(cached) => channel_pool::is_fresh(cached, now, ttl) ==> match (cached.epoch, epoch) {
            (Some(known), Some(hinted)) => hinted >= known,
            (Some(_), None) => is_configured,
            (None, _) => true,
        },
        None => true,
    }
}

impl PoolView {
    /// True where `endpoint`'s cell can be handed out: it has one, or a new one can still be
    /// numbered.
    pub open spec fn can_lease(self, endpoint: Seq<char>) -> bool {
        self.channels.dom().contains(endpoint) || self.next_cell < u64::MAX
    }

    /// The cached leader's endpoint while its entry is fresh.
    pub open spec fn fresh_endpoint(self, now: nat) -> Option<Seq<char>> {
        match self.leader {
            Some(cached) => if channel_pool::is_fresh(cached, now, self.retry_policy.leader_ttl@) {
                Some(cached.endpoint)
            } else {
                None
            },
            None => None,
        }
    }

    /// The pool after an RPC succeeded.
    pub open spec fn after_success(self, endpoint: Seq<char>, epoch: u128, now: nat) -> PoolView {
        PoolView {
            leader: Some(
                after_success(self.leader, self.retry_policy.leader_ttl@, endpoint, epoch, now),
            ),
            ..self
        }
    }

    /// The pool after a hint, and whether the hint was seated.
    pub open spec fn after_hint(
        self,
        endpoint: Seq<char>,
        epoch: Option<u128>,
        now: nat,
    ) -> (PoolView, bool) {
        if hint_accepted(
            self.leader,
            self.retry_policy.leader_ttl@,
            self.configured.contains(endpoint),
            epoch,
            now,
        ) {
            (
                PoolView { leader: Some(LeaderView { endpoint, epoch, last_used: now }), ..self },
                true,
            )
        } else {
            (self, false)
        }
    }

    /// The dial order: the fresh leader, then the configured endpoints without it.
    pub open spec fn dial_order(self, now: nat) -> Seq<Seq<char>> {
        let leader = self.fresh_endpoint(now);
        let head = match leader {
            Some(endpoint) => seq![endpoint],
            None => Seq::empty(),
        };
        head + self.configured.filter(|e: Seq<char>| leader != Some(e))
    }

    /// The pool after `endpoint`'s cell was handed out, and the cell: the one it has, or a new one.
    pub open spec fn leased(self, endpoint: Seq<char>) -> (PoolView, u64) {
        if self.channels.dom().contains(endpoint) {
            (self, self.channels[endpoint])
        } else {
            (
                PoolView {
                    channels: self.channels.insert(endpoint, self.next_cell),
                    next_cell: (self.next_cell + 1) as u64,
                    ..self
                },
                self.next_cell,
            )
        }
    }

    /// The pool after `endpoint`'s channel was dropped, where it still is the one of `cell`.
    pub open spec fn evicted(self, endpoint: Seq<char>, cell: u64) -> PoolView {
        if self.channels.dom().contains(endpoint) && self.channels[endpoint] == cell {
            PoolView { channels: self.channels.remove(endpoint), ..self }
        } else {
            self
        }
    }
}

impl View for ChannelPool {
    type V = PoolView;

    closed spec fn view(&self) -> PoolView {
        PoolView {
            configured: text::views(self.configured@),
            channels: self.channels@,
            leader: match self.leader {
                Some(cached) => Some(cached@),
                None => None,
            },
            connector: self.connector,
            tls_required: self.tls_required,
            retry_policy: self.retry_policy,
            next_cell: self.next_cell,
        }
    }
}

impl ChannelPool {
    /// The pool holds one cell per endpoint, and every cell it holds was numbered by it.
    pub closed spec fn wf(&self) -> bool {
        &&& self.channels.wf()
        &&& forall|e: Seq<char>| #[trigger]
            self.channels@.dom().contains(e) ==> self.channels@[e] < self.next_cell
    }

    /// In a pool, a cell's number is below the number that the next new cell gets.
    pub proof fn law_cells_are_numbered(&self)
        requires
            self.wf(),
        ensures
            forall|e: Seq<char>| #[trigger]
                self@.channels.dom().contains(e) ==> self@.channels[e] < self@.next_cell,
    {
    }

    /// A pool for the given endpoints.
    pub fn new(
        endpoints: Vec<String>,
        connector: Connector,
        tls_required: bool,
        retry_policy: RetryPolicy,
    ) -> (r: ChannelPool)
        ensures
            r.wf(),
            r@ == (PoolView {
                configured: text::views(endpoints@),
                channels: Map::empty(),
                leader: None,
                connector,
                tls_required,
                retry_policy,
                next_cell: 0,
            }),
    {
        ChannelPool {
            configured: endpoints,
            channels: EndpointMap::new(),
            leader: None,
            connector,
            tls_required,
            retry_policy,
            next_cell: 0,
        }
    }

    /// True where the built-in TLS transport is in use.
    pub fn tls_required(&self) -> (r: bool)
        ensures
            r == self@.tls_required,
    {
        self.tls_required
    }

    /// The policy the pool was built with.
    pub fn retry_policy(&self) -> (r: &RetryPolicy)
        ensures
            *r == self@.retry_policy,
    {
        &self.retry_policy
    }

    /// The endpoint cached as leader, or `None` where none is or its entry has aged past
    /// `leader_ttl`.
    pub fn cached_leader(&self, now: Instant) -> (r: Option<String>)
        ensures
            match r {
                Some(endpoint) => self@.fresh_endpoint(now@) == Some(endpoint@),
                None => self@.fresh_endpoint(now@) is None,
            },
    {
        match self.fresh_leader(now) {
            Some(cached) => Some(cached.endpoint),
            None => None,
        }
    }

    /// The whole cache entry while it is fresh.
    pub fn fresh_leader(&self, now: Instant) -> (r: Option<CachedLeader>)
        ensures
            match r {
                Some(cached) => self@.leader == Some(cached@) && channel_pool::is_fresh(
                    cached@,
                    now@,
                    self@.retry_policy.leader_ttl@,
                ),
                None => self@.fresh_endpoint(now@) is None,
            },
    {
        match &self.leader {
            Some(cached) => {
                if now.saturating_since(&cached.last_used).is_shorter_than(
                    &self.retry_policy.leader_ttl,
                ) {
                    Some(cached.clone())
                } else {
                    None
                }
            },
            None => None,
        }
    }

    /// Records an RPC that succeeded against `endpoint` and saw the leader at `epoch`.
    pub fn record_success(&mut self, endpoint: &str, epoch: u128, now: Instant)
        requires
            old(self).wf(),
        ensures
            final(self).wf(),
            final(self)@ == old(self)@.after_success(endpoint@, epoch, now@),
    {
        let named = String::from_str(endpoint);
        let mut merged: u128 = epoch;
        match &self.leader {
            Some(cached) => {
                if cached.endpoint == named {
                    if let Some(current) = cached.epoch {
                        if current >= epoch {
                            merged = current;
                        }
                    }
                } else if now.saturating_since(&cached.last_used).is_shorter_than(
                    &self.retry_policy.leader_ttl,
                ) {
                    if let Some(current) = cached.epoch {
                        if epoch < current {
                            return ;
                        }
                    }
                }
            },
            None => {},
        }
        self.leader = Some(CachedLeader { endpoint: named, epoch: Some(merged), last_used: now });
    }

    /// Seats a hinted leader where [`hint_accepted`] lets it, and tells whether it did.
    pub fn compare_and_set_leader(
        &mut self,
        endpoint: String,
        epoch: Option<u128>,
        now: Instant,
    ) -> (r: bool)
        requires
            old(self).wf(),
        ensures
            final(self).wf(),
            (final(self)@, r) == old(self)@.after_hint(endpoint@, epoch, now@),
    {
        let mut accept: bool = true;
        match &self.leader {
            Some(cached) => {
                if now.saturating_since(&cached.last_used).is_shorter_than(
                    &self.retry_policy.leader_ttl,
                ) {
                    accept = match (cached.epoch, epoch) {
                        (Some(known), Some(hinted)) => hinted >= known,
                        (Some(_), None) => position_of(&self.configured, &endpoint).is_some(),
                        (None, _) => true,
                    };
                }
            },
            None => {},
        }
        if accept {
            self.leader = Some(CachedLeader { endpoint, epoch, last_used: now });
        }
        accept
    }

    /// What to open for an endpoint that has no channel.
    pub fn dial_plan(&self, endpoint: &str) -> (r: DialPlan)
        ensures
            match self@.connector {
                Connector::Plaintext => r matches DialPlan::BuiltIn(uri) && uri@
                    == transport::normalized(endpoint@, false),
                Connector::Tls => r matches DialPlan::BuiltIn(uri) && uri@
                    == transport::normalized(endpoint@, true),
                Connector::Custom => r matches DialPlan::Custom(raw) && raw@ == endpoint@,
            },
    {
        match self.connector {
            Connector::Plaintext => DialPlan::BuiltIn(normalize_uri(endpoint, false)),
            Connector::Tls => DialPlan::BuiltIn(normalize_uri(endpoint, true)),
            Connector::Custom => DialPlan::Custom(String::from_str(endpoint)),
        }
    }

    /// What to open for an endpoint that has no channel, or that its URI cannot be read.
    pub fn dial_target(&self, endpoint: &str) -> (r: Result<DialPlan, ClientError>)
        ensures
            match self@.connector {
                Connector::Custom => r matches Ok(DialPlan::Custom(raw)) && raw@ == endpoint@,
                _ => {
                    let uri = transport::normalized(endpoint@, self@.connector == Connector::Tls);
                    if transport::is_uri(uri) {
                        r matches Ok(DialPlan::BuiltIn(target)) && target@ == uri
                    } else {
                        r matches Err(error) && error@ == ErrorView::InvalidEndpoint(endpoint@)
                    }
                },
            },
    {
        let plan = self.dial_plan(endpoint);
        let readable: bool = match &plan {
            DialPlan::BuiltIn(uri) => parses_as_endpoint(uri.as_str()),
            DialPlan::Custom(_) => true,
        };
        plan.judged(endpoint, readable)
    }

    /// True where `endpoint`'s cell can be handed out: it has one, or a new one can still be
    /// numbered.
    pub fn can_lease(&self, endpoint: &str) -> (r: bool)
        requires
            self.wf(),
        ensures
            r == self@.can_lease(endpoint@),
    {
        self.next_cell < u64::MAX || self.channels.get(&String::from_str(endpoint)).is_some()
    }

    /// Hands out the cell of `endpoint`'s channel, opening a new one on first use.
    pub fn client_with_cell(&mut self, endpoint: &str) -> (r: u64)
        requires
            old(self).wf(),
            old(self)@.can_lease(endpoint@),
        ensures
            final(self).wf(),
            (final(self)@, r) == old(self)@.leased(endpoint@),
    {
        let named = String::from_str(endpoint);
        match self.channels.get(&named) {
            Some(cell) => cell,
            None => {
                let cell: u64 = self.next_cell;
                self.channels.insert(named, cell);
                self.next_cell = cell + 1;
                cell
            },
        }
    }

    /// Drops `endpoint`'s channel while it still is the one of `cell`.
    pub fn evict_if_current(&mut self, endpoint: &str, cell: u64)
        requires
            old(self).wf(),
        ensures
            final(self).wf(),
            final(self)@ == old(self)@.evicted(endpoint@, cell),
    {
        let named = String::from_str(endpoint);
        match self.channels.get(&named) {
            Some(current) => {
                if current == cell {
                    self.channels.remove(&named);
                }
            },
            None => {},
        }
    }

    /// Ends the dial of `endpoint`'s channel for the caller that holds `cell`: a dial that failed
    /// gives the cell up and hands its error on.
    pub fn dialed<C>(
        &mut self,
        endpoint: &str,
        cell: u64,
        outcome: Result<C, ClientError>,
    ) -> (r: Result<(C, u64), ClientError>)
        requires
            old(self).wf(),
        ensures
            final(self).wf(),
            match outcome {
                Ok(channel) => r == Ok::<(C, u64), ClientError>((channel, cell)) && final(self)@
                    == old(self)@,
                Err(error) => r == Err::<(C, u64), ClientError>(error) && final(self)@
                    == old(self)@.evicted(endpoint@, cell),
            },
    {
        match outcome {
            Ok(channel) => Ok((channel, cell)),
            Err(error) => {
                self.evict_if_current(endpoint, cell);
                Err(error)
            },
        }
    }

    /// The order in which a call dials: the fresh cached leader first, then the configured
    /// endpoints in their order, without the leader.
    pub fn iter_round_robin(&self, now: Instant) -> (r: Vec<String>)
        ensures
            text::views(r@) == self@.dial_order(now@),
    {
        let leader = self.cached_leader(now);
        let mut endpoints: Vec<String> = Vec::new();
        let ghost named: Option<Seq<char>> = self@.fresh_endpoint(now@);
        let ghost head: Seq<Seq<char>> = match named {
            Some(endpoint) => seq![endpoint],
            None => Seq::empty(),
        };
        if let Some(endpoint) = &leader {
            endpoints.push(endpoint.clone());
        }
        assert(text::views(endpoints@) =~= head);
        let ghost conf = self@.configured;
        let ghost wanted = |e: Seq<char>| named != Some(e);
        let mut k: usize = 0;
        assert(conf.take(0).filter(wanted) =~= Seq::empty()) by {
            reveal(Seq::filter);
        }
        assert(head + conf.take(0).filter(wanted) =~= head);
        while k < self.configured.len()
            invariant
                k <= self.configured.len(),
                conf == text::views(self.configured@),
                wanted == (|e: Seq<char>| named != Some(e)),
                match leader {
                    Some(endpoint) => named == Some(endpoint@),
                    None => named is None,
                },
                text::views(endpoints@) == head + conf.take(k as int).filter(wanted),
            decreases self.configured.len() - k,
        {
            let endpoint = self.configured[k].clone();
            let ghost prefix = conf.take(k as int);
            proof {
                assert(conf.take(k + 1) =~= prefix.push(endpoint@));
                assert(prefix.push(endpoint@).drop_last() =~= prefix);
                reveal(Seq::filter);
            }
            let is_leader: bool = match &leader {
                Some(l) => *l == endpoint,
                None => false,
            };
            if !is_leader {
                proof {
                    text::lemma_views_push(endpoints@, endpoint);
                    assert(head + prefix.filter(wanted).push(endpoint@) =~= (head + prefix.filter(
                        wanted,
                    )).push(endpoint@));
                }
                endpoints.push(endpoint);
            }
            k = k + 1;
        }
        assert(conf.take(k as int) =~= conf);
        endpoints
    }
}

/// While a leader cached at a known epoch is fresh, neither writer lowers that epoch; only an
/// epoch-less hint to a configured endpoint replaces it without naming one.
pub proof fn law_fresh_epoch_never_lowered(
    pool: PoolView,
    endpoint: Seq<char>,
    success: u128,
    hint: Option<u128>,
    now: nat,
)
    requires
        pool.leader is Some,
        pool.leader->0.epoch is Some,
        channel_pool::is_fresh(pool.leader->0, now, pool.retry_policy.leader_ttl@),
    ensures
        ({
            let floor = pool.leader->0.epoch->0;
            let confirmed = pool.after_success(endpoint, success, now).leader->0;
            let (hinted, accepted) = pool.after_hint(endpoint, hint, now);
            &&& confirmed.epoch is Some && confirmed.epoch->0 >= floor
            &&& match hinted.leader->0.epoch {
                Some(kept) => kept >= floor,
                None => accepted && hint is None && pool.configured.contains(endpoint),
            }
        }),
{
}

/// An absent or expired entry sets no floor for either writer.
pub proof fn law_expired_entry_sets_no_floor(
    pool: PoolView,
    endpoint: Seq<char>,
    success: u128,
    hint: Option<u128>,
    now: nat,
)
    requires
        pool.fresh_endpoint(now) is None,
        pool.leader is Some ==> pool.leader->0.endpoint != endpoint,
    ensures
        pool.after_success(endpoint, success, now).leader == Some(
            LeaderView { endpoint, epoch: Some(success), last_used: now },
        ),
        pool.after_hint(endpoint, hint, now).1,
        pool.after_hint(endpoint, hint, now).0.leader == Some(
            LeaderView { endpoint, epoch: hint, last_used: now },
        ),
{
}

/// Of two hints that arrive while the first is fresh, the one with the higher epoch ends up
/// seated, in whichever order they arrive, unless the cache already knew a higher epoch than both.
pub proof fn law_higher_epoch_hint_wins(
    pool: PoolView,
    low_endpoint: Seq<char>,
    low: u128,
    high_endpoint: Seq<char>,
    high: u128,
    first: nat,
    second: nat,
)
    requires
        low_endpoint != high_endpoint,
        low < high,
        first <= second,
        second - first < pool.retry_policy.leader_ttl@,
        pool.leader is Some && pool.leader->0.epoch is Some ==> pool.leader->0.epoch->0 <= high,
    ensures
        pool.after_hint(low_endpoint, Some(low), first).0.after_hint(
            high_endpoint,
            Some(high),
            second,
        ).0.fresh_endpoint(second) == Some(high_endpoint),
        pool.after_hint(high_endpoint, Some(high), first).0.after_hint(
            low_endpoint,
            Some(low),
            second,
        ).0.fresh_endpoint(second) == Some(high_endpoint),
{
}

/// As long as an endpoint's channel is not dropped, every caller that asks for it gets the one
/// cell, whoever asks for other channels in between; and dropping another channel leaves it alone.
pub proof fn law_one_cell_until_dropped(
    pool: PoolView,
    endpoint: Seq<char>,
    other: Seq<char>,
    cell: u64,
)
    requires
        pool.channels.dom().contains(endpoint),
    ensures
        pool.leased(endpoint) == (pool, pool.channels[endpoint]),
        pool.leased(other).0.leased(endpoint).1 == pool.channels[endpoint],
        other != endpoint ==> pool.evicted(other, cell).leased(endpoint).1
            == pool.channels[endpoint],
{
}

/// A dial that fails leaves nothing behind: the channels are those from before, and whoever asks
/// for the endpoint next gets a new cell, and so dials again.
pub proof fn law_failed_dial_leaves_nothing(pool: PoolView, endpoint: Seq<char>)
    requires
        !pool.channels.dom().contains(endpoint),
        pool.next_cell < u64::MAX,
    ensures
        ({
            let (handed, cell) = pool.leased(endpoint);
            let after = handed.evicted(endpoint, cell);
            &&& after.channels == pool.channels
            &&& after.leased(endpoint).1 != cell
        }),
{
    let (handed, cell) = pool.leased(endpoint);
    assert(handed.evicted(endpoint, cell).channels =~= pool.channels);
}

/// Once a cell was dropped, the endpoint's next cell has another number, so that a late failure of
/// the old connection cannot take the new one down.
pub proof fn law_late_failure_spares_new_cell(pool: PoolView, endpoint: Seq<char>)
    requires
        pool.channels.dom().contains(endpoint),
        pool.channels[endpoint] < pool.next_cell,
        pool.next_cell < u64::MAX,
    ensures
        ({
            let stale = pool.channels[endpoint];
            let (after, fresh_cell) = pool.evicted(endpoint, stale).leased(endpoint);
            &&& fresh_cell != stale
            &&& after.evicted(endpoint, stale) == after
        }),
{
}

/// A pool that was just built holds what it was given: no channel is open and no leader believed in.
pub proof fn law_a_pool_starts_as_given(
    endpoints: Vec<String>,
    connector: Connector,
    tls_required: bool,
    policy: RetryPolicy,
    pool: ChannelPool,
    tells_tls: bool,
    tells_policy: &RetryPolicy,
)
    requires
        call_ensures(ChannelPool::new, (endpoints, connector, tls_required, policy), pool),
        call_ensures(ChannelPool::tls_required, (&pool,), tells_tls),
        call_ensures(ChannelPool::retry_policy, (&pool,), tells_policy),
    ensures
        pool@.configured == text::views(endpoints@),
        pool@.connector == connector,
        pool@.tls_required == tls_required && tells_tls == tls_required,
        pool@.retry_policy == policy && *tells_policy == policy,
        pool@.leader is None,
        forall|e: Seq<char>| !(#[trigger] pool@.channels.dom().contains(e)),
{
}

/// A pool names a leader exactly while its entry is younger than the time to live, and hands the
/// whole entry out then.
pub proof fn law_a_leader_is_named_while_fresh(
    pool: ChannelPool,
    now: Instant,
    named: Option<String>,
    entry: Option<CachedLeader>,
)
    requires
        call_ensures(ChannelPool::cached_leader, (&pool, now), named),
        call_ensures(ChannelPool::fresh_leader, (&pool, now), entry),
    ensures
        ({
            let fresh = pool@.leader is Some && attempt_laws::still_fresh(
                pool@.leader->0,
                pool@.retry_policy.leader_ttl@,
                now@,
            );
            &&& named is Some <==> fresh
            &&& entry is Some <==> fresh
            &&& named matches Some(endpoint) ==> endpoint@ == pool@.leader->0.endpoint
            &&& entry matches Some(cached) ==> Some(cached@) == pool@.leader
        }),
{
}

/// True where the two pools differ in the leader at most.
pub open spec fn same_but_leader(before: PoolView, after: PoolView) -> bool {
    after == (PoolView { leader: after.leader, ..before })
}

/// A success is noted: the pool believes in its endpoint as of now, at its epoch, or at the higher
/// one that it knew of that endpoint already. Only a fresh leader elsewhere, of a known higher epoch,
/// stays as it is.
pub proof fn law_a_success_is_noted(
    pool: &mut ChannelPool,
    endpoint: &str,
    epoch: u128,
    now: Instant,
)
    requires
        call_ensures(ChannelPool::record_success, (pool, endpoint, epoch, now), ()),
    ensures
        same_but_leader(old(pool)@, final(pool)@),
        final(pool)@.leader is Some,
        ({
            let known = old(pool)@.leader;
            let noted = final(pool)@.leader->0;
            let same = known is Some && known->0.endpoint == endpoint@;
            let kept = known is Some && !same && known->0.epoch is Some && known->0.epoch->0
                > epoch && attempt_laws::still_fresh(
                known->0,
                old(pool)@.retry_policy.leader_ttl@,
                now@,
            );
            &&& kept ==> Some(noted) == known
            &&& !kept ==> noted.endpoint == endpoint@ && noted.last_used == now@
                && noted.epoch is Some && noted.epoch->0 >= epoch
            &&& !kept && same && known->0.epoch is Some ==> noted.epoch->0 >= known->0.epoch->0
                && (noted.epoch->0 == epoch || noted.epoch == known->0.epoch)
            &&& !kept && !(same && known->0.epoch is Some) ==> noted.epoch->0 == epoch
        }),
{
}

/// A hint is taken, as it is, unless the pool freshly believes in a leader of a known epoch and the
/// hint is of a lower one, or of none and not to a configured endpoint. A hint that is not taken
/// changes nothing.
pub proof fn law_which_hints_are_taken(
    pool: &mut ChannelPool,
    endpoint: String,
    epoch: Option<u128>,
    now: Instant,
    taken: bool,
)
    requires
        call_ensures(ChannelPool::compare_and_set_leader, (pool, endpoint, epoch, now), taken),
    ensures
        ({
            let known = old(pool)@.leader;
            let floor = known is Some && known->0.epoch is Some && attempt_laws::still_fresh(
                known->0,
                old(pool)@.retry_policy.leader_ttl@,
                now@,
            );
            let refused = floor && match epoch {
                Some(hinted) => hinted < known->0.epoch->0,
                None => !old(pool)@.configured.contains(endpoint@),
            };
            &&& taken <==> !refused
            &&& !taken ==> final(pool)@ == old(pool)@
            &&& taken ==> same_but_leader(old(pool)@, final(pool)@) && final(pool)@.leader == Some(
                LeaderView { endpoint: endpoint@, epoch, last_used: now@ },
            )
        }),
{
}

/// A cell that is handed out: the endpoint's own where it has one, else a new one, numbered behind
/// all others. Every other channel stays as it was, and the pool is otherwise unchanged. It can be
/// handed out where the endpoint has one or the numbers are not used up.
pub proof fn law_a_cell_is_handed_out(
    pool: &mut ChannelPool,
    endpoint: &str,
    cell: u64,
    possible: bool,
)
    requires
        call_ensures(ChannelPool::can_lease, (&*old(pool), endpoint), possible),
        old(pool)@.next_cell < u64::MAX,
        call_ensures(ChannelPool::client_with_cell, (pool, endpoint), cell),
    ensures
        possible,
        ({
            let before = old(pool)@;
            let after = final(pool)@;
            let had = before.channels.dom().contains(endpoint@);
            &&& had ==> cell == before.channels[endpoint@] && after == before
            &&& !had ==> cell == before.next_cell && after.next_cell == before.next_cell + 1
            &&& after.channels.dom().contains(endpoint@) && after.channels[endpoint@] == cell
            &&& forall|e: Seq<char>|
                e != endpoint@ ==> (#[trigger] after.channels.dom().contains(e)
                    <==> before.channels.dom().contains(e)) && (before.channels.dom().contains(e)
                    ==> after.channels[e] == before.channels[e])
            &&& after == (PoolView {
                channels: after.channels,
                next_cell: after.next_cell,
                ..before
            })
        }),
{
}

/// An endpoint's cell can be handed out exactly where it has one or the numbers are not used up.
pub proof fn law_which_cells_can_be_handed_out(
    pool: ChannelPool,
    endpoint: &str,
    possible: bool,
)
    requires
        call_ensures(ChannelPool::can_lease, (&pool, endpoint), possible),
    ensures
        possible <==> pool@.channels.dom().contains(endpoint@) || pool@.next_cell < u64::MAX,
{
}

/// True where the endpoint's channel went, if it was the one of this cell, and nothing else changed.
pub open spec fn channel_dropped(
    before: PoolView,
    after: PoolView,
    endpoint: Seq<char>,
    cell: u64,
) -> bool {
    &&& after == (PoolView { channels: after.channels, ..before })
    &&& forall|e: Seq<char>|
        (#[trigger] after.channels.dom().contains(e)) <==> before.channels.dom().contains(e) && !(e
            == endpoint && before.channels[e] == cell)
    &&& forall|e: Seq<char>| #[trigger]
        after.channels.dom().contains(e) ==> after.channels[e] == before.channels[e]
}

/// A channel is dropped exactly where it is the one of the cell that failed: on its own, and at the
/// end of a dial that failed, which hands its error on; a dial that succeeded hands its channel and
/// cell on and drops nothing.
pub proof fn law_a_channel_goes_with_its_cell<C>(
    pool: &mut ChannelPool,
    ended: &mut ChannelPool,
    endpoint: &str,
    cell: u64,
    outcome: Result<C, ClientError>,
    result: Result<(C, u64), ClientError>,
)
    requires
        call_ensures(ChannelPool::evict_if_current, (pool, endpoint, cell), ()),
        call_ensures(ChannelPool::dialed::<C>, (ended, endpoint, cell, outcome), result),
    ensures
        channel_dropped(old(pool)@, final(pool)@, endpoint@, cell),
        outcome matches Ok(channel) ==> result == Ok::<(C, u64), ClientError>((channel, cell))
            && final(ended)@ == old(ended)@,
        outcome matches Err(error) ==> result == Err::<(C, u64), ClientError>(error)
            && channel_dropped(old(ended)@, final(ended)@, endpoint@, cell),
{
}

/// What a pool opens for an endpoint. The caller's own connector gets the endpoint as it is. The
/// built-in transport opens the endpoint where it names its scheme, else the endpoint behind
/// `https://` or `http://`, as the pool was built; and where that is no URI it opens nothing and
/// names the endpoint as it was given.
pub proof fn law_what_a_pool_opens(
    pool: ChannelPool,
    endpoint: &str,
    plan: DialPlan,
    target: Result<DialPlan, ClientError>,
)
    requires
        call_ensures(ChannelPool::dial_plan, (&pool, endpoint), plan),
        call_ensures(ChannelPool::dial_target, (&pool, endpoint), target),
    ensures
        match plan {
            DialPlan::Custom(raw) => {
                &&& pool@.connector == Connector::Custom && raw@ == endpoint@
                &&& target matches Ok(DialPlan::Custom(given)) && given@ == endpoint@
            },
            DialPlan::BuiltIn(uri) => {
                &&& pool@.connector != Connector::Custom
                &&& pool_laws::opens(pool@.connector, endpoint@, uri@)
                &&& transport::is_uri(uri@) ==> (target matches Ok(DialPlan::BuiltIn(given))
                    && given@ == uri@)
                &&& !transport::is_uri(uri@) ==> (target matches Err(error) && error@
                    == ErrorView::InvalidEndpoint(endpoint@))
            },
        },
{
}

/// A call dials the leader that the pool freshly believes in first, and then the configured
/// endpoints but for it, in their order.
pub proof fn law_the_order_in_which_a_call_dials(
    pool: ChannelPool,
    now: Instant,
    order: Vec<String>,
)
    requires
        call_ensures(ChannelPool::iter_round_robin, (&pool, now), order),
    ensures
        ({
            let fresh = pool@.leader is Some && attempt_laws::still_fresh(
                pool@.leader->0,
                pool@.retry_policy.leader_ttl@,
                now@,
            );
            &&& fresh ==> text::views(order@) == seq![pool@.leader->0.endpoint]
                + pool@.configured.filter(|e: Seq<char>| e != pool@.leader->0.endpoint)
            &&& !fresh ==> text::views(order@) == pool@.configured
        }),
{
    let leader = pool@.fresh_endpoint(now@);
    let rest = |e: Seq<char>| leader != Some(e);
    match leader {
        Some(named) => {
            assert(rest =~= (|e: Seq<char>| e != named));
        },
        None => {
            pool_laws::lemma_filter_all(pool@.configured, rest);
            assert(Seq::<Seq<char>>::empty() + pool@.configured =~= pool@.configured);
        },
    }
}

} // verus!
