//! Building a client, and what its calls check and decide before and after the network.
use vstd::prelude::*;
use vstd::string::*;

use crate::attempt;
use crate::attempt::rpc_timeout_error;
use crate::channel_pool;
use crate::channel_pool::{ChannelPool, Connector, PoolView};
use crate::driver;
use crate::driver::Waiter;
use crate::error::{ClientError, ErrorView};
use crate::response::MAX_TIMESTAMPS_PER_RPC;
use crate::retry::{RetryLoop, RetryView};
use crate::retry_policy;
use crate::retry_policy::{is_transport_failure, RetryPolicy};
use crate::status::Status;
use crate::text;
use crate::time::{Duration, Instant};
use crate::timestamp;
use crate::timestamp::Epoch;

verus! {

/// What a client is built from.
#[derive(Debug)]
pub struct ClientBuilder {
    endpoints: Vec<String>,
    flush_interval: Duration,
    connector: Connector,
    tls_required: bool,
    retry_policy: RetryPolicy,
}

/// What a [`ClientBuilder`] holds.
#[verifier::ext_equal]
pub struct BuilderView {
    pub endpoints: Seq<Seq<char>>,
    pub flush_interval: nat,
    pub connector: Connector,
    pub tls_required: bool,
    pub retry_policy: RetryPolicy,
}

impl BuilderView {
    /// The builder after TLS was asked for.
    pub open spec fn with_tls(self) -> BuilderView {
        BuilderView { connector: Connector::Tls, tls_required: true, ..self }
    }

    /// The builder after a connector of the caller's own was asked for.
    pub open spec fn with_custom_connector(self) -> BuilderView {
        BuilderView { connector: Connector::Custom, tls_required: false, ..self }
    }
}

impl View for ClientBuilder {
    type V = BuilderView;

    closed spec fn view(&self) -> BuilderView {
        BuilderView {
            endpoints: text::views(self.endpoints@),
            flush_interval: self.flush_interval@,
            connector: self.connector,
            tls_required: self.tls_required,
            retry_policy: self.retry_policy,
        }
    }
}

impl ClientBuilder {
    /// A client of the given endpoints: plaintext transport, a flush interval of one millisecond,
    /// and the default policy.
    pub fn endpoints(endpoints: Vec<String>) -> (r: ClientBuilder)
        ensures
            r@.endpoints == text::views(endpoints@),
            r@.flush_interval == 1_000_000,
            r@.connector == Connector::Plaintext,
            !r@.tls_required,
            r@.retry_policy.is_default(),
    {
        ClientBuilder {
            endpoints,
            flush_interval: Duration::from_millis(1),
            connector: Connector::Plaintext,
            tls_required: false,
            retry_policy: RetryPolicy::default(),
        }
    }

    /// Sets how long requests are gathered before they go out together.
    pub fn batch_flush_interval(self, flush_interval: Duration) -> (r: ClientBuilder)
        ensures
            r@ == (BuilderView { flush_interval: flush_interval@, ..self@ }),
    {
        ClientBuilder { flush_interval, ..self }
    }

    /// Sets the retry policy.
    pub fn retry_policy(self, policy: RetryPolicy) -> (r: ClientBuilder)
        ensures
            r@ == (BuilderView { retry_policy: policy, ..self@ }),
    {
        ClientBuilder { retry_policy: policy, ..self }
    }

    /// Dials bare endpoints over TLS and refuses plaintext leader hints off the wire. A later
    /// [`ClientBuilder::channel_connector`] takes this back.
    pub fn tls_config(self) -> (r: ClientBuilder)
        ensures
            r@ == self@.with_tls(),
    {
        ClientBuilder { connector: Connector::Tls, tls_required: true, ..self }
    }

    /// Opens channels with the caller's own connector, which then owns the scheme policy too. A
    /// later [`ClientBuilder::tls_config`] takes this back.
    pub fn channel_connector(self) -> (r: ClientBuilder)
        ensures
            r@ == self@.with_custom_connector(),
    {
        ClientBuilder { connector: Connector::Custom, tls_required: false, ..self }
    }

    /// Builds the client. Without an endpoint there is nothing a call could try, so that is refused
    /// here.
    pub fn build(self) -> (r: Result<Client, ClientError>)
        ensures
            match r {
                Ok(client) => {
                    &&& self@.endpoints.len() > 0
                    &&& client.wf()
                    &&& client@.flush_interval == self@.flush_interval
                    &&& client@.pool == channel_pool::pool_start(
                        self@.endpoints,
                        self@.connector,
                        self@.tls_required,
                        self@.retry_policy,
                        client@.pool.rotation,
                    )
                    &&& channel_pool::drawn_at_random(client@.pool.rotation)
                },
                Err(error) => self@.endpoints.len() == 0 && error@
                    == ErrorView::NoReachableEndpoints,
            },
    {
        if self.endpoints.is_empty() {
            return Err(ClientError::NoReachableEndpoints);
        }
        let pool = ChannelPool::new(
            self.endpoints,
            self.connector,
            self.tls_required,
            self.retry_policy,
        );
        Ok(Client { pool, flush_interval: self.flush_interval })
    }
}

/// A client: its pool, and how long it gathers requests.
pub struct Client {
    pool: ChannelPool,
    flush_interval: Duration,
}

/// What a [`Client`] holds.
#[verifier::ext_equal]
pub struct ClientView {
    pub pool: PoolView,
    pub flush_interval: nat,
}

impl View for Client {
    type V = ClientView;

    closed spec fn view(&self) -> ClientView {
        ClientView { pool: self.pool@, flush_interval: self.flush_interval@ }
    }
}

/// Bounds on a request for a dense block.
#[derive(Clone, Copy, Debug, PartialEq, Eq, Structural)]
pub struct SeqLimits {
    /// Longest key, in bytes.
    pub max_key_len: usize,
    /// Largest count.
    pub max_count: u32,
}

/// What is wrong with a request for a dense block; the key is looked at first.
pub open spec fn seq_request_fault(key: &str, count: u32, limits: SeqLimits) -> Option<ErrorView> {
    if key@.len() == 0 || key.len() > limits.max_key_len {
        Some(ErrorView::InvalidSeqKey)
    } else if count == 0 || count > limits.max_count {
        Some(ErrorView::InvalidCount(count))
    } else {
        None
    }
}

/// The leader's view of the durable safe point.
#[derive(Clone, Copy, Debug, PartialEq, Eq, Structural)]
pub struct MaxSafe {
    /// Safe point in milliseconds; zero before there is one, and from every follower.
    pub max_safe_physical_ms: u64,
    /// Leader epoch that issued this view.
    pub epoch: Epoch,
}

/// How the RPC phase of a safe-point request ended.
#[derive(Debug)]
pub enum MaxSafeReply {
    /// The server answered.
    Answer { max_safe_physical_ms: u64, epoch_hi: u64, epoch_lo: u64 },
    /// The call ended with this status.
    Refused(Status),
    /// The call took longer than what the connect phase left of the budget.
    TimedOut,
}

/// The pool and the result after a safe-point request over the channel of `cell`; `timeout` is the
/// error of a call that timed out. One attempt, no retry: a transport failure drops the channel.
pub open spec fn max_safe_judged(
    pool: PoolView,
    endpoint: Seq<char>,
    cell: u64,
    reply: MaxSafeReply,
    timeout: ErrorView,
) -> (PoolView, Result<MaxSafe, ErrorView>) {
    match reply {
        MaxSafeReply::Answer { max_safe_physical_ms, epoch_hi, epoch_lo } => (
            pool,
            Ok(
                MaxSafe {
                    max_safe_physical_ms,
                    epoch: Epoch(timestamp::epoch_of(epoch_hi, epoch_lo)),
                },
            ),
        ),
        MaxSafeReply::Refused(status) => max_safe_failed(
            pool,
            endpoint,
            cell,
            ErrorView::Rpc(status@),
        ),
        MaxSafeReply::TimedOut => max_safe_failed(pool, endpoint, cell, timeout),
    }
}

/// The pool and the result after a safe-point request that failed.
pub open spec fn max_safe_failed(
    pool: PoolView,
    endpoint: Seq<char>,
    cell: u64,
    error: ErrorView,
) -> (PoolView, Result<MaxSafe, ErrorView>) {
    (
        if retry_policy::transport_failure(error) {
            pool.evicted(endpoint, cell)
        } else {
            pool
        },
        Err(error),
    )
}

impl Client {
    /// The client's pool is sound.
    pub closed spec fn wf(&self) -> bool {
        self.pool.wf()
    }

    /// A client of the given endpoints with default settings.
    pub fn connect(endpoints: Vec<String>) -> (r: Result<Client, ClientError>)
        ensures
            match r {
                Ok(client) => {
                    &&& endpoints@.len() > 0
                    &&& client.wf()
                    &&& client@.flush_interval == 1_000_000
                    &&& client@.pool == channel_pool::pool_start(
                        text::views(endpoints@),
                        Connector::Plaintext,
                        false,
                        client@.pool.retry_policy,
                        client@.pool.rotation,
                    )
                    &&& client@.pool.retry_policy.is_default()
                    &&& channel_pool::drawn_at_random(client@.pool.rotation)
                },
                Err(error) => endpoints@.len() == 0 && error@ == ErrorView::NoReachableEndpoints,
            },
    {
        assert(text::views(endpoints@).len() == endpoints@.len());
        ClientBuilder::endpoints(endpoints).build()
    }

    /// The pool, to run attempts over.
    pub fn pool(&self) -> (r: &ChannelPool)
        requires
            self.wf(),
        ensures
            r.wf(),
            r@ == self@.pool,
    {
        &self.pool
    }

    /// Takes the client apart into its pool and its flush interval.
    pub fn into_parts(self) -> (r: (ChannelPool, Duration))
        requires
            self.wf(),
        ensures
            r.0.wf(),
            r.0@ == self@.pool,
            r.1@ == self@.flush_interval,
    {
        (self.pool, self.flush_interval)
    }

    /// The endpoint the client believes to lead, while that belief is fresh.
    pub fn cached_leader(&self, now: Instant) -> (r: Option<String>)
        ensures
            match r {
                Some(endpoint) => self@.pool.fresh_endpoint(now@) == Some(endpoint@),
                None => self@.pool.fresh_endpoint(now@) is None,
            },
    {
        self.pool.cached_leader(now)
    }

    /// The request for one timestamp, to be queued.
    pub fn get_ts<R>(respond: R) -> (r: Waiter<R>)
        ensures
            r == (Waiter { count: 1, respond }),
            driver::servable(r.count),
    {
        Waiter { count: 1, respond }
    }

    /// The request for `count` timestamps, to be queued; refused where no RPC could serve it.
    pub fn get_ts_batch<R>(count: u32, respond: R) -> (r: Result<Waiter<R>, ClientError>)
        ensures
            match r {
                Ok(waiter) => driver::servable(count) && waiter == (Waiter { count, respond }),
                Err(error) => !driver::servable(count) && error@ == ErrorView::InvalidCount(count),
            },
    {
        if count == 0 || count > MAX_TIMESTAMPS_PER_RPC {
            return Err(ClientError::InvalidCount(count));
        }
        Ok(Waiter { count, respond })
    }

    /// Starts the retry loop of a request for `count` of `key`; refused, without touching the pool,
    /// where the key or the count is out of bounds.
    pub fn get_seq(
        pool: &mut ChannelPool,
        key: &str,
        count: u32,
        limits: SeqLimits,
        now: Instant,
    ) -> (r: Result<RetryLoop, ClientError>)
        requires
            old(pool).wf(),
        ensures
            final(pool).wf(),
            match r {
                Ok(call) => {
                    &&& seq_request_fault(key, count, limits) is None
                    &&& call@ == RetryView::started(old(pool)@, now@)
                    &&& call@.inv()
                    &&& final(pool)@ == old(pool)@.rotated()
                },
                Err(error) => {
                    &&& seq_request_fault(key, count, limits) == Some(error@)
                    &&& final(pool)@ == old(pool)@
                },
            },
    {
        if key.is_empty() || key.len() > limits.max_key_len {
            return Err(ClientError::InvalidSeqKey);
        }
        if count == 0 || count > limits.max_count {
            return Err(ClientError::InvalidCount(count));
        }
        Ok(RetryLoop::start(pool, now))
    }

    /// Where a safe-point request goes: to the cached leader, else to the first configured endpoint;
    /// refused where there is none.
    pub fn get_current_max_safe(pool: &ChannelPool, now: Instant) -> (r: Result<
        String,
        ClientError,
    >)
        ensures
            match (pool@.fresh_endpoint(now@), r) {
                (Some(leader), Ok(endpoint)) => endpoint@ == leader,
                (None, Ok(endpoint)) => pool@.configured.len() > 0 && endpoint@
                    == pool@.configured[0],
                (None, Err(error)) => pool@.configured.len() == 0 && error@
                    == ErrorView::NoReachableEndpoints,
                (Some(_), Err(_)) => false,
            },
    {
        match pool.cached_leader(now) {
            Some(endpoint) => Ok(endpoint),
            None => match pool.first_configured() {
                Some(endpoint) => Ok(endpoint),
                None => Err(ClientError::NoReachableEndpoints),
            },
        }
    }

    /// Ends a safe-point request over the channel of `cell`, which had `rpc_budget` of `budget`.
    pub fn max_safe_replied(
        pool: &mut ChannelPool,
        endpoint: &str,
        cell: u64,
        reply: MaxSafeReply,
        rpc_budget: Duration,
        budget: Duration,
    ) -> (r: Result<MaxSafe, ClientError>)
        requires
            old(pool).wf(),
        ensures
            final(pool).wf(),
            ({
                let (after, judged) = max_safe_judged(
                    old(pool)@,
                    endpoint@,
                    cell,
                    reply,
                    attempt::rpc_timeout(rpc_budget@, budget@),
                );
                &&& final(pool)@ == after
                &&& match r {
                    Ok(safe) => judged == Ok::<MaxSafe, ErrorView>(safe),
                    Err(error) => judged == Err::<MaxSafe, ErrorView>(error@),
                }
            }),
    {
        let error = match reply {
            MaxSafeReply::Answer { max_safe_physical_ms, epoch_hi, epoch_lo } => {
                return Ok(
                    MaxSafe { max_safe_physical_ms, epoch: Epoch::from_wire(epoch_hi, epoch_lo) },
                );
            },
            MaxSafeReply::Refused(status) => ClientError::Rpc(status),
            MaxSafeReply::TimedOut => rpc_timeout_error(rpc_budget, budget),
        };
        if is_transport_failure(&error) {
            pool.evict_if_current(endpoint, cell);
        }
        Err(error)
    }
}

/// Of [`ClientBuilder::tls_config`] and [`ClientBuilder::channel_connector`] the last one called
/// wins, for the connector and for the refusal of plaintext hints alike.
pub proof fn law_last_connector_wins(builder: BuilderView)
    ensures
        builder.with_tls().with_custom_connector() == builder.with_custom_connector(),
        builder.with_custom_connector().with_tls() == builder.with_tls(),
{
}

} // verus!
