use tsoracle::channel_pool::{Connector, DialPlan};
use tsoracle::error::ClientError;
use tsoracle::leader_resolved::ChannelPool;
use tsoracle::retry_policy::RetryPolicy;
use tsoracle::time::{Duration, Instant};

fn start() -> Instant {
    Instant::at(Duration::from_secs(1_000))
}

fn at(now: Instant, millis: u64) -> Instant {
    let nanos = now.as_nanos() + millis as u128 * 1_000_000;
    Instant::at(Duration::from_nanos_saturating(nanos))
}

#[test]
fn leader_resolved_iter_starts_with_cached_leader() {
    let now = start();
    let mut pool = ChannelPool::new(
        vec!["a:1".into(), "b:1".into(), "c:1".into()],
        Connector::Plaintext,
        false,
        RetryPolicy::default(),
    );
    pool.record_success("b:1", 1, now);
    let order = pool.iter_round_robin(now);
    assert_eq!(order, vec!["b:1", "a:1", "c:1"]);
}

#[test]
fn iter_without_cache_is_configured_order() {
    let now = start();
    let mut pool = ChannelPool::new(
        vec!["a:1".into(), "b:1".into(), "c:1".into()],
        Connector::Plaintext,
        false,
        RetryPolicy::default(),
    );
    let order = pool.iter_round_robin(now);
    assert_eq!(order, vec!["a:1", "b:1", "c:1"]);
}

#[test]
fn leader_resolved_higher_epoch_hint_wins_regardless_of_arrival_order() {
    let now = start();
    for (first_endpoint, first_epoch, second_endpoint, second_epoch, winner) in [
        ("a:1", 7u128, "b:1", 5u128, "a:1"),
        ("a:1", 5u128, "b:1", 7u128, "b:1"),
    ] {
        let mut pool = ChannelPool::new(
            vec!["a:1".into(), "b:1".into()],
            Connector::Plaintext,
            false,
            RetryPolicy::default(),
        );
        pool.compare_and_set_leader(first_endpoint.into(), Some(first_epoch), now);
        pool.compare_and_set_leader(second_endpoint.into(), Some(second_epoch), now);
        assert_eq!(
            pool.cached_leader(now).as_deref(),
            Some(winner),
            "ordering {first_endpoint}@{first_epoch} then {second_endpoint}@{second_epoch}"
        );
    }
}

#[test]
fn leader_resolved_compare_and_set_leader_checks_and_writes_atomically() {
    let now = start();
    let mut pool = ChannelPool::new(
        vec!["a:1".into(), "b:1".into()],
        Connector::Plaintext,
        false,
        RetryPolicy::default(),
    );
    assert!(pool.compare_and_set_leader("a:1".into(), None, now));
    assert_eq!(pool.cached_leader(now).as_deref(), Some("a:1"));
    pool.record_success("b:1", 5, now);
    assert!(!pool.compare_and_set_leader("a:1".into(), Some(4), now));
    assert_eq!(pool.cached_leader(now).as_deref(), Some("b:1"));
    assert!(pool.compare_and_set_leader("a:1".into(), Some(5), now));
    assert_eq!(pool.cached_leader(now).as_deref(), Some("a:1"));
    assert!(pool.compare_and_set_leader("b:1".into(), Some(9), now));
    assert_eq!(pool.cached_leader(now).as_deref(), Some("b:1"));
    assert!(!pool.compare_and_set_leader("a:1".into(), Some(8), now));
    assert_eq!(pool.cached_leader(now).as_deref(), Some("b:1"));
    assert!(pool.compare_and_set_leader("a:1".into(), None, now));
    assert_eq!(pool.cached_leader(now).as_deref(), Some("a:1"));
}

#[test]
fn leader_resolved_unknown_epoch_offlist_hint_rejected_when_cache_fresh_known() {
    let now = start();
    let mut pool = ChannelPool::new(
        vec!["a:1".into(), "b:1".into()],
        Connector::Plaintext,
        false,
        RetryPolicy::default(),
    );
    pool.record_success("a:1", 9, now);
    assert!(!pool.compare_and_set_leader("attacker:1".into(), None, now));
    assert_eq!(
        pool.cached_leader(now).as_deref(),
        Some("a:1"),
        "an off-list epoch-less hint must not unseat a fresh known-epoch leader"
    );
}

#[test]
fn leader_resolved_unknown_epoch_configured_hint_accepted_when_cache_fresh_known() {
    let now = start();
    let mut pool = ChannelPool::new(
        vec!["a:1".into(), "b:1".into()],
        Connector::Plaintext,
        false,
        RetryPolicy::default(),
    );
    pool.record_success("a:1", 9, now);
    assert!(pool.compare_and_set_leader("b:1".into(), None, now));
    assert_eq!(pool.cached_leader(now).as_deref(), Some("b:1"));
}

#[test]
fn leader_resolved_unknown_epoch_hint_still_accepted_when_cache_unknown_epoch() {
    let now = start();
    let mut pool = ChannelPool::new(
        vec!["a:1".into(), "b:1".into()],
        Connector::Plaintext,
        false,
        RetryPolicy::default(),
    );
    assert!(pool.compare_and_set_leader("a:1".into(), None, now));
    assert_eq!(pool.cached_leader(now).as_deref(), Some("a:1"));
    assert!(pool.compare_and_set_leader("attacker:1".into(), None, now));
    assert_eq!(pool.cached_leader(now).as_deref(), Some("attacker:1"));
}

#[test]
fn leader_resolved_unknown_epoch_offlist_hint_accepted_once_cache_expires() {
    let mut now = start();
    let policy = RetryPolicy {
        leader_ttl: Duration::from_millis(50),
        ..RetryPolicy::default()
    };
    let mut pool = ChannelPool::new(vec!["a:1".into(), "b:1".into()], Connector::Plaintext, false, policy);
    pool.record_success("a:1", 9, now);
    assert!(!pool.compare_and_set_leader("attacker:1".into(), None, now));
    assert_eq!(pool.cached_leader(now).as_deref(), Some("a:1"));
    now = at(now, 75);
    assert!(pool.compare_and_set_leader("attacker:1".into(), None, now));
    assert_eq!(pool.cached_leader(now).as_deref(), Some("attacker:1"));
}

#[test]
fn leader_resolved_compare_and_set_leader_accepts_any_hint_once_cache_expires() {
    let mut now = start();
    let policy = RetryPolicy {
        leader_ttl: Duration::from_millis(50),
        ..RetryPolicy::default()
    };
    let mut pool = ChannelPool::new(vec!["a:1".into(), "b:1".into()], Connector::Plaintext, false, policy);
    pool.record_success("a:1", 9, now);
    assert!(!pool.compare_and_set_leader("b:1".into(), Some(4), now));
    assert_eq!(pool.cached_leader(now).as_deref(), Some("a:1"));
    now = at(now, 75);
    assert!(pool.compare_and_set_leader("b:1".into(), Some(4), now));
    assert_eq!(pool.cached_leader(now).as_deref(), Some("b:1"));
}

#[test]
fn leader_resolved_cached_leader_past_ttl_is_not_prepended_to_worklist() {
    let mut now = start();
    let policy = RetryPolicy {
        leader_ttl: Duration::from_millis(50),
        ..RetryPolicy::default()
    };
    let mut pool = ChannelPool::new(
        vec!["a:1".into(), "b:1".into(), "c:1".into()],
        Connector::Plaintext,
        false,
        policy,
    );
    pool.record_success("b:1", 1, now);
    assert_eq!(pool.iter_round_robin(now), vec!["b:1", "a:1", "c:1"]);
    now = at(now, 75);
    assert!(pool.cached_leader(now).is_none());
    assert_eq!(pool.iter_round_robin(now), vec!["a:1", "b:1", "c:1"]);
}

#[test]
fn leader_resolved_record_success_against_cached_leader_refreshes_ttl() {
    let mut now = start();
    let policy = RetryPolicy {
        leader_ttl: Duration::from_millis(100),
        ..RetryPolicy::default()
    };
    let mut pool = ChannelPool::new(vec!["a:1".into(), "b:1".into()], Connector::Plaintext, false, policy);
    pool.record_success("b:1", 1, now);
    now = at(now, 60);
    pool.record_success("b:1", 2, now);
    now = at(now, 60);
    assert_eq!(pool.cached_leader(now).as_deref(), Some("b:1"));
}

#[test]
fn leader_resolved_record_success_same_endpoint_does_not_lower_epoch() {
    let now = start();
    let mut pool = ChannelPool::new(
        vec!["a:1".into(), "b:1".into()],
        Connector::Plaintext,
        false,
        RetryPolicy::default(),
    );
    pool.record_success("a:1", 9, now);
    pool.record_success("a:1", 4, now);
    assert_eq!(
        pool.fresh_leader(now).expect("cache seated").epoch,
        Some(9),
        "a stale same-endpoint success must not lower the cached epoch"
    );
    assert!(!pool.compare_and_set_leader("b:1".into(), Some(5), now));
    assert_eq!(pool.cached_leader(now).as_deref(), Some("a:1"));
}

#[test]
fn leader_resolved_record_success_different_endpoint_lower_epoch_is_rejected() {
    let now = start();
    let mut pool = ChannelPool::new(
        vec!["a:1".into(), "b:1".into()],
        Connector::Plaintext,
        false,
        RetryPolicy::default(),
    );
    pool.record_success("a:1", 9, now);
    pool.record_success("b:1", 4, now);
    assert_eq!(
        pool.cached_leader(now).as_deref(),
        Some("a:1"),
        "a stale cross-endpoint success must not unseat the higher-epoch leader"
    );
    assert_eq!(pool.fresh_leader(now).expect("cache seated").epoch, Some(9));
}

#[test]
fn leader_resolved_record_success_different_endpoint_higher_epoch_advances() {
    let now = start();
    let mut pool = ChannelPool::new(
        vec!["a:1".into(), "b:1".into()],
        Connector::Plaintext,
        false,
        RetryPolicy::default(),
    );
    pool.record_success("a:1", 5, now);
    pool.record_success("b:1", 7, now);
    assert_eq!(pool.cached_leader(now).as_deref(), Some("b:1"));
    assert_eq!(pool.fresh_leader(now).expect("cache seated").epoch, Some(7));
}

#[test]
fn leader_resolved_record_success_different_endpoint_lower_epoch_seats_once_expired() {
    let mut now = start();
    let policy = RetryPolicy {
        leader_ttl: Duration::from_millis(50),
        ..RetryPolicy::default()
    };
    let mut pool = ChannelPool::new(vec!["a:1".into(), "b:1".into()], Connector::Plaintext, false, policy);
    pool.record_success("a:1", 9, now);
    now = at(now, 75);
    pool.record_success("b:1", 4, now);
    assert_eq!(pool.cached_leader(now).as_deref(), Some("b:1"));
    assert_eq!(pool.fresh_leader(now).expect("cache seated").epoch, Some(4));
}

#[test]
fn leader_resolved_record_success_same_endpoint_lower_epoch_still_refreshes_ttl() {
    let mut now = start();
    let policy = RetryPolicy {
        leader_ttl: Duration::from_millis(100),
        ..RetryPolicy::default()
    };
    let mut pool = ChannelPool::new(vec!["a:1".into(), "b:1".into()], Connector::Plaintext, false, policy);
    pool.record_success("a:1", 9, now);
    now = at(now, 60);
    pool.record_success("a:1", 4, now);
    now = at(now, 60);
    assert_eq!(pool.cached_leader(now).as_deref(), Some("a:1"));
    assert_eq!(pool.fresh_leader(now).expect("cache seated").epoch, Some(9));
}

#[test]
fn leader_resolved_evict_if_current_removes_the_cached_cell() {
    let mut pool = ChannelPool::new(
        Vec::new(),
        Connector::Custom,
        false,
        RetryPolicy::default(),
    );
    let cell = pool.client_with_cell("a:1");
    assert_eq!(pool.client_with_cell("a:1"), cell);
    pool.evict_if_current("a:1", cell);
    assert_ne!(pool.client_with_cell("a:1"), cell);
}

#[test]
fn leader_resolved_evict_if_current_spares_a_replaced_cell() {
    let mut pool = ChannelPool::new(
        Vec::new(),
        Connector::Custom,
        false,
        RetryPolicy::default(),
    );
    let cell1 = pool.client_with_cell("a:1");
    pool.evict_if_current("a:1", cell1);
    let cell2 = pool.client_with_cell("a:1");
    assert_ne!(cell1, cell2);
    pool.evict_if_current("a:1", cell1);
    assert_eq!(pool.client_with_cell("a:1"), cell2);
}

#[test]
fn resolved_dial_plans_follow_the_connector() {
    let tls = ChannelPool::new(
        vec!["a:1".into()],
        Connector::Tls,
        true,
        RetryPolicy::default(),
    );
    assert!(tls.tls_required());
    assert_eq!(*tls.retry_policy(), RetryPolicy::default());
    assert!(matches!(tls.dial_plan("a:1"), DialPlan::BuiltIn(uri) if uri == "https://a:1"));
    assert!(matches!(
        tls.dial_plan("http://a:1"),
        DialPlan::BuiltIn(uri) if uri == "http://a:1"
    ));
}

#[test]
fn a_failed_dial_of_a_resolved_leader_leaves_no_entry() {
    let mut pool = ChannelPool::new(
        vec!["a:1".into()],
        Connector::Custom,
        false,
        RetryPolicy::default(),
    );
    let kept = pool.client_with_cell("a:1");
    assert_eq!(pool.dialed("a:1", kept, Ok(7)), Ok((7, kept)));
    let cell = pool.client_with_cell("b:1");
    let refused: Result<(), ClientError> = Err(ClientError::Connector("boom".into()));
    assert_eq!(
        pool.dialed("b:1", cell, refused),
        Err(ClientError::Connector("boom".into()))
    );
    assert_ne!(pool.client_with_cell("b:1"), cell);
    assert_eq!(pool.client_with_cell("a:1"), kept);
}

/// Dials as a caller does: the cell is asked for, and the connector where nobody opened it yet.
struct Dialer {
    pool: ChannelPool,
    seen: Vec<String>,
    open: Vec<(String, u64)>,
}

impl Dialer {
    fn new(endpoints: Vec<String>) -> Dialer {
        Dialer {
            pool: ChannelPool::new(
                endpoints,
                Connector::Custom,
                false,
                RetryPolicy::default(),
            ),
            seen: vec![],
            open: vec![],
        }
    }

    fn client(
        &mut self,
        endpoint: &str,
        connector: &dyn Fn(&str) -> Result<(), ClientError>,
    ) -> Result<u64, ClientError> {
        let cell = self.pool.client_with_cell(endpoint);
        let mut outcome = Ok(());
        if !self.open.contains(&(endpoint.to_string(), cell)) {
            let raw = match self.pool.dial_plan(endpoint) {
                DialPlan::Custom(raw) => raw,
                other => panic!("the connector must be asked, got {other:?}"),
            };
            outcome = connector(&raw);
            self.seen.push(raw);
            if outcome.is_ok() {
                self.open.push((endpoint.to_string(), cell));
            }
        }
        let ((), cell) = self.pool.dialed(endpoint, cell, outcome)?;
        Ok(cell)
    }
}

fn refuses(endpoint: &str) -> Result<(), ClientError> {
    Err(ClientError::InvalidEndpoint(endpoint.into()))
}

#[test]
fn leader_resolved_pool_with_custom_connector_invokes_closure_per_endpoint() {
    let mut dialer = Dialer::new(vec!["a:1".into(), "b:1".into()]);
    let _ = dialer.client("a:1", &refuses);
    let _ = dialer.client("b:1", &refuses);
    assert_eq!(dialer.seen, vec!["a:1", "b:1"]);
}

#[test]
fn leader_resolved_pool_caches_channel_from_custom_connector() {
    let mut dialer = Dialer::new(vec!["a:1".into()]);
    dialer.client("a:1", &|_| Ok(())).expect("first client() must succeed");
    dialer.client("a:1", &|_| Ok(())).expect("second client() must hit cache");
    assert_eq!(dialer.seen.len(), 1);
}

#[test]
fn leader_resolved_racing_first_callers_connect_endpoint_exactly_once() {
    let mut dialer = Dialer::new(vec!["a:1".into()]);
    let endpoint = "a:1";
    let cells: Vec<u64> = (0..16)
        .map(|_| dialer.pool.client_with_cell(endpoint))
        .collect();
    assert!(cells.iter().all(|cell| *cell == cells[0]), "one cell for all racers");
    for cell in cells {
        assert_eq!(dialer.client(endpoint, &|_| Ok(())), Ok(cell));
    }
    assert_eq!(dialer.seen.len(), 1, "racers must share a single connect");
}

#[test]
fn leader_resolved_leader_hint_endpoint_goes_through_same_connector() {
    let mut dialer = Dialer::new(vec!["a:1".into()]);
    let _ = dialer.client("hinted:1", &refuses);
    assert_eq!(dialer.seen, vec!["hinted:1"]);
}

#[test]
fn leader_resolved_failed_dials_do_not_accumulate_in_channel_cache() {
    let mut dialer = Dialer::new(Vec::new());
    for i in 0..8 {
        let endpoint = format!("attacker-hint-{i}:1");
        assert_eq!(
            dialer.client(&endpoint, &refuses),
            Err(ClientError::InvalidEndpoint(endpoint.clone()))
        );
    }
    for i in 0..8 {
        let endpoint = format!("attacker-hint-{i}:1");
        let endpoint = endpoint.as_str();
        let cell = dialer.pool.client_with_cell(endpoint);
        assert!(cell >= 8, "no cell of a failed dial is handed out again");
    }
}

#[test]
fn leader_resolved_successful_dials_are_retained_in_channel_cache() {
    let mut dialer = Dialer::new(Vec::new());
    let cell = dialer.client("a:1", &|_| Ok(())).expect("the dial must succeed");
    assert_eq!(dialer.pool.client_with_cell("a:1"), cell);
    assert_eq!(dialer.open, vec![("a:1".to_string(), cell)]);
}

#[test]
fn a_resolved_endpoint_that_is_no_uri_is_not_dialed() {
    let pool_of = |connector: Connector| {
        ChannelPool::new(vec!["a:1".into()], connector, false, RetryPolicy::default())
    };
    let plain = pool_of(Connector::Plaintext);
    assert!(matches!(plain.dial_target("a:1"), Ok(DialPlan::BuiltIn(uri)) if uri == "http://a:1"));
    assert!(matches!(
        plain.dial_target("a b:1"),
        Err(ClientError::InvalidEndpoint(named)) if named == "a b:1"
    ));
    let tls = pool_of(Connector::Tls);
    assert!(matches!(tls.dial_target("a:1"), Ok(DialPlan::BuiltIn(uri)) if uri == "https://a:1"));
    let mut custom = pool_of(Connector::Custom);
    assert!(matches!(custom.dial_target("a b:1"), Ok(DialPlan::Custom(raw)) if raw == "a b:1"));
    assert!(custom.can_lease("a:1"));
    let cell = custom.client_with_cell("a:1");
    assert!(custom.can_lease("a:1"));
    assert_eq!(custom.client_with_cell("a:1"), cell);
}
