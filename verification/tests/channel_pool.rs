use tsoracle::channel_pool::{
    merge_epoch_forward, ChannelPool, Connector, DialPlan, MAX_HINT_CHANNELS,
};
use tsoracle::error::ClientError;
use tsoracle::retry_policy::RetryPolicy;
use tsoracle::time::{Duration, Instant};

fn start() -> Instant {
    Instant::at(Duration::from_secs(1_000))
}

fn at(now: Instant, millis: u64) -> Instant {
    let nanos = now.as_nanos() + millis as u128 * 1_000_000;
    Instant::at(Duration::from_nanos_saturating(nanos))
}

#[test]
fn channel_pool_iter_starts_with_cached_leader() {
    let now = start();
    let mut pool = ChannelPool::new(
        vec!["a:1".into(), "b:1".into(), "c:1".into()],
        Connector::Plaintext,
        false,
        RetryPolicy::default(),
    );
    pool.pin_rotation(0);
    pool.record_success("b:1", 1, now);
    let order = pool.iter_round_robin(now);
    assert_eq!(order, vec!["b:1", "a:1", "c:1"]);
}

#[test]
fn iter_without_cache_rotates_configured() {
    let now = start();
    let mut pool = ChannelPool::new(
        vec!["a:1".into(), "b:1".into(), "c:1".into()],
        Connector::Plaintext,
        false,
        RetryPolicy::default(),
    );
    pool.pin_rotation(0);
    assert_eq!(pool.iter_round_robin(now), vec!["a:1", "b:1", "c:1"]);
    assert_eq!(pool.iter_round_robin(now), vec!["b:1", "c:1", "a:1"]);
    assert_eq!(pool.iter_round_robin(now), vec!["c:1", "a:1", "b:1"]);
    assert_eq!(pool.iter_round_robin(now), vec!["a:1", "b:1", "c:1"]);
}

#[test]
fn iter_round_robin_honors_seeded_offset() {
    let now = start();
    let mut pool = ChannelPool::new(
        vec!["a:1".into(), "b:1".into(), "c:1".into()],
        Connector::Plaintext,
        false,
        RetryPolicy::default(),
    );
    pool.pin_rotation(1);
    assert_eq!(pool.iter_round_robin(now), vec!["b:1", "c:1", "a:1"]);
}

#[test]
fn iter_round_robin_empty_configured_does_not_panic() {
    let now = start();
    let mut pool = ChannelPool::new(Vec::new(), Connector::Plaintext, false, RetryPolicy::default());
    assert!(pool.iter_round_robin(now).is_empty());
    pool.record_success("hint:1", 1, now);
    assert_eq!(pool.iter_round_robin(now), vec!["hint:1"]);
}

#[test]
fn iter_round_robin_single_configured_endpoint() {
    let now = start();
    let mut pool = ChannelPool::new(vec!["a:1".into()], Connector::Plaintext, false, RetryPolicy::default());
    pool.pin_rotation(0);
    assert_eq!(pool.iter_round_robin(now), vec!["a:1"]);
    assert_eq!(pool.iter_round_robin(now), vec!["a:1"]);
    pool.record_success("a:1", 1, now);
    assert_eq!(pool.iter_round_robin(now), vec!["a:1"]);
}

#[test]
fn channel_pool_higher_epoch_hint_wins_regardless_of_arrival_order() {
    let now = start();
    for (first_endpoint, first_epoch, second_endpoint, second_epoch, winner) in [
        ("a:1", 7u128, "b:1", 5u128, "a:1"),
        ("a:1", 5u128, "b:1", 7u128, "b:1"),
    ] {
        let mut pool = ChannelPool::new(
            vec!["a:1".into(), "b:1".into()],
            Connector::Plaintext,
            false,
            RetryPolicy::default(),
        );
        pool.compare_and_set_leader(first_endpoint.into(), Some(first_epoch), now);
        pool.compare_and_set_leader(second_endpoint.into(), Some(second_epoch), now);
        assert_eq!(
            pool.cached_leader(now).as_deref(),
            Some(winner),
            "ordering {first_endpoint}@{first_epoch} then {second_endpoint}@{second_epoch}"
        );
    }
}

#[test]
fn channel_pool_compare_and_set_leader_checks_and_writes_atomically() {
    let now = start();
    let mut pool = ChannelPool::new(
        vec!["a:1".into(), "b:1".into()],
        Connector::Plaintext,
        false,
        RetryPolicy::default(),
    );
    assert!(pool.compare_and_set_leader("a:1".into(), None, now));
    assert_eq!(pool.cached_leader(now).as_deref(), Some("a:1"));
    assert!(pool.compare_and_set_leader("b:1".into(), Some(5), now));
    assert_eq!(pool.cached_leader(now).as_deref(), Some("b:1"));
    assert!(!pool.compare_and_set_leader("a:1".into(), Some(4), now));
    assert_eq!(pool.cached_leader(now).as_deref(), Some("b:1"));
    assert!(pool.compare_and_set_leader("a:1".into(), Some(5), now));
    assert_eq!(pool.cached_leader(now).as_deref(), Some("a:1"));
    assert!(pool.compare_and_set_leader("b:1".into(), Some(9), now));
    assert_eq!(pool.cached_leader(now).as_deref(), Some("b:1"));
    assert!(!pool.compare_and_set_leader("a:1".into(), Some(8), now));
    assert_eq!(pool.cached_leader(now).as_deref(), Some("b:1"));
    assert!(pool.compare_and_set_leader("a:1".into(), None, now));
    assert_eq!(pool.cached_leader(now).as_deref(), Some("a:1"));
}

#[test]
fn same_endpoint_lower_epoch_hint_is_accepted_and_holds_higher_epoch() {
    let now = start();
    let mut pool = ChannelPool::new(
        vec!["a:1".into(), "b:1".into()],
        Connector::Plaintext,
        false,
        RetryPolicy::default(),
    );
    pool.record_success("a:1", 9, now);
    assert!(pool.compare_and_set_leader("a:1".into(), Some(4), now));
    assert_eq!(pool.cached_leader(now).as_deref(), Some("a:1"));
    assert_eq!(
        pool.fresh_leader(now).expect("cache seated").epoch,
        Some(9),
        "a same-endpoint hint must not lower the cached epoch"
    );
}

#[test]
fn same_endpoint_epochless_hint_keeps_known_epoch() {
    let now = start();
    let mut pool = ChannelPool::new(
        vec!["a:1".into(), "b:1".into()],
        Connector::Plaintext,
        false,
        RetryPolicy::default(),
    );
    pool.record_success("a:1", 9, now);
    assert!(pool.compare_and_set_leader("a:1".into(), None, now));
    assert_eq!(
        pool.fresh_leader(now).expect("cache seated").epoch,
        Some(9),
        "an epoch-less same-endpoint hint must not drop the known epoch"
    );
}

#[test]
fn channel_pool_unknown_epoch_offlist_hint_rejected_when_cache_fresh_known() {
    let now = start();
    let mut pool = ChannelPool::new(
        vec!["a:1".into(), "b:1".into()],
        Connector::Plaintext,
        false,
        RetryPolicy::default(),
    );
    pool.record_success("a:1", 9, now);
    assert!(!pool.compare_and_set_leader("attacker:1".into(), None, now));
    assert_eq!(
        pool.cached_leader(now).as_deref(),
        Some("a:1"),
        "an off-list epoch-less hint must not unseat a fresh known-epoch leader"
    );
}

#[test]
fn channel_pool_unknown_epoch_configured_hint_accepted_when_cache_fresh_known() {
    let now = start();
    let mut pool = ChannelPool::new(
        vec!["a:1".into(), "b:1".into()],
        Connector::Plaintext,
        false,
        RetryPolicy::default(),
    );
    pool.record_success("a:1", 9, now);
    assert!(pool.compare_and_set_leader("b:1".into(), None, now));
    assert_eq!(pool.cached_leader(now).as_deref(), Some("b:1"));
}

#[test]
fn channel_pool_unknown_epoch_hint_still_accepted_when_cache_unknown_epoch() {
    let now = start();
    let mut pool = ChannelPool::new(
        vec!["a:1".into(), "b:1".into()],
        Connector::Plaintext,
        false,
        RetryPolicy::default(),
    );
    assert!(pool.compare_and_set_leader("a:1".into(), None, now));
    assert_eq!(pool.cached_leader(now).as_deref(), Some("a:1"));
    assert!(pool.compare_and_set_leader("attacker:1".into(), None, now));
    assert_eq!(pool.cached_leader(now).as_deref(), Some("attacker:1"));
}

#[test]
fn channel_pool_unknown_epoch_offlist_hint_accepted_once_cache_expires() {
    let mut now = start();
    let policy = RetryPolicy {
        leader_ttl: Duration::from_millis(50),
        ..RetryPolicy::default()
    };
    let mut pool = ChannelPool::new(vec!["a:1".into(), "b:1".into()], Connector::Plaintext, false, policy);
    pool.record_success("a:1", 9, now);
    assert!(!pool.compare_and_set_leader("attacker:1".into(), None, now));
    assert_eq!(pool.cached_leader(now).as_deref(), Some("a:1"));
    now = at(now, 75);
    assert!(pool.compare_and_set_leader("attacker:1".into(), None, now));
    assert_eq!(pool.cached_leader(now).as_deref(), Some("attacker:1"));
}

#[test]
fn channel_pool_compare_and_set_leader_accepts_any_hint_once_cache_expires() {
    let mut now = start();
    let policy = RetryPolicy {
        leader_ttl: Duration::from_millis(50),
        ..RetryPolicy::default()
    };
    let mut pool = ChannelPool::new(vec!["a:1".into(), "b:1".into()], Connector::Plaintext, false, policy);
    pool.record_success("a:1", 9, now);
    assert!(!pool.compare_and_set_leader("b:1".into(), Some(4), now));
    assert_eq!(pool.cached_leader(now).as_deref(), Some("a:1"));
    now = at(now, 75);
    assert!(pool.compare_and_set_leader("b:1".into(), Some(4), now));
    assert_eq!(pool.cached_leader(now).as_deref(), Some("b:1"));
}

#[test]
fn channel_pool_cached_leader_past_ttl_is_not_prepended_to_worklist() {
    let mut now = start();
    let policy = RetryPolicy {
        leader_ttl: Duration::from_millis(50),
        ..RetryPolicy::default()
    };
    let mut pool = ChannelPool::new(
        vec!["a:1".into(), "b:1".into(), "c:1".into()],
        Connector::Plaintext,
        false,
        policy,
    );
    pool.pin_rotation(0);
    pool.record_success("c:1", 1, now);
    assert_eq!(pool.iter_round_robin(now), vec!["c:1", "a:1", "b:1"]);
    now = at(now, 75);
    assert!(pool.cached_leader(now).is_none());
    assert_eq!(pool.iter_round_robin(now), vec!["b:1", "c:1", "a:1"]);
}

#[test]
fn channel_pool_record_success_against_cached_leader_refreshes_ttl() {
    let mut now = start();
    let policy = RetryPolicy {
        leader_ttl: Duration::from_millis(100),
        ..RetryPolicy::default()
    };
    let mut pool = ChannelPool::new(vec!["a:1".into(), "b:1".into()], Connector::Plaintext, false, policy);
    pool.record_success("b:1", 1, now);
    now = at(now, 60);
    pool.record_success("b:1", 2, now);
    now = at(now, 60);
    assert_eq!(pool.cached_leader(now).as_deref(), Some("b:1"));
}

#[test]
fn channel_pool_record_success_same_endpoint_does_not_lower_epoch() {
    let now = start();
    let mut pool = ChannelPool::new(
        vec!["a:1".into(), "b:1".into()],
        Connector::Plaintext,
        false,
        RetryPolicy::default(),
    );
    pool.record_success("a:1", 9, now);
    pool.record_success("a:1", 4, now);
    assert_eq!(
        pool.fresh_leader(now).expect("cache seated").epoch,
        Some(9),
        "a stale same-endpoint success must not lower the cached epoch"
    );
    assert!(!pool.compare_and_set_leader("b:1".into(), Some(5), now));
    assert_eq!(pool.cached_leader(now).as_deref(), Some("a:1"));
}

#[test]
fn channel_pool_record_success_different_endpoint_lower_epoch_is_rejected() {
    let now = start();
    let mut pool = ChannelPool::new(
        vec!["a:1".into(), "b:1".into()],
        Connector::Plaintext,
        false,
        RetryPolicy::default(),
    );
    pool.record_success("a:1", 9, now);
    pool.record_success("b:1", 4, now);
    assert_eq!(
        pool.cached_leader(now).as_deref(),
        Some("a:1"),
        "a stale cross-endpoint success must not unseat the higher-epoch leader"
    );
    assert_eq!(pool.fresh_leader(now).expect("cache seated").epoch, Some(9));
}

#[test]
fn record_success_different_endpoint_does_not_clobber_fresh_unknown_epoch_cache() {
    let now = start();
    let mut pool = ChannelPool::new(
        vec!["a:1".into(), "b:1".into()],
        Connector::Plaintext,
        false,
        RetryPolicy::default(),
    );
    assert!(pool.compare_and_set_leader("a:1".into(), None, now));
    assert_eq!(pool.cached_leader(now).as_deref(), Some("a:1"));
    pool.record_success("b:1", 5, now);
    assert_eq!(
        pool.cached_leader(now).as_deref(),
        Some("a:1"),
        "a stale cross-endpoint success must not clobber a fresh unknown-epoch entry"
    );
}

#[test]
fn record_success_epochless_does_not_clobber_fresh_unknown_epoch_cache() {
    let now = start();
    let mut pool = ChannelPool::new(
        vec!["a:1".into(), "b:1".into()],
        Connector::Plaintext,
        false,
        RetryPolicy::default(),
    );
    assert!(pool.compare_and_set_leader("a:1".into(), None, now));
    pool.record_success("b:1", 0, now);
    assert_eq!(
        pool.cached_leader(now).as_deref(),
        Some("a:1"),
        "an epoch-0 cross-endpoint success must not clobber a fresh unknown-epoch entry"
    );
}

#[test]
fn record_success_seats_against_unknown_epoch_cache_once_expired() {
    let mut now = start();
    let policy = RetryPolicy {
        leader_ttl: Duration::from_millis(50),
        ..RetryPolicy::default()
    };
    let mut pool = ChannelPool::new(vec!["a:1".into(), "b:1".into()], Connector::Plaintext, false, policy);
    assert!(pool.compare_and_set_leader("a:1".into(), None, now));
    pool.record_success("b:1", 5, now);
    assert_eq!(pool.cached_leader(now).as_deref(), Some("a:1"));
    now = at(now, 75);
    pool.record_success("b:1", 5, now);
    assert_eq!(pool.cached_leader(now).as_deref(), Some("b:1"));
    assert_eq!(pool.fresh_leader(now).expect("cache seated").epoch, Some(5));
}

#[test]
fn record_success_same_endpoint_upgrades_unknown_epoch() {
    let now = start();
    let mut pool = ChannelPool::new(
        vec!["a:1".into(), "b:1".into()],
        Connector::Plaintext,
        false,
        RetryPolicy::default(),
    );
    assert!(pool.compare_and_set_leader("a:1".into(), None, now));
    assert_eq!(pool.fresh_leader(now).expect("cache seated").epoch, None);
    pool.record_success("a:1", 7, now);
    assert_eq!(pool.cached_leader(now).as_deref(), Some("a:1"));
    assert_eq!(
        pool.fresh_leader(now).expect("cache seated").epoch,
        Some(7),
        "a same-endpoint success must upgrade an unknown cached epoch"
    );
}

#[test]
fn channel_pool_record_success_different_endpoint_higher_epoch_advances() {
    let now = start();
    let mut pool = ChannelPool::new(
        vec!["a:1".into(), "b:1".into()],
        Connector::Plaintext,
        false,
        RetryPolicy::default(),
    );
    pool.record_success("a:1", 5, now);
    pool.record_success("b:1", 7, now);
    assert_eq!(pool.cached_leader(now).as_deref(), Some("b:1"));
    assert_eq!(pool.fresh_leader(now).expect("cache seated").epoch, Some(7));
}

#[test]
fn channel_pool_record_success_different_endpoint_lower_epoch_seats_once_expired() {
    let mut now = start();
    let policy = RetryPolicy {
        leader_ttl: Duration::from_millis(50),
        ..RetryPolicy::default()
    };
    let mut pool = ChannelPool::new(vec!["a:1".into(), "b:1".into()], Connector::Plaintext, false, policy);
    pool.record_success("a:1", 9, now);
    now = at(now, 75);
    pool.record_success("b:1", 4, now);
    assert_eq!(pool.cached_leader(now).as_deref(), Some("b:1"));
    assert_eq!(pool.fresh_leader(now).expect("cache seated").epoch, Some(4));
}

#[test]
fn channel_pool_record_success_same_endpoint_lower_epoch_still_refreshes_ttl() {
    let mut now = start();
    let policy = RetryPolicy {
        leader_ttl: Duration::from_millis(100),
        ..RetryPolicy::default()
    };
    let mut pool = ChannelPool::new(vec!["a:1".into(), "b:1".into()], Connector::Plaintext, false, policy);
    pool.record_success("a:1", 9, now);
    now = at(now, 60);
    pool.record_success("a:1", 4, now);
    now = at(now, 60);
    assert_eq!(pool.cached_leader(now).as_deref(), Some("a:1"));
    assert_eq!(pool.fresh_leader(now).expect("cache seated").epoch, Some(9));
}

fn pool_of(endpoints: Vec<String>) -> ChannelPool {
    ChannelPool::new(
        endpoints,
        Connector::Custom,
        false,
        RetryPolicy::default(),
    )
}

#[test]
fn channel_pool_evict_if_current_removes_the_cached_cell() {
    let now = start();
    let mut pool = pool_of(Vec::new());
    let cell = pool.client_with_cell("a:1", now);
    assert_eq!(pool.client_with_cell("a:1", now), cell);
    pool.evict_if_current("a:1", cell);
    assert_ne!(
        pool.client_with_cell("a:1", now),
        cell,
        "evicting with the live cell must clear the entry"
    );
}

#[test]
fn channel_pool_evict_if_current_spares_a_replaced_cell() {
    let now = start();
    let mut pool = pool_of(Vec::new());
    let cell1 = pool.client_with_cell("a:1", now);
    pool.evict_if_current("a:1", cell1);
    let cell2 = pool.client_with_cell("a:1", now);
    assert_ne!(cell1, cell2, "the re-dial must seat a fresh cell");
    pool.evict_if_current("a:1", cell1);
    assert_eq!(
        pool.client_with_cell("a:1", now),
        cell2,
        "stale-cell eviction must spare the live cell"
    );
}

#[test]
fn channel_pool_successful_dials_are_retained_in_channel_cache() {
    let now = start();
    let mut pool = pool_of(Vec::new());
    let cell = pool.client_with_cell("a:1", now);
    assert_eq!(pool.client_with_cell("a:1", at(now, 5)), cell);
}

#[test]
fn a_failed_dial_gives_up_its_cell() {
    let now = start();
    let mut pool = pool_of(Vec::new());
    for i in 0..8 {
        let endpoint = format!("hint-{i}:1");
        let cell = pool.client_with_cell(&endpoint, now);
        pool.evict_if_current(&endpoint, cell);
        assert_ne!(pool.client_with_cell(&endpoint, now), cell);
    }
}

#[test]
fn successful_hint_dials_are_bounded() {
    let mut now = start();
    let mut pool = pool_of(Vec::new());
    let mut cells = Vec::new();
    for i in 0..50 {
        now = at(now, 1);
        cells.push(pool.client_with_cell(&format!("decoy-{i}:1"), now));
    }
    for i in 50 - MAX_HINT_CHANNELS..50 {
        now = at(now, 1);
        assert_eq!(pool.client_with_cell(&format!("decoy-{i}:1"), now), cells[i]);
    }
    for (i, cell) in cells.iter().enumerate().take(50 - MAX_HINT_CHANNELS) {
        now = at(now, 1);
        assert_ne!(
            pool.client_with_cell(&format!("decoy-{i}:1"), now),
            *cell,
            "channels outside the configured list must be capped"
        );
    }
}

#[test]
fn configured_endpoints_are_never_evicted() {
    let mut now = start();
    let mut pool = pool_of(vec!["cfg-a:1".into(), "cfg-b:1".into()]);
    let a = pool.client_with_cell("cfg-a:1", now);
    let b = pool.client_with_cell("cfg-b:1", now);
    for i in 0..50 {
        now = at(now, 1);
        pool.client_with_cell(&format!("decoy-{i}:1"), now);
    }
    assert_eq!(pool.client_with_cell("cfg-a:1", now), a);
    assert_eq!(pool.client_with_cell("cfg-b:1", now), b);
}

#[test]
fn lru_retains_the_repeatedly_dialed_endpoint() {
    let mut now = start();
    let mut pool = pool_of(Vec::new());
    let leader = pool.client_with_cell("leader:1", now);
    for i in 0..50 {
        now = at(now, 1);
        pool.client_with_cell(&format!("decoy-{i}:1"), now);
        now = at(now, 1);
        assert_eq!(pool.client_with_cell("leader:1", now), leader);
    }
}

#[test]
fn cache_hit_refreshes_recency_without_sweeping() {
    let mut now = start();
    let mut pool = pool_of(Vec::new());
    let mut cells = Vec::new();
    for i in 0..MAX_HINT_CHANNELS {
        now = at(now, 1);
        cells.push(pool.client_with_cell(&format!("hint-{i}:1"), now));
    }
    now = at(now, 10);
    assert_eq!(pool.client_with_cell("hint-0:1", now), cells[0]);
    now = at(now, 1);
    pool.client_with_cell("one-more:1", now);
    now = at(now, 1);
    assert_eq!(
        pool.client_with_cell("hint-0:1", now),
        cells[0],
        "the refreshed slot must not be the victim"
    );
    assert_ne!(
        pool.client_with_cell("hint-1:1", now),
        cells[1],
        "the least recently used slot must be the victim"
    );
}

#[test]
fn a_full_pool_evicts_the_oldest_hint_only() {
    let mut now = start();
    let mut pool = pool_of(vec!["cfg:1".into()]);
    let configured = pool.client_with_cell("cfg:1", now);
    let mut cells = Vec::new();
    for i in 0..=MAX_HINT_CHANNELS {
        now = at(now, 1);
        cells.push(pool.client_with_cell(&format!("hint-{i}:1"), now));
    }
    assert_eq!(pool.client_with_cell("cfg:1", now), configured);
    for i in 1..=MAX_HINT_CHANNELS {
        assert_eq!(pool.client_with_cell(&format!("hint-{i}:1"), now), cells[i]);
    }
}

#[test]
fn merging_epochs_moves_forward() {
    assert_eq!(merge_epoch_forward(None, None), None);
    assert_eq!(merge_epoch_forward(Some(3), None), Some(3));
    assert_eq!(merge_epoch_forward(None, Some(4)), Some(4));
    assert_eq!(merge_epoch_forward(Some(9), Some(4)), Some(9));
    assert_eq!(merge_epoch_forward(Some(4), Some(9)), Some(9));
}

#[test]
fn dial_plans_follow_the_connector() {
    let plain = ChannelPool::new(
        vec!["a:1".into()],
        Connector::Plaintext,
        false,
        RetryPolicy::default(),
    );
    assert!(matches!(plain.dial_plan("a:1"), DialPlan::BuiltIn(uri) if uri == "http://a:1"));
    let tls = ChannelPool::new(
        vec!["a:1".into()],
        Connector::Tls,
        true,
        RetryPolicy::default(),
    );
    assert!(matches!(tls.dial_plan("a:1"), DialPlan::BuiltIn(uri) if uri == "https://a:1"));
    assert!(tls.tls_required());
    assert!(!plain.tls_required());
    let custom = pool_of(vec!["a:1".into()]);
    assert!(matches!(custom.dial_plan("hint:2"), DialPlan::Custom(named) if named == "hint:2"));
    assert_eq!(*custom.retry_policy(), RetryPolicy::default());
}

#[test]
fn the_random_start_lies_in_the_rotation() {
    let mut firsts = Vec::new();
    for _ in 0..200 {
        let now = start();
        let mut pool = pool_of(vec!["a:1".into(), "b:1".into(), "c:1".into()]);
        let order = pool.iter_round_robin(now);
        assert_eq!(order.len(), 3);
        if !firsts.contains(&order[0]) {
            firsts.push(order[0].clone());
        }
    }
    assert!(firsts.len() > 1, "pools must not all start at one endpoint");
}

#[test]
fn callers_in_turn_share_one_cell_until_it_is_dropped() {
    let now = start();
    let mut pool = pool_of(vec!["a:1".into(), "b:1".into()]);
    let cell = pool.client_with_cell("a:1", now);
    assert_eq!(pool.dialed("a:1", cell, Ok("channel")), Ok(("channel", cell)));
    for i in 0..20 {
        pool.client_with_cell(&format!("hint-{i}:1"), at(now, i));
        pool.client_with_cell("b:1", at(now, i));
        assert_eq!(pool.client_with_cell("a:1", at(now, i)), cell);
    }
    pool.evict_if_current("a:1", cell);
    assert_ne!(pool.client_with_cell("a:1", now), cell);
}

#[test]
fn a_run_of_failed_dials_leaves_no_entry() {
    let now = start();
    let mut pool = pool_of(vec!["a:1".into()]);
    let kept = pool.client_with_cell("a:1", now);
    let mut cells = vec![];
    for i in 0..20 {
        let endpoint = format!("bad-{i}:1");
        let cell = pool.client_with_cell(&endpoint, now);
        let refused: Result<(), ClientError> = Err(ClientError::Connector("boom".into()));
        assert_eq!(
            pool.dialed(&endpoint, cell, refused),
            Err(ClientError::Connector("boom".into()))
        );
        cells.push((endpoint, cell));
    }
    for (endpoint, cell) in &cells {
        assert!(!pool.holds(endpoint, *cell));
        assert_ne!(pool.client_with_cell(endpoint, now), *cell);
    }
    assert!(pool.holds("a:1", kept));
}

/// Dials as a caller does: the cell is asked for, and the connector where nobody opened it yet.
struct Dialer {
    pool: ChannelPool,
    seen: Vec<String>,
    open: Vec<(String, u64)>,
}

impl Dialer {
    fn new(endpoints: Vec<String>) -> Dialer {
        Dialer {
            pool: pool_of(endpoints),
            seen: vec![],
            open: vec![],
        }
    }

    fn client(
        &mut self,
        endpoint: &str,
        connector: &dyn Fn(&str) -> Result<(), ClientError>,
    ) -> Result<u64, ClientError> {
        let cell = self.pool.client_with_cell(endpoint, start());
        let mut outcome = Ok(());
        if !self.open.contains(&(endpoint.to_string(), cell)) {
            let raw = match self.pool.dial_plan(endpoint) {
                DialPlan::Custom(raw) => raw,
                other => panic!("the connector must be asked, got {other:?}"),
            };
            outcome = connector(&raw);
            self.seen.push(raw);
            if outcome.is_ok() {
                self.open.push((endpoint.to_string(), cell));
            }
        }
        let ((), cell) = self.pool.dialed(endpoint, cell, outcome)?;
        Ok(cell)
    }
}

fn refuses(endpoint: &str) -> Result<(), ClientError> {
    Err(ClientError::InvalidEndpoint(endpoint.into()))
}

#[test]
fn channel_pool_pool_with_custom_connector_invokes_closure_per_endpoint() {
    let mut dialer = Dialer::new(vec!["a:1".into(), "b:1".into()]);
    let _ = dialer.client("a:1", &refuses);
    let _ = dialer.client("b:1", &refuses);
    assert_eq!(dialer.seen, vec!["a:1", "b:1"]);
}

#[test]
fn channel_pool_pool_caches_channel_from_custom_connector() {
    let mut dialer = Dialer::new(vec!["a:1".into()]);
    dialer.client("a:1", &|_| Ok(())).expect("first client() must succeed");
    dialer.client("a:1", &|_| Ok(())).expect("second client() must hit cache");
    assert_eq!(dialer.seen.len(), 1);
}

#[test]
fn channel_pool_racing_first_callers_connect_endpoint_exactly_once() {
    let mut dialer = Dialer::new(vec!["a:1".into()]);
    let endpoint = "a:1";
    let cells: Vec<u64> = (0..16)
        .map(|_| dialer.pool.client_with_cell(endpoint, start()))
        .collect();
    assert!(cells.iter().all(|cell| *cell == cells[0]), "one cell for all racers");
    for cell in cells {
        assert_eq!(dialer.client(endpoint, &|_| Ok(())), Ok(cell));
    }
    assert_eq!(dialer.seen.len(), 1, "racers must share a single connect");
}

#[test]
fn channel_pool_leader_hint_endpoint_goes_through_same_connector() {
    let mut dialer = Dialer::new(vec!["a:1".into()]);
    let _ = dialer.client("hinted:1", &refuses);
    assert_eq!(dialer.seen, vec!["hinted:1"]);
}

#[test]
fn channel_pool_failed_dials_do_not_accumulate_in_channel_cache() {
    let mut dialer = Dialer::new(Vec::new());
    for i in 0..8 {
        let endpoint = format!("attacker-hint-{i}:1");
        assert_eq!(
            dialer.client(&endpoint, &refuses),
            Err(ClientError::InvalidEndpoint(endpoint.clone()))
        );
    }
    for i in 0..8 {
        let endpoint = format!("attacker-hint-{i}:1");
        let endpoint = endpoint.as_str();
        let cell = dialer.pool.client_with_cell(endpoint, start());
        assert!(cell >= 8, "no cell of a failed dial is handed out again");
    }
}

fn built_in(connector: Connector) -> ChannelPool {
    ChannelPool::new(vec!["a:1".into()], connector, false, RetryPolicy::default())
}

#[test]
fn an_endpoint_that_is_no_uri_is_not_dialed() {
    let plain = built_in(Connector::Plaintext);
    assert!(matches!(plain.dial_target("a:1"), Ok(DialPlan::BuiltIn(uri)) if uri == "http://a:1"));
    let tls = built_in(Connector::Tls);
    assert!(matches!(tls.dial_target("a:1"), Ok(DialPlan::BuiltIn(uri)) if uri == "https://a:1"));
    assert!(matches!(
        tls.dial_target("http://a:1"),
        Ok(DialPlan::BuiltIn(uri)) if uri == "http://a:1"
    ));
    for bad in ["", "a b:1", "http://", "https://a:1 b"] {
        for pool in [&plain, &tls] {
            assert!(matches!(
                pool.dial_target(bad),
                Err(ClientError::InvalidEndpoint(named)) if named == bad
            ));
        }
    }
    let custom = built_in(Connector::Custom);
    assert!(matches!(custom.dial_target("a b:1"), Ok(DialPlan::Custom(raw)) if raw == "a b:1"));
}

#[test]
fn a_plan_is_judged_by_whether_its_uri_can_be_read() {
    let plan = || DialPlan::BuiltIn("http://a:1".into());
    assert!(matches!(plan().judged("a:1", true), Ok(DialPlan::BuiltIn(uri)) if uri == "http://a:1"));
    assert!(matches!(
        plan().judged("a:1", false),
        Err(ClientError::InvalidEndpoint(named)) if named == "a:1"
    ));
    for readable in [false, true] {
        assert!(matches!(
            DialPlan::Custom("a:1".into()).judged("a:1", readable),
            Ok(DialPlan::Custom(raw)) if raw == "a:1"
        ));
    }
}

#[test]
fn a_failed_uri_gives_its_cell_up() {
    let mut pool = built_in(Connector::Plaintext);
    let now = Instant::at(Duration::from_secs(1));
    assert!(pool.can_lease("a b:1"));
    let cell = pool.client_with_cell("a b:1", now);
    let outcome = pool.dial_target("a b:1");
    assert!(pool.dialed("a b:1", cell, outcome).is_err());
    assert!(!pool.holds("a b:1", cell));
    assert_ne!(pool.client_with_cell("a b:1", now), cell);
}
