use tsoracle::attempt::{AttemptOutcome, HintUnusableReason};
use tsoracle::channel_pool::{ChannelPool, Connector};
use tsoracle::leader_hint::{
    classify_not_leader_hint, rejects_plaintext_hint, EpochWire, LeaderHint, LeaderHintLookup,
};
use tsoracle::retry_policy::RetryPolicy;
use tsoracle::status::{Code, Status};
use tsoracle::time::{Duration, Instant};

fn start() -> Instant {
    Instant::at(Duration::from_secs(1_000))
}

fn pool_of(endpoints: &[&str], tls: bool) -> ChannelPool {
    let connector = if tls { Connector::Tls } else { Connector::Plaintext };
    let endpoints = endpoints.iter().map(|endpoint| endpoint.to_string()).collect();
    ChannelPool::new(endpoints, connector, tls, RetryPolicy::default())
}

fn not_leader(message: &str) -> Status {
    Status::new(Code::FailedPrecondition, message.into())
}

fn hint(endpoint: &str, epoch: Option<u64>) -> LeaderHintLookup {
    LeaderHintLookup::Decoded(LeaderHint {
        leader_endpoint: Some(endpoint.into()),
        leader_epoch: epoch.map(|lo| EpochWire { hi: 0, lo }),
    })
}

#[test]
fn plaintext_hint_policy_matches_scheme_and_tls_state() {
    let tls = pool_of(&["a:1"], true);
    let plain = pool_of(&["a:1"], false);
    assert!(
        rejects_plaintext_hint(&tls, "http://attacker:1"),
        "http:// hint must be rejected under tls_required"
    );
    assert!(
        !rejects_plaintext_hint(&tls, "https://peer:1"),
        "https:// hint must be allowed under tls_required"
    );
    assert!(
        !rejects_plaintext_hint(&tls, "peer:1"),
        "bare host:port hint must be allowed under tls_required (gets rewritten to https)"
    );
    assert!(
        !rejects_plaintext_hint(&plain, "http://peer:1"),
        "http:// hint must be allowed when tls is not required"
    );
}

#[test]
fn absent_hint_classifies_as_no_leader_yet() {
    let mut pool = pool_of(&["peer:1"], false);
    let status = not_leader("electing, no leader yet");
    match classify_not_leader_hint(&mut pool, status, LeaderHintLookup::Absent, start()) {
        AttemptOutcome::NoLeaderYet(s) => assert_eq!(s.code, Code::FailedPrecondition),
        other => panic!("absent hint must be NoLeaderYet, got {other:?}"),
    }
}

#[test]
fn classify_absent_hint_returns_no_leader_yet() {
    let mut pool = pool_of(&["a:1"], false);
    let status = not_leader("not leader");
    match classify_not_leader_hint(&mut pool, status, LeaderHintLookup::Absent, start()) {
        AttemptOutcome::NoLeaderYet(_) => {}
        other => panic!("expected NoLeaderYet, got {other:?}"),
    }
}

#[test]
fn classify_malformed_hint_returns_rejected() {
    let mut pool = pool_of(&["a:1"], false);
    let status = not_leader("not leader");
    match classify_not_leader_hint(&mut pool, status, LeaderHintLookup::Malformed, start()) {
        AttemptOutcome::HintUnusable {
            reason: HintUnusableReason::Rejected,
            ..
        } => {}
        other => panic!("expected HintUnusable {{ reason: Rejected }}, got {other:?}"),
    }
}

#[test]
fn classify_higher_epoch_hint_returns_leader_hint() {
    let now = start();
    let mut pool = pool_of(&["a:1", "b:1"], false);
    pool.record_success("a:1", 5, now);
    let lookup = hint("b:1", Some(7));
    match classify_not_leader_hint(&mut pool, not_leader("not leader"), lookup, now) {
        AttemptOutcome::LeaderHint {
            endpoint, epoch, ..
        } => {
            assert_eq!(endpoint, "b:1");
            assert_eq!(epoch, Some(7));
        }
        other => panic!("expected LeaderHint, got {other:?}"),
    }
}

#[test]
fn leader_hint_higher_epoch_hint_wins_regardless_of_arrival_order() {
    let now = start();
    for stale_first in [true, false] {
        let mut pool = pool_of(&["a:1", "b:1", "c:1"], false);
        pool.record_success("a:1", 1, now);
        let fresh = hint("c:1", Some(9));
        let stale = hint("b:1", Some(4));
        let ordered = if stale_first {
            vec![stale, fresh]
        } else {
            vec![fresh, stale]
        };
        for lookup in ordered {
            let _ = classify_not_leader_hint(&mut pool, not_leader("not leader"), lookup, now);
        }
        assert_eq!(
            pool.cached_leader(now).as_deref(),
            Some("c:1"),
            "must follow the epoch-9 leader (stale_first={stale_first})",
        );
    }
}

#[test]
fn classify_stale_epoch_hint_returns_stale_epoch() {
    let now = start();
    let mut pool = pool_of(&["a:1", "b:1"], false);
    pool.record_success("a:1", 10, now);
    let lookup = hint("b:1", Some(5));
    match classify_not_leader_hint(&mut pool, not_leader("not leader"), lookup, now) {
        AttemptOutcome::HintUnusable {
            status,
            reason: HintUnusableReason::StaleEpoch,
        } => assert_eq!(status.code, Code::FailedPrecondition),
        other => panic!("expected HintUnusable {{ reason: StaleEpoch }}, got {other:?}"),
    }
    assert_eq!(pool.cached_leader(now).as_deref(), Some("a:1"));
}

#[test]
fn classify_no_epoch_hint_returns_leader_hint() {
    let now = start();
    let mut pool = pool_of(&["a:1", "b:1"], false);
    pool.record_success("a:1", 10, now);
    let lookup = hint("b:1", None);
    match classify_not_leader_hint(&mut pool, not_leader("not leader"), lookup, now) {
        AttemptOutcome::LeaderHint {
            endpoint, epoch, ..
        } => {
            assert_eq!(endpoint, "b:1");
            assert_eq!(epoch, None);
        }
        other => panic!("expected LeaderHint, got {other:?}"),
    }
}

#[test]
fn classify_plaintext_hint_under_tls_returns_rejected() {
    let mut pool = pool_of(&["a:1"], true);
    let lookup = hint("http://attacker:1", Some(7));
    match classify_not_leader_hint(&mut pool, not_leader("not leader"), lookup, start()) {
        AttemptOutcome::HintUnusable {
            reason: HintUnusableReason::Rejected,
            ..
        } => {}
        other => panic!("expected HintUnusable {{ reason: Rejected }}, got {other:?}"),
    }
    assert_eq!(pool.cached_leader(start()), None);
}

#[test]
fn a_hint_without_endpoint_is_rejected() {
    let now = start();
    let mut pool = pool_of(&["a:1"], false);
    pool.record_success("a:1", 3, now);
    let lookup = LeaderHintLookup::Decoded(LeaderHint {
        leader_endpoint: None,
        leader_epoch: Some(EpochWire { hi: 0, lo: 9 }),
    });
    match classify_not_leader_hint(&mut pool, not_leader("x"), lookup, now) {
        AttemptOutcome::HintUnusable {
            reason: HintUnusableReason::Rejected,
            ..
        } => {}
        other => panic!("expected HintUnusable {{ reason: Rejected }}, got {other:?}"),
    }
    assert_eq!(pool.fresh_leader(now).expect("cache kept").epoch, Some(3));
}

#[test]
fn both_halves_of_a_hinted_epoch_count() {
    let now = start();
    let mut pool = pool_of(&["a:1", "b:1"], false);
    pool.record_success("a:1", u64::MAX as u128, now);
    let lookup = LeaderHintLookup::Decoded(LeaderHint {
        leader_endpoint: Some("b:1".into()),
        leader_epoch: Some(EpochWire { hi: 1, lo: 0 }),
    });
    match classify_not_leader_hint(&mut pool, not_leader("x"), lookup, now) {
        AttemptOutcome::LeaderHint { epoch, .. } => assert_eq!(epoch, Some(1u128 << 64)),
        other => panic!("expected LeaderHint, got {other:?}"),
    }
}
