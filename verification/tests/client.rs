use tsoracle::attempt::{
    connect_timeout_error, rpc_timeout_error, Attempt, AttemptOutcome, Connected, Reply,
};
use tsoracle::budget::{Budget, PairBudget};
use tsoracle::channel_pool::{ChannelPool, Connector, DialPlan};
use tsoracle::client::{Client, ClientBuilder, MaxSafeReply, SeqLimits};
use tsoracle::error::ClientError;
use tsoracle::leader_hint::{EpochWire, LeaderHint, LeaderHintLookup};
use tsoracle::response::{
    decode_get_ts_response, GetTsResponse, TimestampRange, MAX_TIMESTAMPS_PER_RPC,
};
use tsoracle::retry_policy::{backoff_window_micros, jittered_backoff, should_backoff, RetryPolicy};
use tsoracle::seq_attempt::{
    classify_seq_status, seq_replied, GetSeqResponse, SeqAttemptOutcome, SeqReply,
};
use tsoracle::status::{Code, Status, Trailer};
use tsoracle::time::{Duration, Instant};
use tsoracle::timestamp::{Epoch, Timestamp, LOGICAL_MAX, PHYSICAL_MS_MAX};
use tsoracle::transport::{normalize_uri, speaks_tls};
use tsoracle::worklist::Worklist;

fn start() -> Instant {
    Instant::at(Duration::from_secs(1_000))
}

fn at(millis: u64) -> Instant {
    Instant::at(Duration::from_millis(1_000_000 + millis))
}

fn status(code: Code, message: &str) -> Status {
    Status::new(code, message.into())
}

fn pool_of(endpoints: &[&str]) -> ChannelPool {
    let endpoints = endpoints.iter().map(|endpoint| endpoint.to_string()).collect();
    ChannelPool::with_rotation(
        endpoints,
        Connector::Plaintext,
        false,
        RetryPolicy::default(),
        0,
    )
}

#[test]
fn visits_each_endpoint_once_despite_duplicates() {
    let mut worklist = Worklist::new(vec!["a:1".into(), "b:1".into(), "a:1".into()]);
    assert_eq!(worklist.next().as_deref(), Some("a:1"));
    assert_eq!(worklist.next().as_deref(), Some("b:1"));
    assert_eq!(worklist.next(), None, "the duplicate a:1 must be skipped");
}

#[test]
fn redirect_to_dials_the_hinted_endpoint_next() {
    let mut worklist = Worklist::new(vec!["a:1".into(), "b:1".into()]);
    assert_eq!(worklist.next().as_deref(), Some("a:1"));
    worklist.redirect_to("c:1".into());
    assert_eq!(
        worklist.next().as_deref(),
        Some("c:1"),
        "the hinted leader must jump ahead of the queued b:1",
    );
    assert_eq!(worklist.next().as_deref(), Some("b:1"));
}

#[test]
fn redirect_to_visited_endpoint_is_skipped() {
    let mut worklist = Worklist::new(vec!["a:1".into(), "b:1".into()]);
    assert_eq!(worklist.next().as_deref(), Some("a:1"));
    worklist.redirect_to("a:1".into());
    assert_eq!(
        worklist.next().as_deref(),
        Some("b:1"),
        "a redirect to the already-visited a:1 must be skipped",
    );
    assert_eq!(worklist.next(), None);
}

#[test]
fn bare_endpoint_without_tls_yields_http() {
    assert_eq!(normalize_uri("host:1", false), "http://host:1");
}

#[test]
fn bare_endpoint_with_tls_yields_https() {
    assert_eq!(normalize_uri("host:1", true), "https://host:1");
}

#[test]
fn explicit_http_preserved_under_tls() {
    assert_eq!(normalize_uri("http://host:1", true), "http://host:1");
}

#[test]
fn explicit_https_preserved_without_tls() {
    assert_eq!(normalize_uri("https://host:1", false), "https://host:1");
}

#[test]
fn normalizing_twice_changes_nothing() {
    for tls in [false, true] {
        for endpoint in ["host:1", "http://host:1", "https://host:1", "", "http:/x"] {
            let once = normalize_uri(endpoint, tls);
            assert_eq!(normalize_uri(&once, tls), once);
            assert_eq!(normalize_uri(&once, !tls), once);
        }
    }
}

#[test]
fn defaults_match_documented_values() {
    let policy = RetryPolicy::default();
    assert_eq!(policy.max_attempts, 5);
    assert_eq!(policy.per_attempt_deadline, Duration::from_secs(2));
    assert_eq!(policy.overall_deadline, Duration::from_secs(10));
    assert_eq!(policy.base_backoff, Duration::from_millis(50));
    assert_eq!(policy.leader_ttl, Duration::from_secs(30));
}

#[test]
fn jittered_backoff_zero_base_returns_zero() {
    for attempt in 0..5 {
        assert_eq!(jittered_backoff(Duration::zero(), attempt), Duration::zero());
    }
}

#[test]
fn jittered_backoff_respects_window_at_attempt_zero() {
    let base = Duration::from_millis(10);
    for _ in 0..200 {
        let picked = jittered_backoff(base, 0);
        assert!(
            picked <= base,
            "attempt 0 must be in [0, base]; got {picked:?} > {base:?}"
        );
    }
}

#[test]
fn jittered_backoff_respects_window_at_higher_attempts() {
    let base = Duration::from_millis(10);
    for attempt in 1..6u32 {
        let upper = Duration::from_millis(10 * (1u64 << attempt)).shorter(RetryPolicy::max_backoff());
        for _ in 0..200 {
            let picked = jittered_backoff(base, attempt);
            assert!(
                picked <= upper,
                "attempt {attempt} must be in [0, {upper:?}]; got {picked:?}"
            );
        }
    }
}

#[test]
fn jittered_backoff_caps_at_max_backoff() {
    let base = Duration::from_secs(10);
    for _ in 0..200 {
        let picked = jittered_backoff(base, 5);
        assert!(
            picked <= RetryPolicy::max_backoff(),
            "saturating cap must hold; got {picked:?} > {:?}",
            RetryPolicy::max_backoff()
        );
    }
}

#[test]
fn jittered_backoff_produces_a_distribution_not_a_constant() {
    let base = Duration::from_millis(100);
    let mut min = Duration::from_secs(u64::MAX);
    let mut max = Duration::zero();
    for _ in 0..200 {
        let picked = jittered_backoff(base, 3);
        if picked < min {
            min = picked;
        }
        if picked > max {
            max = picked;
        }
    }
    assert!(
        max > min,
        "jittered_backoff must produce a distribution; min={min:?}, max={max:?}"
    );
}

#[test]
fn backoff_windows_double_up_to_the_cap() {
    let base = Duration::from_millis(50);
    assert_eq!(backoff_window_micros(base, 0), 50_000);
    assert_eq!(backoff_window_micros(base, 3), 400_000);
    assert_eq!(backoff_window_micros(base, 6), 3_200_000);
    assert_eq!(backoff_window_micros(base, 7), 5_000_000);
    assert_eq!(backoff_window_micros(base, u32::MAX), 5_000_000);
    assert_eq!(backoff_window_micros(Duration::from_micros(1), 21), 2_097_152);
    assert_eq!(backoff_window_micros(Duration::zero(), 40), 0);
}

#[test]
fn should_backoff_matches_documented_status_codes() {
    assert!(should_backoff(&ClientError::Rpc(status(Code::Unavailable, "u"))));
    assert!(should_backoff(&ClientError::Rpc(status(Code::DeadlineExceeded, "d"))));
    assert!(!should_backoff(&ClientError::Rpc(status(Code::Internal, "i"))));
    assert!(!should_backoff(&ClientError::Rpc(status(
        Code::FailedPrecondition,
        "fp"
    ))));
    assert!(!should_backoff(&ClientError::NoReachableEndpoints));
    assert!(should_backoff(&ClientError::TransportFanout("t".into())));
    assert!(!should_backoff(&ClientError::InvalidEndpoint("e".into())));
    assert!(!should_backoff(&ClientError::InvalidCount(0)));
    assert!(!should_backoff(&ClientError::DriverGone));
}

#[test]
fn classify_unavailable_after_send_is_uncertain() {
    let outcome = classify_seq_status(status(Code::Unavailable, "connection reset"), true);
    assert!(matches!(outcome, SeqAttemptOutcome::Uncertain));
}

#[test]
fn classify_unavailable_before_send_is_no_leader_yet() {
    let refused = status(Code::Unavailable, "no connection established");
    let outcome = classify_seq_status(refused, false);
    assert!(matches!(outcome, SeqAttemptOutcome::NoLeaderYet(_)));
}

#[test]
fn what_a_sent_block_request_is_sure_of() {
    for code in [Code::Internal, Code::Unknown, Code::Cancelled, Code::Aborted] {
        assert!(matches!(
            classify_seq_status(status(code, "after send"), true),
            SeqAttemptOutcome::Uncertain
        ));
    }
    assert!(matches!(
        classify_seq_status(status(Code::InvalidArgument, "key"), true),
        SeqAttemptOutcome::Failed(ClientError::InvalidSeqKey)
    ));
    assert!(matches!(
        classify_seq_status(status(Code::FailedPrecondition, "quota"), true),
        SeqAttemptOutcome::Failed(ClientError::Rpc(s)) if s.code == Code::FailedPrecondition
    ));
}

#[test]
fn timestamp_range_iter_yields_contiguous_packed_timestamps() {
    let range = TimestampRange::new(1_000, 5, 3);
    assert_eq!(range.count(), 3);
    let timestamps: Vec<Timestamp> = range.iter();
    assert_eq!(
        timestamps,
        vec![
            Timestamp::pack(1_000, 5),
            Timestamp::pack(1_000, 6),
            Timestamp::pack(1_000, 7),
        ],
    );
}

fn answer(physical_ms: u64, logical_start: u32, count: u32) -> GetTsResponse {
    GetTsResponse {
        physical_ms,
        logical_start,
        count,
        epoch_hi: 0,
        epoch_lo: 0,
    }
}

#[test]
fn rejects_out_of_range_physical_ms() {
    let err = decode_get_ts_response(answer(PHYSICAL_MS_MAX + 1, 0, 1), 1).unwrap_err();
    assert!(matches!(err, ClientError::Rpc(_)));
}

#[test]
fn rejects_zero_count_when_requested_zero() {
    let err = decode_get_ts_response(answer(1, 0, 0), 0).unwrap_err();
    let ClientError::Rpc(status) = err else {
        panic!("expected Rpc, got something else");
    };
    assert!(status.message.contains("out-of-range count=0"));
}

#[test]
fn rejects_oversized_count_when_requested_oversized() {
    let oversized = MAX_TIMESTAMPS_PER_RPC + 1;
    let err = decode_get_ts_response(answer(1, 0, oversized), oversized).unwrap_err();
    let ClientError::Rpc(status) = err else {
        panic!("expected Rpc, got something else");
    };
    assert!(status.message.contains("out-of-range"));
}

#[test]
fn rejects_a_count_that_was_not_requested() {
    assert!(matches!(
        decode_get_ts_response(answer(1, 0, 4), 5),
        Err(ClientError::Rpc(_))
    ));
}

#[test]
fn rejects_a_range_across_the_logical_limit() {
    assert!(matches!(
        decode_get_ts_response(answer(1, LOGICAL_MAX, 2), 2),
        Err(ClientError::Rpc(_))
    ));
    assert!(decode_get_ts_response(answer(1, LOGICAL_MAX, 1), 1).is_ok());
}

#[test]
fn sound_answers_become_increasing_timestamps() {
    let range = decode_get_ts_response(answer(PHYSICAL_MS_MAX, 3, 500), 500).unwrap();
    assert_eq!(range.count(), 500);
    let timestamps = range.iter();
    assert_eq!(timestamps.len(), 500);
    for (index, timestamp) in timestamps.iter().enumerate() {
        assert_eq!(timestamp.physical_ms(), PHYSICAL_MS_MAX);
        assert_eq!(timestamp.logical(), 3 + index as u32);
    }
    for pair in timestamps.windows(2) {
        assert!(pair[0] < pair[1]);
    }
}

#[test]
fn timestamps_and_epochs_survive_packing() {
    let packed = Timestamp::try_pack(7, LOGICAL_MAX).unwrap();
    assert_eq!((packed.physical_ms(), packed.logical()), (7, LOGICAL_MAX));
    assert_eq!(Timestamp::pack(1, 0).0, 1 << 18);
    assert!(Timestamp::try_pack(7, LOGICAL_MAX + 1).is_err());
    assert!(Timestamp::try_pack(PHYSICAL_MS_MAX + 1, 0).is_err());
    assert_eq!(Epoch::from_wire(3, 9).0, (3u128 << 64) + 9);
    assert_eq!(Epoch::from_wire(3, 9).to_wire(), (3, 9));
}

#[test]
fn connector_variant_renders_source_in_display() {
    let err = ClientError::Connector("boom".into());
    assert_eq!(err.text(), "custom channel connector failed: boom");
}

#[test]
fn client_errors_are_described() {
    assert_eq!(
        ClientError::InvalidEndpoint("garbage".into()).text(),
        "invalid endpoint: garbage"
    );
    assert_eq!(ClientError::InvalidCount(4_294_967_295).text(), "invalid count: 4294967295");
    assert_eq!(
        ClientError::DriverGone.text(),
        "client driver task is gone; subsequent requests cannot be served by this Client"
    );
    let unavailable = ClientError::Rpc(status(Code::Unavailable, "down"));
    let shown = tonic::Status::new(tonic::Code::Unavailable, "down").to_string();
    assert!(unavailable.text().ends_with(&shown), "got {}", unavailable.text());
    assert_ne!(unavailable.text(), "down");
}

#[test]
fn a_status_shows_the_error_it_was_made_from() {
    let mut received = tonic::Status::new(tonic::Code::Unavailable, "down");
    received.set_source(std::sync::Arc::new(std::io::Error::other("reset")));
    let mut kept = status(Code::Unavailable, "down");
    kept.source = Some(format!("{:?}", std::io::Error::other("reset")));
    kept.details = vec![1, 2, 3];
    assert_eq!(kept.text(), received.to_string());
    assert_eq!(
        ClientError::Rpc(kept.clone()).text(),
        format!("rpc: {received}")
    );
    assert_eq!(kept.clone(), kept);
}

#[test]
fn status_codes_have_their_wire_numbers() {
    assert_eq!(Code::Success.number(), 0);
    assert_eq!(Code::InvalidArgument.number(), 3);
    assert_eq!(Code::DeadlineExceeded.number(), 4);
    assert_eq!(Code::FailedPrecondition.number(), 9);
    assert_eq!(Code::Internal.number(), 13);
    assert_eq!(Code::Unavailable.number(), 14);
    assert_eq!(Code::Unauthenticated.number(), 16);
}

#[test]
fn cloned_statuses_keep_their_trailers() {
    let mut original = status(Code::FailedPrecondition, "not leader");
    original.trailers.push(Trailer {
        key: "x-trace-id".into(),
        value: vec![1, 2, 3, 4],
    });
    assert_eq!(original.clone(), original);
}

#[test]
fn durations_are_described_as_std_describes_them() {
    assert_eq!(Duration::from_millis(1_500).text(), "1.5s");
    assert_eq!(Duration::from_micros(20).text(), "20µs");
    assert_eq!(Duration::zero().text(), "0ns");
    assert_eq!(Duration::new(u64::MAX, 999_999_999).as_nanos() % 1_000, 999);
}

fn policy(per_attempt: Duration, overall: Duration) -> RetryPolicy {
    RetryPolicy {
        max_attempts: 5,
        per_attempt_deadline: per_attempt,
        overall_deadline: overall,
        base_backoff: Duration::from_millis(1),
        leader_ttl: Duration::from_secs(30),
    }
}

#[test]
fn next_attempt_is_capped_by_per_attempt_deadline() {
    let rules = policy(Duration::from_millis(100), Duration::from_secs(10));
    let budget = Budget::start(&rules, at(0));
    assert_eq!(budget.next_attempt(at(0)), Some(Duration::from_millis(100)));
}

#[test]
fn next_attempt_returns_none_past_overall_deadline() {
    let rules = policy(Duration::from_millis(100), Duration::from_millis(50));
    let budget = Budget::start(&rules, at(0));
    assert_eq!(
        budget.next_attempt(at(60)),
        None,
        "no attempt may start after the overall deadline",
    );
    assert_eq!(budget.next_attempt(at(50)), None);
    assert_eq!(budget.next_attempt(at(49)), Some(Duration::from_millis(1)));
}

#[test]
fn next_attempt_is_capped_by_remaining_overall_budget() {
    let rules = policy(Duration::from_secs(10), Duration::from_millis(100));
    let budget = Budget::start(&rules, at(0));
    assert_eq!(budget.next_attempt(at(70)), Some(Duration::from_millis(30)));
}

#[test]
fn clamp_backoff_caps_at_remaining_overall_budget() {
    let rules = policy(Duration::from_secs(10), Duration::from_millis(100));
    let budget = Budget::start(&rules, at(0));
    assert_eq!(
        budget.clamp_backoff(Duration::from_secs(5), at(80)),
        Duration::from_millis(20)
    );
    assert_eq!(
        budget.clamp_backoff(Duration::from_millis(3), at(80)),
        Duration::from_millis(3)
    );
}

#[test]
fn clamp_backoff_floors_at_zero_past_deadline() {
    let rules = policy(Duration::from_secs(10), Duration::from_millis(50));
    let budget = Budget::start(&rules, at(0));
    assert_eq!(
        budget.clamp_backoff(Duration::from_secs(5), at(60)),
        Duration::zero(),
        "an elapsed deadline must yield a zero-length backoff",
    );
}

#[test]
fn pair_budget_remaining_floors_at_zero() {
    let pair = PairBudget::start(Duration::from_millis(50), at(0));
    assert_eq!(
        pair.remaining(at(60)),
        Duration::zero(),
        "a fully-consumed pair budget must floor at zero",
    );
}

#[test]
fn pair_budget_remaining_returns_leftover() {
    let pair = PairBudget::start(Duration::from_millis(100), at(0));
    assert_eq!(pair.remaining(at(40)), Duration::from_millis(60));
}

#[test]
fn connect_and_rpc_share_one_budget() {
    let attempt = Attempt::start(Duration::from_millis(100), at(0));
    let (channel, left) = attempt.connected(Connected::Leased("c"), at(30)).unwrap();
    assert_eq!(channel, "c");
    assert_eq!(left, Duration::from_millis(70));
    let (_, used_up) = attempt.connected(Connected::Leased(()), at(130)).unwrap();
    assert_eq!(used_up, Duration::zero());
    match attempt.connected(Connected::<()>::TimedOut, at(100)) {
        Err(ClientError::Rpc(s)) => {
            assert_eq!(s.code, Code::DeadlineExceeded);
            assert_eq!(
                connect_timeout_error(Duration::from_millis(100)),
                ClientError::Rpc(s)
            );
        }
        other => panic!("expected a timeout, got {other:?}"),
    }
    assert!(matches!(
        attempt.connected(Connected::<()>::Failed(ClientError::Connector("x".into())), at(1)),
        Err(ClientError::Connector(_))
    ));
}

#[test]
fn only_transport_failures_give_up_the_channel() {
    let now = start();
    let budget = Duration::from_secs(1);
    for (code, given_up) in [
        (Code::Unavailable, true),
        (Code::DeadlineExceeded, true),
        (Code::Internal, false),
        (Code::ResourceExhausted, false),
    ] {
        let mut pool = pool_of(&["a:1"]);
        let cell = pool.client_with_cell("a:1", now);
        let attempt = Attempt::start(budget, now);
        let refused = Reply::Refused {
            status: status(code, "x"),
            hint: LeaderHintLookup::Absent,
        };
        let outcome = attempt.replied(&mut pool, "a:1", cell, 1, refused, budget, now);
        assert!(matches!(outcome, AttemptOutcome::Failed(ClientError::Rpc(_))));
        assert_eq!(pool.client_with_cell("a:1", now) != cell, given_up);
    }
    let mut pool = pool_of(&["a:1"]);
    let cell = pool.client_with_cell("a:1", now);
    let attempt = Attempt::start(budget, now);
    let outcome = attempt.replied(&mut pool, "a:1", cell, 1, Reply::TimedOut, budget, now);
    match outcome {
        AttemptOutcome::Failed(error) => assert_eq!(error, rpc_timeout_error(budget, budget)),
        other => panic!("expected a timeout, got {other:?}"),
    }
    assert_ne!(pool.client_with_cell("a:1", now), cell);
}

#[test]
fn a_malformed_answer_fails_without_giving_up_the_channel() {
    let now = start();
    let budget = Duration::from_secs(1);
    let mut pool = pool_of(&["a:1"]);
    let cell = pool.client_with_cell("a:1", now);
    let attempt = Attempt::start(budget, now);
    let reply = Reply::Answer(answer(1, 0, 2));
    let outcome = attempt.replied(&mut pool, "a:1", cell, 1, reply, budget, now);
    assert!(matches!(outcome, AttemptOutcome::Failed(ClientError::Rpc(_))));
    assert_eq!(pool.client_with_cell("a:1", now), cell);
}

#[test]
fn an_attempt_serves_or_redirects() {
    let now = start();
    let budget = Duration::from_secs(1);
    let mut pool = pool_of(&["a:1", "b:1"]);
    let cell = pool.client_with_cell("a:1", now);
    let attempt = Attempt::start(budget, now);
    let sound = GetTsResponse {
        physical_ms: 9,
        logical_start: 1,
        count: 2,
        epoch_hi: 1,
        epoch_lo: 5,
    };
    match attempt.replied(&mut pool, "a:1", cell, 2, Reply::Answer(sound), budget, now) {
        AttemptOutcome::Served { range, epoch } => {
            assert_eq!(range, TimestampRange::new(9, 1, 2));
            assert_eq!(epoch, (1u128 << 64) + 5);
        }
        other => panic!("expected timestamps, got {other:?}"),
    }
    let refused = Reply::Refused {
        status: status(Code::FailedPrecondition, "not leader"),
        hint: LeaderHintLookup::Decoded(LeaderHint {
            leader_endpoint: Some("b:1".into()),
            leader_epoch: None,
        }),
    };
    match attempt.replied(&mut pool, "a:1", cell, 2, refused, budget, now) {
        AttemptOutcome::LeaderHint {
            status, endpoint, ..
        } => {
            assert_eq!(endpoint, "b:1");
            assert_eq!(status.message, "not leader");
        }
        other => panic!("expected a redirect, got {other:?}"),
    }
}

fn block(key: &str, count: u32, epoch: Option<u64>) -> SeqReply {
    SeqReply::Answer(GetSeqResponse {
        key: key.into(),
        start: 40,
        count,
        epoch: epoch.map(|lo| EpochWire { hi: 0, lo }),
    })
}

#[test]
fn a_block_counts_only_where_it_is_the_one_asked_for() {
    let now = start();
    let key: String = "orders".into();
    let mut pool = pool_of(&["a:1"]);
    let cell = pool.client_with_cell("a:1", now);
    let taken = seq_replied(&mut pool, "a:1", cell, &key, 3, block("orders", 3, Some(8)), now);
    let taken = taken.expect("the block is the one asked for");
    assert_eq!((taken.start, taken.count, taken.epoch), (40, 3, 8));
    for wrong in [
        block("orders", 2, Some(8)),
        block("other", 3, Some(8)),
        block("orders", 3, None),
        SeqReply::TimedOut,
    ] {
        assert!(matches!(
            seq_replied(&mut pool, "a:1", cell, &key, 3, wrong, now),
            Err(SeqAttemptOutcome::Uncertain)
        ));
    }
}

fn names(endpoints: &[&str]) -> Vec<String> {
    endpoints.iter().map(|endpoint| endpoint.to_string()).collect()
}

#[test]
fn cached_leader_is_none_before_any_rpc() {
    let client = Client::connect(names(&["a:1"])).expect("client builds");
    assert_eq!(client.cached_leader(start()), None);
}

#[test]
fn build_rejects_empty_endpoint_list() {
    assert!(matches!(
        Client::connect(Vec::new()),
        Err(ClientError::NoReachableEndpoints)
    ));
}

#[test]
fn the_last_way_to_dial_wins() {
    let custom = ClientBuilder::endpoints(names(&["a:1"]))
        .tls_config()
        .channel_connector()
        .build()
        .unwrap();
    assert!(matches!(custom.pool().dial_plan("a:1"), DialPlan::Custom(_)));
    let tls = ClientBuilder::endpoints(names(&["a:1"]))
        .channel_connector()
        .tls_config()
        .build()
        .unwrap();
    assert!(tls.pool().tls_required());
    assert!(matches!(
        tls.pool().dial_plan("a:1"),
        DialPlan::BuiltIn(uri) if uri == "https://a:1"
    ));
}

#[test]
fn the_builder_hands_its_settings_on() {
    let rules = RetryPolicy {
        max_attempts: 9,
        ..RetryPolicy::default()
    };
    let client = ClientBuilder::endpoints(names(&["a:1"]))
        .batch_flush_interval(Duration::from_millis(7))
        .retry_policy(rules)
        .build()
        .unwrap();
    assert_eq!(client.pool().retry_policy().max_attempts, 9);
    assert_eq!(client.into_parts().1, Duration::from_millis(7));
}

#[test]
fn counts_are_checked_before_anything_is_queued() {
    assert!(matches!(
        Client::get_ts_batch(0, ()),
        Err(ClientError::InvalidCount(0))
    ));
    assert!(matches!(
        Client::get_ts_batch(MAX_TIMESTAMPS_PER_RPC + 1, ()),
        Err(ClientError::InvalidCount(_))
    ));
    assert_eq!(Client::get_ts_batch(MAX_TIMESTAMPS_PER_RPC, ()).unwrap().count, 262_144);
    assert_eq!(Client::get_ts(()).count, 1);
}

#[test]
fn block_requests_are_checked_before_anything_is_sent() {
    let limits = SeqLimits {
        max_key_len: 4,
        max_count: 10,
    };
    let mut pool = pool_of(&["a:1"]);
    assert!(matches!(
        Client::get_seq(&mut pool, "", 1, limits, start()),
        Err(ClientError::InvalidSeqKey)
    ));
    assert!(matches!(
        Client::get_seq(&mut pool, "abcde", 1, limits, start()),
        Err(ClientError::InvalidSeqKey)
    ));
    assert!(matches!(
        Client::get_seq(&mut pool, "ab", 0, limits, start()),
        Err(ClientError::InvalidCount(0))
    ));
    assert!(matches!(
        Client::get_seq(&mut pool, "ab", 11, limits, start()),
        Err(ClientError::InvalidCount(11))
    ));
    assert!(Client::get_seq(&mut pool, "abcd", 10, limits, start()).is_ok());
}

#[test]
fn the_safe_point_is_asked_of_the_leader_first() {
    let now = start();
    let mut pool = pool_of(&["a:1", "b:1"]);
    assert_eq!(Client::get_current_max_safe(&pool, now).unwrap(), "a:1");
    assert_eq!(Client::get_current_max_safe(&pool, now).unwrap(), "a:1");
    pool.record_success("b:1", 4, now);
    assert_eq!(Client::get_current_max_safe(&pool, now).unwrap(), "b:1");
    let empty = pool_of(&[]);
    assert!(matches!(
        Client::get_current_max_safe(&empty, now),
        Err(ClientError::NoReachableEndpoints)
    ));
    let cell = pool.client_with_cell("b:1", now);
    let budget = Duration::from_secs(1);
    let timed_out =
        Client::max_safe_replied(&mut pool, "b:1", cell, MaxSafeReply::TimedOut, budget, budget);
    assert!(matches!(timed_out, Err(ClientError::Rpc(s)) if s.code == Code::DeadlineExceeded));
    assert_ne!(pool.client_with_cell("b:1", now), cell);
}

#[test]
fn every_endpoint_and_every_hint_is_handed_out_before_the_end() {
    let mut worklist = Worklist::new(vec!["a:1".into(), "b:1".into(), "a:1".into()]);
    let mut handed = vec![worklist.next().unwrap()];
    worklist.redirect_to("c:1".into());
    worklist.redirect_to("a:1".into());
    while let Some(endpoint) = worklist.next() {
        handed.push(endpoint);
    }
    assert_eq!(handed, vec!["a:1", "c:1", "b:1"]);
}

#[test]
fn a_status_is_shown_by_its_code_and_its_message() {
    let codes = [
        (Code::Success, "The operation completed successfully"),
        (Code::Cancelled, "The operation was cancelled"),
        (Code::Unknown, "Unknown error"),
        (Code::InvalidArgument, "Client specified an invalid argument"),
        (Code::DeadlineExceeded, "Deadline expired before operation could complete"),
        (Code::NotFound, "Some requested entity was not found"),
        (
            Code::AlreadyExists,
            "Some entity that we attempted to create already exists",
        ),
        (
            Code::PermissionDenied,
            "The caller does not have permission to execute the specified operation",
        ),
        (Code::ResourceExhausted, "Some resource has been exhausted"),
        (
            Code::FailedPrecondition,
            "The system is not in a state required for the operation's execution",
        ),
        (Code::Aborted, "The operation was aborted"),
        (Code::OutOfRange, "Operation was attempted past the valid range"),
        (Code::Unimplemented, "Operation is not implemented or not supported"),
        (Code::Internal, "Internal error"),
        (Code::Unavailable, "The service is currently unavailable"),
        (Code::DataLoss, "Unrecoverable data loss or corruption"),
        (
            Code::Unauthenticated,
            "The request does not have valid authentication credentials",
        ),
    ];
    for (code, words) in codes {
        assert_eq!(Status::new(code, "".into()).text(), format!("code: '{words}'"));
        assert_eq!(
            Status::new(code, "a \"b\"\n".into()).text(),
            format!("code: '{words}', message: \"a \\\"b\\\"\\n\"")
        );
    }
}

#[test]
fn only_https_is_opened_over_tls() {
    for (endpoint, tls, over_tls) in [
        ("a:1", false, false),
        ("a:1", true, true),
        ("http://a:1", true, false),
        ("https://a:1", false, true),
    ] {
        assert_eq!(speaks_tls(&normalize_uri(endpoint, tls)), over_tls);
    }
}
