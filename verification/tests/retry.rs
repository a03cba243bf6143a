use tsoracle::attempt::{AttemptOutcome, HintUnusableReason};
use tsoracle::channel_pool::{ChannelPool, Connector};
use tsoracle::error::ClientError;
use tsoracle::response::TimestampRange;
use tsoracle::retry::{
    surface_error, AfterAttempt, RetryLoop, Step, MAX_LEADER_REDIRECTS, MAX_TOTAL_LEADER_REDIRECTS,
};
use tsoracle::retry_policy::RetryPolicy;
use tsoracle::seq_attempt::{SeqAttemptOutcome, SeqBlock};
use tsoracle::status::{Code, Status};
use tsoracle::time::{Duration, Instant};

fn at(millis: u64) -> Instant {
    Instant::at(Duration::from_millis(1_000_000 + millis))
}

fn status(code: Code, message: &str) -> Status {
    Status::new(code, message.into())
}

fn short_policy() -> RetryPolicy {
    RetryPolicy {
        max_attempts: 2,
        per_attempt_deadline: Duration::from_millis(100),
        overall_deadline: Duration::from_millis(500),
        base_backoff: Duration::from_millis(1),
        leader_ttl: Duration::from_secs(30),
    }
}

fn pool_of(endpoints: &[&str], policy: RetryPolicy) -> ChannelPool {
    let endpoints = endpoints.iter().map(|endpoint| endpoint.to_string()).collect();
    ChannelPool::with_rotation(endpoints, Connector::Plaintext, false, policy, 0)
}

fn dialed(step: Step) -> String {
    match step {
        Step::Dial { endpoint, .. } => endpoint,
        other => panic!("expected a dial, got {other:?}"),
    }
}

fn unreachable() -> AttemptOutcome {
    AttemptOutcome::Failed(ClientError::Transport("refused".into()))
}

fn not_leader() -> Status {
    status(Code::FailedPrecondition, "not the leader")
}

fn pointing_at(endpoint: &str) -> AttemptOutcome {
    AttemptOutcome::LeaderHint {
        status: not_leader(),
        endpoint: endpoint.into(),
        epoch: None,
    }
}

fn electing() -> AttemptOutcome {
    AttemptOutcome::NoLeaderYet(status(Code::FailedPrecondition, "no leader yet"))
}

#[test]
fn sticky_election_signal_outranks_a_transport_straggler() {
    let election = status(Code::FailedPrecondition, "no leader yet");
    let timeout = ClientError::Rpc(status(Code::DeadlineExceeded, "rpc budget exhausted"));
    match surface_error(Some(election), Some(timeout)) {
        ClientError::Rpc(status) => assert_eq!(
            status.code,
            Code::FailedPrecondition,
            "election signal must outrank the transport timeout"
        ),
        other => panic!("expected the election FAILED_PRECONDITION, got {other:?}"),
    }
}

#[test]
fn deterministic_rejection_outranks_a_stale_election_signal() {
    let election = status(Code::FailedPrecondition, "no leader yet");
    let rejection = ClientError::Rpc(status(Code::Internal, "malformed leader hint"));
    match surface_error(Some(election), Some(rejection)) {
        ClientError::Rpc(status) => assert_eq!(
            status.code,
            Code::Internal,
            "a non-transport rejection must win over the election signal"
        ),
        other => panic!("expected the Internal rejection, got {other:?}"),
    }
}

#[test]
fn no_election_signal_falls_back_to_last_err_then_no_reachable_endpoints() {
    let timeout = ClientError::Rpc(status(Code::DeadlineExceeded, "budget exhausted"));
    match surface_error(None, Some(timeout)) {
        ClientError::Rpc(status) => assert_eq!(status.code, Code::DeadlineExceeded),
        other => panic!("expected the transport timeout, got {other:?}"),
    }
    assert!(
        matches!(surface_error(None, None), ClientError::NoReachableEndpoints),
        "no signal and no attempt must fall back to NoReachableEndpoints"
    );
}

#[test]
fn a_dead_pool_is_swept_once_and_its_error_reported() {
    let mut pool = pool_of(&["a:1", "b:1", "a:1", "c:1"], short_policy());
    let mut call = RetryLoop::start(&mut pool, at(0));
    for expected in ["a:1", "b:1", "c:1"] {
        assert_eq!(dialed(call.next(&mut pool, at(1))), expected);
        let after = call.on_attempt(&mut pool, expected, unreachable(), at(1));
        assert!(!matches!(after, AfterAttempt::Done(_)));
    }
    assert!(matches!(call.next(&mut pool, at(2)), Step::GiveUp));
    assert!(matches!(call.into_error(), ClientError::Transport(_)));
}

#[test]
fn no_endpoint_means_no_reachable_endpoint() {
    let mut pool = pool_of(&[], short_policy());
    let mut call = RetryLoop::start(&mut pool, at(0));
    assert!(matches!(call.next(&mut pool, at(0)), Step::GiveUp));
    assert!(matches!(call.into_error(), ClientError::NoReachableEndpoints));
}

#[test]
fn no_attempt_starts_past_the_deadline() {
    let mut pool = pool_of(&["a:1", "b:1"], short_policy());
    let mut call = RetryLoop::start(&mut pool, at(0));
    match call.next(&mut pool, at(450)) {
        Step::Dial { budget, .. } => assert_eq!(budget, Duration::from_millis(50)),
        other => panic!("expected a dial, got {other:?}"),
    }
    call.on_attempt(&mut pool, "a:1", unreachable(), at(499));
    assert!(matches!(call.next(&mut pool, at(500)), Step::GiveUp));
}

#[test]
fn success_seats_the_leader_and_ends_the_call() {
    let mut pool = pool_of(&["a:1", "b:1"], short_policy());
    let mut call = RetryLoop::start(&mut pool, at(0));
    assert_eq!(dialed(call.next(&mut pool, at(0))), "a:1");
    let served = AttemptOutcome::Served {
        range: TimestampRange::new(5, 0, 1),
        epoch: 3,
    };
    match call.on_attempt(&mut pool, "a:1", served, at(1)) {
        AfterAttempt::Done(range) => assert_eq!(range, TimestampRange::new(5, 0, 1)),
        other => panic!("expected timestamps, got {other:?}"),
    }
    assert_eq!(pool.fresh_leader(at(1)).unwrap().epoch, Some(3));
}

#[test]
fn redirects_are_not_charged_as_attempts() {
    let mut pool = pool_of(&["a:1"], short_policy());
    let mut call = RetryLoop::start(&mut pool, at(0));
    let mut endpoint = dialed(call.next(&mut pool, at(0)));
    for i in 0..MAX_LEADER_REDIRECTS {
        let hinted = format!("hop-{i}:1");
        let redirect = AttemptOutcome::LeaderHint {
            status: not_leader(),
            endpoint: hinted.clone(),
            epoch: Some(i as u128),
        };
        assert!(matches!(
            call.on_attempt(&mut pool, &endpoint, redirect, at(1)),
            AfterAttempt::Continue
        ));
        endpoint = dialed(call.next(&mut pool, at(1)));
        assert_eq!(endpoint, hinted);
    }
}

#[test]
fn an_endless_redirect_chain_ends_at_the_total_cap() {
    let mut pool = pool_of(&["a:1"], RetryPolicy::default());
    let mut call = RetryLoop::start(&mut pool, at(0));
    let mut hints = 0u32;
    let mut dials = 0u32;
    loop {
        match call.next(&mut pool, at(1)) {
            Step::Dial { endpoint, .. } => {
                dials += 1;
                hints += 1;
                let redirect = AttemptOutcome::LeaderHint {
                    status: not_leader(),
                    endpoint: format!("hop-{hints}:1"),
                    epoch: Some(hints as u128),
                };
                call.on_attempt(&mut pool, &endpoint, redirect, at(1));
            }
            Step::Backoff { .. } => {}
            Step::GiveUp => break,
        }
        assert!(dials < 200, "the chain must be cut off");
    }
    assert!(hints > MAX_TOTAL_LEADER_REDIRECTS);
    assert!(matches!(
        call.into_error(),
        ClientError::Rpc(s) if s.code == Code::FailedPrecondition
    ));
}

#[test]
fn an_election_is_ridden_out() {
    let mut pool = pool_of(&["a:1", "b:1"], RetryPolicy::default());
    let mut call = RetryLoop::start(&mut pool, at(0));
    for pass in 0..3u64 {
        let now = at(pass * 100);
        for _ in 0..2 {
            let endpoint = dialed(call.next(&mut pool, now));
            call.on_attempt(&mut pool, &endpoint, electing(), now);
        }
        match call.next(&mut pool, now) {
            Step::Backoff { exponent } => {
                let pause = call.pause(exponent, now);
                assert!(pause <= RetryPolicy::max_backoff());
            }
            other => panic!("expected another pass, got {other:?}"),
        }
    }
    let endpoint = dialed(call.next(&mut pool, at(400)));
    let served = AttemptOutcome::Served {
        range: TimestampRange::new(5, 0, 1),
        epoch: 3,
    };
    assert!(matches!(
        call.on_attempt(&mut pool, &endpoint, served, at(400)),
        AfterAttempt::Done(_)
    ));
}

#[test]
fn an_exhausted_ride_out_reports_the_election() {
    let mut pool = pool_of(&["a:1"], short_policy());
    let mut call = RetryLoop::start(&mut pool, at(0));
    dialed(call.next(&mut pool, at(0)));
    call.on_attempt(&mut pool, "a:1", electing(), at(1));
    assert!(matches!(call.next(&mut pool, at(1)), Step::Backoff { .. }));
    dialed(call.next(&mut pool, at(400)));
    let late = AttemptOutcome::Failed(ClientError::Rpc(status(Code::DeadlineExceeded, "late")));
    call.on_attempt(&mut pool, "a:1", late, at(500));
    assert!(matches!(call.next(&mut pool, at(500)), Step::GiveUp));
    assert!(matches!(
        call.into_error(),
        ClientError::Rpc(s) if s.code == Code::FailedPrecondition
    ));
}

#[test]
fn a_rejected_hint_is_not_ridden_out() {
    let mut pool = pool_of(&["a:1"], RetryPolicy::default());
    pool.record_success("a:1", 4, at(0));
    let mut call = RetryLoop::start(&mut pool, at(0));
    dialed(call.next(&mut pool, at(0)));
    let rejected = AttemptOutcome::HintUnusable {
        status: status(Code::FailedPrecondition, "bad hint"),
        reason: HintUnusableReason::Rejected,
    };
    call.on_attempt(&mut pool, "a:1", rejected, at(1));
    assert!(matches!(call.next(&mut pool, at(1)), Step::GiveUp));
    assert_eq!(pool.cached_leader(at(1)).as_deref(), Some("a:1"));
    assert!(matches!(
        call.into_error(),
        ClientError::Rpc(s) if s.code == Code::FailedPrecondition && s.message == "bad hint"
    ));
}

#[test]
fn a_stale_hint_is_ridden_out() {
    let mut pool = pool_of(&["a:1"], RetryPolicy::default());
    let mut call = RetryLoop::start(&mut pool, at(0));
    dialed(call.next(&mut pool, at(0)));
    let stale = AttemptOutcome::HintUnusable {
        status: status(Code::FailedPrecondition, "stale"),
        reason: HintUnusableReason::StaleEpoch,
    };
    call.on_attempt(&mut pool, "a:1", stale, at(1));
    assert!(matches!(call.next(&mut pool, at(1)), Step::Backoff { .. }));
}

#[test]
fn a_full_sweep_outlasts_the_attempt_cap() {
    let endpoints = ["a:1", "b:1", "c:1", "d:1", "e:1"];
    let mut pool = pool_of(&endpoints, short_policy());
    let mut call = RetryLoop::start(&mut pool, at(0));
    for expected in endpoints {
        assert_eq!(dialed(call.next(&mut pool, at(1))), expected);
        call.on_attempt(&mut pool, expected, unreachable(), at(1));
    }
    assert!(matches!(call.next(&mut pool, at(1)), Step::GiveUp));
}

#[test]
fn a_block_is_returned_as_it_was_taken() {
    let mut pool = pool_of(&["a:1"], short_policy());
    let mut call = RetryLoop::start(&mut pool, at(0));
    dialed(call.next(&mut pool, at(0)));
    let block = SeqBlock {
        start: 7,
        count: 3,
        epoch: 2,
    };
    assert!(matches!(
        call.on_seq_attempt(Ok(block)),
        AfterAttempt::Done(Ok(taken)) if taken == block
    ));
}

#[test]
fn an_uncertain_block_ends_the_call() {
    let mut pool = pool_of(&["a:1", "b:1"], short_policy());
    let mut call = RetryLoop::start(&mut pool, at(0));
    dialed(call.next(&mut pool, at(0)));
    assert!(matches!(
        call.on_seq_attempt(Err(SeqAttemptOutcome::Uncertain)),
        AfterAttempt::Done(Err(ClientError::SeqUncertain))
    ));
}

#[test]
fn a_refused_block_follows_the_hint() {
    let mut pool = pool_of(&["a:1"], short_policy());
    let mut call = RetryLoop::start(&mut pool, at(0));
    dialed(call.next(&mut pool, at(0)));
    let hint = SeqAttemptOutcome::LeaderHint {
        status: not_leader(),
        endpoint: "b:1".into(),
        epoch: Some(5),
    };
    assert!(matches!(
        call.on_seq_attempt(Err(hint)),
        AfterAttempt::Continue
    ));
    assert_eq!(dialed(call.next(&mut pool, at(1))), "b:1");
}

#[test]
fn an_endpoint_that_points_at_itself_is_reported_as_it_answered() {
    let mut pool = pool_of(&["a:1"], RetryPolicy::default());
    let mut call = RetryLoop::start(&mut pool, at(0));
    assert_eq!(dialed(call.next(&mut pool, at(0))), "a:1");
    assert!(matches!(
        call.on_attempt(&mut pool, "a:1", pointing_at("a:1"), at(1)),
        AfterAttempt::Continue
    ));
    assert!(matches!(call.next(&mut pool, at(1)), Step::GiveUp));
    assert_eq!(call.into_error(), ClientError::Rpc(not_leader()));
}

#[test]
fn endpoints_that_point_at_each_other_are_reported_as_they_answered() {
    let mut pool = pool_of(&["a:1", "b:1"], RetryPolicy::default());
    let mut call = RetryLoop::start(&mut pool, at(0));
    assert_eq!(dialed(call.next(&mut pool, at(0))), "a:1");
    call.on_attempt(&mut pool, "a:1", pointing_at("b:1"), at(1));
    assert_eq!(dialed(call.next(&mut pool, at(1))), "b:1");
    call.on_attempt(&mut pool, "b:1", pointing_at("a:1"), at(2));
    assert!(matches!(call.next(&mut pool, at(2)), Step::GiveUp));
    assert_eq!(call.into_error(), ClientError::Rpc(not_leader()));
}

#[test]
fn a_block_request_in_a_circle_of_hints_is_reported_as_it_was_answered() {
    let mut pool = pool_of(&["a:1"], RetryPolicy::default());
    let mut call = RetryLoop::start(&mut pool, at(0));
    assert_eq!(dialed(call.next(&mut pool, at(0))), "a:1");
    let hint = SeqAttemptOutcome::LeaderHint {
        status: not_leader(),
        endpoint: "a:1".into(),
        epoch: None,
    };
    call.on_seq_attempt(Err(hint));
    assert!(matches!(call.next(&mut pool, at(1)), Step::GiveUp));
    assert_eq!(call.into_error(), ClientError::Rpc(not_leader()));
}

#[test]
fn a_failure_at_the_wire_is_kept_over_a_later_hint() {
    let mut pool = pool_of(&["a:1", "b:1"], RetryPolicy::default());
    let mut call = RetryLoop::start(&mut pool, at(0));
    assert_eq!(dialed(call.next(&mut pool, at(0))), "a:1");
    call.on_attempt(&mut pool, "a:1", unreachable(), at(1));
    assert_eq!(dialed(call.next(&mut pool, at(1))), "b:1");
    call.on_attempt(&mut pool, "b:1", pointing_at("b:1"), at(2));
    assert!(matches!(call.next(&mut pool, at(2)), Step::GiveUp));
    assert!(matches!(call.into_error(), ClientError::Transport(_)));
}

#[test]
fn an_election_outranks_a_later_failure_at_the_wire() {
    let mut pool = pool_of(&["a:1", "b:1"], short_policy());
    let mut call = RetryLoop::start(&mut pool, at(0));
    dialed(call.next(&mut pool, at(0)));
    call.on_attempt(&mut pool, "a:1", electing(), at(1));
    dialed(call.next(&mut pool, at(1)));
    call.on_attempt(&mut pool, "b:1", unreachable(), at(499));
    assert!(matches!(call.next(&mut pool, at(500)), Step::GiveUp));
    assert!(matches!(
        call.into_error(),
        ClientError::Rpc(s) if s.code == Code::FailedPrecondition
    ));
}

#[test]
fn a_block_request_that_never_connects_is_certain() {
    let mut pool = pool_of(&["a:1", "b:1"], short_policy());
    let mut call = RetryLoop::start(&mut pool, at(0));
    for (named, error) in [
        ("a:1", ClientError::InvalidEndpoint("a:1".into())),
        ("b:1", ClientError::Connector("second".into())),
    ] {
        assert_eq!(dialed(call.next(&mut pool, at(1))), named);
        let after = call.on_seq_attempt(Err(SeqAttemptOutcome::Failed(error)));
        assert!(!matches!(after, AfterAttempt::Done(_)));
    }
    assert!(matches!(call.next(&mut pool, at(2)), Step::GiveUp));
    assert!(matches!(call.into_error(), ClientError::Connector(text) if text == "second"));
}
