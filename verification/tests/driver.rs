use std::collections::VecDeque;
use tsoracle::driver::{
    chunk_queue, clone_client_error, deliver, Answer, Batch, BatchStep, DriverState, Wait, Waiter,
    QUEUE_CAPACITY, QUEUE_HALF,
};
use tsoracle::error::ClientError;
use tsoracle::response::{TimestampRange, MAX_TIMESTAMPS_PER_RPC};
use tsoracle::status::{Code, Status, Trailer};
use tsoracle::time::{Duration, Instant};
use tsoracle::timestamp::{Timestamp, LOGICAL_MAX};

fn at(millis: u64) -> Instant {
    Instant::at(Duration::from_millis(1_000_000 + millis))
}

fn waiters(counts: &[u32]) -> VecDeque<Waiter<usize>> {
    let mut queue = VecDeque::new();
    for (respond, count) in counts.iter().enumerate() {
        queue.push_back(Waiter {
            count: *count,
            respond,
        });
    }
    queue
}

fn run(batch: &mut Batch<usize>) -> (Vec<u32>, Vec<Answer<usize>>) {
    let mut calls = Vec::new();
    let mut answers = Vec::new();
    loop {
        match batch.next() {
            BatchStep::Rpc { count } => {
                calls.push(count);
                answers.extend(batch.on_result(Ok(TimestampRange::new(1_000, 0, count))));
            }
            BatchStep::Answers(more) => answers.extend(more),
            BatchStep::Done => return (calls, answers),
        }
    }
}

#[test]
fn a_batch_above_the_cap_is_chunked() {
    let mut queue = waiters(&[100_000, 100_000, 100_000, 100_000]);
    let (chunks, refused) = chunk_queue(&mut queue);
    assert!(queue.is_empty());
    assert!(refused.is_empty());
    let mut batch = Batch::new(chunks);
    let (calls, answers) = run(&mut batch);
    assert_eq!(calls, vec![200_000, 200_000]);
    assert!(calls.iter().all(|count| *count <= LOGICAL_MAX + 1));
    assert_eq!(answers.len(), 4);
    for (i, answer) in answers.iter().enumerate() {
        assert_eq!(answer.respond, i);
        assert_eq!(answer.outcome.as_ref().unwrap().len(), 100_000);
    }
}

#[test]
fn an_oversize_waiter_spares_its_siblings() {
    let mut queue = waiters(&[5, LOGICAL_MAX + 2, 7, 0]);
    let (chunks, refused) = chunk_queue(&mut queue);
    assert_eq!(refused.len(), 2);
    assert!(matches!(
        refused[0].outcome,
        Err(ClientError::InvalidCount(count)) if count == LOGICAL_MAX + 2
    ));
    assert!(matches!(refused[1].outcome, Err(ClientError::InvalidCount(0))));
    let mut batch = Batch::new(chunks);
    let (calls, answers) = run(&mut batch);
    assert_eq!(calls, vec![12]);
    assert_eq!(answers[0].outcome.as_ref().unwrap().len(), 5);
    assert_eq!(answers[1].outcome.as_ref().unwrap().len(), 7);
    assert_eq!(answers[1].outcome.as_ref().unwrap()[0], Timestamp::pack(1_000, 5));
}

#[test]
fn an_answer_of_the_wrong_length_serves_nobody() {
    for count in [4, 8] {
        let range = TimestampRange::new(1_000, 0, count);
        let answers = deliver(waiters(&[2, 3]), Ok(range), 5);
        assert_eq!(answers.len(), 2);
        for answer in answers {
            assert!(matches!(answer.outcome, Err(ClientError::Rpc(_))));
        }
    }
}

#[test]
fn shares_follow_each_other() {
    let answers = deliver(waiters(&[2, 1]), Ok(TimestampRange::new(9, 4, 3)), 3);
    assert_eq!(
        answers[0].outcome.as_ref().unwrap(),
        &vec![Timestamp::pack(9, 4), Timestamp::pack(9, 5)]
    );
    assert_eq!(
        answers[1].outcome.as_ref().unwrap(),
        &vec![Timestamp::pack(9, 6)]
    );
}

#[test]
fn clone_client_error_preserves_rpc_code_and_message() {
    let original = ClientError::Rpc(Status::new(Code::FailedPrecondition, "nope".into()));
    match clone_client_error(&original) {
        ClientError::Rpc(status) => {
            assert_eq!(status.code, Code::FailedPrecondition);
            assert_eq!(status.message, "nope");
        }
        other => panic!("expected Rpc, got {other:?}"),
    }
}

#[test]
fn clone_client_error_preserves_rpc_metadata_trailers() {
    let hint_payload: &[u8] = &[1, 2, 3, 4];
    let mut status = Status::new(Code::FailedPrecondition, "not leader".into());
    status.trailers.push(Trailer {
        key: "tsoracle-leader-hint-bin".into(),
        value: hint_payload.to_vec(),
    });
    status.trailers.push(Trailer {
        key: "x-trace-id".into(),
        value: b"abc-123".to_vec(),
    });
    match clone_client_error(&ClientError::Rpc(status)) {
        ClientError::Rpc(cloned) => {
            assert_eq!(cloned.code, Code::FailedPrecondition);
            assert_eq!(cloned.message, "not leader");
            let hint = &cloned.trailers[0];
            assert_eq!(hint.key, "tsoracle-leader-hint-bin");
            assert_eq!(hint.value, hint_payload);
            let trace = &cloned.trailers[1];
            assert_eq!(trace.key, "x-trace-id");
            assert_eq!(trace.value, b"abc-123");
        }
        other => panic!("expected Rpc, got {other:?}"),
    }
}

#[test]
fn clone_client_error_maps_transport_to_transport_fanout() {
    let original = ClientError::Transport("transport error".into());
    match clone_client_error(&original) {
        ClientError::TransportFanout(message) => assert_eq!(message, "transport error"),
        other => panic!("expected TransportFanout, got {other:?}"),
    }
}

#[test]
fn clone_client_error_preserves_simple_variants() {
    let no_endpoints = clone_client_error(&ClientError::NoReachableEndpoints);
    assert!(matches!(no_endpoints, ClientError::NoReachableEndpoints));
    match clone_client_error(&ClientError::InvalidEndpoint("garbage://".into())) {
        ClientError::InvalidEndpoint(s) => assert_eq!(s, "garbage://"),
        other => panic!("expected InvalidEndpoint, got {other:?}"),
    }
    match clone_client_error(&ClientError::InvalidCount(99)) {
        ClientError::InvalidCount(c) => assert_eq!(c, 99),
        other => panic!("expected InvalidCount, got {other:?}"),
    }
    let driver_gone = clone_client_error(&ClientError::DriverGone);
    assert!(matches!(driver_gone, ClientError::DriverGone));
}

#[test]
fn clone_client_error_reclones_transport_fanout_preserving_message() {
    let original = ClientError::TransportFanout("dial 10.0.0.7:50051 refused".into());
    match clone_client_error(&original) {
        ClientError::TransportFanout(message) => {
            assert_eq!(message, "dial 10.0.0.7:50051 refused");
        }
        other => panic!("expected TransportFanout, got {other:?}"),
    }
}

#[test]
fn a_failed_chunk_fails_the_rest_without_another_rpc() {
    let cap = LOGICAL_MAX + 1;
    let mut queue = waiters(&[cap, cap, cap]);
    let (chunks, _) = chunk_queue(&mut queue);
    let mut batch = Batch::new(chunks);
    assert!(matches!(batch.next(), BatchStep::Rpc { .. }));
    let outage = ClientError::Transport("outage".into());
    let mut answers = batch.on_result(Err(outage));
    loop {
        match batch.next() {
            BatchStep::Rpc { .. } => panic!("no further RPC may be issued"),
            BatchStep::Answers(more) => answers.extend(more),
            BatchStep::Done => break,
        }
    }
    assert_eq!(answers.len(), 3);
    for answer in answers {
        assert!(matches!(
            answer.outcome,
            Err(ClientError::TransportFanout(why)) if why == "outage"
        ));
    }
}

#[test]
fn the_queue_stops_receiving_at_half_the_capacity() {
    let mut driver: DriverState<usize> = DriverState::new();
    for respond in 0..QUEUE_HALF {
        assert!(!matches!(
            driver.waiting(Duration::from_secs(1), at(0)),
            Wait::Flush { receive: false, .. }
        ));
        driver.arrived(Waiter { count: 1, respond }, at(0));
    }
    assert!(matches!(
        driver.waiting(Duration::from_secs(1), at(0)),
        Wait::Flush { receive: false, .. }
    ));
}

#[test]
fn a_lone_waiter_is_dispatched_after_the_flush_interval() {
    let flush = Duration::from_millis(100);
    let mut driver: DriverState<usize> = DriverState::new();
    assert!(matches!(driver.waiting(flush, at(0)), Wait::Arrival));
    driver.arrived(
        Waiter {
            count: 5,
            respond: 0,
        },
        at(10),
    );
    match driver.waiting(flush, at(60)) {
        Wait::Flush { left, receive } => {
            assert_eq!(left, Duration::from_millis(50));
            assert!(receive);
        }
        other => panic!("expected to wait, got {other:?}"),
    }
    assert!(matches!(driver.waiting(flush, at(110)), Wait::Dispatch));
    let (mut batch, refused) = driver.dispatch(flush, at(110));
    assert!(refused.is_empty());
    driver.arrived(
        Waiter {
            count: 1,
            respond: 1,
        },
        at(111),
    );
    assert!(matches!(
        driver.waiting(flush, at(500)),
        Wait::Batch { receive: true }
    ));
    let (calls, answers) = run(&mut batch);
    assert_eq!(calls, vec![5]);
    assert_eq!(answers.len(), 1);
    driver.batch_done();
    assert!(matches!(driver.waiting(flush, at(500)), Wait::Dispatch));
}

#[test]
fn without_a_flush_interval_nothing_is_gathered() {
    let mut driver: DriverState<usize> = DriverState::new();
    let flush = Duration::zero();
    driver.arrived(
        Waiter {
            count: 1,
            respond: 0,
        },
        at(10),
    );
    assert!(matches!(driver.waiting(flush, at(10)), Wait::Dispatch));
}

#[test]
fn the_driver_ends_when_nobody_can_send() {
    let flush = Duration::from_millis(100);
    let mut driver: DriverState<usize> = DriverState::new();
    driver.arrived(
        Waiter {
            count: 1,
            respond: 0,
        },
        at(0),
    );
    driver.closed();
    assert!(matches!(driver.waiting(flush, at(50)), Wait::End));
    assert!(matches!(driver.waiting(flush, at(500)), Wait::End));
}

#[test]
fn a_schedule_asks_for_what_was_requested() {
    let flush = Duration::from_millis(1);
    let mut driver: DriverState<usize> = DriverState::new();
    let rounds: [&[u32]; 3] = [&[1, 2, 3], &[262_144, 1], &[200_000, 200_000, 7]];
    let mut asked = 0u64;
    let mut answered = vec![];
    let mut now = 0;
    for counts in rounds {
        for count in counts {
            driver.arrived(
                Waiter {
                    count: *count,
                    respond: *count as usize,
                },
                at(now),
            );
        }
        now += 1;
        let (mut batch, refused) = driver.dispatch(flush, at(now));
        assert!(refused.is_empty());
        let (calls, answers) = run(&mut batch);
        for call in &calls {
            assert!(*call > 0 && *call <= 262_144);
            asked += *call as u64;
        }
        for answer in answers {
            assert_eq!(answer.outcome.unwrap().len(), answer.respond);
            answered.push(answer.respond);
        }
        driver.batch_done();
    }
    let requested: Vec<usize> = rounds.concat().iter().map(|count| *count as usize).collect();
    assert_eq!(answered, requested);
    assert_eq!(asked, requested.iter().map(|count| *count as u64).sum::<u64>());
}

type Outcome = Result<Vec<Timestamp>, ClientError>;

/// Sends the requests at one moment and runs the driver until all are answered.
fn request_all(
    counts: &[u32],
    flush: Duration,
    rpc: &mut dyn FnMut(u32) -> Result<TimestampRange, ClientError>,
) -> (Vec<Outcome>, Duration) {
    let mut driver: DriverState<usize> = DriverState::new();
    let mut now = at(0);
    let mut outcomes: Vec<Option<Outcome>> = counts.iter().map(|_| None).collect();
    for (respond, count) in counts.iter().enumerate() {
        let count = *count;
        driver.arrived(Waiter { count, respond }, now);
    }
    loop {
        match driver.waiting(flush, now) {
            Wait::Flush { left, .. } => {
                let then = now.as_nanos() + left.as_nanos();
                now = Instant::at(Duration::from_nanos_saturating(then));
            }
            Wait::Dispatch => {
                let (mut batch, mut answers) = driver.dispatch(flush, now);
                loop {
                    match batch.next() {
                        BatchStep::Rpc { count } => answers.extend(batch.on_result(rpc(count))),
                        BatchStep::Answers(more) => answers.extend(more),
                        BatchStep::Done => break,
                    }
                }
                for answer in answers {
                    assert!(outcomes[answer.respond].is_none(), "answered twice");
                    outcomes[answer.respond] = Some(answer.outcome);
                }
                driver.batch_done();
            }
            Wait::Arrival => break,
            other => panic!("unexpected {other:?}"),
        }
    }
    let outcomes = outcomes.into_iter().map(|outcome| outcome.unwrap());
    (outcomes.collect(), now.saturating_since(&at(0)))
}

#[test]
fn coalesced_batch_above_per_rpc_cap_is_chunked() {
    let mut observed = vec![];
    let counts = [100_000; 4];
    let (results, _) = request_all(&counts, Duration::from_millis(50), &mut |count| {
        observed.push(count);
        Ok(TimestampRange::new(1_000, 0, count))
    });
    for result in &results {
        assert_eq!(result.as_ref().unwrap().len(), 100_000);
    }
    assert!(observed.iter().all(|count| *count <= LOGICAL_MAX + 1));
    assert_eq!(observed.iter().map(|count| *count as u64).sum::<u64>(), 400_000);
    assert!(observed.len() >= 2, "observed: {observed:?}");
}

#[test]
fn waiter_above_per_rpc_cap_gets_invalid_count() {
    let (results, _) = request_all(&[LOGICAL_MAX + 2], Duration::zero(), &mut |count| {
        Ok(TimestampRange::new(1_000, 0, count))
    });
    assert!(
        matches!(&results[0], Err(ClientError::InvalidCount(count)) if *count == LOGICAL_MAX + 2),
        "got {:?}",
        results[0]
    );
}

#[test]
fn oversize_waiter_does_not_poison_sibling_waiters() {
    let counts = [5, LOGICAL_MAX + 2, 7];
    let (results, _) = request_all(&counts, Duration::from_millis(50), &mut |count| {
        Ok(TimestampRange::new(1_000, 0, count))
    });
    assert!(matches!(results[1], Err(ClientError::InvalidCount(_))));
    assert_eq!(results[0].as_ref().unwrap().len(), 5);
    assert_eq!(results[2].as_ref().unwrap().len(), 7);
}

#[test]
fn short_response_errors_waiters_in_chunk() {
    let (results, _) = request_all(&[5], Duration::zero(), &mut |count| {
        Ok(TimestampRange::new(1_000, 0, count.saturating_sub(1)))
    });
    assert!(matches!(results[0], Err(ClientError::Rpc(_))), "{:?}", results[0]);
}

#[test]
fn long_response_errors_waiters_in_chunk() {
    let (results, _) = request_all(&[5], Duration::zero(), &mut |count| {
        Ok(TimestampRange::new(1_000, 0, count.saturating_add(3)))
    });
    assert!(matches!(results[0], Err(ClientError::Rpc(_))), "{:?}", results[0]);
}

#[test]
fn run_chunks_fails_subsequent_chunks_fast() {
    let mut calls = 0;
    let counts = [LOGICAL_MAX + 1; 4];
    let (results, _) = request_all(&counts, Duration::from_millis(10), &mut |_| {
        calls += 1;
        Err(ClientError::Rpc(Status::new(
            Code::Unavailable,
            "synthetic outage".into(),
        )))
    });
    for result in &results {
        assert!(matches!(result, Err(ClientError::Rpc(_))), "{result:?}");
    }
    assert_eq!(calls, 1, "fail-fast must issue exactly one RPC");
}

#[test]
fn driver_bounds_in_flight_batch_to_queue_capacity() {
    let total = 2 * QUEUE_CAPACITY;
    let flush = Duration::zero();
    let mut driver: DriverState<usize> = DriverState::new();
    let mut sent = 0;
    let mut observed = vec![];
    let mut served = 0;
    while served < total {
        match driver.waiting(flush, at(0)) {
            Wait::Arrival => {
                let respond = sent;
                driver.arrived(Waiter { count: 1, respond }, at(0));
                sent += 1;
            }
            Wait::Dispatch => {
                let (mut batch, refused) = driver.dispatch(flush, at(0));
                assert!(refused.is_empty());
                while sent < total
                    && matches!(driver.waiting(flush, at(0)), Wait::Batch { receive: true })
                {
                    let respond = sent;
                    driver.arrived(Waiter { count: 1, respond }, at(0));
                    sent += 1;
                }
                let (calls, answers) = run(&mut batch);
                observed.extend(calls);
                for answer in answers {
                    assert_eq!(answer.outcome.unwrap().len(), 1);
                    served += 1;
                }
                driver.batch_done();
            }
            other => panic!("unexpected {other:?}"),
        }
    }
    let most = *observed.iter().max().unwrap();
    assert!(most as usize <= QUEUE_CAPACITY);
    assert_eq!(most as usize, QUEUE_HALF);
}

#[test]
fn first_chunk_delivers_before_slow_second_chunk_completes() {
    let mut queue = waiters(&[LOGICAL_MAX + 1, LOGICAL_MAX + 1]);
    let (chunks, _) = chunk_queue(&mut queue);
    let mut batch = Batch::new(chunks);
    for respond in 0..2 {
        match batch.next() {
            BatchStep::Rpc { count } => {
                let answers = batch.on_result(Ok(TimestampRange::new(1_000, 0, count)));
                assert_eq!(answers.len(), 1, "only this chunk's waiter is answered");
                assert_eq!(answers[0].respond, respond);
                let timestamps = answers[0].outcome.as_ref().unwrap();
                assert_eq!(timestamps.len(), (LOGICAL_MAX + 1) as usize);
            }
            other => panic!("expected an RPC, got {other:?}"),
        }
    }
    assert!(matches!(batch.next(), BatchStep::Done));
}

#[test]
fn lone_waiter_dispatches_after_flush_interval() {
    let flush = Duration::from_millis(100);
    let mut calls = vec![];
    let (results, elapsed) = request_all(&[5], flush, &mut |count| {
        calls.push(count);
        Ok(TimestampRange::new(1_000, 0, count))
    });
    assert_eq!(results[0].as_ref().unwrap().len(), 5);
    assert_eq!(calls, vec![5]);
    assert!(elapsed >= flush, "dispatch fired at {elapsed:?}");
}

#[test]
fn a_handed_on_status_is_built_from_its_code_message_and_trailers() {
    let mut original = Status::new(Code::Unavailable, "down".into());
    original.trailers.push(Trailer {
        key: "x-trace-id".into(),
        value: b"abc-123".to_vec(),
    });
    let expected = original.clone();
    original.details = vec![1, 2, 3];
    original.source = Some("reset".into());
    let copy = clone_client_error(&ClientError::Rpc(original));
    assert_eq!(copy, ClientError::Rpc(expected));
    assert_eq!(
        copy.text(),
        format!("rpc: {}", tonic::Status::unavailable("down"))
    );
}

#[test]
fn an_error_is_delivered_whatever_the_counts_are() {
    let failed = Err(ClientError::NoReachableEndpoints);
    let answers = deliver(waiters(&[u32::MAX, u32::MAX]), failed, 3);
    assert_eq!(answers.len(), 2);
    let short = deliver(waiters(&[7, 9]), Ok(TimestampRange::new(1, 0, 2)), 3);
    for answer in answers.into_iter().chain(short) {
        assert!(answer.outcome.is_err());
    }
    let roomy = deliver(waiters(&[1, 1]), Ok(TimestampRange::new(1, 0, 3)), 3);
    assert_eq!(roomy[1].outcome.as_ref().unwrap(), &vec![Timestamp::pack(1, 1)]);
}

#[test]
fn chunks_are_as_few_as_the_order_allows() {
    let max = MAX_TIMESTAMPS_PER_RPC;
    let counts = [1, max, 2, max - 2, 1, 0, max / 2, max / 2];
    let mut queue = waiters(&counts);
    let (chunks, turned_away) = chunk_queue(&mut queue);
    assert_eq!(turned_away.len(), 1);
    let totals: Vec<u32> = chunks.iter().map(|chunk| chunk.total).collect();
    for (i, chunk) in chunks.iter().enumerate().skip(1) {
        assert!(totals[i - 1] + chunk.waiters[0].count > max);
    }
    let placed: Vec<usize> = chunks
        .iter()
        .flat_map(|chunk| chunk.waiters.iter().map(|waiter| waiter.respond))
        .collect();
    assert_eq!(placed, vec![0, 1, 2, 3, 4, 6, 7]);
    assert_eq!(chunks.len(), 5);
}
