use std::collections::BTreeMap;
use tsoracle::toolkit::bootstrap::{
    bootstrap, bootstrap_result, BootstrapError, BootstrapMode, Initialized,
};
use tsoracle::toolkit::codec::{decode, encode, CodecError};
use tsoracle::toolkit::key_space::{Flat, KeySpace, MetaLabel};
use tsoracle::toolkit::leader::{
    project_state, resolve_leader, LeadershipState, RaftMetrics, RoleClass, RoleFilter,
    StreamStep,
};
use tsoracle::toolkit::log_store::RocksdbLogStoreError;
use tsoracle::toolkit::membership::{
    add_learner, change_membership, ChangeOutcome, MembershipError,
};

type Payload = (u64, String);

fn write(version: u8, value: &Payload) -> Result<Vec<u8>, CodecError> {
    encode(
        version,
        bincode::serialize(value).map_err(|error| error.to_string()),
    )
}

fn read(version: u8, bytes: &[u8]) -> Result<Payload, CodecError> {
    decode(version, bytes, |body: &[u8]| {
        bincode::deserialize::<Payload>(body).map_err(|error| error.to_string())
    })
}

#[test]
fn roundtrip_preserves_payload() {
    let p: Payload = (42, "hello".into());
    let bytes = write(1, &p).unwrap();
    assert_eq!(bytes[0], 1);
    let back = read(1, &bytes).unwrap();
    assert_eq!(p, back);
}

#[test]
fn codec_decode_rejects_wrong_version() {
    let bytes = write(2, &(1, "x".into())).unwrap();
    let err = read(1, &bytes).unwrap_err();
    assert!(matches!(
        err,
        CodecError::Version {
            expected: 1,
            actual: 2
        }
    ));
    assert_eq!(err.text(), "version mismatch: expected 1, got 2");
}

#[test]
fn codec_decode_rejects_empty() {
    let err = read(1, &[]).unwrap_err();
    assert!(matches!(err, CodecError::Empty));
    assert_eq!(err.text(), "payload empty");
}

#[test]
fn a_truncated_body_is_refused() {
    let bytes = write(1, &(1, "x".into())).unwrap();
    let cut = &bytes[..bytes.len() - 1];
    let err = read(1, cut).unwrap_err();
    let why = bincode::deserialize::<Payload>(&cut[1..]).unwrap_err().to_string();
    assert!(matches!(err, CodecError::Decode(_)));
    assert_eq!(err.text(), format!("decode failed: {why}"));
    let failed = encode(1, Err(bincode::ErrorKind::SizeLimit.to_string()));
    assert_eq!(
        failed.unwrap_err().text(),
        format!("decode failed: {}", bincode::ErrorKind::SizeLimit)
    );
}

#[test]
fn log_store_errors_are_described() {
    assert_eq!(
        RocksdbLogStoreError::RocksDb("IO error".into()).text(),
        "rocksdb error: IO error"
    );
    assert_eq!(
        RocksdbLogStoreError::MissingColumnFamily("raft_log".into()).text(),
        "column family `raft_log` not found"
    );
    let why = bincode::ErrorKind::SizeLimit.to_string();
    assert_eq!(
        RocksdbLogStoreError::Decode(why.clone()).text(),
        format!("decode error: {why}")
    );
}

#[test]
fn flat_log_keys_sort_by_index() {
    let k = Flat;
    let a = k.log_key(1);
    let b = k.log_key(2);
    let c = k.log_key(u64::MAX);
    assert!(a < b);
    assert!(b < c);
    assert_eq!(a.len(), 8);
}

#[test]
fn flat_log_range_brackets_all_indices() {
    let k = Flat;
    let (lo, hi) = k.log_range();
    assert!(lo <= k.log_key(0));
    assert!(k.log_key(u64::MAX) <= hi);
}

#[test]
fn flat_meta_labels_have_distinct_bytes() {
    let labels = [
        MetaLabel::Vote,
        MetaLabel::Committed,
        MetaLabel::LastPurged,
        MetaLabel::LastMembership,
    ];
    let k = Flat;
    for (i, a) in labels.iter().enumerate() {
        for b in &labels[i + 1..] {
            assert_ne!(k.meta_key(*a), k.meta_key(*b));
        }
    }
}

#[test]
fn flat_keys_are_exact() {
    let k = Flat;
    for index in [0, 1, 255, 256, 0x0102_0304_0506_0708, u64::MAX] {
        assert_eq!(k.log_key(index), index.to_be_bytes().to_vec());
    }
    let (lo, hi) = k.log_range();
    assert_eq!(lo, vec![0; 8]);
    assert!(k.log_key(u64::MAX) < hi, "the range ends behind the last key");
    assert_eq!(hi, vec![255, 255, 255, 255, 255, 255, 255, 255, 0]);
    assert_eq!(MetaLabel::Vote.as_bytes(), b"vote");
    assert_eq!(MetaLabel::Committed.as_bytes(), b"committed");
    assert_eq!(MetaLabel::LastPurged.as_bytes(), b"last_purged");
    assert_eq!(k.meta_key(MetaLabel::LastMembership), b"last_membership");
}

#[test]
fn bootstrap_mode_constructs_in_each_shape() {
    let mut members: BTreeMap<u64, String> = BTreeMap::new();
    members.insert(1, "host-1:9000".into());
    let fresh: BootstrapMode<String> = BootstrapMode::Fresh {
        initial_members: members.clone(),
    };
    let reopen: BootstrapMode<String> = BootstrapMode::Reopen;
    let join: BootstrapMode<String> = BootstrapMode::Join;
    assert_eq!(bootstrap(fresh), Some(members));
    assert_eq!(bootstrap(reopen), None);
    assert_eq!(bootstrap(join), None);
}

#[test]
fn a_start_succeeds_unless_initializing_failed() {
    assert!(bootstrap_result(None).is_ok());
    assert!(bootstrap_result(Some(Initialized::Done)).is_ok());
    let existing = bootstrap_result(Some(Initialized::NotAllowed)).unwrap_err();
    assert!(matches!(existing, BootstrapError::UnexpectedExistingState));
    assert_eq!(
        existing.text(),
        "expected fresh cluster but raft is already initialized"
    );
    let failed = bootstrap_result(Some(Initialized::Failed("disk".into()))).unwrap_err();
    assert_eq!(failed.text(), "initialize failed: disk");
}

#[test]
fn membership_changes_are_judged_alike() {
    assert!(change_membership(ChangeOutcome::Applied).is_ok());
    assert!(add_learner(ChangeOutcome::Applied).is_ok());
    let forward = ChangeOutcome::ForwardToLeader {
        leader_node: Some("n\"1".into()),
    };
    let not_leader = change_membership(forward).unwrap_err();
    assert!(matches!(&not_leader, MembershipError::NotLeader { leader: Some(_) }));
    assert_eq!(not_leader.text(), "not leader; redirect to Some(\"n\\\"1\")");
    let nobody = add_learner(ChangeOutcome::ForwardToLeader { leader_node: None }).unwrap_err();
    assert_eq!(nobody.text(), "not leader; redirect to None");
    let conflict = change_membership(ChangeOutcome::Refused("joint".into())).unwrap_err();
    assert_eq!(conflict.text(), "membership change conflict: joint");
    let other = add_learner(ChangeOutcome::Failed("fatal".into())).unwrap_err();
    assert_eq!(other.text(), "raft error: fatal");
}

fn metrics(state: RoleClass, term: u64, leader: Option<u64>) -> RaftMetrics<String> {
    RaftMetrics {
        current_term: Some(term),
        state,
        current_leader: leader,
        nodes: vec![(1, "a".into()), (2, "b".into())],
    }
}

#[test]
fn states_are_projected() {
    assert_eq!(
        project_state(&metrics(RoleClass::Leader, 4, Some(1))),
        LeadershipState::Leader { term: 4 }
    );
    assert_eq!(
        project_state(&metrics(RoleClass::Follower, 5, Some(2))),
        LeadershipState::Follower {
            term: 5,
            leader: Some((2, "b".into()))
        }
    );
    assert_eq!(resolve_leader(&metrics(RoleClass::Follower, 5, Some(9))), None);
    assert_eq!(resolve_leader(&metrics(RoleClass::Follower, 5, None)), None);
    let mut odd = metrics(RoleClass::Candidate, 0, None);
    odd.current_term = None;
    assert_eq!(project_state(&odd), LeadershipState::Candidate { term: 0 });
    assert_eq!(
        project_state(&metrics(RoleClass::Learner, 5, None)),
        LeadershipState::Learner
    );
    assert_eq!(
        project_state(&metrics(RoleClass::Shutdown, 5, None)),
        LeadershipState::Shutdown
    );
}

#[test]
fn only_transitions_are_reported() {
    let mut filter = RoleFilter::new();
    let mut reported = Vec::new();
    for seen in [
        metrics(RoleClass::Follower, 1, None),
        metrics(RoleClass::Follower, 2, Some(1)),
        metrics(RoleClass::Candidate, 3, None),
        metrics(RoleClass::Leader, 3, Some(2)),
        metrics(RoleClass::Leader, 4, Some(2)),
        metrics(RoleClass::Follower, 5, Some(1)),
    ] {
        if let Some(state) = filter.stream_from_receiver(&seen) {
            reported.push(state.class());
        }
    }
    assert_eq!(
        reported,
        vec![
            RoleClass::Follower,
            RoleClass::Candidate,
            RoleClass::Leader,
            RoleClass::Follower
        ]
    );
}

#[test]
fn a_stream_of_transitions_ends_only_when_nothing_is_left_to_report() {
    let mut filter = RoleFilter::new();
    let follower = metrics(RoleClass::Follower, 1, None);
    let leader = metrics(RoleClass::Leader, 2, Some(2));
    assert!(matches!(
        filter.advance(&follower, true),
        StreamStep::Emit(LeadershipState::Follower { term: 1, .. })
    ));
    assert!(matches!(filter.advance(&follower, false), StreamStep::Wait));
    assert!(matches!(
        filter.advance(&leader, true),
        StreamStep::Emit(LeadershipState::Leader { term: 2 })
    ));
    assert!(matches!(filter.advance(&leader, true), StreamStep::End));
}
