use std::path::PathBuf;
use tsoracle::node::admin::{
    admin_endpoint, dispatch_admin, judged_endpoint, member_lines, report, report_activation, ActivationReport, AdminCall,
    AdminErrorKind, AdminRequest, ChangeResponse, MemberInfo,
};
use tsoracle::node::cli::{
    parse_duration, ActivateFormatArgs, AddLearnerArgs, AdminClientTlsArgs, AdminCmd, AdminIdArgs,
    CapabilitiesArgs, FileArgs, MembersArgs, OpenraftArgs, PaxosArgs, ServeCmd, TlsTrio,
};
use tsoracle::node::drivers::{
    available_drivers, default_serve, dispatch_serve, guard_listeners, listen_allowed,
    not_compiled_in, run_init, DriverConfig, Drivers, Exposure, RaftTuning, Seeded,
};
use tsoracle::node::logging::{chosen_filter, log_filter, may_misread};
use tsoracle::node::members::parse_members;
use tsoracle::node::tls::{admin_client_tls, admin_tls_config, client_tls_config, peer_tls_config};
use tsoracle::node::span::may_touch_limit;
use tsoracle::scan::{read_u64, split, split_once, trim, whitespace, NumberFault};
use tsoracle::text::{decimal_text, join};
use tsoracle::time::Duration;

#[test]
fn parses_three_address_members() {
    let map = parse_members("1=10.0.0.1:9/10.0.0.1:8/10.0.0.1:7").unwrap();
    let member = map.get(&1).expect("id 1 present");
    assert_eq!(member.raft_addr, "10.0.0.1:9");
    assert_eq!(member.service_endpoint, "10.0.0.1:8");
    assert_eq!(member.admin_endpoint, "10.0.0.1:7");
}

#[test]
fn rejects_member_missing_admin_endpoint() {
    let err = parse_members("1=10.0.0.1:9/10.0.0.1:8").unwrap_err();
    assert!(
        err.0.contains("raft_addr/service_endpoint/admin_endpoint"),
        "got: {err:?}"
    );
    assert_eq!(err.1, None);
}

#[test]
fn members_are_trimmed_and_the_last_one_stands() {
    let map = parse_members(" 2 = a / b / c /ignored, ,+1=x/y/z,\t2=d/e/f\u{a0},").unwrap();
    assert_eq!(map.keys().copied().collect::<Vec<u64>>(), vec![1, 2]);
    let member = map.get(&2).unwrap();
    assert_eq!(member.raft_addr, "d");
    assert_eq!(member.service_endpoint, "e");
    assert_eq!(member.admin_endpoint, "f");
    assert_eq!(map.get(&1).unwrap().raft_addr, "x");
    assert!(parse_members("").unwrap().is_empty());
    assert!(parse_members(" , ,").unwrap().is_empty());
}

#[test]
fn bad_members_are_named() {
    assert_eq!(
        parse_members("1=a/b/c, oops\"").unwrap_err(),
        (
            "bad member \"oops\\\"\", expected id=raft_addr/service_endpoint/admin_endpoint".into(),
            None
        )
    );
    assert_eq!(
        parse_members("1=/b/c").unwrap_err(),
        (
            "bad member \"1=/b/c\", expected raft_addr/service_endpoint/admin_endpoint".into(),
            None
        )
    );
    assert!(parse_members("18446744073709551615=a/b/c").is_ok());
    assert!(parse_members("x=a/b").unwrap_err().0.starts_with("bad member \"x=a/b\", "));
}

#[test]
fn a_bad_member_number_is_reported_with_its_cause() {
    for id in [
        "",
        "x",
        "+",
        "-1",
        "++1",
        "1a",
        "18446744073709551616",
        "18446744073709551616x",
        "1844674407370955161x6",
        "99999999999999999999999999",
    ] {
        let cause = id.parse::<u64>().unwrap_err().to_string();
        assert_eq!(
            parse_members(&format!("{id}=a/b/c")).unwrap_err(),
            (format!("bad member id in \"{id}=a/b/c\""), Some(cause))
        );
    }
}

#[test]
fn text_is_taken_apart() {
    assert_eq!(split("a,,b", ','), vec!["a", "", "b"]);
    assert_eq!(split("", ','), vec![""]);
    assert_eq!(split_once("k=v=w", '='), Some(("k".into(), "v=w".into())));
    assert_eq!(split_once("kv", '='), None);
    assert_eq!(trim(" \t\u{2003}x y\n"), "x y");
    assert_eq!(trim("\u{3000}"), "");
    assert_eq!(read_u64("+007"), Ok(7));
    assert_eq!(read_u64(""), Err(NumberFault::Empty));
    for bad in ["+", "-1", "1 ", "++1", "1a", "9999999999999999999x"] {
        assert_eq!(read_u64(bad), Err(NumberFault::InvalidDigit));
    }
    for bad in ["99999999999999999999999", "18446744073709551616", "99999999999999999999x"] {
        assert_eq!(read_u64(bad), Err(NumberFault::TooLarge));
    }
    assert_eq!(join(&split("a/b/c", '/'), ", "), "a, b, c");
    for n in [0, 9, 10, 12_345, u64::MAX] {
        assert_eq!(decimal_text(n), n.to_string());
        assert_eq!(read_u64(&decimal_text(n)), Ok(n));
    }
}

#[test]
fn main_none_returns_none() {
    let result = admin_tls_config(None, None, None).unwrap();
    assert!(result.is_none());
    let args = client_args(None, None, None);
    let result = admin_client_tls(&args).unwrap();
    assert!(result.is_none());
}

#[test]
fn full_trio_returns_some() {
    let cfg = admin_tls_config(
        Some(PathBuf::from("/x/c")),
        Some(PathBuf::from("/x/k")),
        Some(PathBuf::from("/x/a")),
    )
    .unwrap()
    .expect("Some");
    assert_eq!(cfg.cert, PathBuf::from("/x/c"));
    assert_eq!(cfg.key, PathBuf::from("/x/k"));
    assert_eq!(cfg.ca, PathBuf::from("/x/a"));
}

#[test]
fn main_partial_trio_errors() {
    for (c, k, a) in [
        (Some(PathBuf::from("c")), None, None),
        (None, Some(PathBuf::from("k")), None),
        (None, None, Some(PathBuf::from("a"))),
        (Some(PathBuf::from("c")), Some(PathBuf::from("k")), None),
        (Some(PathBuf::from("c")), None, Some(PathBuf::from("a"))),
        (None, Some(PathBuf::from("k")), Some(PathBuf::from("a"))),
    ] {
        let err = admin_tls_config(c, k, a).unwrap_err();
        assert!(
            err.to_string().contains("must all be set together"),
            "got: {err}"
        );
    }
    let err = admin_client_tls(&client_args(Some("c"), None, None)).unwrap_err();
    assert!(
        err.to_string().contains("must all be set together"),
        "got: {err}"
    );
}

fn client_args(cert: Option<&str>, key: Option<&str>, ca: Option<&str>) -> AdminClientTlsArgs {
    AdminClientTlsArgs {
        client_tls_cert: cert.map(PathBuf::from),
        client_tls_key: key.map(PathBuf::from),
        client_tls_ca: ca.map(PathBuf::from),
    }
}

#[test]
fn peers_and_admin_callers_have_trios_of_their_own() {
    let path = |name: &str| Some(PathBuf::from(name));
    let peer = peer_tls_config(path("c"), path("k"), path("a")).unwrap().unwrap();
    assert_eq!(peer.key, PathBuf::from("k"));
    assert_eq!(
        peer_tls_config(path("c"), None, None).unwrap_err(),
        "--peer-tls-cert, --peer-tls-key, and --peer-tls-ca must all be set together"
    );
    let args = client_args(Some("c"), Some("k"), Some("a"));
    assert_eq!(admin_client_tls(&args).unwrap().unwrap().ca, &PathBuf::from("a"));
}

#[test]
fn the_server_takes_certificate_and_key_together() {
    let path = |name: &str| Some(PathBuf::from(name));
    let (cert, key, ca) = (path("c"), path("k"), path("a"));
    let none = None;
    assert!(client_tls_config(&none, &none, &none).unwrap().is_none());
    let plain = client_tls_config(&cert, &key, &none).unwrap().unwrap();
    assert!(plain.client_ca.is_none());
    let mutual = client_tls_config(&cert, &key, &ca).unwrap().unwrap();
    assert_eq!(mutual.client_ca, Some(&PathBuf::from("a")));
    assert_eq!(
        client_tls_config(&none, &none, &ca).unwrap_err(),
        "--tls-client-ca requires --tls-cert and --tls-key"
    );
    for (cert, key) in [(&cert, &none), (&none, &key)] {
        assert_eq!(
            client_tls_config(cert, key, &ca).unwrap_err(),
            "--tls-cert and --tls-key must be provided together"
        );
    }
}

#[test]
fn durations_are_read() {
    assert_eq!(parse_duration("3s"), Ok(Duration::from_secs(3)));
    assert_eq!(parse_duration("20ms"), Ok(Duration::from_millis(20)));
    assert_eq!(parse_duration("1h 30min"), Ok(Duration::from_secs(5_400)));
    assert_eq!(parse_duration("1.5s"), Ok(Duration::from_millis(1_500)));
    assert_eq!(parse_duration("0s"), Ok(Duration::zero()));
    assert_eq!(parse_duration(""), Err("value was empty".into()));
    let odd = parse_duration("3 parsecs").unwrap_err();
    assert!(odd.contains("unknown time unit"), "got: {odd}");
    assert_eq!(
        parse_duration("1000000000000000ns"),
        Ok(Duration::from_secs(1_000_000))
    );
    assert_eq!(
        parse_duration("584542046090y 1000000000ns"),
        Ok(Duration::from_secs(584_542_046_090 * 31_557_600 + 1))
    );
    assert_eq!(
        parse_duration("18446744073709551615s 999999999ns"),
        Ok(Duration::new(u64::MAX, 999_999_999))
    );
    assert!(parse_duration("18446744073709551616s").is_err());
}

#[test]
fn durations_at_the_limit_are_told() {
    for at_limit in [
        "18446744073709551615s 1000000000ns",
        "18446744073709551615s 999ms 1000us",
        "18446744073709551614s 1s 1000ms",
        "0.5s 18446744073709551615.5s",
        "15.4s 307445734561825860.01m",
        "307445734561825860m 15.5s 500ms",
    ] {
        assert!(may_touch_limit(at_limit), "{at_limit}");
    }
    for apart in [
        "",
        "3s",
        "1h 30min",
        "18446744073709551615s",
        "18446744073709551616s",
        "18446744073709551615s 999999999ns",
        "18446744073709551615s 1000000001ns",
        "18446744073709551615s 1s",
        "1s 18446744073709551614.5s",
        "0.5s 18446744073709551615.25s",
        "15s 307445734561825860.25m",
        "18446744073709551611s 5000000000ns",
        "99999999999999999999999999999999999999999y 1s",
        "584542046090y 1000000000ns",
        "1000000000000ms 1000000000000us",
        "1.5month 2.25w 3d",
    ] {
        assert!(!may_touch_limit(apart), "{apart}");
        assert_eq!(
            parse_duration(apart).map(|span| span.as_nanos()).ok(),
            humantime::parse_duration(apart)
                .map(|span| span.as_nanos())
                .ok()
        );
    }
}

#[test]
fn units_are_told_by_their_first_letters() {
    for unit in [
        "nanos", "nsec", "ns", "usec", "us", "\u{b5}s", "millis", "msec", "ms", "seconds", "second",
        "secs", "sec", "s", "minutes", "minute", "min", "mins", "m", "hours", "hour", "hr", "hrs",
        "h", "days", "day", "d", "weeks", "week", "wk", "wks", "w", "months", "month", "M", "years",
        "year", "yr", "yrs", "y",
    ] {
        let nanos = humantime::parse_duration(&format!("1{unit}")).unwrap().as_nanos();
        let limit = (1u128 << 64) * 1_000_000_000;
        let rest = limit - nanos - 1_000;
        let (secs, subsec) = (rest / 1_000_000_000, rest % 1_000_000_000);
        let filled = format!("{secs}s {subsec}ns 1{unit} 1us");
        assert!(may_touch_limit(&filled), "{filled}");
        let short = format!("{}s {subsec}ns 1{unit} 1us", secs - 1);
        assert!(!may_touch_limit(&short), "{short}");
        let beyond = format!("{secs}s {subsec}ns 1{unit} 2us");
        assert!(!may_touch_limit(&beyond), "{beyond}");
    }
}

#[test]
fn white_space_is_what_std_says() {
    for c in '\0'..=char::MAX {
        assert_eq!(whitespace(c), c.is_whitespace(), "{:?}", c);
    }
}

const ALL: Drivers = Drivers {
    file: true,
    openraft: true,
    paxos: true,
};

const HA_ONLY: Drivers = Drivers {
    file: false,
    openraft: true,
    paxos: true,
};

#[test]
fn missing_drivers_are_named() {
    assert_eq!(available_drivers(&ALL), vec!["file", "openraft", "paxos"]);
    assert_eq!(
        not_compiled_in("file", &HA_ONLY),
        "this build does not include the file driver; rebuild with `--features file`. \
         available drivers: openraft, paxos"
    );
    assert_eq!(
        dispatch_serve(file_command(), &HA_ONLY).unwrap_err(),
        (not_compiled_in("file", &HA_ONLY), None)
    );
    let none = Drivers {
        file: true,
        openraft: false,
        paxos: false,
    };
    assert!(dispatch_serve(file_command(), &none).is_ok());
    assert_eq!(
        dispatch_serve(ServeCmd::Openraft(openraft_args()), &none).unwrap_err(),
        (not_compiled_in("openraft", &none), None)
    );
    assert_eq!(
        dispatch_serve(ServeCmd::Paxos(paxos_args()), &none).unwrap_err(),
        (not_compiled_in("paxos", &none), None)
    );
    assert_eq!(
        default_serve(FileArgs { state_dir: PathBuf::from("d") }, &HA_ONLY).unwrap_err(),
        "no subcommand given and this build excludes the file driver; \
         specify `serve <driver>`. available drivers: openraft, paxos"
    );
}

fn file_command() -> ServeCmd {
    ServeCmd::File(FileArgs {
        state_dir: PathBuf::from("d"),
    })
}

fn openraft_args() -> OpenraftArgs {
    OpenraftArgs {
        id: 7,
        raft_addr: "10.0.0.1:9".into(),
        raft_dir: PathBuf::from("raft"),
        bootstrap: true,
        members: Some("7=a/b/c, 8=d/e/f".into()),
        heartbeat_ms: 250,
        election_min_ms: 1000,
        election_max_ms: 2000,
        admin_listen: Some("10.0.0.1:7".into()),
        admin_tls: trio([false; 3]),
        peer_tls: trio([true; 3]),
    }
}

fn paxos_args() -> PaxosArgs {
    PaxosArgs {
        node_id: 3,
        peer_listen: "10.0.0.1:9".into(),
        peers: "3=a".into(),
        tso_peers: "3=b".into(),
        data_dir: PathBuf::from("paxos"),
        tick_interval: Duration::from_millis(20),
        peer_tls: trio([false; 3]),
    }
}

#[test]
fn arguments_reach_the_configuration_as_given() {
    match dispatch_serve(file_command(), &ALL).unwrap() {
        DriverConfig::File(made) => assert_eq!(made.state_dir, PathBuf::from("d")),
        other => panic!("got {other:?}"),
    }
    match default_serve(FileArgs { state_dir: PathBuf::from("e") }, &ALL).unwrap() {
        DriverConfig::File(made) => assert_eq!(made.state_dir, PathBuf::from("e")),
        other => panic!("got {other:?}"),
    }
    match dispatch_serve(ServeCmd::Openraft(openraft_args()), &ALL).unwrap() {
        DriverConfig::Openraft(made) => {
            assert_eq!(made.id, 7);
            assert_eq!(made.raft_addr, "10.0.0.1:9");
            assert_eq!(made.raft_dir, PathBuf::from("raft"));
            assert!(made.bootstrap);
            let members = made.initial_membership.unwrap();
            assert_eq!(members.keys().copied().collect::<Vec<u64>>(), vec![7, 8]);
            assert_eq!(
                made.tuning,
                RaftTuning {
                    heartbeat_ms: 250,
                    election_min_ms: 1000,
                    election_max_ms: 2000
                }
            );
            assert_eq!(made.peer_tls.unwrap().key, PathBuf::from("p"));
            assert_eq!(made.admin_listen.as_deref(), Some("10.0.0.1:7"));
            assert!(made.admin_tls.is_none());
        }
        other => panic!("got {other:?}"),
    }
    match dispatch_serve(ServeCmd::Paxos(paxos_args()), &ALL).unwrap() {
        DriverConfig::Paxos(made) => {
            assert_eq!(made.node_id, 3);
            assert_eq!(made.peer_listen, "10.0.0.1:9");
            assert_eq!((made.peers.as_str(), made.tso_peers.as_str()), ("3=a", "3=b"));
            assert_eq!(made.data_dir, PathBuf::from("paxos"));
            assert_eq!(made.tick_interval.as_nanos(), 20_000_000);
            assert!(made.peer_tls.is_none());
        }
        other => panic!("got {other:?}"),
    }
}

#[test]
fn seeding_is_reported() {
    assert_eq!(
        run_init(&ALL, "./data", 1_700_000, Seeded::Done).unwrap(),
        "Initialized ./data at seed physical_ms=1700000"
    );
    assert_eq!(
        run_init(&ALL, "./data", 1, Seeded::Failed("exists".into())).unwrap_err(),
        ("init state_dir=./data".into(), Some("exists".into()))
    );
    assert_eq!(
        run_init(&HA_ONLY, "./data", 1, Seeded::Done).unwrap_err(),
        (not_compiled_in("file", &HA_ONLY), None)
    );
}

fn trio(given: [bool; 3]) -> TlsTrio {
    let path = |given: bool| if given { Some(PathBuf::from("p")) } else { None };
    TlsTrio {
        cert: path(given[0]),
        key: path(given[1]),
        ca: path(given[2]),
    }
}

#[test]
fn the_first_fault_of_a_setup_is_reported() {
    let partial = [true, false, false];
    let args = |members: Option<&str>, peer: [bool; 3], admin: [bool; 3]| {
        ServeCmd::Openraft(OpenraftArgs {
            members: members.map(String::from),
            peer_tls: trio(peer),
            admin_tls: trio(admin),
            ..openraft_args()
        })
    };
    let err = dispatch_serve(args(Some("x=a/b/c"), partial, partial), &ALL).unwrap_err();
    assert_eq!(err.0, "bad member id in \"x=a/b/c\"");
    assert_eq!(err.1.as_deref(), Some("invalid digit found in string"));
    let err = dispatch_serve(args(None, partial, partial), &ALL).unwrap_err();
    assert!(err.0.starts_with("--peer-tls-cert"), "got: {err:?}");
    let err = dispatch_serve(args(None, [false; 3], partial), &ALL).unwrap_err();
    assert!(err.0.starts_with("--admin-tls-cert"), "got: {err:?}");
    assert!(dispatch_serve(args(None, [true; 3], [true; 3]), &ALL).is_ok());
    let paxos = PaxosArgs {
        peer_tls: trio(partial),
        ..paxos_args()
    };
    let err = dispatch_serve(ServeCmd::Paxos(paxos), &ALL).unwrap_err();
    assert!(err.0.starts_with("--peer-tls-cert"), "got: {err:?}");
}

#[test]
fn exposed_listeners_are_guarded() {
    let exposure = |peer: bool, admin: bool, opted_out: bool| Exposure {
        peer_loopback: peer,
        admin_loopback: admin,
        allow_insecure_peer: opted_out,
    };
    let file = dispatch_serve(file_command(), &ALL).unwrap();
    assert!(guard_listeners(&file, &exposure(false, false, false)).is_ok());
    let raft = dispatch_serve(ServeCmd::Openraft(openraft_args()), &ALL).unwrap();
    assert!(guard_listeners(&raft, &exposure(false, true, false)).is_ok());
    assert_eq!(
        guard_listeners(&raft, &exposure(false, false, true)).unwrap_err(),
        "the admin listener on a routable address needs certificates"
    );
    let paxos = dispatch_serve(ServeCmd::Paxos(paxos_args()), &ALL).unwrap();
    assert_eq!(
        guard_listeners(&paxos, &exposure(false, true, false)).unwrap_err(),
        "the peer listener on a routable address needs certificates"
    );
    assert!(guard_listeners(&paxos, &exposure(false, true, true)).is_ok());
    assert!(guard_listeners(&paxos, &exposure(true, true, false)).is_ok());
}

#[test]
fn routable_listeners_need_certificates() {
    assert!(listen_allowed(true, false, false));
    assert!(listen_allowed(false, true, false));
    assert!(listen_allowed(false, false, true));
    assert!(!listen_allowed(false, false, false));
}

fn refusal(error: AdminErrorKind, leader: &str) -> ChangeResponse {
    ChangeResponse {
        ok: false,
        error,
        message: "why".into(),
        leader_admin_endpoint: leader.into(),
    }
}

#[test]
fn a_change_is_redirected_once_and_keeps_its_scheme() {
    for (endpoint, leader) in [
        ("https://n1:5", "https://n2:5"),
        ("http://n1:5", "http://n2:5"),
        ("n1:5", "http://n2:5"),
    ] {
        let mut call = AdminCall::new(endpoint.into());
        let answer = refusal(AdminErrorKind::NotLeader, "n2:5");
        assert_eq!(call.with_redirect(&answer).as_deref(), Some(leader));
        assert_eq!(call.with_redirect(&answer), None);
    }
    let mut call = AdminCall::new("http://n1:5".into());
    assert_eq!(call.with_redirect(&refusal(AdminErrorKind::NotLeader, "")), None);
    let other = refusal(AdminErrorKind::Other("Conflict".into()), "n2:5");
    assert_eq!(call.with_redirect(&other), None);
}

#[test]
fn changes_are_reported() {
    let done = ChangeResponse {
        ok: true,
        ..refusal(AdminErrorKind::Other("0".into()), "")
    };
    assert_eq!(report(&done).unwrap(), "ok");
    assert_eq!(
        report(&refusal(AdminErrorKind::NotLeader, "")).unwrap_err(),
        "admin error (NotLeader): why"
    );
    assert_eq!(
        report(&refusal(AdminErrorKind::Other("17".into()), "")).unwrap_err(),
        "admin error (17): why"
    );
    assert!(matches!(report_activation(&done), ActivationReport::Done(line) if line == "ok"));
    for (error, expected_code, expected) in [
        (
            AdminErrorKind::MembersBelowTarget,
            2,
            "activate-format: gate rejected: why",
        ),
        (AdminErrorKind::NotLeader, 3, "activate-format: not the leader"),
        (
            AdminErrorKind::TargetOutOfRange,
            4,
            "activate-format: target outside local readable range: why",
        ),
    ] {
        match report_activation(&refusal(error, "")) {
            ActivationReport::Exit { code, line } => {
                assert_eq!(code, expected_code);
                assert_eq!(line, expected);
            }
            other => panic!("expected an exit, got {other:?}"),
        }
    }
    assert!(matches!(
        report_activation(&refusal(AdminErrorKind::Other("Fatal".into()), "")),
        ActivationReport::Failed(line) if line == "activate-format error (Fatal): why"
    ));
}

#[test]
fn clusters_are_listed() {
    let members = vec![MemberInfo {
        id: 12,
        role: "Voter".into(),
        raft_addr: "r:1".into(),
        service_endpoint: "s:2".into(),
        admin_endpoint: "a:3".into(),
    }];
    assert_eq!(
        member_lines(Some(12), &members),
        vec![
            "leader: 12",
            "  id=12 role=Voter raft=r:1 service=s:2 admin=a:3"
        ]
    );
    assert_eq!(member_lines(None, &Vec::new()), vec!["leader: none"]);
}

#[test]
fn commands_become_requests() {
    let tls = || client_args(None, None, None);
    let plan = dispatch_admin(AdminCmd::Members(MembersArgs {
        endpoint: "http://x".into(),
        capabilities: true,
        tls: tls(),
    }));
    assert_eq!(plan.endpoint, "http://x");
    assert!(matches!(
        plan.request,
        AdminRequest::ListMembers { capabilities: true }
    ));
    let plan = dispatch_admin(AdminCmd::AddLearner(AddLearnerArgs {
        endpoint: "e".into(),
        id: 4,
        raft_addr: "r".into(),
        service_endpoint: "s".into(),
        admin_endpoint: "a".into(),
        tls: tls(),
    }));
    match plan.request {
        AdminRequest::AddLearner {
            id,
            raft_addr,
            service_endpoint,
            admin_endpoint,
        } => {
            assert_eq!(id, 4);
            assert_eq!((raft_addr, service_endpoint), ("r".into(), "s".into()));
            assert_eq!(admin_endpoint, "a");
        }
        other => panic!("expected a learner, got {other:?}"),
    }
    let by_id = |id: u64| AdminIdArgs {
        endpoint: "e".into(),
        id,
        tls: tls(),
    };
    let plan = dispatch_admin(AdminCmd::Promote(by_id(5)));
    assert!(matches!(plan.request, AdminRequest::Promote { id: 5 }));
    let plan = dispatch_admin(AdminCmd::Remove(by_id(6)));
    assert!(matches!(plan.request, AdminRequest::RemoveNode { id: 6 }));
    let plan = dispatch_admin(AdminCmd::ActivateFormat(ActivateFormatArgs {
        endpoint: "e".into(),
        target: 255,
        tls: tls(),
    }));
    assert!(matches!(
        plan.request,
        AdminRequest::ActivateFormat { target: 255 }
    ));
    let plan = dispatch_admin(AdminCmd::Capabilities(CapabilitiesArgs {
        endpoint: "e".into(),
        json: true,
        tls: tls(),
    }));
    assert!(matches!(
        plan.request,
        AdminRequest::Capabilities { json: true }
    ));
}

#[test]
fn endpoints_of_admin_calls_are_looked_at() {
    for good in ["http://127.0.0.1:51002", "https://n1:5", "n1:5"] {
        assert_eq!(admin_endpoint(good), Ok(()));
    }
    for bad in ["", "http://a b", "http://"] {
        assert_eq!(admin_endpoint(bad), Err(format!("invalid endpoint {bad}")));
    }
    assert_eq!(judged_endpoint("n1:5", true), Ok(()));
    assert_eq!(judged_endpoint("n1:5", false), Err("invalid endpoint n1:5".into()));
}

#[test]
fn an_unreadable_log_filter_falls_back_to_info() {
    for good in ["", "info", "warn,tsoracle=debug", " tsoracle = debug"] {
        assert!(!may_misread(good));
    }
    assert_eq!(log_filter("warn,tsoracle=debug"), "warn,tsoracle=debug");
    assert_eq!(log_filter(""), "");
    assert_eq!(log_filter("tsoracle=loud"), "info");
    assert_eq!(log_filter("é=debug"), "é=debug");
    for odd in [" é=debug", "info, é=debug", "\u{3000}a=info"] {
        assert!(may_misread(odd), "{odd}");
    }
    for plain in ["é =debug,info", "a=info,é=debug", " a=info,é=debug"] {
        assert!(!may_misread(plain), "{plain}");
    }
    assert_eq!(chosen_filter("debug", true), "debug");
    assert_eq!(chosen_filter("debug", false), "info");
}
