//! Which drivers a build holds, what it says where one is missing, and what each is built from.
use std::collections::BTreeMap;
use vstd::prelude::*;
use vstd::string::*;

use crate::node::cli::{FileArgs, OpenraftArgs, PaxosArgs, ServeCmd, TlsTrio};
use crate::node::members;
use crate::node::members::{parse_members, MemberAddr};
use crate::node::tls;
use crate::node::tls::{admin_tls_config, peer_tls_config, AdminTlsConfig, PeerTlsConfig};
use crate::text;
use crate::text::{decimal_text, join, joined};
use crate::time::Duration;

verus! {

/// The drivers that a build holds.
#[derive(Clone, Copy, Debug)]
pub struct Drivers {
    pub file: bool,
    pub openraft: bool,
    pub paxos: bool,
}

impl Drivers {
    /// The names of the drivers that are there, in a fixed order.
    pub open spec fn names(self) -> Seq<Seq<char>> {
        (if self.file {
            seq!["file"@]
        } else {
            Seq::empty()
        }) + (if self.openraft {
            seq!["openraft"@]
        } else {
            Seq::empty()
        }) + (if self.paxos {
            seq!["paxos"@]
        } else {
            Seq::empty()
        })
    }

    /// The names in one line.
    pub open spec fn listed(self) -> Seq<char> {
        text::with_between(self.names(), ", "@)
    }
}

/// The names of the drivers that are there, in a fixed order.
pub fn available_drivers(drivers: &Drivers) -> (r: Vec<String>)
    ensures
        text::views(r@) == drivers.names(),
{
    let mut names: Vec<String> = Vec::new();
    if drivers.file {
        names.push(String::from_str("file"));
    }
    if drivers.openraft {
        names.push(String::from_str("openraft"));
    }
    if drivers.paxos {
        names.push(String::from_str("paxos"));
    }
    assert(text::views(names@) =~= drivers.names());
    names
}

/// What is said where a driver is asked for that the build does not hold.
pub open spec fn missing_driver(driver: Seq<char>, drivers: Drivers) -> Seq<char> {
    "this build does not include the "@ + driver + " driver; rebuild with `--features "@ + driver
        + "`. available drivers: "@ + drivers.listed()
}

/// What is said where a driver is asked for that the build does not hold.
pub fn not_compiled_in(driver: &str, drivers: &Drivers) -> (r: String)
    ensures
        r@ == missing_driver(driver@, *drivers),
{
    let mut line = joined("this build does not include the ", driver);
    line.append(" driver; rebuild with `--features ");
    line.append(driver);
    line.append("`. available drivers: ");
    line.append(join(&available_drivers(drivers), ", ").as_str());
    line
}

/// The timings of a raft node, in milliseconds.
#[derive(Clone, Copy, Debug, PartialEq, Eq, Structural)]
pub struct RaftTuning {
    pub heartbeat_ms: u64,
    pub election_min_ms: u64,
    pub election_max_ms: u64,
}

/// What a single node with a file starts with.
#[derive(Debug)]
pub struct FileConfig {
    pub state_dir: std::path::PathBuf,
}

/// What a node of a raft cluster starts with.
#[derive(Debug)]
pub struct OpenraftConfig {
    pub id: u64,
    pub raft_addr: String,
    pub raft_dir: std::path::PathBuf,
    pub bootstrap: bool,
    pub initial_membership: Option<BTreeMap<u64, MemberAddr>>,
    pub tuning: RaftTuning,
    pub peer_tls: Option<PeerTlsConfig>,
    pub admin_listen: Option<String>,
    pub admin_tls: Option<AdminTlsConfig>,
}

/// What a node of a paxos cluster starts with. The peers are still as they were written.
#[derive(Debug)]
pub struct PaxosConfig {
    pub node_id: u64,
    pub peer_listen: String,
    pub peers: String,
    pub tso_peers: String,
    pub data_dir: std::path::PathBuf,
    pub tick_interval: Duration,
    pub peer_tls: Option<PeerTlsConfig>,
}

/// What a driver is built from.
#[derive(Debug)]
pub enum DriverConfig {
    File(FileConfig),
    Openraft(OpenraftConfig),
    Paxos(PaxosConfig),
}

/// True where some but not all of the three files are given.
pub open spec fn is_partial(files: TlsTrio) -> bool {
    tls::partial(files.cert is Some, files.key is Some, files.ca is Some)
}

/// True of the certificates that three files stand for.
pub open spec fn peer_files(files: TlsTrio, config: Option<PeerTlsConfig>) -> bool {
    match config {
        Some(given) => files == (TlsTrio {
            cert: Some(given.cert),
            key: Some(given.key),
            ca: Some(given.ca),
        }),
        None => files == (TlsTrio { cert: None, key: None, ca: None }),
    }
}

/// True of the certificates that three files stand for.
pub open spec fn admin_files(files: TlsTrio, config: Option<AdminTlsConfig>) -> bool {
    match config {
        Some(given) => files == (TlsTrio {
            cert: Some(given.cert),
            key: Some(given.key),
            ca: Some(given.ca),
        }),
        None => files == (TlsTrio { cert: None, key: None, ca: None }),
    }
}

/// What keeps a command from being served, and the cause where there is one: that the build lacks
/// the driver, a membership that cannot be read, the peers' certificates given in part, then the
/// admin server's.
pub open spec fn serve_fault(command: ServeCmd, drivers: Drivers) -> Option<
    (Seq<char>, Option<Seq<char>>),
> {
    match command {
        ServeCmd::File(_) => if drivers.file {
            None
        } else {
            Some((missing_driver("file"@, drivers), None))
        },
        ServeCmd::Openraft(args) => if !drivers.openraft {
            Some((missing_driver("openraft"@, drivers), None))
        } else if args.members is Some && members::written_members(args.members->0@) is Err {
            Some(members::written_members(args.members->0@)->Err_0)
        } else if is_partial(args.peer_tls) {
            Some(
                (
                    "--peer-tls-cert, --peer-tls-key, and --peer-tls-ca must all be set together"@,
                    None,
                ),
            )
        } else if is_partial(args.admin_tls) {
            Some(
                (
                    "--admin-tls-cert, --admin-tls-key, and --admin-tls-ca must all be set together"@,
                    None,
                ),
            )
        } else {
            None
        },
        ServeCmd::Paxos(args) => if !drivers.paxos {
            Some((missing_driver("paxos"@, drivers), None))
        } else if is_partial(args.peer_tls) {
            Some(
                (
                    "--peer-tls-cert, --peer-tls-key, and --peer-tls-ca must all be set together"@,
                    None,
                ),
            )
        } else {
            None
        },
    }
}

/// True of what a node starts with for a command: every argument as it was given, the membership
/// read, and the certificates where they were given.
pub open spec fn serve_config(command: ServeCmd, config: DriverConfig) -> bool {
    match (command, config) {
        (ServeCmd::File(args), DriverConfig::File(made)) => made.state_dir == args.state_dir,
        (ServeCmd::Openraft(args), DriverConfig::Openraft(made)) => {
            &&& made.id == args.id
            &&& made.raft_addr == args.raft_addr
            &&& made.raft_dir == args.raft_dir
            &&& made.bootstrap == args.bootstrap
            &&& match (args.members, made.initial_membership) {
                (Some(text), Some(map)) => members::written_members(text@) == Ok::<
                    _,
                    (Seq<char>, Option<Seq<char>>),
                >(members::member_views(map@)),
                (None, None) => true,
                _ => false,
            }
            &&& made.tuning == RaftTuning {
                heartbeat_ms: args.heartbeat_ms,
                election_min_ms: args.election_min_ms,
                election_max_ms: args.election_max_ms,
            }
            &&& peer_files(args.peer_tls, made.peer_tls)
            &&& made.admin_listen == args.admin_listen
            &&& admin_files(args.admin_tls, made.admin_tls)
        },
        (ServeCmd::Paxos(args), DriverConfig::Paxos(made)) => {
            &&& made.node_id == args.node_id
            &&& made.peer_listen == args.peer_listen
            &&& made.peers == args.peers
            &&& made.tso_peers == args.tso_peers
            &&& made.data_dir == args.data_dir
            &&& made.tick_interval == args.tick_interval
            &&& peer_files(args.peer_tls, made.peer_tls)
        },
        _ => false,
    }
}

/// What a node starts with for a command; else what is said instead, and the cause where there is
/// one. The first fault is reported.
pub fn dispatch_serve(command: ServeCmd, drivers: &Drivers) -> (r: Result<
    DriverConfig,
    (String, Option<String>),
>)
    ensures
        match r {
            Ok(config) => serve_fault(command, *drivers) is None && serve_config(command, config),
            Err(fault) => serve_fault(command, *drivers) == Some(members::fault_view(fault)),
        },
{
    match command {
        ServeCmd::File(args) => if drivers.file {
            Ok(DriverConfig::File(FileConfig { state_dir: args.state_dir }))
        } else {
            Err((not_compiled_in("file", drivers), None))
        },
        ServeCmd::Openraft(args) => {
            if !drivers.openraft {
                return Err((not_compiled_in("openraft", drivers), None));
            }
            let initial_membership = match &args.members {
                Some(text) => match parse_members(text.as_str()) {
                    Ok(members) => Some(members),
                    Err(fault) => {
                        return Err(fault);
                    },
                },
                None => None,
            };
            let peer = args.peer_tls;
            let peer_tls = match peer_tls_config(peer.cert, peer.key, peer.ca) {
                Ok(files) => files,
                Err(line) => {
                    return Err((line, None));
                },
            };
            let admin = args.admin_tls;
            let admin_tls = match admin_tls_config(admin.cert, admin.key, admin.ca) {
                Ok(files) => files,
                Err(line) => {
                    return Err((line, None));
                },
            };
            Ok(
                DriverConfig::Openraft(
                    OpenraftConfig {
                        id: args.id,
                        raft_addr: args.raft_addr,
                        raft_dir: args.raft_dir,
                        bootstrap: args.bootstrap,
                        initial_membership,
                        tuning: RaftTuning {
                            heartbeat_ms: args.heartbeat_ms,
                            election_min_ms: args.election_min_ms,
                            election_max_ms: args.election_max_ms,
                        },
                        peer_tls,
                        admin_listen: args.admin_listen,
                        admin_tls,
                    },
                ),
            )
        },
        ServeCmd::Paxos(args) => {
            if !drivers.paxos {
                return Err((not_compiled_in("paxos", drivers), None));
            }
            let peer = args.peer_tls;
            let peer_tls = match peer_tls_config(peer.cert, peer.key, peer.ca) {
                Ok(files) => files,
                Err(line) => {
                    return Err((line, None));
                },
            };
            Ok(
                DriverConfig::Paxos(
                    PaxosConfig {
                        node_id: args.node_id,
                        peer_listen: args.peer_listen,
                        peers: args.peers,
                        tso_peers: args.tso_peers,
                        data_dir: args.data_dir,
                        tick_interval: args.tick_interval,
                        peer_tls,
                    },
                ),
            )
        },
    }
}

/// Whether a listener may be opened: one that only this host reaches always may, any other only with
/// certificates or where the operator has opted out of the guard.
pub fn listen_allowed(loopback: bool, tls: bool, allow_insecure: bool) -> (r: bool)
    ensures
        r == (loopback || tls || allow_insecure),
{
    loopback || tls || allow_insecure
}

/// How the listeners of a node can be reached: whether only this host reaches the one for peers and
/// the one of the admin server, and whether the operator has opted out of the guard on the first.
#[derive(Clone, Copy, Debug)]
pub struct Exposure {
    pub peer_loopback: bool,
    pub admin_loopback: bool,
    pub allow_insecure_peer: bool,
}

/// What is said of a listener for peers that may not be opened, where it may not.
pub open spec fn peer_fault(exposure: Exposure, tls: bool) -> Option<Seq<char>> {
    if exposure.peer_loopback || tls || exposure.allow_insecure_peer {
        None
    } else {
        Some("the peer listener on a routable address needs certificates"@)
    }
}

/// What is said of the first listener of a node that may not be opened, where there is one. The
/// guard on the admin server has no way out.
pub open spec fn listener_fault(config: DriverConfig, exposure: Exposure) -> Option<Seq<char>> {
    match config {
        DriverConfig::File(_) => None,
        DriverConfig::Openraft(made) => if peer_fault(exposure, made.peer_tls is Some) is Some {
            peer_fault(exposure, made.peer_tls is Some)
        } else if made.admin_listen is Some && !exposure.admin_loopback && made.admin_tls is None {
            Some("the admin listener on a routable address needs certificates"@)
        } else {
            None
        },
        DriverConfig::Paxos(made) => peer_fault(exposure, made.peer_tls is Some),
    }
}

/// Whether the listeners of a node may be opened; otherwise what is said of the first that may not.
pub fn guard_listeners(config: &DriverConfig, exposure: &Exposure) -> (r: Result<(), String>)
    ensures
        match r {
            Ok(_) => listener_fault(*config, *exposure) is None,
            Err(line) => listener_fault(*config, *exposure) == Some(line@),
        },
{
    let peer_tls: bool = match config {
        DriverConfig::File(_) => {
            return Ok(());
        },
        DriverConfig::Openraft(made) => made.peer_tls.is_some(),
        DriverConfig::Paxos(made) => made.peer_tls.is_some(),
    };
    if !listen_allowed(exposure.peer_loopback, peer_tls, exposure.allow_insecure_peer) {
        return Err(
            String::from_str("the peer listener on a routable address needs certificates"),
        );
    }
    if let DriverConfig::Openraft(made) = config {
        if made.admin_listen.is_some() && !listen_allowed(
            exposure.admin_loopback,
            made.admin_tls.is_some(),
            false,
        ) {
            return Err(
                String::from_str("the admin listener on a routable address needs certificates"),
            );
        }
    }
    Ok(())
}

/// What a node starts with where no subcommand is given, which is the file driver; else what is said
/// instead.
pub fn default_serve(args: FileArgs, drivers: &Drivers) -> (r: Result<DriverConfig, String>)
    ensures
        match r {
            Ok(config) => drivers.file && config == DriverConfig::File(
                (FileConfig { state_dir: args.state_dir }),
            ),
            Err(line) => !drivers.file && line@
                == "no subcommand given and this build excludes the file driver; specify `serve <driver>`. available drivers: "@
                + drivers.listed(),
        },
{
    if drivers.file {
        Ok(DriverConfig::File(FileConfig { state_dir: args.state_dir }))
    } else {
        Err(
            joined(
                "no subcommand given and this build excludes the file driver; specify `serve <driver>`. available drivers: ",
                join(&available_drivers(drivers), ", ").as_str(),
            ),
        )
    }
}

/// What seeding a state directory came to.
#[derive(Debug)]
pub enum Seeded {
    /// The directory is seeded.
    Done,
    /// Seeding failed; the text describes how.
    Failed(String),
}

/// What `init` reports, in a build that holds the file driver, of seeding the directory that is
/// shown as `state_dir`; a failure comes with its cause. Without that driver nothing is seeded.
pub fn run_init(drivers: &Drivers, state_dir: &str, seed_physical_ms: u64, seeded: Seeded) -> (r:
    Result<String, (String, Option<String>)>)
    ensures
        match r {
            Ok(line) => drivers.file && seeded is Done && line@ == "Initialized "@ + state_dir@
                + " at seed physical_ms="@ + text::spec_decimal(seed_physical_ms as nat),
            Err((line, None)) => !drivers.file && line@ == missing_driver("file"@, *drivers),
            Err((line, Some(cause))) => drivers.file && seeded == Seeded::Failed(cause) && line@
                == "init state_dir="@ + state_dir@,
        },
{
    if !drivers.file {
        return Err((not_compiled_in("file", drivers), None));
    }
    match seeded {
        Seeded::Done => {
            let mut line = joined("Initialized ", state_dir);
            line.append(" at seed physical_ms=");
            line.append(decimal_text(seed_physical_ms).as_str());
            Ok(line)
        },
        Seeded::Failed(cause) => Err((joined("init state_dir=", state_dir), Some(cause))),
    }
}

/// True where all three files are given, or none of them.
pub open spec fn whole_or_none(files: TlsTrio) -> bool {
    (files.cert is Some && files.key is Some && files.ca is Some) || (files.cert is None
        && files.key is None && files.ca is None)
}

/// A build lists the drivers it holds, and says so where another one is asked for: file, then
/// openraft, then paxos.
pub proof fn law_which_drivers_are_listed(
    drivers: Drivers,
    names: Vec<String>,
    list: String,
    between: &str,
    driver: &str,
    line: String,
)
    requires
        between@ == ", "@,
        call_ensures(available_drivers, (&drivers,), names),
        call_ensures(text::join, (&names, between), list),
        call_ensures(not_compiled_in, (driver, &drivers), line),
    ensures
        ({
            let a: int = if drivers.file {
                1
            } else {
                0
            };
            let b: int = if drivers.openraft {
                a + 1
            } else {
                a
            };
            let c: int = if drivers.paxos {
                b + 1
            } else {
                b
            };
            &&& names@.len() == c
            &&& drivers.file ==> names@[0]@ == "file"@
            &&& drivers.openraft ==> names@[a]@ == "openraft"@
            &&& drivers.paxos ==> names@[b]@ == "paxos"@
        }),
        line@ == "this build does not include the "@ + driver@
            + " driver; rebuild with `--features "@ + driver@ + "`. available drivers: "@ + list@,
{
    let views = text::views(names@);
    assert(views.len() == names@.len());
    assert(forall|i: int| 0 <= i < names@.len() ==> views[i] == (#[trigger] names@[i])@);
}

/// The file driver serves exactly where the build holds it, with the directory it was given, with a
/// subcommand and without one.
pub proof fn law_serving_with_a_file(
    args: FileArgs,
    drivers: Drivers,
    served: Result<DriverConfig, (String, Option<String>)>,
    by_default: Result<DriverConfig, String>,
    missing: String,
    driver: &str,
)
    requires
        driver@ == "file"@,
        call_ensures(not_compiled_in, (driver, &drivers), missing),
        call_ensures(dispatch_serve, (ServeCmd::File(args), &drivers), served),
        call_ensures(default_serve, (args, &drivers), by_default),
    ensures
        served is Ok <==> drivers.file,
        by_default is Ok <==> drivers.file,
        served matches Ok(config) ==> (config matches DriverConfig::File(made) && made.state_dir
            == args.state_dir),
        by_default matches Ok(config) ==> (config matches DriverConfig::File(made)
            && made.state_dir == args.state_dir),
        served matches Err((line, cause)) ==> line@ == missing@ && cause is None,
{
}

/// A raft node is served exactly where the build holds the driver, the membership, where one is
/// given, can be read, and neither the peers' nor the admin server's certificates are given in part.
/// It starts with every argument as it was given and the members as they were read.
pub proof fn law_serving_a_raft_node(
    args: OpenraftArgs,
    drivers: Drivers,
    written: &str,
    read: Result<BTreeMap<u64, MemberAddr>, (String, Option<String>)>,
    served: Result<DriverConfig, (String, Option<String>)>,
)
    requires
        args.members matches Some(given) ==> written@ == given@,
        call_ensures(parse_members, (written,), read),
        call_ensures(dispatch_serve, (ServeCmd::Openraft(args), &drivers), served),
    ensures
        served is Ok <==> drivers.openraft && (args.members is None || read is Ok)
            && whole_or_none(args.peer_tls) && whole_or_none(args.admin_tls),
        served matches Ok(config) ==> (config matches DriverConfig::Openraft(made) && {
            &&& made.id == args.id
            &&& made.raft_addr == args.raft_addr && made.raft_dir == args.raft_dir
            &&& made.bootstrap == args.bootstrap
            &&& made.tuning.heartbeat_ms == args.heartbeat_ms
            &&& made.tuning.election_min_ms == args.election_min_ms
            &&& made.tuning.election_max_ms == args.election_max_ms
            &&& made.admin_listen == args.admin_listen
            &&& made.initial_membership is Some <==> args.members is Some
            &&& made.initial_membership matches Some(members) ==> members::member_views(members@)
                == members::member_views(read->Ok_0@)
            &&& made.peer_tls is Some <==> args.peer_tls.cert is Some
            &&& made.peer_tls matches Some(files) ==> Some(files.cert) == args.peer_tls.cert
                && Some(files.key) == args.peer_tls.key && Some(files.ca) == args.peer_tls.ca
            &&& made.admin_tls is Some <==> args.admin_tls.cert is Some
            &&& made.admin_tls matches Some(files) ==> Some(files.cert) == args.admin_tls.cert
                && Some(files.key) == args.admin_tls.key && Some(files.ca) == args.admin_tls.ca
        }),
{
}

/// What is said where a raft node is not served: that the build lacks the driver, else what is wrong
/// with the membership, else with the peers' certificates, else with the admin server's.
pub proof fn law_why_a_raft_node_is_not_served(
    args: OpenraftArgs,
    drivers: Drivers,
    written: &str,
    read: Result<BTreeMap<u64, MemberAddr>, (String, Option<String>)>,
    driver: &str,
    missing: String,
    line: String,
    cause: Option<String>,
)
    requires
        args.members matches Some(given) ==> written@ == given@,
        driver@ == "openraft"@,
        call_ensures(not_compiled_in, (driver, &drivers), missing),
        call_ensures(parse_members, (written,), read),
        call_ensures(dispatch_serve, (ServeCmd::Openraft(args), &drivers), Err((line, cause))),
    ensures
        if !drivers.openraft {
            line@ == missing@ && cause is None
        } else if args.members is Some && read is Err {
            members::fault_view((line, cause)) == members::fault_view(read->Err_0)
        } else if !whole_or_none(args.peer_tls) {
            line@ == "--peer-tls-cert, --peer-tls-key, and --peer-tls-ca must all be set together"@
                && cause is None
        } else {
            line@
                == "--admin-tls-cert, --admin-tls-key, and --admin-tls-ca must all be set together"@
                && cause is None
        },
{
}

/// A paxos node is served exactly where the build holds the driver and the peers' certificates are
/// not given in part, with every argument as it was given.
pub proof fn law_serving_a_paxos_node(
    args: PaxosArgs,
    drivers: Drivers,
    driver: &str,
    missing: String,
    served: Result<DriverConfig, (String, Option<String>)>,
)
    requires
        driver@ == "paxos"@,
        call_ensures(not_compiled_in, (driver, &drivers), missing),
        call_ensures(dispatch_serve, (ServeCmd::Paxos(args), &drivers), served),
    ensures
        served is Ok <==> drivers.paxos && whole_or_none(args.peer_tls),
        served matches Ok(config) ==> (config matches DriverConfig::Paxos(made) && {
            &&& made.node_id == args.node_id
            &&& made.peer_listen == args.peer_listen
            &&& made.peers == args.peers && made.tso_peers == args.tso_peers
            &&& made.data_dir == args.data_dir
            &&& made.tick_interval == args.tick_interval
            &&& made.peer_tls is Some <==> args.peer_tls.cert is Some
            &&& made.peer_tls matches Some(files) ==> Some(files.cert) == args.peer_tls.cert
                && Some(files.key) == args.peer_tls.key && Some(files.ca) == args.peer_tls.ca
        }),
        served matches Err((line, cause)) ==> cause is None && line@ == if !drivers.paxos {
            missing@
        } else {
            "--peer-tls-cert, --peer-tls-key, and --peer-tls-ca must all be set together"@
        },
{
}

/// No listener that others can reach is opened without certificates, but for the peers' where the
/// operator has opted out of that guard; every other listener is.
pub proof fn law_which_listeners_are_opened(
    config: DriverConfig,
    exposure: Exposure,
    guarded: Result<(), String>,
    loopback: bool,
    tls: bool,
    opted_out: bool,
    allowed: bool,
)
    requires
        call_ensures(guard_listeners, (&config, &exposure), guarded),
        call_ensures(listen_allowed, (loopback, tls, opted_out), allowed),
    ensures
        !allowed <==> !loopback && !tls && !opted_out,
        ({
            let peers_open = match config {
                DriverConfig::File(_) => true,
                DriverConfig::Openraft(made) => exposure.peer_loopback || made.peer_tls is Some
                    || exposure.allow_insecure_peer,
                DriverConfig::Paxos(made) => exposure.peer_loopback || made.peer_tls is Some
                    || exposure.allow_insecure_peer,
            };
            let admin_open = match config {
                DriverConfig::Openraft(made) => made.admin_listen is None
                    || exposure.admin_loopback || made.admin_tls is Some,
                _ => true,
            };
            &&& guarded is Ok <==> peers_open && admin_open
            &&& guarded matches Err(line) ==> line@ == if !peers_open {
                "the peer listener on a routable address needs certificates"@
            } else {
                "the admin listener on a routable address needs certificates"@
            }
        }),
{
}

/// What `init` reports: without the file driver that it is missing; else the directory and the seed
/// where it was seeded, and the directory and the cause where that failed.
pub proof fn law_what_init_reports(
    drivers: Drivers,
    state_dir: &str,
    seed: u64,
    number: String,
    seeded: Seeded,
    driver: &str,
    missing: String,
    reported: Result<String, (String, Option<String>)>,
)
    requires
        driver@ == "file"@,
        call_ensures(not_compiled_in, (driver, &drivers), missing),
        call_ensures(decimal_text, (seed,), number),
        call_ensures(run_init, (&drivers, state_dir, seed, seeded), reported),
    ensures
        reported is Ok <==> drivers.file && seeded is Done,
        reported matches Ok(line) ==> line@ == "Initialized "@ + state_dir@
            + " at seed physical_ms="@ + number@,
        reported matches Err((line, cause)) ==> if !drivers.file {
            line@ == missing@ && cause is None
        } else {
            line@ == "init state_dir="@ + state_dir@ && cause is Some && seeded == Seeded::Failed(
                cause->0,
            )
        },
{
}

} // verus!
