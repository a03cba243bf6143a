//! Arguments of the `tsoracle` program.
use vstd::prelude::*;
use vstd::string::*;

use crate::node::span;
use crate::time::Duration;

verus! {

/// `std::path::PathBuf`, carried through unopened.
#[verifier::external_type_specification]
#[verifier::external_body]
pub struct ExPathBuf(std::path::PathBuf);

/// Administration of a cluster over the admin port.
#[derive(Debug)]
pub enum AdminCmd {
    /// List current members; with `capabilities`, also each member's format-version capabilities.
    Members(MembersArgs),
    /// Add a non-voting learner.
    AddLearner(AddLearnerArgs),
    /// Promote a learner to voter.
    Promote(AdminIdArgs),
    /// Remove a node.
    Remove(AdminIdArgs),
    /// Initiate the activation of a format version.
    ActivateFormat(ActivateFormatArgs),
    /// Report every member's format-version capabilities.
    Capabilities(CapabilitiesArgs),
}

/// What the caller presents to an admin server that asks for certificates: all three files or none.
#[derive(Clone, Debug)]
pub struct AdminClientTlsArgs {
    /// Client certificate to present.
    pub client_tls_cert: Option<std::path::PathBuf>,
    /// Private key of the client certificate.
    pub client_tls_key: Option<std::path::PathBuf>,
    /// Authority that the server's certificate is verified against.
    pub client_tls_ca: Option<std::path::PathBuf>,
}

/// Arguments of `admin members`.
#[derive(Debug)]
pub struct MembersArgs {
    /// Any node's admin endpoint.
    pub endpoint: String,
    /// Also gather each member's format-version capabilities.
    pub capabilities: bool,
    pub tls: AdminClientTlsArgs,
}

/// Arguments of `admin capabilities`.
#[derive(Debug)]
pub struct CapabilitiesArgs {
    /// Any node's admin endpoint.
    pub endpoint: String,
    /// Report as JSON instead of a table.
    pub json: bool,
    pub tls: AdminClientTlsArgs,
}

/// Arguments of `admin promote` and `admin remove`.
#[derive(Debug)]
pub struct AdminIdArgs {
    pub endpoint: String,
    pub id: u64,
    pub tls: AdminClientTlsArgs,
}

/// Arguments of `admin add-learner`.
#[derive(Debug)]
pub struct AddLearnerArgs {
    pub endpoint: String,
    pub id: u64,
    pub raft_addr: String,
    pub service_endpoint: String,
    pub admin_endpoint: String,
    pub tls: AdminClientTlsArgs,
}

/// Arguments of `admin activate-format`.
#[derive(Debug)]
pub struct ActivateFormatArgs {
    /// Admin endpoint of any member.
    pub endpoint: String,
    /// Format version to activate.
    pub target: u8,
    pub tls: AdminClientTlsArgs,
}

/// Arguments of `init`.
#[derive(Debug)]
pub struct InitArgs {
    pub state_dir: std::path::PathBuf,
    pub seed_physical_ms: u64,
}

/// Three files that are given together or not at all.
#[derive(Debug)]
pub struct TlsTrio {
    pub cert: Option<std::path::PathBuf>,
    pub key: Option<std::path::PathBuf>,
    pub ca: Option<std::path::PathBuf>,
}

/// A driver to serve with, and its own arguments.
#[derive(Debug)]
pub enum ServeCmd {
    /// A single node with a file.
    File(FileArgs),
    /// A node of a raft cluster.
    Openraft(OpenraftArgs),
    /// A node of a paxos cluster.
    Paxos(PaxosArgs),
}

/// Arguments of `serve file`.
#[derive(Debug)]
pub struct FileArgs {
    /// Where the window is kept.
    pub state_dir: std::path::PathBuf,
}

/// Arguments of `serve openraft`. Addresses are given as they are written.
#[derive(Debug)]
pub struct OpenraftArgs {
    pub id: u64,
    /// Where peers are listened for.
    pub raft_addr: String,
    pub raft_dir: std::path::PathBuf,
    pub bootstrap: bool,
    /// The initial membership, as it is written.
    pub members: Option<String>,
    pub heartbeat_ms: u64,
    pub election_min_ms: u64,
    pub election_max_ms: u64,
    /// Where the admin server listens, if there is one.
    pub admin_listen: Option<String>,
    pub admin_tls: TlsTrio,
    pub peer_tls: TlsTrio,
}

/// Arguments of `serve paxos`. Addresses are given as they are written.
#[derive(Debug)]
pub struct PaxosArgs {
    pub node_id: u64,
    /// Where peers are listened for.
    pub peer_listen: String,
    pub peers: String,
    pub tso_peers: String,
    pub data_dir: std::path::PathBuf,
    pub tick_interval: Duration,
    pub peer_tls: TlsTrio,
}

/// What `humantime::parse_duration` makes of a text: a number of nanoseconds, or a message.
pub uninterp spec fn parsed_span(text: Seq<char>) -> Result<nat, Seq<char>>;

/// `humantime::parse_duration`, with the duration taken apart into seconds and the nanoseconds of
/// the last second, and an error taken by its `Display`: a function of the text alone.
///
/// It adds the numbers up from the front, each in whole seconds and nanoseconds, and then its
/// fraction. Where the seconds so far are at their largest and the nanoseconds come to one second
/// exactly, it carries that second over without a check, and panics: the sum is then
/// [`span::SPAN_LIMIT`], reached by the nanoseconds of the last step.
#[verifier::external_body]
fn humantime_span(input: &str) -> (r: Result<(u64, u32), String>)
    requires
        !span::touches_limit(input@),
    ensures
        match r {
            Ok(span) => span.1 < 1_000_000_000 && parsed_span(input@) == Ok::<nat, Seq<char>>(
                (span.0 * 1_000_000_000 + span.1) as nat,
            ),
            Err(message) => parsed_span(input@) == Err::<nat, Seq<char>>(message@),
        },
{
    match humantime::parse_duration(input) {
        Ok(span) => Ok((span.as_secs(), span.subsec_nanos())),
        Err(error) => Err(error.to_string()),
    }
}

/// Reads a duration such as `3s` or `20ms`. One whose nanoseconds fill up the last second below 2^64
/// seconds is not to be read; [`span::may_touch_limit`] tells these.
pub fn parse_duration(input: &str) -> (r: Result<Duration, String>)
    requires
        !span::touches_limit(input@),
    ensures
        match r {
            Ok(span) => parsed_span(input@) == Ok::<nat, Seq<char>>(span@),
            Err(message) => parsed_span(input@) == Err::<nat, Seq<char>>(message@),
        },
{
    match humantime_span(input) {
        Ok(span) => Ok(Duration::new(span.0, span.1)),
        Err(message) => Err(message),
    }
}

/// A duration that is read, and one that is not, are those of the text, to the nanosecond and to the
/// letter.
pub proof fn law_what_a_duration_is_read_as(input: &str, read: Result<Duration, String>)
    requires
        call_ensures(parse_duration, (input,), read),
    ensures
        read is Ok <==> parsed_span(input@) is Ok,
        read matches Ok(span) ==> span@ == parsed_span(input@)->Ok_0,
        read matches Err(message) ==> message@ == parsed_span(input@)->Err_0,
{
}

} // verus!
