//! Administration of a cluster: what is asked of which node, and what is reported of the answer.
use vstd::prelude::*;
use vstd::string::*;

use crate::node::cli::{AdminClientTlsArgs, AdminCmd};
use crate::text;
use crate::text::{decimal_text, joined, starts_with};
use crate::transport;
use crate::transport::parses_as_endpoint;

verus! {

/// What a node is asked.
#[derive(Debug)]
pub enum AdminRequest {
    ListMembers { capabilities: bool },
    AddLearner { id: u64, raft_addr: String, service_endpoint: String, admin_endpoint: String },
    Promote { id: u64 },
    RemoveNode { id: u64 },
    ActivateFormat { target: u32 },
    Capabilities { json: bool },
}

/// A request, where it goes first, and the certificates it is made with.
#[derive(Debug)]
pub struct AdminPlan {
    pub endpoint: String,
    pub tls: AdminClientTlsArgs,
    pub request: AdminRequest,
}

/// What is said of an endpoint to dial, given whether it can be read: nothing where it can.
pub fn judged_endpoint(endpoint: &str, readable: bool) -> (r: Result<(), String>)
    ensures
        match r {
            Ok(_) => readable,
            Err(line) => !readable && line@ == "invalid endpoint "@ + endpoint@,
        },
{
    if readable {
        Ok(())
    } else {
        Err(joined("invalid endpoint ", endpoint))
    }
}

/// Whether an endpoint can be dialed, as it is written; otherwise what is said instead.
pub fn admin_endpoint(endpoint: &str) -> (r: Result<(), String>)
    ensures
        match r {
            Ok(_) => transport::is_uri(endpoint@),
            Err(line) => !transport::is_uri(endpoint@) && line@ == "invalid endpoint "@ + endpoint@,
        },
{
    judged_endpoint(endpoint, parses_as_endpoint(endpoint))
}

/// What a command asks of which node.
pub fn dispatch_admin(cmd: AdminCmd) -> (r: AdminPlan)
    ensures
        match cmd {
            AdminCmd::Members(args) => r == (AdminPlan {
                endpoint: args.endpoint,
                tls: args.tls,
                request: AdminRequest::ListMembers { capabilities: args.capabilities },
            }),
            AdminCmd::AddLearner(args) => r == (AdminPlan {
                endpoint: args.endpoint,
                tls: args.tls,
                request: AdminRequest::AddLearner {
                    id: args.id,
                    raft_addr: args.raft_addr,
                    service_endpoint: args.service_endpoint,
                    admin_endpoint: args.admin_endpoint,
                },
            }),
            AdminCmd::Promote(args) => r == (AdminPlan {
                endpoint: args.endpoint,
                tls: args.tls,
                request: AdminRequest::Promote { id: args.id },
            }),
            AdminCmd::Remove(args) => r == (AdminPlan {
                endpoint: args.endpoint,
                tls: args.tls,
                request: AdminRequest::RemoveNode { id: args.id },
            }),
            AdminCmd::ActivateFormat(args) => r == (AdminPlan {
                endpoint: args.endpoint,
                tls: args.tls,
                request: AdminRequest::ActivateFormat { target: args.target as u32 },
            }),
            AdminCmd::Capabilities(args) => r == (AdminPlan {
                endpoint: args.endpoint,
                tls: args.tls,
                request: AdminRequest::Capabilities { json: args.json },
            }),
        },
{
    match cmd {
        AdminCmd::Members(args) => AdminPlan {
            endpoint: args.endpoint,
            tls: args.tls,
            request: AdminRequest::ListMembers { capabilities: args.capabilities },
        },
        AdminCmd::AddLearner(args) => AdminPlan {
            endpoint: args.endpoint,
            tls: args.tls,
            request: AdminRequest::AddLearner {
                id: args.id,
                raft_addr: args.raft_addr,
                service_endpoint: args.service_endpoint,
                admin_endpoint: args.admin_endpoint,
            },
        },
        AdminCmd::Promote(args) => AdminPlan {
            endpoint: args.endpoint,
            tls: args.tls,
            request: AdminRequest::Promote { id: args.id },
        },
        AdminCmd::Remove(args) => AdminPlan {
            endpoint: args.endpoint,
            tls: args.tls,
            request: AdminRequest::RemoveNode { id: args.id },
        },
        AdminCmd::ActivateFormat(args) => AdminPlan {
            endpoint: args.endpoint,
            tls: args.tls,
            request: AdminRequest::ActivateFormat { target: args.target as u32 },
        },
        AdminCmd::Capabilities(args) => AdminPlan {
            endpoint: args.endpoint,
            tls: args.tls,
            request: AdminRequest::Capabilities { json: args.json },
        },
    }
}

/// Why a node did not make a change.
#[derive(Debug)]
pub enum AdminErrorKind {
    /// The node does not lead.
    NotLeader,
    /// Some member does not support the format version.
    MembersBelowTarget,
    /// The node itself does not read the format version.
    TargetOutOfRange,
    /// Anything else, by its name, or by its number where it has none.
    Other(String),
}

impl AdminErrorKind {
    /// The name of the kind.
    pub open spec fn name(self) -> Seq<char> {
        match self {
            AdminErrorKind::NotLeader => "NotLeader"@,
            AdminErrorKind::MembersBelowTarget => "MembersBelowTarget"@,
            AdminErrorKind::TargetOutOfRange => "TargetOutOfRange"@,
            AdminErrorKind::Other(name) => name@,
        }
    }

    /// The name of the kind.
    pub fn text(&self) -> (r: String)
        ensures
            r@ == self.name(),
    {
        match self {
            AdminErrorKind::NotLeader => String::from_str("NotLeader"),
            AdminErrorKind::MembersBelowTarget => String::from_str("MembersBelowTarget"),
            AdminErrorKind::TargetOutOfRange => String::from_str("TargetOutOfRange"),
            AdminErrorKind::Other(name) => name.clone(),
        }
    }
}

/// What a node answered to a change.
#[derive(Debug)]
pub struct ChangeResponse {
    pub ok: bool,
    pub error: AdminErrorKind,
    pub message: String,
    /// Where the leader's admin server is reached, without a scheme; empty where it is not known.
    pub leader_admin_endpoint: String,
}

/// The scheme that a leader is dialed with: the one that the operator dialed with.
pub open spec fn scheme_of(endpoint: Seq<char>) -> Seq<char> {
    if "https://"@.is_prefix_of(endpoint) {
        "https"@
    } else {
        "http"@
    }
}

/// Where a change goes after an answer: to the leader, where the node does not lead and says who
/// does.
pub open spec fn leader_of(endpoint: Seq<char>, response: ChangeResponse) -> Option<Seq<char>> {
    if response.error is NotLeader && response.leader_admin_endpoint@.len() > 0 {
        Some(scheme_of(endpoint) + "://"@ + response.leader_admin_endpoint@)
    } else {
        None
    }
}

/// A change on its way: to the node that the operator named, then to the leader at most once.
#[derive(Debug)]
pub struct AdminCall {
    endpoint: String,
    redirected: bool,
}

/// Model of an [`AdminCall`].
#[verifier::ext_equal]
pub struct AdminCallView {
    pub endpoint: Seq<char>,
    pub redirected: bool,
}

impl View for AdminCall {
    type V = AdminCallView;

    closed spec fn view(&self) -> AdminCallView {
        AdminCallView { endpoint: self.endpoint@, redirected: self.redirected }
    }
}

impl AdminCallView {
    /// Where the change goes after an answer; `None` where the answer stands.
    pub open spec fn next(self, response: ChangeResponse) -> Option<Seq<char>> {
        if self.redirected {
            None
        } else {
            leader_of(self.endpoint, response)
        }
    }
}

impl AdminCall {
    /// A change that goes to `endpoint` first.
    pub fn new(endpoint: String) -> (r: AdminCall)
        ensures
            r@ == (AdminCallView { endpoint: endpoint@, redirected: false }),
    {
        AdminCall { endpoint, redirected: false }
    }

    /// Where the change goes after an answer; `None` where the answer stands.
    pub fn with_redirect(&mut self, response: &ChangeResponse) -> (r: Option<String>)
        ensures
            text::option_view(r) == old(self)@.next(*response),
            final(self)@ == (AdminCallView {
                endpoint: old(self)@.endpoint,
                redirected: old(self)@.redirected || r is Some,
            }),
    {
        let not_leader: bool = match response.error {
            AdminErrorKind::NotLeader => true,
            _ => false,
        };
        if self.redirected || !not_leader || response.leader_admin_endpoint.as_str().unicode_len()
            == 0 {
            return None;
        }
        let scheme = if starts_with(self.endpoint.as_str(), "https://") {
            "https"
        } else {
            "http"
        };
        let mut leader = joined(scheme, "://");
        leader.append(response.leader_admin_endpoint.as_str());
        self.redirected = true;
        Some(leader)
    }
}

/// A change is made at most twice: whatever the leader answers stands.
pub proof fn law_one_redirect(call: AdminCallView, first: ChangeResponse, second: ChangeResponse)
    requires
        call.next(first) is Some,
    ensures
        (AdminCallView { endpoint: call.endpoint, redirected: true }).next(second) is None,
{
}

/// A redirect keeps the scheme that the operator dialed with: `https` is not given up, and nothing
/// but `https` becomes `https`.
pub proof fn law_redirect_keeps_scheme(call: AdminCallView, response: ChangeResponse)
    requires
        call.next(response) is Some,
    ensures
        "https://"@.is_prefix_of(call.endpoint) <==> "https://"@.is_prefix_of(
            call.next(response)->0,
        ),
{
    reveal_strlit("https://");
    reveal_strlit("https");
    reveal_strlit("http");
    reveal_strlit("://");
    let leader = call.next(response)->0;
    if "https://"@.is_prefix_of(call.endpoint) {
        assert(leader.subrange(0, 8) =~= "https://"@);
    } else {
        assert(leader[4] == ':');
        assert("https://"@[4] == 's');
    }
}

/// What is printed of the answer to a change, or how it fails.
pub fn report(response: &ChangeResponse) -> (r: Result<String, String>)
    ensures
        match r {
            Ok(line) => response.ok && line@ == "ok"@,
            Err(line) => !response.ok && line@ == "admin error ("@ + response.error.name() + "): "@
                + response.message@,
        },
{
    if response.ok {
        Ok(String::from_str("ok"))
    } else {
        let mut line = joined("admin error (", response.error.text().as_str());
        line.append("): ");
        line.append(response.message.as_str());
        Err(line)
    }
}

/// What comes of the answer to an activation.
#[derive(Debug)]
pub enum ActivationReport {
    /// Printed; the program succeeds.
    Done(String),
    /// Printed as an error; the program exits with this code.
    Exit { code: i32, line: String },
    /// The program fails with this.
    Failed(String),
}

/// Exit code where the members do not all support the format version.
pub const EXIT_GATE_REJECTED: i32 = 2;

/// Exit code where the node does not lead.
pub const EXIT_NOT_LEADER: i32 = 3;

/// Exit code where the node does not read the format version.
pub const EXIT_TARGET_OUT_OF_RANGE: i32 = 4;

/// What comes of the answer to an activation: each expected refusal has an exit code of its own.
pub fn report_activation(response: &ChangeResponse) -> (r: ActivationReport)
    ensures
        match r {
            ActivationReport::Done(line) => response.ok && line@ == "ok"@,
            ActivationReport::Exit { code, line } => !response.ok && match response.error {
                AdminErrorKind::MembersBelowTarget => code == EXIT_GATE_REJECTED && line@
                    == "activate-format: gate rejected: "@ + response.message@,
                AdminErrorKind::NotLeader => code == EXIT_NOT_LEADER && line@
                    == "activate-format: not the leader"@,
                AdminErrorKind::TargetOutOfRange => code == EXIT_TARGET_OUT_OF_RANGE && line@
                    == "activate-format: target outside local readable range: "@
                    + response.message@,
                AdminErrorKind::Other(_) => false,
            },
            ActivationReport::Failed(line) => !response.ok && response.error is Other && line@
                == "activate-format error ("@ + response.error.name() + "): "@ + response.message@,
        },
{
    if response.ok {
        return ActivationReport::Done(String::from_str("ok"));
    }
    match &response.error {
        AdminErrorKind::MembersBelowTarget => ActivationReport::Exit {
            code: EXIT_GATE_REJECTED,
            line: joined("activate-format: gate rejected: ", response.message.as_str()),
        },
        AdminErrorKind::NotLeader => ActivationReport::Exit {
            code: EXIT_NOT_LEADER,
            line: String::from_str("activate-format: not the leader"),
        },
        AdminErrorKind::TargetOutOfRange => ActivationReport::Exit {
            code: EXIT_TARGET_OUT_OF_RANGE,
            line: joined(
                "activate-format: target outside local readable range: ",
                response.message.as_str(),
            ),
        },
        AdminErrorKind::Other(name) => {
            let mut line = joined("activate-format error (", name.as_str());
            line.append("): ");
            line.append(response.message.as_str());
            ActivationReport::Failed(line)
        },
    }
}

/// One member as a node lists it; the role by its name, or by its number where it has none.
#[derive(Debug)]
pub struct MemberInfo {
    pub id: u64,
    pub role: String,
    pub raft_addr: String,
    pub service_endpoint: String,
    pub admin_endpoint: String,
}

impl MemberInfo {
    /// The line that shows the member.
    pub open spec fn shown(self) -> Seq<char> {
        "  id="@ + text::spec_decimal(self.id as nat) + " role="@ + self.role@ + " raft="@
            + self.raft_addr@ + " service="@ + self.service_endpoint@ + " admin="@
            + self.admin_endpoint@
    }

    /// The line that shows the member.
    pub fn line(&self) -> (r: String)
        ensures
            r@ == self.shown(),
    {
        let mut line = joined("  id=", decimal_text(self.id).as_str());
        line.append(" role=");
        line.append(self.role.as_str());
        line.append(" raft=");
        line.append(self.raft_addr.as_str());
        line.append(" service=");
        line.append(self.service_endpoint.as_str());
        line.append(" admin=");
        line.append(self.admin_endpoint.as_str());
        line
    }
}

/// The lines that show a cluster: its leader, then each member in the order listed.
pub open spec fn shown_members(leader: Option<u64>, members: Seq<MemberInfo>) -> Seq<Seq<char>> {
    seq!["leader: "@ + match leader {
        Some(id) => text::spec_decimal(id as nat),
        None => "none"@,
    }] + Seq::new(members.len(), |i: int| members[i].shown())
}

/// The lines that show a cluster: its leader, then each member in the order listed.
pub fn member_lines(leader: Option<u64>, members: &Vec<MemberInfo>) -> (r: Vec<String>)
    ensures
        text::views(r@) == shown_members(leader, members@),
{
    let mut lines: Vec<String> = Vec::new();
    let shown = match leader {
        Some(id) => decimal_text(id),
        None => String::from_str("none"),
    };
    lines.push(joined("leader: ", shown.as_str()));
    let mut i: usize = 0;
    while i < members.len()
        invariant
            i <= members.len(),
            lines.len() == i + 1,
            lines@[0]@ == shown_members(leader, members@)[0],
            forall|j: int| 1 <= j <= i ==> (#[trigger] lines@[j])@ == members@[j - 1].shown(),
        decreases members.len() - i,
    {
        lines.push(members[i].line());
        i = i + 1;
    }
    assert(text::views(lines@) =~= shown_members(leader, members@));
    lines
}

/// What a command asks, of which node, and with which certificates: everything as it was given.
pub proof fn law_what_a_command_asks(cmd: AdminCmd, plan: AdminPlan)
    requires
        call_ensures(dispatch_admin, (cmd,), plan),
    ensures
        match plan.request {
            AdminRequest::ListMembers { capabilities } => cmd matches AdminCmd::Members(args)
                && capabilities == args.capabilities && plan.endpoint == args.endpoint && plan.tls
                == args.tls,
            AdminRequest::AddLearner { id, raft_addr, service_endpoint, admin_endpoint } => cmd
                matches AdminCmd::AddLearner(args) && id == args.id && raft_addr == args.raft_addr
                && service_endpoint == args.service_endpoint && admin_endpoint
                == args.admin_endpoint && plan.endpoint == args.endpoint && plan.tls == args.tls,
            AdminRequest::Promote { id } => cmd matches AdminCmd::Promote(args) && id == args.id
                && plan.endpoint == args.endpoint && plan.tls == args.tls,
            AdminRequest::RemoveNode { id } => cmd matches AdminCmd::Remove(args) && id == args.id
                && plan.endpoint == args.endpoint && plan.tls == args.tls,
            AdminRequest::ActivateFormat { target } => cmd matches AdminCmd::ActivateFormat(args)
                && target == args.target && plan.endpoint == args.endpoint && plan.tls == args.tls,
            AdminRequest::Capabilities { json } => cmd matches AdminCmd::Capabilities(args) && json
                == args.json && plan.endpoint == args.endpoint && plan.tls == args.tls,
        },
{
}

/// An endpoint is dialed exactly where it can be read; else it is named.
pub proof fn law_which_endpoints_are_dialed(
    endpoint: &str,
    readable: bool,
    judged: Result<(), String>,
    dialed: Result<(), String>,
)
    requires
        call_ensures(judged_endpoint, (endpoint, readable), judged),
        call_ensures(admin_endpoint, (endpoint,), dialed),
    ensures
        judged is Ok <==> readable,
        judged matches Err(line) ==> line@ == "invalid endpoint "@ + endpoint@,
        dialed is Ok <==> transport::is_uri(endpoint@),
        dialed matches Err(line) ==> line@ == "invalid endpoint "@ + endpoint@,
{
}

/// A change goes on to the leader exactly where the node says that it does not lead and who does, and
/// it has not gone on before: to the address that the node gave, under the scheme that the operator
/// dialed with.
pub proof fn law_when_a_change_goes_on(
    first: String,
    made: AdminCall,
    call: &mut AdminCall,
    response: ChangeResponse,
    next: Option<String>,
)
    requires
        call_ensures(AdminCall::new, (first,), made),
        call_ensures(AdminCall::with_redirect, (call, &response), next),
    ensures
        made@.endpoint == first@ && !made@.redirected,
        next is Some <==> !old(call)@.redirected && response.error is NotLeader
            && response.leader_admin_endpoint@.len() > 0,
        next matches Some(leader) ==> leader@ == if "https://"@.is_prefix_of(old(call)@.endpoint) {
            "https://"@ + response.leader_admin_endpoint@
        } else {
            "http://"@ + response.leader_admin_endpoint@
        },
        final(call)@.endpoint == old(call)@.endpoint,
        final(call)@.redirected <==> old(call)@.redirected || next is Some,
{
    reveal_strlit("https://");
    reveal_strlit("http://");
    reveal_strlit("https");
    reveal_strlit("http");
    reveal_strlit("://");
    assert("https"@ + "://"@ =~= "https://"@);
    assert("http"@ + "://"@ =~= "http://"@);
}

/// A change that was made is reported as such, and any other with the kind of its error and the
/// message of the node.
pub proof fn law_what_is_reported_of_a_change(
    response: ChangeResponse,
    kind: String,
    reported: Result<String, String>,
)
    requires
        call_ensures(AdminErrorKind::text, (&response.error,), kind),
        call_ensures(report, (&response,), reported),
    ensures
        reported is Ok <==> response.ok,
        reported matches Ok(line) ==> line@ == "ok"@,
        reported matches Err(line) ==> line@ == "admin error ("@ + kind@ + "): "@
            + response.message@,
        response.error is NotLeader ==> kind@ == "NotLeader"@,
        response.error is MembersBelowTarget ==> kind@ == "MembersBelowTarget"@,
        response.error is TargetOutOfRange ==> kind@ == "TargetOutOfRange"@,
        response.error matches AdminErrorKind::Other(name) ==> kind@ == name@,
{
}

/// An activation succeeds exactly where it was made; members that do not support the version exit
/// with two, a node that does not lead with three, a version that the node cannot read with four, and
/// anything else fails with its kind.
pub proof fn law_how_an_activation_exits(response: ChangeResponse, reported: ActivationReport)
    requires
        call_ensures(report_activation, (&response,), reported),
    ensures
        reported is Done <==> response.ok,
        reported matches ActivationReport::Done(line) ==> line@ == "ok"@,
        !response.ok && response.error is MembersBelowTarget ==> (reported
            matches ActivationReport::Exit { code, line } && code == 2 && line@
            == "activate-format: gate rejected: "@ + response.message@),
        !response.ok && response.error is NotLeader ==> (reported matches ActivationReport::Exit {
            code,
            line,
        } && code == 3 && line@ == "activate-format: not the leader"@),
        !response.ok && response.error is TargetOutOfRange ==> (reported
            matches ActivationReport::Exit { code, line } && code == 4 && line@
            == "activate-format: target outside local readable range: "@ + response.message@),
        !response.ok ==> (response.error matches AdminErrorKind::Other(name) ==> (reported
            matches ActivationReport::Failed(line) && line@ == "activate-format error ("@ + name@
            + "): "@ + response.message@)),
{
}

/// A cluster is shown by its leader, then by every member, one line each and in the order listed.
pub proof fn law_how_a_cluster_is_shown(
    leader: Option<u64>,
    members: Vec<MemberInfo>,
    lines: Vec<String>,
    i: int,
    line: String,
    number: String,
)
    requires
        call_ensures(member_lines, (leader, &members), lines),
        0 <= i < members@.len(),
        call_ensures(MemberInfo::line, (&members@[i],), line),
        call_ensures(decimal_text, (members@[i].id,), number),
    ensures
        lines@.len() == members@.len() + 1,
        leader is None ==> lines@[0]@ == "leader: "@ + "none"@,
        leader matches Some(id) ==> lines@[0]@ == "leader: "@ + text::spec_decimal(id as nat),
        lines@[i + 1]@ == line@,
        line@ == "  id="@ + number@ + " role="@ + members@[i].role@ + " raft="@
            + members@[i].raft_addr@ + " service="@ + members@[i].service_endpoint@ + " admin="@
            + members@[i].admin_endpoint@,
{
    let views = text::views(lines@);
    assert(views.len() == lines@.len());
    assert(views[0] == lines@[0]@);
    assert(views[i + 1] == lines@[i + 1]@);
}

} // verus!
