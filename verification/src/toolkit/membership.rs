//! What a membership change comes to.
use vstd::prelude::*;
use vstd::string::*;

use crate::text;
use crate::text::{debug_text, joined};

verus! {

/// Why a membership change was not made.
#[derive(Debug)]
pub enum MembershipError {
    /// This node does not lead; `leader` describes the one that does, where it is known.
    NotLeader { leader: Option<String> },
    /// The change itself was refused; the text describes why.
    Conflict(String),
    /// Anything else; the text describes what.
    Other(String),
}

impl MembershipError {
    /// The line that describes the error.
    pub fn text(&self) -> (r: String)
        ensures
            r@ == match self {
                MembershipError::NotLeader { leader } => "not leader; redirect to "@
                    + match leader {
                    Some(node) => "Some("@ + text::debug_of(node@) + ")"@,
                    None => "None"@,
                },
                MembershipError::Conflict(why) => "membership change conflict: "@ + why@,
                MembershipError::Other(why) => "raft error: "@ + why@,
            },
    {
        match self {
            MembershipError::NotLeader { leader } => {
                let node = match leader {
                    Some(node) => {
                        let mut shown = joined("Some(", debug_text(node.as_str()).as_str());
                        shown.append(")");
                        shown
                    },
                    None => String::from_str("None"),
                };
                joined("not leader; redirect to ", node.as_str())
            },
            MembershipError::Conflict(why) => joined("membership change conflict: ", why.as_str()),
            MembershipError::Other(why) => joined("raft error: ", why.as_str()),
        }
    }
}

/// What the raft instance made of a membership change.
#[derive(Debug)]
pub enum ChangeOutcome {
    /// It was applied.
    Applied,
    /// It has to go to the leader, which is described where it is known.
    ForwardToLeader { leader_node: Option<String> },
    /// It was refused; the text describes why.
    Refused(String),
    /// Anything else; the text describes what.
    Failed(String),
}

/// What a change comes to for whoever asked for it.
pub open spec fn change_result(outcome: ChangeOutcome) -> Result<(), MembershipError> {
    match outcome {
        ChangeOutcome::Applied => Ok(()),
        ChangeOutcome::ForwardToLeader { leader_node } => Err(
            MembershipError::NotLeader { leader: leader_node },
        ),
        ChangeOutcome::Refused(why) => Err(MembershipError::Conflict(why)),
        ChangeOutcome::Failed(why) => Err(MembershipError::Other(why)),
    }
}

/// What a change of the voters comes to.
pub fn change_membership(outcome: ChangeOutcome) -> (r: Result<(), MembershipError>)
    ensures
        r == change_result(outcome),
{
    match outcome {
        ChangeOutcome::Applied => Ok(()),
        ChangeOutcome::ForwardToLeader { leader_node } => Err(
            MembershipError::NotLeader { leader: leader_node },
        ),
        ChangeOutcome::Refused(why) => Err(MembershipError::Conflict(why)),
        ChangeOutcome::Failed(why) => Err(MembershipError::Other(why)),
    }
}

/// What the addition of a learner comes to; it is judged as a change of the voters is.
pub fn add_learner(outcome: ChangeOutcome) -> (r: Result<(), MembershipError>)
    ensures
        r == change_result(outcome),
{
    change_membership(outcome)
}

/// What a membership change comes to: it is made exactly where it was applied; else whoever asked is
/// sent to the leader, as far as it is known, or told the reason, and whether the change itself was
/// refused. A learner's addition is judged alike.
pub proof fn law_what_a_change_comes_to(
    outcome: ChangeOutcome,
    change: Result<(), MembershipError>,
    addition: Result<(), MembershipError>,
)
    requires
        call_ensures(change_membership, (outcome,), change),
        call_ensures(add_learner, (outcome,), addition),
    ensures
        addition == change,
        change is Ok <==> outcome is Applied,
        change matches Err(MembershipError::NotLeader { leader }) ==> outcome == (
        ChangeOutcome::ForwardToLeader { leader_node: leader }),
        change matches Err(MembershipError::Conflict(why)) ==> outcome == ChangeOutcome::Refused(
            why,
        ),
        change matches Err(MembershipError::Other(why)) ==> outcome == ChangeOutcome::Failed(why),
{
}

/// What a failure says.
pub proof fn law_what_a_failure_says(error: MembershipError, line: String)
    requires
        call_ensures(MembershipError::text, (&error,), line),
    ensures
        error matches MembershipError::NotLeader { leader: Some(node) } ==> line@
            == "not leader; redirect to "@ + ("Some("@ + text::debug_of(node@) + ")"@),
        error matches MembershipError::NotLeader { leader: None } ==> line@
            == "not leader; redirect to "@ + "None"@,
        error matches MembershipError::Conflict(why) ==> line@ == "membership change conflict: "@
            + why@,
        error matches MembershipError::Other(why) ==> line@ == "raft error: "@ + why@,
{
}

} // verus!
