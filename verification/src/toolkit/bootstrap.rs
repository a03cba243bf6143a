//! Bringing a raft instance to a serviceable state.
use std::collections::BTreeMap;
use vstd::prelude::*;
use vstd::string::*;

use crate::text::joined;

verus! {

/// How a node starts. `N` describes a member.
#[derive(Debug)]
pub enum BootstrapMode<N> {
    /// For the first time: the cluster is initialized with these voters.
    Fresh { initial_members: BTreeMap<u64, N> },
    /// Against state that is on disk already.
    Reopen,
    /// As a learner that an orchestrator promotes later.
    Join,
}

/// Why a node could not be started.
#[derive(Debug)]
pub enum BootstrapError {
    /// A fresh start was asked for, but the raft instance is initialized already.
    UnexpectedExistingState,
    /// Initializing the raft instance failed; the text describes how.
    Initialize(String),
}

impl BootstrapError {
    /// The line that describes the error.
    pub fn text(&self) -> (r: String)
        ensures
            r@ == match self {
                BootstrapError::UnexpectedExistingState =>
                    "expected fresh cluster but raft is already initialized"@,
                BootstrapError::Initialize(why) => "initialize failed: "@ + why@,
            },
    {
        match self {
            BootstrapError::UnexpectedExistingState => String::from_str(
                "expected fresh cluster but raft is already initialized",
            ),
            BootstrapError::Initialize(why) => joined("initialize failed: ", why.as_str()),
        }
    }
}

/// What initializing the raft instance came to.
#[derive(Debug)]
pub enum Initialized {
    /// It is initialized now.
    Done,
    /// It was initialized before.
    NotAllowed,
    /// It failed; the text describes how.
    Failed(String),
}

/// The voters to initialize the raft instance with; `None` where it is left alone, as everywhere but
/// on a fresh start.
pub fn bootstrap<N>(mode: BootstrapMode<N>) -> (r: Option<BTreeMap<u64, N>>)
    ensures
        r == match mode {
            BootstrapMode::Fresh { initial_members } => Some(initial_members),
            BootstrapMode::Reopen => None,
            BootstrapMode::Join => None,
        },
{
    match mode {
        BootstrapMode::Fresh { initial_members } => Some(initial_members),
        BootstrapMode::Reopen => None,
        BootstrapMode::Join => None,
    }
}

/// What a start comes to. A fresh start succeeds exactly where the instance could be initialized;
/// every other start touches nothing and succeeds.
pub fn bootstrap_result(initialized: Option<Initialized>) -> (r: Result<(), BootstrapError>)
    ensures
        r == match initialized {
            None => Ok::<(), BootstrapError>(()),
            Some(Initialized::Done) => Ok(()),
            Some(Initialized::NotAllowed) => Err(BootstrapError::UnexpectedExistingState),
            Some(Initialized::Failed(why)) => Err(BootstrapError::Initialize(why)),
        },
{
    match initialized {
        None => Ok(()),
        Some(Initialized::Done) => Ok(()),
        Some(Initialized::NotAllowed) => Err(BootstrapError::UnexpectedExistingState),
        Some(Initialized::Failed(why)) => Err(BootstrapError::Initialize(why)),
    }
}

/// A fresh start, and no other, initializes the raft instance, with the voters it was given. A start
/// fails exactly where initializing was tried and did not come about: with the existing state where
/// there was one, else with the reason.
pub proof fn law_which_starts_initialize<N>(
    mode: BootstrapMode<N>,
    voters: Option<BTreeMap<u64, N>>,
    initialized: Option<Initialized>,
    result: Result<(), BootstrapError>,
)
    requires
        call_ensures(bootstrap::<N>, (mode,), voters),
        call_ensures(bootstrap_result, (initialized,), result),
    ensures
        voters is Some <==> mode is Fresh,
        mode matches BootstrapMode::Fresh { initial_members } ==> voters == Some(initial_members),
        result is Ok <==> initialized is None || initialized->0 is Done,
        result matches Err(BootstrapError::UnexpectedExistingState) ==> initialized
            == Some(Initialized::NotAllowed),
        result matches Err(BootstrapError::Initialize(why)) ==> initialized == Some(
            Initialized::Failed(why),
        ),
{
}

/// What a failure says.
pub proof fn law_what_a_failure_says(error: BootstrapError, line: String)
    requires
        call_ensures(BootstrapError::text, (&error,), line),
    ensures
        error is UnexpectedExistingState ==> line@
            == "expected fresh cluster but raft is already initialized"@,
        error matches BootstrapError::Initialize(why) ==> line@ == "initialize failed: "@ + why@,
{
}

} // verus!
