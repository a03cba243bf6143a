//! What a client call can fail with.
use vstd::prelude::*;
use vstd::string::*;

use crate::status::{Status, StatusView};
use crate::text;
use crate::text::{decimal_text, joined};

verus! {

/// Why a client call failed.
#[derive(Debug, PartialEq, Eq)]
pub enum ClientError {
    /// No endpoint could be tried at all.
    NoReachableEndpoints,
    /// The transport to one endpoint failed; the text describes how.
    Transport(String),
    /// A [`ClientError::Transport`] failure of one endpoint, handed to the sibling waiters of a
    /// coalesced request. Kept apart from [`ClientError::NoReachableEndpoints`]: one endpoint's
    /// transport failed, not the whole cluster.
    TransportFanout(String),
    /// The server answered, or the client cut the call off, with this status.
    Rpc(Status),
    /// The endpoint's text is no URI.
    InvalidEndpoint(String),
    /// The requested count cannot be served.
    InvalidCount(u32),
    /// A connector supplied by the caller failed; the text describes how.
    Connector(String),
    /// The task that coalesces requests is gone.
    DriverGone,
    /// The sequence key is empty or too long, or the server refused it.
    InvalidSeqKey,
    /// A dense block may or may not have been spent: the caller has to find out before it asks
    /// again.
    SeqUncertain,
}

/// What a [`ClientError`] says.
#[verifier::ext_equal]
pub enum ErrorView {
    NoReachableEndpoints,
    Transport(Seq<char>),
    TransportFanout(Seq<char>),
    Rpc(StatusView),
    InvalidEndpoint(Seq<char>),
    InvalidCount(u32),
    Connector(Seq<char>),
    DriverGone,
    InvalidSeqKey,
    SeqUncertain,
}

impl View for ClientError {
    type V = ErrorView;

    open spec fn view(&self) -> ErrorView {
        match self {
            ClientError::NoReachableEndpoints => ErrorView::NoReachableEndpoints,
            ClientError::Transport(text) => ErrorView::Transport(text@),
            ClientError::TransportFanout(text) => ErrorView::TransportFanout(text@),
            ClientError::Rpc(status) => ErrorView::Rpc(status@),
            ClientError::InvalidEndpoint(text) => ErrorView::InvalidEndpoint(text@),
            ClientError::InvalidCount(count) => ErrorView::InvalidCount(*count),
            ClientError::Connector(text) => ErrorView::Connector(text@),
            ClientError::DriverGone => ErrorView::DriverGone,
            ClientError::InvalidSeqKey => ErrorView::InvalidSeqKey,
            ClientError::SeqUncertain => ErrorView::SeqUncertain,
        }
    }
}

/// The line that describes an error to an operator.
pub open spec fn error_text(error: ErrorView) -> Seq<char> {
    match error {
        ErrorView::NoReachableEndpoints => "no reachable endpoints"@,
        ErrorView::Transport(text) => "transport: "@ + text,
        ErrorView::TransportFanout(text) => "transport (fanned out to coalesced waiter): "@ + text,
        ErrorView::Rpc(inner) => "rpc: "@ + inner.line(),
        ErrorView::InvalidEndpoint(text) => "invalid endpoint: "@ + text,
        ErrorView::InvalidCount(count) => "invalid count: "@ + text::spec_decimal(count as nat),
        ErrorView::Connector(text) => "custom channel connector failed: "@ + text,
        ErrorView::DriverGone =>
            "client driver task is gone; subsequent requests cannot be served by this Client"@,
        ErrorView::InvalidSeqKey => "invalid sequence key"@,
        ErrorView::SeqUncertain =>
            "sequence request outcome is uncertain; a block may have been spent"@,
    }
}

impl ClientError {
    /// The line that describes the error to an operator.
    pub fn text(&self) -> (r: String)
        ensures
            r@ == error_text(self@),
    {
        match self {
            ClientError::NoReachableEndpoints => String::from_str("no reachable endpoints"),
            ClientError::Transport(text) => joined("transport: ", text.as_str()),
            ClientError::TransportFanout(text) => joined(
                "transport (fanned out to coalesced waiter): ",
                text.as_str(),
            ),
            ClientError::Rpc(inner) => joined("rpc: ", inner.text().as_str()),
            ClientError::InvalidEndpoint(text) => joined("invalid endpoint: ", text.as_str()),
            ClientError::InvalidCount(count) => joined(
                "invalid count: ",
                decimal_text(*count as u64).as_str(),
            ),
            ClientError::Connector(text) => joined(
                "custom channel connector failed: ",
                text.as_str(),
            ),
            ClientError::DriverGone => String::from_str(
                "client driver task is gone; subsequent requests cannot be served by this Client",
            ),
            ClientError::InvalidSeqKey => String::from_str("invalid sequence key"),
            ClientError::SeqUncertain => String::from_str(
                "sequence request outcome is uncertain; a block may have been spent",
            ),
        }
    }
}

/// What an error says: the words of its kind, and behind them what it carries.
pub proof fn law_what_an_error_says(error: ClientError, line: String)
    requires
        call_ensures(ClientError::text, (&error,), line),
    ensures
        match error {
            ClientError::NoReachableEndpoints => line@ == "no reachable endpoints"@,
            ClientError::Transport(why) => line@ == "transport: "@ + why@,
            ClientError::TransportFanout(why) => line@
                == "transport (fanned out to coalesced waiter): "@ + why@,
            ClientError::Rpc(status) => line@ == "rpc: "@ + status@.line(),
            ClientError::InvalidEndpoint(endpoint) => line@ == "invalid endpoint: "@ + endpoint@,
            ClientError::InvalidCount(count) => line@ == "invalid count: "@ + text::spec_decimal(
                count as nat,
            ),
            ClientError::Connector(why) => line@ == "custom channel connector failed: "@ + why@,
            ClientError::DriverGone => line@
                == "client driver task is gone; subsequent requests cannot be served by this Client"@,
            ClientError::InvalidSeqKey => line@ == "invalid sequence key"@,
            ClientError::SeqUncertain => line@
                == "sequence request outcome is uncertain; a block may have been spent"@,
        },
{
}

} // verus!
