//! The status that an RPC ends with: a code, a message, and what came along with them.
use vstd::prelude::*;
use vstd::string::*;

use crate::text;

verus! {

/// Outcome class of an RPC.
#[derive(Clone, Copy, Debug, PartialEq, Eq, Structural)]
pub enum Code {
    /// The call succeeded.
    Success,
    Cancelled,
    Unknown,
    InvalidArgument,
    DeadlineExceeded,
    NotFound,
    AlreadyExists,
    PermissionDenied,
    ResourceExhausted,
    FailedPrecondition,
    Aborted,
    OutOfRange,
    Unimplemented,
    Internal,
    Unavailable,
    DataLoss,
    Unauthenticated,
}

impl Code {
    /// The number of the code on the wire.
    pub open spec fn spec_number(self) -> i32 {
        match self {
            Code::Success => 0,
            Code::Cancelled => 1,
            Code::Unknown => 2,
            Code::InvalidArgument => 3,
            Code::DeadlineExceeded => 4,
            Code::NotFound => 5,
            Code::AlreadyExists => 6,
            Code::PermissionDenied => 7,
            Code::ResourceExhausted => 8,
            Code::FailedPrecondition => 9,
            Code::Aborted => 10,
            Code::OutOfRange => 11,
            Code::Unimplemented => 12,
            Code::Internal => 13,
            Code::Unavailable => 14,
            Code::DataLoss => 15,
            Code::Unauthenticated => 16,
        }
    }

    /// The number of the code on the wire.
    pub fn number(self) -> (r: i32)
        ensures
            r == self.spec_number(),
    {
        match self {
            Code::Success => 0,
            Code::Cancelled => 1,
            Code::Unknown => 2,
            Code::InvalidArgument => 3,
            Code::DeadlineExceeded => 4,
            Code::NotFound => 5,
            Code::AlreadyExists => 6,
            Code::PermissionDenied => 7,
            Code::ResourceExhausted => 8,
            Code::FailedPrecondition => 9,
            Code::Aborted => 10,
            Code::OutOfRange => 11,
            Code::Unimplemented => 12,
            Code::Internal => 13,
            Code::Unavailable => 14,
            Code::DataLoss => 15,
            Code::Unauthenticated => 16,
        }
    }
}

/// One trailer of an RPC: its key and its value as bytes.
#[derive(Debug, PartialEq, Eq)]
pub struct Trailer {
    pub key: String,
    pub value: Vec<u8>,
}

impl View for Trailer {
    type V = (Seq<char>, Seq<u8>);

    open spec fn view(&self) -> (Seq<char>, Seq<u8>) {
        (self.key@, self.value@)
    }
}

impl Clone for Trailer {
    fn clone(&self) -> (r: Trailer)
        ensures
            r@ == self@,
    {
        Trailer { key: self.key.clone(), value: self.value.clone() }
    }
}

/// How an RPC ended.
#[derive(Debug, PartialEq, Eq)]
pub struct Status {
    pub code: Code,
    pub message: String,
    /// Binary details.
    pub details: Vec<u8>,
    pub trailers: Vec<Trailer>,
    /// The `Debug` text of the error that the status was made from, where it was made from one.
    pub source: Option<String>,
}

/// What a [`Status`] says.
#[verifier::ext_equal]
pub struct StatusView {
    pub code: Code,
    pub message: Seq<char>,
    pub details: Seq<u8>,
    pub trailers: Seq<(Seq<char>, Seq<u8>)>,
    pub source: Option<Seq<char>>,
}

impl View for Status {
    type V = StatusView;

    open spec fn view(&self) -> StatusView {
        StatusView {
            code: self.code,
            message: self.message@,
            details: self.details@,
            trailers: self.trailers@.map_values(|t: Trailer| t@),
            source: text::option_view(self.source),
        }
    }
}

/// The status with the given code and message, and nothing that comes along.
pub open spec fn bare_status(code: Code, message: Seq<char>) -> StatusView {
    StatusView { code, message, details: Seq::empty(), trailers: Seq::empty(), source: None }
}

/// What the code of a number means, in words; a number that no code has is of an unknown error.
pub open spec fn description(number: i32) -> Seq<char> {
    match number {
        0 => "The operation completed successfully"@,
        1 => "The operation was cancelled"@,
        3 => "Client specified an invalid argument"@,
        4 => "Deadline expired before operation could complete"@,
        5 => "Some requested entity was not found"@,
        6 => "Some entity that we attempted to create already exists"@,
        7 => "The caller does not have permission to execute the specified operation"@,
        8 => "Some resource has been exhausted"@,
        9 => "The system is not in a state required for the operation's execution"@,
        10 => "The operation was aborted"@,
        11 => "Operation was attempted past the valid range"@,
        12 => "Operation is not implemented or not supported"@,
        13 => "Internal error"@,
        14 => "The service is currently unavailable"@,
        15 => "Unrecoverable data loss or corruption"@,
        16 => "The request does not have valid authentication credentials"@,
        _ => "Unknown error"@,
    }
}

/// The text of an RPC status of the given code number and message, made from no error: what the code
/// means, then the message where there is one, quoted.
pub open spec fn shown(number: i32, message: Seq<char>) -> Seq<char> {
    let code = "code: '"@ + description(number) + "'"@;
    if message.len() == 0 {
        code
    } else {
        code + ", message: "@ + text::debug_of(message)
    }
}

/// `tonic::Status` rendered by its `Display`, for a status that was made from no error: the words
/// for its code, and the message by its `Debug` unless that is empty.
#[verifier::external_body]
fn status_text(number: i32, message: &str) -> (r: String)
    ensures
        r@ == shown(number, message@),
{
    tonic::Status::new(tonic::Code::from_i32(number), message).to_string()
}

impl StatusView {
    /// The text that stands for the status in a log line: its code and its message, then the error
    /// that it was made from. Details and trailers are no part of it.
    pub open spec fn line(self) -> Seq<char> {
        let bare = shown(self.code.spec_number(), self.message);
        match self.source {
            Some(source) => bare + ", source: "@ + source,
            None => bare,
        }
    }
}

impl Status {
    /// A status of a code and a message, and nothing that comes along.
    pub fn new(code: Code, message: String) -> (r: Status)
        ensures
            r@ == bare_status(code, message@),
    {
        let r = Status {
            code,
            message,
            details: Vec::new(),
            trailers: Vec::new(),
            source: None,
        };
        assert(r@.trailers =~= Seq::<(Seq<char>, Seq<u8>)>::empty());
        r
    }

    /// The text that stands for the status in a log line.
    pub fn text(&self) -> (r: String)
        ensures
            r@ == self@.line(),
    {
        let mut line = status_text(self.code.number(), self.message.as_str());
        if let Some(source) = &self.source {
            line.append(", source: ");
            line.append(source.as_str());
        }
        line
    }
}

impl Clone for Status {
    fn clone(&self) -> (r: Status)
        ensures
            r@ == self@,
    {
        let trailers = self.trailers.clone();
        let r = Status {
            code: self.code,
            message: self.message.clone(),
            details: self.details.clone(),
            trailers,
            source: self.source.clone(),
        };
        proof {
            assert forall|i: int| 0 <= i < trailers@.len() implies trailers@[i]@
                == self.trailers@[i]@ by {
                assert(cloned::<Trailer>(self.trailers@[i], trailers@[i]));
            }
            assert(r@.trailers =~= self@.trailers);
        }
        r
    }
}

/// The numbers of the codes on the wire.
pub proof fn law_the_numbers_of_codes(code: Code, number: i32)
    requires
        call_ensures(Code::number, (code,), number),
    ensures
        match code {
            Code::Success => number == 0,
            Code::Cancelled => number == 1,
            Code::Unknown => number == 2,
            Code::InvalidArgument => number == 3,
            Code::DeadlineExceeded => number == 4,
            Code::NotFound => number == 5,
            Code::AlreadyExists => number == 6,
            Code::PermissionDenied => number == 7,
            Code::ResourceExhausted => number == 8,
            Code::FailedPrecondition => number == 9,
            Code::Aborted => number == 10,
            Code::OutOfRange => number == 11,
            Code::Unimplemented => number == 12,
            Code::Internal => number == 13,
            Code::Unavailable => number == 14,
            Code::DataLoss => number == 15,
            Code::Unauthenticated => number == 16,
        },
{
}

/// A status that is made of a code and a message holds both and nothing else, and a copy holds all
/// that the status does.
pub proof fn law_what_a_status_holds(code: Code, message: String, made: Status, copy: Status)
    requires
        call_ensures(Status::new, (code, message), made),
        call_ensures(<Status as Clone>::clone, (&made,), copy),
    ensures
        made@.code == code && made@.message == message@,
        made@.details.len() == 0 && made@.trailers.len() == 0 && made@.source is None,
        copy@ == made@,
{
}

/// A copy of a status is told apart by nothing: its code, message, details, trailers and source are
/// those of the status.
pub proof fn law_a_copied_status_is_the_same(status: Status, copy: Status)
    requires
        call_ensures(<Status as Clone>::clone, (&status,), copy),
    ensures
        copy@.code == status@.code,
        copy@.message == status@.message,
        copy@.details == status@.details,
        copy@.trailers == status@.trailers,
        copy@.source == status@.source,
{
}

/// The line of a status: the words for its code, its message where there is one, by which it is
/// quoted, and behind them the error that it was made from, where there is one.
pub proof fn law_what_a_status_line_says(status: Status, line: String)
    requires
        call_ensures(Status::text, (&status,), line),
    ensures
        ({
            let code = "code: '"@ + description(status@.code.spec_number()) + "'"@;
            let message = if status@.message.len() == 0 {
                Seq::empty()
            } else {
                ", message: "@ + text::debug_of(status@.message)
            };
            let source = match status@.source {
                Some(source) => ", source: "@ + source,
                None => Seq::empty(),
            };
            line@ == code + message + source
        }),
{
    let code = "code: '"@ + description(status@.code.spec_number()) + "'"@;
    assert(code + Seq::<char>::empty() =~= code);
    let bare = shown(status@.code.spec_number(), status@.message);
    assert(bare + Seq::<char>::empty() =~= bare);
    assert(code + (", message: "@ + text::debug_of(status@.message)) =~= code + ", message: "@
        + text::debug_of(status@.message));
    if let Some(source) = status@.source {
        assert(bare + (", source: "@ + source) =~= bare + ", source: "@ + source);
    }
}

} // verus!
