//! The version-prefixed record format `[version | body]`.
//!
//! The leading byte lets the format evolve without a silent misdecode: a reader refuses a version
//! it does not know before it looks at the body. The body's own encoding is `postcard`'s; the
//! functions here take what that made of a value, or a parser of a body, and own the framing and
//! every check around it. An error of `postcard` comes in as its text.
use vstd::prelude::*;
use vstd::string::*;

use crate::text;
use crate::text::{decimal_text, joined};

pub mod versioned;

verus! {

/// Failure modes of the version-prefixed codec. `Encode` and `Decode` are kept apart so that a
/// caller can tell which direction failed.
#[derive(Debug)]
pub enum CodecError {
    /// The payload had no leading version byte.
    Empty,
    /// The leading version byte is not the one that the reader expected.
    Version { expected: u8, actual: u8 },
    /// The value could not be serialized; the text says why.
    Encode(String),
    /// The body could not be deserialized; the text says why.
    Decode(String),
    /// The body was read, but `extra` bytes remained: a sign of corruption, such as a partial
    /// overwrite that left stale bytes behind.
    TrailingBytes { extra: usize },
    /// The leading version byte is outside the range that the reader can read.
    VersionUnsupported { min: u8, max: u8, actual: u8 },
    /// The value holds something that the layout of `version` has no place for.
    NotRepresentable { version: u8 },
}

/// The line that describes an error.
pub open spec fn error_line(error: CodecError) -> Seq<char> {
    match error {
        CodecError::Empty => "payload empty"@,
        CodecError::Version { expected, actual } => "version mismatch: expected "@
            + text::spec_decimal(expected as nat) + ", got "@ + text::spec_decimal(actual as nat),
        CodecError::Encode(why) => "encode failed: "@ + why@,
        CodecError::Decode(why) => "decode failed: "@ + why@,
        CodecError::TrailingBytes { extra } => "trailing bytes: "@ + text::spec_decimal(
            extra as nat,
        ) + " unconsumed after a valid body"@,
        CodecError::VersionUnsupported { min, max, actual } => "version unsupported: "@
            + text::spec_decimal(actual as nat) + " outside readable range ["@ + text::spec_decimal(
            min as nat,
        ) + ", "@ + text::spec_decimal(max as nat) + "]"@,
        CodecError::NotRepresentable { version } => "value not representable at version "@
            + text::spec_decimal(version as nat),
    }
}

impl CodecError {
    /// The line that describes the error.
    pub fn text(&self) -> (r: String)
        ensures
            r@ == error_line(*self),
    {
        match self {
            CodecError::Empty => String::from_str("payload empty"),
            CodecError::Version { expected, actual } => {
                let mut line = String::from_str("version mismatch: expected ");
                line.append(decimal_text(*expected as u64).as_str());
                line.append(", got ");
                line.append(decimal_text(*actual as u64).as_str());
                line
            },
            CodecError::Encode(why) => joined("encode failed: ", why.as_str()),
            CodecError::Decode(why) => joined("decode failed: ", why.as_str()),
            CodecError::TrailingBytes { extra } => {
                let mut line = String::from_str("trailing bytes: ");
                line.append(decimal_text(*extra as u64).as_str());
                line.append(" unconsumed after a valid body");
                line
            },
            CodecError::VersionUnsupported { min, max, actual } => {
                let mut line = String::from_str("version unsupported: ");
                line.append(decimal_text(*actual as u64).as_str());
                line.append(" outside readable range [");
                line.append(decimal_text(*min as u64).as_str());
                line.append(", ");
                line.append(decimal_text(*max as u64).as_str());
                line.append("]");
                line
            },
            CodecError::NotRepresentable { version } => {
                let mut line = String::from_str("value not representable at version ");
                line.append(decimal_text(*version as u64).as_str());
                line
            },
        }
    }
}

/// The record of a body: the version byte, then the body.
pub open spec fn framed(version: u8, body: Seq<u8>) -> Seq<u8> {
    seq![version] + body
}

/// What is wrong with the version byte of a record for a reader of `[min, max]`; a reader of one
/// version reports a mismatch, one of several an unsupported version.
pub open spec fn version_fault(min: u8, max: u8, single: bool, bytes: Seq<u8>) -> Option<
    CodecError,
> {
    if bytes.len() == 0 {
        Some(CodecError::Empty)
    } else if min <= bytes[0] <= max {
        None
    } else if single {
        Some(CodecError::Version { expected: min, actual: bytes[0] })
    } else {
        Some(CodecError::VersionUnsupported { min, max, actual: bytes[0] })
    }
}

/// What a body that was read, leaving `left` bytes over, comes to.
pub open spec fn exact<T>(parsed: Result<(T, usize), String>) -> Result<T, CodecError> {
    match parsed {
        Ok((value, left)) => if left == 0 {
            Ok(value)
        } else {
            Err(CodecError::TrailingBytes { extra: left })
        },
        Err(error) => Err(CodecError::Decode(error)),
    }
}

/// Puts the version byte in front of a body.
pub fn frame(version: u8, body: &Vec<u8>) -> (r: Vec<u8>)
    ensures
        r@ == framed(version, body@),
{
    let mut out: Vec<u8> = Vec::new();
    out.push(version);
    out.extend_from_slice(body.as_slice());
    assert(out@ =~= framed(version, body@));
    out
}

/// Makes the record `[version | body]` of a value that was serialized to `body`; a failure to
/// serialize it is reported as such.
pub fn encode(version: u8, body: Result<Vec<u8>, String>) -> (r: Result<
    Vec<u8>,
    CodecError,
>)
    ensures
        match (body, r) {
            (Ok(body), Ok(out)) => out@ == framed(version, body@),
            (Err(error), Err(failed)) => failed == CodecError::Encode(error),
            _ => false,
        },
{
    match body {
        Ok(body) => Ok(frame(version, &body)),
        Err(error) => Err(CodecError::Encode(error)),
    }
}

/// True of what [`decode`] makes of a record: the fault of its version byte where it has one, else
/// what `parse` makes of its body, surplus bytes refused.
pub open spec fn decoded<T, F: FnOnce(&[u8]) -> Result<(T, usize), String>>(
    expected_version: u8,
    bytes: Seq<u8>,
    parse: F,
    r: Result<T, CodecError>,
) -> bool {
    match version_fault(expected_version, expected_version, true, bytes) {
        Some(fault) => r == Err::<T, CodecError>(fault),
        None => exists|body: &[u8], parsed: Result<(T, usize), String>|
            #![trigger call_ensures(parse, (body,), parsed)]
            body@ == bytes.skip(1) && call_ensures(parse, (body,), parsed) && r == exact(parsed),
    }
}

/// Reads a record made by [`encode`], refusing another version than `expected_version` before the
/// body is looked at, and a body that leaves bytes over after it. `parse` reads a body and tells how
/// many bytes it left over.
pub fn decode<T, F: FnOnce(&[u8]) -> Result<(T, usize), String>>(
    expected_version: u8,
    bytes: &[u8],
    parse: F,
) -> (r: Result<T, CodecError>)
    requires
        forall|body: &[u8]| #[trigger]
            body@ == bytes@.skip(1) ==> call_requires(parse, (body,)),
    ensures
        decoded(expected_version, bytes@, parse, r),
{
    if bytes.len() == 0 {
        return Err(CodecError::Empty);
    }
    let version: u8 = bytes[0];
    if version != expected_version {
        return Err(CodecError::Version { expected: expected_version, actual: version });
    }
    let body = vstd::slice::slice_subrange(bytes, 1, bytes.len());
    assert(body@ =~= bytes@.skip(1));
    let parsed = parse(body);
    versioned::decode_postcard_exact(parsed)
}

/// The kind of an I/O error that reports a codec failure.
#[derive(Clone, Copy, Debug, PartialEq, Eq, Structural)]
pub enum IoKind {
    /// The record is of another schema version.
    InvalidData,
    /// Anything else.
    Other,
}

/// A codec failure as an I/O error reports it.
#[derive(Debug)]
pub struct IoFault {
    pub kind: IoKind,
    pub message: String,
}

/// Turns a codec failure into what an I/O error reports, with `context` in front of the message. A
/// record of another schema version keeps a kind of its own, so that a caller can tell it from any
/// other failure.
pub fn codec_io_error(context: &str, err: CodecError) -> (r: IoFault)
    ensures
        r.kind == if err is Version || err is VersionUnsupported {
            IoKind::InvalidData
        } else {
            IoKind::Other
        },
        r.message@ == context@ + ": "@ + error_line(err),
{
    let kind = match &err {
        CodecError::Version { .. } => IoKind::InvalidData,
        CodecError::VersionUnsupported { .. } => IoKind::InvalidData,
        _ => IoKind::Other,
    };
    let line = err.text();
    let mut message = String::from_str(context);
    message.append(": ");
    message.append(line.as_str());
    IoFault { kind, message }
}

/// A value that was written to a record is read back out of it: where `body` is what a value was
/// serialized to, and `parse` reads `body` as that value and leaves nothing over, then decoding the
/// record gives the value at the version of the record, and at any other version a mismatch that
/// names both. An empty record is refused as such.
pub proof fn law_record_round_trip<T, F: FnOnce(&[u8]) -> Result<(T, usize), String>>(
    version: u8,
    reader: u8,
    body: Seq<u8>,
    value: T,
    parse: F,
    r: Result<T, CodecError>,
    of_nothing: Result<T, CodecError>,
)
    requires
        forall|read: &[u8], parsed: Result<(T, usize), String>| #[trigger]
            call_ensures(parse, (read,), parsed) && read@ == body ==> parsed == Ok::<
                (T, usize),
                String,
            >((value, 0usize)),
        decoded(reader, framed(version, body), parse, r),
        decoded(reader, Seq::empty(), parse, of_nothing),
    ensures
        framed(version, body)[0] == version,
        reader == version ==> r == Ok::<T, CodecError>(value),
        reader != version ==> r == Err::<T, CodecError>(
            CodecError::Version { expected: reader, actual: version },
        ),
        of_nothing == Err::<T, CodecError>(CodecError::Empty),
{
    assert(framed(version, body).skip(1) =~= body);
}

/// A record of any other version is refused, with both versions named, whatever its body holds.
pub proof fn law_foreign_version_is_refused(expected: u8, version: u8, body: Seq<u8>)
    requires
        expected != version,
    ensures
        version_fault(expected, expected, true, framed(version, body)) == Some(
            CodecError::Version { expected, actual: version },
        ),
{
}

/// A record is its version, then its body, byte for byte; a value that could not be serialized gives
/// none, and the reason instead.
pub proof fn law_a_record_is_its_version_and_body(
    version: u8,
    body: Vec<u8>,
    record: Vec<u8>,
    serialized: Result<Vec<u8>, String>,
    encoded: Result<Vec<u8>, CodecError>,
)
    requires
        call_ensures(frame, (version, &body), record),
        call_ensures(encode, (version, serialized), encoded),
    ensures
        is_record(version, body@, record@),
        serialized matches Ok(bytes) ==> (encoded matches Ok(out) && is_record(
            version,
            bytes@,
            out@,
        )),
        serialized matches Err(why) ==> encoded == Err::<Vec<u8>, CodecError>(
            CodecError::Encode(why),
        ),
{
    assert(is_record(version, body@, record@));
    if let Ok(bytes) = serialized {
        assert(is_record(version, bytes@, encoded->Ok_0@));
    }
}

/// True of a record: one byte longer than its body, with the version in front.
pub open spec fn is_record(version: u8, body: Seq<u8>, record: Seq<u8>) -> bool {
    &&& record.len() == body.len() + 1
    &&& record[0] == version
    &&& forall|i: int| 0 <= i < body.len() ==> record[i + 1] == #[trigger] body[i]
}

/// What is read out of a record. One without a byte is empty, one of another version is refused with
/// both versions named, and of any other the parser gets the body as it is: what it reads is the
/// value where it leaves nothing over, else the bytes left over are refused by their number, and its
/// own failure is handed on.
pub proof fn law_what_is_read_out_of_a_record<
    T,
    F: FnOnce(&[u8]) -> Result<(T, usize), String>,
>(version: u8, bytes: &[u8], parse: F, read: Result<T, CodecError>)
    requires
        call_ensures(decode::<T, F>, (version, bytes, parse), read),
    ensures
        bytes@.len() == 0 ==> read == Err::<T, CodecError>(CodecError::Empty),
        bytes@.len() > 0 && bytes@[0] != version ==> read == Err::<T, CodecError>(
            CodecError::Version { expected: version, actual: bytes@[0] },
        ),
        bytes@.len() > 0 && bytes@[0] == version ==> exists|
            body: &[u8],
            parsed: Result<(T, usize), String>,
        |
            #![trigger call_ensures(parse, (body,), parsed)]
            is_record(version, body@, bytes@) && call_ensures(parse, (body,), parsed)
                && match parsed {
                Ok((value, left)) => if left == 0 {
                    read == Ok::<T, CodecError>(value)
                } else {
                    read == Err::<T, CodecError>(CodecError::TrailingBytes { extra: left })
                },
                Err(why) => read == Err::<T, CodecError>(CodecError::Decode(why)),
            },
{
    if bytes@.len() > 0 && bytes@[0] == version {
        let (body, parsed) = choose|body: &[u8], parsed: Result<(T, usize), String>|
            #![trigger call_ensures(parse, (body,), parsed)]
            body@ == bytes@.skip(1) && call_ensures(parse, (body,), parsed) && read == exact(parsed);
        assert(is_record(version, body@, bytes@));
        assert(call_ensures(parse, (body,), parsed));
    }
}

/// How a codec failure is reported: another schema version by a kind of its own, and every failure by
/// the context and the line that describes it.
pub proof fn law_how_a_failure_is_reported(
    context: &str,
    error: CodecError,
    line: String,
    fault: IoFault,
)
    requires
        call_ensures(CodecError::text, (&error,), line),
        call_ensures(codec_io_error, (context, error), fault),
    ensures
        fault.message@ == context@ + ": "@ + line@,
        fault.kind == IoKind::InvalidData <==> error is Version || error is VersionUnsupported,
{
}

/// What a failure says: the words of its kind, and the numbers or the reason that it carries.
pub proof fn law_what_a_failure_says(error: CodecError, line: String)
    requires
        call_ensures(CodecError::text, (&error,), line),
    ensures
        match error {
            CodecError::Empty => line@ == "payload empty"@,
            CodecError::Version { expected, actual } => line@ == "version mismatch: expected "@
                + text::spec_decimal(expected as nat) + ", got "@ + text::spec_decimal(
                actual as nat,
            ),
            CodecError::Encode(why) => line@ == "encode failed: "@ + why@,
            CodecError::Decode(why) => line@ == "decode failed: "@ + why@,
            CodecError::TrailingBytes { extra } => line@ == "trailing bytes: "@
                + text::spec_decimal(extra as nat) + " unconsumed after a valid body"@,
            CodecError::VersionUnsupported { min, max, actual } => line@
                == "version unsupported: "@ + text::spec_decimal(actual as nat)
                + " outside readable range ["@ + text::spec_decimal(min as nat) + ", "@
                + text::spec_decimal(max as nat) + "]"@,
            CodecError::NotRepresentable { version } => line@
                == "value not representable at version "@ + text::spec_decimal(version as nat),
        },
{
}

} // verus!
