//! Record codec of raft payloads and storage records: `[version | body]`, with a body in
//! `bincode`'s encoding. An error of `bincode` comes in as its text.
use vstd::prelude::*;
use vstd::string::*;

use crate::codec;
use crate::codec::frame;
use crate::text;
use crate::text::{decimal_text, joined};

verus! {

/// Failure modes of the codec. A value that cannot be serialized is reported as `Decode` too.
#[derive(Debug)]
pub enum CodecError {
    /// The payload had no leading version byte.
    Empty,
    /// The leading version byte is not the one that the reader expected.
    Version { expected: u8, actual: u8 },
    /// The body could not be read, or the value not written; the text says why.
    Decode(String),
}

impl CodecError {
    /// The line that describes the error.
    pub fn text(&self) -> (r: String)
        ensures
            match self {
                CodecError::Empty => r@ == "payload empty"@,
                CodecError::Version { expected, actual } => r@ == "version mismatch: expected "@
                    + text::spec_decimal(*expected as nat) + ", got "@ + text::spec_decimal(
                    *actual as nat,
                ),
                CodecError::Decode(why) => r@ == "decode failed: "@ + why@,
            },
    {
        match self {
            CodecError::Empty => String::from_str("payload empty"),
            CodecError::Version { expected, actual } => {
                let mut line = String::from_str("version mismatch: expected ");
                line.append(decimal_text(*expected as u64).as_str());
                line.append(", got ");
                line.append(decimal_text(*actual as u64).as_str());
                line
            },
            CodecError::Decode(why) => joined("decode failed: ", why.as_str()),
        }
    }
}

/// What is wrong with the version byte of a record for a reader of `expected`.
pub open spec fn version_fault(expected: u8, bytes: Seq<u8>) -> Option<CodecError> {
    if bytes.len() == 0 {
        Some(CodecError::Empty)
    } else if bytes[0] != expected {
        Some(CodecError::Version { expected, actual: bytes[0] })
    } else {
        None
    }
}

/// Makes the record `[version | body]` of a value that was serialized to `body`.
pub fn encode(version: u8, body: Result<Vec<u8>, String>) -> (r: Result<
    Vec<u8>,
    CodecError,
>)
    ensures
        match (body, r) {
            (Ok(body), Ok(out)) => out@ == codec::framed(version, body@),
            (Err(error), Err(failed)) => failed == CodecError::Decode(error),
            _ => false,
        },
{
    match body {
        Ok(body) => Ok(frame(version, &body)),
        Err(error) => Err(CodecError::Decode(error)),
    }
}

/// True of what [`decode`] makes of a record: the fault of its version byte where it has one, else
/// what `parse` makes of its body.
pub open spec fn decoded<T, F: FnOnce(&[u8]) -> Result<T, String>>(
    expected_version: u8,
    bytes: Seq<u8>,
    parse: F,
    r: Result<T, CodecError>,
) -> bool {
    match version_fault(expected_version, bytes) {
        Some(fault) => r == Err::<T, CodecError>(fault),
        None => exists|body: &[u8], parsed: Result<T, String>|
            #![trigger call_ensures(parse, (body,), parsed)]
            body@ == bytes.skip(1) && call_ensures(parse, (body,), parsed) && r == match parsed {
                Ok(value) => Ok::<T, CodecError>(value),
                Err(why) => Err::<T, CodecError>(CodecError::Decode(why)),
            },
    }
}

/// Reads a record made by [`encode`], refusing another version before the body is looked at.
/// `parse` reads a body.
pub fn decode<T, F: FnOnce(&[u8]) -> Result<T, String>>(
    expected_version: u8,
    bytes: &[u8],
    parse: F,
) -> (r: Result<T, CodecError>)
    requires
        forall|body: &[u8]| #[trigger]
            body@ == bytes@.skip(1) ==> call_requires(parse, (body,)),
    ensures
        decoded(expected_version, bytes@, parse, r),
{
    if bytes.len() == 0 {
        return Err(CodecError::Empty);
    }
    let version: u8 = bytes[0];
    if version != expected_version {
        return Err(CodecError::Version { expected: expected_version, actual: version });
    }
    let body = vstd::slice::slice_subrange(bytes, 1, bytes.len());
    assert(body@ =~= bytes@.skip(1));
    match parse(body) {
        Ok(value) => Ok(value),
        Err(error) => Err(CodecError::Decode(error)),
    }
}

/// A value that was written to a record is read back out of it: where `body` is what a value was
/// serialized to, and `parse` reads `body` as that value, then decoding the record gives the value
/// at the version of the record, and at any other version a mismatch that names both. An empty
/// record is refused as such.
pub proof fn law_record_round_trip<T, F: FnOnce(&[u8]) -> Result<T, String>>(
    version: u8,
    reader: u8,
    body: Seq<u8>,
    value: T,
    parse: F,
    r: Result<T, CodecError>,
    of_nothing: Result<T, CodecError>,
)
    requires
        forall|read: &[u8], parsed: Result<T, String>| #[trigger]
            call_ensures(parse, (read,), parsed) && read@ == body ==> parsed == Ok::<T, String>(
                value,
            ),
        decoded(reader, codec::framed(version, body), parse, r),
        decoded(reader, Seq::empty(), parse, of_nothing),
    ensures
        codec::framed(version, body)[0] == version,
        reader == version ==> r == Ok::<T, CodecError>(value),
        reader != version ==> r == Err::<T, CodecError>(
            CodecError::Version { expected: reader, actual: version },
        ),
        of_nothing == Err::<T, CodecError>(CodecError::Empty),
{
    assert(codec::framed(version, body).skip(1) =~= body);
}

/// A record is its version, then its body, byte for byte; a value that could not be serialized gives
/// none, and the reason instead.
pub proof fn law_what_is_encoded(
    version: u8,
    body: Result<Vec<u8>, String>,
    encoded: Result<Vec<u8>, CodecError>,
)
    requires
        call_ensures(encode, (version, body), encoded),
    ensures
        body matches Ok(bytes) ==> (encoded matches Ok(out) && codec::is_record(
            version,
            bytes@,
            out@,
        )),
        body matches Err(why) ==> encoded == Err::<Vec<u8>, CodecError>(CodecError::Decode(why)),
{
    if let Ok(bytes) = body {
        assert(codec::is_record(version, bytes@, encoded->Ok_0@));
    }
}

/// What is read out of a record. One without a byte is empty, one of another version is refused with
/// both versions named, and of any other the parser gets the body as it is, and what it makes of it
/// is handed on.
pub proof fn law_what_is_decoded<T, F: FnOnce(&[u8]) -> Result<T, String>>(
    version: u8,
    bytes: &[u8],
    parse: F,
    read: Result<T, CodecError>,
)
    requires
        call_ensures(decode::<T, F>, (version, bytes, parse), read),
    ensures
        bytes@.len() == 0 ==> read == Err::<T, CodecError>(CodecError::Empty),
        bytes@.len() > 0 && bytes@[0] != version ==> read == Err::<T, CodecError>(
            CodecError::Version { expected: version, actual: bytes@[0] },
        ),
        bytes@.len() > 0 && bytes@[0] == version ==> exists|
            body: &[u8],
            parsed: Result<T, String>,
        |
            #![trigger call_ensures(parse, (body,), parsed)]
            codec::is_record(version, body@, bytes@) && call_ensures(parse, (body,), parsed)
                && match parsed {
                Ok(value) => read == Ok::<T, CodecError>(value),
                Err(why) => read == Err::<T, CodecError>(CodecError::Decode(why)),
            },
{
    if bytes@.len() > 0 && bytes@[0] == version {
        let (body, parsed) = choose|body: &[u8], parsed: Result<T, String>|
            #![trigger call_ensures(parse, (body,), parsed)]
            body@ == bytes@.skip(1) && call_ensures(parse, (body,), parsed) && read == match parsed {
                Ok(value) => Ok::<T, CodecError>(value),
                Err(why) => Err::<T, CodecError>(CodecError::Decode(why)),
            };
        assert(codec::is_record(version, body@, bytes@));
        assert(call_ensures(parse, (body,), parsed));
    }
}

/// What a failure says.
pub proof fn law_what_a_failure_says(error: CodecError, line: String)
    requires
        call_ensures(CodecError::text, (&error,), line),
    ensures
        error is Empty ==> line@ == "payload empty"@,
        error matches CodecError::Version { expected, actual } ==> line@
            == "version mismatch: expected "@ + text::spec_decimal(expected as nat) + ", got "@
            + text::spec_decimal(actual as nat),
        error matches CodecError::Decode(why) ==> line@ == "decode failed: "@ + why@,
{
}

} // verus!
