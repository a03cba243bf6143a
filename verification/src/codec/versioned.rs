//! Types whose record layout has several versions.
//!
//! Such a type reads any supported version, up-converting older layouts, and writes any active one,
//! down-converting itself. The framing adds and checks the version byte.
use vstd::prelude::*;

use crate::codec;
use crate::codec::{frame, CodecError};

verus! {

/// A type whose record layout is versioned. Both methods work on the bare body, without the version
/// byte.
pub trait VersionedCodec: Sized {
    /// Reads a body that is known to be of `version` into the current type.
    fn decode_version(version: u8, body: &[u8]) -> Result<Self, CodecError>;

    /// Writes the body of `version`.
    fn encode_version(&self, version: u8) -> Result<Vec<u8>, CodecError>;
}

/// Makes the record of a body; a failure to write the body is passed on.
pub fn frame_body(version: u8, body: Result<Vec<u8>, CodecError>) -> (r: Result<
    Vec<u8>,
    CodecError,
>)
    ensures
        match (body, r) {
            (Ok(body), Ok(out)) => out@ == codec::framed(version, body@),
            (Err(error), Err(failed)) => failed == error,
            _ => false,
        },
{
    match body {
        Ok(body) => Ok(frame(version, &body)),
        Err(error) => Err(error),
    }
}

/// Makes the record `[version | body]`, where the body is `value`'s layout at `version`.
pub fn encode_framed<T: VersionedCodec>(version: u8, value: &T) -> (r: Result<
    Vec<u8>,
    CodecError,
>)
    requires
        call_requires(T::encode_version, (value, version)),
    ensures
        exists|body: Result<Vec<u8>, CodecError>|
            #![trigger call_ensures(T::encode_version, (value, version), body)]
            call_ensures(T::encode_version, (value, version), body) && match (body, r) {
                (Ok(body), Ok(out)) => out@ == codec::framed(version, body@),
                (Err(error), Err(failed)) => failed == error,
                _ => false,
            },
{
    let body = value.encode_version(version);
    frame_body(version, body)
}

/// The version and the body of a record, or the reason why a reader of `[min_version, max_version]`
/// refuses it. The body is not looked at.
pub fn split_framed(min_version: u8, max_version: u8, bytes: &[u8]) -> (r: Result<
    (u8, &[u8]),
    CodecError,
>)
    ensures
        match (codec::version_fault(min_version, max_version, false, bytes@), r) {
            (Some(fault), Err(failed)) => failed == fault,
            (None, Ok((version, body))) => version == bytes@[0] && body@ == bytes@.skip(1),
            _ => false,
        },
{
    if bytes.len() == 0 {
        return Err(CodecError::Empty);
    }
    let version: u8 = bytes[0];
    if version < min_version || version > max_version {
        return Err(
            CodecError::VersionUnsupported { min: min_version, max: max_version, actual: version },
        );
    }
    let body = vstd::slice::slice_subrange(bytes, 1, bytes.len());
    assert(body@ =~= bytes@.skip(1));
    Ok((version, body))
}

/// True of what [`decode_framed`] makes of a record: the fault of its version byte where it has one,
/// else what the type makes of its body at its version.
pub open spec fn decoded_framed<T: VersionedCodec>(
    min_version: u8,
    max_version: u8,
    bytes: Seq<u8>,
    r: Result<T, CodecError>,
) -> bool {
    match codec::version_fault(min_version, max_version, false, bytes) {
        Some(fault) => r == Err::<T, CodecError>(fault),
        None => exists|body: &[u8]|
            #![trigger call_ensures(T::decode_version, (bytes[0], body), r)]
            body@ == bytes.skip(1) && call_ensures(T::decode_version, (bytes[0], body), r),
    }
}

/// Reads a record, refusing a version outside `[min_version, max_version]` before the body is looked
/// at. A version within is handed to [`VersionedCodec::decode_version`].
pub fn decode_framed<T: VersionedCodec>(min_version: u8, max_version: u8, bytes: &[u8]) -> (r:
    Result<T, CodecError>)
    requires
        forall|version: u8, body: &[u8]|
            #![trigger call_requires(T::decode_version, (version, body))]
            call_requires(T::decode_version, (version, body)),
    ensures
        decoded_framed(min_version, max_version, bytes@, r),
{
    match split_framed(min_version, max_version, bytes) {
        Ok((version, body)) => T::decode_version(version, body),
        Err(fault) => Err(fault),
    }
}

/// The bare body of a value that was serialized; a failure to serialize it is reported as such.
pub fn encode_postcard(body: Result<Vec<u8>, String>) -> (r: Result<Vec<u8>, CodecError>)
    ensures
        r == match body {
            Ok(bytes) => Ok::<Vec<u8>, CodecError>(bytes),
            Err(error) => Err::<Vec<u8>, CodecError>(CodecError::Encode(error)),
        },
{
    match body {
        Ok(bytes) => Ok(bytes),
        Err(error) => Err(CodecError::Encode(error)),
    }
}

/// The value of a bare body that was read, with the number of bytes that it left over; surplus
/// bytes are refused.
pub fn decode_postcard_exact<T>(parsed: Result<(T, usize), String>) -> (r: Result<
    T,
    CodecError,
>)
    ensures
        r == codec::exact(parsed),
{
    match parsed {
        Ok((value, left)) => {
            if left > 0 {
                Err(CodecError::TrailingBytes { extra: left })
            } else {
                Ok(value)
            }
        },
        Err(error) => Err(CodecError::Decode(error)),
    }
}

/// What was framed at a version is accepted by every reader whose range holds it, and the body it
/// hands on is the one that was framed: where the type reads that body, at that version, as `value`,
/// then `value` is what comes out.
pub proof fn law_framed_round_trip<T: VersionedCodec>(
    min: u8,
    max: u8,
    version: u8,
    body: Seq<u8>,
    value: T,
    r: Result<T, CodecError>,
)
    requires
        min <= version <= max,
        forall|read: &[u8], parsed: Result<T, CodecError>| #[trigger]
            call_ensures(T::decode_version, (version, read), parsed) && read@ == body ==> parsed
                == Ok::<T, CodecError>(value),
        decoded_framed(min, max, codec::framed(version, body), r),
    ensures
        codec::framed(version, body)[0] == version,
        r == Ok::<T, CodecError>(value),
{
    assert(codec::framed(version, body).skip(1) =~= body);
}

/// A record of a version outside the reader's range is refused, with the range and the version
/// named, whatever its body holds.
pub proof fn law_out_of_range_is_refused(min: u8, max: u8, version: u8, body: Seq<u8>)
    requires
        version < min || version > max,
    ensures
        codec::version_fault(min, max, false, codec::framed(version, body)) == Some(
            CodecError::VersionUnsupported { min, max, actual: version },
        ),
{
}

/// A framed body is its version, then the body, byte for byte; a failure to write it, at that version
/// or at all, is handed on as it is.
pub proof fn law_a_framed_body_is_a_record<T: VersionedCodec>(
    version: u8,
    body: Result<Vec<u8>, CodecError>,
    framed: Result<Vec<u8>, CodecError>,
    value: &T,
    encoded: Result<Vec<u8>, CodecError>,
)
    requires
        call_ensures(frame_body, (version, body), framed),
        call_ensures(encode_framed::<T>, (version, value), encoded),
    ensures
        body matches Ok(bytes) ==> (framed matches Ok(out) && codec::is_record(
            version,
            bytes@,
            out@,
        )),
        body matches Err(error) ==> framed == Err::<Vec<u8>, CodecError>(error),
        exists|written: Result<Vec<u8>, CodecError>|
            #![trigger call_ensures(T::encode_version, (value, version), written)]
            call_ensures(T::encode_version, (value, version), written) && match written {
                Ok(bytes) => encoded matches Ok(out) && codec::is_record(version, bytes@, out@),
                Err(error) => encoded == Err::<Vec<u8>, CodecError>(error),
            },
{
    if let Ok(bytes) = body {
        assert(codec::is_record(version, bytes@, framed->Ok_0@));
    }
    let written = choose|written: Result<Vec<u8>, CodecError>|
        #![trigger call_ensures(T::encode_version, (value, version), written)]
        call_ensures(T::encode_version, (value, version), written) && match (written, encoded) {
            (Ok(body), Ok(out)) => out@ == codec::framed(version, body@),
            (Err(error), Err(failed)) => failed == error,
            _ => false,
        };
    if let Ok(bytes) = written {
        assert(codec::is_record(version, bytes@, encoded->Ok_0@));
    }
}

/// A record is taken apart into its version and its body exactly where the version lies in the
/// reader's range, both ends included. One without a byte is empty, and any other is refused with the
/// range and the version named.
pub proof fn law_which_records_are_taken_apart(
    min: u8,
    max: u8,
    bytes: &[u8],
    split: Result<(u8, &[u8]), CodecError>,
)
    requires
        call_ensures(split_framed, (min, max, bytes), split),
    ensures
        bytes@.len() == 0 ==> split == Err::<(u8, &[u8]), CodecError>(CodecError::Empty),
        bytes@.len() > 0 && min <= bytes@[0] && bytes@[0] <= max ==> (split matches Ok(
            (version, body),
        ) && version == bytes@[0] && codec::is_record(version, body@, bytes@)),
        bytes@.len() > 0 && (bytes@[0] < min || bytes@[0] > max) ==> split == Err::<
            (u8, &[u8]),
            CodecError,
        >(CodecError::VersionUnsupported { min, max, actual: bytes@[0] }),
{
    if let Ok((version, body)) = split {
        assert(codec::is_record(version, body@, bytes@));
    }
}

/// What is read out of a record of several versions: what the type makes of the body as it is, at the
/// version in front, where the reader's range holds that; else the refusal of
/// [`law_which_records_are_taken_apart`].
pub proof fn law_what_a_type_reads<T: VersionedCodec>(
    min: u8,
    max: u8,
    bytes: &[u8],
    read: Result<T, CodecError>,
)
    requires
        call_ensures(decode_framed::<T>, (min, max, bytes), read),
    ensures
        bytes@.len() == 0 ==> read == Err::<T, CodecError>(CodecError::Empty),
        bytes@.len() > 0 && (bytes@[0] < min || bytes@[0] > max) ==> read == Err::<T, CodecError>(
            CodecError::VersionUnsupported { min, max, actual: bytes@[0] },
        ),
        bytes@.len() > 0 && min <= bytes@[0] && bytes@[0] <= max ==> exists|body: &[u8]|
            #![trigger call_ensures(T::decode_version, (bytes@[0], body), read)]
            codec::is_record(bytes@[0], body@, bytes@) && call_ensures(
                T::decode_version,
                (bytes@[0], body),
                read,
            ),
{
    if bytes@.len() > 0 && min <= bytes@[0] && bytes@[0] <= max {
        let body = choose|body: &[u8]|
            #![trigger call_ensures(T::decode_version, (bytes@[0], body), read)]
            body@ == bytes@.skip(1) && call_ensures(T::decode_version, (bytes@[0], body), read);
        assert(codec::is_record(bytes@[0], body@, bytes@));
        assert(call_ensures(T::decode_version, (bytes@[0], body), read));
    }
}

/// A bare body that was written is handed on, and one that was read is its value exactly where
/// nothing is left over; every failure tells which direction failed, and why.
pub proof fn law_bare_bodies<T>(
    body: Result<Vec<u8>, String>,
    written: Result<Vec<u8>, CodecError>,
    parsed: Result<(T, usize), String>,
    read: Result<T, CodecError>,
)
    requires
        call_ensures(encode_postcard, (body,), written),
        call_ensures(decode_postcard_exact::<T>, (parsed,), read),
    ensures
        body matches Ok(bytes) ==> written == Ok::<Vec<u8>, CodecError>(bytes),
        body matches Err(why) ==> written == Err::<Vec<u8>, CodecError>(CodecError::Encode(why)),
        parsed matches Ok((value, left)) ==> (left == 0 ==> read == Ok::<T, CodecError>(value)),
        parsed matches Ok((_, left)) ==> (left > 0 ==> read == Err::<T, CodecError>(
            CodecError::TrailingBytes { extra: left },
        )),
        parsed matches Err(why) ==> read == Err::<T, CodecError>(CodecError::Decode(why)),
{
}

} // verus!
