//! Turning the answer to a timestamp request into a range that is known to be valid.
//!
//! The checks are made before any timestamp is built: the count that was asked for, its range, the
//! logical span, the physical part, in this order.
use vstd::prelude::*;
use vstd::string::*;

use crate::error::{ClientError, ErrorView};
use crate::status;
use crate::status::{Code, Status};
use crate::text;
use crate::text::decimal_text;
use crate::timestamp;
use crate::timestamp::{Timestamp, LOGICAL_MAX, PHYSICAL_MS_MAX};

verus! {

/// Most timestamps that one RPC can carry: the width of the logical counter.
pub const MAX_TIMESTAMPS_PER_RPC: u32 = LOGICAL_MAX + 1;

/// The answer to a timestamp request, as it came over the wire.
#[derive(Clone, Copy, Debug, PartialEq, Eq, Structural)]
pub struct GetTsResponse {
    pub physical_ms: u64,
    pub logical_start: u32,
    pub count: u32,
    pub epoch_hi: u64,
    pub epoch_lo: u64,
}

/// `count` consecutive timestamps of one millisecond. Every one of them fits the packed layout.
#[derive(Clone, Copy, Debug, PartialEq, Eq, Structural)]
pub struct TimestampRange {
    physical_ms: u64,
    logical_start: u32,
    count: u32,
}

/// What a [`TimestampRange`] spans.
#[verifier::ext_equal]
pub struct RangeView {
    pub physical_ms: u64,
    pub logical_start: u32,
    pub count: u32,
}

impl RangeView {
    /// Every timestamp of the range fits the packed layout.
    pub open spec fn valid(self) -> bool {
        self.physical_ms <= PHYSICAL_MS_MAX && self.logical_start + self.count
            <= MAX_TIMESTAMPS_PER_RPC
    }

    /// The `i`-th timestamp of the range.
    pub open spec fn at(self, i: int) -> Timestamp {
        Timestamp(timestamp::packed(self.physical_ms as int, self.logical_start + i) as u64)
    }

    /// The timestamps from the `from`-th on, `n` of them.
    pub open spec fn slice(self, from: int, n: nat) -> Seq<Timestamp> {
        Seq::new(n, |i: int| self.at(from + i))
    }
}

impl View for TimestampRange {
    type V = RangeView;

    closed spec fn view(&self) -> RangeView {
        RangeView {
            physical_ms: self.physical_ms,
            logical_start: self.logical_start,
            count: self.count,
        }
    }
}

impl TimestampRange {
    #[verifier::type_invariant]
    spec fn inv(self) -> bool {
        self@.valid()
    }

    /// The range of the given fields, which have to fit the packed layout.
    pub fn new(physical_ms: u64, logical_start: u32, count: u32) -> (r: TimestampRange)
        requires
            (RangeView { physical_ms, logical_start, count }).valid(),
        ensures
            r@ == (RangeView { physical_ms, logical_start, count }),
    {
        TimestampRange { physical_ms, logical_start, count }
    }

    /// Number of timestamps in the range.
    pub fn count(&self) -> (r: u32)
        ensures
            r == self@.count,
            self@.valid(),
    {
        proof {
            use_type_invariant(self);
        }
        self.count
    }

    /// `n` timestamps of the range, from the `from`-th on.
    pub fn slice(&self, from: u32, n: u32) -> (r: Vec<Timestamp>)
        requires
            from + n <= self@.count,
        ensures
            r@ == self@.slice(from as int, n as nat),
    {
        proof {
            use_type_invariant(self);
        }
        let mut r: Vec<Timestamp> = Vec::new();
        let mut i: u32 = 0;
        while i < n
            invariant
                i <= n,
                from + n <= self@.count,
                self@.valid(),
                r@ == self@.slice(from as int, i as nat),
            decreases n - i,
        {
            let ts = Timestamp::pack(self.physical_ms, self.logical_start + (from + i));
            r.push(ts);
            i = i + 1;
            assert(r@ =~= self@.slice(from as int, i as nat));
        }
        r
    }

    /// All timestamps of the range, in order.
    pub fn iter(&self) -> (r: Vec<Timestamp>)
        ensures
            r@ == self@.slice(0, self@.count as nat),
    {
        self.slice(0, self.count)
    }
}

/// What is wrong with an answer; `None` where it is sound.
pub open spec fn response_fault(resp: GetTsResponse, requested: u32) -> Option<Seq<char>> {
    if resp.count != requested {
        Some(
            "server returned count="@ + text::spec_decimal(resp.count as nat)
                + " for requested count="@ + text::spec_decimal(requested as nat),
        )
    } else if resp.count == 0 || resp.count > MAX_TIMESTAMPS_PER_RPC {
        Some("server returned out-of-range count="@ + text::spec_decimal(resp.count as nat))
    } else if resp.logical_start + resp.count > MAX_TIMESTAMPS_PER_RPC {
        Some(
            "server returned logical_start="@ + text::spec_decimal(resp.logical_start as nat)
                + " + count="@ + text::spec_decimal(resp.count as nat)
                + " that overflows LOGICAL_MAX="@ + text::spec_decimal(LOGICAL_MAX as nat),
        )
    } else {
        match timestamp::pack_error(resp.physical_ms as nat, resp.logical_start as nat) {
            Some(why) => Some("server returned invalid timestamp fields: "@ + why),
            None => None,
        }
    }
}

/// The error that reports a faulty answer.
pub open spec fn fault_error(why: Seq<char>) -> ErrorView {
    ErrorView::Rpc(status::bare_status(Code::Internal, why))
}

/// Checks an answer against what was asked for and takes its range.
pub fn decode_get_ts_response(resp: GetTsResponse, requested: u32) -> (r: Result<
    TimestampRange,
    ClientError,
>)
    ensures
        match r {
            Ok(range) => response_fault(resp, requested) is None && range@ == (RangeView {
                physical_ms: resp.physical_ms,
                logical_start: resp.logical_start,
                count: resp.count,
            }) && range@.valid() && range@.count > 0,
            Err(error) => response_fault(resp, requested) is Some && error@ == fault_error(
                response_fault(resp, requested)->0,
            ),
        },
{
    if resp.count != requested {
        let mut why = String::from_str("server returned count=");
        why.append(decimal_text(resp.count as u64).as_str());
        why.append(" for requested count=");
        why.append(decimal_text(requested as u64).as_str());
        return Err(ClientError::Rpc(Status::new(Code::Internal, why)));
    }
    if resp.count == 0 || resp.count > MAX_TIMESTAMPS_PER_RPC {
        let mut why = String::from_str("server returned out-of-range count=");
        why.append(decimal_text(resp.count as u64).as_str());
        return Err(ClientError::Rpc(Status::new(Code::Internal, why)));
    }
    if resp.logical_start as u64 + resp.count as u64 > MAX_TIMESTAMPS_PER_RPC as u64 {
        let mut why = String::from_str("server returned logical_start=");
        why.append(decimal_text(resp.logical_start as u64).as_str());
        why.append(" + count=");
        why.append(decimal_text(resp.count as u64).as_str());
        why.append(" that overflows LOGICAL_MAX=");
        why.append(decimal_text(LOGICAL_MAX as u64).as_str());
        return Err(ClientError::Rpc(Status::new(Code::Internal, why)));
    }
    match Timestamp::try_pack(resp.physical_ms, resp.logical_start) {
        Ok(_) => Ok(TimestampRange::new(resp.physical_ms, resp.logical_start, resp.count)),
        Err(fault) => {
            let mut why = String::from_str("server returned invalid timestamp fields: ");
            why.append(fault.as_str());
            Err(ClientError::Rpc(Status::new(Code::Internal, why)))
        },
    }
}

/// An answer is taken exactly where it carries the count that was asked for, between one and the
/// cap, with a logical span and a physical part that fit.
pub proof fn law_sound_answers_are_taken(resp: GetTsResponse, requested: u32)
    ensures
        response_fault(resp, requested) is None <==> (resp.count == requested && 1 <= resp.count
            <= MAX_TIMESTAMPS_PER_RPC && resp.logical_start + resp.count - 1 <= LOGICAL_MAX
            && resp.physical_ms <= PHYSICAL_MS_MAX),
{
}

/// The timestamps of a valid range are those of its millisecond with consecutive counters, each
/// strictly after the one before.
pub proof fn law_range_is_contiguous_and_increasing(range: RangeView, i: int, j: int)
    requires
        range.valid(),
        0 <= i < j < range.count,
    ensures
        range.at(i).0 / timestamp::LOGICAL_SPAN == range.physical_ms,
        range.at(i).0 % timestamp::LOGICAL_SPAN == range.logical_start + i,
        range.at(j).0 - range.at(i).0 == j - i,
        range.at(i).0 < range.at(j).0,
{
}

} // verus!
