//! Timestamps and leader epochs.
//!
//! A timestamp packs a physical part in milliseconds (46 bits) above a logical counter (18 bits)
//! into one `u64`, so that the numeric order is the order of the timestamps.
use vstd::prelude::*;
use vstd::string::*;

use crate::text;
use crate::text::decimal_text;

verus! {

/// Largest logical counter.
pub const LOGICAL_MAX: u32 = 262_143;

/// Largest physical part, in milliseconds.
pub const PHYSICAL_MS_MAX: u64 = 70_368_744_177_663;

/// Number of logical counters per millisecond.
pub const LOGICAL_SPAN: u64 = 262_144;

/// A packed timestamp.
#[derive(Clone, Copy, Debug, PartialEq, Eq, PartialOrd, Ord, Hash, Structural)]
pub struct Timestamp(pub u64);

/// The number that two in-range parts pack into.
pub open spec fn packed(physical_ms: int, logical: int) -> int {
    physical_ms * LOGICAL_SPAN + logical
}

/// What is wrong with parts that do not fit; the physical part is looked at first.
pub open spec fn pack_error(physical_ms: nat, logical: nat) -> Option<Seq<char>> {
    if physical_ms > PHYSICAL_MS_MAX {
        Some(
            "physical_ms "@ + text::spec_decimal(physical_ms) + " exceeds PHYSICAL_MS_MAX="@
                + text::spec_decimal(PHYSICAL_MS_MAX as nat),
        )
    } else if logical > LOGICAL_MAX {
        Some(
            "logical "@ + text::spec_decimal(logical) + " exceeds LOGICAL_MAX="@
                + text::spec_decimal(LOGICAL_MAX as nat),
        )
    } else {
        None
    }
}

impl Timestamp {
    /// Packs two parts that fit.
    pub fn pack(physical_ms: u64, logical: u32) -> (r: Timestamp)
        requires
            physical_ms <= PHYSICAL_MS_MAX,
            logical <= LOGICAL_MAX,
        ensures
            r.0 == packed(physical_ms as int, logical as int),
    {
        Timestamp(physical_ms * LOGICAL_SPAN + logical as u64)
    }

    /// Packs two parts, or says which one does not fit.
    pub fn try_pack(physical_ms: u64, logical: u32) -> (r: Result<Timestamp, String>)
        ensures
            match r {
                Ok(ts) => pack_error(physical_ms as nat, logical as nat) is None && ts.0 == packed(
                    physical_ms as int,
                    logical as int,
                ),
                Err(why) => pack_error(physical_ms as nat, logical as nat) == Some(why@),
            },
    {
        if physical_ms > PHYSICAL_MS_MAX {
            let mut why = String::from_str("physical_ms ");
            why.append(decimal_text(physical_ms).as_str());
            why.append(" exceeds PHYSICAL_MS_MAX=");
            why.append(decimal_text(PHYSICAL_MS_MAX).as_str());
            Err(why)
        } else if logical > LOGICAL_MAX {
            let mut why = String::from_str("logical ");
            why.append(decimal_text(logical as u64).as_str());
            why.append(" exceeds LOGICAL_MAX=");
            why.append(decimal_text(LOGICAL_MAX as u64).as_str());
            Err(why)
        } else {
            Ok(Timestamp::pack(physical_ms, logical))
        }
    }

    /// The physical part, in milliseconds.
    pub fn physical_ms(self) -> (r: u64)
        ensures
            r == self.0 / LOGICAL_SPAN,
    {
        self.0 / LOGICAL_SPAN
    }

    /// The logical part.
    pub fn logical(self) -> (r: u32)
        ensures
            r == self.0 % LOGICAL_SPAN,
    {
        (self.0 % LOGICAL_SPAN) as u32
    }
}

/// Unpacking gives back the parts that were packed.
pub proof fn law_unpack_inverts_pack(physical_ms: int, logical: int)
    requires
        0 <= physical_ms <= PHYSICAL_MS_MAX,
        0 <= logical <= LOGICAL_MAX,
    ensures
        0 <= packed(physical_ms, logical) <= u64::MAX,
        packed(physical_ms, logical) / LOGICAL_SPAN as int == physical_ms,
        packed(physical_ms, logical) % LOGICAL_SPAN as int == logical,
{
}

/// Timestamps are ordered by their physical part first, then by their logical part.
pub proof fn law_order_is_lexicographic(p1: int, l1: int, p2: int, l2: int)
    requires
        0 <= l1 <= LOGICAL_MAX,
        0 <= l2 <= LOGICAL_MAX,
    ensures
        packed(p1, l1) < packed(p2, l2) <==> (p1 < p2 || (p1 == p2 && l1 < l2)),
        packed(p1, l1) == packed(p2, l2) <==> (p1 == p2 && l1 == l2),
{
}

/// A leader epoch.
#[derive(Clone, Copy, Debug, PartialEq, Eq, PartialOrd, Ord, Hash, Structural)]
pub struct Epoch(pub u128);

/// The epoch whose halves came over the wire.
pub open spec fn epoch_of(hi: u64, lo: u64) -> u128 {
    (hi * 0x1_0000_0000_0000_0000 + lo) as u128
}

impl Epoch {
    /// Puts the two halves of an epoch together.
    pub fn from_wire(hi: u64, lo: u64) -> (r: Epoch)
        ensures
            r.0 == hi * 0x1_0000_0000_0000_0000 + lo,
            r.0 == epoch_of(hi, lo),
    {
        Epoch(hi as u128 * 0x1_0000_0000_0000_0000 + lo as u128)
    }

    /// The two halves of an epoch, the high one first.
    pub fn to_wire(self) -> (r: (u64, u64))
        ensures
            r.0 == self.0 / 0x1_0000_0000_0000_0000,
            r.1 == self.0 % 0x1_0000_0000_0000_0000,
    {
        (
            (self.0 / 0x1_0000_0000_0000_0000) as u64,
            (self.0 % 0x1_0000_0000_0000_0000) as u64,
        )
    }
}

/// An epoch survives the wire, and the high half ranks above the low one.
pub proof fn law_epoch_survives_wire(hi: u64, lo: u64, other_hi: u64, other_lo: u64)
    ensures
        epoch_of(hi, lo) / 0x1_0000_0000_0000_0000u128 == hi,
        epoch_of(hi, lo) % 0x1_0000_0000_0000_0000u128 == lo,
        epoch_of(hi, lo) < epoch_of(other_hi, other_lo) <==> (hi < other_hi || (hi == other_hi && lo
            < other_lo)),
{
}

} // verus!
