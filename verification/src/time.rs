//! Spans of time and points in time, counted in whole nanoseconds.
use vstd::prelude::*;

verus! {

/// Nanoseconds in one second.
pub const NANOS_PER_SEC: u128 = 1_000_000_000;

/// The longest span that [`Duration`] holds: `u64::MAX` seconds and 999,999,999 nanoseconds.
pub const MAX_NANOS: u128 = 18_446_744_073_709_551_615_999_999_999;

/// A span of time. Its view is its length in nanoseconds.
#[derive(Clone, Copy, Debug, PartialEq, Eq, PartialOrd, Ord, Structural)]
pub struct Duration {
    nanos: u128,
}

impl View for Duration {
    type V = nat;

    closed spec fn view(&self) -> nat {
        self.nanos as nat
    }
}

impl Duration {
    #[verifier::type_invariant]
    spec fn inv(self) -> bool {
        self.nanos <= MAX_NANOS
    }

    /// The empty span.
    pub fn zero() -> (r: Duration)
        ensures
            r@ == 0,
    {
        Duration { nanos: 0 }
    }

    /// `secs` whole seconds.
    pub fn from_secs(secs: u64) -> (r: Duration)
        ensures
            r@ == secs * 1_000_000_000,
    {
        Duration { nanos: secs as u128 * 1_000_000_000 }
    }

    /// `millis` whole milliseconds.
    pub fn from_millis(millis: u64) -> (r: Duration)
        ensures
            r@ == millis * 1_000_000,
    {
        Duration { nanos: millis as u128 * 1_000_000 }
    }

    /// `micros` whole microseconds.
    pub fn from_micros(micros: u64) -> (r: Duration)
        ensures
            r@ == micros * 1_000,
    {
        Duration { nanos: micros as u128 * 1_000 }
    }

    /// `secs` whole seconds and `nanos` nanoseconds more.
    pub fn new(secs: u64, nanos: u32) -> (r: Duration)
        requires
            nanos < 1_000_000_000,
        ensures
            r@ == secs * 1_000_000_000 + nanos,
    {
        Duration { nanos: secs as u128 * 1_000_000_000 + nanos as u128 }
    }

    /// The span in nanoseconds.
    pub fn as_nanos(&self) -> (r: u128)
        ensures
            r == self@,
            r <= MAX_NANOS,
    {
        proof {
            use_type_invariant(self);
        }
        self.nanos
    }

    /// The span in microseconds, rounded down.
    pub fn as_micros(&self) -> (r: u128)
        ensures
            r == self@ / 1_000,
    {
        self.nanos / 1_000
    }

    /// True of the empty span alone.
    pub fn is_zero(&self) -> (r: bool)
        ensures
            r == (self@ == 0),
    {
        self.nanos == 0
    }

    /// The shorter of two spans.
    pub fn shorter(self, other: Duration) -> (r: Duration)
        ensures
            r@ == if self@ <= other@ { self@ } else { other@ },
            r == self || r == other,
    {
        if self.nanos <= other.nanos {
            self
        } else {
            other
        }
    }

    /// True when this span is strictly shorter than `other`.
    pub fn is_shorter_than(&self, other: &Duration) -> (r: bool)
        ensures
            r == (self@ < other@),
    {
        self.nanos < other.nanos
    }

    /// The span of `nanos` nanoseconds, or the longest span where that is longer.
    pub fn from_nanos_saturating(nanos: u128) -> (r: Duration)
        ensures
            r@ == if nanos <= MAX_NANOS { nanos as nat } else { MAX_NANOS as nat },
    {
        if nanos <= MAX_NANOS {
            Duration { nanos }
        } else {
            Duration { nanos: MAX_NANOS }
        }
    }
}

/// The text by which a span of that many nanoseconds is shown.
pub uninterp spec fn span_text(nanos: nat) -> Seq<char>;

/// The `Debug` text of `std::time::Duration` for `secs` seconds and `nanos` nanoseconds: a function
/// of the span alone. Nothing more is claimed of the text.
#[verifier::external_body]
fn std_span_text(secs: u64, nanos: u32) -> (r: String)
    requires
        nanos < 1_000_000_000,
    ensures
        r@ == span_text((secs * 1_000_000_000 + nanos) as nat),
{
    format!("{:?}", std::time::Duration::new(secs, nanos))
}

impl Duration {
    /// The text by which the span is shown in messages.
    pub fn text(&self) -> (r: String)
        ensures
            r@ == span_text(self@),
    {
        let nanos: u128 = self.as_nanos();
        std_span_text((nanos / NANOS_PER_SEC) as u64, (nanos % NANOS_PER_SEC) as u32)
    }
}

/// A point in time, as the span since one fixed origin of the process. Its view is that span in
/// nanoseconds.
#[derive(Clone, Copy, Debug, PartialEq, Eq, PartialOrd, Ord, Structural)]
pub struct Instant {
    since_origin: Duration,
}

impl View for Instant {
    type V = nat;

    closed spec fn view(&self) -> nat {
        self.since_origin@
    }
}

impl Instant {
    /// The point that lies `since_origin` after the origin.
    pub fn at(since_origin: Duration) -> (r: Instant)
        ensures
            r@ == since_origin@,
    {
        Instant { since_origin }
    }

    /// Nanoseconds since the origin.
    pub fn as_nanos(&self) -> (r: u128)
        ensures
            r == self@,
            r <= MAX_NANOS,
    {
        self.since_origin.as_nanos()
    }

    /// The span since `earlier`, or the empty span where `earlier` is the later of the two.
    pub fn saturating_since(&self, earlier: &Instant) -> (r: Duration)
        ensures
            r@ == if earlier@ <= self@ { (self@ - earlier@) as nat } else { 0 },
    {
        let a: u128 = self.as_nanos();
        let b: u128 = earlier.as_nanos();
        if b <= a {
            Duration::from_nanos_saturating(a - b)
        } else {
            Duration::zero()
        }
    }
}

/// How long the spans are, in nanoseconds.
pub proof fn law_how_long_spans_are(
    secs: u64,
    rest: u32,
    by_secs: Duration,
    by_millis: Duration,
    by_micros: Duration,
    by_both: Duration,
    none: Duration,
)
    requires
        rest < 1_000_000_000,
        call_ensures(Duration::from_secs, (secs,), by_secs),
        call_ensures(Duration::from_millis, (secs,), by_millis),
        call_ensures(Duration::from_micros, (secs,), by_micros),
        call_ensures(Duration::new, (secs, rest), by_both),
        call_ensures(Duration::zero, (), none),
    ensures
        none@ == 0,
        by_micros@ == secs * 1_000,
        by_millis@ == by_micros@ * 1_000,
        by_secs@ == by_millis@ * 1_000,
        by_both@ == by_secs@ + rest,
{
}

/// What is told of a span.
pub proof fn law_what_a_span_tells(
    span: Duration,
    nanos: u128,
    micros: u128,
    empty: bool,
    same: Duration,
)
    requires
        call_ensures(Duration::as_nanos, (&span,), nanos),
        call_ensures(Duration::as_micros, (&span,), micros),
        call_ensures(Duration::is_zero, (&span,), empty),
        call_ensures(Duration::from_nanos_saturating, (nanos,), same),
    ensures
        nanos == span@,
        micros * 1_000 <= nanos < (micros + 1) * 1_000,
        empty <==> nanos == 0,
        same@ == span@,
{
}

/// A number of nanoseconds that a span cannot hold gives the longest span, of 2^64 seconds but for
/// one nanosecond; every other number gives its span.
pub proof fn law_the_longest_span(nanos: u128, span: Duration)
    requires
        call_ensures(Duration::from_nanos_saturating, (nanos,), span),
    ensures
        span@ <= nanos,
        nanos < 0x1_0000_0000_0000_0000 * 1_000_000_000 ==> span@ == nanos,
        nanos >= 0x1_0000_0000_0000_0000 * 1_000_000_000 ==> span@ + 1 == 0x1_0000_0000_0000_0000
            * 1_000_000_000,
{
}

/// The shorter of two spans is one of them and no longer than either.
pub proof fn law_which_span_is_shorter(
    a: Duration,
    b: Duration,
    shorter: Duration,
    strictly: bool,
)
    requires
        call_ensures(Duration::shorter, (a, b), shorter),
        call_ensures(Duration::is_shorter_than, (&a, &b), strictly),
    ensures
        shorter == a || shorter == b,
        shorter@ <= a@ && shorter@ <= b@,
        strictly <==> a@ < b@,
        strictly ==> shorter == a,
{
}

/// Two points in time lie as far apart as the spans since the origin do; a point that is not
/// earlier lies no span back.
pub proof fn law_how_far_points_lie_apart(
    a: Duration,
    b: Duration,
    early: Instant,
    late: Instant,
    nanos: u128,
    since: Duration,
    backward: Duration,
)
    requires
        a@ <= b@,
        call_ensures(Instant::at, (a,), early),
        call_ensures(Instant::at, (b,), late),
        call_ensures(Instant::as_nanos, (&late,), nanos),
        call_ensures(Instant::saturating_since, (&late, &early), since),
        call_ensures(Instant::saturating_since, (&early, &late), backward),
    ensures
        nanos == b@,
        a@ + since@ == b@,
        backward@ == 0,
{
}

} // verus!
