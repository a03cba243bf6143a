//! How long a written duration is, as far as it takes to tell those apart that come to the first
//! second beyond what a duration holds.
//!
//! A duration is written as numbers, each with a unit behind it, such as `1h 30.5min`.
use vstd::prelude::*;
use vstd::string::*;

use crate::scan;

verus! {

/// The shortest span that a duration does not hold, in nanoseconds: 2^64 seconds.
pub const SPAN_LIMIT: u128 = 18_446_744_073_709_551_616_000_000_000;

/// True of the characters that units are written with.
pub open spec fn is_letter(c: char) -> bool {
    ('a' <= c && c <= 'z') || ('A' <= c && c <= 'Z') || c == '\u{b5}'
}

/// The length of a unit in nanoseconds, told by its first letters: `n`anoseconds, `u`s, `ms` or
/// `mil`lis, `s`econds, `m`inutes, `h`ours, `d`ays, `w`eeks, `mo`nths or `M`, `y`ears.
pub open spec fn unit_nanos(unit: Seq<char>) -> nat {
    let second = 1_000_000_000nat;
    if unit[0] == 'n' {
        1
    } else if unit[0] == 'u' || unit[0] == '\u{b5}' {
        1_000
    } else if unit[0] == 'm' {
        if unit.len() > 1 && unit[1] == 's' {
            1_000_000
        } else if unit.len() > 2 && unit[1] == 'i' && unit[2] == 'l' {
            1_000_000
        } else if unit.len() > 1 && unit[1] == 'o' {
            2_630_016 * second
        } else {
            60 * second
        }
    } else if unit[0] == 's' {
        second
    } else if unit[0] == 'h' {
        3_600 * second
    } else if unit[0] == 'd' {
        86_400 * second
    } else if unit[0] == 'w' {
        604_800 * second
    } else if unit[0] == 'M' {
        2_630_016 * second
    } else {
        31_557_600 * second
    }
}

/// The largest scale that a fraction is read with: more digits are not taken in.
pub const SCALE_LIMIT: u128 = 10_000_000_000_000_000_000;

/// What the front of a written duration says.
#[verifier::ext_equal]
pub struct SpanReading {
    /// The number that is being read, without its fraction.
    pub whole: nat,
    /// Whether it has a fraction.
    pub fraction: bool,
    /// The digits of its fraction, as a number.
    pub numerator: nat,
    /// What the digits of its fraction count: tenths, hundredths and so on.
    pub scale: nat,
    /// The unit behind it, as far as it was read.
    pub unit: Seq<char>,
    /// What the numbers before it come to, in nanoseconds.
    pub sum: nat,
    /// Whether some of the numbers, from the front, come to [`SPAN_LIMIT`] exactly, by nanoseconds
    /// that fill up the second below it.
    pub at_limit: bool,
}

/// True where a sum grows from within the second below [`SPAN_LIMIT`] to that limit.
pub open spec fn fills(before: nat, after: nat) -> bool {
    SPAN_LIMIT - 1_000_000_000 <= before < SPAN_LIMIT && after == SPAN_LIMIT
}

impl SpanReading {
    /// Nothing read yet.
    pub open spec fn nothing() -> SpanReading {
        SpanReading {
            whole: 0,
            fraction: false,
            numerator: 0,
            scale: 1,
            unit: Seq::empty(),
            sum: 0,
            at_limit: false,
        }
    }

    /// The fraction in nanoseconds, rounded down.
    pub open spec fn fraction_nanos(self) -> nat {
        if self.scale <= SCALE_LIMIT {
            self.numerator * unit_nanos(self.unit) / self.scale
        } else {
            0
        }
    }

    /// The reading where the number, if it has a unit, ends. What is longer than a second is added
    /// in whole seconds, which fill nothing up: so are the number in seconds and longer units, and
    /// a fraction in hours and longer units. A fraction that is no whole number of nanoseconds is
    /// no fraction of a duration.
    pub open spec fn ended(self) -> SpanReading {
        if self.unit.len() == 0 {
            self
        } else {
            let unit = unit_nanos(self.unit);
            let middle = self.sum + self.whole * unit;
            let sum = middle + self.fraction_nanos();
            SpanReading {
                sum,
                at_limit: {
                    ||| self.at_limit
                    ||| unit < 1_000_000_000 && fills(self.sum, middle)
                    ||| unit <= 60_000_000_000 && fills(middle, sum) && self.fraction_nanos()
                        * self.scale == self.numerator * unit
                },
                ..SpanReading::nothing()
            }
        }
    }

    /// The reading with one more character.
    pub open spec fn with(self, c: char) -> SpanReading {
        if is_letter(c) {
            SpanReading { unit: self.unit.push(c), ..self }
        } else {
            let next = self.ended();
            if c == '.' {
                SpanReading { fraction: true, ..next }
            } else if scan::is_digit(c) && next.fraction {
                SpanReading {
                    numerator: next.numerator * 10 + (c as nat - '0' as nat) as nat,
                    scale: next.scale * 10,
                    ..next
                }
            } else if scan::is_digit(c) {
                SpanReading { whole: next.whole * 10 + (c as nat - '0' as nat) as nat, ..next }
            } else {
                next
            }
        }
    }
}

/// The reading of a text.
pub open spec fn reading(text: Seq<char>) -> SpanReading
    decreases text.len(),
{
    if text.len() == 0 {
        SpanReading::nothing()
    } else {
        reading(text.drop_last()).with(text.last())
    }
}

/// True of a duration whose first numbers come to [`SPAN_LIMIT`] exactly, where those before the
/// last step come to less than a second below it, and the last step, counted in nanoseconds, fills
/// that second: a number in a unit shorter than a second, or the fraction of one in minutes or a
/// shorter unit.
pub open spec fn touches_limit(text: Seq<char>) -> bool {
    reading(text).ended().at_limit
}

/// `n`, or the first number beyond [`SPAN_LIMIT`] where it is larger.
spec fn capped(n: nat) -> nat {
    if n <= SPAN_LIMIT {
        n
    } else {
        (SPAN_LIMIT + 1) as nat
    }
}

fn unit_length(unit: &Vec<char>) -> (r: u128)
    requires
        unit@.len() > 0,
    ensures
        r == unit_nanos(unit@),
        0 < r <= 31_557_600_000_000_000,
{
    let second: u128 = 1_000_000_000;
    let first = unit[0];
    if first == 'n' {
        1
    } else if first == 'u' || first == '\u{b5}' {
        1_000
    } else if first == 'm' {
        if unit.len() > 1 && unit[1] == 's' {
            1_000_000
        } else if unit.len() > 2 && unit[1] == 'i' && unit[2] == 'l' {
            1_000_000
        } else if unit.len() > 1 && unit[1] == 'o' {
            2_630_016 * second
        } else {
            60 * second
        }
    } else if first == 's' {
        second
    } else if first == 'h' {
        3_600 * second
    } else if first == 'd' {
        86_400 * second
    } else if first == 'w' {
        604_800 * second
    } else if first == 'M' {
        2_630_016 * second
    } else {
        31_557_600 * second
    }
}

/// `sum + count * unit` of capped numbers, capped.
fn capped_sum(sum: u128, count: u128, unit: u128) -> (r: u128)
    requires
        sum <= SPAN_LIMIT + 1,
        count <= SPAN_LIMIT + 2,
        0 < unit <= 31_557_600_000_000_000,
    ensures
        r == capped((sum + count * unit) as nat),
{
    if count > SPAN_LIMIT / unit {
        assert(count * unit > SPAN_LIMIT) by (nonlinear_arith)
            requires
                count > SPAN_LIMIT / unit,
                unit > 0,
        ;
        return SPAN_LIMIT + 1;
    }
    assert(count * unit <= SPAN_LIMIT) by (nonlinear_arith)
        requires
            count <= SPAN_LIMIT / unit,
            unit > 0,
    ;
    let total: u128 = sum + count * unit;
    if total <= SPAN_LIMIT {
        total
    } else {
        SPAN_LIMIT + 1
    }
}

proof fn lemma_capped_sum(sum: nat, count: nat, unit: nat)
    requires
        unit > 0,
    ensures
        capped(capped(sum) + capped(count) * unit) == capped(sum + count * unit),
{
    if count > SPAN_LIMIT {
        assert(count * unit > SPAN_LIMIT) by (nonlinear_arith)
            requires
                count > SPAN_LIMIT,
                unit > 0,
        ;
        assert(capped(count) * unit > SPAN_LIMIT) by (nonlinear_arith)
            requires
                capped(count) > SPAN_LIMIT,
                unit > 0,
        ;
    } else {
        assert(count * unit >= 0) by (nonlinear_arith);
    }
}

/// A [`SpanReading`] with capped numbers.
struct Reading {
    whole: u128,
    fraction: bool,
    numerator: u128,
    scale: u128,
    unit: Vec<char>,
    sum: u128,
    at_limit: bool,
}

impl Reading {
    spec fn reads(&self, reading: SpanReading) -> bool {
        &&& self.whole == capped(reading.whole)
        &&& self.fraction == reading.fraction
        &&& if reading.scale <= SCALE_LIMIT {
            &&& self.numerator == reading.numerator
            &&& self.scale == reading.scale
            &&& self.numerator < self.scale
        } else {
            self.scale > SCALE_LIMIT
        }
        &&& self.unit@ == reading.unit
        &&& self.sum == capped(reading.sum)
        &&& self.at_limit == reading.at_limit
    }

    fn nothing() -> (r: Reading)
        ensures
            r.reads(SpanReading::nothing()),
    {
        Reading {
            whole: 0,
            fraction: false,
            numerator: 0,
            scale: 1,
            unit: Vec::new(),
            sum: 0,
            at_limit: false,
        }
    }

    /// The fraction in nanoseconds, rounded down, and whether that is all of it.
    fn fraction_nanos(&self, unit: u128, Ghost(of): Ghost<SpanReading>) -> (r: (u128, bool))
        requires
            self.reads(of),
            unit == unit_nanos(of.unit),
            0 < unit <= 31_557_600_000_000_000,
        ensures
            r.0 == of.fraction_nanos(),
            r.0 <= unit,
            of.scale <= SCALE_LIMIT ==> r.1 == (of.fraction_nanos() * of.scale == of.numerator
                * unit_nanos(of.unit)),
    {
        if self.scale > SCALE_LIMIT {
            return (0, false);
        }
        assert(self.numerator * unit <= SCALE_LIMIT * 31_557_600_000_000_000) by (nonlinear_arith)
            requires
                self.numerator < self.scale <= SCALE_LIMIT,
                0 < unit <= 31_557_600_000_000_000,
        ;
        let dividend: u128 = self.numerator * unit;
        let part: u128 = dividend / self.scale;
        assert(part <= unit && part * self.scale <= dividend) by (nonlinear_arith)
            requires
                part == dividend / self.scale,
                dividend == self.numerator * unit,
                self.numerator < self.scale,
                unit > 0,
        ;
        (part, part * self.scale == dividend)
    }

    fn end(self, Ghost(of): Ghost<SpanReading>) -> (r: Reading)
        requires
            self.reads(of),
        ensures
            r.reads(of.ended()),
    {
        if self.unit.len() == 0 {
            return self;
        }
        let unit: u128 = unit_length(&self.unit);
        let middle: u128 = capped_sum(self.sum, self.whole, unit);
        proof {
            lemma_capped_sum(of.sum, of.whole, unit as nat);
        }
        let (part, exact) = self.fraction_nanos(unit, Ghost(of));
        let sum: u128 = capped_sum(middle, part, 1);
        let second: u128 = 1_000_000_000;
        let by_whole: bool = unit < second && self.sum >= SPAN_LIMIT - second && self.sum
            < SPAN_LIMIT && middle == SPAN_LIMIT;
        let by_part: bool = exact && unit <= 60 * second && middle >= SPAN_LIMIT - second && middle
            < SPAN_LIMIT && sum == SPAN_LIMIT;
        let mut next = Reading::nothing();
        next.sum = sum;
        next.at_limit = self.at_limit || by_whole || by_part;
        next
    }

    fn take(self, c: char, Ghost(of): Ghost<SpanReading>) -> (r: Reading)
        requires
            self.reads(of),
        ensures
            r.reads(of.with(c)),
    {
        if (c >= 'a' && c <= 'z') || (c >= 'A' && c <= 'Z') || c == '\u{b5}' {
            let mut next = self;
            next.unit.push(c);
            return next;
        }
        let mut next = self.end(Ghost(of));
        if c == '.' {
            next.fraction = true;
        } else if c >= '0' && c <= '9' && next.fraction {
            let digit: u128 = (c as u32 - '0' as u32) as u128;
            if next.scale < SCALE_LIMIT {
                next.numerator = next.numerator * 10 + digit;
            }
            if next.scale <= SCALE_LIMIT {
                next.scale = next.scale * 10;
            }
        } else if c >= '0' && c <= '9' {
            let digit: u128 = (c as u32 - '0' as u32) as u128;
            let whole: u128 = next.whole * 10 + digit;
            next.whole = if whole <= SPAN_LIMIT {
                whole
            } else {
                SPAN_LIMIT + 1
            };
        }
        next
    }
}

/// Tells whether the first numbers of a duration come to [`SPAN_LIMIT`] exactly; see
/// [`touches_limit`].
pub fn may_touch_limit(text: &str) -> (r: bool)
    ensures
        r == touches_limit(text@),
{
    let n: usize = text.unicode_len();
    let mut front = Reading::nothing();
    let mut i: usize = 0;
    while i < n
        invariant
            i <= n,
            n == text@.len(),
            front.reads(reading(text@.take(i as int))),
        decreases n - i,
    {
        assert(text@.take(i + 1).drop_last() =~= text@.take(i as int));
        front = front.take(text.get_char(i), Ghost(reading(text@.take(i as int))));
        i = i + 1;
    }
    assert(text@.take(n as int) =~= text@);
    front.end(Ghost(reading(text@))).at_limit
}

/// How long the units are, told by their first letters.
pub proof fn law_how_long_units_are(unit: Seq<char>)
    requires
        unit.len() > 0,
    ensures
        unit[0] == 'n' ==> unit_nanos(unit) == 1,
        unit[0] == 'u' || unit[0] == '\u{b5}' ==> unit_nanos(unit) == 1_000,
        unit[0] == 's' ==> unit_nanos(unit) == 1_000_000_000,
        unit[0] == 'h' ==> unit_nanos(unit) == 3_600_000_000_000,
        unit[0] == 'd' ==> unit_nanos(unit) == 86_400_000_000_000,
        unit[0] == 'w' ==> unit_nanos(unit) == 604_800_000_000_000,
        unit[0] == 'M' ==> unit_nanos(unit) == 2_630_016_000_000_000,
        unit[0] == 'y' ==> unit_nanos(unit) == 31_557_600_000_000_000,
        unit.len() > 1 && unit[0] == 'm' && unit[1] == 's' ==> unit_nanos(unit) == 1_000_000,
        unit.len() > 2 && unit[0] == 'm' && unit[1] == 'i' && unit[2] == 'l' ==> unit_nanos(unit)
            == 1_000_000,
        unit.len() > 1 && unit[0] == 'm' && unit[1] == 'o' ==> unit_nanos(unit)
            == 2_630_016_000_000_000,
        unit.len() == 1 && unit[0] == 'm' ==> unit_nanos(unit) == 60_000_000_000,
        unit.len() > 2 && unit[0] == 'm' && unit[1] == 'i' && unit[2] == 'n' ==> unit_nanos(unit)
            == 60_000_000_000,
{
}

proof fn lemma_short_sum(text: Seq<char>)
    requires
        forall|i: int| 0 <= i < text.len() ==> !is_letter(#[trigger] text[i]),
    ensures
        reading(text).unit.len() == 0,
        reading(text).sum == 0,
        !reading(text).at_limit,
    decreases text.len(),
{
    if text.len() > 0 {
        let front = text.drop_last();
        assert forall|i: int| 0 <= i < front.len() implies !is_letter(#[trigger] front[i]) by {
            assert(front[i] == text[i]);
        }
        lemma_short_sum(front);
        assert(!is_letter(text[text.len() - 1]));
    }
}

/// A text without a unit comes to nothing, and so to no limit; and one more character that is part
/// of no unit changes nothing about it.
pub proof fn law_only_units_come_to_a_limit(
    bare: &str,
    bare_touches: bool,
    front: &str,
    touches: bool,
    longer: &str,
    still: bool,
    c: char,
)
    requires
        forall|i: int| 0 <= i < bare@.len() ==> !is_letter(#[trigger] bare@[i]),
        call_ensures(may_touch_limit, (bare,), bare_touches),
        !is_letter(c),
        longer@ == front@.push(c),
        call_ensures(may_touch_limit, (front,), touches),
        call_ensures(may_touch_limit, (longer,), still),
    ensures
        !bare_touches,
        still == touches,
{
    lemma_short_sum(bare@);
    assert(longer@.drop_last() =~= front@);
    assert(longer@.last() == c);
}

proof fn lemma_reading_digits(front: Seq<char>, digits: Seq<char>)
    requires
        scan::only_digits(digits),
        !reading(front).ended().fraction,
        reading(front).ended().whole == 0,
        reading(front).ended().unit.len() == 0,
    ensures
        reading(front + digits) == (SpanReading {
            whole: scan::digits_value(digits),
            ..reading(front).ended()
        }),
    decreases digits.len(),
{
    let whole = front + digits;
    let c = digits.last();
    assert(scan::is_digit(digits[digits.len() - 1]));
    assert(whole.last() == c);
    assert(whole.drop_last() =~= front + digits.drop_last());
    if digits.len() == 1 {
        assert(digits.drop_last() =~= Seq::empty());
        assert(front + digits.drop_last() =~= front);
        assert(scan::digits_value(digits.drop_last()) == 0);
    } else {
        let fewer = digits.drop_last();
        assert forall|i: int| 0 <= i < fewer.len() implies scan::is_digit(#[trigger] fewer[i]) by {
            assert(fewer[i] == digits[i]);
        }
        lemma_reading_digits(front, fewer);
    }
}

proof fn lemma_no_fraction(at: SpanReading)
    requires
        at.numerator == 0,
        at.scale == 1,
    ensures
        at.fraction_nanos() == 0,
{
    assert(at.numerator * unit_nanos(at.unit) / at.scale == 0) by (nonlinear_arith)
        requires
            at.numerator == 0,
            at.scale == 1,
    ;
}

proof fn lemma_seconds(secs: u64, digits: Seq<char>)
    requires
        digits == crate::text::spec_decimal(secs as nat),
    ensures
        reading(digits + seq!['s']).ended() == (SpanReading {
            sum: (secs * 1_000_000_000) as nat,
            ..SpanReading::nothing()
        }),
{
    scan::lemma_decimal(secs as nat);
    let none = Seq::<char>::empty();
    lemma_reading_digits(none, digits);
    assert(none + digits =~= digits);
    let front = digits + seq!['s'];
    assert(front.drop_last() =~= digits);
    assert(front.last() == 's');
    let at = reading(front);
    assert(at.unit =~= seq!['s']);
    lemma_no_fraction(at);
    assert(unit_nanos(at.unit) == 1_000_000_000);
    assert(at.sum + at.whole * unit_nanos(at.unit) == secs * 1_000_000_000);
    assert(!fills((secs * 1_000_000_000) as nat, (secs * 1_000_000_000) as nat));
}

proof fn lemma_nanoseconds(front: Seq<char>, sum: nat, nanos: u64, digits: Seq<char>)
    requires
        reading(front).ended() == (SpanReading { sum, ..SpanReading::nothing() }),
        digits == crate::text::spec_decimal(nanos as nat),
    ensures
        reading(front + digits + seq!['n', 's']).ended().at_limit == fills(sum, sum + nanos as nat),
{
    scan::lemma_decimal(nanos as nat);
    lemma_reading_digits(front, digits);
    let b = front + digits;
    let c = b + seq!['n'];
    let d = b + seq!['n', 's'];
    assert(c.drop_last() =~= b);
    assert(c.last() == 'n');
    assert(d.drop_last() =~= c);
    assert(d.last() == 's');
    assert(reading(c) == reading(b).with('n'));
    let at = reading(d);
    assert(at == reading(c).with('s'));
    assert(at.unit =~= seq!['n', 's']);
    lemma_no_fraction(at);
    assert(unit_nanos(at.unit) == 1);
    assert(at.sum + at.whole * unit_nanos(at.unit) == sum + nanos);
    assert(!fills(sum + nanos as nat, sum + nanos as nat));
}

/// A number of seconds and one of nanoseconds come to the limit exactly where the seconds are all
/// that there are and the nanoseconds fill up one more.
pub proof fn law_seconds_and_nanoseconds_at_the_limit(
    secs: u64,
    nanos: u64,
    whole: String,
    rest: String,
    text: &str,
    touches: bool,
)
    requires
        call_ensures(crate::text::decimal_text, (secs,), whole),
        call_ensures(crate::text::decimal_text, (nanos,), rest),
        text@ == whole@ + seq!['s'] + rest@ + seq!['n', 's'],
        call_ensures(may_touch_limit, (text,), touches),
    ensures
        touches <==> secs == u64::MAX && nanos == 1_000_000_000,
{
    lemma_seconds(secs, whole@);
    lemma_nanoseconds(whole@ + seq!['s'], (secs * 1_000_000_000) as nat, nanos, rest@);
}

/// Where the last number of a text comes to the limit: within the second below 2^64 seconds before,
/// and at it behind, by a number in a unit shorter than a second, or by a fraction of a whole number
/// of nanoseconds in a unit of a minute at most.
pub proof fn law_where_the_last_number_touches(text: &str, touches: bool, at: SpanReading)
    requires
        call_ensures(may_touch_limit, (text,), touches),
        at == reading(text@),
        at.unit.len() > 0,
        !at.at_limit,
        0 < at.scale <= 10_000_000_000_000_000_000,
    ensures
        ({
            let unit = unit_nanos(at.unit);
            let limit = 0x1_0000_0000_0000_0000 * 1_000_000_000;
            let middle = at.sum + at.whole * unit;
            let part = at.numerator * unit / at.scale;
            touches <==> {
                ||| unit < 1_000_000_000 && limit - 1_000_000_000 <= at.sum < limit && middle
                    == limit
                ||| unit <= 60_000_000_000 && limit - 1_000_000_000 <= middle < limit && middle
                    + part == limit && part * at.scale == at.numerator * unit
            }
        }),
{
}

/// How the number that is being read grows, character by character: digits by tens, in front of the
/// point and behind it, and letters into its unit.
pub proof fn law_how_a_number_is_read(front: Seq<char>, c: char)
    requires
        reading(front).unit.len() == 0,
    ensures
        ({
            let before = reading(front);
            let after = reading(front.push(c));
            &&& after.sum == before.sum && after.at_limit == before.at_limit
            &&& '0' <= c <= '9' && !before.fraction ==> after.whole == before.whole * 10 + (c as int
                - '0' as int) && after.numerator == before.numerator && after.scale == before.scale
            &&& '0' <= c <= '9' && before.fraction ==> after.whole == before.whole
                && after.numerator == before.numerator * 10 + (c as int - '0' as int)
                && after.scale == before.scale * 10
            &&& c == '.' ==> after.fraction && after.whole == before.whole && after.numerator
                == before.numerator && after.scale == before.scale
            &&& c != '.' ==> after.fraction == before.fraction
            &&& ('a' <= c <= 'z') || ('A' <= c <= 'Z') || c == '\u{b5}' ==> after.unit == seq![c]
                && after.whole == before.whole
        }),
{
    assert(front.push(c).drop_last() =~= front);
    assert(front.push(c).last() == c);
    assert(Seq::<char>::empty().push(c) =~= seq![c]);
    if is_letter(c) {
        assert(reading(front).unit =~= Seq::<char>::empty());
    }
}

} // verus!
