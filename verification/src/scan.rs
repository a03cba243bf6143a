//! Taking text apart: splitting, trimming, and reading numbers.
use vstd::prelude::*;
use vstd::string::*;

use crate::text;

verus! {

/// Where `sep` first stands in `text`; the length where it does not.
pub open spec fn find(text: Seq<char>, sep: char) -> nat
    decreases text.len(),
{
    if text.len() == 0 || text[0] == sep {
        0
    } else {
        1 + find(text.skip(1), sep)
    }
}

/// The pieces of `text` between the places where `sep` stands.
pub open spec fn pieces(text: Seq<char>, sep: char) -> Seq<Seq<char>>
    decreases text.len(),
{
    let n = find(text, sep);
    if n >= text.len() {
        seq![text]
    } else {
        seq![text.take(n as int)] + pieces(text.skip(n + 1int), sep)
    }
}

/// The separator does not stand before the place that `find` gives, and stands there where that is
/// in the text.
pub proof fn lemma_find(text: Seq<char>, sep: char)
    ensures
        find(text, sep) <= text.len(),
        forall|i: int| 0 <= i < find(text, sep) ==> text[i] != sep,
        find(text, sep) < text.len() ==> text[find(text, sep) as int] == sep,
    decreases text.len(),
{
    if text.len() > 0 && text[0] != sep {
        let rest = text.skip(1);
        lemma_find(rest, sep);
        assert forall|i: int| 0 <= i < find(text, sep) implies text[i] != sep by {
            if i > 0 {
                assert(rest[i - 1] == text[i]);
            }
        }
    }
}

/// Splitting loses nothing: no piece holds the separator, and the pieces with separators between
/// them are the text.
pub proof fn law_pieces_make_the_text(text: Seq<char>, sep: char)
    ensures
        pieces(text, sep).len() > 0,
        forall|i: int|
            0 <= i < pieces(text, sep).len() ==> !(#[trigger] pieces(text, sep)[i]).contains(sep),
        text::with_between(pieces(text, sep), seq![sep]) == text,
    decreases text.len(),
{
    lemma_find(text, sep);
    let n = find(text, sep);
    let all = pieces(text, sep);
    if n >= text.len() {
        assert(all[0] == text);
        assert(all.drop_first().len() == 0);
        assert(text::with_between(all, seq![sep]) == text);
    } else {
        let rest = text.skip(n + 1int);
        law_pieces_make_the_text(rest, sep);
        let tail = pieces(rest, sep);
        assert(all == seq![text.take(n as int)] + tail);
        assert forall|i: int| 0 <= i < all.len() implies !(#[trigger] all[i]).contains(sep) by {
            if i > 0 {
                assert(all[i] == tail[i - 1]);
            }
        }
        assert(all.drop_first() =~= tail);
        assert(text::with_between(all, seq![sep]) =~= text.take(n as int) + seq![sep] + rest);
        assert(text.take(n as int) + seq![sep] + rest =~= text);
    }
}

/// Where `sep` first stands in `text` from `from` on; the length where it does not.
fn find_from(text: &str, from: usize, sep: char) -> (r: usize)
    requires
        from <= text@.len(),
    ensures
        from <= r <= text@.len(),
        r == from + find(text@.skip(from as int), sep),
{
    let n: usize = text.unicode_len();
    let mut i: usize = from;
    while i < n
        invariant
            from <= i <= n,
            n == text@.len(),
            find(text@.skip(from as int), sep) == (i - from) + find(text@.skip(i as int), sep),
        decreases n - i,
    {
        if text.get_char(i) == sep {
            assert(text@.skip(i as int)[0] == sep);
            return i;
        }
        assert(text@.skip(i as int).skip(1) =~= text@.skip(i + 1));
        i = i + 1;
    }
    i
}

/// The pieces of `text` between the places where `sep` stands.
pub fn split(text: &str, sep: char) -> (r: Vec<String>)
    ensures
        text::views(r@) == pieces(text@, sep),
{
    let n: usize = text.unicode_len();
    let mut out: Vec<String> = Vec::new();
    let mut from: usize = 0;
    assert(text@.skip(0) =~= text@);
    assert(text::views(out@) + pieces(text@, sep) =~= pieces(text@, sep));
    loop
        invariant_except_break
            pieces(text@, sep) == text::views(out@) + pieces(text@.skip(from as int), sep),
        invariant
            from <= n,
            n == text@.len(),
        ensures
            text::views(out@) == pieces(text@, sep),
        decreases n - from,
    {
        let at: usize = find_from(text, from, sep);
        let piece = String::from_str(text.substring_char(from, at));
        let ghost rest = text@.skip(from as int);
        let ghost before = text::views(out@);
        proof {
            text::lemma_views_push(out@, piece);
            assert(piece@ =~= rest.take(at - from));
        }
        out.push(piece);
        if at == n {
            assert(rest.take(at - from) =~= rest);
            assert(before + seq![rest] =~= before.push(rest));
            break;
        }
        assert(rest.skip(at - from + 1) =~= text@.skip(at + 1));
        assert(before + (seq![rest.take(at - from)] + pieces(text@.skip(at + 1), sep))
            =~= before.push(rest.take(at - from)) + pieces(text@.skip(at + 1), sep));
        from = at + 1;
    }
    out
}

/// What stands before and behind the first `sep`; `None` where it does not stand in `text`.
pub fn split_once(text: &str, sep: char) -> (r: Option<(String, String)>)
    ensures
        match r {
            Some((before, behind)) => text@.contains(sep) && before@ == text@.take(
                find(text@, sep) as int,
            ) && behind@ == text@.skip(find(text@, sep) + 1int),
            None => !text@.contains(sep),
        },
{
    let n: usize = text.unicode_len();
    let at: usize = find_from(text, 0, sep);
    proof {
        assert(text@.skip(0) =~= text@);
        lemma_find(text@, sep);
    }
    if at == n {
        None
    } else {
        assert(text@[at as int] == sep);
        let before = String::from_str(text.substring_char(0, at));
        let behind = String::from_str(text.substring_char(at + 1, n));
        assert(before@ =~= text@.take(at as int));
        assert(behind@ =~= text@.skip(at + 1));
        Some((before, behind))
    }
}

/// True of the characters with the Unicode property `White_Space`.
pub open spec fn is_white(c: char) -> bool {
    let n = c as u32;
    ||| 0x09 <= n <= 0x0d
    ||| n == 0x20 || n == 0x85 || n == 0xa0 || n == 0x1680
    ||| 0x2000 <= n <= 0x200a
    ||| n == 0x2028 || n == 0x2029 || n == 0x202f || n == 0x205f || n == 0x3000
}

/// Tells whether a character has the Unicode property `White_Space`.
pub fn whitespace(c: char) -> (r: bool)
    ensures
        r == is_white(c),
{
    let n: u32 = c as u32;
    (n >= 0x09 && n <= 0x0d) || n == 0x20 || n == 0x85 || n == 0xa0 || n == 0x1680 || (n >= 0x2000
        && n <= 0x200a) || n == 0x2028 || n == 0x2029 || n == 0x202f || n == 0x205f || n == 0x3000
}

/// The text without white space in front.
pub open spec fn trimmed_start(text: Seq<char>) -> Seq<char>
    decreases text.len(),
{
    if text.len() > 0 && is_white(text[0]) {
        trimmed_start(text.skip(1))
    } else {
        text
    }
}

/// The text without white space at the end.
pub open spec fn trimmed_end(text: Seq<char>) -> Seq<char>
    decreases text.len(),
{
    if text.len() > 0 && is_white(text.last()) {
        trimmed_end(text.drop_last())
    } else {
        text
    }
}

/// The text without white space in front and at the end.
pub open spec fn trimmed(text: Seq<char>) -> Seq<char> {
    trimmed_end(trimmed_start(text))
}

/// The text without white space in front and at the end.
pub fn trim(text: &str) -> (r: String)
    ensures
        r@ == trimmed(text@),
{
    let n: usize = text.unicode_len();
    let mut i: usize = 0;
    assert(text@.skip(0) =~= text@);
    while i < n && whitespace(text.get_char(i))
        invariant
            i <= n,
            n == text@.len(),
            trimmed_start(text@) == trimmed_start(text@.skip(i as int)),
        decreases n - i,
    {
        assert(text@.skip(i as int).skip(1) =~= text@.skip(i + 1));
        i = i + 1;
    }
    let ghost start = text@.skip(i as int);
    assert(trimmed_start(text@) == start);
    let mut j: usize = n;
    assert(text@.subrange(i as int, n as int) =~= start);
    while i < j && whitespace(text.get_char(j - 1))
        invariant
            i <= j <= n,
            n == text@.len(),
            trimmed_end(start) == trimmed_end(text@.subrange(i as int, j as int)),
        decreases j,
    {
        assert(text@.subrange(i as int, j as int).drop_last() =~= text@.subrange(
            i as int,
            j - 1,
        ));
        j = j - 1;
    }
    String::from_str(text.substring_char(i, j))
}

/// True of the ten ASCII digits.
pub open spec fn is_digit(c: char) -> bool {
    '0' <= c && c <= '9'
}

/// What digits say in base ten.
pub open spec fn digits_value(digits: Seq<char>) -> nat
    decreases digits.len(),
{
    if digits.len() == 0 {
        0
    } else {
        digits_value(digits.drop_last()) * 10 + (digits.last() as nat - '0' as nat) as nat
    }
}

/// At least one digit and nothing else.
pub open spec fn only_digits(text: Seq<char>) -> bool {
    text.len() > 0 && forall|i: int| 0 <= i < text.len() ==> is_digit(#[trigger] text[i])
}

/// The text without the one `+` that may stand in front.
pub open spec fn unsigned(text: Seq<char>) -> Seq<char> {
    if text.len() > 0 && text[0] == '+' {
        text.skip(1)
    } else {
        text
    }
}

/// The number that a text writes: digits and nothing else, but for one `+` that may stand in front.
pub open spec fn written_number(text: Seq<char>) -> Option<nat> {
    if only_digits(unsigned(text)) {
        Some(digits_value(unsigned(text)))
    } else {
        None
    }
}

/// More digits make no smaller number.
proof fn lemma_digits_grow(digits: Seq<char>, n: int)
    requires
        0 <= n <= digits.len(),
    ensures
        digits_value(digits.take(n)) <= digits_value(digits),
    decreases digits.len(),
{
    if n == digits.len() {
        assert(digits.take(n) =~= digits);
    } else {
        lemma_digits_grow(digits.drop_last(), n);
        assert(digits.drop_last().take(n) =~= digits.take(n));
    }
}

/// Why a text is not read as a number of 64 bits.
#[derive(Clone, Copy, Debug, PartialEq, Eq, Structural)]
pub enum NumberFault {
    /// There is nothing to read.
    Empty,
    /// Something else than a digit stands where a digit should, or no digit at all.
    InvalidDigit,
    /// The digits at the front already come to more than 64 bits hold.
    TooLarge,
}

impl NumberFault {
    /// The fault in words.
    pub open spec fn spec_text(self) -> Seq<char> {
        match self {
            NumberFault::Empty => "cannot parse integer from empty string"@,
            NumberFault::InvalidDigit => "invalid digit found in string"@,
            NumberFault::TooLarge => "number too large to fit in target type"@,
        }
    }

    /// The fault in words.
    pub fn text(&self) -> (r: String)
        ensures
            r@ == self.spec_text(),
    {
        match self {
            NumberFault::Empty => String::from_str("cannot parse integer from empty string"),
            NumberFault::InvalidDigit => String::from_str("invalid digit found in string"),
            NumberFault::TooLarge => String::from_str("number too large to fit in target type"),
        }
    }
}

/// True of a text whose first `n` characters are digits that come to more than 64 bits hold.
pub open spec fn outgrown(digits: Seq<char>, n: int) -> bool {
    0 < n <= digits.len() && only_digits(digits.take(n)) && digits_value(digits.take(n)) > u64::MAX
}

/// What a text is as a number of 64 bits, or why it is none. It is read from the front, so digits
/// that come to too much are found before anything behind them.
pub open spec fn spec_read_u64(text: Seq<char>) -> Result<u64, NumberFault> {
    if text.len() == 0 {
        Err(NumberFault::Empty)
    } else if exists|n: int| #[trigger] outgrown(unsigned(text), n) {
        Err(NumberFault::TooLarge)
    } else if written_number(text) is None {
        Err(NumberFault::InvalidDigit)
    } else {
        Ok(written_number(text)->0 as u64)
    }
}

/// A text is read as the number that it writes, where that fits.
pub proof fn law_fitting_numbers_are_read(text: Seq<char>)
    ensures
        match spec_read_u64(text) {
            Ok(n) => written_number(text) == Some(n as nat),
            Err(_) => written_number(text) is None || written_number(text)->0 > u64::MAX,
        },
{
    let digits = unsigned(text);
    assert(digits.take(digits.len() as int) =~= digits);
    if exists|n: int| #[trigger] outgrown(digits, n) {
        let n = choose|n: int| #[trigger] outgrown(digits, n);
        lemma_digits_grow(digits, n);
    } else {
        assert(!outgrown(digits, digits.len() as int));
    }
}

/// Reads a number of 64 bits.
pub fn read_u64(text: &str) -> (r: Result<u64, NumberFault>)
    ensures
        r == spec_read_u64(text@),
{
    let n: usize = text.unicode_len();
    if n == 0 {
        return Err(NumberFault::Empty);
    }
    let from: usize = if text.get_char(0) == '+' {
        1
    } else {
        0
    };
    let ghost digits = unsigned(text@);
    assert(digits =~= text@.skip(from as int));
    let mut i: usize = from;
    let mut value: u64 = 0;
    while i < n
        invariant
            from <= i <= n,
            0 < n == text@.len(),
            digits == unsigned(text@),
            digits == text@.skip(from as int),
            forall|j: int| 0 <= j < i - from ==> is_digit(#[trigger] digits[j]),
            value == digits_value(digits.take(i - from)),
        decreases n - i,
    {
        let c = text.get_char(i);
        assert(digits[i - from] == c);
        if c < '0' || c > '9' {
            assert forall|k: int| !#[trigger] outgrown(digits, k) by {
                let front = digits.take(i - from);
                if 0 < k <= digits.len() {
                    if k <= i - from {
                        lemma_digits_grow(front, k);
                        assert(front.take(k) =~= digits.take(k));
                    } else {
                        assert(digits.take(k)[i - from] == c);
                    }
                }
            }
            return Err(NumberFault::InvalidDigit);
        }
        let digit: u64 = (c as u32 - '0' as u32) as u64;
        let ghost next = digits.take(i - from + 1);
        assert(next.drop_last() =~= digits.take(i - from));
        assert(digits_value(next) == value * 10 + digit);
        let wide: u128 = value as u128 * 10 + digit as u128;
        if wide > u64::MAX as u128 {
            assert(outgrown(digits, i - from + 1));
            return Err(NumberFault::TooLarge);
        }
        value = wide as u64;
        i = i + 1;
    }
    assert(digits.take(n - from) =~= digits);
    assert forall|k: int| !#[trigger] outgrown(digits, k) by {
        if 0 < k <= digits.len() {
            lemma_digits_grow(digits, k);
        }
    }
    if from == n {
        return Err(NumberFault::InvalidDigit);
    }
    Ok(value)
}

/// A number in decimal is digits that say the number.
pub proof fn lemma_decimal(n: nat)
    ensures
        only_digits(text::spec_decimal(n)),
        digits_value(text::spec_decimal(n)) == n,
        n > 0 ==> text::spec_decimal(n)[0] != '0',
        n < 10 ==> text::spec_decimal(n).len() == 1,
    decreases n,
{
    let digits = text::spec_decimal(n);
    if n < 10 {
        assert(digits.drop_last() =~= Seq::empty());
        assert(digits_value(digits.drop_last()) == 0);
    } else {
        lemma_decimal(n / 10);
        assert(digits.drop_last() =~= text::spec_decimal(n / 10));
        assert(digits[0] == text::spec_decimal(n / 10)[0]);
    }
}

/// A number that is written out is read back as it was. It is written with the ten digits alone, and
/// none but the number zero begins with a zero.
pub proof fn law_a_written_number_is_read_back(
    n: u64,
    written: String,
    given: &str,
    read: Result<u64, NumberFault>,
)
    requires
        call_ensures(text::decimal_text, (n,), written),
        given@ == written@,
        call_ensures(read_u64, (given,), read),
    ensures
        read == Ok::<u64, NumberFault>(n),
        forall|i: int| 0 <= i < written@.len() ==> '0' <= (#[trigger] written@[i]) <= '9',
        n > 0 ==> written@[0] != '0',
        n == 0 ==> written@.len() == 1,
{
    lemma_decimal(n as nat);
    law_fitting_numbers_are_read(written@);
    assert(is_digit(written@[0]));
    assert(unsigned(written@) == written@);
}

/// Reading goes by tens: one more digit makes a number ten times as large, and the digit more. A
/// number that does not fit is too large, and any other character behind it is no digit.
pub proof fn law_numbers_are_read_by_tens(
    front: &str,
    value: u64,
    c: char,
    longer: &str,
    read: Result<u64, NumberFault>,
)
    requires
        call_ensures(read_u64, (front,), Ok::<u64, NumberFault>(value)),
        longer@ == front@.push(c),
        call_ensures(read_u64, (longer,), read),
    ensures
        ({
            let sum = value * 10 + (c as int - '0' as int);
            if '0' <= c <= '9' {
                read == if sum <= u64::MAX {
                    Ok::<u64, NumberFault>(sum as u64)
                } else {
                    Err::<u64, NumberFault>(NumberFault::TooLarge)
                }
            } else {
                read == Err::<u64, NumberFault>(NumberFault::InvalidDigit)
            }
        }),
{
    law_fitting_numbers_are_read(front@);
    let digits = unsigned(front@);
    let more = digits.push(c);
    assert(unsigned(longer@) =~= more);
    assert(more.drop_last() =~= digits);
    assert(more.take(more.len() as int) =~= more);
    assert forall|n: int| 0 < n <= digits.len() implies !#[trigger] outgrown(more, n) by {
        assert(more.take(n) =~= digits.take(n));
        lemma_digits_grow(digits, n);
    }
    if is_digit(c) {
        assert forall|i: int| 0 <= i < more.len() implies is_digit(#[trigger] more[i]) by {
            if i < digits.len() {
                assert(more[i] == digits[i]);
            }
        }
        if value * 10 + (c as int - '0' as int) > u64::MAX {
            assert(outgrown(more, more.len() as int));
        }
    } else {
        assert(more[digits.len() as int] == c);
        assert forall|n: int| !#[trigger] outgrown(more, n) by {
            if n == more.len() {
                assert(more.take(n)[digits.len() as int] == c);
            }
        }
    }
}

/// Which texts begin a number: a digit is its own number, a sign alone is none, and the empty text
/// is reported as such. A number that was read is digits, behind one `+` at most.
pub proof fn law_where_a_number_begins(given: &str, read: Result<u64, NumberFault>)
    requires
        call_ensures(read_u64, (given,), read),
    ensures
        given@.len() == 0 <==> read == Err::<u64, NumberFault>(NumberFault::Empty),
        given@.len() == 1 && '0' <= given@[0] <= '9' ==> read == Ok::<u64, NumberFault>(
            (given@[0] as int - '0' as int) as u64,
        ),
        given@.len() == 1 && !('0' <= given@[0] <= '9') ==> read == Err::<u64, NumberFault>(
            NumberFault::InvalidDigit,
        ),
        given@.len() == 2 && given@[0] == '+' && '0' <= given@[1] <= '9' ==> read == Ok::<
            u64,
            NumberFault,
        >((given@[1] as int - '0' as int) as u64),
        read is Ok ==> forall|i: int|
            0 < i < given@.len() ==> '0' <= (#[trigger] given@[i]) <= '9',
        read is Ok ==> ('0' <= given@[0] <= '9') || (given@[0] == '+' && given@.len() > 1),
{
    law_fitting_numbers_are_read(given@);
    let digits = unsigned(given@);
    if digits.len() == 1 {
        assert(digits.drop_last() =~= Seq::empty());
        assert(digits_value(digits.drop_last()) == 0);
        assert(is_digit(digits[0]) ==> digits_value(digits) <= 9);
        assert forall|n: int| !#[trigger] outgrown(digits, n) by {
            if n == 1 {
                assert(digits.take(n) =~= digits);
            }
        }
        if is_digit(digits[0]) {
            assert(only_digits(digits));
        } else {
            assert(!only_digits(digits));
        }
    }
    if digits.len() == 0 {
        assert forall|n: int| !#[trigger] outgrown(digits, n) by {}
    }
    if read is Ok {
        assert forall|i: int| 0 < i < given@.len() implies '0' <= (#[trigger] given@[i]) <= '9' by {
            if given@[0] == '+' {
                assert(is_digit(digits[i - 1]));
            } else {
                assert(is_digit(digits[i]));
            }
        }
        if given@[0] != '+' {
            assert(is_digit(digits[0]));
        }
    }
}

/// What counts as white space.
pub proof fn law_what_white_space_is(c: char, white: bool)
    requires
        call_ensures(whitespace, (c,), white),
    ensures
        ({
            let n = c as u32;
            white <==> (9 <= n <= 13 || n == 32 || n == 0x85 || n == 0xa0 || n == 0x1680 || 0x2000
                <= n <= 0x200a || n == 0x2028 || n == 0x2029 || n == 0x202f || n == 0x205f || n
                == 0x3000)
        }),
{
}

/// True where one text is the other one between its places `i` and `j`, with nothing but white space
/// outside them.
pub open spec fn cut_between(whole: Seq<char>, part: Seq<char>, i: int, j: int) -> bool {
    &&& 0 <= i <= j <= whole.len()
    &&& part == whole.subrange(i, j)
    &&& forall|k: int| 0 <= k < i || j <= k < whole.len() ==> is_white(#[trigger] whole[k])
}

proof fn lemma_trimmed_start(given: Seq<char>) -> (i: int)
    ensures
        0 <= i <= given.len(),
        trimmed_start(given) == given.skip(i),
        forall|k: int| 0 <= k < i ==> is_white(#[trigger] given[k]),
        i < given.len() ==> !is_white(given[i]),
    decreases given.len(),
{
    if given.len() > 0 && is_white(given[0]) {
        let rest = given.skip(1);
        let i = lemma_trimmed_start(rest);
        assert(rest.skip(i) =~= given.skip(i + 1));
        assert forall|k: int| 0 <= k < i + 1 implies is_white(#[trigger] given[k]) by {
            if k > 0 {
                assert(rest[k - 1] == given[k]);
            }
        }
        if i < rest.len() {
            assert(rest[i] == given[i + 1]);
        }
        i + 1
    } else {
        assert(given.skip(0) =~= given);
        0
    }
}

proof fn lemma_trimmed_end(given: Seq<char>) -> (j: int)
    ensures
        0 <= j <= given.len(),
        trimmed_end(given) == given.take(j),
        forall|k: int| j <= k < given.len() ==> is_white(#[trigger] given[k]),
        j > 0 ==> !is_white(given[j - 1]),
    decreases given.len(),
{
    if given.len() > 0 && is_white(given.last()) {
        let rest = given.drop_last();
        let j = lemma_trimmed_end(rest);
        assert(rest.take(j) =~= given.take(j));
        assert forall|k: int| j <= k < given.len() implies is_white(#[trigger] given[k]) by {
            if k < rest.len() {
                assert(rest[k] == given[k]);
            }
        }
        if j > 0 {
            assert(rest[j - 1] == given[j - 1]);
        }
        j
    } else {
        assert(given.take(given.len() as int) =~= given);
        given.len() as int
    }
}

/// Trimming takes off white space, all of it at both ends, and nothing else: what is left begins and
/// ends with something else, and what was taken off is white space.
pub proof fn law_trimming_takes_off_white_space(given: &str, left: String)
    requires
        call_ensures(trim, (given,), left),
    ensures
        exists|i: int, j: int| #[trigger] cut_between(given@, left@, i, j),
        left@.len() > 0 ==> !is_white(left@[0]) && !is_white(left@.last()),
{
    let i = lemma_trimmed_start(given@);
    let start = given@.skip(i);
    let n = lemma_trimmed_end(start);
    let j = i + n;
    assert(start.take(n) =~= given@.subrange(i, j));
    assert forall|k: int| 0 <= k < i || j <= k < given@.len() implies is_white(
        #[trigger] given@[k],
    ) by {
        if k >= j {
            assert(start[k - i] == given@[k]);
        }
    }
    assert(cut_between(given@, left@, i, j));
}

/// What is split once is whole again with the separator between, and the first half is free of it;
/// nothing is split exactly where the separator does not occur.
pub proof fn law_a_split_is_whole_again(
    given: &str,
    sep: char,
    halves: Option<(String, String)>,
)
    requires
        call_ensures(split_once, (given, sep), halves),
    ensures
        halves is None <==> !given@.contains(sep),
        halves matches Some((before, behind)) ==> before@ + seq![sep] + behind@ == given@
            && !before@.contains(sep),
{
    lemma_find(given@, sep);
    if let Some((before, behind)) = halves {
        let k = choose|k: int| 0 <= k < given@.len() && given@[k] == sep;
        assert(before@ + seq![sep] + behind@ =~= given@);
        assert forall|i: int| 0 <= i < before@.len() implies before@[i] != sep by {
            assert(before@[i] == given@[i]);
        }
    }
}

/// What is split and joined by the separator again is the text as it was; no piece holds the
/// separator.
pub proof fn law_pieces_join_to_the_text(
    given: &str,
    sep: char,
    between: &str,
    pieces: Vec<String>,
    whole: String,
)
    requires
        between@ == seq![sep],
        call_ensures(split, (given, sep), pieces),
        call_ensures(text::join, (&pieces, between), whole),
    ensures
        whole@ == given@,
        pieces@.len() > 0,
        forall|i: int| 0 <= i < pieces@.len() ==> !(#[trigger] pieces@[i])@.contains(sep),
{
    law_pieces_make_the_text(given@, sep);
    assert forall|i: int| 0 <= i < pieces@.len() implies !(#[trigger] pieces@[i])@.contains(sep) by {
        assert(text::views(pieces@)[i] == pieces@[i]@);
    }
    assert(text::views(pieces@).len() == pieces@.len());
}

/// How a fault is worded.
pub proof fn law_how_a_fault_is_worded(fault: NumberFault, words: String)
    requires
        call_ensures(NumberFault::text, (&fault,), words),
    ensures
        words@ == match fault {
            NumberFault::Empty => "cannot parse integer from empty string"@,
            NumberFault::InvalidDigit => "invalid digit found in string"@,
            NumberFault::TooLarge => "number too large to fit in target type"@,
        },
{
}

/// A separator that does not occur is found at the end, and the text is one piece.
pub proof fn lemma_one_piece(given: Seq<char>, sep: char)
    requires
        !given.contains(sep),
    ensures
        find(given, sep) == given.len(),
        pieces(given, sep) == seq![given],
{
    lemma_find(given, sep);
    if find(given, sep) < given.len() {
        assert(given.contains(sep));
    }
}

/// A separator behind a text that is free of it is found there.
pub proof fn lemma_find_behind(front: Seq<char>, sep: char, rest: Seq<char>)
    requires
        !front.contains(sep),
    ensures
        find(front + seq![sep] + rest, sep) == front.len(),
        (front + seq![sep] + rest).take(front.len() as int) == front,
        (front + seq![sep] + rest).skip(front.len() + 1int) == rest,
{
    let whole = front + seq![sep] + rest;
    lemma_find(whole, sep);
    let n = find(whole, sep);
    assert(whole[front.len() as int] == sep);
    if n < front.len() {
        assert(whole[n as int] == front[n as int]);
        assert(front.contains(sep));
    }
    assert(whole.take(front.len() as int) =~= front);
    assert(whole.skip(front.len() + 1int) =~= rest);
}

/// The pieces of two texts with the separator between them are those of the one and of the other.
pub proof fn lemma_pieces_of_both(left: Seq<char>, sep: char, right: Seq<char>)
    ensures
        pieces(left + seq![sep] + right, sep) == pieces(left, sep) + pieces(right, sep),
    decreases left.len(),
{
    let whole = left + seq![sep] + right;
    lemma_find(left, sep);
    let n = find(left, sep);
    if n >= left.len() {
        assert forall|i: int| 0 <= i < left.len() implies left[i] != sep by {}
        lemma_find_behind(left, sep, right);
    } else {
        let front = left.take(n as int);
        let rest = left.skip(n + 1int);
        assert(whole =~= front + seq![sep] + (rest + seq![sep] + right));
        assert(!front.contains(sep)) by {
            assert forall|i: int| 0 <= i < front.len() implies front[i] != sep by {
                assert(front[i] == left[i]);
            }
        }
        lemma_find_behind(front, sep, rest + seq![sep] + right);
        lemma_pieces_of_both(rest, sep, right);
        assert(seq![front] + (pieces(rest, sep) + pieces(right, sep)) =~= (seq![front] + pieces(
            rest,
            sep,
        )) + pieces(right, sep));
    }
}

/// A text that neither begins nor ends with white space has none to take off.
pub proof fn lemma_nothing_to_trim(given: Seq<char>)
    requires
        given.len() > 0 ==> !is_white(given[0]) && !is_white(given.last()),
    ensures
        trimmed(given) == given,
{
}

} // verus!
