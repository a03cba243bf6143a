//! Small pieces of text handling that the messages and parsers share.
use vstd::prelude::*;
use vstd::string::*;

verus! {

/// The views of a sequence of items.
pub open spec fn views<T: View>(items: Seq<T>) -> Seq<T::V> {
    Seq::new(items.len(), |i: int| items[i]@)
}

/// The view of an item that may be missing.
pub open spec fn option_view<T: View>(item: Option<T>) -> Option<T::V> {
    match item {
        Some(inner) => Some(inner@),
        None => None,
    }
}

/// The views of a sequence with one more item.
pub proof fn lemma_views_push<T: View>(items: Seq<T>, item: T)
    ensures
        views(items.push(item)) == views(items).push(item@),
{
    assert(views(items.push(item)) =~= views(items).push(item@));
}

/// The members of a sequence with one more item.
pub proof fn lemma_to_set_push<A>(items: Seq<A>, item: A)
    ensures
        items.push(item).to_set() == items.to_set().insert(item),
{
    assert forall|a: A| items.push(item).to_set().contains(a) == items.to_set().insert(
        item,
    ).contains(a) by {
        if items.contains(a) {
            let i = choose|i: int| 0 <= i < items.len() && items[i] == a;
            assert(items.push(item)[i] == a);
        }
        if items.push(item).contains(a) {
            let i = choose|i: int| 0 <= i < items.push(item).len() && items.push(item)[i] == a;
            if i < items.len() {
                assert(items[i] == a);
            }
        }
        assert(items.push(item)[items.len() as int] == item);
    }
    assert(items.push(item).to_set() =~= items.to_set().insert(item));
}

/// Where `wanted` first stands in `items`.
pub fn position_of(items: &Vec<String>, wanted: &String) -> (r: Option<usize>)
    ensures
        match r {
            Some(i) => i < items.len() && items@[i as int]@ == wanted@ && forall|j: int|
                0 <= j < i ==> (#[trigger] items@[j])@ != wanted@,
            None => forall|j: int| 0 <= j < items.len() ==> (#[trigger] items@[j])@ != wanted@,
        },
        r is Some <==> views(items@).contains(wanted@),
{
    let mut i: usize = 0;
    while i < items.len()
        invariant
            i <= items.len(),
            forall|j: int| 0 <= j < i ==> (#[trigger] items@[j])@ != wanted@,
        decreases items.len() - i,
    {
        if items[i] == *wanted {
            assert(views(items@)[i as int] == wanted@);
            return Some(i);
        }
        i = i + 1;
    }
    assert forall|j: int| 0 <= j < items.len() implies views(items@)[j] != wanted@ by {
        assert(items@[j]@ != wanted@);
    }
    None
}

/// True when `text` begins with `prefix`.
pub fn starts_with(text: &str, prefix: &str) -> (r: bool)
    ensures
        r == prefix@.is_prefix_of(text@),
{
    let n: usize = prefix.unicode_len();
    if n > text.unicode_len() {
        return false;
    }
    let mut i: usize = 0;
    while i < n
        invariant
            i <= n,
            n == prefix@.len(),
            n <= text@.len(),
            forall|j: int| 0 <= j < i ==> prefix@[j] == text@[j],
        decreases n - i,
    {
        if prefix.get_char(i) != text.get_char(i) {
            return false;
        }
        i = i + 1;
    }
    assert(prefix@ =~= text@.subrange(0, n as int));
    true
}

/// One string after another.
pub fn joined(left: &str, right: &str) -> (r: String)
    ensures
        r@ == left@ + right@,
{
    let mut r = String::from_str(left);
    r.append(right);
    r
}

/// The parts one after another, with `between` between them.
pub open spec fn with_between(parts: Seq<Seq<char>>, between: Seq<char>) -> Seq<char>
    decreases parts.len(),
{
    if parts.len() == 0 {
        Seq::empty()
    } else if parts.len() == 1 {
        parts[0]
    } else {
        parts[0] + between + with_between(parts.drop_first(), between)
    }
}

/// The parts one after another, with `between` between them.
pub fn join(parts: &Vec<String>, between: &str) -> (r: String)
    ensures
        r@ == with_between(views(parts@), between@),
{
    let n: usize = parts.len();
    let mut i: usize = n;
    let mut out = String::from_str("");
    proof {
        reveal_strlit("");
        assert(views(parts@).skip(n as int) =~= Seq::empty());
        assert(out@ =~= with_between(views(parts@).skip(n as int), between@));
    }
    while i > 0
        invariant
            i <= n,
            n == parts.len(),
            out@ == with_between(views(parts@).skip(i as int), between@),
        decreases i,
    {
        let ghost rest = views(parts@).skip(i - 1);
        assert(rest.drop_first() =~= views(parts@).skip(i as int));
        let mut longer = parts[i - 1].clone();
        if i < n {
            longer.append(between);
            longer.append(out.as_str());
        }
        out = longer;
        i = i - 1;
    }
    assert(views(parts@).skip(0) =~= views(parts@));
    out
}

/// The text by which a string is shown with quotes and escapes.
pub uninterp spec fn debug_of(text: Seq<char>) -> Seq<char>;

/// The `Debug` text of a `str`: a function of the string alone. Nothing more is claimed of the text.
#[verifier::external_body]
pub(crate) fn debug_text(text: &str) -> (r: String)
    ensures
        r@ == debug_of(text@),
{
    format!("{:?}", text)
}

/// The decimal digits of `n`, most significant first, without leading zeros.
pub open spec fn spec_decimal(n: nat) -> Seq<char>
    decreases n,
{
    if n < 10 {
        seq![digit_char(n)]
    } else {
        spec_decimal(n / 10).push(digit_char(n % 10))
    }
}

/// The character of one decimal digit.
pub open spec fn digit_char(d: nat) -> char {
    if d == 0 {
        '0'
    } else if d == 1 {
        '1'
    } else if d == 2 {
        '2'
    } else if d == 3 {
        '3'
    } else if d == 4 {
        '4'
    } else if d == 5 {
        '5'
    } else if d == 6 {
        '6'
    } else if d == 7 {
        '7'
    } else if d == 8 {
        '8'
    } else {
        '9'
    }
}

/// The text of one decimal digit.
fn digit_text(d: u64) -> (r: &'static str)
    requires
        d < 10,
    ensures
        r@ == seq![digit_char(d as nat)],
{
    proof {
        reveal_strlit("0");
        reveal_strlit("1");
        reveal_strlit("2");
        reveal_strlit("3");
        reveal_strlit("4");
        reveal_strlit("5");
        reveal_strlit("6");
        reveal_strlit("7");
        reveal_strlit("8");
        reveal_strlit("9");
    }
    if d == 0 {
        "0"
    } else if d == 1 {
        "1"
    } else if d == 2 {
        "2"
    } else if d == 3 {
        "3"
    } else if d == 4 {
        "4"
    } else if d == 5 {
        "5"
    } else if d == 6 {
        "6"
    } else if d == 7 {
        "7"
    } else if d == 8 {
        "8"
    } else {
        "9"
    }
}

/// `n` in decimal.
pub fn decimal_text(n: u64) -> (r: String)
    ensures
        r@ == spec_decimal(n as nat),
    decreases n,
{
    if n < 10 {
        String::from_str(digit_text(n))
    } else {
        let mut r = decimal_text(n / 10);
        r.append(digit_text(n % 10));
        assert(r@ =~= spec_decimal(n as nat));
        r
    }
}

/// Joined parts: nothing for none, the part for one, and for more the first part, the text between,
/// and the others joined.
pub proof fn law_joining_goes_part_by_part(
    parts: Vec<String>,
    others: Vec<String>,
    between: &str,
    whole: String,
    rest: String,
)
    requires
        parts@.len() > 0 ==> others@ == parts@.drop_first(),
        call_ensures(join, (&parts, between), whole),
        call_ensures(join, (&others, between), rest),
    ensures
        parts@.len() == 0 ==> whole@.len() == 0,
        parts@.len() == 1 ==> whole@ == parts@[0]@,
        parts@.len() > 1 ==> whole@ == parts@[0]@ + between@ + rest@,
{
    if parts@.len() > 0 {
        assert(views(parts@).drop_first() =~= views(others@));
    }
}

/// A text begins with its prefix, and a joined text with its first half.
pub proof fn law_what_a_text_begins_with(
    given: &str,
    prefix: &str,
    begins: bool,
    left: &str,
    right: &str,
    both: String,
)
    requires
        call_ensures(starts_with, (given, prefix), begins),
        call_ensures(joined, (left, right), both),
    ensures
        begins <==> prefix@.len() <= given@.len() && forall|i: int|
            0 <= i < prefix@.len() ==> given@[i] == prefix@[i],
        both@.len() == left@.len() + right@.len(),
        forall|i: int| 0 <= i < left@.len() ==> both@[i] == left@[i],
        forall|i: int| 0 <= i < right@.len() ==> both@[left@.len() + i] == right@[i],
{
    let n = prefix@.len() as int;
    if prefix@.len() <= given@.len() {
        let front = given@.subrange(0, n);
        if forall|i: int| 0 <= i < prefix@.len() ==> given@[i] == prefix@[i] {
            assert(front =~= prefix@);
        }
        if begins {
            assert forall|i: int| 0 <= i < prefix@.len() implies given@[i] == prefix@[i] by {
                assert(front[i] == given@[i]);
            }
        }
    }
}

/// The place of an item in a list is the first at which it stands, and there is none exactly where
/// it does not stand there at all.
pub proof fn law_where_an_item_stands(items: Vec<String>, wanted: String, at: Option<usize>)
    requires
        call_ensures(position_of, (&items, &wanted), at),
    ensures
        at matches Some(i) ==> i < items@.len() && items@[i as int]@ == wanted@,
        forall|j: int|
            0 <= j < items@.len() && (#[trigger] items@[j])@ == wanted@ ==> at is Some && at->0
                <= j,
{
}

} // verus!
