//! What the program logs.
use vstd::prelude::*;
use vstd::string::*;

use crate::scan;
use crate::scan::{split, whitespace};
use crate::text;

verus! {

/// True of a directive that begins with white space and holds a character beyond ASCII.
pub open spec fn is_shifted(directive: Seq<char>) -> bool {
    &&& directive.len() > 0
    &&& scan::is_white(directive[0])
    &&& exists|i: int| 0 <= i < directive.len() && (#[trigger] directive[i]) as u32 >= 128
}

/// True of a filter with such a directive: see [`parses_as_filter`].
pub open spec fn is_misread(filter: Seq<char>) -> bool {
    exists|i: int|
        0 <= i < scan::pieces(filter, ',').len() && is_shifted(
            #[trigger] scan::pieces(filter, ',')[i],
        )
}

/// Whether a filter can be made of a text.
pub uninterp spec fn is_filter(text: Seq<char>) -> bool;

/// Whether `tracing_subscriber::EnvFilter::try_new` makes a filter of a text. Only that the answer
/// rests on the text alone is claimed of it.
///
/// It takes each directive without the white space around it, but cuts the directive with it at the
/// places that it found; where a character of several bytes is cut apart, it panics. Only a
/// directive that begins with white space is cut elsewhere than it was read.
#[verifier::external_body]
fn parses_as_filter(text: &str) -> (r: bool)
    requires
        !is_misread(text@),
    ensures
        r == is_filter(text@),
{
    tracing_subscriber::EnvFilter::try_new(text).is_ok()
}

fn shifted(directive: &str) -> (r: bool)
    ensures
        r == is_shifted(directive@),
{
    let n: usize = directive.unicode_len();
    if n == 0 || !whitespace(directive.get_char(0)) {
        return false;
    }
    let mut i: usize = 0;
    while i < n
        invariant
            i <= n,
            0 < n == directive@.len(),
            scan::is_white(directive@[0]),
            forall|j: int| 0 <= j < i ==> (#[trigger] directive@[j]) as u32 <= 127,
        decreases n - i,
    {
        let c = directive.get_char(i);
        if c as u32 >= 128 {
            assert(directive@[i as int] as u32 >= 128);
            return true;
        }
        i = i + 1;
    }
    false
}

/// Tells whether a filter holds a directive that begins with white space and has a character beyond
/// ASCII.
pub fn may_misread(filter: &str) -> (r: bool)
    ensures
        r == is_misread(filter@),
{
    let directives = split(filter, ',');
    let ghost views = scan::pieces(filter@, ',');
    let mut i: usize = 0;
    while i < directives.len()
        invariant
            i <= directives.len(),
            text::views(directives@) == views,
            views == scan::pieces(filter@, ','),
            forall|j: int| 0 <= j < i ==> !is_shifted(#[trigger] views[j]),
        decreases directives.len() - i,
    {
        assert(views[i as int] == directives@[i as int]@);
        if shifted(directives[i].as_str()) {
            return true;
        }
        i = i + 1;
    }
    assert(views.len() == directives.len());
    false
}

/// The filter to log by, given whether the one that was asked for can be read: else everything from
/// `info` on.
pub fn chosen_filter(asked: &str, readable: bool) -> (r: String)
    ensures
        r@ == if readable {
            asked@
        } else {
            "info"@
        },
{
    if readable {
        String::from_str(asked)
    } else {
        String::from_str("info")
    }
}

/// The filter to log by: the one that was asked for where it can be read, else everything from
/// `info` on. A filter that [`may_misread`] tells is not to be looked at.
pub fn log_filter(asked: &str) -> (r: String)
    requires
        !is_misread(asked@),
    ensures
        r@ == if is_filter(asked@) {
            asked@
        } else {
            "info"@
        },
{
    chosen_filter(asked, parses_as_filter(asked))
}

/// What is logged: what was asked for exactly where that can be read, else everything from `info` on.
pub proof fn law_what_is_logged(
    asked: &str,
    readable: bool,
    chosen: String,
    logged: String,
)
    requires
        call_ensures(chosen_filter, (asked, readable), chosen),
        call_ensures(log_filter, (asked,), logged),
    ensures
        readable ==> chosen@ == asked@,
        !readable ==> chosen@ == "info"@,
        is_filter(asked@) ==> logged@ == asked@,
        !is_filter(asked@) ==> logged@ == "info"@,
{
}

/// A filter is not looked at exactly where one of its directives, as the commas part them, begins
/// with white space and holds a character beyond ASCII; so one of ASCII alone always is.
pub proof fn law_which_filters_are_looked_at(
    filter: &str,
    misread: bool,
    sep: char,
    directives: Vec<String>,
)
    requires
        sep == ',',
        call_ensures(may_misread, (filter,), misread),
        call_ensures(split, (filter, sep), directives),
    ensures
        misread <==> exists|i: int, k: int|
            #![trigger directives@[i]@[k]]
            0 <= i < directives@.len() && 0 <= k < directives@[i]@.len() && directives@[i]@[k] as u32
                > 127 && scan::is_white(directives@[i]@[0]),
{
    let views = scan::pieces(filter@, ',');
    assert(views.len() == directives@.len());
    assert(forall|i: int| 0 <= i < directives@.len() ==> views[i] == (#[trigger] directives@[i])@);
    if misread {
        let i = choose|i: int| 0 <= i < views.len() && is_shifted(#[trigger] views[i]);
        let k = choose|k: int| 0 <= k < views[i].len() && (#[trigger] views[i][k]) as u32 >= 128;
        assert(directives@[i]@[k] as u32 > 127);
    }
    if exists|i: int, k: int|
        #![trigger directives@[i]@[k]]
        0 <= i < directives@.len() && 0 <= k < directives@[i]@.len() && directives@[i]@[k] as u32
            > 127 && scan::is_white(directives@[i]@[0]) {
        let (i, k) = choose|i: int, k: int|
            #![trigger directives@[i]@[k]]
            0 <= i < directives@.len() && 0 <= k < directives@[i]@.len() && directives@[i]@[k] as u32
                > 127 && scan::is_white(directives@[i]@[0]);
        assert(views[i][k] as u32 >= 128);
        assert(is_shifted(views[i]));
    }
}

} // verus!
