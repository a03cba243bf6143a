//! The initial membership as it is written on the command line:
//! `id=raft_addr/service_endpoint/admin_endpoint,...`.
use std::collections::BTreeMap;
use vstd::prelude::*;
use vstd::string::*;

use crate::scan;
use crate::scan::{read_u64, split, split_once, trim};
use crate::text;
use crate::text::{debug_text, joined};

verus! {

/// Where a member is reached.
#[derive(Debug)]
pub struct MemberAddr {
    pub raft_addr: String,
    pub service_endpoint: String,
    pub admin_endpoint: String,
}

/// Model of [`MemberAddr`].
#[verifier::ext_equal]
pub struct MemberView {
    pub raft_addr: Seq<char>,
    pub service_endpoint: Seq<char>,
    pub admin_endpoint: Seq<char>,
}

impl View for MemberAddr {
    type V = MemberView;

    open spec fn view(&self) -> MemberView {
        MemberView {
            raft_addr: self.raft_addr@,
            service_endpoint: self.service_endpoint@,
            admin_endpoint: self.admin_endpoint@,
        }
    }
}

/// What is said of a bad entry, and the cause where there is one.
pub open spec fn fault_view(fault: (String, Option<String>)) -> (Seq<char>, Option<Seq<char>>) {
    (
        fault.0@,
        match fault.1 {
            Some(cause) => Some(cause@),
            None => None,
        },
    )
}

/// What one entry, without white space around it, says: a member, or what is wrong with it. A number
/// that cannot be read is the cause that is given.
pub open spec fn entry_member(entry: Seq<char>) -> Result<
    (u64, MemberView),
    (Seq<char>, Option<Seq<char>>),
> {
    let at = scan::find(entry, '=');
    let id = scan::spec_read_u64(scan::trimmed(entry.take(at as int)));
    let parts = scan::pieces(entry.skip(at + 1int), '/');
    if at >= entry.len() {
        Err(
            (
                "bad member "@ + text::debug_of(entry)
                    + ", expected id=raft_addr/service_endpoint/admin_endpoint"@,
                None,
            ),
        )
    } else if parts.len() < 3 || parts[0].len() == 0 {
        Err(
            (
                "bad member "@ + text::debug_of(entry)
                    + ", expected raft_addr/service_endpoint/admin_endpoint"@,
                None,
            ),
        )
    } else {
        match id {
            Err(fault) => Err(
                ("bad member id in "@ + text::debug_of(entry), Some(fault.spec_text())),
            ),
            Ok(id) => Ok(
                (
                    id,
                    MemberView {
                        raft_addr: scan::trimmed(parts[0]),
                        service_endpoint: scan::trimmed(parts[1]),
                        admin_endpoint: scan::trimmed(parts[2]),
                    },
                ),
            ),
        }
    }
}

/// The members that entries give on top of those in `members`, where a later entry replaces an
/// earlier one with its number and entries of white space are passed over; or what is wrong with the
/// first bad entry.
pub open spec fn entries_members(
    members: Map<u64, MemberView>,
    entries: Seq<Seq<char>>,
) -> Result<Map<u64, MemberView>, (Seq<char>, Option<Seq<char>>)>
    decreases entries.len(),
{
    if entries.len() == 0 {
        Ok(members)
    } else {
        let entry = scan::trimmed(entries[0]);
        if entry.len() == 0 {
            entries_members(members, entries.drop_first())
        } else {
            match entry_member(entry) {
                Ok((id, member)) => entries_members(
                    members.insert(id, member),
                    entries.drop_first(),
                ),
                Err(fault) => Err(fault),
            }
        }
    }
}

/// What a membership text says.
pub open spec fn written_members(input: Seq<char>) -> Result<
    Map<u64, MemberView>,
    (Seq<char>, Option<Seq<char>>),
> {
    entries_members(Map::empty(), scan::pieces(input, ','))
}

/// The members of a map.
pub open spec fn member_views(members: Map<u64, MemberAddr>) -> Map<u64, MemberView> {
    members.map_values(|member: MemberAddr| member@)
}

/// Reads one entry, without white space around it.
fn parse_entry(entry: &str) -> (r: Result<(u64, MemberAddr), (String, Option<String>)>)
    ensures
        match r {
            Ok((id, member)) => entry_member(entry@) == Ok::<_, (Seq<char>, Option<Seq<char>>)>(
                (id, member@),
            ),
            Err(fault) => entry_member(entry@) == Err::<(u64, MemberView), _>(fault_view(fault)),
        },
{
    proof {
        scan::lemma_find(entry@, '=');
    }
    let (id, addrs) = match split_once(entry, '=') {
        Some(halves) => halves,
        None => {
            assert(scan::find(entry@, '=') >= entry@.len());
            let mut line = joined("bad member ", debug_text(entry).as_str());
            line.append(", expected id=raft_addr/service_endpoint/admin_endpoint");
            return Err((line, None));
        },
    };
    let parts = split(addrs.as_str(), '/');
    let ghost views = scan::pieces(addrs@, '/');
    assert(parts.len() == views.len());
    assert(forall|i: int| 0 <= i < views.len() ==> views[i] == (#[trigger] parts@[i])@);
    if parts.len() < 3 || parts[0].as_str().unicode_len() == 0 {
        let mut line = joined("bad member ", debug_text(entry).as_str());
        line.append(", expected raft_addr/service_endpoint/admin_endpoint");
        return Err((line, None));
    }
    match read_u64(trim(id.as_str()).as_str()) {
        Err(fault) => Err(
            (joined("bad member id in ", debug_text(entry).as_str()), Some(fault.text())),
        ),
        Ok(id) => {
            let member = MemberAddr {
                raft_addr: trim(parts[0].as_str()),
                service_endpoint: trim(parts[1].as_str()),
                admin_endpoint: trim(parts[2].as_str()),
            };
            Ok((id, member))
        },
    }
}

/// Reads a membership text; else tells what is wrong with the first bad entry, and the cause where
/// there is one.
pub fn parse_members(input: &str) -> (r: Result<
    BTreeMap<u64, MemberAddr>,
    (String, Option<String>),
>)
    ensures
        match r {
            Ok(members) => written_members(input@) == Ok::<_, (Seq<char>, Option<Seq<char>>)>(
                member_views(members@),
            ),
            Err(fault) => written_members(input@) == Err::<Map<u64, MemberView>, _>(
                fault_view(fault),
            ),
        },
{
    let entries = split(input, ',');
    let ghost views = scan::pieces(input@, ',');
    let mut out: BTreeMap<u64, MemberAddr> = BTreeMap::new();
    let mut i: usize = 0;
    proof {
        assert(member_views(out@) =~= Map::empty());
        assert(views.skip(0) =~= views);
    }
    while i < entries.len()
        invariant
            i <= entries.len(),
            text::views(entries@) == views,
            views == scan::pieces(input@, ','),
            written_members(input@) == entries_members(member_views(out@), views.skip(i as int)),
        decreases entries.len() - i,
    {
        let entry = trim(entries[i].as_str());
        let ghost rest = views.skip(i as int);
        assert(rest[0] == entries@[i as int]@);
        assert(rest.drop_first() =~= views.skip(i + 1));
        i = i + 1;
        if entry.as_str().unicode_len() == 0 {
            continue;
        }
        match parse_entry(entry.as_str()) {
            Ok((id, member)) => {
                let ghost before = out@;
                let ghost added = member@;
                out.insert(id, member);
                assert(member_views(out@) =~= member_views(before).insert(id, added));
            },
            Err(fault) => {
                return Err(fault);
            },
        }
    }
    assert(views.skip(i as int).len() == 0);
    Ok(out)
}

/// Where a number is given twice, the later entry stands.
pub proof fn law_last_entry_wins(
    members: Map<u64, MemberView>,
    entries: Seq<Seq<char>>,
    last: Seq<char>,
    id: u64,
    member: MemberView,
)
    requires
        scan::trimmed(last).len() > 0,
        entry_member(scan::trimmed(last)) == Ok::<_, (Seq<char>, Option<Seq<char>>)>((id, member)),
        entries_members(members, entries) is Ok,
    ensures
        entries_members(members, entries.push(last)) == Ok::<_, (Seq<char>, Option<Seq<char>>)>(
            (entries_members(members, entries)->Ok_0).insert(id, member),
        ),
    decreases entries.len(),
{
    let longer = entries.push(last);
    if entries.len() == 0 {
        assert(longer[0] == last);
        assert(longer.drop_first() =~= Seq::empty());
        assert(entries_members(members.insert(id, member), longer.drop_first()) == Ok::<
            _,
            (Seq<char>, Option<Seq<char>>),
        >(members.insert(id, member)));
    } else {
        assert(longer[0] == entries[0]);
        assert(longer.drop_first() =~= entries.drop_first().push(last));
        let entry = scan::trimmed(entries[0]);
        if entry.len() == 0 {
            law_last_entry_wins(members, entries.drop_first(), last, id, member);
        } else {
            let first = entry_member(entry)->Ok_0;
            law_last_entry_wins(
                members.insert(first.0, first.1),
                entries.drop_first(),
                last,
                id,
                member,
            );
        }
    }
}

/// True of an address as it can stand in an entry: without the characters that the entry is taken
/// apart by, and with no white space at its ends.
pub open spec fn plain(address: Seq<char>) -> bool {
    &&& !address.contains(',') && !address.contains('/')
    &&& address.len() > 0
    &&& !scan::is_white(address[0]) && !scan::is_white(address.last())
}

/// The entry of a member: its number, then its three addresses.
pub open spec fn entry_of(
    id: Seq<char>,
    raft_addr: Seq<char>,
    service_endpoint: Seq<char>,
    admin_endpoint: Seq<char>,
) -> Seq<char> {
    id + seq!['='] + (raft_addr + seq!['/'] + (service_endpoint + seq!['/'] + admin_endpoint))
}

/// A member that is written as `id=raft_addr/service_endpoint/admin_endpoint` is read as that member
/// and nobody else.
pub proof fn law_a_written_member_is_read(
    id: u64,
    number: String,
    raft_addr: Seq<char>,
    service_endpoint: Seq<char>,
    admin_endpoint: Seq<char>,
    input: &str,
    read: Result<BTreeMap<u64, MemberAddr>, (String, Option<String>)>,
)
    requires
        call_ensures(text::decimal_text, (id,), number),
        plain(raft_addr) && plain(service_endpoint) && plain(admin_endpoint),
        input@ == entry_of(number@, raft_addr, service_endpoint, admin_endpoint),
        call_ensures(parse_members, (input,), read),
    ensures
        read matches Ok(members) && (forall|n: u64|
            #[trigger] members@.dom().contains(n) <==> n == id) && members@[id].raft_addr@
            == raft_addr && members@[id].service_endpoint@ == service_endpoint
            && members@[id].admin_endpoint@ == admin_endpoint,
{
    let digits = number@;
    scan::lemma_decimal(id as nat);
    assert forall|i: int| 0 <= i < digits.len() implies digits[i] != ',' && digits[i] != '='
        && digits[i] != '/' && digits[i] != '+' && !scan::is_white(digits[i]) by {
        assert(scan::is_digit(digits[i]));
    }
    assert(scan::unsigned(digits) == digits);
    scan::law_fitting_numbers_are_read(digits);
    let tail = service_endpoint + seq!['/'] + admin_endpoint;
    let addrs = raft_addr + seq!['/'] + tail;
    let entry = input@;
    assert(!entry.contains(',')) by {
        assert forall|i: int| 0 <= i < entry.len() implies entry[i] != ',' by {
            let a = digits.len() as int + 1;
            let b = a + raft_addr.len() + 1;
            let c = b + service_endpoint.len() + 1;
            if i < digits.len() {
                assert(entry[i] == digits[i]);
            } else if a <= i < b - 1 {
                assert(entry[i] == raft_addr[i - a]);
            } else if b <= i < c - 1 {
                assert(entry[i] == service_endpoint[i - b]);
            } else if c <= i {
                assert(entry[i] == admin_endpoint[i - c]);
            }
        }
    }
    scan::lemma_one_piece(entry, ',');
    assert(entry[0] == digits[0]);
    assert(entry.last() == admin_endpoint.last());
    scan::lemma_nothing_to_trim(entry);
    scan::lemma_nothing_to_trim(digits);
    scan::lemma_nothing_to_trim(raft_addr);
    scan::lemma_nothing_to_trim(service_endpoint);
    scan::lemma_nothing_to_trim(admin_endpoint);
    scan::lemma_find_behind(digits, '=', addrs);
    scan::lemma_pieces_of_both(raft_addr, '/', tail);
    scan::lemma_pieces_of_both(service_endpoint, '/', admin_endpoint);
    scan::lemma_one_piece(raft_addr, '/');
    scan::lemma_one_piece(service_endpoint, '/');
    scan::lemma_one_piece(admin_endpoint, '/');
    let parts = scan::pieces(addrs, '/');
    assert(parts =~= seq![raft_addr, service_endpoint, admin_endpoint]);
    let member = MemberView { raft_addr, service_endpoint, admin_endpoint };
    assert(entry_member(entry) == Ok::<_, (Seq<char>, Option<Seq<char>>)>((id, member)));
    let entries = scan::pieces(entry, ',');
    assert(entries[0] == entry);
    assert(entries.drop_first() =~= Seq::empty());
    let only = Map::<u64, MemberView>::empty().insert(id, member);
    assert(entries_members(only, entries.drop_first()) == Ok::<_, (Seq<char>, Option<Seq<char>>)>(
        only,
    ));
    let members = read->Ok_0;
    assert(member_views(members@) == only);
    assert forall|n: u64| #[trigger] members@.dom().contains(n) <==> n == id by {
        assert(member_views(members@).dom().contains(n) == members@.dom().contains(n));
    }
    assert(member_views(members@)[id] == members@[id]@);
}

proof fn lemma_entries_of_both(
    members: Map<u64, MemberView>,
    left: Seq<Seq<char>>,
    right: Seq<Seq<char>>,
)
    ensures
        entries_members(members, left + right) == match entries_members(members, left) {
            Ok(first) => entries_members(first, right),
            Err(fault) => Err(fault),
        },
    decreases left.len(),
{
    if left.len() == 0 {
        assert(left + right =~= right);
    } else {
        assert((left + right)[0] == left[0]);
        assert((left + right).drop_first() =~= left.drop_first() + right);
        let entry = scan::trimmed(left[0]);
        if entry.len() == 0 {
            lemma_entries_of_both(members, left.drop_first(), right);
        } else if let Ok((id, member)) = entry_member(entry) {
            lemma_entries_of_both(members.insert(id, member), left.drop_first(), right);
        }
    }
}

proof fn lemma_entries_on_top(
    under: Map<u64, MemberView>,
    over: Map<u64, MemberView>,
    entries: Seq<Seq<char>>,
)
    ensures
        entries_members(under.union_prefer_right(over), entries) == match entries_members(
            over,
            entries,
        ) {
            Ok(given) => Ok::<_, (Seq<char>, Option<Seq<char>>)>(under.union_prefer_right(given)),
            Err(fault) => Err(fault),
        },
    decreases entries.len(),
{
    if entries.len() > 0 {
        let entry = scan::trimmed(entries[0]);
        if entry.len() == 0 {
            lemma_entries_on_top(under, over, entries.drop_first());
        } else if let Ok((id, member)) = entry_member(entry) {
            lemma_entries_on_top(under, over.insert(id, member), entries.drop_first());
            assert(under.union_prefer_right(over).insert(id, member) =~= under.union_prefer_right(
                over.insert(id, member),
            ));
        }
    }
}

/// A membership of two texts with a comma between them is the members of both, where those of the
/// second one stand for a number that both give; and what is wrong with the first, else with the
/// second, is what is wrong with it.
pub proof fn law_memberships_add_up(
    left: &str,
    right: &str,
    both: &str,
    first: Result<BTreeMap<u64, MemberAddr>, (String, Option<String>)>,
    second: Result<BTreeMap<u64, MemberAddr>, (String, Option<String>)>,
    read: Result<BTreeMap<u64, MemberAddr>, (String, Option<String>)>,
)
    requires
        both@ == left@ + seq![','] + right@,
        call_ensures(parse_members, (left,), first),
        call_ensures(parse_members, (right,), second),
        call_ensures(parse_members, (both,), read),
    ensures
        match (first, second) {
            (Ok(a), Ok(b)) => read matches Ok(members) && member_views(members@) == member_views(
                a@,
            ).union_prefer_right(member_views(b@)),
            (Err(fault), _) => read matches Err(told) && fault_view(told) == fault_view(fault),
            (Ok(_), Err(fault)) => read matches Err(told) && fault_view(told) == fault_view(fault),
        },
{
    scan::lemma_pieces_of_both(left@, ',', right@);
    let a = scan::pieces(left@, ',');
    let b = scan::pieces(right@, ',');
    lemma_entries_of_both(Map::empty(), a, b);
    if let Ok(under) = entries_members(Map::empty(), a) {
        lemma_entries_on_top(under, Map::empty(), b);
        assert(under.union_prefer_right(Map::empty()) =~= under);
    }
}

/// A text of nothing but white space names nobody.
pub proof fn law_a_blank_text_names_nobody(
    input: &str,
    read: Result<BTreeMap<u64, MemberAddr>, (String, Option<String>)>,
)
    requires
        forall|i: int| 0 <= i < input@.len() ==> scan::is_white(#[trigger] input@[i]),
        call_ensures(parse_members, (input,), read),
    ensures
        read matches Ok(members) && forall|n: u64| !(#[trigger] members@.dom().contains(n)),
{
    assert(!input@.contains(',')) by {
        assert forall|i: int| 0 <= i < input@.len() implies input@[i] != ',' by {
            assert(scan::is_white(input@[i]));
        }
    }
    scan::lemma_one_piece(input@, ',');
    lemma_blank(input@);
    let entries = scan::pieces(input@, ',');
    assert(entries[0] == input@);
    assert(entries.drop_first() =~= Seq::empty());
    assert(entries_members(Map::empty(), entries.drop_first()) == Ok::<
        Map<u64, MemberView>,
        (Seq<char>, Option<Seq<char>>),
    >(Map::empty()));
    let members = read->Ok_0;
    assert forall|n: u64| !(#[trigger] members@.dom().contains(n)) by {
        assert(member_views(members@).dom().contains(n) == members@.dom().contains(n));
    }
}

proof fn lemma_blank(given: Seq<char>)
    requires
        forall|i: int| 0 <= i < given.len() ==> scan::is_white(#[trigger] given[i]),
    ensures
        scan::trimmed_start(given).len() == 0,
        scan::trimmed(given).len() == 0,
    decreases given.len(),
{
    if given.len() > 0 {
        assert forall|i: int| 0 <= i < given.skip(1).len() implies scan::is_white(
            #[trigger] given.skip(1)[i],
        ) by {
            assert(given.skip(1)[i] == given[i + 1]);
        }
        lemma_blank(given.skip(1));
    }
}

/// An entry without a `=`, or with fewer than three addresses behind it, or with none to begin with,
/// or whose number is none, is bad, and is named in what is said of it; a number that cannot be read
/// comes with the cause.
pub proof fn law_which_entries_are_bad(
    entry: &str,
    read: Result<BTreeMap<u64, MemberAddr>, (String, Option<String>)>,
    number: &str,
    id: Result<u64, scan::NumberFault>,
    addresses: Seq<char>,
)
    requires
        !entry@.contains(','),
        entry@.len() > 0 && !scan::is_white(entry@[0]) && !scan::is_white(entry@.last()),
        call_ensures(parse_members, (entry,), read),
        call_ensures(read_u64, (number,), id),
        number@.len() > 0 ==> !scan::is_white(number@[0]) && !scan::is_white(number@.last()),
        !number@.contains('='),
    ensures
        !entry@.contains('=') ==> (read matches Err((line, cause)) && line@ == "bad member "@
            + text::debug_of(entry@) + ", expected id=raft_addr/service_endpoint/admin_endpoint"@
            && cause is None),
        entry@ == number@ + seq!['='] + addresses && (scan::pieces(addresses, '/').len() < 3
            || scan::pieces(addresses, '/')[0].len() == 0) ==> (read matches Err((line, cause))
            && line@ == "bad member "@ + text::debug_of(entry@)
            + ", expected raft_addr/service_endpoint/admin_endpoint"@ && cause is None),
        entry@ == number@ + seq!['='] + addresses && scan::pieces(addresses, '/').len() >= 3
            && scan::pieces(addresses, '/')[0].len() > 0 ==> match id {
            Ok(n) => read matches Ok(members) && members@.dom().contains(n),
            Err(fault) => read matches Err((line, Some(cause))) && line@ == "bad member id in "@
                + text::debug_of(entry@) && cause@ == fault.spec_text(),
        },
{
    scan::lemma_one_piece(entry@, ',');
    scan::lemma_nothing_to_trim(entry@);
    scan::lemma_nothing_to_trim(number@);
    let entries = scan::pieces(entry@, ',');
    assert(entries[0] == entry@);
    assert(entries.drop_first() =~= Seq::empty());
    if !entry@.contains('=') {
        scan::lemma_one_piece(entry@, '=');
    }
    if entry@ == number@ + seq!['='] + addresses {
        scan::lemma_find_behind(number@, '=', addresses);
        if let Ok((n, member)) = entry_member(entry@) {
            let only = Map::<u64, MemberView>::empty().insert(n, member);
            assert(entries_members(only, entries.drop_first()) == Ok::<
                _,
                (Seq<char>, Option<Seq<char>>),
            >(only));
            assert(member_views(read->Ok_0@).dom().contains(n));
        }
    }
}

} // verus!
