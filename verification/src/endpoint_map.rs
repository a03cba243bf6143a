//! A small map keyed by endpoint, held as a list without repeats.
use vstd::prelude::*;

verus! {

/// One entry per endpoint. The order of the entries means nothing.
pub struct EndpointMap<V> {
    entries: Vec<(String, V)>,
}

spec fn map_of<V>(entries: Seq<(String, V)>) -> Map<Seq<char>, V> {
    Map::new(
        |e: Seq<char>| exists|i: int| 0 <= i < entries.len() && (#[trigger] entries[i]).0@ == e,
        |e: Seq<char>|
            {
                let i = choose|i: int| 0 <= i < entries.len() && (#[trigger] entries[i]).0@ == e;
                entries[i].1
            },
    )
}

spec fn distinct<V>(entries: Seq<(String, V)>) -> bool {
    forall|i: int, j: int|
        0 <= i < entries.len() && 0 <= j < entries.len() && i != j ==> (#[trigger] entries[i]).0@
            != (#[trigger] entries[j]).0@
}

proof fn lemma_entry<V>(entries: Seq<(String, V)>, i: int)
    requires
        distinct(entries),
        0 <= i < entries.len(),
    ensures
        map_of(entries).dom().contains(entries[i].0@),
        map_of(entries)[entries[i].0@] == entries[i].1,
{
    let e = entries[i].0@;
    let k = choose|k: int| 0 <= k < entries.len() && (#[trigger] entries[k]).0@ == e;
    assert(entries[i].0@ == e);
    assert(k == i);
}

proof fn lemma_push<V>(entries: Seq<(String, V)>, entry: (String, V))
    requires
        distinct(entries),
        !map_of(entries).dom().contains(entry.0@),
    ensures
        distinct(entries.push(entry)),
        map_of(entries.push(entry)) == map_of(entries).insert(entry.0@, entry.1),
{
    let pushed = entries.push(entry);
    assert forall|i: int, j: int|
        0 <= i < pushed.len() && 0 <= j < pushed.len() && i != j implies (#[trigger] pushed[i]).0@
        != (#[trigger] pushed[j]).0@ by {
        if i < entries.len() {
            assert(entries[i].0@ != entry.0@);
        }
        if j < entries.len() {
            assert(entries[j].0@ != entry.0@);
        }
    }
    lemma_entry(pushed, entries.len() as int);
    assert forall|e: Seq<char>| #[trigger]
        map_of(pushed).dom().contains(e) == map_of(entries).insert(
            entry.0@,
            entry.1,
        ).dom().contains(e) by {
        if map_of(entries).dom().contains(e) {
            let i = choose|i: int| 0 <= i < entries.len() && (#[trigger] entries[i]).0@ == e;
            assert(pushed[i].0@ == e);
        }
        if map_of(pushed).dom().contains(e) {
            let i = choose|i: int| 0 <= i < pushed.len() && (#[trigger] pushed[i]).0@ == e;
            if i < entries.len() {
                assert(entries[i].0@ == e);
            }
        }
    }
    assert forall|e: Seq<char>| #[trigger] map_of(entries).dom().contains(e) implies map_of(
        pushed,
    )[e] == map_of(entries)[e] by {
        let i = choose|i: int| 0 <= i < entries.len() && (#[trigger] entries[i]).0@ == e;
        lemma_entry(entries, i);
        lemma_entry(pushed, i);
        assert(pushed[i] == entries[i]);
    }
    assert(map_of(pushed) =~= map_of(entries).insert(entry.0@, entry.1));
}

proof fn lemma_update<V>(entries: Seq<(String, V)>, i: int, entry: (String, V))
    requires
        distinct(entries),
        0 <= i < entries.len(),
        entry.0@ == entries[i].0@,
    ensures
        distinct(entries.update(i, entry)),
        map_of(entries.update(i, entry)) == map_of(entries).insert(entry.0@, entry.1),
{
    let updated = entries.update(i, entry);
    assert(distinct(updated));
    lemma_entry(updated, i);
    lemma_entry(entries, i);
    assert forall|e: Seq<char>| #[trigger]
        map_of(updated).dom().contains(e) == map_of(entries).dom().contains(e) by {
        if map_of(entries).dom().contains(e) {
            let k = choose|k: int| 0 <= k < entries.len() && (#[trigger] entries[k]).0@ == e;
            assert(updated[k].0@ == e);
        }
        if map_of(updated).dom().contains(e) {
            let k = choose|k: int| 0 <= k < updated.len() && (#[trigger] updated[k]).0@ == e;
            assert(entries[k].0@ == e);
        }
    }
    assert forall|e: Seq<char>|
        map_of(entries).dom().contains(e) && e != entry.0@ implies #[trigger] map_of(updated)[e]
        == map_of(entries)[e] by {
        let k = choose|k: int| 0 <= k < entries.len() && (#[trigger] entries[k]).0@ == e;
        lemma_entry(entries, k);
        lemma_entry(updated, k);
        assert(updated[k] == entries[k]);
    }
    assert(map_of(updated) =~= map_of(entries).insert(entry.0@, entry.1));
}

proof fn lemma_remove<V>(entries: Seq<(String, V)>, i: int)
    requires
        distinct(entries),
        0 <= i < entries.len(),
    ensures
        distinct(entries.remove(i)),
        map_of(entries.remove(i)) == map_of(entries).remove(entries[i].0@),
{
    let removed = entries.remove(i);
    let gone = entries[i].0@;
    assert forall|k: int| 0 <= k < removed.len() implies #[trigger] removed[k] == entries[if k < i {
        k
    } else {
        k + 1
    }] by {}
    assert(distinct(removed));
    assert forall|e: Seq<char>| #[trigger]
        map_of(removed).dom().contains(e) == map_of(entries).remove(gone).dom().contains(e) by {
        if map_of(entries).dom().contains(e) && e != gone {
            let k = choose|k: int| 0 <= k < entries.len() && (#[trigger] entries[k]).0@ == e;
            assert(removed[if k < i {
                k
            } else {
                k - 1
            }].0@ == e);
        }
        if map_of(removed).dom().contains(e) {
            let k = choose|k: int| 0 <= k < removed.len() && (#[trigger] removed[k]).0@ == e;
            assert(entries[if k < i {
                k
            } else {
                k + 1
            }].0@ == e);
        }
    }
    assert forall|e: Seq<char>| #[trigger] map_of(removed).dom().contains(e) implies map_of(
        removed,
    )[e] == map_of(entries)[e] by {
        let k = choose|k: int| 0 <= k < removed.len() && (#[trigger] removed[k]).0@ == e;
        lemma_entry(removed, k);
        lemma_entry(
            entries,
            if k < i {
                k
            } else {
                k + 1
            },
        );
    }
    assert(map_of(removed) =~= map_of(entries).remove(gone));
}

proof fn lemma_finite<V>(entries: Seq<(String, V)>)
    ensures
        map_of(entries).dom().finite(),
    decreases entries.len(),
{
    if entries.len() == 0 {
        assert(map_of(entries).dom() =~= Set::empty());
    } else {
        let rest = entries.drop_last();
        lemma_finite(rest);
        let last = entries.last().0@;
        assert forall|e: Seq<char>| #[trigger]
            map_of(entries).dom().contains(e) == map_of(rest).dom().insert(last).contains(e) by {
            if map_of(entries).dom().contains(e) {
                let i = choose|i: int| 0 <= i < entries.len() && (#[trigger] entries[i]).0@ == e;
                if i < rest.len() {
                    assert(rest[i].0@ == e);
                }
            }
            if map_of(rest).dom().contains(e) {
                let i = choose|i: int| 0 <= i < rest.len() && (#[trigger] rest[i]).0@ == e;
                assert(entries[i].0@ == e);
            }
            assert(entries[entries.len() - 1].0@ == last);
        }
        assert(map_of(entries).dom() =~= map_of(rest).dom().insert(last));
    }
}

spec fn marked_prefix<V>(
    entries: Seq<(String, V)>,
    excluded: Seq<Seq<char>>,
    n: int,
) -> Set<Seq<char>> {
    map_of(entries.take(n)).dom().filter(|e: Seq<char>| !excluded.contains(e))
}

proof fn lemma_marked_step<V>(entries: Seq<(String, V)>, excluded: Seq<Seq<char>>, n: int)
    requires
        distinct(entries),
        0 <= n < entries.len(),
    ensures
        excluded.contains(entries[n].0@) ==> marked_prefix(entries, excluded, n + 1)
            == marked_prefix(entries, excluded, n),
        !excluded.contains(entries[n].0@) ==> marked_prefix(entries, excluded, n + 1).len()
            == marked_prefix(entries, excluded, n).len() + 1,
{
    let shorter = entries.take(n);
    let longer = entries.take(n + 1);
    let e = entries[n].0@;
    assert(longer =~= shorter.push(entries[n]));
    assert(distinct(shorter));
    assert(!map_of(shorter).dom().contains(e)) by {
        if map_of(shorter).dom().contains(e) {
            let i = choose|i: int| 0 <= i < shorter.len() && (#[trigger] shorter[i]).0@ == e;
            assert(entries[i].0@ == entries[n].0@);
        }
    }
    lemma_push(shorter, entries[n]);
    lemma_finite(shorter);
    let before = marked_prefix(entries, excluded, n);
    assert(before.subset_of(map_of(shorter).dom()));
    vstd::set_lib::lemma_set_subset_finite(map_of(shorter).dom(), before);
    if excluded.contains(e) {
        assert(marked_prefix(entries, excluded, n + 1) =~= before);
    } else {
        assert(marked_prefix(entries, excluded, n + 1) =~= before.insert(e));
    }
}

impl<V> View for EndpointMap<V> {
    type V = Map<Seq<char>, V>;

    closed spec fn view(&self) -> Map<Seq<char>, V> {
        map_of(self.entries@)
    }
}

impl<V: Copy> EndpointMap<V> {
    /// No endpoint has two entries.
    pub closed spec fn wf(&self) -> bool {
        distinct(self.entries@)
    }

    /// The number of entries.
    pub closed spec fn size(&self) -> nat {
        self.entries@.len()
    }

    /// The endpoint of the `i`-th entry.
    pub closed spec fn key(&self, i: int) -> Seq<char> {
        self.entries@[i].0@
    }

    /// The entries are those that the positions name.
    pub proof fn lemma_positions(&self)
        requires
            self.wf(),
        ensures
            self@.dom().finite(),
            forall|e: Seq<char>| #[trigger]
                self@.dom().contains(e) <==> exists|i: int|
                    0 <= i < self.size() && #[trigger] self.key(i) == e,
    {
        lemma_finite(self.entries@);
        assert forall|e: Seq<char>| #[trigger] self@.dom().contains(e) implies exists|i: int|
            0 <= i < self.size() && #[trigger] self.key(i) == e by {
            let i = choose|i: int|
                0 <= i < self.entries@.len() && (#[trigger] self.entries@[i]).0@ == e;
            assert(self.key(i) == e);
        }
        assert forall|e: Seq<char>|
            (exists|i: int| 0 <= i < self.size() && #[trigger] self.key(i) == e) implies
        #[trigger] self@.dom().contains(e) by {
            let i = choose|i: int| 0 <= i < self.size() && #[trigger] self.key(i) == e;
            assert(self.entries@[i].0@ == e);
        }
    }

    /// The empty map.
    pub fn new() -> (r: EndpointMap<V>)
        ensures
            r.wf(),
            r@ == Map::<Seq<char>, V>::empty(),
    {
        let r = EndpointMap { entries: Vec::new() };
        assert(r@ =~= Map::<Seq<char>, V>::empty());
        r
    }

    /// The number of entries.
    pub fn len(&self) -> (r: usize)
        ensures
            r == self.size(),
    {
        self.entries.len()
    }

    /// The endpoint of the `i`-th entry.
    pub fn key_at(&self, i: usize) -> (r: &String)
        requires
            self.wf(),
            i < self.size(),
        ensures
            r@ == self.key(i as int),
            self@.dom().contains(r@),
    {
        proof {
            lemma_entry(self.entries@, i as int);
        }
        &self.entries[i].0
    }

    /// The value of the `i`-th entry.
    pub fn value_at(&self, i: usize) -> (r: V)
        requires
            self.wf(),
            i < self.size(),
        ensures
            r == self@[self.key(i as int)],
    {
        proof {
            lemma_entry(self.entries@, i as int);
        }
        self.entries[i].1
    }

    fn position(&self, endpoint: &String) -> (r: Option<usize>)
        ensures
            match r {
                Some(i) => i < self.entries.len() && self.entries@[i as int].0@ == endpoint@,
                None => !self@.dom().contains(endpoint@),
            },
    {
        let mut i: usize = 0;
        while i < self.entries.len()
            invariant
                i <= self.entries.len(),
                forall|j: int| 0 <= j < i ==> (#[trigger] self.entries@[j]).0@ != endpoint@,
            decreases self.entries.len() - i,
        {
            if self.entries[i].0 == *endpoint {
                return Some(i);
            }
            i = i + 1;
        }
        None
    }

    /// The value for `endpoint`.
    pub fn get(&self, endpoint: &String) -> (r: Option<V>)
        requires
            self.wf(),
        ensures
            match r {
                Some(value) => self@.dom().contains(endpoint@) && self@[endpoint@] == value,
                None => !self@.dom().contains(endpoint@),
            },
    {
        match self.position(endpoint) {
            Some(i) => {
                proof {
                    lemma_entry(self.entries@, i as int);
                }
                Some(self.entries[i].1)
            },
            None => None,
        }
    }

    /// Sets the value for `endpoint`.
    pub fn insert(&mut self, endpoint: String, value: V)
        requires
            old(self).wf(),
        ensures
            final(self).wf(),
            final(self)@ == old(self)@.insert(endpoint@, value),
    {
        match self.position(&endpoint) {
            Some(i) => {
                proof {
                    lemma_update(self.entries@, i as int, (endpoint, value));
                }
                self.entries.set(i, (endpoint, value));
            },
            None => {
                proof {
                    lemma_push(self.entries@, (endpoint, value));
                }
                self.entries.push((endpoint, value));
            },
        }
    }

    /// Drops the entry of `endpoint`, where there is one.
    pub fn remove(&mut self, endpoint: &String)
        requires
            old(self).wf(),
        ensures
            final(self).wf(),
            final(self)@ == old(self)@.remove(endpoint@),
    {
        match self.position(endpoint) {
            Some(i) => {
                proof {
                    lemma_remove(self.entries@, i as int);
                }
                let _ = self.entries.remove(i);
            },
            None => {
                assert(self@.remove(endpoint@) =~= self@);
            },
        }
    }

    /// How many entries there are to endpoints that `excluded` does not list.
    pub fn count_outside(&self, excluded: &Vec<String>) -> (r: usize)
        requires
            self.wf(),
        ensures
            r == self@.dom().filter(
                |e: Seq<char>| !crate::text::views(excluded@).contains(e),
            ).len(),
    {
        let ghost listed = crate::text::views(excluded@);
        let mut n: usize = 0;
        let mut i: usize = 0;
        assert(marked_prefix(self.entries@, listed, 0) =~= Set::empty()) by {
            assert(self.entries@.take(0) =~= Seq::empty());
        }
        while i < self.entries.len()
            invariant
                self.wf(),
                listed == crate::text::views(excluded@),
                n <= i <= self.entries.len(),
                n == marked_prefix(self.entries@, listed, i as int).len(),
            decreases self.entries.len() - i,
        {
            proof {
                lemma_marked_step(self.entries@, listed, i as int);
            }
            if crate::text::position_of(excluded, &self.entries[i].0).is_none() {
                n = n + 1;
            }
            i = i + 1;
        }
        assert(self.entries@.take(i as int) =~= self.entries@);
        n
    }
}

/// What was set is what is read back, for its endpoint and until it is set again or dropped; every
/// other endpoint keeps what it had.
pub proof fn law_what_is_set_is_read_back<V: Copy>(
    map: &mut EndpointMap<V>,
    endpoint: String,
    value: V,
    same: String,
    other: String,
    read: Option<V>,
    before: Option<V>,
    after: Option<V>,
)
    requires
        same@ == endpoint@,
        other@ != endpoint@,
        call_ensures(EndpointMap::<V>::get, (&*old(map), &other), before),
        call_ensures(EndpointMap::<V>::insert, (map, endpoint, value), ()),
        call_ensures(EndpointMap::<V>::get, (&*final(map), &same), read),
        call_ensures(EndpointMap::<V>::get, (&*final(map), &other), after),
    ensures
        read == Some(value),
        after == before,
{
}

/// What was dropped is gone, and nothing else is.
pub proof fn law_what_is_dropped_is_gone<V: Copy>(
    map: &mut EndpointMap<V>,
    endpoint: String,
    other: String,
    read: Option<V>,
    before: Option<V>,
    after: Option<V>,
)
    requires
        other@ != endpoint@,
        call_ensures(EndpointMap::<V>::get, (&*old(map), &other), before),
        call_ensures(EndpointMap::<V>::remove, (map, &endpoint), ()),
        call_ensures(EndpointMap::<V>::get, (&*final(map), &endpoint), read),
        call_ensures(EndpointMap::<V>::get, (&*final(map), &other), after),
    ensures
        read is None,
        after == before,
{
}

/// A new map has an entry for no endpoint.
pub proof fn law_a_new_map_is_empty<V: Copy>(
    map: EndpointMap<V>,
    endpoint: String,
    read: Option<V>,
)
    requires
        call_ensures(EndpointMap::<V>::new, (), map),
        call_ensures(EndpointMap::<V>::get, (&map, &endpoint), read),
    ensures
        read is None,
{
}

/// The entries by their places are those by their endpoints, and as many of them are counted as
/// there are endpoints that are not listed.
pub proof fn law_entries_by_place<V: Copy>(
    map: EndpointMap<V>,
    i: usize,
    key: &String,
    value: V,
    read: Option<V>,
    size: usize,
    listed: Vec<String>,
    count: usize,
)
    requires
        map.wf(),
        call_ensures(EndpointMap::<V>::len, (&map,), size),
        i < size,
        call_ensures(EndpointMap::<V>::key_at, (&map, i), key),
        call_ensures(EndpointMap::<V>::value_at, (&map, i), value),
        call_ensures(EndpointMap::<V>::get, (&map, key), read),
        call_ensures(EndpointMap::<V>::count_outside, (&map, &listed), count),
    ensures
        read == Some(value),
        count == map@.dom().filter(
            |e: Seq<char>| forall|j: int| 0 <= j < listed@.len() ==> (#[trigger] listed@[j])@ != e,
        ).len(),
{
    let a = |e: Seq<char>| !crate::text::views(listed@).contains(e);
    let b = |e: Seq<char>|
        forall|j: int| 0 <= j < listed@.len() ==> (#[trigger] listed@[j])@ != e;
    assert forall|e: Seq<char>| #[trigger] a(e) == b(e) by {
        let views = crate::text::views(listed@);
        if !a(e) {
            let j = choose|j: int| 0 <= j < views.len() && views[j] == e;
            assert(listed@[j]@ == e);
        }
        if !b(e) {
            let j = choose|j: int| 0 <= j < listed@.len() && (#[trigger] listed@[j])@ == e;
            assert(views[j] == e);
        }
    }
    assert(map@.dom().filter(a) =~= map@.dom().filter(b));
}

} // verus!
