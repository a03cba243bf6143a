//! How the keys of a raft instance are laid out in its column families.
use vstd::prelude::*;
use vstd::string::*;

verus! {

/// The pieces of raft metadata that share one column family.
#[derive(Clone, Copy, Debug, PartialEq, Eq, Hash, Structural)]
pub enum MetaLabel {
    Vote,
    Committed,
    LastPurged,
    LastMembership,
}

impl MetaLabel {
    /// The label's name.
    pub open spec fn name(self) -> &'static str {
        match self {
            MetaLabel::Vote => "vote",
            MetaLabel::Committed => "committed",
            MetaLabel::LastPurged => "last_purged",
            MetaLabel::LastMembership => "last_membership",
        }
    }

    /// The label's name in ASCII.
    pub fn as_bytes(self) -> (r: &'static [u8])
        ensures
            r@ == ascii(self.name()@),
    {
        proof {
            reveal_strlit("vote");
            reveal_strlit("committed");
            reveal_strlit("last_purged");
            reveal_strlit("last_membership");
        }
        let name: &'static str = match self {
            MetaLabel::Vote => "vote",
            MetaLabel::Committed => "committed",
            MetaLabel::LastPurged => "last_purged",
            MetaLabel::LastMembership => "last_membership",
        };
        let r = name.as_bytes();
        assert(name.is_ascii());
        assert(r@ =~= ascii(self.name()@));
        r
    }
}

/// ASCII characters as bytes.
pub open spec fn ascii(text: Seq<char>) -> Seq<u8> {
    Seq::new(text.len(), |i: int| text[i] as u8)
}

/// The order in which a database visits keys: by the first byte in which they differ, and a key
/// before its extensions.
pub open spec fn key_lt(a: Seq<u8>, b: Seq<u8>) -> bool
    decreases a.len(),
{
    if b.len() == 0 {
        false
    } else if a.len() == 0 {
        true
    } else if a[0] != b[0] {
        a[0] < b[0]
    } else {
        key_lt(a.drop_first(), b.drop_first())
    }
}

/// A key that is the same or comes before.
pub open spec fn key_le(a: Seq<u8>, b: Seq<u8>) -> bool {
    a == b || key_lt(a, b)
}

/// A layout of a raft instance's keys.
///
/// - Log keys are ordered by index, so that visiting them in key order visits entries in index
///   order.
/// - The log range is the smallest `[lo, hi)` that holds every log key.
/// - Metadata keys differ from each other and from every log key.
pub trait KeySpace: core::fmt::Debug + Send + Sync + 'static {
    /// The key of the log entry at `index`.
    spec fn log_key_at(&self, index: u64) -> Seq<u8>;

    /// The first key of the log range.
    spec fn range_start(&self) -> Seq<u8>;

    /// The first key behind the log range.
    spec fn range_end(&self) -> Seq<u8>;

    /// The key of a piece of metadata.
    spec fn meta_key_of(&self, label: MetaLabel) -> Seq<u8>;

    /// The key of the log entry at `index`.
    fn log_key(&self, index: u64) -> (r: Vec<u8>)
        ensures
            r@ == self.log_key_at(index),
    ;

    /// The range `[lo, hi)` of all log keys.
    fn log_range(&self) -> (r: (Vec<u8>, Vec<u8>))
        ensures
            r.0@ == self.range_start(),
            r.1@ == self.range_end(),
    ;

    /// The key of a piece of metadata.
    fn meta_key(&self, label: MetaLabel) -> (r: Vec<u8>)
        ensures
            r@ == self.meta_key_of(label),
    ;

    /// Log keys are ordered by index.
    proof fn law_log_keys_ordered(&self, a: u64, b: u64)
        ensures
            key_lt(self.log_key_at(a), self.log_key_at(b)) <==> a < b,
    ;

    /// Every log key lies in the log range.
    proof fn law_range_holds_all(&self, index: u64)
        ensures
            key_le(self.range_start(), self.log_key_at(index)),
            key_lt(self.log_key_at(index), self.range_end()),
    ;

    /// Every other range that holds all log keys holds the log range.
    proof fn law_range_is_smallest(&self, lo: Seq<u8>, hi: Seq<u8>)
        requires
            forall|index: u64| #[trigger]
                key_le(lo, self.log_key_at(index)) && key_lt(self.log_key_at(index), hi),
        ensures
            key_le(lo, self.range_start()),
            key_le(self.range_end(), hi),
    ;

    /// Metadata keys differ from each other and from every log key.
    proof fn law_meta_keys_apart(&self, a: MetaLabel, b: MetaLabel, index: u64)
        ensures
            a != b ==> self.meta_key_of(a) != self.meta_key_of(b),
            self.meta_key_of(a) != self.log_key_at(index),
    ;
}

/// The last `n` bytes of `value` in base 256, most significant first.
pub open spec fn big_endian(value: nat, n: nat) -> Seq<u8>
    decreases n,
{
    if n == 0 {
        Seq::empty()
    } else {
        big_endian(value / 256, (n - 1) as nat).push((value % 256) as u8)
    }
}

/// 256 to the power of `n`.
pub open spec fn pow256(n: nat) -> nat
    decreases n,
{
    if n == 0 {
        1
    } else {
        256 * pow256((n - 1) as nat)
    }
}

proof fn lemma_big_endian_len(value: nat, n: nat)
    ensures
        big_endian(value, n).len() == n,
    decreases n,
{
    if n > 0 {
        lemma_big_endian_len(value / 256, (n - 1) as nat);
    }
}

proof fn lemma_lt_push(a: Seq<u8>, b: Seq<u8>, x: u8, y: u8)
    requires
        a.len() == b.len(),
    ensures
        key_lt(a.push(x), b.push(y)) <==> (key_lt(a, b) || (a == b && x < y)),
    decreases a.len(),
{
    if a.len() == 0 {
        assert(a.push(x)[0] == x && b.push(y)[0] == y);
        assert(a.push(x).drop_first() =~= Seq::empty());
        assert(b.push(y).drop_first() =~= Seq::empty());
        assert(a =~= b);
        assert(!key_lt(Seq::<u8>::empty(), Seq::<u8>::empty()));
    } else {
        lemma_lt_push(a.drop_first(), b.drop_first(), x, y);
        assert(a.push(x).drop_first() =~= a.drop_first().push(x));
        assert(b.push(y).drop_first() =~= b.drop_first().push(y));
        if a[0] == b[0] {
            assert(a.drop_first() == b.drop_first() ==> a == b) by {
                if a.drop_first() == b.drop_first() {
                    assert forall|i: int| 0 <= i < a.len() implies a[i] == b[i] by {
                        if i > 0 {
                            assert(a.drop_first()[i - 1] == b.drop_first()[i - 1]);
                        }
                    }
                    assert(a =~= b);
                }
            }
        }
    }
}

proof fn lemma_big_endian_order(v: nat, w: nat, n: nat)
    requires
        v < pow256(n),
        w < pow256(n),
    ensures
        key_lt(big_endian(v, n), big_endian(w, n)) <==> v < w,
        big_endian(v, n) == big_endian(w, n) <==> v == w,
    decreases n,
{
    if n == 0 {
        assert(!key_lt(Seq::<u8>::empty(), Seq::<u8>::empty()));
    } else {
        let m = (n - 1) as nat;
        lemma_big_endian_order(v / 256, w / 256, m);
        lemma_big_endian_len(v / 256, m);
        lemma_big_endian_len(w / 256, m);
        let a = big_endian(v / 256, m);
        let b = big_endian(w / 256, m);
        let x = (v % 256) as u8;
        let y = (w % 256) as u8;
        lemma_lt_push(a, b, x, y);
        assert(a.push(x) == b.push(y) ==> a == b && x == y) by {
            if a.push(x) == b.push(y) {
                assert(a.push(x).drop_last() =~= a);
                assert(b.push(y).drop_last() =~= b);
                assert(a.push(x).last() == x);
                assert(b.push(y).last() == y);
            }
        }
    }
}

proof fn lemma_pow256_8()
    ensures
        pow256(8) == 0x1_0000_0000_0000_0000,
{
    reveal_with_fuel(pow256, 9);
}

proof fn lemma_lt_successor(a: Seq<u8>, b: Seq<u8>)
    requires
        key_lt(a, b),
    ensures
        key_le(a.push(0), b),
    decreases a.len(),
{
    if a.len() == 0 {
        if b[0] == 0 {
            assert(a.push(0).drop_first() =~= Seq::empty());
            if b.len() == 1 {
                assert(a.push(0) =~= b);
            } else {
                assert(key_lt(Seq::<u8>::empty(), b.drop_first()));
                assert(a.push(0)[0] == 0);
            }
        } else {
            assert(a.push(0)[0] == 0);
        }
    } else if a[0] == b[0] {
        lemma_lt_successor(a.drop_first(), b.drop_first());
        assert(a.push(0).drop_first() =~= a.drop_first().push(0));
        assert(a.push(0)[0] == b[0]);
        if a.drop_first().push(0) == b.drop_first() {
            assert forall|i: int| 0 <= i < b.len() implies a.push(0)[i] == b[i] by {
                if i > 0 {
                    assert(a.drop_first().push(0)[i - 1] == b.drop_first()[i - 1]);
                }
            }
            assert(a.push(0) =~= b);
        }
    } else {
        assert(a.push(0)[0] == a[0]);
    }
}

proof fn lemma_lt_extension(a: Seq<u8>, x: u8)
    ensures
        key_lt(a, a.push(x)),
    decreases a.len(),
{
    if a.len() > 0 {
        lemma_lt_extension(a.drop_first(), x);
        assert(a.push(x).drop_first() =~= a.drop_first().push(x));
    }
}

proof fn lemma_lt_transitive(a: Seq<u8>, b: Seq<u8>, c: Seq<u8>)
    requires
        key_lt(a, b),
        key_lt(b, c),
    ensures
        key_lt(a, c),
    decreases a.len(),
{
    if a.len() > 0 && a[0] == b[0] && b[0] == c[0] {
        lemma_lt_transitive(a.drop_first(), b.drop_first(), c.drop_first());
    }
}

/// `n` bytes of `value` in base 256, most significant first.
fn big_endian_bytes(value: u64, n: usize) -> (r: Vec<u8>)
    ensures
        r@ == big_endian(value as nat, n as nat),
    decreases n,
{
    if n == 0 {
        Vec::new()
    } else {
        let mut r = big_endian_bytes(value / 256, n - 1);
        r.push((value % 256) as u8);
        r
    }
}

/// The layout of a single raft instance: a log key is the index in big-endian order, a metadata key
/// is the label.
#[derive(Clone, Copy, Debug, Default)]
pub struct Flat;

impl KeySpace for Flat {
    open spec fn log_key_at(&self, index: u64) -> Seq<u8> {
        big_endian(index as nat, 8)
    }

    open spec fn range_start(&self) -> Seq<u8> {
        big_endian(0, 8)
    }

    open spec fn range_end(&self) -> Seq<u8> {
        big_endian(u64::MAX as nat, 8).push(0)
    }

    open spec fn meta_key_of(&self, label: MetaLabel) -> Seq<u8> {
        ascii(label.name()@)
    }

    fn log_key(&self, index: u64) -> (r: Vec<u8>) {
        big_endian_bytes(index, 8)
    }

    fn log_range(&self) -> (r: (Vec<u8>, Vec<u8>)) {
        let lo = big_endian_bytes(0, 8);
        let mut hi = big_endian_bytes(u64::MAX, 8);
        hi.push(0);
        (lo, hi)
    }

    fn meta_key(&self, label: MetaLabel) -> (r: Vec<u8>) {
        vstd::slice::slice_to_vec(label.as_bytes())
    }

    proof fn law_log_keys_ordered(&self, a: u64, b: u64) {
        lemma_pow256_8();
        lemma_big_endian_order(a as nat, b as nat, 8);
    }

    proof fn law_range_holds_all(&self, index: u64) {
        lemma_pow256_8();
        lemma_big_endian_order(0, index as nat, 8);
        lemma_big_endian_order(index as nat, u64::MAX as nat, 8);
        let last = big_endian(u64::MAX as nat, 8);
        lemma_lt_extension(last, 0);
        if index < u64::MAX {
            lemma_lt_transitive(self.log_key_at(index), last, self.range_end());
        }
    }

    proof fn law_range_is_smallest(&self, lo: Seq<u8>, hi: Seq<u8>) {
        assert(key_le(lo, self.log_key_at(0)));
        assert(key_le(lo, self.log_key_at(u64::MAX)));
        lemma_lt_successor(self.log_key_at(u64::MAX), hi);
    }

    proof fn law_meta_keys_apart(&self, a: MetaLabel, b: MetaLabel, index: u64) {
        reveal_strlit("vote");
        reveal_strlit("committed");
        reveal_strlit("last_purged");
        reveal_strlit("last_membership");
        lemma_big_endian_len(index as nat, 8);
        assert(self.meta_key_of(a).len() == a.name()@.len());
        assert(self.meta_key_of(b).len() == b.name()@.len());
    }
}

/// A log key is the index in eight bytes, the most significant first.
pub proof fn law_a_log_key_is_the_index(space: Flat, index: u64, key: Vec<u8>)
    requires
        call_ensures(<Flat as KeySpace>::log_key, (&space, index), key),
    ensures
        key@.len() == 8,
        index == key@[0] * 0x100_0000_0000_0000 + key@[1] * 0x1_0000_0000_0000 + key@[2]
            * 0x100_0000_0000 + key@[3] * 0x1_0000_0000 + key@[4] * 0x100_0000 + key@[5] * 0x1_0000
            + key@[6] * 0x100 + key@[7],
{
    lemma_eight_bytes(index);
}

proof fn lemma_eight_bytes(index: u64)
    ensures
        ({
            let key = big_endian(index as nat, 8);
            &&& key.len() == 8
            &&& index == key[0] * 0x100_0000_0000_0000 + key[1] * 0x1_0000_0000_0000 + key[2]
                * 0x100_0000_0000 + key[3] * 0x1_0000_0000 + key[4] * 0x100_0000 + key[5]
                * 0x1_0000 + key[6] * 0x100 + key[7]
        }),
{
    reveal_with_fuel(big_endian, 9);
    let n = index as nat;
    let key = big_endian(n, 8);
    assert(key.len() == 8);
    assert(key[7] == n % 256);
    assert(key[6] == n / 256 % 256);
    assert(key[5] == n / 256 / 256 % 256);
    assert(key[4] == n / 256 / 256 / 256 % 256);
    assert(key[3] == n / 256 / 256 / 256 / 256 % 256);
    assert(key[2] == n / 256 / 256 / 256 / 256 / 256 % 256);
    assert(key[1] == n / 256 / 256 / 256 / 256 / 256 / 256 % 256);
    assert(key[0] == n / 256 / 256 / 256 / 256 / 256 / 256 / 256 % 256);
}

/// The log range goes from eight bytes of zero to the one byte of zero behind eight bytes of 255.
pub proof fn law_the_ends_of_the_log_range(space: Flat, range: (Vec<u8>, Vec<u8>))
    requires
        call_ensures(<Flat as KeySpace>::log_range, (&space,), range),
    ensures
        range.0@.len() == 8 && forall|i: int| 0 <= i < 8 ==> range.0@[i] == 0,
        range.1@.len() == 9 && range.1@[8] == 0 && forall|i: int| 0 <= i < 8 ==> range.1@[i] == 255,
{
    lemma_eight_bytes(0);
    lemma_eight_bytes(u64::MAX);
}

/// A metadata key is the name of its label, letter by letter.
pub proof fn law_a_metadata_key_is_its_name(
    space: Flat,
    label: MetaLabel,
    key: Vec<u8>,
    name: &'static [u8],
)
    requires
        call_ensures(<Flat as KeySpace>::meta_key, (&space, label), key),
        call_ensures(MetaLabel::as_bytes, (label,), name),
    ensures
        key@ == name@,
        key@ == ascii(
            match label {
                MetaLabel::Vote => "vote"@,
                MetaLabel::Committed => "committed"@,
                MetaLabel::LastPurged => "last_purged"@,
                MetaLabel::LastMembership => "last_membership"@,
            },
        ),
        forall|i: int|
            0 <= i < key@.len() ==> 'a' as int <= (#[trigger] key@[i]) <= 'z' as int || key@[i]
                == '_' as int,
{
    reveal_strlit("vote");
    reveal_strlit("committed");
    reveal_strlit("last_purged");
    reveal_strlit("last_membership");
}

} // verus!
