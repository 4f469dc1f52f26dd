//! Key-value tables with distinct keys, kept in insertion order.
//!
//! A table stands for the hash maps of the token state. Its entries come out
//! in the order in which their keys were first inserted; inserting a key that
//! is present replaces its value in place.

use vstd::prelude::*;
use crate::holder::Holder;

verus! {

/// Keys that a table can compare and copy.
pub trait TableKey: View + Sized {
    fn same_key(&self, other: &Self) -> (b: bool)
        ensures
            b == (self@ == other@),
    ;

    fn copy_key(&self) -> (k: Self)
        ensures
            k@ == self@,
    ;
}

impl TableKey for String {
    fn same_key(&self, other: &Self) -> (b: bool) {
        *self == *other
    }

    fn copy_key(&self) -> (k: Self) {
        self.clone()
    }
}

impl TableKey for u128 {
    fn same_key(&self, other: &Self) -> (b: bool) {
        *self == *other
    }

    fn copy_key(&self) -> (k: Self) {
        *self
    }
}

impl TableKey for Holder {
    fn same_key(&self, other: &Self) -> (b: bool) {
        self.same_as(other)
    }

    fn copy_key(&self) -> (k: Self) {
        self.duplicate()
    }
}

/// No key occurs twice among the pairs.
pub open spec fn keys_distinct<K: View, V>(s: Seq<(K, V)>) -> bool {
    forall|i: int, j: int| 0 <= i < j < s.len() ==> s[i].0@ != s[j].0@
}

/// The map that results from inserting the pairs into `m`, first to last:
/// a later pair overrides an earlier one with the same key.
pub open spec fn insert_pairs<K: View, V>(m: Map<K::V, V>, s: Seq<(K, V)>) -> Map<K::V, V>
    decreases s.len(),
{
    if s.len() == 0 {
        m
    } else {
        insert_pairs(m, s.drop_last()).insert(s.last().0@, s.last().1)
    }
}

/// The map that a sequence of pairs describes, a later pair winning.
pub open spec fn pairs_to_map<K: View, V>(s: Seq<(K, V)>) -> Map<K::V, V> {
    insert_pairs(Map::empty(), s)
}

/// Inserting one more pair at the end.
pub proof fn lemma_insert_pairs_push<K: View, V>(m: Map<K::V, V>, s: Seq<(K, V)>, p: (K, V))
    ensures
        insert_pairs(m, s.push(p)) == insert_pairs(m, s).insert(p.0@, p.1),
{
    assert(s.push(p).drop_last() =~= s);
}

/// Inserting a concatenation is inserting one part after the other.
pub proof fn lemma_insert_pairs_concat<K: View, V>(m: Map<K::V, V>, s: Seq<(K, V)>, t: Seq<(K, V)>)
    ensures
        insert_pairs(m, s + t) == insert_pairs(insert_pairs(m, s), t),
    decreases t.len(),
{
    if t.len() == 0 {
        assert(s + t =~= s);
    } else {
        lemma_insert_pairs_concat(m, s, t.drop_last());
        assert((s + t).drop_last() =~= s + t.drop_last());
    }
}

/// The keys of the map are those of the pairs, added to those of `m`.
pub proof fn lemma_insert_pairs_dom<K: View, V>(m: Map<K::V, V>, s: Seq<(K, V)>, k: K::V)
    ensures
        insert_pairs(m, s).dom().contains(k) <==> (m.dom().contains(k) || exists|i: int|
            0 <= i < s.len() && #[trigger] s[i].0@ == k),
    decreases s.len(),
{
    if s.len() > 0 {
        lemma_insert_pairs_dom(m, s.drop_last(), k);
        if exists|i: int| 0 <= i < s.len() && #[trigger] s[i].0@ == k {
            let i = choose|i: int| 0 <= i < s.len() && #[trigger] s[i].0@ == k;
            if i < s.len() - 1 {
                assert(s.drop_last()[i].0@ == k);
            }
        }
        if exists|i: int| 0 <= i < s.len() - 1 && #[trigger] s.drop_last()[i].0@ == k {
            let i = choose|i: int| 0 <= i < s.len() - 1 && #[trigger] s.drop_last()[i].0@ == k;
            assert(s[i].0@ == k);
        }
    }
}

/// With distinct keys, the map holds the value of each pair under its key.
pub proof fn lemma_pairs_lookup<K: View, V>(m: Map<K::V, V>, s: Seq<(K, V)>, i: int)
    requires
        keys_distinct(s),
        0 <= i < s.len(),
    ensures
        insert_pairs(m, s).dom().contains(s[i].0@),
        insert_pairs(m, s)[s[i].0@] == s[i].1,
    decreases s.len(),
{
    if i < s.len() - 1 {
        lemma_pairs_lookup(m, s.drop_last(), i);
    }
}

/// Replacing the value of a pair, with distinct keys, replaces it in the map.
pub proof fn lemma_pairs_update<K: View, V>(m: Map<K::V, V>, s: Seq<(K, V)>, i: int, p: (K, V))
    requires
        keys_distinct(s),
        0 <= i < s.len(),
        p.0@ == s[i].0@,
    ensures
        insert_pairs(m, s.update(i, p)) == insert_pairs(m, s).insert(p.0@, p.1),
    decreases s.len(),
{
    let t = s.update(i, p);
    if i == s.len() - 1 {
        assert(t.drop_last() =~= s.drop_last());
        assert(insert_pairs(m, t) =~= insert_pairs(m, s).insert(p.0@, p.1));
    } else {
        assert(t.drop_last() =~= s.drop_last().update(i, p));
        lemma_pairs_update(m, s.drop_last(), i, p);
        assert(s.last().0@ != p.0@);
        assert(insert_pairs(m, t) =~= insert_pairs(m, s).insert(p.0@, p.1));
    }
}

/// The items of a vector in the opposite order, so that popping them
/// yields them first to last.
pub fn reversed<T>(v: Vec<T>) -> (r: Vec<T>)
    ensures
        r.len() == v.len(),
        forall|j: int| 0 <= j < v.len() ==> #[trigger] r@[j] == v@[v.len() - 1 - j],
{
    let ghost all = v@;
    let mut source = v;
    let n = source.len();
    let mut rest: Vec<T> = Vec::new();
    while source.len() > 0
        invariant
            n == all.len(),
            source.len() + rest.len() == n,
            source@ == all.take(source.len() as int),
            forall|j: int| 0 <= j < rest.len() ==> #[trigger] rest@[j] == all[n - 1 - j],
        decreases source.len(),
    {
        let ghost m = source.len();
        let p = source.pop().unwrap();
        proof {
            assert(p == all[m - 1]);
            assert(source@ =~= all.take(m - 1));
        }
        rest.push(p);
    }
    rest
}

/// A table: pairs with distinct keys, in insertion order.
#[derive(Debug)]
pub struct Table<K: TableKey, V> {
    entries: Vec<(K, V)>,
}

impl<K: TableKey, V> Table<K, V> {
    /// The pairs of the table, in insertion order.
    pub closed spec fn pairs(&self) -> Seq<(K, V)> {
        self.entries@
    }

    #[verifier::type_invariant]
    spec fn keys_are_distinct(&self) -> bool {
        keys_distinct(self.entries@)
    }

    pub fn new() -> (t: Self)
        ensures
            t.pairs() == Seq::<(K, V)>::empty(),
            t@ == Map::<K::V, V>::empty(),
    {
        Table { entries: Vec::new() }
    }

    pub fn len(&self) -> (n: usize)
        ensures
            n == self.pairs().len(),
    {
        self.entries.len()
    }

    /// The pairs of the table, in insertion order.
    pub fn entries(&self) -> (e: &Vec<(K, V)>)
        ensures
            e@ == self.pairs(),
            keys_distinct(e@),
    {
        proof {
            use_type_invariant(self);
        }
        &self.entries
    }

    /// The position of a key among the pairs, if it is there.
    fn position(&self, key: &K) -> (r: Option<usize>)
        ensures
            match r {
                Some(i) => i < self.pairs().len() && self.pairs()[i as int].0@ == key@,
                None => forall|j: int| 0 <= j < self.pairs().len() ==> self.pairs()[j].0@ != key@,
            },
    {
        let n = self.entries.len();
        let mut i: usize = 0;
        while i < n
            invariant
                n == self.entries@.len(),
                i <= n,
                forall|j: int| 0 <= j < i ==> self.entries@[j].0@ != key@,
            decreases n - i,
        {
            if self.entries[i].0.same_key(key) {
                return Some(i);
            }
            i = i + 1;
        }
        None
    }

    /// The value stored under a key.
    pub fn get(&self, key: &K) -> (r: Option<&V>)
        ensures
            match r {
                Some(v) => self@.dom().contains(key@) && self@[key@] == *v,
                None => !self@.dom().contains(key@),
            },
    {
        proof {
            use_type_invariant(self);
        }
        match self.position(key) {
            Some(i) => {
                proof {
                    lemma_pairs_lookup(Map::empty(), self.entries@, i as int);
                }
                Some(&self.entries[i].1)
            },
            None => {
                proof {
                    lemma_insert_pairs_dom(Map::<K::V, V>::empty(), self.entries@, key@);
                }
                None
            },
        }
    }

    /// Stores a value under a key, replacing the value that was there.
    pub fn insert(&mut self, key: K, value: V)
        ensures
            final(self)@ == old(self)@.insert(key@, value),
            old(self)@.dom().contains(key@) ==> exists|i: int|
                0 <= i < old(self).pairs().len() && #[trigger] old(self).pairs()[i].0@ == key@
                    && final(self).pairs() == old(self).pairs().update(i, (key, value)),
            !old(self)@.dom().contains(key@) ==> final(self).pairs() == old(self).pairs().push(
                (key, value),
            ),
    {
        proof {
            use_type_invariant(&*self);
            lemma_insert_pairs_dom(Map::<K::V, V>::empty(), self.entries@, key@);
        }
        let pos = self.position(&key);
        let mut entries: Vec<(K, V)> = Vec::new();
        std::mem::swap(&mut entries, &mut self.entries);
        let ghost before = entries@;
        match pos {
            Some(i) => {
                entries.set(i, (key, value));
                proof {
                    lemma_pairs_update(Map::empty(), before, i as int, entries@[i as int]);
                    assert(entries@ == before.update(i as int, entries@[i as int]));
                    assert forall|a: int, b: int| 0 <= a < b < entries@.len() implies entries@[a].0@
                        != entries@[b].0@ by {
                        assert(before[a].0@ != before[b].0@);
                    }
                }
            },
            None => {
                entries.push((key, value));
                proof {
                    lemma_insert_pairs_push(Map::empty(), before, (key, value));
                    assert(entries@ == before.push((key, value)));
                    assert forall|a: int, b: int| 0 <= a < b < entries@.len() implies entries@[a].0@
                        != entries@[b].0@ by {
                        if b < before.len() {
                            assert(before[a].0@ != before[b].0@);
                        }
                    }
                }
            },
        }
        self.entries = entries;
    }

    /// Inserts the pairs one after the other.
    pub fn insert_all(&mut self, pairs: Vec<(K, V)>)
        ensures
            final(self)@ == insert_pairs(old(self)@, pairs@),
    {
        let ghost start = self@;
        let ghost all = pairs@;
        let mut rest = reversed(pairs);
        let n = rest.len();
        let mut i: usize = 0;
        while i < n
            invariant
                n == all.len(),
                i <= n,
                rest.len() == n - i,
                forall|j: int| 0 <= j < n - i ==> #[trigger] rest@[j] == all[n - 1 - j],
                self@ == insert_pairs(start, all.take(i as int)),
            decreases n - i,
        {
            let p = rest.pop().unwrap();
            proof {
                assert(p == all[i as int]);
                assert(all.take(i as int).push(p) =~= all.take(i + 1));
                lemma_insert_pairs_push(start, all.take(i as int), p);
            }
            self.insert(p.0, p.1);
            i = i + 1;
        }
        proof {
            assert(all.take(n as int) =~= all);
        }
    }

    /// A table of the pairs, a later pair winning over an earlier one.
    pub fn from_pairs(pairs: Vec<(K, V)>) -> (t: Self)
        ensures
            t@ == pairs_to_map(pairs@),
    {
        let mut t = Table::new();
        t.insert_all(pairs);
        t
    }

    /// The pairs of the table, in insertion order, given up by the table.
    pub fn into_pairs(self) -> (v: Vec<(K, V)>)
        ensures
            v@ == self.pairs(),
            keys_distinct(v@),
            pairs_to_map(v@) == self@,
    {
        proof {
            use_type_invariant(&self);
        }
        self.entries
    }
}

impl<K: TableKey, V> View for Table<K, V> {
    type V = Map<K::V, V>;

    open spec fn view(&self) -> Map<K::V, V> {
        pairs_to_map(self.pairs())
    }
}

/// After a value is stored under a key, the table gives that value back for
/// the key, and every other key keeps its value or its absence.
pub proof fn lemma_read_after_write<K: TableKey, V>(
    before: Table<K, V>,
    after: Table<K, V>,
    key: K,
    value: V,
    other: K::V,
)
    requires
        after@ == before@.insert(key@, value),
    ensures
        after@.dom().contains(key@),
        after@[key@] == value,
        other != key@ ==> (after@.dom().contains(other) == before@.dom().contains(other)),
        other != key@ && before@.dom().contains(other) ==> after@[other] == before@[other],
{
}

} // verus!
