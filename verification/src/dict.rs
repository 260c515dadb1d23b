//! A small string-keyed association table with set-of-entries semantics:
//! inserting an existing key overwrites its value, keys stay unique, and
//! the abstract content is a finite map from key characters to the values'
//! deep views.

use vstd::prelude::*;
use crate::text::str_eq;

verus! {

/// The map an entry list stands for; later entries win.
pub open spec fn map_of<V: DeepView>(entries: Seq<(String, V)>) -> Map<Seq<char>, V::V>
    decreases entries.len(),
{
    if entries.len() == 0 {
        Map::empty()
    } else {
        map_of(entries.drop_last()).insert(entries.last().0@, entries.last().1.deep_view())
    }
}

/// A string-keyed table with unique keys, in insertion order.
#[derive(Debug)]
pub struct Dict<V> {
    entries: Vec<(String, V)>,
}

impl<V: DeepView> Dict<V> {
    /// The abstract content of the table.
    pub closed spec fn to_map(self) -> Map<Seq<char>, V::V> {
        map_of(self.entries@)
    }

    /// The entry list, for statements about iteration order.
    pub closed spec fn entries_seq(self) -> Seq<(Seq<char>, V::V)> {
        self.entries@.map(|i: int, e: (String, V)| (e.0@, e.1.deep_view()))
    }

    /// Keys are pairwise distinct.
    pub closed spec fn wf(self) -> bool {
        forall|i: int, j: int|
            0 <= i < j < self.entries@.len() ==> self.entries@[i].0@ != self.entries@[j].0@
    }

    /// An empty table.
    pub fn new() -> (r: Dict<V>)
        ensures
            r.wf(),
            r.to_map() == Map::<Seq<char>, V::V>::empty(),
            r.entries_seq() == Seq::<(Seq<char>, V::V)>::empty(),
    {
        let r = Dict { entries: Vec::new() };
        proof {
            assert(r.entries_seq() =~= Seq::<(Seq<char>, V::V)>::empty());
        }
        r
    }

    /// Number of entries, which equals the size of the abstract map.
    pub fn len(&self) -> (r: usize)
        requires
            self.wf(),
        ensures
            r == self.entries_seq().len(),
            r == self.to_map().dom().len(),
    {
        proof {
            lemma_map_of_len(self.entries@);
        }
        self.entries.len()
    }

    /// Inserts a key-value pair, overwriting any entry with the same key.
    pub fn insert(&mut self, key: String, value: V)
        requires
            old(self).wf(),
        ensures
            final(self).wf(),
            final(self).to_map() == old(self).to_map().insert(key@, value.deep_view()),
    {
        let n = self.entries.len();
        let mut i: usize = 0;
        while i < n
            invariant
                n == self.entries@.len(),
                0 <= i <= n,
                self == old(self),
                old(self).wf(),
                forall|j: int| 0 <= j < i ==> self.entries@[j].0@ != key@,
            decreases n - i,
        {
            if str_eq(self.entries[i].0.as_str(), key.as_str()) {
                proof {
                    lemma_map_of_update(self.entries@, i as int, (key, value));
                }
                self.entries[i] = (key, value);
                return ;
            }
            i += 1;
        }
        proof {
            let pushed = self.entries@.push((key, value));
            assert(pushed.drop_last() =~= self.entries@);
        }
        self.entries.push((key, value));
    }

    /// Looks a key up.
    pub fn get(&self, key: &str) -> (r: Option<&V>)
        requires
            self.wf(),
        ensures
            match r {
                Some(v) => self.to_map().contains_key(key@) && v.deep_view()
                    == self.to_map().index(key@),
                None => !self.to_map().contains_key(key@),
            },
    {
        let n = self.entries.len();
        let mut i: usize = 0;
        while i < n
            invariant
                self.wf(),
                n == self.entries@.len(),
                0 <= i <= n,
                forall|j: int| 0 <= j < i ==> self.entries@[j].0@ != key@,
            decreases n - i,
        {
            if str_eq(self.entries[i].0.as_str(), key) {
                proof {
                    lemma_map_of_index(self.entries@, i as int);
                }
                return Some(&self.entries[i].1);
            }
            i += 1;
        }
        proof {
            lemma_map_of_contains(self.entries@, key@);
        }
        None
    }

    /// Whether a key is present.
    pub fn contains_key(&self, key: &str) -> (r: bool)
        requires
            self.wf(),
        ensures
            r == self.to_map().contains_key(key@),
    {
        self.get(key).is_some()
    }

    /// All keys, in entry order.
    pub fn keys(&self) -> (r: Vec<String>)
        requires
            self.wf(),
        ensures
            r.deep_view() =~= self.entries_seq().map_values(|e: (Seq<char>, V::V)| e.0),
            forall|k: Seq<char>| self.to_map().contains_key(k) <==> r.deep_view().contains(k),
    {
        let n = self.entries.len();
        let mut r: Vec<String> = Vec::new();
        let mut i: usize = 0;
        while i < n
            invariant
                self.wf(),
                n == self.entries@.len(),
                0 <= i <= n,
                r@.len() == i,
                forall|j: int| 0 <= j < i ==> r@[j]@ == self.entries@[j].0@,
            decreases n - i,
        {
            let k = self.entries[i].0.clone();
            r.push(k);
            i += 1;
        }
        proof {
            assert forall|j: int| 0 <= j < n implies r.deep_view()[j] == self.entries@[j].0@ by {
                assert(r@[j]@ == self.entries@[j].0@);
            }
            assert(r.deep_view() =~= self.entries_seq().map_values(
                |e: (Seq<char>, V::V)| e.0,
            ));
            assert forall|k: Seq<char>|
                self.to_map().contains_key(k) <==> r.deep_view().contains(k) by {
                lemma_map_of_contains(self.entries@, k);
                if self.to_map().contains_key(k) {
                    let j = choose|j: int|
                        0 <= j < self.entries@.len() && self.entries@[j].0@ == k;
                    assert(r.deep_view()[j] == k);
                }
                if r.deep_view().contains(k) {
                    let j = choose|j: int| 0 <= j < r.deep_view().len() && r.deep_view()[j] == k;
                    assert(self.entries@[j].0@ == k);
                }
            }
        }
        r
    }

    /// The entry at a position, for iteration.
    pub fn entry_at(&self, i: usize) -> (r: (&String, &V))
        requires
            i < self.entries_seq().len(),
        ensures
            r.0@ == self.entries_seq()[i as int].0,
            r.1.deep_view() == self.entries_seq()[i as int].1,
    {
        let e = &self.entries[i];
        (&e.0, &e.1)
    }

    /// Number of entries, without any well-formedness demand.
    pub fn entry_count(&self) -> (r: usize)
        ensures
            r == self.entries_seq().len(),
    {
        self.entries.len()
    }

    /// The abstract map is the map of the entry list.
    pub proof fn lemma_to_map_entries(self)
        ensures
            self.to_map() == pairs_map(self.entries_seq()),
    {
        lemma_pairs_map_of_entries(self.entries@);
    }
}

/// The map a list of abstract pairs stands for; later pairs win.
pub open spec fn pairs_map<V>(pairs: Seq<(Seq<char>, V)>) -> Map<Seq<char>, V>
    decreases pairs.len(),
{
    if pairs.len() == 0 {
        Map::empty()
    } else {
        pairs_map(pairs.drop_last()).insert(pairs.last().0, pairs.last().1)
    }
}

/// The entry list and the abstract map agree.
pub proof fn lemma_pairs_map_of_entries<V: DeepView>(entries: Seq<(String, V)>)
    ensures
        pairs_map(entries.map(|i: int, e: (String, V)| (e.0@, e.1.deep_view()))) == map_of(
            entries,
        ),
    decreases entries.len(),
{
    let pairs = entries.map(|i: int, e: (String, V)| (e.0@, e.1.deep_view()));
    if entries.len() > 0 {
        lemma_pairs_map_of_entries(entries.drop_last());
        assert(pairs.drop_last() =~= entries.drop_last().map(
            |i: int, e: (String, V)| (e.0@, e.1.deep_view()),
        ));
        assert(pairs.last() == (entries.last().0@, entries.last().1.deep_view()));
    } else {
        assert(pairs.len() == 0);
    }
}

/// The same map with every key extended by a fixed prefix.
pub open spec fn prefix_map<V>(prefix: Seq<char>, m: Map<Seq<char>, V>) -> Map<Seq<char>, V> {
    Map::new(
        |k: Seq<char>|
            k.len() >= prefix.len() && k.subrange(0, prefix.len() as int) == prefix
                && m.contains_key(k.skip(prefix.len() as int)),
        |k: Seq<char>| m[k.skip(prefix.len() as int)],
    )
}

/// Prefixing commutes with insertion.
pub proof fn lemma_prefix_map_insert<V>(
    prefix: Seq<char>,
    m: Map<Seq<char>, V>,
    k: Seq<char>,
    v: V,
)
    ensures
        prefix_map(prefix, m.insert(k, v)) == prefix_map(prefix, m).insert(prefix + k, v),
{
    let lhs = prefix_map(prefix, m.insert(k, v));
    let rhs = prefix_map(prefix, m).insert(prefix + k, v);
    assert((prefix + k).subrange(0, prefix.len() as int) =~= prefix);
    assert((prefix + k).skip(prefix.len() as int) =~= k);
    assert forall|q: Seq<char>| #[trigger] lhs.contains_key(q) implies rhs.contains_key(q)
        && lhs[q] == rhs[q] by {
        if q != prefix + k {
            assert(q.skip(prefix.len() as int) != k) by {
                if q.skip(prefix.len() as int) == k {
                    assert(q =~= prefix + k);
                }
            }
        }
    }
    assert forall|q: Seq<char>| #[trigger] rhs.contains_key(q) implies lhs.contains_key(q) by {
        if q != prefix + k {
            assert(q.skip(prefix.len() as int) != k) by {
                if q.skip(prefix.len() as int) == k {
                    assert(q =~= prefix + k);
                }
            }
        }
    }
    assert(lhs =~= rhs);
}

/// Prepending a pair matters only when no later entry holds its key.
pub proof fn lemma_pairs_prepend<V>(k: Seq<char>, v: V, rest: Seq<(Seq<char>, V)>)
    ensures
        pairs_map(seq![(k, v)] + rest) == (if pairs_map(rest).contains_key(k) {
            pairs_map(rest)
        } else {
            pairs_map(rest).insert(k, v)
        }),
    decreases rest.len(),
{
    let cons = seq![(k, v)] + rest;
    if rest.len() == 0 {
        assert(cons.drop_last() =~= Seq::<(Seq<char>, V)>::empty());
        assert(cons.last() == (k, v));
        assert(pairs_map(cons.drop_last()) =~= Map::<Seq<char>, V>::empty());
        assert(pairs_map(rest) =~= Map::<Seq<char>, V>::empty());
        assert(pairs_map(cons) =~= pairs_map(rest).insert(k, v));
    } else {
        assert(cons.drop_last() =~= seq![(k, v)] + rest.drop_last());
        lemma_pairs_prepend(k, v, rest.drop_last());
        assert(cons.last() == rest.last());
        lemma_pairs_map_contains(rest, k);
        lemma_pairs_map_contains(rest.drop_last(), k);
        if pairs_map(rest).contains_key(k) {
            assert(pairs_map(cons) =~= pairs_map(rest));
        } else {
            assert(!pairs_map(rest.drop_last()).contains_key(k)) by {
                if exists|i: int|
                    0 <= i < rest.drop_last().len() && rest.drop_last()[i].0 == k {
                    let i = choose|i: int|
                        0 <= i < rest.drop_last().len() && rest.drop_last()[i].0 == k;
                    assert(rest[i].0 == k);
                }
            }
            assert(rest.last().0 != k) by {
                assert(rest[rest.len() - 1].0 == rest.last().0);
            }
            assert(pairs_map(cons) =~= pairs_map(rest).insert(k, v));
        }
    }
}

/// A key is in the pair map exactly when some pair holds it.
pub proof fn lemma_pairs_map_contains<V>(pairs: Seq<(Seq<char>, V)>, k: Seq<char>)
    ensures
        pairs_map(pairs).contains_key(k) <==> exists|i: int|
            0 <= i < pairs.len() && pairs[i].0 == k,
    decreases pairs.len(),
{
    if pairs.len() > 0 {
        lemma_pairs_map_contains(pairs.drop_last(), k);
        if pairs_map(pairs).contains_key(k) {
            if pairs.last().0 != k {
                let i = choose|i: int|
                    0 <= i < pairs.drop_last().len() && pairs.drop_last()[i].0 == k;
                assert(pairs[i].0 == k);
            } else {
                assert(pairs[pairs.len() - 1].0 == k);
            }
        }
        if exists|i: int| 0 <= i < pairs.len() && pairs[i].0 == k {
            let i = choose|i: int| 0 <= i < pairs.len() && pairs[i].0 == k;
            if i < pairs.len() - 1 {
                assert(pairs.drop_last()[i].0 == k);
            }
        }
    }
}

/// Inserting into the right side of a union is inserting into the union.
pub proof fn lemma_union_insert<V>(
    a: Map<Seq<char>, V>,
    b: Map<Seq<char>, V>,
    k: Seq<char>,
    v: V,
)
    ensures
        a.union_prefer_right(b.insert(k, v)) == a.union_prefer_right(b).insert(k, v),
{
    assert(a.union_prefer_right(b.insert(k, v)) =~= a.union_prefer_right(b).insert(k, v));
}

/// A key is in the map exactly when some entry holds it.
pub proof fn lemma_map_of_contains<V: DeepView>(entries: Seq<(String, V)>, k: Seq<char>)
    ensures
        map_of(entries).contains_key(k) <==> exists|i: int|
            0 <= i < entries.len() && entries[i].0@ == k,
    decreases entries.len(),
{
    if entries.len() > 0 {
        lemma_map_of_contains(entries.drop_last(), k);
        if map_of(entries).contains_key(k) {
            if entries.last().0@ != k {
                let i = choose|i: int|
                    0 <= i < entries.drop_last().len() && entries.drop_last()[i].0@ == k;
                assert(entries[i].0@ == k);
            } else {
                assert(entries[entries.len() - 1].0@ == k);
            }
        }
        if exists|i: int| 0 <= i < entries.len() && entries[i].0@ == k {
            let i = choose|i: int| 0 <= i < entries.len() && entries[i].0@ == k;
            if i < entries.len() - 1 {
                assert(entries.drop_last()[i].0@ == k);
            }
        }
    }
}

/// With no equal key later in the list, an entry gives the map's value at
/// its key.
pub proof fn lemma_map_of_index<V: DeepView>(entries: Seq<(String, V)>, i: int)
    requires
        0 <= i < entries.len(),
        forall|j: int| i < j < entries.len() ==> entries[j].0@ != entries[i].0@,
    ensures
        map_of(entries).contains_key(entries[i].0@),
        map_of(entries)[entries[i].0@] == entries[i].1.deep_view(),
    decreases entries.len(),
{
    if i == entries.len() - 1 {
    } else {
        assert(entries.drop_last()[i] == entries[i]);
        lemma_map_of_index(entries.drop_last(), i);
    }
}

/// The abstract map is finite and, under key uniqueness, exactly as large
/// as the entry list.
pub proof fn lemma_map_of_len<V: DeepView>(entries: Seq<(String, V)>)
    requires
        forall|i: int, j: int| 0 <= i < j < entries.len() ==> entries[i].0@ != entries[j].0@,
    ensures
        map_of(entries).dom().finite(),
        map_of(entries).dom().len() == entries.len(),
    decreases entries.len(),
{
    if entries.len() > 0 {
        lemma_map_of_len(entries.drop_last());
        lemma_map_of_contains(entries.drop_last(), entries.last().0@);
        assert(!map_of(entries.drop_last()).contains_key(entries.last().0@)) by {
            if exists|i: int|
                0 <= i < entries.drop_last().len() && entries.drop_last()[i].0@
                    == entries.last().0@ {
                let i = choose|i: int|
                    0 <= i < entries.drop_last().len() && entries.drop_last()[i].0@
                        == entries.last().0@;
                assert(entries[i].0@ == entries[entries.len() - 1].0@);
            }
        }
        assert(map_of(entries).dom() =~= map_of(entries.drop_last()).dom().insert(
            entries.last().0@,
        ));
        vstd::set::axiom_set_insert_finite(map_of(entries.drop_last()).dom(), entries.last().0@);
        vstd::set::axiom_set_insert_len(map_of(entries.drop_last()).dom(), entries.last().0@);
    } else {
        assert(map_of(entries).dom() =~= Set::<Seq<char>>::empty());
    }
}

/// Overwriting the entry that holds a key updates the map at that key.
pub proof fn lemma_map_of_update<V: DeepView>(entries: Seq<(String, V)>, i: int, e: (String, V))
    requires
        0 <= i < entries.len(),
        entries[i].0@ == e.0@,
        forall|j: int, k: int| 0 <= j < k < entries.len() ==> entries[j].0@ != entries[k].0@,
    ensures
        map_of(entries.update(i, e)) == map_of(entries).insert(e.0@, e.1.deep_view()),
    decreases entries.len(),
{
    let upd = entries.update(i, e);
    if i == entries.len() - 1 {
        assert(upd.drop_last() =~= entries.drop_last());
        assert(map_of(upd) =~= map_of(entries).insert(e.0@, e.1.deep_view()));
    } else {
        assert(upd.drop_last() =~= entries.drop_last().update(i, e));
        assert(entries.drop_last()[i] == entries[i]);
        lemma_map_of_update(entries.drop_last(), i, e);
        assert(upd.last() == entries.last());
        assert(entries.last().0@ != e.0@) by {
            assert(entries[i].0@ != entries[entries.len() - 1].0@);
        }
        assert(map_of(upd) =~= map_of(entries).insert(e.0@, e.1.deep_view()));
    }
}

} // verus!
