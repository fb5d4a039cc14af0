//! Maps and sets keyed by text, kept as insertion-ordered lists of distinct keys.
use vstd::prelude::*;

use crate::text::str_eq;

verus! {

/// The map that a list of entries denotes, later entries overriding earlier ones.
pub open spec fn map_of<V>(e: Seq<(String, V)>) -> Map<Seq<char>, V>
    decreases e.len(),
{
    if e.len() == 0 {
        Map::empty()
    } else {
        map_of(e.drop_last()).insert(e.last().0@, e.last().1)
    }
}

/// The keys of a list of entries, in order.
pub open spec fn keys_of<V>(e: Seq<(String, V)>) -> Seq<Seq<char>> {
    e.map_values(|p: (String, V)| p.0@)
}

/// Whether no key occurs twice in a list of entries.
pub open spec fn distinct_keys<V>(e: Seq<(String, V)>) -> bool {
    forall|i: int, j: int| 0 <= i < j < e.len() ==> (#[trigger] e[i]).0@ != (#[trigger] e[j]).0@
}

/// A key is in the map of a list of entries exactly when some entry has it.
pub proof fn lemma_map_of_dom<V>(e: Seq<(String, V)>, k: Seq<char>)
    ensures
        map_of(e).contains_key(k) <==> exists|i: int| 0 <= i < e.len() && (#[trigger] e[i]).0@ == k,
    decreases e.len(),
{
    if e.len() > 0 {
        lemma_map_of_dom(e.drop_last(), k);
        if map_of(e.drop_last()).contains_key(k) {
            let i = choose|i: int| 0 <= i < e.drop_last().len() && (#[trigger] e.drop_last()[i]).0@ == k;
            assert(e[i] == e.drop_last()[i]);
        }
        if exists|i: int| 0 <= i < e.len() && (#[trigger] e[i]).0@ == k {
            let i = choose|i: int| 0 <= i < e.len() && (#[trigger] e[i]).0@ == k;
            if i < e.len() - 1 {
                assert(e.drop_last()[i] == e[i]);
            }
        }
    }
}

/// Where no key occurs twice, each entry's key maps to the entry's value.
pub proof fn lemma_map_of_value<V>(e: Seq<(String, V)>, i: int)
    requires
        distinct_keys(e),
        0 <= i < e.len(),
    ensures
        map_of(e).contains_key(e[i].0@),
        map_of(e)[e[i].0@] == e[i].1,
    decreases e.len(),
{
    if i < e.len() - 1 {
        assert(e.drop_last()[i] == e[i]);
        lemma_map_of_value(e.drop_last(), i);
        assert(e[i].0@ != e.last().0@) by {
            assert(e[e.len() - 1] == e.last());
        }
    }
}

proof fn lemma_map_of_update<V>(e: Seq<(String, V)>, i: int, k: String, v: V)
    requires
        distinct_keys(e),
        0 <= i < e.len(),
        e[i].0@ == k@,
    ensures
        map_of(e.update(i, (k, v))) == map_of(e).insert(k@, v),
    decreases e.len(),
{
    let u = e.update(i, (k, v));
    if i == e.len() - 1 {
        assert(u.drop_last() =~= e.drop_last());
        assert(!map_of(e.drop_last()).contains_key(k@) || true);
        assert(map_of(u) =~= map_of(e).insert(k@, v));
    } else {
        assert(u.drop_last() =~= e.drop_last().update(i, (k, v)));
        assert(distinct_keys(e.drop_last()));
        assert(e.drop_last()[i] == e[i]);
        lemma_map_of_update(e.drop_last(), i, k, v);
        assert(e.last().0@ != k@) by {
            assert(e[e.len() - 1] == e.last());
        }
        assert(map_of(u) =~= map_of(e).insert(k@, v));
    }
}

/// Facts that tie the order of distinct keys to the map they denote.
pub proof fn lemma_entries<V>(e: Seq<(String, V)>)
    requires
        distinct_keys(e),
    ensures
        keys_of(e).len() == map_of(e).dom().len(),
        keys_of(e).no_duplicates(),
        map_of(e).dom().finite(),
        forall|k: Seq<char>| #[trigger] map_of(e).contains_key(k) <==> keys_of(e).contains(k),
        forall|i: int| 0 <= i < keys_of(e).len() ==> map_of(e)[#[trigger] keys_of(e)[i]] == e[i].1,
{
    assert forall|k: Seq<char>| #[trigger] map_of(e).contains_key(k) <==> keys_of(e).contains(k) by {
        lemma_map_of_dom(e, k);
        if keys_of(e).contains(k) {
            let i = choose|i: int| 0 <= i < keys_of(e).len() && keys_of(e)[i] == k;
            assert(e[i].0@ == k);
        }
        if map_of(e).contains_key(k) {
            let i = choose|i: int| 0 <= i < e.len() && (#[trigger] e[i]).0@ == k;
            assert(keys_of(e)[i] == k);
        }
    }
    assert forall|i: int| 0 <= i < keys_of(e).len() implies map_of(e)[#[trigger] keys_of(e)[i]] == e[i].1 by {
        lemma_map_of_value(e, i);
    }
    assert(keys_of(e).no_duplicates()) by {
        assert forall|i: int, j: int|
            0 <= i < keys_of(e).len() && 0 <= j < keys_of(e).len() && i != j implies keys_of(e)[i] != keys_of(e)[j] by {
            if i < j {
                assert(e[i].0@ != e[j].0@);
            } else {
                assert(e[j].0@ != e[i].0@);
            }
        }
    }
    keys_of(e).unique_seq_to_set();
    assert(keys_of(e).to_set() =~= map_of(e).dom());
}

/// A map from text keys to values. Its entries keep the order in which their
/// keys were first inserted, and no key occurs twice.
#[derive(Debug)]
pub struct StrMap<V> {
    entries: Vec<(String, V)>,
}

impl<V> View for StrMap<V> {
    type V = Map<Seq<char>, V>;

    closed spec fn view(&self) -> Map<Seq<char>, V> {
        map_of(self.entries@)
    }
}

impl<V> StrMap<V> {
    #[verifier::type_invariant]
    closed spec fn inv(self) -> bool {
        distinct_keys(self.entries@)
    }

    /// The keys, in the order in which they were first inserted.
    pub closed spec fn key_seq(&self) -> Seq<Seq<char>> {
        keys_of(self.entries@)
    }

    /// The value stored under the key at position `i` of `key_seq`.
    pub closed spec fn value_at(&self, i: int) -> V {
        self.entries@[i].1
    }

    /// An empty map.
    pub fn new() -> (r: Self)
        ensures
            r@ == Map::<Seq<char>, V>::empty(),
            r.key_seq() == Seq::<Seq<char>>::empty(),
    {
        let r = StrMap { entries: Vec::new() };
        assert(r.key_seq() =~= Seq::<Seq<char>>::empty());
        r
    }

    /// The number of keys. The keys in order are distinct, they are exactly
    /// the keys of the map, and each is mapped to the value stored with it.
    pub fn len(&self) -> (r: usize)
        ensures
            r == self.key_seq().len(),
            r == self@.dom().len(),
            self.key_seq().no_duplicates(),
            self@.dom().finite(),
            forall|k: Seq<char>| #[trigger] self@.contains_key(k) <==> self.key_seq().contains(k),
            forall|i: int|
                0 <= i < self.key_seq().len() ==> self@[#[trigger] self.key_seq()[i]] == self.value_at(i),
    {
        proof {
            use_type_invariant(self);
            lemma_entries(self.entries@);
        }
        self.entries.len()
    }

    /// Whether the map holds no key.
    pub fn is_empty(&self) -> (r: bool)
        ensures
            r == (self@.dom().len() == 0),
            r == (self@ == Map::<Seq<char>, V>::empty()),
    {
        proof {
            use_type_invariant(self);
            lemma_entries(self.entries@);
            if self@.dom().len() == 0 {
                assert(self@.dom() =~= Set::<Seq<char>>::empty());
                assert(self@ =~= Map::<Seq<char>, V>::empty());
            }
        }
        self.entries.len() == 0
    }

    /// The position of `k` among the keys, if it is there.
    fn find(&self, k: &str) -> (r: Option<usize>)
        ensures
            match r {
                Some(i) => i < self.entries@.len() && self.entries@[i as int].0@ == k@,
                None => forall|i: int| 0 <= i < self.entries@.len() ==> (#[trigger] self.entries@[i]).0@ != k@,
            },
    {
        let mut i: usize = 0;
        while i < self.entries.len()
            invariant
                i <= self.entries@.len(),
                forall|j: int| 0 <= j < i ==> (#[trigger] self.entries@[j]).0@ != k@,
            decreases self.entries@.len() - i,
        {
            if str_eq(self.entries[i].0.as_str(), k) {
                return Some(i);
            }
            i = i + 1;
        }
        None
    }

    /// Whether `k` is a key.
    pub fn contains_key(&self, k: &str) -> (r: bool)
        ensures
            r == self@.contains_key(k@),
    {
        proof {
            lemma_map_of_dom(self.entries@, k@);
        }
        self.find(k).is_some()
    }

    /// The value stored under `k`.
    pub fn get(&self, k: &str) -> (r: Option<&V>)
        ensures
            match r {
                Some(v) => self@.contains_key(k@) && *v == self@[k@],
                None => !self@.contains_key(k@),
            },
    {
        proof {
            use_type_invariant(self);
            lemma_map_of_dom(self.entries@, k@);
        }
        match self.find(k) {
            Some(i) => {
                proof {
                    lemma_map_of_value(self.entries@, i as int);
                }
                Some(&self.entries[i].1)
            },
            None => None,
        }
    }

    /// The key and value at position `i` of the key order.
    pub fn entry(&self, i: usize) -> (r: (&String, &V))
        requires
            i < self.key_seq().len(),
        ensures
            r.0@ == self.key_seq()[i as int],
            *r.1 == self.value_at(i as int),
    {
        let e = &self.entries[i];
        (&e.0, &e.1)
    }

    /// Store `v` under `k`, replacing what was there. A new key goes last in the key order;
    /// a key already present keeps its place.
    pub fn insert(&mut self, k: String, v: V)
        ensures
            final(self)@ == old(self)@.insert(k@, v),
            old(self)@.contains_key(k@) ==> final(self).key_seq() == old(self).key_seq(),
            !old(self)@.contains_key(k@) ==> final(self).key_seq() == old(self).key_seq().push(k@),
    {
        proof {
            use_type_invariant(&*self);
            lemma_map_of_dom(self.entries@, k@);
        }
        match self.find(k.as_str()) {
            Some(i) => {
                let ghost e = self.entries@;
                proof {
                    lemma_map_of_update(e, i as int, k, v);
                }
                let mut entries: Vec<(String, V)> = Vec::new();
                std::mem::swap(&mut entries, &mut self.entries);
                entries.set(i, (k, v));
                self.entries = entries;
                proof {
                    assert(self.entries@ == e.update(i as int, (k, v)));
                    assert(keys_of(self.entries@) =~= keys_of(e));
                    assert(distinct_keys(self.entries@)) by {
                        assert forall|a: int, b: int| 0 <= a < b < self.entries@.len() implies (
                        #[trigger] self.entries@[a]).0@ != (#[trigger] self.entries@[b]).0@ by {
                            assert(self.entries@[a].0@ == e[a].0@);
                            assert(self.entries@[b].0@ == e[b].0@);
                        }
                    }
                }
            },
            None => {
                let ghost e = self.entries@;
                let mut entries: Vec<(String, V)> = Vec::new();
                std::mem::swap(&mut entries, &mut self.entries);
                entries.push((k, v));
                self.entries = entries;
                proof {
                    assert(self.entries@.drop_last() =~= e);
                    assert(keys_of(self.entries@) =~= keys_of(e).push(k@));
                    assert(distinct_keys(self.entries@)) by {
                        assert forall|a: int, b: int| 0 <= a < b < self.entries@.len() implies (
                        #[trigger] self.entries@[a]).0@ != (#[trigger] self.entries@[b]).0@ by {
                            if b < e.len() {
                                assert(self.entries@[a] == e[a]);
                                assert(self.entries@[b] == e[b]);
                            } else {
                                assert(self.entries@[a] == e[a]);
                            }
                        }
                    }
                }
            },
        }
    }

    /// The entries, in key order.
    pub fn into_entries(self) -> (r: Vec<(String, V)>)
        ensures
            keys_of(r@) == self.key_seq(),
            distinct_keys(r@),
            map_of(r@) == self@,
            forall|i: int| 0 <= i < r@.len() ==> (#[trigger] r@[i]).1 == self.value_at(i),
    {
        proof {
            use_type_invariant(&self);
        }
        self.entries
    }

    /// Remove every key.
    pub fn clear(&mut self)
        ensures
            final(self)@ == Map::<Seq<char>, V>::empty(),
            final(self).key_seq() == Seq::<Seq<char>>::empty(),
    {
        self.entries = Vec::new();
        assert(self.entries@ =~= Seq::<(String, V)>::empty());
        assert(keys_of(self.entries@) =~= Seq::<Seq<char>>::empty());
    }
}

impl StrMap<String> {
    /// A copy of the map: the same keys in the same order, with the same texts.
    pub fn copied(&self) -> (r: StrMap<String>)
        ensures
            r@ == self@,
            r.key_seq() == self.key_seq(),
    {
        proof {
            use_type_invariant(self);
        }
        let mut entries: Vec<(String, String)> = Vec::new();
        let mut i: usize = 0;
        while i < self.entries.len()
            invariant
                i <= self.entries@.len(),
                entries@ == self.entries@.take(i as int),
            decreases self.entries@.len() - i,
        {
            let k = self.entries[i].0.clone();
            let v = self.entries[i].1.clone();
            entries.push((k, v));
            assert(entries@ =~= self.entries@.take(i + 1));
            i = i + 1;
        }
        assert(entries@ =~= self.entries@);
        StrMap { entries }
    }
}

/// A set of texts, kept in the order in which they were first inserted.
#[derive(Debug)]
pub struct StrSet {
    items: StrMap<()>,
}

impl View for StrSet {
    type V = Set<Seq<char>>;

    closed spec fn view(&self) -> Set<Seq<char>> {
        self.items@.dom()
    }
}

impl StrSet {
    /// The members, in the order in which they were first inserted.
    pub closed spec fn member_seq(&self) -> Seq<Seq<char>> {
        self.items.key_seq()
    }

    /// An empty set.
    pub fn new() -> (r: Self)
        ensures
            r@ == Set::<Seq<char>>::empty(),
            r.member_seq() == Seq::<Seq<char>>::empty(),
    {
        let r = StrSet { items: StrMap::new() };
        assert(r@ =~= Set::<Seq<char>>::empty());
        r
    }

    /// Whether `k` is a member.
    pub fn contains(&self, k: &str) -> (r: bool)
        ensures
            r == self@.contains(k@),
    {
        self.items.contains_key(k)
    }

    /// Add `k`.
    pub fn insert(&mut self, k: String)
        ensures
            final(self)@ == old(self)@.insert(k@),
    {
        self.items.insert(k, ());
        assert(self@ =~= old(self)@.insert(k@));
    }

    /// Remove every member.
    pub fn clear(&mut self)
        ensures
            final(self)@ == Set::<Seq<char>>::empty(),
    {
        self.items.clear();
        assert(self@ =~= Set::<Seq<char>>::empty());
    }

    /// The number of members. The members in order are distinct and are
    /// exactly the members of the set.
    pub fn len(&self) -> (r: usize)
        ensures
            r == self@.len(),
            r == self.member_seq().len(),
            self.member_seq().no_duplicates(),
            self@.finite(),
            forall|k: Seq<char>| #[trigger] self@.contains(k) <==> self.member_seq().contains(k),
    {
        self.items.len()
    }

    /// The member at position `i` of the insertion order.
    pub fn member(&self, i: usize) -> (r: &String)
        requires
            i < self.member_seq().len(),
        ensures
            r@ == self.member_seq()[i as int],
    {
        self.items.entry(i).0
    }

}

} // verus!
