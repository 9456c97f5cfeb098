//! A map from texts that keeps its entries in the order of their keys.

use vstd::prelude::*;

use crate::text::{comes_before, same};

verus! {

/// A map from texts. Its entries stand in the order of their keys, and no key stands twice.
#[derive(Debug)]
pub struct OrderedMap<V> {
    pub entries: Vec<(String, V)>,
}

/// Whether each text comes before those that follow it.
pub open spec fn ascending(names: Seq<Seq<char>>) -> bool {
    forall|i: int, j: int|
        0 <= i < j < names.len() ==> crate::text::before(#[trigger] names[i], #[trigger] names[j])
}

/// Whether `names` are the elements of `set`, each once, in the order of texts.
pub open spec fn lists(names: Seq<Seq<char>>, set: Set<Seq<char>>) -> bool {
    &&& ascending(names)
    &&& forall|name: Seq<char>| #[trigger] names.contains(name) <==> set.contains(name)
}

/// Texts in ascending order are all different.
pub proof fn lemma_ascending_distinct(names: Seq<Seq<char>>, i: int, j: int)
    requires
        ascending(names),
        0 <= i < j < names.len(),
    ensures
        names[i] != names[j],
{
    crate::text::lemma_before_irreflexive(names[i]);
}

/// A set of texts has one listing at most.
pub proof fn lemma_lists_unique(a: Seq<Seq<char>>, b: Seq<Seq<char>>, set: Set<Seq<char>>)
    requires
        lists(a, set),
        lists(b, set),
    ensures
        a == b,
    decreases a.len(),
{
    if a.len() == 0 {
        if b.len() > 0 {
            assert(b.contains(b[0]));
            assert(a.contains(b[0]));
        }
        assert(a =~= b);
    } else {
        assert(a.contains(a[0]));
        assert(b.contains(a[0]));
        assert(b.contains(b[0]));
        assert(a.contains(b[0]));
        if a[0] != b[0] {
            let i = a.index_of(b[0]);
            let j = b.index_of(a[0]);
            assert(crate::text::before(a[0], a[i]));
            assert(crate::text::before(b[0], b[j]));
            crate::text::lemma_before_transitive(a[0], b[0], a[0]);
            crate::text::lemma_before_irreflexive(a[0]);
        }
        lemma_lists_rest(a, set);
        lemma_lists_rest(b, set);
        lemma_lists_unique(a.drop_first(), b.drop_first(), set.remove(a[0]));
        assert(a =~= seq![a[0]] + a.drop_first());
        assert(b =~= seq![b[0]] + b.drop_first());
    }
}

/// A listing without its first text lists the set without it.
proof fn lemma_lists_rest(names: Seq<Seq<char>>, set: Set<Seq<char>>)
    requires
        lists(names, set),
        names.len() > 0,
    ensures
        lists(names.drop_first(), set.remove(names[0])),
{
    let rest = names.drop_first();
    let smaller = set.remove(names[0]);
    assert forall|i: int, j: int| 0 <= i < j < rest.len() implies crate::text::before(
        #[trigger] rest[i],
        #[trigger] rest[j],
    ) by {
        assert(rest[i] == names[i + 1] && rest[j] == names[j + 1]);
    }
    assert forall|name: Seq<char>| #[trigger] rest.contains(name) <==> smaller.contains(name) by {
        if rest.contains(name) {
            let i = rest.index_of(name);
            assert(names[i + 1] == name);
            assert(names.contains(name));
            lemma_ascending_distinct(names, 0, i + 1);
        }
        if smaller.contains(name) {
            assert(names.contains(name));
            let i = names.index_of(name);
            assert(rest[i - 1] == name);
        }
    }
}

/// The keys of a list of entries.
pub open spec fn keys<V>(entries: Seq<(String, V)>) -> Seq<Seq<char>> {
    entries.map_values(|entry: (String, V)| entry.0@)
}

impl<V> OrderedMap<V> {
    /// Whether the entries stand in the order of their keys, no key twice.
    pub open spec fn wf(self) -> bool {
        ascending(keys(self.entries@))
    }

    pub open spec fn view(self) -> Map<Seq<char>, V> {
        Map::new(
            |key: Seq<char>| keys(self.entries@).contains(key),
            |key: Seq<char>| self.entries@[keys(self.entries@).index_of(key)].1,
        )
    }

    /// A map without entries.
    pub fn new() -> (map: OrderedMap<V>)
        ensures
            map.wf(),
            map@ == Map::<Seq<char>, V>::empty(),
    {
        let map: OrderedMap<V> = OrderedMap { entries: Vec::new() };
        assert(map@ =~= Map::<Seq<char>, V>::empty());
        map
    }

    /// An entry's value is what the map holds under its key.
    pub proof fn lemma_entry(self, i: int)
        requires
            self.wf(),
            0 <= i < self.entries.len(),
        ensures
            self@.dom().contains(self.entries[i].0@),
            self@[self.entries[i].0@] == self.entries[i].1,
    {
        let names = keys(self.entries@);
        let key = self.entries[i].0@;
        assert(names[i] == key);
        assert(names.contains(key));
        let j = names.index_of(key);
        assert(names[j] == key);
        crate::text::lemma_before_irreflexive(key);
        if i < j {
            assert(crate::text::before(names[i], names[j]));
        } else if j < i {
            assert(crate::text::before(names[j], names[i]));
        }
    }

    /// Sets the value under `key`.
    pub fn insert(&mut self, key: String, value: V)
        requires
            old(self).wf(),
        ensures
            final(self).wf(),
            final(self)@ == old(self)@.insert(key@, value),
    {
        let ghost names = keys(self.entries@);
        let ghost old_map = *self;
        let mut i: usize = 0;
        while i < self.entries.len() && comes_before(self.entries[i].0.as_str(), key.as_str())
            invariant
                i <= self.entries.len(),
                *self == old_map,
                names == keys(self.entries@),
                forall|j: int| 0 <= j < i ==> crate::text::before(#[trigger] names[j], key@),
            decreases self.entries.len() - i,
        {
            assert(names[i as int] == self.entries[i as int].0@);
            i = i + 1;
        }
        if i < self.entries.len() && same(self.entries[i].0.as_str(), key.as_str()) {
            proof {
                assert(names[i as int] == key@);
                old_map.lemma_entry(i as int);
            }
            let ghost stored = (key, value);
            self.entries.set(i, (key, value));
            proof {
                assert(keys(self.entries@) =~= names);
                assert forall|k: Seq<char>| names.contains(k) implies self@[k]
                    == old_map@.insert(stored.0@, stored.1)[k] by {
                    let j = names.index_of(k);
                    self.lemma_entry(j);
                    old_map.lemma_entry(j);
                    self.lemma_entry(i as int);
                }
                assert(self@ =~= old_map@.insert(stored.0@, stored.1));
            }
        } else {
            let ghost stored = (key, value);
            proof {
                if i < names.len() {
                    assert(names[i as int] == old_map.entries[i as int].0@);
                    crate::text::lemma_before_total(names[i as int], key@);
                }
                assert forall|j: int| i <= j < names.len() implies crate::text::before(
                    key@,
                    #[trigger] names[j],
                ) by {
                    if j > i {
                        crate::text::lemma_before_transitive(key@, names[i as int], names[j]);
                    }
                }
            }
            self.entries.insert(i, (key, value));
            proof {
                let grown = keys(self.entries@);
                assert(grown =~= names.insert(i as int, stored.0@));
                assert(ascending(grown));
                assert forall|k: Seq<char>| grown.contains(k) <==> names.contains(k) || k
                    == stored.0@ by {
                    if names.contains(k) {
                        let j = names.index_of(k);
                        if j < i {
                            assert(grown[j] == k);
                        } else {
                            assert(grown[j + 1] == k);
                        }
                    }
                    if k == stored.0@ {
                        assert(grown[i as int] == k);
                    }
                    if grown.contains(k) {
                        let j = grown.index_of(k);
                        if j < i {
                            assert(names[j] == k);
                        } else if j > i {
                            assert(names[j - 1] == k);
                        }
                    }
                }
                assert forall|k: Seq<char>| grown.contains(k) implies self@[k]
                    == old_map@.insert(stored.0@, stored.1)[k] by {
                    let j = grown.index_of(k);
                    self.lemma_entry(j);
                    if j < i {
                        old_map.lemma_entry(j);
                        assert(names[j] == k);
                    } else if j > i {
                        old_map.lemma_entry(j - 1);
                        assert(names[j - 1] == k);
                    }
                    crate::text::lemma_before_irreflexive(stored.0@);
                }
                assert(self@ =~= old_map@.insert(stored.0@, stored.1));
            }
        }
    }
}

} // verus!
