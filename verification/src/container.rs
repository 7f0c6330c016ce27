//! The in-memory value of an hstore column: a map from text keys to text
//! values.
//!
//! A key whose value is SQL `NULL` is not representable: the container stores
//! present values only, and the wire codec drops `NULL` entries on decode.

use crate::text::str_eq;
use vstd::prelude::*;

verus! {

/// One entry of the model: a key and its value.
pub type Pair = (Seq<char>, Seq<char>);

/// No two entries of `es` share a key.
pub open spec fn distinct_keys(es: Seq<Pair>) -> bool {
    forall|i: int, j: int| 0 <= i < j < es.len() ==> es[i].0 != es[j].0
}

/// Some entry of `es` has the key `k`.
pub open spec fn key_in(es: Seq<Pair>, k: Seq<char>) -> bool {
    exists|i: int| 0 <= i < es.len() && #[trigger] es[i].0 == k
}

/// The map obtained by inserting the entries of `es` one after the other, so
/// that of two entries with one key the later one stays.
pub open spec fn pairs_to_map(es: Seq<Pair>) -> Map<Seq<char>, Seq<char>>
    decreases es.len(),
{
    if es.len() == 0 {
        Map::empty()
    } else {
        pairs_to_map(es.drop_last()).insert(es.last().0, es.last().1)
    }
}

/// The keys of `pairs_to_map(es)` are the keys of the entries of `es`.
pub proof fn lemma_map_keys(es: Seq<Pair>, k: Seq<char>)
    ensures
        pairs_to_map(es).contains_key(k) <==> key_in(es, k),
    decreases es.len(),
{
    if es.len() > 0 {
        let init = es.drop_last();
        lemma_map_keys(init, k);
        if key_in(init, k) {
            let i = choose|i: int| 0 <= i < init.len() && #[trigger] init[i].0 == k;
            assert(es[i].0 == k);
        }
        if key_in(es, k) && es.last().0 != k {
            let i = choose|i: int| 0 <= i < es.len() && #[trigger] es[i].0 == k;
            assert(init[i].0 == k);
        }
        if es.last().0 == k {
            assert(es[es.len() - 1].0 == k);
        }
    }
}

/// Where keys are distinct, each entry's key is mapped to that entry's value.
pub proof fn lemma_map_value(es: Seq<Pair>, i: int)
    requires
        distinct_keys(es),
        0 <= i < es.len(),
    ensures
        pairs_to_map(es).contains_key(es[i].0),
        pairs_to_map(es)[es[i].0] == es[i].1,
    decreases es.len(),
{
    if i < es.len() - 1 {
        lemma_map_value(es.drop_last(), i);
    }
}

/// The map of a sequence of entries is finite, and with distinct keys it has
/// as many keys as there are entries.
pub proof fn lemma_map_len(es: Seq<Pair>)
    ensures
        pairs_to_map(es).dom().finite(),
        pairs_to_map(es).len() <= es.len(),
        distinct_keys(es) ==> pairs_to_map(es).len() == es.len(),
    decreases es.len(),
{
    if es.len() > 0 {
        let init = es.drop_last();
        lemma_map_len(init);
        lemma_map_keys(init, es.last().0);
        if distinct_keys(es) {
            if key_in(init, es.last().0) {
                let i = choose|i: int| 0 <= i < init.len() && #[trigger] init[i].0 == es.last().0;
                assert(es[i].0 == es[es.len() - 1].0);
            }
        }
    }
}

/// Replacing the value of the entry at `i` is an insertion under its key.
pub proof fn lemma_map_update(es: Seq<Pair>, i: int, v: Seq<char>)
    requires
        distinct_keys(es),
        0 <= i < es.len(),
    ensures
        distinct_keys(es.update(i, (es[i].0, v))),
        pairs_to_map(es.update(i, (es[i].0, v))) == pairs_to_map(es).insert(es[i].0, v),
    decreases es.len(),
{
    let k = es[i].0;
    let changed = es.update(i, (k, v));
    let init = es.drop_last();
    if i < es.len() - 1 {
        lemma_map_update(init, i, v);
        assert(changed.drop_last() =~= init.update(i, (k, v)));
        assert(es.last().0 != k);
        assert(pairs_to_map(changed) =~= pairs_to_map(es).insert(k, v));
    } else {
        assert(changed.drop_last() =~= init);
        assert(pairs_to_map(changed) =~= pairs_to_map(es).insert(k, v));
    }
}

/// Taking out the entry at `i` removes its key from the map.
pub proof fn lemma_map_remove(es: Seq<Pair>, i: int)
    requires
        distinct_keys(es),
        0 <= i < es.len(),
    ensures
        distinct_keys(es.remove(i)),
        pairs_to_map(es.remove(i)) == pairs_to_map(es).remove(es[i].0),
    decreases es.len(),
{
    let k = es[i].0;
    let rest = es.remove(i);
    let init = es.drop_last();
    if i < es.len() - 1 {
        lemma_map_remove(init, i);
        assert(rest.drop_last() =~= init.remove(i));
        assert(rest.last() == es.last());
        assert(es.last().0 != k);
        assert(pairs_to_map(rest) =~= pairs_to_map(es).remove(k));
    } else {
        assert(rest =~= init);
        lemma_map_keys(init, k);
        if key_in(init, k) {
            let j = choose|j: int| 0 <= j < init.len() && #[trigger] init[j].0 == k;
            assert(es[j].0 == es[i].0);
        }
        assert(pairs_to_map(rest) =~= pairs_to_map(es).remove(k));
    }
}

/// Appending an entry with a new key keeps the keys distinct.
pub proof fn lemma_push_distinct(es: Seq<Pair>, e: Pair)
    requires
        distinct_keys(es),
        !key_in(es, e.0),
    ensures
        distinct_keys(es.push(e)),
        pairs_to_map(es.push(e)) == pairs_to_map(es).insert(e.0, e.1),
{
    let grown = es.push(e);
    assert(grown.drop_last() =~= es);
    assert forall|i: int, j: int| 0 <= i < j < grown.len() implies grown[i].0 != grown[j].0 by {
        if j == es.len() {
            if es[i].0 == e.0 {
                assert(key_in(es, e.0));
            }
        }
    }
}

/// An hstore value: text keys, each with one text value.
#[derive(Debug)]
pub struct Hstore {
    items: Vec<(String, String)>,
}

impl View for Hstore {
    type V = Map<Seq<char>, Seq<char>>;

    /// The map from each key to its value.
    open spec fn view(&self) -> Map<Seq<char>, Seq<char>> {
        pairs_to_map(self.entries())
    }
}

/// The views of stored pairs, in storage order.
pub open spec fn pair_views(items: Seq<(String, String)>) -> Seq<Pair> {
    items.map_values(|p: (String, String)| (p.0@, p.1@))
}

impl Hstore {
    /// The entries in the order in which the container hands them out. The
    /// order carries no meaning; the keys are distinct.
    pub closed spec fn entries(&self) -> Seq<Pair> {
        pair_views(self.items@)
    }

    #[verifier::type_invariant]
    pub closed spec fn wf(&self) -> bool {
        distinct_keys(self.entries())
    }

    /// An empty container.
    pub fn new() -> (h: Hstore)
        ensures
            h@ == Map::<Seq<char>, Seq<char>>::empty(),
            h.entries() == Seq::<Pair>::empty(),
    {
        let h = Hstore { items: Vec::new() };
        assert(h.entries() =~= Seq::<Pair>::empty());
        h
    }

    /// The stored pairs, in the order of `entries`.
    pub fn as_slice(&self) -> (s: &[(String, String)])
        ensures
            pair_views(s@) == self.entries(),
            distinct_keys(self.entries()),
    {
        proof {
            use_type_invariant(self);
        }
        self.items.as_slice()
    }

    /// The number of keys.
    pub fn len(&self) -> (n: usize)
        ensures
            n == self@.len(),
            n == self.entries().len(),
    {
        proof {
            use_type_invariant(self);
            lemma_map_len(self.entries());
        }
        self.items.len()
    }

    /// Whether the container holds no key.
    pub fn is_empty(&self) -> (b: bool)
        ensures
            b == (self@ == Map::<Seq<char>, Seq<char>>::empty()),
    {
        proof {
            use_type_invariant(self);
            lemma_map_len(self.entries());
            if self.entries().len() == 0 {
                assert(self@ =~= Map::<Seq<char>, Seq<char>>::empty());
            }
        }
        self.items.len() == 0
    }

    /// The index of the entry with the given key.
    fn position(&self, key: &str) -> (r: Option<usize>)
        ensures
            match r {
                Some(i) => i < self.entries().len() && self.entries()[i as int].0 == key@,
                None => !key_in(self.entries(), key@),
            },
    {
        let mut i: usize = 0;
        while i < self.items.len()
            invariant
                i <= self.items@.len(),
                forall|j: int| 0 <= j < i ==> self.entries()[j].0 != key@,
            decreases self.items@.len() - i,
        {
            if str_eq(self.items[i].0.as_str(), key) {
                return Some(i);
            }
            i += 1;
        }
        None
    }

    /// The value stored under `key`, if there is one.
    pub fn get(&self, key: &str) -> (r: Option<&String>)
        ensures
            match r {
                Some(v) => self@.contains_key(key@) && v@ == self@[key@],
                None => !self@.contains_key(key@),
            },
    {
        proof {
            use_type_invariant(self);
            lemma_map_keys(self.entries(), key@);
        }
        match self.position(key) {
            Some(i) => {
                proof {
                    lemma_map_value(self.entries(), i as int);
                }
                Some(&self.items[i].1)
            },
            None => None,
        }
    }

    /// Whether a value is stored under `key`.
    pub fn contains_key(&self, key: &str) -> (b: bool)
        ensures
            b == self@.contains_key(key@),
    {
        self.get(key).is_some()
    }

    /// Stores `value` under `key` and returns the value that was stored there
    /// before, if any.
    pub fn insert(&mut self, key: String, value: String) -> (prev: Option<String>)
        ensures
            final(self)@ == old(self)@.insert(key@, value@),
            match prev {
                Some(p) => old(self)@.contains_key(key@) && p@ == old(self)@[key@],
                None => !old(self)@.contains_key(key@),
            },
    {
        proof {
            use_type_invariant(&*self);
            lemma_map_keys(self.entries(), key@);
        }
        let found = self.position(key.as_str());
        let ghost before = self.entries();
        let mut items = Vec::new();
        std::mem::swap(&mut items, &mut self.items);
        assert(pair_views(items@) == before);
        let prev = match found {
            Some(i) => {
                proof {
                    lemma_map_value(before, i as int);
                    lemma_map_update(before, i as int, value@);
                }
                items.push((key, value));
                let old_pair = items.swap_remove(i);
                assert(pair_views(items@) =~= before.update(i as int, (key@, value@)));
                Some(old_pair.1)
            },
            None => {
                proof {
                    lemma_push_distinct(before, (key@, value@));
                }
                items.push((key, value));
                assert(pair_views(items@) =~= before.push((key@, value@)));
                None
            },
        };
        self.items = items;
        prev
    }

    /// Removes `key` and returns the value that was stored under it, if any.
    pub fn remove(&mut self, key: &str) -> (prev: Option<String>)
        ensures
            final(self)@ == old(self)@.remove(key@),
            match prev {
                Some(p) => old(self)@.contains_key(key@) && p@ == old(self)@[key@],
                None => !old(self)@.contains_key(key@),
            },
    {
        proof {
            use_type_invariant(&*self);
            lemma_map_keys(self.entries(), key@);
        }
        match self.position(key) {
            Some(i) => {
                let ghost before = self.entries();
                proof {
                    lemma_map_value(before, i as int);
                    lemma_map_remove(before, i as int);
                }
                let mut items = Vec::new();
                std::mem::swap(&mut items, &mut self.items);
                let old_pair = items.remove(i);
                assert(pair_views(items@) =~= before.remove(i as int));
                self.items = items;
                Some(old_pair.1)
            },
            None => {
                assert(self@.remove(key@) =~= self@);
                None
            },
        }
    }

    /// Removes every key.
    pub fn clear(&mut self)
        ensures
            final(self)@ == Map::<Seq<char>, Seq<char>>::empty(),
    {
        self.items = Vec::new();
        assert(self.entries() =~= Seq::<Pair>::empty());
    }
}

impl Hstore {
    /// A container with the given pairs, inserted one after the other: of two
    /// pairs with one key the later one stays.
    pub fn from_pairs(pairs: Vec<(String, String)>) -> (h: Hstore)
        ensures
            h@ == pairs_to_map(pair_views(pairs@)),
    {
        let ghost all = pair_views(pairs@);
        let mut h = Hstore::new();
        for p in it: pairs.into_iter()
            invariant
                pair_views(it.seq()) == all,
                h@ == pairs_to_map(all.take(it.index() as int)),
        {
            assert(all.take(it.index() + 1).drop_last() =~= all.take(it.index() as int));
            h.insert(p.0, p.1);
        }
        assert(all.take(all.len() as int) =~= all);
        h
    }

    /// Whether every entry of `self` is in `other` too, with the same value.
    pub fn is_submap_of(&self, other: &Hstore) -> (b: bool)
        ensures
            b == self@.submap_of(other@),
    {
        proof {
            use_type_invariant(self);
        }
        let mut i: usize = 0;
        while i < self.items.len()
            invariant
                i <= self.items@.len(),
                self.wf(),
                forall|j: int|
                    0 <= j < i ==> other@.contains_key(#[trigger] self.entries()[j].0) && other@[self.entries()[j].0]
                        == self.entries()[j].1,
            decreases self.items@.len() - i,
        {
            proof {
                lemma_map_value(self.entries(), i as int);
            }
            let same = match other.get(self.items[i].0.as_str()) {
                Some(v) => str_eq(v.as_str(), self.items[i].1.as_str()),
                None => false,
            };
            if !same {
                return false;
            }
            i += 1;
        }
        proof {
            assert forall|k: Seq<char>| #[trigger] self@.dom().contains(k) implies other@.dom().contains(
                k,
            ) && self@[k] == other@[k] by {
                lemma_map_keys(self.entries(), k);
                let j = choose|j: int| 0 <= j < self.entries().len() && #[trigger] self.entries()[j].0 == k;
                lemma_map_value(self.entries(), j);
            }
        }
        true
    }
}

impl Default for Hstore {
    /// An empty container.
    fn default() -> (h: Hstore)
        ensures
            h@ == Map::<Seq<char>, Seq<char>>::empty(),
    {
        Hstore::new()
    }
}

impl Clone for Hstore {
    /// A container with the same entries in the same order.
    fn clone(&self) -> (h: Hstore)
        ensures
            h.entries() == self.entries(),
            h@ == self@,
    {
        proof {
            use_type_invariant(self);
        }
        let mut items: Vec<(String, String)> = Vec::new();
        let mut i: usize = 0;
        while i < self.items.len()
            invariant
                i <= self.items@.len(),
                pair_views(items@) == self.entries().take(i as int),
            decreases self.items@.len() - i,
        {
            let ghost copied = items@;
            items.push((self.items[i].0.clone(), self.items[i].1.clone()));
            assert(pair_views(items@) =~= pair_views(copied).push(self.entries()[i as int]));
            assert(self.entries().take(i + 1) =~= self.entries().take(i as int).push(
                self.entries()[i as int],
            ));
            i += 1;
        }
        assert(self.entries().take(i as int) =~= self.entries());
        Hstore { items }
    }
}

impl PartialEq for Hstore {
    /// Two containers are equal when they hold the same keys with the same
    /// values, in whatever order.
    fn eq(&self, other: &Hstore) -> (b: bool) {
        let same = self.len() == other.len() && self.is_submap_of(other);
        proof {
            lemma_map_len(self.entries());
            lemma_map_len(other.entries());
            if same {
                assert(self@.dom().subset_of(other@.dom()));
                vstd::set_lib::lemma_subset_equality(self@.dom(), other@.dom());
                assert(self@ =~= other@);
            }
        }
        same
    }
}

impl vstd::std_specs::cmp::PartialEqSpecImpl for Hstore {
    open spec fn obeys_eq_spec() -> bool {
        true
    }

    open spec fn eq_spec(&self, other: &Hstore) -> bool {
        self@ == other@
    }
}

} // verus!
