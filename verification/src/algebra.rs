//! The map algebra on container values: what each operator and function of
//! the catalogs computes, stated over the container's map.
//!
//! The engine evaluates these operations on stored values; the methods here
//! are their meaning on a value held in memory. Values are never `NULL` in
//! this representation, so "defined" and "exists" coincide.

use crate::container::{
    distinct_keys, key_in, lemma_map_keys, lemma_map_len, lemma_map_value, pair_views,
    pairs_to_map, Hstore, Pair,
};
use crate::text::{opt_view, str_eq, text_views};
use vstd::prelude::*;

verus! {

/// The value under `k`, or `None` where `k` is absent.
pub open spec fn lookup(m: Map<Seq<char>, Seq<char>>, k: Seq<char>) -> Option<Seq<char>> {
    if m.contains_key(k) {
        Some(m[k])
    } else {
        None
    }
}

/// The entries of `m` that `o` does not hold with the same value.
pub open spec fn difference_map(
    m: Map<Seq<char>, Seq<char>>,
    o: Map<Seq<char>, Seq<char>>,
) -> Map<Seq<char>, Seq<char>> {
    Map::new(|k: Seq<char>| m.contains_key(k) && !(o.contains_key(k) && o[k] == m[k]), |k: Seq<char>| m[k])
}

/// Keys and values in turn: key, value, key, value, in the order of `es`.
pub open spec fn flat(es: Seq<Pair>) -> Seq<Seq<char>> {
    Seq::new(
        2 * es.len(),
        |i: int|
            if i % 2 == 0 {
                es[i / 2].0
            } else {
                es[i / 2].1
            },
    )
}

/// The pairs that a sequence of even length holds as key, value, key, value.
pub open spec fn unflat(a: Seq<Seq<char>>) -> Seq<Pair> {
    Seq::new((a.len() / 2) as nat, |i: int| (a[2 * i], a[2 * i + 1]))
}

/// The pairs of the keys and values that stand at the same index.
pub open spec fn zip(keys: Seq<Seq<char>>, values: Seq<Seq<char>>) -> Seq<Pair> {
    Seq::new(keys.len(), |i: int| (keys[i], values[i]))
}

/// The keys of `es`, in order.
pub open spec fn keys_of(es: Seq<Pair>) -> Seq<Seq<char>> {
    es.map_values(|p: Pair| p.0)
}

/// The values of `es`, in order.
pub open spec fn values_of(es: Seq<Pair>) -> Seq<Seq<char>> {
    es.map_values(|p: Pair| p.1)
}

/// In the flat form of entries with distinct keys, every key of the map
/// stands at an even index, directly before its own value, and nothing else
/// stands there.
pub proof fn law_flat_pairs(es: Seq<Pair>, i: int)
    requires
        distinct_keys(es),
        0 <= i < es.len(),
    ensures
        flat(es).len() == 2 * pairs_to_map(es).len(),
        pairs_to_map(es).contains_key(flat(es)[2 * i]),
        pairs_to_map(es)[flat(es)[2 * i]] == flat(es)[2 * i + 1],
        forall|k: int|
            0 <= k < flat(es).len() && k % 2 == 0 && k != 2 * i ==> #[trigger] flat(es)[k] != flat(
                es,
            )[2 * i],
{
    lemma_map_len(es);
    lemma_map_value(es, i);
    assert forall|k: int| 0 <= k < flat(es).len() && k % 2 == 0 && k != 2 * i implies #[trigger] flat(
        es,
    )[k] != flat(es)[2 * i] by {
        assert(flat(es)[k] == es[k / 2].0);
        assert(k / 2 != i);
    }
}

/// The map of the first `i + 1` entries is the map of the first `i` with the
/// entry at `i` inserted.
pub proof fn lemma_map_take(es: Seq<Pair>, i: int)
    requires
        0 <= i < es.len(),
    ensures
        pairs_to_map(es.take(i + 1)) == pairs_to_map(es.take(i)).insert(es[i].0, es[i].1),
{
    assert(es.take(i + 1).drop_last() =~= es.take(i));
}

impl Hstore {
    /// `->` with a text operand: the value under `key`, or `None` (SQL
    /// `NULL`) where the key is absent.
    pub fn get_value(&self, key: &str) -> (r: Option<String>)
        ensures
            opt_view(r) == lookup(self@, key@),
    {
        match self.get(key) {
            Some(v) => Some(v.clone()),
            None => None,
        }
    }

    /// `->` with an array operand: for each key in turn its value, or `None`
    /// where it is absent.
    pub fn get_array(&self, keys: &[String]) -> (r: Vec<Option<String>>)
        ensures
            r@.len() == keys@.len(),
            forall|i: int| 0 <= i < keys@.len() ==> opt_view(#[trigger] r@[i]) == lookup(self@, keys@[i]@),
    {
        let mut out: Vec<Option<String>> = Vec::new();
        let mut i: usize = 0;
        while i < keys.len()
            invariant
                i <= keys@.len(),
                out@.len() == i,
                forall|j: int| 0 <= j < i ==> opt_view(#[trigger] out@[j]) == lookup(self@, keys@[j]@),
            decreases keys@.len() - i,
        {
            out.push(self.get_value(keys[i].as_str()));
            i += 1;
        }
        out
    }

    /// `||`: the entries of both maps; where both hold a key, the value of
    /// `other` stays.
    pub fn concat(&self, other: &Hstore) -> (r: Hstore)
        ensures
            r@ == self@.union_prefer_right(other@),
    {
        let mut out = self.clone();
        let items = other.as_slice();
        let ghost es = other.entries();
        let mut i: usize = 0;
        while i < items.len()
            invariant
                i <= items@.len(),
                es == pair_views(items@),
                out@ == self@.union_prefer_right(pairs_to_map(es.take(i as int))),
            decreases items@.len() - i,
        {
            proof {
                lemma_map_take(es, i as int);
            }
            out.insert(items[i].0.clone(), items[i].1.clone());
            assert(out@ =~= self@.union_prefer_right(pairs_to_map(es.take(i + 1))));
            i += 1;
        }
        proof {
            assert(es.take(i as int) =~= es);
            assert(self@.union_prefer_right(Map::empty()) =~= self@);
        }
        out
    }

    /// `?`: whether `key` is present.
    pub fn has_key(&self, key: &str) -> (b: bool)
        ensures
            b == self@.contains_key(key@),
    {
        self.contains_key(key)
    }

    /// `?&`: whether every listed key is present.
    pub fn has_all_keys(&self, keys: &[String]) -> (b: bool)
        ensures
            b == (forall|i: int| 0 <= i < keys@.len() ==> self@.contains_key(#[trigger] keys@[i]@)),
    {
        let mut i: usize = 0;
        while i < keys.len()
            invariant
                i <= keys@.len(),
                forall|j: int| 0 <= j < i ==> self@.contains_key(#[trigger] keys@[j]@),
            decreases keys@.len() - i,
        {
            if !self.contains_key(keys[i].as_str()) {
                return false;
            }
            i += 1;
        }
        true
    }

    /// `?|`: whether at least one listed key is present.
    pub fn has_any_keys(&self, keys: &[String]) -> (b: bool)
        ensures
            b == (exists|i: int| 0 <= i < keys@.len() && self@.contains_key(#[trigger] keys@[i]@)),
    {
        let mut i: usize = 0;
        while i < keys.len()
            invariant
                i <= keys@.len(),
                forall|j: int| 0 <= j < i ==> !self@.contains_key(#[trigger] keys@[j]@),
            decreases keys@.len() - i,
        {
            if self.contains_key(keys[i].as_str()) {
                return true;
            }
            i += 1;
        }
        false
    }

    /// `<@`: whether every entry of `self` is in `other` too, with the same
    /// value. Mind the direction: the catalog binds this name to `<@`, so it is
    /// `self` that must lie within `other`, not the other way round.
    pub fn contains(&self, other: &Hstore) -> (b: bool)
        ensures
            b == self@.submap_of(other@),
    {
        self.is_submap_of(other)
    }

    /// `@>`: whether every entry of `other` is in `self` too, with the same
    /// value. Mind the direction: the catalog binds this name to `@>`, so it is
    /// `other` that must lie within `self`, not the other way round.
    pub fn is_contained_by(&self, other: &Hstore) -> (b: bool)
        ensures
            b == other@.submap_of(self@),
    {
        other.is_submap_of(self)
    }

    /// `-` with a text operand: the map without `key`.
    pub fn remove_key(&self, key: &str) -> (r: Hstore)
        ensures
            r@ == self@.remove(key@),
    {
        let mut out = self.clone();
        out.remove(key);
        out
    }

    /// `-` with an array operand: the map without the listed keys.
    pub fn remove_keys(&self, keys: &[String]) -> (r: Hstore)
        ensures
            r@ == self@.remove_keys(text_views(keys@).to_set()),
    {
        let mut out = self.clone();
        let mut i: usize = 0;
        while i < keys.len()
            invariant
                i <= keys@.len(),
                out@ == self@.remove_keys(text_views(keys@).take(i as int).to_set()),
            decreases keys@.len() - i,
        {
            proof {
                let seen = text_views(keys@).take(i as int);
                assert(text_views(keys@).take(i + 1) =~= seen.push(keys@[i as int]@));
                seen.lemma_push_to_set_commute(keys@[i as int]@);
            }
            out.remove(keys[i].as_str());
            assert(out@ =~= self@.remove_keys(text_views(keys@).take(i + 1).to_set()));
            i += 1;
        }
        proof {
            assert(text_views(keys@).take(i as int) =~= text_views(keys@));
            assert(self@.remove_keys(Seq::<Seq<char>>::empty().to_set()) =~= self@);
        }
        out
    }

    /// `-` with a map operand: the map without the entries that `other` holds
    /// with the same value.
    pub fn difference(&self, other: &Hstore) -> (r: Hstore)
        ensures
            r@ == difference_map(self@, other@),
    {
        let mut out = Hstore::new();
        let items = self.as_slice();
        let ghost es = self.entries();
        let mut i: usize = 0;
        while i < items.len()
            invariant
                i <= items@.len(),
                es == pair_views(items@),
                distinct_keys(es),
                out@ == difference_map(pairs_to_map(es.take(i as int)), other@),
            decreases items@.len() - i,
        {
            proof {
                lemma_map_take(es, i as int);
                lemma_map_keys(es.take(i as int), es[i as int].0);
                if key_in(es.take(i as int), es[i as int].0) {
                    let j = choose|j: int|
                        0 <= j < es.take(i as int).len() && #[trigger] es.take(i as int)[j].0 == es[i as int].0;
                    assert(es[j].0 == es[i as int].0);
                }
            }
            let matched = match other.get(items[i].0.as_str()) {
                Some(v) => str_eq(v.as_str(), items[i].1.as_str()),
                None => false,
            };
            if !matched {
                out.insert(items[i].0.clone(), items[i].1.clone());
            }
            assert(out@ =~= difference_map(pairs_to_map(es.take(i + 1)), other@));
            i += 1;
        }
        proof {
            assert(es.take(i as int) =~= es);
            assert(difference_map(Map::empty(), other@) =~= Map::<Seq<char>, Seq<char>>::empty());
        }
        out
    }

    /// `%%`: keys and values in turn, each key directly before its value, in
    /// the container's own order.
    pub fn to_flat_array(&self) -> (r: Vec<String>)
        ensures
            text_views(r@) == flat(self.entries()),
            distinct_keys(self.entries()),
    {
        let items = self.as_slice();
        let ghost es = self.entries();
        let mut out: Vec<String> = Vec::new();
        let mut i: usize = 0;
        while i < items.len()
            invariant
                i <= items@.len(),
                es == pair_views(items@),
                text_views(out@) == flat(es.take(i as int)),
            decreases items@.len() - i,
        {
            let ghost head = out@;
            out.push(items[i].0.clone());
            out.push(items[i].1.clone());
            assert(text_views(out@) =~= text_views(head).push(es[i as int].0).push(es[i as int].1));
            assert(flat(es.take(i + 1)) =~= flat(es.take(i as int)).push(es[i as int].0).push(
                es[i as int].1,
            ));
            i += 1;
        }
        assert(es.take(i as int) =~= es);
        out
    }

    /// The keys, in the container's own order.
    pub fn to_keys(&self) -> (r: Vec<String>)
        ensures
            text_views(r@) == keys_of(self.entries()),
            distinct_keys(self.entries()),
    {
        let items = self.as_slice();
        let ghost es = self.entries();
        let mut out: Vec<String> = Vec::new();
        let mut i: usize = 0;
        while i < items.len()
            invariant
                i <= items@.len(),
                es == pair_views(items@),
                text_views(out@) == keys_of(es.take(i as int)),
            decreases items@.len() - i,
        {
            let ghost head = out@;
            out.push(items[i].0.clone());
            assert(text_views(out@) =~= text_views(head).push(es[i as int].0));
            assert(keys_of(es.take(i + 1)) =~= keys_of(es.take(i as int)).push(es[i as int].0));
            i += 1;
        }
        assert(es.take(i as int) =~= es);
        out
    }

    /// The values, in the container's own order: the value at an index
    /// belongs to the key that `to_keys` gives at that index.
    pub fn to_values(&self) -> (r: Vec<String>)
        ensures
            text_views(r@) == values_of(self.entries()),
            distinct_keys(self.entries()),
    {
        let items = self.as_slice();
        let ghost es = self.entries();
        let mut out: Vec<String> = Vec::new();
        let mut i: usize = 0;
        while i < items.len()
            invariant
                i <= items@.len(),
                es == pair_views(items@),
                text_views(out@) == values_of(es.take(i as int)),
            decreases items@.len() - i,
        {
            let ghost head = out@;
            out.push(items[i].1.clone());
            assert(text_views(out@) =~= text_views(head).push(es[i as int].1));
            assert(values_of(es.take(i + 1)) =~= values_of(es.take(i as int)).push(es[i as int].1));
            i += 1;
        }
        assert(es.take(i as int) =~= es);
        out
    }

    /// The entries whose key is listed; a listed key that is absent adds
    /// nothing.
    pub fn slice(&self, keys: &[String]) -> (r: Hstore)
        ensures
            r@ == self@.restrict(text_views(keys@).to_set()),
    {
        let mut out = Hstore::new();
        let mut i: usize = 0;
        while i < keys.len()
            invariant
                i <= keys@.len(),
                out@ == self@.restrict(text_views(keys@).take(i as int).to_set()),
            decreases keys@.len() - i,
        {
            proof {
                let seen = text_views(keys@).take(i as int);
                assert(text_views(keys@).take(i + 1) =~= seen.push(keys@[i as int]@));
                seen.lemma_push_to_set_commute(keys@[i as int]@);
            }
            match self.get(keys[i].as_str()) {
                Some(v) => {
                    out.insert(keys[i].clone(), v.clone());
                },
                None => {},
            }
            assert(out@ =~= self@.restrict(text_views(keys@).take(i + 1).to_set()));
            i += 1;
        }
        proof {
            assert(text_views(keys@).take(i as int) =~= text_views(keys@));
        }
        out
    }

    /// The map of one pair.
    pub fn from_kv(key: &str, value: &str) -> (r: Hstore)
        ensures
            r@ == Map::<Seq<char>, Seq<char>>::empty().insert(key@, value@),
    {
        let mut out = Hstore::new();
        out.insert(key.to_owned(), value.to_owned());
        out
    }

    /// The map of the pairs that `items` holds as key, value, key, value; of
    /// two pairs with one key the later one stays. `None` where the length is
    /// odd, which the engine rejects.
    pub fn from_array(items: &[String]) -> (r: Option<Hstore>)
        ensures
            r is Some <==> items@.len() % 2 == 0,
            r matches Some(h) ==> h@ == pairs_to_map(unflat(text_views(items@))),
    {
        if items.len() % 2 != 0 {
            return None;
        }
        let ghost es = unflat(text_views(items@));
        let mut out = Hstore::new();
        let mut i: usize = 0;
        while i < items.len() / 2
            invariant
                i <= items@.len() / 2,
                es == unflat(text_views(items@)),
                out@ == pairs_to_map(es.take(i as int)),
            decreases items@.len() / 2 - i,
        {
            proof {
                lemma_map_take(es, i as int);
            }
            out.insert(items[2 * i].clone(), items[2 * i + 1].clone());
            i += 1;
        }
        assert(es.take(i as int) =~= es);
        Some(out)
    }

    /// The map of the pairs of `keys` and `values` at the same index; of two
    /// pairs with one key the later one stays. `None` where the lengths
    /// differ, which the engine rejects.
    pub fn from_kv_array(keys: &[String], values: &[String]) -> (r: Option<Hstore>)
        ensures
            r is Some <==> keys@.len() == values@.len(),
            r matches Some(h) ==> h@ == pairs_to_map(zip(text_views(keys@), text_views(values@))),
    {
        if keys.len() != values.len() {
            return None;
        }
        let ghost es = zip(text_views(keys@), text_views(values@));
        let mut out = Hstore::new();
        let mut i: usize = 0;
        while i < keys.len()
            invariant
                i <= keys@.len(),
                keys@.len() == values@.len(),
                es == zip(text_views(keys@), text_views(values@)),
                out@ == pairs_to_map(es.take(i as int)),
            decreases keys@.len() - i,
        {
            proof {
                lemma_map_take(es, i as int);
            }
            out.insert(keys[i].clone(), values[i].clone());
            i += 1;
        }
        assert(es.take(i as int) =~= es);
        Some(out)
    }
}

} // verus!
