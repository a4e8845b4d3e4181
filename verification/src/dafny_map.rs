//! Persistent maps.

use vstd::prelude::*;
use vstd::std_specs::hash::obeys_key_model;
use vstd::std_specs::iter::IteratorSpec;
use vstd::std_specs::cmp::PartialEqSpec;
use vstd::std_specs::cmp::PartialEqSpecImpl;
use vstd::set_lib::lemma_subset_equality;
use std::hash::Hasher;
use std::collections::HashMap;
use std::collections::HashSet;
use std::hash::Hash;
use std::rc::Rc;
use crate::dafny_int::DafnyInt;
use crate::dafny_type::DafnyType;
use crate::dafny_type::DafnyTypeEq;
use crate::dafny_multiset::DafnyMultiset;
use crate::dafny_multiset::all_positive;
use crate::bag::counts;
use crate::dafny_type::NontrivialDefault;
use crate::dafny_type::UpcastTo;
use crate::images::upcast_values;
use crate::images::converts_each;
use crate::text::becomes;
use crate::text::entry_texts;
use crate::text::map_text;
use crate::text::push_char;
use crate::text::push_joined;
use crate::text::texts_of;
use crate::dafny_set::DafnySet;
use crate::model::obeys_clone_model;
use crate::model::clone_of;
use crate::images::accepts_entries;
use crate::images::entry_has_source;
use crate::images::has_image;
use crate::images::map_image_of;
use crate::walk::lists_map;
use crate::walk::met_keys;
use crate::walk::lemma_met_keys_none;
use crate::walk::lemma_met_keys_next;
use crate::walk::lemma_met_keys_all;
use crate::walk::next_in_map;
use crate::model::feed;

verus! {

/// An immutable map from `K` to `V`. Its view is the mathematical map of its
/// entries. Every operation that changes a map returns a new one.
pub struct DafnyMap<K, V> {
    data: Rc<HashMap<K, V>>,
}

impl<K, V> View for DafnyMap<K, V> {
    type V = Map<K, V>;

    closed spec fn view(&self) -> Map<K, V> {
        self.data@
    }
}

impl<K, V> Clone for DafnyMap<K, V> {
    /// A second handle on the same storage.
    fn clone(&self) -> (r: Self)
        ensures
            r == *self,
    {
        DafnyMap { data: Rc::clone(&self.data) }
    }
}

/// The map that inserting the pairs one after the other builds: where a key
/// comes twice, the later pair stays.
pub open spec fn map_of_pairs<K, V>(pairs: Seq<(K, V)>) -> Map<K, V>
    decreases pairs.len(),
{
    if pairs.len() == 0 {
        Map::empty()
    } else {
        map_of_pairs(pairs.drop_last()).insert(pairs.last().0, pairs.last().1)
    }
}

/// A hash map with the converted entries of `source`. Where two keys are
/// converted to the same key, the entry that comes later in the walk stays.
pub fn convert_entries<K, V, K2, V2, FK, FV>(
    source: &HashMap<K, V>,
    converter_k: FK,
    converter_v: FV,
) -> (r: HashMap<K2, V2>) where K: Eq + Hash, K2: Eq + Hash, FK: Fn(&K) -> K2, FV: Fn(&V) -> V2
    requires
        obeys_key_model::<K>(),
        obeys_key_model::<K2>(),
        accepts_entries(converter_k, converter_v, source@),
    ensures
        map_image_of(converter_k, converter_v, source@, r@),
{
    let mut result: HashMap<K2, V2> = HashMap::new();
    for pair in it: source.iter()
        invariant
            obeys_key_model::<K>(),
            obeys_key_model::<K2>(),
            accepts_entries(converter_k, converter_v, source@),
            lists_map(it.seq(), source@),
            map_image_of(
                converter_k,
                converter_v,
                source@.restrict(met_keys(it.seq(), it.index())),
                result@,
            ),
            it.index() == it.seq().len() ==> map_image_of(
                converter_k,
                converter_v,
                source@,
                result@,
            ),
    {
        let ghost seen = met_keys(it.seq(), it.index());
        let ghost before = result@;
        proof {
            lemma_met_keys_next(it.seq(), it.index());
            lemma_met_keys_all(it.seq(), source@);
            assert(source@.restrict(source@.dom()) =~= source@);
        }
        let k2 = converter_k(pair.0);
        let v2 = converter_v(pair.1);
        result.insert(k2, v2);
        proof {
            let now = source@.restrict(seen.insert(*pair.0));
            let was = source@.restrict(seen);
            assert forall|k: K| now.contains_key(k) implies #[trigger] has_image(
                converter_k,
                k,
                result@.dom(),
            ) by {
                if k != *pair.0 {
                    assert(has_image(converter_k, k, before.dom()));
                }
            }
            assert forall|b: K2| result@.contains_key(b) implies #[trigger] entry_has_source(
                converter_k,
                converter_v,
                now,
                b,
                result@[b],
            ) by {
                if b != k2 {
                    assert(entry_has_source(converter_k, converter_v, was, b, before[b]));
                }
            }
        }
    }
    result
}

impl<K: DafnyTypeEq, V: DafnyType> DafnyMap<K, V> {
    /// The empty map.
    pub fn new_empty() -> (r: DafnyMap<K, V>)
        ensures
            r@ == Map::<K, V>::empty(),
    {
        DafnyMap { data: Rc::new(HashMap::new()) }
    }

    /// The map with the entries of `values`, which it takes over.
    pub fn from_hashmap_owned(values: HashMap<K, V>) -> (r: DafnyMap<K, V>)
        ensures
            r@ == values@,
    {
        DafnyMap { data: Rc::new(values) }
    }

    /// The map that inserting the pairs of `values` in order builds.
    pub fn from_array(values: &Vec<(K, V)>) -> (r: DafnyMap<K, V>)
        requires
            obeys_key_model::<K>(),
            obeys_clone_model::<K>(),
            obeys_clone_model::<V>(),
        ensures
            r@ == map_of_pairs(values@),
    {
        let mut result: HashMap<K, V> = HashMap::new();
        let mut i: usize = 0;
        while i < values.len()
            invariant
                obeys_key_model::<K>(),
                obeys_clone_model::<K>(),
                obeys_clone_model::<V>(),
                i <= values@.len(),
                result@ == map_of_pairs(values@.take(i as int)),
            decreases values@.len() - i,
        {
            let k = clone_of(&values[i].0);
            let v = clone_of(&values[i].1);
            result.insert(k, v);
            proof {
                assert(values@.take(i + 1).drop_last() =~= values@.take(i as int));
            }
            i += 1;
        }
        proof {
            assert(values@.take(values@.len() as int) =~= values@);
        }
        Self::from_hashmap_owned(result)
    }

    /// The map that inserting the pairs that `data` hands out builds.
    pub fn from_iterator<I>(data: I) -> (r: DafnyMap<K, V>) where I: Iterator<Item = (K, V)>
        requires
            obeys_key_model::<K>(),
            data.obeys_prophetic_iter_laws(),
            data.decrease() is Some,
        ensures
            r@ == map_of_pairs(data.remaining()),
    {
        let mut data = data;
        let ghost items = data.remaining();
        let ghost mut n: int = 0;
        let mut result: HashMap<K, V> = HashMap::new();
        loop
            invariant
                obeys_key_model::<K>(),
                data.obeys_prophetic_iter_laws(),
                data.decrease() is Some,
                0 <= n <= items.len(),
                data.remaining() == items.skip(n),
                result@ == map_of_pairs(items.take(n)),
            ensures
                result@ == map_of_pairs(items),
            decreases data.decrease()->0,
        {
            match data.next() {
                Some(pair) => {
                    result.insert(pair.0, pair.1);
                    proof {
                        assert(items.take(n + 1).drop_last() =~= items.take(n));
                        n = n + 1;
                    }
                },
                None => {
                    proof {
                        assert(items.take(n) =~= items);
                    }
                    break ;
                },
            }
        }
        Self::from_hashmap_owned(result)
    }

    /// The hash map inside.
    pub fn as_hash_map(&self) -> (r: &HashMap<K, V>)
        ensures
            r@ == self@,
    {
        &self.data
    }

    /// The number of entries, which are finitely many.
    pub fn cardinality_usize(&self) -> (r: usize)
        requires
            obeys_key_model::<K>(),
        ensures
            r == self@.len(),
            self@.dom().finite(),
    {
        self.data.len()
    }

    /// The number of entries, as an unbounded integer.
    pub fn cardinality(&self) -> (r: DafnyInt)
        requires
            obeys_key_model::<K>(),
        ensures
            r@ == self@.len(),
    {
        DafnyInt::from_usize(self.data.len())
    }

    /// Whether `key` has an entry.
    pub fn contains(&self, key: &K) -> (r: bool)
        requires
            obeys_key_model::<K>(),
        ensures
            r == self@.contains_key(*key),
    {
        self.data.contains_key(key)
    }

    /// The value at `key`, or `None` where `key` has no entry.
    pub fn get_or_none(&self, key: &K) -> (r: Option<V>)
        requires
            obeys_key_model::<K>(),
            obeys_clone_model::<V>(),
        ensures
            r == self@.get(*key),
    {
        match self.data.get(key) {
            Some(v) => Some(clone_of(v)),
            None => None,
        }
    }

    /// The value at a key that has an entry.
    pub fn get(&self, key: &K) -> (r: V)
        requires
            obeys_key_model::<K>(),
            obeys_clone_model::<V>(),
            self@.contains_key(*key),
        ensures
            r == self@[*key],
    {
        match self.data.get(key) {
            Some(v) => clone_of(v),
            None => unreached(),
        }
    }

    /// The entries of `other`, and those of this map whose key `other` does
    /// not have.
    pub fn merge(&self, other: &DafnyMap<K, V>) -> (r: DafnyMap<K, V>)
        requires
            obeys_key_model::<K>(),
            obeys_clone_model::<K>(),
            obeys_clone_model::<V>(),
        ensures
            r@ == self@.union_prefer_right(other@),
    {
        if other.data.len() == 0 {
            return self.clone();
        }
        if self.data.len() == 0 {
            return other.clone();
        }
        let mut new_data: HashMap<K, V> = (*other.data).clone();
        for pair in it: self.data.iter()
            invariant
                obeys_key_model::<K>(),
                obeys_clone_model::<K>(),
                obeys_clone_model::<V>(),
                lists_map(it.seq(), self@),
                new_data@ == self@.restrict(met_keys(it.seq(), it.index())).union_prefer_right(
                    other@,
                ),
                it.index() == it.seq().len() ==> new_data@ == self@.union_prefer_right(other@),
        {
            if !other.data.contains_key(pair.0) {
                new_data.insert(clone_of(pair.0), clone_of(pair.1));
            }
        }
        Self::from_hashmap_owned(new_data)
    }

    /// The entries whose key is not in `keys`.
    pub fn subtract(&self, keys: &DafnySet<K>) -> (r: DafnyMap<K, V>)
        requires
            obeys_key_model::<K>(),
            obeys_clone_model::<K>(),
            obeys_clone_model::<V>(),
        ensures
            r@ == self@.remove_keys(keys@),
    {
        if keys.cardinality_usize() == 0 {
            return self.clone();
        }
        let mut result: HashMap<K, V> = HashMap::new();
        for pair in it: self.data.iter()
            invariant
                obeys_key_model::<K>(),
                obeys_clone_model::<K>(),
                obeys_clone_model::<V>(),
                lists_map(it.seq(), self@),
                result@ == self@.restrict(met_keys(it.seq(), it.index())).remove_keys(keys@),
                it.index() == it.seq().len() ==> result@ == self@.remove_keys(keys@),
        {
            if !keys.contains(pair.0) {
                result.insert(clone_of(pair.0), clone_of(pair.1));
            }
        }
        Self::from_hashmap_owned(result)
    }

    /// The set of the keys.
    pub fn keys(&self) -> (r: DafnySet<K>)
        requires
            obeys_key_model::<K>(),
            obeys_clone_model::<K>(),
        ensures
            r@ == self@.dom(),
    {
        let mut result: HashSet<K> = HashSet::new();
        for pair in it: self.data.iter()
            invariant
                obeys_key_model::<K>(),
                obeys_clone_model::<K>(),
                lists_map(it.seq(), self@),
                result@ == met_keys(it.seq(), it.index()),
                it.index() == it.seq().len() ==> result@ == self@.dom(),
        {
            result.insert(clone_of(pair.0));
        }
        DafnySet::from_hashset_owned(result)
    }

    /// A new map that holds `value` at `index` and agrees with this one on
    /// every other key. This map is left as it was.
    pub fn update_index(&self, index: &K, value: &V) -> (r: DafnyMap<K, V>)
        requires
            obeys_key_model::<K>(),
            obeys_clone_model::<K>(),
            obeys_clone_model::<V>(),
        ensures
            r@ == self@.insert(*index, *value),
    {
        let mut result: HashMap<K, V> = (*self.data).clone();
        result.insert(clone_of(index), clone_of(value));
        Self::from_hashmap_owned(result)
    }

    /// As [`DafnyMap::update_index`], taking the key and the value over.
    pub fn update_index_owned(&self, index: K, value: V) -> (r: DafnyMap<K, V>)
        requires
            obeys_key_model::<K>(),
            obeys_clone_model::<K>(),
            obeys_clone_model::<V>(),
        ensures
            r@ == self@.insert(index, value),
    {
        let mut result: HashMap<K, V> = (*self.data).clone();
        result.insert(index, value);
        Self::from_hashmap_owned(result)
    }

    /// A hash map with the converted entries of this map.
    pub fn to_hashmap_owned<K2, V2, FK, FV>(&self, converter_k: FK, converter_v: FV) -> (r: HashMap<
        K2,
        V2,
    >) where K2: Eq + Hash, V2: Clone, FK: Fn(&K) -> K2, FV: Fn(&V) -> V2
        requires
            obeys_key_model::<K>(),
            obeys_key_model::<K2>(),
            accepts_entries(converter_k, converter_v, self@),
        ensures
            map_image_of(converter_k, converter_v, self@, r@),
    {
        convert_entries(&*self.data, converter_k, converter_v)
    }

    /// A map with the converted entries of `map`.
    pub fn from_hashmap<K2, V2, FK, FV>(map: &HashMap<K2, V2>, converter_k: FK, converter_v: FV) -> (r:
        DafnyMap<K, V>) where K2: Eq + Hash, V2: Clone, FK: Fn(&K2) -> K, FV: Fn(&V2) -> V
        requires
            obeys_key_model::<K>(),
            obeys_key_model::<K2>(),
            accepts_entries(converter_k, converter_v, map@),
        ensures
            map_image_of(converter_k, converter_v, map@, r@),
    {
        DafnyMap { data: Rc::new(convert_entries(map, converter_k, converter_v)) }
    }

    /// The keys, each once, in no fixed order.
    pub fn iter(&self) -> (r: std::vec::IntoIter<K>)
        requires
            obeys_key_model::<K>(),
            obeys_clone_model::<K>(),
        ensures
            r.remaining().to_set() == self@.dom(),
            r.remaining().no_duplicates(),
            r.decrease() is Some,
            r.initial_value_relation(&r),
    {
        let mut keys: Vec<K> = Vec::new();
        for pair in it: self.data.iter()
            invariant
                obeys_key_model::<K>(),
                obeys_clone_model::<K>(),
                lists_map(it.seq(), self.data@),
                keys@.to_set() == met_keys(it.seq(), it.index()),
                keys@.no_duplicates(),
                it.index() == it.seq().len() ==> keys@.to_set() == self.data@.dom(),
        {
            let ghost before = keys@;
            keys.push(clone_of(pair.0));
            proof {
                before.lemma_push_to_set_commute(*pair.0);
                crate::walk::lemma_met_keys_fresh(it.seq(), it.index(), self.data@);
            }
        }
        keys.into_iter()
    }

    /// An iterator over the entries, each once, in no fixed order.
    pub fn iter_raw(&self) -> (r: std::collections::hash_map::Iter<'_, K, V>)
        requires
            obeys_key_model::<K>(),
        ensures
            lists_map(r.remaining(), self@),
            r.decrease() is Some,
            r.initial_value_relation(&r),
    {
        let r = self.data.iter();
        r
    }
}

impl<K: DafnyTypeEq, V: DafnyTypeEq> DafnyMap<K, V> {
    /// The set of the values.
    pub fn values(&self) -> (r: DafnySet<V>)
        requires
            obeys_key_model::<K>(),
            obeys_key_model::<V>(),
            obeys_clone_model::<V>(),
        ensures
            r@ == self@.values(),
    {
        let mut result: Vec<V> = Vec::new();
        for pair in it: self.data.iter()
            invariant
                obeys_key_model::<K>(),
                obeys_key_model::<V>(),
                obeys_clone_model::<V>(),
                lists_map(it.seq(), self@),
                result@.to_set() == self@.restrict(met_keys(it.seq(), it.index())).values(),
                it.index() == it.seq().len() ==> result@.to_set() == self@.values(),
        {
            let ghost before = result@;
            let ghost seen = met_keys(it.seq(), it.index());
            result.push(clone_of(pair.1));
            proof {
                before.lemma_push_to_set_commute(*pair.1);
                lemma_met_keys_next(it.seq(), it.index());
                lemma_met_keys_all(it.seq(), self@);
                let now = seen.insert(*pair.0);
                assert forall|v: V|
                    self@.restrict(now).values().contains(v) <==> self@.restrict(
                        seen,
                    ).values().insert(*pair.1).contains(v) by {
                    if self@.restrict(now).values().contains(v) {
                        let k = choose|k: K| self@.restrict(now).contains_key(k) && self@.restrict(now)[k] == v;
                        if k != *pair.0 {
                            assert(self@.restrict(seen).contains_key(k));
                        }
                    }
                    if self@.restrict(seen).values().contains(v) {
                        let k = choose|k: K| self@.restrict(seen).contains_key(k) && self@.restrict(seen)[k] == v;
                        assert(self@.restrict(now).contains_key(k));
                    }
                    if v == *pair.1 {
                        assert(self@.restrict(now).contains_key(*pair.0));
                    }
                }
                assert(self@.restrict(self@.dom()) =~= self@);
            }
        }
        DafnySet::from_array(&result)
    }
}

impl<K: DafnyTypeEq, V: DafnyType> Default for DafnyMap<K, V> {
    fn default() -> (r: DafnyMap<K, V>)
        ensures
            r@ == Map::<K, V>::empty(),
    {
        DafnyMap::new_empty()
    }
}

impl<K: DafnyTypeEq, V: DafnyType> Hash for DafnyMap<K, V> {
    /// Hashes the number of entries only: maps that are equal hash alike,
    /// and that is all a hash owes.
    fn hash<H: Hasher>(&self, state: &mut H) {
        let length = self.data.len();
        feed(&length, state);
    }
}

impl<K: DafnyTypeEq> DafnyMap<K, DafnyInt> {
    /// The multiset that holds each key as often as its value says. The
    /// values must be positive.
    pub fn as_dafny_multiset(&self) -> (r: DafnyMultiset<K>)
        requires
            obeys_key_model::<K>(),
            all_positive(self@),
        ensures
            r@ == counts(self@),
    {
        DafnyMultiset::from_hashmap(&self.data)
    }
}

/// Whether two maps have the same keys and, at each key, values that are
/// equal by `==`.
pub open spec fn same_entries<K, V: PartialEq>(a: Map<K, V>, b: Map<K, V>) -> bool {
    &&& a.dom() == b.dom()
    &&& forall|k: K| #[trigger] a.contains_key(k) ==> a[k].eq_spec(&b[k])
}

impl<K: DafnyTypeEq, V: DafnyType + PartialEq> PartialEq for DafnyMap<K, V> {
    /// Two maps are equal where they have the same keys and equal values at
    /// each, in whatever order each was built.
    fn eq(&self, other: &DafnyMap<K, V>) -> (r: bool) {
        if self.data.len() != other.data.len() {
            return false;
        }
        let mut budget: usize = self.data.len();
        let mut it = self.data.iter();
        let ghost items = it.remaining();
        let ghost mut n: int = 0;
        while budget > 0
            invariant
                obeys_key_model::<K>() ==> {
                    &&& lists_map(items, self@)
                    &&& 0 <= n <= items.len()
                    &&& budget == items.len() - n
                    &&& it.remaining() == items.skip(n)
                    &&& met_keys(items, n).subset_of(other@.dom())
                    &&& V::obeys_eq_spec() ==> forall|k: K| #[trigger]
                        met_keys(items, n).contains(k) ==> self@[k].eq_spec(&other@[k])
                },
            decreases budget,
        {
            budget -= 1;
            match next_in_map(&mut it) {
                Some(pair) => {
                    proof {
                        if obeys_key_model::<K>() {
                            lemma_met_keys_next(items, n);
                        }
                    }
                    match other.data.get(pair.0) {
                        Some(value) => {
                            if !(*pair.1 == *value) {
                                return false;
                            }
                        },
                        None => {
                            return false;
                        },
                    }
                    proof {
                        n = n + 1;
                    }
                },
                None => {
                    return false;
                },
            }
        }
        proof {
            if obeys_key_model::<K>() {
                lemma_met_keys_all(items, self@);
                lemma_subset_equality(self@.dom(), other@.dom());
            }
        }
        true
    }
}

impl<K: DafnyTypeEq, V: DafnyType + PartialEq> PartialEqSpecImpl for DafnyMap<K, V> {
    open spec fn obeys_eq_spec() -> bool {
        obeys_key_model::<K>() && V::obeys_eq_spec()
    }

    open spec fn eq_spec(&self, other: &DafnyMap<K, V>) -> bool {
        same_entries(self@, other@)
    }
}

impl<K: DafnyTypeEq, V: DafnyType + Eq> Eq for DafnyMap<K, V> {}

impl<K: DafnyTypeEq, V: DafnyType> NontrivialDefault for DafnyMap<K, V> {
    fn nontrivial_default() -> (r: DafnyMap<K, V>)
        ensures
            r@ == Map::<K, V>::empty(),
    {
        DafnyMap::new_empty()
    }
}

impl<K, U, V> UpcastTo<DafnyMap<K, V>> for DafnyMap<K, U> where
    K: DafnyTypeEq,
    U: DafnyTypeEq + UpcastTo<V>,
    V: DafnyTypeEq,
 {
    /// A map is seen as one to the wider type by seeing each value so; the
    /// keys stay.
    open spec fn upcasts_to(&self, to: &DafnyMap<K, V>) -> bool {
        obeys_key_model::<K>() && obeys_clone_model::<K>() && obeys_clone_model::<U>()
            ==> upcast_values(self@, to@)
    }

    fn upcast_to(self) -> (r: DafnyMap<K, V>) {
        let ghost known = obeys_key_model::<K>() && obeys_clone_model::<K>() && obeys_clone_model::<
            U,
        >();
        let mut new_map: HashMap<K, V> = HashMap::new();
        let mut budget: usize = self.data.len();
        let mut it = self.data.iter();
        let ghost items = it.remaining();
        let ghost mut n: int = 0;
        proof {
            lemma_met_keys_none(items);
            assert(known ==> self@.restrict(Set::<K>::empty()) =~= Map::<K, U>::empty());
        }
        while budget > 0
            invariant
                known == (obeys_key_model::<K>() && obeys_clone_model::<K>() && obeys_clone_model::<
                    U,
                >()),
                known ==> {
                    &&& lists_map(items, self@)
                    &&& 0 <= n <= items.len()
                    &&& budget == items.len() - n
                    &&& it.remaining() == items.skip(n)
                    &&& upcast_values(self@.restrict(met_keys(items, n)), new_map@)
                },
            decreases budget,
        {
            budget -= 1;
            match next_in_map(&mut it) {
                Some(pair) => {
                    let ghost seen = met_keys(items, n);
                    let wide = clone_of(pair.1).upcast_to();
                    new_map.insert(clone_of(pair.0), wide);
                    proof {
                        if known {
                            lemma_met_keys_next(items, n);
                            assert(self@.restrict(seen.insert(*pair.0)).dom() =~= self@.restrict(
                                seen,
                            ).dom().insert(*pair.0));
                            n = n + 1;
                        }
                    }
                },
                None => {
                    return DafnyMap::from_hashmap_owned(new_map);
                },
            }
        }
        proof {
            if known {
                lemma_met_keys_all(items, self@);
                assert(self@.restrict(self@.dom()) =~= self@);
            }
        }
        DafnyMap::from_hashmap_owned(new_map)
    }
}

/// The values of `map` at `keys`, in the order of the keys.
pub open spec fn values_at<K, V>(map: Map<K, V>, keys: Seq<K>) -> Seq<V> {
    Seq::new(keys.len(), |i: int| map[keys[i]])
}

/// Whether `text` is the text of `map`, with each key printed by
/// `print_key` and each value by `print_value`: a list of entries, in some
/// order, that opens with `map[` and closes with a brace.
pub open spec fn prints_as_map<K, V, FK: Fn(&K) -> String, FV: Fn(&V) -> String>(
    print_key: FK,
    print_value: FV,
    map: Map<K, V>,
    text: Seq<char>,
) -> bool {
    exists|keys: Seq<K>, key_parts: Seq<String>, value_parts: Seq<String>|
        keys.no_duplicates() && keys.to_set() == map.dom() && #[trigger] converts_each(
            print_key,
            keys,
            key_parts,
        ) && #[trigger] converts_each(print_value, values_at(map, keys), value_parts) && text
            == map_text(entry_texts(texts_of(key_parts), texts_of(value_parts)))
}

impl<K: DafnyTypeEq, V: DafnyType> DafnyMap<K, V> {
    /// The text of this map, with each key printed by `print_key` and each
    /// value by `print_value`.
    pub fn to_text<FK: Fn(&K) -> String, FV: Fn(&V) -> String>(
        &self,
        print_key: FK,
        print_value: FV,
    ) -> (r: String)
        requires
            obeys_key_model::<K>(),
            accepts_entries(print_key, print_value, self@),
        ensures
            prints_as_map(print_key, print_value, self@, r@),
    {
        let mut entries: Vec<String> = Vec::new();
        let ghost mut keys: Seq<K> = Seq::empty();
        let ghost mut key_parts: Seq<String> = Seq::empty();
        let ghost mut value_parts: Seq<String> = Seq::empty();
        for pair in it: self.data.iter()
            invariant
                obeys_key_model::<K>(),
                accepts_entries(print_key, print_value, self@),
                lists_map(it.seq(), self.data@),
                keys.len() == it.index(),
                keys.no_duplicates(),
                keys.to_set() == met_keys(it.seq(), it.index()),
                converts_each(print_key, keys, key_parts),
                converts_each(print_value, values_at(self@, keys), value_parts),
                texts_of(entries@) == entry_texts(texts_of(key_parts), texts_of(value_parts)),
                it.index() == it.seq().len() ==> keys.to_set() == self@.dom(),
        {
            let key_text = print_key(pair.0);
            let value_text = print_value(pair.1);
            let mut entry = String::new();
            entry.append(key_text.as_str());
            push_char(&mut entry, ' ');
            push_char(&mut entry, ':');
            push_char(&mut entry, '=');
            push_char(&mut entry, ' ');
            entry.append(value_text.as_str());
            let ghost before = entries@;
            entries.push(entry);
            proof {
                crate::walk::lemma_met_keys_fresh(it.seq(), it.index(), self.data@);
                keys.lemma_push_to_set_commute(*pair.0);
                assert(entry@ =~= key_text@ + becomes() + value_text@);
                crate::text::lemma_texts_of_push(before, entry);
                keys = keys.push(*pair.0);
                key_parts = key_parts.push(key_text);
                value_parts = value_parts.push(value_text);
            }
        }
        let mut out = String::new();
        push_char(&mut out, 'm');
        push_char(&mut out, 'a');
        push_char(&mut out, 'p');
        push_char(&mut out, '[');
        push_joined(&mut out, &entries, true);
        push_char(&mut out, '}');
        proof {
            assert(out@ =~= map_text(texts_of(entries@)));
        }
        out
    }
}

/// Gathers entries one by one and then freezes them into a map.
pub struct MapBuilder<K, V> {
    data: HashMap<K, V>,
}

impl<K, V> View for MapBuilder<K, V> {
    type V = Map<K, V>;

    /// The entries gathered so far.
    closed spec fn view(&self) -> Map<K, V> {
        self.data@
    }
}

impl<K: DafnyTypeEq, V: DafnyType> MapBuilder<K, V> {
    /// A builder that has gathered nothing.
    pub fn new() -> (r: MapBuilder<K, V>)
        ensures
            r@ == Map::<K, V>::empty(),
    {
        MapBuilder { data: HashMap::new() }
    }

    /// Gathers the entry from `key` to `value`; an entry gathered before
    /// for the same key gives way.
    pub fn add(&mut self, key: &K, value: &V)
        requires
            obeys_key_model::<K>(),
            obeys_clone_model::<K>(),
            obeys_clone_model::<V>(),
        ensures
            final(self)@ == old(self)@.insert(*key, *value),
    {
        self.data.insert(clone_of(key), clone_of(value));
    }

    /// The map of what was gathered.
    pub fn build(self) -> (r: DafnyMap<K, V>)
        ensures
            r@ == self@,
    {
        DafnyMap::from_hashmap_owned(self.data)
    }
}

} // verus!
