//! Persistent multisets.

use vstd::prelude::*;
use vstd::std_specs::hash::obeys_key_model;
use vstd::std_specs::hash::spec_hash_map_iter;
use vstd::std_specs::hash::spec_hash_keys_iter;
use vstd::std_specs::iter::IteratorSpec;
use vstd::std_specs::cmp::PartialEqSpecImpl;
use vstd::std_specs::cmp::PartialOrdSpecImpl;
use std::cmp::Ordering;
use std::hash::Hasher;
use std::collections::HashMap;
use std::hash::Hash;
use std::rc::Rc;
use crate::bag::Bag;
use crate::bag::count_in;
use crate::bag::counts;
use crate::bag::lemma_counts_count;
use crate::bag::lemma_counts_empty;
use crate::bag::lemma_counts_agree;
use crate::bag::lemma_counts_insert;
use crate::bag::lemma_counts_remove;
use crate::dafny_int::DafnyInt;
use crate::dafny_type::DafnyTypeEq;
use crate::dafny_type::NontrivialDefault;
use crate::dafny_type::UpcastTo;
use crate::images::seen_as_some;
use crate::images::counted_from_some;
use crate::images::upcast_counts;
use crate::dafny_set::DafnySet;
use crate::model::obeys_clone_model;
use crate::model::clone_of;
use crate::model::feed;
use crate::bag::lemma_within_same_len;
use crate::walk::next_in_map;
use crate::walk::lists_map;
use crate::walk::met;
use crate::walk::met_keys;
use crate::walk::lemma_met_none;
use crate::walk::lemma_met_next;
use crate::walk::lemma_met_all;
use crate::walk::lemma_met_keys_none;
use crate::walk::lemma_met_keys_next;
use crate::walk::lemma_met_keys_all;
use crate::walk::lemma_met_keys_fresh;

verus! {

/// An immutable multiset of `V`. Its view is the mathematical multiset that
/// holds each value as often as this one does. Every operation that changes
/// a multiset returns a new one.
///
/// Each value that occurs is stored once, with the number of times it
/// occurs, which is positive; the total of those numbers is stored beside
/// them.
pub struct DafnyMultiset<V> {
    data: Rc<HashMap<V, DafnyInt>>,
    size: DafnyInt,
}

/// Whether every number in a table of counts is positive.
pub open spec fn all_positive<V>(table: Map<V, DafnyInt>) -> bool {
    forall|v: V| #[trigger] table.contains_key(v) ==> table[v]@ > 0
}

impl<V> DafnyMultiset<V> {
    #[verifier::type_invariant]
    spec fn well_formed(&self) -> bool {
        vstd::std_specs::hash::obeys_key_model::<V>() ==> {
            &&& all_positive(self.data@)
            &&& self.size@ == counts(self.data@).len()
        }
    }
}

impl<V> View for DafnyMultiset<V> {
    type V = Bag<V>;

    closed spec fn view(&self) -> Bag<V> {
        counts(self.data@)
    }
}

impl<V> Clone for DafnyMultiset<V> {
    /// A second handle on the same storage.
    fn clone(&self) -> (r: Self)
        ensures
            r == *self,
    {
        proof {
            use_type_invariant(self);
        }
        DafnyMultiset { data: Rc::clone(&self.data), size: self.size.clone() }
    }
}

impl<V: DafnyTypeEq> DafnyMultiset<V> {
    /// The empty multiset.
    pub fn new_empty() -> (r: DafnyMultiset<V>)
        ensures
            r@ == Bag::<V>::empty(),
    {
        let data: HashMap<V, DafnyInt> = HashMap::new();
        proof {
            lemma_counts_empty::<V>();
        }
        DafnyMultiset { data: Rc::new(data), size: DafnyInt::zero() }
    }

    /// The total of the numbers in a table of counts.
    pub fn get_total(map: &HashMap<V, DafnyInt>) -> (r: DafnyInt)
        requires
            obeys_key_model::<V>(),
            all_positive(map@),
        ensures
            r@ == counts(map@).len(),
    {
        let mut total = DafnyInt::zero();
        proof {
            lemma_met_keys_none(spec_hash_map_iter(map).remaining());
            assert(map@.restrict(Set::<V>::empty()) =~= Map::<V, DafnyInt>::empty());
            lemma_counts_empty::<V>();
            if map@.dom().len() == 0 {
                assert(map@ =~= Map::<V, DafnyInt>::empty());
            }
        }
        for pair in it: map.iter()
            invariant
                obeys_key_model::<V>(),
                all_positive(map@),
                map@.dom().finite(),
                lists_map(it.seq(), map@),
                total@ == counts(map@.restrict(met_keys(it.seq(), it.index()))).len(),
                it.index() == it.seq().len() ==> total@ == counts(map@).len(),
        {
            let ghost seen = met_keys(it.seq(), it.index());
            proof {
                lemma_met_keys_next(it.seq(), it.index());
                lemma_met_keys_all(it.seq(), map@);
                assert(map@.restrict(seen).dom() =~= map@.dom().intersect(seen));
                lemma_counts_insert(map@.restrict(seen), *pair.0, *pair.1);
                assert(map@.restrict(seen.insert(*pair.0)) =~= map@.restrict(seen).insert(
                    *pair.0,
                    *pair.1,
                ));
                assert(map@.restrict(map@.dom()) =~= map@);
            }
            total = total + pair.1.clone();
        }
        total
    }

    /// The multiset that a table of positive counts stands for; it takes
    /// the table over.
    pub fn from_hashmap_owned(map: HashMap<V, DafnyInt>) -> (r: DafnyMultiset<V>)
        requires
            obeys_key_model::<V>(),
            all_positive(map@),
        ensures
            r@ == counts(map@),
    {
        let size = Self::get_total(&map);
        DafnyMultiset { size, data: Rc::new(map) }
    }

    /// The multiset that a table of positive counts stands for.
    pub fn from_hashmap(map: &HashMap<V, DafnyInt>) -> (r: DafnyMultiset<V>)
        requires
            obeys_key_model::<V>(),
            all_positive(map@),
        ensures
            r@ == counts(map@),
    {
        Self::from_hashmap_owned(map.clone())
    }

    /// The number of elements, counting each as often as it occurs.
    pub fn cardinality(&self) -> (r: DafnyInt)
        requires
            obeys_key_model::<V>(),
        ensures
            r@ == self@.len(),
    {
        proof {
            use_type_invariant(self);
        }
        self.size.clone()
    }

    /// The number of elements, for a caller that knows it fits a `usize`.
    pub fn cardinality_usize(&self) -> (r: usize)
        requires
            obeys_key_model::<V>(),
            self@.len() <= usize::MAX,
        ensures
            r == self@.len(),
    {
        proof {
            use_type_invariant(self);
        }
        self.size.as_usize()
    }

    /// How often `value` occurs.
    pub fn get(&self, value: &V) -> (r: DafnyInt)
        requires
            obeys_key_model::<V>(),
        ensures
            r@ == self@.count(*value),
    {
        proof {
            use_type_invariant(self);
            lemma_counts_count(self.data@, *value);
        }
        match self.data.get(value) {
            Some(count) => count.clone(),
            None => DafnyInt::zero(),
        }
    }

    /// Whether `value` occurs at all.
    pub fn contains(&self, value: &V) -> (r: bool)
        requires
            obeys_key_model::<V>(),
        ensures
            r == self@.contains(*value),
    {
        proof {
            use_type_invariant(self);
            lemma_counts_count(self.data@, *value);
        }
        match self.data.get(value) {
            Some(count) => count.is_positive(),
            None => false,
        }
    }

    /// This multiset with `value` occurring `new_count` times instead of
    /// however often it occurred.
    pub fn update_count(&self, value: &V, new_count: &DafnyInt) -> (r: DafnyMultiset<V>)
        requires
            obeys_key_model::<V>(),
            obeys_clone_model::<V>(),
            new_count@ >= 0,
        ensures
            r@ == self@.update(*value, new_count@ as nat),
    {
        proof {
            use_type_invariant(self);
        }
        let mut data = (*self.data).clone();
        let old_count = self.get(value);
        if new_count.is_zero() {
            data.remove(value);
            proof {
                lemma_counts_remove(self.data@, *value);
                lemma_counts_count(self.data@, *value);
            }
        } else {
            data.insert(clone_of(value), new_count.clone());
            proof {
                lemma_counts_insert(self.data@, *value, *new_count);
                lemma_counts_count(self.data@, *value);
            }
        }
        let size = self.size.clone() + new_count.clone() - old_count;
        proof {
            assert forall|v: V|
                counts(data@).count(v) == self@.update(*value, new_count@ as nat).count(v) by {
                let m = Map::new(
                    |key: V| (self@.contains(key) || key == *value),
                    |key: V|
                        if key == *value {
                            new_count@ as nat
                        } else {
                            self@.count(key)
                        },
                );
                assert(m.dom() =~= self@.dom().insert(*value));
            }
        }
        DafnyMultiset { data: Rc::new(data), size }
    }
}

impl<V: DafnyTypeEq> DafnyMultiset<V> {
    /// Counts `value` once more in a table and in its total.
    fn count_one(table: &mut HashMap<V, DafnyInt>, total: &mut DafnyInt, value: V)
        requires
            obeys_key_model::<V>(),
            all_positive(old(table)@),
            old(total)@ == counts(old(table)@).len(),
        ensures
            all_positive(final(table)@),
            counts(final(table)@) == counts(old(table)@).insert(value),
            final(total)@ == counts(final(table)@).len(),
    {
        let count = match table.get(&value) {
            Some(count) => count.clone() + DafnyInt::one(),
            None => DafnyInt::one(),
        };
        let ghost before = table@;
        proof {
            lemma_counts_insert(before, value, count);
            assert forall|v: V|
                counts(before.insert(value, count)).count(v) == counts(before).insert(
                    value,
                ).count(v) by {
                lemma_counts_count(before, v);
            }
        }
        table.insert(value, count);
        *total = total.clone() + DafnyInt::one();
    }

    /// The multiset of the elements of `data`.
    pub fn from_array(data: &Vec<V>) -> (r: DafnyMultiset<V>)
        requires
            obeys_key_model::<V>(),
            obeys_clone_model::<V>(),
        ensures
            r@ == data@.to_multiset(),
    {
        let mut table: HashMap<V, DafnyInt> = HashMap::new();
        let mut total = DafnyInt::zero();
        let mut i: usize = 0;
        proof {
            lemma_counts_empty::<V>();
            assert(data@.take(0) =~= Seq::<V>::empty());
            Seq::<V>::empty().to_multiset_ensures();
        }
        while i < data.len()
            invariant
                obeys_key_model::<V>(),
                obeys_clone_model::<V>(),
                i <= data@.len(),
                all_positive(table@),
                counts(table@) == data@.take(i as int).to_multiset(),
                total@ == counts(table@).len(),
            decreases data@.len() - i,
        {
            Self::count_one(&mut table, &mut total, clone_of(&data[i]));
            proof {
                assert(data@.take(i + 1) =~= data@.take(i as int).push(data@[i as int]));
                vstd::seq_lib::to_multiset_build(data@.take(i as int), data@[i as int]);
            }
            i += 1;
        }
        proof {
            assert(data@.take(data@.len() as int) =~= data@);
        }
        DafnyMultiset { data: Rc::new(table), size: total }
    }

    /// The multiset of the items that `data` hands out.
    pub fn from_iterator<I>(data: I) -> (r: DafnyMultiset<V>) where I: Iterator<Item = V>
        requires
            obeys_key_model::<V>(),
            data.obeys_prophetic_iter_laws(),
            data.decrease() is Some,
        ensures
            r@ == data.remaining().to_multiset(),
    {
        let mut data = data;
        let ghost items = data.remaining();
        let ghost mut n: int = 0;
        let mut table: HashMap<V, DafnyInt> = HashMap::new();
        let mut total = DafnyInt::zero();
        proof {
            lemma_counts_empty::<V>();
            assert(items.take(0) =~= Seq::<V>::empty());
            Seq::<V>::empty().to_multiset_ensures();
        }
        loop
            invariant
                obeys_key_model::<V>(),
                data.obeys_prophetic_iter_laws(),
                data.decrease() is Some,
                0 <= n <= items.len(),
                data.remaining() == items.skip(n),
                all_positive(table@),
                counts(table@) == items.take(n).to_multiset(),
                total@ == counts(table@).len(),
            ensures
                all_positive(table@),
                counts(table@) == items.to_multiset(),
                total@ == counts(table@).len(),
            decreases data.decrease()->0,
        {
            match data.next() {
                Some(value) => {
                    proof {
                        assert(items.take(n + 1) =~= items.take(n).push(value));
                        vstd::seq_lib::to_multiset_build(items.take(n), value);
                        n = n + 1;
                    }
                    Self::count_one(&mut table, &mut total, value);
                },
                None => {
                    proof {
                        assert(items.take(n) =~= items);
                    }
                    break ;
                },
            }
        }
        DafnyMultiset { data: Rc::new(table), size: total }
    }

    /// The multiset that holds each element of `set` once.
    pub fn from_set(set: &DafnySet<V>) -> (r: DafnyMultiset<V>)
        requires
            obeys_key_model::<V>(),
            obeys_clone_model::<V>(),
        ensures
            r@ == Bag::from_set(set@),
    {
        let mut table: HashMap<V, DafnyInt> = HashMap::new();
        let mut total = DafnyInt::zero();
        let source = set.as_hash_set();
        proof {
            lemma_counts_empty::<V>();
            lemma_met_none(spec_hash_keys_iter(source).remaining());
            assert(Bag::from_set(Set::<V>::empty()) =~= Bag::<V>::empty()) by {
                assert forall|v: V|
                    Bag::from_set(Set::<V>::empty()).count(v) == Bag::<V>::empty().count(v) by {
                    lemma_bag_of_set(Set::<V>::empty(), v);
                }
            }
            if source@.len() == 0 {
                assert(source@ =~= Set::<V>::empty());
            }
        }
        for value in it: source.iter()
            invariant
                obeys_key_model::<V>(),
                obeys_clone_model::<V>(),
                source@ == set@,
                it.seq().unref().to_set() == source@,
                it.seq().no_duplicates(),
                source@.finite(),
                all_positive(table@),
                counts(table@) == Bag::from_set(met(it.seq(), it.index())),
                total@ == counts(table@).len(),
                it.index() == it.seq().len() ==> counts(table@) == Bag::from_set(set@),
        {
            let ghost seen = met(it.seq(), it.index());
            Self::count_one(&mut table, &mut total, clone_of(value));
            proof {
                lemma_met_next(it.seq(), it.index());
                lemma_met_all(it.seq(), source@);
                crate::walk::lemma_met_within(it.seq(), it.index(), source@);
                assert forall|v: V|
                    Bag::from_set(seen).insert(*value).count(v) == Bag::from_set(
                        seen.insert(*value),
                    ).count(v) by {
                    lemma_bag_of_set(seen, v);
                    lemma_bag_of_set(seen.insert(*value), v);
                }
            }
        }
        DafnyMultiset { data: Rc::new(table), size: total }
    }
}

/// The multiset made of a finite set holds each element of the set once.
pub proof fn lemma_bag_of_set<V>(s: Set<V>, v: V)
    requires
        s.finite(),
    ensures
        Bag::from_set(s).count(v) == (if s.contains(v) { 1nat } else { 0nat }),
{
    let m = Map::<V, nat>::new(|k: V| s.contains(k), |k: V| 1nat);
    assert(m.dom() =~= s);
}

impl<V: DafnyTypeEq> DafnyMultiset<V> {
    /// The sum: each value as often as in this multiset and in `other`
    /// together.
    pub fn merge(&self, other: &DafnyMultiset<V>) -> (r: DafnyMultiset<V>)
        requires
            obeys_key_model::<V>(),
            obeys_clone_model::<V>(),
        ensures
            r@ == self@.add(other@),
    {
        proof {
            use_type_invariant(self);
            use_type_invariant(other);
        }
        if other.size.is_zero() {
            return self.clone();
        }
        if self.size.is_zero() {
            return other.clone();
        }
        let mut result = (*self.data).clone();
        proof {
            if other.data@.dom().len() == 0 {
                assert(other.data@ =~= Map::<V, DafnyInt>::empty());
                lemma_counts_empty::<V>();
            }
        }
        for pair in it: other.data.iter()
            invariant
                obeys_key_model::<V>(),
                obeys_clone_model::<V>(),
                all_positive(self.data@),
                all_positive(other.data@),
                self.data@.dom().finite(),
                other.data@.dom().finite(),
                self@ == counts(self.data@),
                other@ == counts(other.data@),
                lists_map(it.seq(), other.data@),
                all_positive(result@),
                forall|v: V|
                    count_in(result@, v) == count_in(self.data@, v) + (if met_keys(
                        it.seq(),
                        it.index(),
                    ).contains(v) {
                        count_in(other.data@, v)
                    } else {
                        0
                    }),
                it.index() == it.seq().len() ==> counts(result@) == self@.add(other@),
        {
            let ghost seen = met_keys(it.seq(), it.index());
            let ghost before = result@;
            let old_count = self.get(pair.0);
            let new_count = old_count + pair.1.clone();
            proof {
                lemma_counts_count(self.data@, *pair.0);
            }
            result.insert(clone_of(pair.0), new_count);
            proof {
                assert forall|v: V|
                    count_in(result@, v) == count_in(self.data@, v) + (if seen.insert(
                        *pair.0,
                    ).contains(v) {
                        count_in(other.data@, v)
                    } else {
                        0
                    }) by {
                    assert(count_in(before, v) == count_in(self.data@, v) + (if seen.contains(v) {
                        count_in(other.data@, v)
                    } else {
                        0
                    }));
                }
                assert(it.index() + 1 == it.seq().len() ==> counts(result@) == self@.add(other@)) by {
                    if it.index() + 1 == it.seq().len() {
                        assert forall|v: V| count_in(result@, v) == self@.add(other@).count(v) by {
                            lemma_counts_count(self.data@, v);
                            lemma_counts_count(other.data@, v);
                        }
                        lemma_counts_agree(result@, self@.add(other@));
                    }
                }
            }
        }
        DafnyMultiset { data: Rc::new(result), size: self.size.clone() + other.size.clone() }
    }

    /// The intersection: each value as often as in the one of this multiset
    /// and `other` that has it less often.
    pub fn intersect(&self, other: &DafnyMultiset<V>) -> (r: DafnyMultiset<V>)
        requires
            obeys_key_model::<V>(),
            obeys_clone_model::<V>(),
        ensures
            r@ == self@.intersection_with(other@),
    {
        proof {
            use_type_invariant(self);
            use_type_invariant(other);
        }
        if other.size.is_zero() {
            proof {
                assert forall|v: V| self@.intersection_with(other@).count(v) == other@.count(v) by {
                    vstd::multiset::lemma_intersection_count(self@, other@, v);
                }
            }
            return other.clone();
        }
        if self.size.is_zero() {
            proof {
                assert forall|v: V| self@.intersection_with(other@).count(v) == self@.count(v) by {
                    vstd::multiset::lemma_intersection_count(self@, other@, v);
                }
            }
            return self.clone();
        }
        let mut result: HashMap<V, DafnyInt> = HashMap::new();
        let mut total = DafnyInt::zero();
        proof {
            lemma_counts_empty::<V>();
            if other.data@.dom().len() == 0 {
                assert(other.data@ =~= Map::<V, DafnyInt>::empty());
            }
        }
        for pair in it: other.data.iter()
            invariant
                obeys_key_model::<V>(),
                obeys_clone_model::<V>(),
                all_positive(self.data@),
                all_positive(other.data@),
                self.data@.dom().finite(),
                other.data@.dom().finite(),
                self@ == counts(self.data@),
                other@ == counts(other.data@),
                lists_map(it.seq(), other.data@),
                all_positive(result@),
                result@.dom().subset_of(met_keys(it.seq(), it.index())),
                forall|v: V|
                    count_in(result@, v) == (if met_keys(it.seq(), it.index()).contains(v) {
                        vstd::math::min(
                            count_in(self.data@, v) as int,
                            count_in(other.data@, v) as int,
                        ) as nat
                    } else {
                        0
                    }),
                total@ == counts(result@).len(),
                it.index() == it.seq().len() ==> counts(result@) == self@.intersection_with(
                    other@,
                ),
        {
            let ghost seen = met_keys(it.seq(), it.index());
            let ghost before = result@;
            proof {
                lemma_counts_count(self.data@, *pair.0);
            }
            let self_count = self.get(pair.0);
            let resulting_count = if self_count < *pair.1 {
                self_count
            } else {
                pair.1.clone()
            };
            if resulting_count.is_positive() {
                proof {
                    lemma_counts_insert(before, *pair.0, resulting_count);
                }
                result.insert(clone_of(pair.0), resulting_count.clone());
                total = total + resulting_count;
            }
            proof {
                assert forall|v: V|
                    count_in(result@, v) == (if seen.insert(*pair.0).contains(v) {
                        vstd::math::min(
                            count_in(self.data@, v) as int,
                            count_in(other.data@, v) as int,
                        ) as nat
                    } else {
                        0
                    }) by {
                    assert(count_in(before, v) == (if seen.contains(v) {
                        vstd::math::min(
                            count_in(self.data@, v) as int,
                            count_in(other.data@, v) as int,
                        ) as nat
                    } else {
                        0
                    }));
                }
                assert(it.index() + 1 == it.seq().len() ==> counts(result@)
                    == self@.intersection_with(other@)) by {
                    if it.index() + 1 == it.seq().len() {
                        assert forall|v: V|
                            count_in(result@, v) == self@.intersection_with(other@).count(v) by {
                            lemma_counts_count(self.data@, v);
                            lemma_counts_count(other.data@, v);
                            vstd::multiset::lemma_intersection_count(self@, other@, v);
                        }
                        lemma_counts_agree(result@, self@.intersection_with(other@));
                    }
                }
            }
        }
        DafnyMultiset { data: Rc::new(result), size: total }
    }

    /// The difference: each value as often as it occurs more in this
    /// multiset than in `other`.
    pub fn subtract(&self, other: &DafnyMultiset<V>) -> (r: DafnyMultiset<V>)
        requires
            obeys_key_model::<V>(),
            obeys_clone_model::<V>(),
        ensures
            r@ == self@.sub(other@),
    {
        proof {
            use_type_invariant(self);
            use_type_invariant(other);
        }
        if other.size.is_zero() {
            return self.clone();
        }
        if self.size.is_zero() {
            return self.clone();
        }
        let mut result = (*self.data).clone();
        let mut total = self.size.clone();
        proof {
            if other.data@.dom().len() == 0 {
                assert(other.data@ =~= Map::<V, DafnyInt>::empty());
                lemma_counts_empty::<V>();
            }
        }
        for pair in it: other.data.iter()
            invariant
                obeys_key_model::<V>(),
                obeys_clone_model::<V>(),
                all_positive(self.data@),
                all_positive(other.data@),
                self.data@.dom().finite(),
                other.data@.dom().finite(),
                self@ == counts(self.data@),
                other@ == counts(other.data@),
                lists_map(it.seq(), other.data@),
                all_positive(result@),
                forall|v: V|
                    count_in(result@, v) == (if met_keys(it.seq(), it.index()).contains(v)
                        && count_in(self.data@, v) < count_in(other.data@, v) {
                        0
                    } else if met_keys(it.seq(), it.index()).contains(v) {
                        (count_in(self.data@, v) - count_in(other.data@, v)) as nat
                    } else {
                        count_in(self.data@, v)
                    }),
                total@ == counts(result@).len(),
                it.index() == it.seq().len() ==> counts(result@) == self@.sub(other@),
        {
            let ghost seen = met_keys(it.seq(), it.index());
            let ghost before = result@;
            proof {
                lemma_counts_count(self.data@, *pair.0);
            }
            let old_count = self.get(pair.0);
            let new_count = old_count.clone() - pair.1.clone();
            if !new_count.is_positive() {
                proof {
                    lemma_counts_remove(before, *pair.0);
                }
                total = total - old_count;
                result.remove(pair.0);
            } else {
                proof {
                    lemma_counts_insert(before, *pair.0, new_count);
                }
                total = total - pair.1.clone();
                result.insert(clone_of(pair.0), new_count);
            }
            proof {
                assert forall|v: V|
                    count_in(result@, v) == (if seen.insert(*pair.0).contains(v) && count_in(
                        self.data@,
                        v,
                    ) < count_in(other.data@, v) {
                        0
                    } else if seen.insert(*pair.0).contains(v) {
                        (count_in(self.data@, v) - count_in(other.data@, v)) as nat
                    } else {
                        count_in(self.data@, v)
                    }) by {
                    assert(count_in(before, v) == (if seen.contains(v) && count_in(
                        self.data@,
                        v,
                    ) < count_in(other.data@, v) {
                        0
                    } else if seen.contains(v) {
                        (count_in(self.data@, v) - count_in(other.data@, v)) as nat
                    } else {
                        count_in(self.data@, v)
                    }));
                }
                assert(it.index() + 1 == it.seq().len() ==> counts(result@) == self@.sub(other@)) by {
                    if it.index() + 1 == it.seq().len() {
                        assert forall|v: V| count_in(result@, v) == self@.sub(other@).count(v) by {
                            lemma_counts_count(self.data@, v);
                            lemma_counts_count(other.data@, v);
                        }
                        lemma_counts_agree(result@, self@.sub(other@));
                    }
                }
            }
        }
        DafnyMultiset { data: Rc::new(result), size: total }
    }

    /// Whether this multiset and `other` have no value in common.
    pub fn disjoint(&self, other: &DafnyMultiset<V>) -> (r: bool)
        requires
            obeys_key_model::<V>(),
        ensures
            r == self@.is_disjoint_from(other@),
    {
        proof {
            use_type_invariant(self);
            use_type_invariant(other);
            if other.data@.dom().len() == 0 {
                assert forall|v: V| self@.count(v) == 0 || other@.count(v) == 0 by {
                    lemma_counts_count(other.data@, v);
                }
            }
        }
        for pair in it: other.data.iter()
            invariant
                obeys_key_model::<V>(),
                all_positive(self.data@),
                all_positive(other.data@),
                self.data@.dom().finite(),
                other.data@.dom().finite(),
                self@ == counts(self.data@),
                other@ == counts(other.data@),
                lists_map(it.seq(), other.data@),
                forall|v: V| #[trigger]
                    met_keys(it.seq(), it.index()).contains(v) ==> self@.count(v) == 0,
                it.index() == it.seq().len() ==> self@.is_disjoint_from(other@),
        {
            proof {
                lemma_met_keys_next(it.seq(), it.index());
                lemma_met_keys_all(it.seq(), other.data@);
                lemma_counts_count(other.data@, *pair.0);
            }
            if self.contains(pair.0) {
                return false;
            }
            proof {
                assert(it.index() + 1 == it.seq().len() ==> self@.is_disjoint_from(other@)) by {
                    if it.index() + 1 == it.seq().len() {
                        assert forall|v: V| self@.count(v) == 0 || other@.count(v) == 0 by {
                            lemma_counts_count(other.data@, v);
                        }
                    }
                }
            }
        }
        true
    }

    /// This multiset again.
    pub fn as_dafny_multiset(&self) -> (r: DafnyMultiset<V>)
        ensures
            r@ == self@,
    {
        self.clone()
    }

    /// Some value of a multiset that is not empty.
    pub fn peek(&self) -> (r: V)
        requires
            obeys_key_model::<V>(),
            obeys_clone_model::<V>(),
            self@.len() > 0,
        ensures
            self@.contains(r),
    {
        proof {
            use_type_invariant(self);
            if self.data@.dom().len() == 0 {
                assert(self.data@ =~= Map::<V, DafnyInt>::empty());
                lemma_counts_empty::<V>();
            }
        }
        for pair in it: self.data.iter()
            invariant
                obeys_key_model::<V>(),
                obeys_clone_model::<V>(),
                all_positive(self.data@),
                self.data@.dom().finite(),
                self@ == counts(self.data@),
                lists_map(it.seq(), self.data@),
                it.seq().len() > 0,
                it.index() == 0,
        {
            proof {
                lemma_counts_count(self.data@, *pair.0);
            }
            return clone_of(pair.0);
        }
        unreached()
    }
}

impl<V: DafnyTypeEq> Default for DafnyMultiset<V> {
    fn default() -> (r: DafnyMultiset<V>)
        ensures
            r@ == Bag::<V>::empty(),
    {
        DafnyMultiset::new_empty()
    }
}

impl<V: DafnyTypeEq> NontrivialDefault for DafnyMultiset<V> {
    fn nontrivial_default() -> (r: DafnyMultiset<V>)
        ensures
            r@ == Bag::<V>::empty(),
    {
        DafnyMultiset::new_empty()
    }
}

impl<V: DafnyTypeEq> Hash for DafnyMultiset<V> {
    /// Hashes the number of elements only: multisets that are equal hash
    /// alike, and that is all a hash owes.
    fn hash<H: Hasher>(&self, state: &mut H) {
        feed(&self.size, state);
    }
}

/// Whether `looked` holds every value of `walked`, and holds it exactly as
/// often where `exact` is set, at most as often where it is not.
pub open spec fn covered<V>(walked: Bag<V>, looked: Bag<V>, exact: bool) -> bool {
    forall|v: V| #[trigger]
        walked.contains(v) ==> looked.contains(v) && (if exact {
            looked.count(v) == walked.count(v)
        } else {
            looked.count(v) <= walked.count(v)
        })
}

/// How two multisets compare. One with fewer elements in all is less than
/// another where it holds every value of the other and none more often; one
/// with more elements is greater under the mirrored condition; two of the
/// same size are equal where they are the same multiset. Otherwise the two
/// do not compare.
pub open spec fn bag_order<V>(a: Bag<V>, b: Bag<V>) -> Option<Ordering> {
    if a.len() < b.len() {
        if covered(b, a, false) {
            Some(Ordering::Less)
        } else {
            None
        }
    } else if a.len() == b.len() {
        if covered(a, b, true) {
            Some(Ordering::Equal)
        } else {
            None
        }
    } else {
        if covered(a, b, false) {
            Some(Ordering::Greater)
        } else {
            None
        }
    }
}

/// Whether `items` lists each distinct value of `bag` once, with the number
/// of times it occurs.
pub open spec fn lists_bag<V>(items: Seq<(&V, &DafnyInt)>, bag: Bag<V>) -> bool {
    &&& forall|i: int|
        0 <= i < items.len() ==> (#[trigger] items[i]).1@ == bag.count(*items[i].0)
            && items[i].1@ > 0
    &&& forall|i: int, j: int|
        0 <= i < j < items.len() ==> *(#[trigger] items[i]).0 != *(#[trigger] items[j]).0
    &&& forall|v: V| #[trigger]
        bag.contains(v) ==> exists|i: int| 0 <= i < items.len() && *(#[trigger] items[i]).0 == v
}

/// Only the empty multiset has an empty listing.
pub proof fn lemma_lists_bag_empty<V>(items: Seq<(&V, &DafnyInt)>, bag: Bag<V>)
    requires
        lists_bag(items, bag),
        items.len() == 0,
    ensures
        bag == Bag::<V>::empty(),
{
    assert forall|v: V| bag.count(v) == Bag::<V>::empty().count(v) by {
        assert(!bag.contains(v));
    }
}

/// The total of the numbers in a table of counts. The walk stops after as
/// many steps as the table has entries, so it ends whatever the key type
/// does.
fn sum_counts<V: DafnyTypeEq>(map: &HashMap<V, DafnyInt>) -> (r: DafnyInt)
    ensures
        obeys_key_model::<V>() && all_positive(map@) ==> r@ == counts(map@).len(),
{
    let ghost known = obeys_key_model::<V>() && all_positive(map@);
    let mut total = DafnyInt::zero();
    let mut budget: usize = map.len();
    let mut it = map.iter();
    let ghost items = it.remaining();
    let ghost mut n: int = 0;
    proof {
        lemma_met_keys_none(items);
        assert(map@.restrict(Set::<V>::empty()) =~= Map::<V, DafnyInt>::empty());
        lemma_counts_empty::<V>();
    }
    while budget > 0
        invariant
            known == (obeys_key_model::<V>() && all_positive(map@)),
            map@.dom().finite(),
            known ==> {
                &&& lists_map(items, map@)
                &&& 0 <= n <= items.len()
                &&& budget == items.len() - n
                &&& it.remaining() == items.skip(n)
                &&& total@ == counts(map@.restrict(met_keys(items, n))).len()
            },
        decreases budget,
    {
        budget -= 1;
        match next_in_map(&mut it) {
            Some(pair) => {
                proof {
                    if known {
                        let seen = met_keys(items, n);
                        lemma_met_keys_next(items, n);
                        assert(map@.restrict(seen).dom() =~= map@.dom().intersect(seen));
                        lemma_counts_insert(map@.restrict(seen), *pair.0, *pair.1);
                        assert(map@.restrict(seen.insert(*pair.0)) =~= map@.restrict(seen).insert(
                            *pair.0,
                            *pair.1,
                        ));
                        n = n + 1;
                    }
                }
                total = total + pair.1.clone();
            },
            None => {
                return total;
            },
        }
    }
    proof {
        if known {
            lemma_met_keys_all(items, map@);
            assert(map@.restrict(map@.dom()) =~= map@);
        }
    }
    total
}

impl<V, U> UpcastTo<DafnyMultiset<V>> for DafnyMultiset<U> where
    V: DafnyTypeEq,
    U: DafnyTypeEq + UpcastTo<V>,
 {
    /// A multiset is seen as one of the wider type by seeing each value so.
    /// Where two values are seen as one, that one occurs as often as one of
    /// the two.
    open spec fn upcasts_to(&self, to: &DafnyMultiset<V>) -> bool {
        obeys_key_model::<U>() && obeys_key_model::<V>() && obeys_clone_model::<U>()
            ==> upcast_counts(self@, to@)
    }

    fn upcast_to(self) -> (r: DafnyMultiset<V>) {
        let ghost known = obeys_key_model::<U>() && obeys_key_model::<V>() && obeys_clone_model::<
            U,
        >();
        let mut new_multiset: HashMap<V, DafnyInt> = HashMap::new();
        let mut budget: usize = self.data.len();
        let mut it = self.data.iter();
        let ghost items = it.remaining();
        let ghost mut n: int = 0;
        proof {
            use_type_invariant(&self);
        }
        while budget > 0
            invariant
                known == (obeys_key_model::<U>() && obeys_key_model::<V>() && obeys_clone_model::<
                    U,
                >()),
                self.data@.dom().finite(),
                obeys_key_model::<V>() ==> all_positive(new_multiset@),
                known ==> {
                    &&& all_positive(self.data@)
                    &&& lists_map(items, self.data@)
                    &&& 0 <= n <= items.len()
                    &&& budget == items.len() - n
                    &&& it.remaining() == items.skip(n)
                    &&& forall|u: U|
                        met_keys(items, n).contains(u) ==> #[trigger] seen_as_some(
                            u,
                            new_multiset@.dom(),
                        )
                    &&& forall|v: V|
                        new_multiset@.contains_key(v) ==> #[trigger] counted_from_some(
                            self@,
                            v,
                            count_in(new_multiset@, v),
                        )
                },
            decreases budget,
        {
            budget -= 1;
            match next_in_map(&mut it) {
                Some(pair) => {
                    let ghost seen = met_keys(items, n);
                    let ghost before = new_multiset@;
                    let wide = clone_of(pair.0).upcast_to();
                    if pair.1.is_positive() {
                        new_multiset.insert(wide, pair.1.clone());
                    }
                    proof {
                        if known {
                            lemma_counts_count(self.data@, *pair.0);
                            assert forall|u: U| seen.insert(*pair.0).contains(u) implies #[trigger] seen_as_some(
                                u,
                                new_multiset@.dom(),
                            ) by {
                                if u != *pair.0 {
                                    assert(seen_as_some(u, before.dom()));
                                }
                            }
                            assert forall|v: V| new_multiset@.contains_key(v) implies #[trigger] counted_from_some(
                                self@,
                                v,
                                count_in(new_multiset@, v),
                            ) by {
                                if v != wide {
                                    assert(counted_from_some(self@, v, count_in(before, v)));
                                }
                            }
                            n = n + 1;
                        }
                    }
                },
                None => {
                    let size = sum_counts(&new_multiset);
                    return DafnyMultiset { data: Rc::new(new_multiset), size };
                },
            }
        }
        let size = sum_counts(&new_multiset);
        proof {
            if known {
                assert forall|u: U| self@.contains(u) implies #[trigger] seen_as_some(
                    u,
                    counts(new_multiset@).dom(),
                ) by {
                    lemma_counts_count(self.data@, u);
                    assert(seen_as_some(u, new_multiset@.dom()));
                    let v = choose|v: V|
                        new_multiset@.dom().contains(v) && #[trigger] u.upcasts_to(&v);
                    lemma_counts_count(new_multiset@, v);
                }
                assert forall|v: V| counts(new_multiset@).contains(v) implies #[trigger] counted_from_some(
                    self@,
                    v,
                    counts(new_multiset@).count(v),
                ) by {
                    lemma_counts_count(new_multiset@, v);
                }
            }
        }
        DafnyMultiset { data: Rc::new(new_multiset), size }
    }
}

impl<V: DafnyTypeEq> DafnyMultiset<V> {
    /// Whether `looked` covers `walked`, found by looking up every value of
    /// `walked`. The walk stops after as many steps as `walked` has distinct
    /// values, so it ends whatever the element type does.
    fn covers(walked: &DafnyMultiset<V>, looked: &DafnyMultiset<V>, exact: bool) -> (r: bool)
        ensures
            obeys_key_model::<V>() ==> r == covered(walked@, looked@, exact),
    {
        let mut budget: usize = walked.data.len();
        let mut it = walked.data.iter();
        let ghost items = it.remaining();
        let ghost mut n: int = 0;
        proof {
            use_type_invariant(walked);
            use_type_invariant(looked);
        }
        while budget > 0
            invariant
                walked.data@.dom().finite(),
                looked.data@.dom().finite(),
                walked@ == counts(walked.data@),
                looked@ == counts(looked.data@),
                obeys_key_model::<V>() ==> {
                    &&& all_positive(walked.data@)
                    &&& all_positive(looked.data@)
                    &&& lists_map(items, walked.data@)
                    &&& 0 <= n <= items.len()
                    &&& budget == items.len() - n
                    &&& it.remaining() == items.skip(n)
                    &&& forall|v: V| #[trigger]
                        met_keys(items, n).contains(v) ==> looked@.contains(v) && (if exact {
                            looked@.count(v) == walked@.count(v)
                        } else {
                            looked@.count(v) <= walked@.count(v)
                        })
                },
            decreases budget,
        {
            budget -= 1;
            match next_in_map(&mut it) {
                Some(pair) => {
                    proof {
                        if obeys_key_model::<V>() {
                            lemma_met_keys_next(items, n);
                            lemma_counts_count(walked.data@, *pair.0);
                            lemma_counts_count(looked.data@, *pair.0);
                            assert(walked@.contains(*pair.0));
                        }
                    }
                    match looked.data.get(pair.0) {
                        Some(count) => {
                            if exact {
                                if !(*count == *pair.1) {
                                    return false;
                                }
                            } else {
                                if *count > *pair.1 {
                                    return false;
                                }
                            }
                        },
                        None => {
                            return false;
                        },
                    }
                    proof {
                        n = n + 1;
                    }
                },
                None => {
                    return false;
                },
            }
        }
        proof {
            if obeys_key_model::<V>() {
                lemma_met_keys_all(items, walked.data@);
                assert forall|v: V| #[trigger] walked@.contains(v) implies looked@.contains(v) && (
                if exact {
                    looked@.count(v) == walked@.count(v)
                } else {
                    looked@.count(v) <= walked@.count(v)
                }) by {
                    lemma_counts_count(walked.data@, v);
                }
            }
        }
        true
    }

    /// An iterator over the distinct values, each with the number of times
    /// it occurs, in no fixed order.
    pub fn iter_raw(&self) -> (r: std::collections::hash_map::Iter<'_, V, DafnyInt>)
        requires
            obeys_key_model::<V>(),
        ensures
            lists_bag(r.remaining(), self@),
            r.decrease() is Some,
            r.initial_value_relation(&r),
    {
        let r = self.data.iter();
        proof {
            use_type_invariant(self);
            let items = r.remaining();
            assert forall|i: int| 0 <= i < items.len() implies (#[trigger] items[i]).1@
                == self@.count(*items[i].0) && items[i].1@ > 0 by {
                lemma_counts_count(self.data@, *items[i].0);
            }
            assert forall|i: int, j: int| 0 <= i < j < items.len() implies *(#[trigger] items[i]).0
                != *(#[trigger] items[j]).0 by {
                if *items[i].0 == *items[j].0 {
                    assert(self.data@[*items[i].0] == *items[i].1);
                }
            }
            assert forall|v: V| #[trigger] self@.contains(v) implies exists|i: int|
                0 <= i < items.len() && *(#[trigger] items[i]).0 == v by {
                lemma_counts_count(self.data@, v);
            }
        }
        r
    }

    /// The distinct values, each once, in no fixed order.
    pub fn iter(&self) -> (r: std::vec::IntoIter<V>)
        requires
            obeys_key_model::<V>(),
            obeys_clone_model::<V>(),
        ensures
            r.remaining().to_set() == self@.dom(),
            r.remaining().no_duplicates(),
            r.decrease() is Some,
            r.initial_value_relation(&r),
    {
        let mut keys: Vec<V> = Vec::new();
        proof {
            use_type_invariant(self);
        }
        for pair in it: self.data.iter()
            invariant
                obeys_key_model::<V>(),
                obeys_clone_model::<V>(),
                lists_map(it.seq(), self.data@),
                keys@.to_set() == met_keys(it.seq(), it.index()),
                keys@.no_duplicates(),
                it.index() == it.seq().len() ==> keys@.to_set() == self.data@.dom(),
        {
            let ghost before = keys@;
            keys.push(clone_of(pair.0));
            proof {
                before.lemma_push_to_set_commute(*pair.0);
                lemma_met_keys_fresh(it.seq(), it.index(), self.data@);
            }
        }
        proof {
            assert forall|v: V| self.data@.dom().contains(v) <==> self@.dom().contains(v) by {
                lemma_counts_count(self.data@, v);
            }
        }
        keys.into_iter()
    }
}

impl<V: DafnyTypeEq> PartialEq for DafnyMultiset<V> {
    /// Two multisets are equal where they hold every value equally often,
    /// in whatever order each was built.
    fn eq(&self, other: &DafnyMultiset<V>) -> (r: bool) {
        proof {
            use_type_invariant(self);
            use_type_invariant(other);
        }
        if !(self.size == other.size) {
            return false;
        }
        let r = Self::covers(other, self, true);
        proof {
            if obeys_key_model::<V>() && r {
                assert forall|v: V| other@.count(v) <= self@.count(v) by {
                    assert(other@.contains(v) ==> self@.count(v) == other@.count(v));
                }
                lemma_within_same_len(other@, self@);
            }
        }
        r
    }
}

impl<V: DafnyTypeEq> PartialEqSpecImpl for DafnyMultiset<V> {
    open spec fn obeys_eq_spec() -> bool {
        obeys_key_model::<V>()
    }

    open spec fn eq_spec(&self, other: &DafnyMultiset<V>) -> bool {
        self@ == other@
    }
}

impl<V: DafnyTypeEq> Eq for DafnyMultiset<V> {}

impl<V: DafnyTypeEq> PartialOrd for DafnyMultiset<V> {
    /// See [`bag_order`].
    fn partial_cmp(&self, other: &DafnyMultiset<V>) -> (r: Option<Ordering>) {
        proof {
            use_type_invariant(self);
            use_type_invariant(other);
        }
        if self.size < other.size {
            if Self::covers(other, self, false) {
                Some(Ordering::Less)
            } else {
                None
            }
        } else if self.size == other.size {
            if Self::covers(self, other, true) {
                Some(Ordering::Equal)
            } else {
                None
            }
        } else {
            if Self::covers(self, other, false) {
                Some(Ordering::Greater)
            } else {
                None
            }
        }
    }
}

impl<V: DafnyTypeEq> PartialOrdSpecImpl for DafnyMultiset<V> {
    open spec fn obeys_partial_cmp_spec() -> bool {
        obeys_key_model::<V>()
    }

    open spec fn partial_cmp_spec(&self, other: &DafnyMultiset<V>) -> Option<Ordering> {
        bag_order(self@, other@)
    }
}

} // verus!
