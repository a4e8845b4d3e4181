//! Persistent sets.

use vstd::prelude::*;
use vstd::std_specs::hash::obeys_key_model;
use vstd::std_specs::hash::axiom_spec_hash_keys_iter;
use vstd::std_specs::iter::IteratorSpec;
use vstd::std_specs::cmp::PartialEqSpecImpl;
use vstd::std_specs::cmp::PartialOrdSpecImpl;
use vstd::set_lib::lemma_subset_equality;
use vstd::set_lib::lemma_len_subset;
use std::cmp::Ordering;
use std::collections::HashMap;
use std::collections::HashSet;
use std::rc::Rc;
use crate::dafny_int::DafnyInt;
use crate::dafny_type::DafnyTypeEq;
use crate::dafny_multiset::DafnyMultiset;
use crate::dafny_type::NontrivialDefault;
use crate::dafny_type::UpcastTo;
use crate::images::seen_as_some;
use crate::images::seen_from_some;
use crate::images::upcast_image;
use crate::images::accepts_all;
use crate::images::converts_each;
use crate::text::push_char;
use crate::text::push_joined;
use crate::text::set_text;
use crate::text::texts_of;
use crate::model::obeys_clone_model;
use crate::model::clone_of;
use crate::sequence::Sequence;
use crate::walk::met;
use crate::walk::next_in_set;
use crate::walk::lemma_met_next;
use crate::walk::lemma_met_all;
use crate::walk::lemma_met_within;

verus! {

/// An immutable set of `V`. Its view is the mathematical set of its elements.
/// Every operation that changes a set returns a new one.
pub struct DafnySet<V> {
    data: Rc<HashSet<V>>,
}

impl<V> View for DafnySet<V> {
    type V = Set<V>;

    closed spec fn view(&self) -> Set<V> {
        self.data@
    }
}

impl<V> Clone for DafnySet<V> {
    /// A second handle on the same storage.
    fn clone(&self) -> (r: Self)
        ensures
            r == *self,
    {
        DafnySet { data: Rc::clone(&self.data) }
    }
}

/// The elements of a hash set are finitely many.
pub proof fn lemma_hash_set_finite<V>(s: &HashSet<V>)
    ensures
        s@.finite(),
{
    axiom_spec_hash_keys_iter(s);
}

impl<V: DafnyTypeEq> DafnySet<V> {
    /// The empty set.
    pub fn new_empty() -> (r: DafnySet<V>)
        ensures
            r@ == Set::<V>::empty(),
    {
        Self::from_hashset_owned(HashSet::new())
    }

    /// The set of the elements of `hashset`, which it takes over.
    pub fn from_hashset_owned(hashset: HashSet<V>) -> (r: DafnySet<V>)
        ensures
            r@ == hashset@,
    {
        DafnySet { data: Rc::new(hashset) }
    }

    /// The set of the elements of `array`.
    pub fn from_array(array: &Vec<V>) -> (r: DafnySet<V>)
        requires
            obeys_key_model::<V>(),
            obeys_clone_model::<V>(),
        ensures
            r@ == array@.to_set(),
    {
        let mut set: HashSet<V> = HashSet::new();
        let mut i: usize = 0;
        while i < array.len()
            invariant
                obeys_key_model::<V>(),
                obeys_clone_model::<V>(),
                i <= array@.len(),
                set@ == array@.take(i as int).to_set(),
            decreases array@.len() - i,
        {
            set.insert(clone_of(&array[i]));
            proof {
                assert(array@.take(i + 1) =~= array@.take(i as int).push(array@[i as int]));
                array@.take(i as int).lemma_push_to_set_commute(array@[i as int]);
            }
            i += 1;
        }
        proof {
            assert(array@.take(array@.len() as int) =~= array@);
        }
        Self::from_hashset_owned(set)
    }

    /// The set of the items that `data` hands out.
    pub fn from_iterator<I>(data: I) -> (r: DafnySet<V>) where I: Iterator<Item = V>
        requires
            obeys_key_model::<V>(),
            data.obeys_prophetic_iter_laws(),
            data.decrease() is Some,
        ensures
            r@ == data.remaining().to_set(),
    {
        let mut data = data;
        let ghost items = data.remaining();
        let ghost mut n: int = 0;
        let mut set: HashSet<V> = HashSet::new();
        loop
            invariant
                obeys_key_model::<V>(),
                data.obeys_prophetic_iter_laws(),
                data.decrease() is Some,
                0 <= n <= items.len(),
                data.remaining() == items.skip(n),
                set@ == items.take(n).to_set(),
            ensures
                set@ == items.to_set(),
            decreases data.decrease()->0,
        {
            match data.next() {
                Some(value) => {
                    set.insert(value);
                    proof {
                        assert(items.take(n + 1) =~= items.take(n).push(value));
                        items.take(n).lemma_push_to_set_commute(value);
                        n = n + 1;
                    }
                },
                None => {
                    proof {
                        assert(items.take(n) =~= items);
                    }
                    break ;
                },
            }
        }
        Self::from_hashset_owned(set)
    }

    /// The set of the elements of a sequence.
    pub fn from_sequence(data: &Rc<Sequence<V>>) -> (r: DafnySet<V>)
        requires
            obeys_key_model::<V>(),
            obeys_clone_model::<V>(),
        ensures
            r@ == data@.to_set(),
    {
        let array = data.to_array();
        Self::from_array(&array)
    }

    /// The number of elements, which are finitely many.
    pub fn cardinality_usize(&self) -> (r: usize)
        requires
            obeys_key_model::<V>(),
        ensures
            r == self@.len(),
            self@.finite(),
    {
        proof {
            lemma_hash_set_finite(&*self.data);
        }
        self.data.len()
    }

    /// The hash set inside.
    pub fn as_hash_set(&self) -> (r: &HashSet<V>)
        ensures
            r@ == self@,
    {
        &self.data
    }

    /// The number of elements, as an unbounded integer.
    pub fn cardinality(&self) -> (r: DafnyInt)
        requires
            obeys_key_model::<V>(),
        ensures
            r@ == self@.len(),
    {
        DafnyInt::from_usize(self.data.len())
    }

    /// Whether `value` is an element.
    pub fn contains(&self, value: &V) -> (r: bool)
        requires
            obeys_key_model::<V>(),
        ensures
            r == self@.contains(*value),
    {
        self.data.contains(value)
    }

    /// A hash set with a clone of every element of `source`.
    fn copy_of(source: &HashSet<V>) -> (r: HashSet<V>)
        requires
            obeys_key_model::<V>(),
            obeys_clone_model::<V>(),
        ensures
            r@ == source@,
    {
        let mut result: HashSet<V> = HashSet::new();
        proof {
            lemma_hash_set_finite(source);
            if source@.len() == 0 {
                assert(source@ =~= Set::<V>::empty());
            }
        }
        for value in it: source.iter()
            invariant
                obeys_key_model::<V>(),
                obeys_clone_model::<V>(),
                it.seq().unref().to_set() == source@,
                result@ == met(it.seq(), it.index()),
                it.index() == it.seq().len() ==> result@ == source@,
        {
            result.insert(clone_of(value));
            proof {
                lemma_met_next(it.seq(), it.index());
                lemma_met_all(it.seq(), source@);
            }
        }
        result
    }

    /// The union: what is in this set or in `other`.
    pub fn merge(&self, other: &DafnySet<V>) -> (r: DafnySet<V>)
        requires
            obeys_key_model::<V>(),
            obeys_clone_model::<V>(),
        ensures
            r@ == self@.union(other@),
    {
        if self.data.is_empty() {
            return other.clone();
        }
        if other.data.is_empty() {
            return self.clone();
        }
        let mut result = Self::copy_of(&self.data);
        for value in it: other.data.iter()
            invariant
                obeys_key_model::<V>(),
                obeys_clone_model::<V>(),
                it.seq().unref().to_set() == other@,
                result@ == self@.union(met(it.seq(), it.index())),
                it.index() == it.seq().len() ==> result@ == self@.union(other@),
        {
            if !result.contains(value) {
                result.insert(clone_of(value));
            }
            proof {
                lemma_met_all(it.seq(), other@);
            }
        }
        Self::from_hashset_owned(result)
    }

    /// The intersection: what is in this set and in `other`.
    pub fn intersect(&self, other: &DafnySet<V>) -> (r: DafnySet<V>)
        requires
            obeys_key_model::<V>(),
            obeys_clone_model::<V>(),
        ensures
            r@ == self@.intersect(other@),
    {
        if self.data.is_empty() {
            return self.clone();
        }
        if other.data.is_empty() {
            return other.clone();
        }
        let mut result: HashSet<V> = HashSet::new();
        for value in it: self.data.iter()
            invariant
                obeys_key_model::<V>(),
                obeys_clone_model::<V>(),
                it.seq().unref().to_set() == self@,
                result@ == met(it.seq(), it.index()).intersect(other@),
                it.index() == it.seq().len() ==> result@ == self@.intersect(other@),
        {
            if other.data.contains(value) {
                result.insert(clone_of(value));
            }
            proof {
                lemma_met_all(it.seq(), self@);
            }
        }
        Self::from_hashset_owned(result)
    }

    /// The difference: what is in this set and not in `other`.
    pub fn subtract(&self, other: &DafnySet<V>) -> (r: DafnySet<V>)
        requires
            obeys_key_model::<V>(),
            obeys_clone_model::<V>(),
        ensures
            r@ == self@.difference(other@),
    {
        if self.data.is_empty() {
            return self.clone();
        }
        if other.data.is_empty() {
            return self.clone();
        }
        let mut result: HashSet<V> = HashSet::new();
        for value in it: self.data.iter()
            invariant
                obeys_key_model::<V>(),
                obeys_clone_model::<V>(),
                it.seq().unref().to_set() == self@,
                result@ == met(it.seq(), it.index()).difference(other@),
                it.index() == it.seq().len() ==> result@ == self@.difference(other@),
        {
            if !other.data.contains(value) {
                result.insert(clone_of(value));
            }
            proof {
                lemma_met_all(it.seq(), self@);
            }
        }
        Self::from_hashset_owned(result)
    }

    /// Whether no value is in both `a` and `b`, found by looking up every
    /// element of `a` in `b`.
    fn none_in(a: &HashSet<V>, b: &HashSet<V>) -> (r: bool)
        requires
            obeys_key_model::<V>(),
        ensures
            r == a@.disjoint(b@),
    {
        for value in it: a.iter()
            invariant
                obeys_key_model::<V>(),
                it.seq().unref().to_set() == a@,
                met(it.seq(), it.index()).disjoint(b@),
                it.index() == it.seq().len() ==> a@.disjoint(b@),
        {
            if b.contains(value) {
                return false;
            }
        }
        true
    }

    /// Whether this set and `other` have no element in common.
    pub fn disjoint(&self, other: &DafnySet<V>) -> (r: bool)
        requires
            obeys_key_model::<V>(),
        ensures
            r == self@.disjoint(other@),
    {
        if self.data.is_empty() {
            return true;
        }
        if other.data.is_empty() {
            return true;
        }
        if other.data.len() < self.data.len() {
            Self::none_in(&other.data, &self.data)
        } else {
            Self::none_in(&self.data, &other.data)
        }
    }

    /// The multiset that holds each element of this set once.
    pub fn as_dafny_multiset(&self) -> (r: DafnyMultiset<V>)
        requires
            obeys_key_model::<V>(),
            obeys_clone_model::<V>(),
        ensures
            r@ == vstd::multiset::Multiset::from_set(self@),
    {
        DafnyMultiset::from_set(self)
    }

    /// This set again: the set of its own elements.
    pub fn elements(&self) -> (r: DafnySet<V>)
        ensures
            r@ == self@,
    {
        self.clone()
    }
}

impl<V: DafnyTypeEq> DafnySet<V> {
    /// Whether every element of `a` is in `b`. The walk stops after as many
    /// steps as `a` has elements, so it ends whatever the element type does.
    fn all_in(a: &HashSet<V>, b: &HashSet<V>) -> (r: bool)
        ensures
            obeys_key_model::<V>() ==> r == a@.subset_of(b@),
    {
        let mut budget: usize = a.len();
        let mut it = a.iter();
        let ghost items = it.remaining();
        let ghost mut n: int = 0;
        while budget > 0
            invariant
                obeys_key_model::<V>() ==> {
                    &&& items.unref().to_set() == a@
                    &&& 0 <= n <= items.len()
                    &&& budget == items.len() - n
                    &&& it.remaining() == items.skip(n)
                    &&& met(items, n).subset_of(b@)
                },
            decreases budget,
        {
            budget -= 1;
            match next_in_set(&mut it) {
                Some(value) => {
                    proof {
                        if obeys_key_model::<V>() {
                            lemma_met_within(items, n + 1, a@);
                        }
                    }
                    if !b.contains(value) {
                        return false;
                    }
                    proof {
                        n = n + 1;
                    }
                },
                None => {
                    return false;
                },
            }
        }
        true
    }

    /// Whether this set and `other` have the same elements.
    pub fn equals(&self, other: &DafnySet<V>) -> (r: bool)
        requires
            obeys_key_model::<V>(),
        ensures
            r == (self@ == other@),
    {
        if self.data.len() != other.data.len() {
            return false;
        }
        let r = Self::all_in(&other.data, &self.data);
        proof {
            lemma_hash_set_finite(&*self.data);
            if r {
                lemma_subset_equality(other@, self@);
            }
        }
        r
    }

    /// An iterator over the elements, each once, in no fixed order.
    pub fn iter(&self) -> (r: std::collections::hash_set::Iter<'_, V>)
        requires
            obeys_key_model::<V>(),
        ensures
            r.remaining().unref().to_set() == self@,
            r.remaining().no_duplicates(),
            r.remaining().len() == self@.len(),
            r.decrease() is Some,
            r.initial_value_relation(&r),
    {
        self.data.iter()
    }

    /// Some element of a set that is not empty.
    pub fn peek(&self) -> (r: V)
        requires
            obeys_key_model::<V>(),
            obeys_clone_model::<V>(),
            self@.len() > 0,
        ensures
            self@.contains(r),
    {
        for value in it: self.data.iter()
            invariant
                obeys_key_model::<V>(),
                obeys_clone_model::<V>(),
                it.seq().unref().to_set() == self@,
                it.seq().len() == self@.len(),
                self@.len() > 0,
                it.index() == 0,
        {
            return clone_of(value);
        }
        unreached()
    }
}

impl<V: DafnyTypeEq> Default for DafnySet<V> {
    fn default() -> (r: DafnySet<V>)
        ensures
            r@ == Set::<V>::empty(),
    {
        DafnySet::new_empty()
    }
}

impl<V: DafnyTypeEq> PartialEq for DafnySet<V> {
    /// Two sets are equal where they have the same elements, in whatever
    /// order each was built.
    fn eq(&self, other: &DafnySet<V>) -> (r: bool) {
        if self.data.len() != other.data.len() {
            return false;
        }
        let r = Self::all_in(&other.data, &self.data);
        proof {
            lemma_hash_set_finite(&*self.data);
            if obeys_key_model::<V>() && r {
                lemma_subset_equality(other@, self@);
            }
        }
        r
    }
}

impl<V: DafnyTypeEq> PartialEqSpecImpl for DafnySet<V> {
    open spec fn obeys_eq_spec() -> bool {
        obeys_key_model::<V>()
    }

    open spec fn eq_spec(&self, other: &DafnySet<V>) -> bool {
        self@ == other@
    }
}

impl<V: DafnyTypeEq> PartialOrd for DafnySet<V> {
    /// The order of inclusion: a set is less than every set that holds it
    /// and more; two sets of which neither holds the other do not compare.
    fn partial_cmp(&self, other: &DafnySet<V>) -> (r: Option<Ordering>) {
        proof {
            lemma_hash_set_finite(&*self.data);
            lemma_hash_set_finite(&*other.data);
        }
        if self.data.len() <= other.data.len() {
            if Self::all_in(&self.data, &other.data) {
                if self.data.len() == other.data.len() {
                    proof {
                        if obeys_key_model::<V>() {
                            lemma_subset_equality(self@, other@);
                        }
                    }
                    Some(Ordering::Equal)
                } else {
                    Some(Ordering::Less)
                }
            } else {
                proof {
                    if obeys_key_model::<V>() && other@.subset_of(self@) {
                        lemma_len_subset(other@, self@);
                        lemma_subset_equality(other@, self@);
                    }
                }
                None
            }
        } else {
            if Self::all_in(&other.data, &self.data) {
                proof {
                    if obeys_key_model::<V>() && self@.subset_of(other@) {
                        lemma_len_subset(self@, other@);
                    }
                }
                Some(Ordering::Greater)
            } else {
                proof {
                    if obeys_key_model::<V>() && self@.subset_of(other@) {
                        lemma_len_subset(self@, other@);
                    }
                }
                None
            }
        }
    }
}

impl<V: DafnyTypeEq> PartialOrdSpecImpl for DafnySet<V> {
    open spec fn obeys_partial_cmp_spec() -> bool {
        obeys_key_model::<V>()
    }

    open spec fn partial_cmp_spec(&self, other: &DafnySet<V>) -> Option<Ordering> {
        if self@ == other@ {
            Some(Ordering::Equal)
        } else if self@.subset_of(other@) {
            Some(Ordering::Less)
        } else if other@.subset_of(self@) {
            Some(Ordering::Greater)
        } else {
            None
        }
    }
}

impl<V: DafnyTypeEq> NontrivialDefault for DafnySet<V> {
    fn nontrivial_default() -> (r: DafnySet<V>)
        ensures
            r@ == Set::<V>::empty(),
    {
        DafnySet::new_empty()
    }
}

impl<V, U> UpcastTo<DafnySet<V>> for DafnySet<U> where V: DafnyTypeEq, U: DafnyTypeEq + UpcastTo<V> {
    /// A set is seen as one of the wider type by seeing each element so.
    open spec fn upcasts_to(&self, to: &DafnySet<V>) -> bool {
        obeys_key_model::<U>() && obeys_key_model::<V>() && obeys_clone_model::<U>()
            ==> upcast_image(self@, to@)
    }

    fn upcast_to(self) -> (r: DafnySet<V>) {
        let ghost known = obeys_key_model::<U>() && obeys_key_model::<V>() && obeys_clone_model::<
            U,
        >();
        let mut new_set: HashSet<V> = HashSet::new();
        let mut budget: usize = self.data.len();
        let mut it = self.data.iter();
        let ghost items = it.remaining();
        let ghost mut n: int = 0;
        while budget > 0
            invariant
                known == (obeys_key_model::<U>() && obeys_key_model::<V>() && obeys_clone_model::<
                    U,
                >()),
                known ==> {
                    &&& items.unref().to_set() == self@
                    &&& 0 <= n <= items.len()
                    &&& budget == items.len() - n
                    &&& it.remaining() == items.skip(n)
                    &&& upcast_image(met(items, n), new_set@)
                },
            decreases budget,
        {
            budget -= 1;
            match next_in_set(&mut it) {
                Some(value) => {
                    let ghost seen = met(items, n);
                    let ghost before = new_set@;
                    let wide = clone_of(value).upcast_to();
                    new_set.insert(wide);
                    proof {
                        if known {
                            lemma_met_next(items, n);
                            assert forall|u: U| seen.insert(*value).contains(u) implies #[trigger] seen_as_some(
                                u,
                                new_set@,
                            ) by {
                                if u != *value {
                                    assert(seen_as_some(u, before));
                                }
                            }
                            assert forall|v: V| new_set@.contains(v) implies #[trigger] seen_from_some(
                                seen.insert(*value),
                                v,
                            ) by {
                                if v != wide {
                                    assert(seen_from_some(seen, v));
                                }
                            }
                            n = n + 1;
                        }
                    }
                },
                None => {
                    return DafnySet::from_hashset_owned(new_set);
                },
            }
        }
        proof {
            if known {
                lemma_met_all(items, self@);
            }
        }
        DafnySet::from_hashset_owned(new_set)
    }
}

/// Whether `text` is the text of a set of `elements`, each printed by
/// `print`: a list in braces, in some order.
pub open spec fn prints_as_set<V, F: Fn(&V) -> String>(print: F, elements: Set<V>, text: Seq<char>) -> bool {
    exists|items: Seq<V>, parts: Seq<String>|
        items.no_duplicates() && items.to_set() == elements && #[trigger] converts_each(
            print,
            items,
            parts,
        ) && text == set_text(texts_of(parts))
}

impl<V: DafnyTypeEq> DafnySet<V> {
    /// The text of this set, with each element printed by `print`.
    pub fn to_text<F: Fn(&V) -> String>(&self, print: F) -> (r: String)
        requires
            obeys_key_model::<V>(),
            accepts_all(print, self@),
        ensures
            prints_as_set(print, self@, r@),
    {
        let mut parts: Vec<String> = Vec::new();
        let ghost mut items: Seq<V> = Seq::empty();
        for value in it: self.data.iter()
            invariant
                obeys_key_model::<V>(),
                accepts_all(print, self@),
                it.seq().unref().to_set() == self@,
                it.seq().no_duplicates(),
                items == it.seq().unref().take(it.index()),
                converts_each(print, items, parts@),
                it.index() == it.seq().len() ==> items == it.seq().unref(),
        {
            proof {
                assert(self@.contains(*value));
            }
            parts.push(print(value));
            proof {
                items = items.push(*value);
            }
        }
        let mut out = String::new();
        push_char(&mut out, '{');
        push_joined(&mut out, &parts, true);
        push_char(&mut out, '}');
        proof {
            assert(out@ =~= set_text(texts_of(parts@)));
        }
        out
    }
}

/// Gathers elements one by one and then freezes them into a set.
pub struct SetBuilder<T> {
    data: HashMap<T, bool>,
}

impl<T> View for SetBuilder<T> {
    type V = Set<T>;

    /// The elements gathered so far.
    closed spec fn view(&self) -> Set<T> {
        self.data@.dom()
    }
}

impl<T: DafnyTypeEq> SetBuilder<T> {
    /// A builder that has gathered nothing.
    pub fn new() -> (r: SetBuilder<T>)
        ensures
            r@ == Set::<T>::empty(),
    {
        SetBuilder { data: HashMap::new() }
    }

    /// Gathers `value`; gathering it a second time changes nothing.
    pub fn add(&mut self, value: &T)
        requires
            obeys_key_model::<T>(),
            obeys_clone_model::<T>(),
        ensures
            final(self)@ == old(self)@.insert(*value),
    {
        self.data.insert(clone_of(value), true);
    }

    /// The set of what was gathered.
    pub fn build(self) -> (r: DafnySet<T>)
        requires
            obeys_key_model::<T>(),
            obeys_clone_model::<T>(),
        ensures
            r@ == self@,
    {
        let mut result: Vec<T> = Vec::new();
        for pair in it: self.data.iter()
            invariant
                obeys_key_model::<T>(),
                obeys_clone_model::<T>(),
                crate::walk::lists_map(it.seq(), self.data@),
                result@.to_set() == crate::walk::met_keys(it.seq(), it.index()),
                it.index() == it.seq().len() ==> result@.to_set() == self.data@.dom(),
        {
            let ghost before = result@;
            result.push(clone_of(pair.0));
            proof {
                before.lemma_push_to_set_commute(*pair.0);
            }
        }
        DafnySet::from_array(&result)
    }
}

} // verus!
