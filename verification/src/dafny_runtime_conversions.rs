//! Conversions between the values of this runtime and native ones.
//!
//! A conversion takes the function that converts one element. What it
//! promises is stated over what that function promises of each call: the
//! result holds, for each element of the source, a value that the function
//! may return for it.

pub mod unicode_chars_true;
pub mod unicode_chars_false;

use vstd::prelude::*;
use vstd::std_specs::hash::obeys_key_model;
use std::collections::HashMap;
use std::collections::HashSet;
use std::hash::Hash;
use std::rc::Rc;
use num::BigInt;
use crate::bag::Bag;
use crate::bigint::int_of;
use crate::bigint::big_clone;
use crate::dafny_multiset::lists_bag;
use crate::dafny_multiset::lemma_lists_bag_empty;
use crate::dafny_type::DafnyType;
use crate::dafny_type::DafnyTypeEq;
use crate::model::obeys_clone_model;
use crate::model::into_boxed;
use crate::images::accepts_each;
use crate::images::converts_each;
use crate::images::accepts_all;
use crate::images::has_image;
use crate::images::has_source;
use crate::images::image_of;
use crate::images::accepts_entries;
use crate::images::map_image_of;
use crate::text::multiset_text;
use crate::text::push_char;
use crate::text::push_joined;
use crate::text::texts_of;
use crate::walk::met;
use crate::walk::met_keys;
use crate::walk::lemma_met_next;
use crate::walk::lemma_met_all;

verus! {

pub type DafnyInt = crate::dafny_int::DafnyInt;

pub type DafnySequence<T> = crate::sequence::Sequence<T>;

pub type DafnyMap<K, V> = crate::dafny_map::DafnyMap<K, V>;

pub type DafnySet<T> = crate::dafny_set::DafnySet<T>;

pub type DafnyMultiset<T> = crate::dafny_multiset::DafnyMultiset<T>;

pub type DafnyBool = bool;

pub type DafnyChar = crate::chars::DafnyChar;

pub type DafnyCharUTF16 = crate::chars::DafnyCharUTF16;

/// An object on the heap with one owner.
pub type DafnyClass<T> = Box<T>;

/// An array on the heap with one owner.
pub type DafnyArray<T> = Box<[T]>;

/// The value inside an owned object.
pub fn dafny_class_to_struct<T: Clone>(ptr: DafnyClass<T>) -> (r: T)
    ensures
        r == *ptr,
{
    *dafny_class_to_boxed_struct(ptr)
}

/// The owned object as a box, which it is.
pub fn dafny_class_to_boxed_struct<T: Clone>(ptr: DafnyClass<T>) -> (r: Box<T>)
    ensures
        r == ptr,
{
    ptr
}

/// An owned object that holds `t`.
pub fn struct_to_dafny_class<T>(t: T) -> (r: DafnyClass<T>)
    ensures
        *r == t,
{
    boxed_struct_to_dafny_class(Box::new(t))
}

/// The box as an owned object, which it is.
pub fn boxed_struct_to_dafny_class<T>(t: Box<T>) -> (r: DafnyClass<T>)
    ensures
        r == t,
{
    t
}

/// The elements of an owned array, as a vector.
pub fn dafny_array_to_vec<T: Clone>(ptr: DafnyArray<T>) -> (r: Vec<T>)
    ensures
        r@ == ptr@,
{
    ptr.into_vec()
}

/// An owned array with the elements of `array`.
pub fn vec_to_dafny_array<T: Clone>(array: Vec<T>) -> (r: DafnyArray<T>)
    ensures
        r@ == array@,
{
    into_boxed(array)
}

/// A big integer with the value of `i`.
pub fn dafny_int_to_bigint(i: &DafnyInt) -> (r: BigInt)
    ensures
        int_of(r) == i@,
{
    big_clone(i.as_ref())
}

/// An unbounded integer with the value of `i`.
pub fn bigint_to_dafny_int(i: &BigInt) -> (r: DafnyInt)
    ensures
        r@ == int_of(*i),
{
    DafnyInt::new(Rc::new(big_clone(i)))
}

/// A vector with the converted elements of `s`, in order.
pub fn dafny_sequence_to_vec<T, X, F>(s: &DafnySequence<T>, elem_converter: F) -> (r: Vec<X>) where
    T: DafnyType,
    F: Fn(&T) -> X,

    requires
        obeys_clone_model::<T>(),
        accepts_each(elem_converter, s@),
    ensures
        converts_each(elem_converter, s@, r@),
{
    let array = s.to_array();
    let mut result: Vec<X> = Vec::with_capacity(array.len());
    let mut i: usize = 0;
    while i < array.len()
        invariant
            array@ == s@,
            accepts_each(elem_converter, s@),
            i <= array@.len(),
            converts_each(elem_converter, s@.take(i as int), result@),
        decreases array@.len() - i,
    {
        result.push(elem_converter(&array[i]));
        i += 1;
    }
    result
}

/// A sequence with the converted elements of `array`, in order.
pub fn vec_to_dafny_sequence<T, X, F>(array: &Vec<X>, elem_converter: F) -> (r: DafnySequence<
    T,
>) where T: DafnyType, F: Fn(&X) -> T
    requires
        accepts_each(elem_converter, array@),
    ensures
        converts_each(elem_converter, array@, r@),
{
    let mut result: Vec<T> = Vec::with_capacity(array.len());
    let mut i: usize = 0;
    while i < array.len()
        invariant
            accepts_each(elem_converter, array@),
            i <= array@.len(),
            converts_each(elem_converter, array@.take(i as int), result@),
        decreases array@.len() - i,
    {
        result.push(elem_converter(&array[i]));
        i += 1;
    }
    DafnySequence::<T>::from_array_owned(result)
}

/// A set with the converted elements of `set`.
pub fn set_to_dafny_set<U, T, F>(set: &HashSet<U>, converter: F) -> (r: DafnySet<T>) where
    U: Eq + Hash,
    T: DafnyTypeEq,
    F: Fn(&U) -> T,

    requires
        obeys_key_model::<U>(),
        obeys_key_model::<T>(),
        accepts_all(converter, set@),
    ensures
        image_of(converter, set@, r@),
{
    let mut result: HashSet<T> = HashSet::new();
    for value in it: set.iter()
        invariant
            obeys_key_model::<U>(),
            obeys_key_model::<T>(),
            accepts_all(converter, set@),
            it.seq().unref().to_set() == set@,
            image_of(converter, met(it.seq(), it.index()), result@),
            it.index() == it.seq().len() ==> image_of(converter, set@, result@),
    {
        let ghost seen = met(it.seq(), it.index());
        let ghost before = result@;
        proof {
            lemma_met_next(it.seq(), it.index());
            lemma_met_all(it.seq(), set@);
            crate::walk::lemma_met_within(it.seq(), it.index() + 1, set@);
            assert(seen.insert(*value).contains(*value));
        }
        let converted = converter(value);
        result.insert(converted);
        proof {
            assert forall|a: U| seen.insert(*value).contains(a) implies #[trigger] has_image(
                converter,
                a,
                result@,
            ) by {
                if a != *value {
                    assert(has_image(converter, a, before));
                }
            }
            assert forall|b: T| result@.contains(b) implies #[trigger] has_source(
                converter,
                seen.insert(*value),
                b,
            ) by {
                if b != converted {
                    assert(has_source(converter, seen, b));
                }
            }
        }
    }
    DafnySet::from_hashset_owned(result)
}

/// A hash set with the converted elements of `set`.
pub fn dafny_set_to_set<T, U, F>(set: &DafnySet<T>, converter: F) -> (r: HashSet<U>) where
    T: DafnyTypeEq,
    U: Clone + Eq + Hash,
    F: Fn(&T) -> U,

    requires
        obeys_key_model::<T>(),
        obeys_key_model::<U>(),
        accepts_all(converter, set@),
    ensures
        image_of(converter, set@, r@),
{
    let mut result: HashSet<U> = HashSet::new();
    let source = set.as_hash_set();
    for value in it: source.iter()
        invariant
            obeys_key_model::<T>(),
            obeys_key_model::<U>(),
            source@ == set@,
            accepts_all(converter, set@),
            it.seq().unref().to_set() == set@,
            image_of(converter, met(it.seq(), it.index()), result@),
            it.index() == it.seq().len() ==> image_of(converter, set@, result@),
    {
        let ghost seen = met(it.seq(), it.index());
        let ghost before = result@;
        proof {
            lemma_met_next(it.seq(), it.index());
            lemma_met_all(it.seq(), set@);
            crate::walk::lemma_met_within(it.seq(), it.index() + 1, set@);
            assert(seen.insert(*value).contains(*value));
        }
        let converted = converter(value);
        result.insert(converted);
        proof {
            assert forall|a: T| seen.insert(*value).contains(a) implies #[trigger] has_image(
                converter,
                a,
                result@,
            ) by {
                if a != *value {
                    assert(has_image(converter, a, before));
                }
            }
            assert forall|b: U| result@.contains(b) implies #[trigger] has_source(
                converter,
                seen.insert(*value),
                b,
            ) by {
                if b != converted {
                    assert(has_source(converter, seen, b));
                }
            }
        }
    }
    result
}

/// A hash map with the converted entries of `m`.
pub fn dafny_map_to_hashmap<K, V, K2, V2, FK, FV>(
    m: &DafnyMap<K, V>,
    converter_k: FK,
    converter_v: FV,
) -> (r: HashMap<K2, V2>) where
    K: DafnyTypeEq,
    V: DafnyTypeEq,
    K2: Eq + Hash,
    V2: Clone,
    FK: Fn(&K) -> K2,
    FV: Fn(&V) -> V2,

    requires
        obeys_key_model::<K>(),
        obeys_key_model::<K2>(),
        accepts_entries(converter_k, converter_v, m@),
    ensures
        map_image_of(converter_k, converter_v, m@, r@),
{
    m.to_hashmap_owned(converter_k, converter_v)
}

/// A map with the converted entries of `map`.
pub fn hashmap_to_dafny_map<K2, V2, K, V, FK, FV>(
    map: &HashMap<K2, V2>,
    converter_k: FK,
    converter_v: FV,
) -> (r: DafnyMap<K, V>) where
    K: DafnyTypeEq,
    V: DafnyTypeEq,
    K2: Eq + Hash,
    V2: Clone,
    FK: Fn(&K2) -> K,
    FV: Fn(&V2) -> V,

    requires
        obeys_key_model::<K>(),
        obeys_key_model::<K2>(),
        accepts_entries(converter_k, converter_v, map@),
    ensures
        map_image_of(converter_k, converter_v, map@, r@),
{
    DafnyMap::<K, V>::from_hashmap(map, converter_k, converter_v)
}

/// Whether `to` holds the converted elements of some arrangement of `bag`
/// in a row.
pub open spec fn converts_bag<A, B, F: Fn(&A) -> B>(f: F, bag: Bag<A>, to: Seq<B>) -> bool {
    exists|from: Seq<A>| #[trigger] from.to_multiset() == bag && converts_each(f, from, to)
}

/// Whether `bag` holds the converted elements of `from`, each as often as
/// it comes out.
pub open spec fn converts_into_bag<A, B, F: Fn(&A) -> B>(f: F, from: Seq<A>, bag: Bag<B>) -> bool {
    exists|to: Seq<B>| #[trigger] to.to_multiset() == bag && converts_each(f, from, to)
}

/// A vector with the converted elements of `ms`, each as often as it
/// occurs.
pub fn dafny_multiset_to_owned_vec<T, U, F>(ms: &DafnyMultiset<T>, converter: F) -> (r: Vec<
    U,
>) where T: DafnyTypeEq, U: Clone + Eq, F: Fn(&T) -> U
    requires
        obeys_key_model::<T>(),
        accepts_all(converter, ms@.dom()),
        ms@.len() <= usize::MAX,
    ensures
        converts_bag(converter, ms@, r@),
{
    let mut result: Vec<U> = Vec::new();
    let ghost mut from: Seq<T> = Seq::empty();
    proof {
        from.to_multiset_ensures();
        assert forall|items: Seq<(&T, &DafnyInt)>| #[trigger]
            lists_bag(items, ms@) && items.len() == 0 implies ms@ == Bag::<T>::empty() by {
            lemma_lists_bag_empty(items, ms@);
        }
    }
    for pair in it: ms.iter_raw()
        invariant
            obeys_key_model::<T>(),
            accepts_all(converter, ms@.dom()),
            ms@.len() <= usize::MAX,
            lists_bag(it.seq(), ms@),
            converts_each(converter, from, result@),
            forall|v: T|
                from.to_multiset().count(v) == (if met_keys(it.seq(), it.index()).contains(v) {
                    ms@.count(v)
                } else {
                    0
                }),
            it.index() == it.seq().len() ==> from.to_multiset() == ms@,
    {
        let ghost seen = met_keys(it.seq(), it.index());
        let ghost start = from;
        proof {
            assert(ms@.dom().contains(*pair.0));
}
        let times = pair.1.as_usize();
        let mut j: usize = 0;
        while j < times
            invariant
                j <= times,
                converter.requires((pair.0,)),
                converts_each(converter, from, result@),
                forall|v: T|
                    from.to_multiset().count(v) == start.to_multiset().count(v) + (if v == *pair.0 {
                        j as nat
                    } else {
                        0
                    }),
            decreases times - j,
        {
            result.push(converter(pair.0));
            proof {
                vstd::seq_lib::to_multiset_build(from, *pair.0);
                from = from.push(*pair.0);
            }
            j += 1;
        }
        proof {
            assert(it.index() + 1 == it.seq().len() ==> from.to_multiset() == ms@) by {
                if it.index() + 1 == it.seq().len() {
                    assert forall|v: T| from.to_multiset().count(v) == ms@.count(v) by {
                        assert(ms@.contains(v) ==> seen.insert(*pair.0).contains(v));
                    }
                }
            }
        }
    }
    result
}

/// Whether `text` is the text of the multiset `bag`, each element printed
/// by `print`: a list in braces after the word `multiset`, each value as
/// often as it occurs.
pub open spec fn prints_as_multiset<V, F: Fn(&V) -> String>(print: F, bag: Bag<V>, text: Seq<char>) -> bool {
    exists|parts: Seq<String>| #[trigger]
        converts_bag(print, bag, parts) && text == multiset_text(texts_of(parts))
}

/// The text of the multiset `ms`, with each element printed by `print`.
pub fn dafny_multiset_to_text<T, F>(ms: &DafnyMultiset<T>, print: F) -> (r: String) where
    T: DafnyTypeEq,
    F: Fn(&T) -> String,

    requires
        obeys_key_model::<T>(),
        accepts_all(print, ms@.dom()),
        ms@.len() <= usize::MAX,
    ensures
        prints_as_multiset(print, ms@, r@),
{
    let parts = dafny_multiset_to_owned_vec(ms, print);
    let mut out = String::new();
    push_char(&mut out, 'm');
    push_char(&mut out, 'u');
    push_char(&mut out, 'l');
    push_char(&mut out, 't');
    push_char(&mut out, 'i');
    push_char(&mut out, 's');
    push_char(&mut out, 'e');
    push_char(&mut out, 't');
    push_char(&mut out, '{');
    push_joined(&mut out, &parts, true);
    push_char(&mut out, '}');
    proof {
        assert(out@ =~= multiset_text(texts_of(parts@)));
    }
    out
}

/// A multiset with the converted elements of `vec`.
pub fn vec_to_dafny_multiset<T, U, F>(vec: &Vec<U>, converter: F) -> (r: DafnyMultiset<T>) where
    T: DafnyTypeEq,
    U: Clone + Eq + Hash,
    F: Fn(&U) -> T,

    requires
        obeys_key_model::<T>(),
        accepts_each(converter, vec@),
    ensures
        converts_into_bag(converter, vec@, r@),
{
    let mut converted: Vec<T> = Vec::with_capacity(vec.len());
    let mut i: usize = 0;
    while i < vec.len()
        invariant
            accepts_each(converter, vec@),
            i <= vec@.len(),
            converts_each(converter, vec@.take(i as int), converted@),
        decreases vec@.len() - i,
    {
        converted.push(converter(&vec[i]));
        i += 1;
    }
    let r = DafnyMultiset::from_iterator(converted.into_iter());
    r
}

} // verus!
