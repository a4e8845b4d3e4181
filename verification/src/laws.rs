//! Laws that relate the operations of the collections to one another.
//!
//! Each operation states in its own contract what it returns, over the view
//! of the collection. The laws here follow from those contracts; they are
//! written down so that a reader finds them stated, and proved so that they
//! stay true.

use vstd::prelude::*;
use vstd::multiset::Multiset;
use std::rc::Rc;
use crate::dafny_map::DafnyMap;
use crate::dafny_set::DafnySet;
use crate::dafny_type::DafnyTypeEq;
use crate::dafny_type::UpcastTo;
use crate::images::seen_as_some;
use crate::images::seen_from_some;
use crate::model::obeys_clone_model;
use crate::sequence::Sequence;

verus! {

/// A concatenation has as many elements as its two halves together, and its
/// elements are those of the left half followed by those of the right half.
/// A sequence that is the concatenation of `a` and `b` is one whose view is
/// `a@ + b@`, whether or not it has been flattened: the view does not know.
pub proof fn lemma_concat<T>(a: Sequence<T>, b: Sequence<T>, both: Sequence<T>)
    requires
        both@ == a@ + b@,
    ensures
        both@.len() == a@.len() + b@.len(),
        forall|i: int| 0 <= i < a@.len() ==> both@[i] == a@[i],
        forall|i: int| 0 <= i < b@.len() ==> both@[a@.len() + i] == b@[i],
{
}

/// Two arrays that each hold the elements of one sequence hold the same
/// elements: flattening a second time changes nothing.
pub proof fn lemma_flatten_twice<T>(s: Sequence<T>, first: Rc<Vec<T>>, second: Rc<Vec<T>>)
    requires
        first@ == s@,
        second@ == s@,
    ensures
        first@ == second@,
{
}

/// In a merged map a key of the second map has the value of the second map,
/// and a key of the first map alone has the value of the first; there are
/// no other keys.
pub proof fn lemma_merge_precedence<K, V>(first: Map<K, V>, second: Map<K, V>, k: K)
    ensures
        first.union_prefer_right(second).contains_key(k) <==> first.contains_key(k)
            || second.contains_key(k),
        second.contains_key(k) ==> first.union_prefer_right(second)[k] == second[k],
        first.contains_key(k) && !second.contains_key(k) ==> first.union_prefer_right(second)[k]
            == first[k],
{
}

/// Merging two multisets adds, for each value, how often it occurs, and
/// adds the sizes; subtracting takes away as often as the second holds the
/// value, down to zero, where the value is gone.
pub proof fn lemma_multiset_arithmetic<V>(a: Multiset<V>, b: Multiset<V>, v: V)
    ensures
        a.add(b).count(v) == a.count(v) + b.count(v),
        a.add(b).len() == a.len() + b.len(),
        a.sub(b).count(v) == (if a.count(v) >= b.count(v) {
            a.count(v) - b.count(v)
        } else {
            0
        }),
        a.count(v) <= b.count(v) ==> !a.sub(b).contains(v),
{
}

/// The order in which two elements are inserted does not show in a set.
pub proof fn lemma_insertion_order<V>(s: Set<V>, a: V, b: V)
    ensures
        s.insert(a).insert(b) == s.insert(b).insert(a),
{
}

/// Two arrays that hold the same elements equally often, in whatever
/// order, make the same set.
pub proof fn lemma_set_of_any_order<V>(a: Seq<V>, b: Seq<V>)
    requires
        a.to_multiset() == b.to_multiset(),
    ensures
        a.to_set() == b.to_set(),
{
    a.to_multiset_ensures();
    b.to_multiset_ensures();
    assert forall|v: V| a.to_set().contains(v) <==> b.to_set().contains(v) by {
        assert(a.contains(v) <==> a.to_multiset().count(v) > 0);
    }
}

/// A sequence seen as one of a wider type has the same length and, at each
/// index, the element of the narrow sequence seen as the wider type.
pub proof fn lemma_upcast_sequence<U, V>(from: Sequence<U>, to: Sequence<V>, i: int) where
    V: DafnyTypeEq,
    U: DafnyTypeEq + UpcastTo<V>,

    requires
        obeys_clone_model::<U>(),
        from.upcasts_to(&to),
        0 <= i < from@.len(),
    ensures
        to@.len() == from@.len(),
        from@[i].upcasts_to(&to@[i]),
{
}

/// A set seen as one of a wider type holds each element of the narrow set
/// seen as the wider type, and nothing else.
pub proof fn lemma_upcast_set<U, V>(from: DafnySet<U>, to: DafnySet<V>) where
    V: DafnyTypeEq,
    U: DafnyTypeEq + UpcastTo<V>,

    requires
        vstd::std_specs::hash::obeys_key_model::<U>(),
        vstd::std_specs::hash::obeys_key_model::<V>(),
        obeys_clone_model::<U>(),
        from.upcasts_to(&to),
    ensures
        forall|u: U| from@.contains(u) ==> #[trigger] seen_as_some(u, to@),
        forall|v: V| to@.contains(v) ==> #[trigger] seen_from_some(from@, v),
{
}

/// A map seen as one to a wider type has the same keys and, at each, the
/// value of the narrow map seen as the wider type.
pub proof fn lemma_upcast_map<K, U, V>(from: DafnyMap<K, U>, to: DafnyMap<K, V>, k: K) where
    K: DafnyTypeEq,
    U: DafnyTypeEq + UpcastTo<V>,
    V: DafnyTypeEq,

    requires
        vstd::std_specs::hash::obeys_key_model::<K>(),
        obeys_clone_model::<K>(),
        obeys_clone_model::<U>(),
        from.upcasts_to(&to),
    ensures
        to@.contains_key(k) <==> from@.contains_key(k),
        from@.contains_key(k) ==> from@[k].upcasts_to(&to@[k]),
{
}

} // verus!
