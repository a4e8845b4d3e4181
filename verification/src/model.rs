//! What the collections ask of their element types, and small helpers that
//! turn those demands into facts about single values.

use vstd::prelude::*;
use std::hash::Hash;
use std::hash::Hasher;

verus! {

/// Holds of a type whose `clone` returns a value equal to the one it was
/// given. The collections copy their elements with `clone`; their contracts
/// are stated for element types of which this holds.
pub open spec fn obeys_clone_model<T: Clone>() -> bool {
    forall|a: T, b: T| #[trigger] cloned(a, b) ==> a == b
}

/// A clone of `x`, known to equal `x` where the type obeys the clone model.
pub fn clone_of<T: Clone>(x: &T) -> (r: T)
    ensures
        cloned(*x, r),
        obeys_clone_model::<T>() ==> r == *x,
{
    let r = x.clone();
    assert(cloned(*x, r));
    r
}

/// A copy of the elements of `v` from index `start` up to `end`.
pub fn clone_range<T: Clone>(v: &Vec<T>, start: usize, end: usize) -> (r: Vec<T>)
    requires
        start <= end <= v@.len(),
    ensures
        r@.len() == end - start,
        obeys_clone_model::<T>() ==> r@ == v@.subrange(start as int, end as int),
{
    let mut r: Vec<T> = Vec::with_capacity(end - start);
    let mut i: usize = start;
    while i < end
        invariant
            start <= i <= end <= v@.len(),
            r@.len() == i - start,
            obeys_clone_model::<T>() ==> r@ == v@.subrange(start as int, i as int),
        decreases end - i,
    {
        r.push(clone_of(&v[i]));
        i += 1;
    }
    r
}

/// `Vec::into_boxed_slice`: the same elements in the same order.
#[verifier::external_body]
pub(crate) fn into_boxed<T>(v: Vec<T>) -> (r: Box<[T]>)
    ensures
        r@ == v@,
{
    v.into_boxed_slice()
}

/// `Hash::hash`: feeds `value` to the hasher `state`. A hasher's state is
/// opaque, so nothing is claimed of it afterwards.
#[verifier::external_body]
pub(crate) fn feed<T: Hash, H: Hasher>(value: &T, state: &mut H) {
    value.hash(state)
}

} // verus!
