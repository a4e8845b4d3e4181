//! The traits that the collections ask of their element types.

use vstd::prelude::*;
use std::hash::Hash;

verus! {

/// A type whose values can be elements of a sequence or values of a map:
/// anything that can be cloned and borrows nothing.
pub trait DafnyType: Clone + 'static {

}

impl<T> DafnyType for T where T: Clone + 'static {

}

/// A type whose values can be elements of a set or a multiset, or keys of a
/// map: a [`DafnyType`] with equality and a hash that agrees with it.
pub trait DafnyTypeEq: DafnyType + Hash + Eq {

}

impl<T> DafnyTypeEq for T where T: DafnyType + Hash + Eq {

}

/// A type with a value to start from. It serves where `Default` would, for
/// types whose starting value need not be the one of all zeroes.
pub trait NontrivialDefault: Sized {
    fn nontrivial_default() -> Self;
}

/// A type whose values can be seen as values of the wider type `U`.
///
/// `upcasts_to` says which value of `U` a value may be seen as, and
/// `upcast_to` returns such a value. A collection is seen as a collection of
/// the wider type by seeing each of its elements so.
pub trait UpcastTo<U>: Clone {
    /// Whether `to` is this value seen as a `U`. A type that does not say
    /// admits every value.
    open spec fn upcasts_to(&self, to: &U) -> bool {
        true
    }

    /// This value seen as a `U`.
    fn upcast_to(self) -> (r: U)
        ensures
            self.upcasts_to(&r),
    ;
}

} // verus!
