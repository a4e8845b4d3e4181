//! Slots that are filled later.

use vstd::prelude::*;
use crate::model::obeys_clone_model;
use crate::model::clone_of;

verus! {

/// A slot that holds a value or, until it is filled, nothing.
pub struct MaybePlacebo<T>(Option<T>);

impl<T> MaybePlacebo<T> {
    /// What the slot holds.
    pub closed spec fn held(&self) -> Option<T> {
        self.0
    }

    /// An empty slot.
    pub fn new() -> (r: Self)
        ensures
            r.held() is None,
    {
        MaybePlacebo(None)
    }

    /// A slot that holds `v`.
    pub fn from(v: T) -> (r: Self)
        ensures
            r.held() == Some(v),
    {
        MaybePlacebo(Some(v))
    }
}

impl<T: Clone> MaybePlacebo<T> {
    /// The value in a slot that has been filled.
    pub fn read(&self) -> (r: T)
        requires
            obeys_clone_model::<T>(),
            self.held() is Some,
        ensures
            Some(r) == self.held(),
    {
        match &self.0 {
            Some(v) => clone_of(v),
            None => unreached(),
        }
    }
}

} // verus!
