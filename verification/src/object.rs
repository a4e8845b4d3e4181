//! Handles on shared objects, and the null handle.

use vstd::prelude::*;
use vstd::std_specs::cmp::PartialEqSpecImpl;
use std::hash::Hash;
use std::hash::Hasher;
use std::rc::Rc;
use crate::model::feed;
use crate::rcmut::RcMut;
use crate::rcmut::same_allocation;

verus! {

/// A handle on an object that every clone of the handle shares, or the null
/// handle. Two handles are equal where they are on the same object.
#[verifier::reject_recursive_types(T)]
pub struct Object<T: ?Sized>(pub Option<RcMut<T>>);

/// A new object that holds `val`, and the first handle on it.
pub fn new<T>(val: T) -> (r: Object<T>)
    ensures
        r.0 is Some,
{
    Object(Some(crate::rcmut::new(val)))
}

/// `std::ptr::hash`: feeds the address of what `handle` is on to the hasher
/// `state`. A hasher's state is opaque, so nothing is claimed of it
/// afterwards.
#[verifier::external_body]
fn feed_address<T: ?Sized, H: Hasher>(handle: &Rc<T>, state: &mut H) {
    std::ptr::hash(&**handle, state)
}

impl<T: ?Sized> Object<T> {
    /// Whether this is the null handle.
    pub fn is_null(&self) -> (r: bool)
        ensures
            r == (self.0 is None),
    {
        self.0.is_none()
    }
}

impl<T: ?Sized> Clone for Object<T> {
    /// A second handle on the same object.
    fn clone(&self) -> (r: Object<T>)
        ensures
            r == *self,
    {
        match &self.0 {
            Some(p) => Object(Some(Rc::clone(p))),
            None => Object(None),
        }
    }
}

impl<T: ?Sized> PartialEq for Object<T> {
    /// Whether both handles are on one object. The null handle equals no
    /// handle, itself included.
    fn eq(&self, other: &Object<T>) -> (r: bool)
        ensures
            self.0 is None || other.0 is None ==> !r,
            r ==> self.0 == other.0,
    {
        match &self.0 {
            Some(p) => match &other.0 {
                Some(q) => same_allocation(p, q),
                None => false,
            },
            None => false,
        }
    }
}

impl<T: ?Sized> PartialEqSpecImpl for Object<T> {
    open spec fn obeys_eq_spec() -> bool {
        false
    }

    open spec fn eq_spec(&self, other: &Object<T>) -> bool {
        self.0 == other.0
    }
}

impl<T: ?Sized> Hash for Object<T> {
    /// Hashes the address of the object, or zero for the null handle.
    fn hash<H: Hasher>(&self, state: &mut H) {
        match &self.0 {
            Some(p) => feed_address(p, state),
            None => {
                let zero: i32 = 0;
                feed(&zero, state)
            },
        }
    }
}

/// A function held as a value. Two wrapped functions are equal where they
/// are one function in one place.
pub struct FunctionWrapper<A: ?Sized>(pub A);

impl<A: Clone> Clone for FunctionWrapper<A> {
    fn clone(&self) -> (r: FunctionWrapper<A>)
        ensures
            cloned(self.0, r.0),
    {
        let inner = self.0.clone();
        FunctionWrapper(inner)
    }
}

impl<A: ?Sized> PartialEq for FunctionWrapper<Rc<A>> {
    fn eq(&self, other: &FunctionWrapper<Rc<A>>) -> (r: bool)
        ensures
            r ==> self.0 == other.0,
    {
        same_allocation(&self.0, &other.0)
    }
}

impl<A: ?Sized> PartialEqSpecImpl for FunctionWrapper<Rc<A>> {
    open spec fn obeys_eq_spec() -> bool {
        false
    }

    open spec fn eq_spec(&self, other: &FunctionWrapper<Rc<A>>) -> bool {
        self.0 == other.0
    }
}

/// Whether two handles that may be null are alike: both null, or both on
/// the same allocation.
pub fn nullable_referential_equality<T: ?Sized>(left: Option<Rc<T>>, right: Option<Rc<T>>) -> (r:
    bool)
    ensures
        left is None && right is None ==> r,
        (left is None) != (right is None) ==> !r,
        r ==> left == right,
{
    match (left, right) {
        (Some(l), Some(r)) => same_allocation(&l, &r),
        (None, None) => true,
        _ => false,
    }
}

} // verus!
