//! Cells that any number of handles share and any of them may change.
//!
//! What such a cell holds is not a fact that a contract can state: any other
//! handle may have changed it since it was last seen. The functions here
//! make cells and handles; reading and writing through a handle is left to
//! the caller, who alone knows which handles are in use.

use vstd::prelude::*;
use std::cell::UnsafeCell;
use std::rc::Rc;
use std::sync::Arc;
use crate::object::Object;

verus! {

/// `std::cell::UnsafeCell`, carried as an opaque value.
#[verifier::external_type_specification]
#[verifier::external_body]
#[verifier::reject_recursive_types(T)]
pub struct ExUnsafeCell<T: ?Sized>(UnsafeCell<T>);

/// A reference-counted handle on a cell.
pub type RcMut<T> = Rc<UnsafeCell<T>>;

/// `UnsafeCell::new` on `val`. A cell is opaque here: nothing is claimed of it.
#[verifier::external_body]
pub(crate) fn new_cell<T>(val: T) -> (r: UnsafeCell<T>) {
    UnsafeCell::new(val)
}

/// `Rc::ptr_eq`: whether two handles are on the same allocation. Two
/// handles on one allocation are handles on one value.
#[verifier::external_body]
pub(crate) fn same_allocation<T: ?Sized>(a: &Rc<T>, b: &Rc<T>) -> (r: bool)
    ensures
        r ==> a == b,
{
    Rc::ptr_eq(a, b)
}

/// A new cell that holds `val`, and the first handle on it.
pub fn new<T>(val: T) -> (r: RcMut<T>) {
    Rc::new(new_cell(val))
}

/// An array that lives in a shared cell.
pub struct Array<T> {
    pub data: Box<[T]>,
}

impl<T> Array<T> {
    /// A new shared array with the elements of `data`, and the first handle
    /// on it.
    pub fn new(data: Box<[T]>) -> (r: Object<Array<T>>)
        ensures
            r.0 is Some,
    {
        Object(Some(new(Array { data })))
    }
}

/// A handle on a cell that may be sent to another thread.
#[verifier::reject_recursive_types(T)]
pub struct ArcMut<T: ?Sized> {
    inner: Arc<UnsafeCell<T>>,
}

impl<T: ?Sized> Clone for ArcMut<T> {
    /// A second handle on the same cell.
    fn clone(&self) -> (r: ArcMut<T>)
        ensures
            r == *self,
    {
        ArcMut { inner: Arc::clone(&self.inner) }
    }
}

impl<T> ArcMut<T> {
    /// A new cell that holds `val`, and the first handle on it.
    pub fn new(val: T) -> (r: ArcMut<T>) {
        ArcMut { inner: Arc::new(new_cell(val)) }
    }
}

impl<T: ?Sized> ArcMut<T> {
    /// The counted pointer to the cell.
    pub closed spec fn cell(&self) -> Arc<UnsafeCell<T>> {
        self.inner
    }

    /// The counted pointer to the cell.
    pub fn as_cell(&self) -> (r: &Arc<UnsafeCell<T>>)
        ensures
            *r == self.cell(),
    {
        &self.inner
    }
}

} // verus!
