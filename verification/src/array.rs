//! Arrays of fixed length with one owner.

use vstd::prelude::*;
use crate::dafny_int::DafnyInt;
use crate::model::clone_of;
use crate::model::into_boxed;
use crate::model::obeys_clone_model;

verus! {

/// The array itself.
pub fn from_native<T>(v: Box<[T]>) -> (r: Box<[T]>)
    ensures
        r@ == v@,
{
    v
}

/// An array with the elements of `v`.
pub fn from_vec<T>(v: Vec<T>) -> (r: Box<[T]>)
    ensures
        r@ == v@,
{
    from_native(into_boxed(v))
}

/// A vector with the elements of the array `v`.
pub fn to_vec<T>(v: Box<[T]>) -> (r: Vec<T>)
    ensures
        r@ == v@,
{
    v.into_vec()
}

/// Whether `array` holds, at each index, a value that `initializer` may
/// return for that index.
pub open spec fn filled_by<T, F: Fn(usize) -> T>(initializer: F, array: Seq<T>) -> bool {
    forall|i: usize| 0 <= i < array.len() ==> initializer.ensures((i,), #[trigger] array[i as int])
}

/// An array of length `n` whose element at each index is what `initializer`
/// returns for that index.
pub fn initialize_usize<T, F: Fn(usize) -> T>(n: usize, initializer: F) -> (r: Box<[T]>)
    requires
        forall|i: usize| i < n ==> initializer.requires((i,)),
    ensures
        r@.len() == n,
        filled_by(initializer, r@),
{
    let mut v: Vec<T> = Vec::with_capacity(n);
    let mut i: usize = 0;
    while i < n
        invariant
            forall|i: usize| i < n ==> initializer.requires((i,)),
            i <= n,
            v@.len() == i,
            filled_by(initializer, v@),
        decreases n - i,
    {
        v.push(initializer(i));
        i += 1;
    }
    from_vec(v)
}

/// Whether `array` holds, at each index, a value that `initializer` may
/// return for that index given as an unbounded integer.
pub open spec fn filled_by_int<T, F: Fn(&DafnyInt) -> T>(initializer: F, array: Seq<T>) -> bool {
    forall|i: int| 0 <= i < array.len() ==> made_at(initializer, i, #[trigger] array[i])
}

/// Whether `initializer` may return `x` for the index `i`.
pub open spec fn made_at<T, F: Fn(&DafnyInt) -> T>(initializer: F, i: int, x: T) -> bool {
    exists|index: DafnyInt| index@ == i && #[trigger] initializer.ensures((&index,), x)
}

/// Whether `initializer` accepts every index below `n`.
pub open spec fn accepts_below<T, F: Fn(&DafnyInt) -> T>(initializer: F, n: int) -> bool {
    forall|index: DafnyInt| 0 <= index@ < n ==> #[trigger] initializer.requires((&index,))
}

/// An array of length `n_usize` whose element at each index is what
/// `initializer` returns for that index.
pub fn initialize_box_usize<T, F: Fn(&DafnyInt) -> T>(n_usize: usize, initializer: F) -> (r: Box<
    [T],
>)
    requires
        accepts_below(initializer, n_usize as int),
    ensures
        r@.len() == n_usize,
        filled_by_int(initializer, r@),
{
    let mut v: Vec<T> = Vec::with_capacity(n_usize);
    let mut i: usize = 0;
    while i < n_usize
        invariant
            accepts_below(initializer, n_usize as int),
            i <= n_usize,
            v@.len() == i,
            filled_by_int(initializer, v@),
        decreases n_usize - i,
    {
        let index = DafnyInt::from_usize(i);
        let x = initializer(&index);
        v.push(x);
        proof {
            assert forall|j: int| 0 <= j < v@.len() implies made_at(
                initializer,
                j,
                #[trigger] v@[j],
            ) by {}
        }
        i += 1;
    }
    into_boxed(v)
}

/// As [`initialize_box_usize`], with the length as an unbounded integer.
pub fn initialize_box<T, F: Fn(&DafnyInt) -> T>(n: &DafnyInt, initializer: F) -> (r: Box<[T]>)
    requires
        0 <= n@ <= usize::MAX,
        accepts_below(initializer, n@),
    ensures
        r@.len() == n@,
        filled_by_int(initializer, r@),
{
    initialize_box_usize(n.as_usize(), initializer)
}

/// As [`initialize_box`].
pub fn initialize<T, F: Fn(&DafnyInt) -> T>(n: &DafnyInt, initializer: F) -> (r: Box<[T]>)
    requires
        0 <= n@ <= usize::MAX,
        accepts_below(initializer, n@),
    ensures
        r@.len() == n@,
        filled_by_int(initializer, r@),
{
    initialize_box(n, initializer)
}

/// The length of an array.
pub fn length_usize<T>(this: &[T]) -> (r: usize)
    ensures
        r == this@.len(),
{
    this.len()
}

/// The length of an array, as an unbounded integer.
pub fn length<T>(this: &[T]) -> (r: DafnyInt)
    ensures
        r@ == this@.len(),
{
    DafnyInt::from_usize(length_usize(this))
}

/// The element at index `i`.
pub fn get_usize<T: Clone>(this: &[T], i: usize) -> (r: T)
    requires
        obeys_clone_model::<T>(),
        i < this@.len(),
    ensures
        r == this@[i as int],
{
    clone_of(&this[i])
}

/// The element at index `i`.
pub fn get<T: Clone>(this: &[T], i: &DafnyInt) -> (r: T)
    requires
        obeys_clone_model::<T>(),
        0 <= i@ < this@.len(),
    ensures
        r == this@[i@],
{
    proof {
        vstd::slice::axiom_spec_len(this);
    }
    get_usize(this, i.as_usize())
}

/// Writes `val` at index `i`.
pub fn update_usize<T>(this: &mut [T], i: usize, val: T)
    requires
        i < old(this)@.len(),
    ensures
        final(this)@ == old(this)@.update(i as int, val),
{
    this[i] = val;
}

/// Writes `val` at index `i`.
pub fn update<T>(this: &mut [T], i: &DafnyInt, val: T)
    requires
        0 <= i@ < old(this)@.len(),
    ensures
        final(this)@ == old(this)@.update(i@, val),
{
    proof {
        vstd::slice::axiom_spec_len(&*this);
    }
    update_usize(this, i.as_usize(), val);
}

} // verus!
