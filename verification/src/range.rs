//! Iterators over runs of unbounded integers, and over a single value.
//!
//! The iterators over integers hand out values that are made on the way.
//! Their `next` says which number each value holds; the laws that a `for`
//! loop rests on speak of the values themselves and are not claimed.

use vstd::prelude::*;
use vstd::std_specs::iter::IteratorSpecImpl;
use crate::dafny_int::DafnyInt;
use crate::model::obeys_clone_model;
use crate::model::clone_of;

verus! {

/// Some unbounded integer that holds `n`.
pub open spec fn integer_with(n: int) -> DafnyInt {
    choose|d: DafnyInt| d@ == n
}

/// The numbers from `from` up to, and without, `to`, each as some unbounded
/// integer that holds it.
pub open spec fn run_up(from: int, to: int) -> Seq<DafnyInt> {
    Seq::new((if from < to { to - from } else { 0 }) as nat, |i: int| integer_with(from + i))
}

/// The numbers below `from` down to, and with, `to`, each as some unbounded
/// integer that holds it.
pub open spec fn run_down(from: int, to: int) -> Seq<DafnyInt> {
    Seq::new((if to < from { from - to } else { 0 }) as nat, |i: int| integer_with(from - 1 - i))
}

/// The integers from a lower bound up to, and without, an upper bound, in
/// rising order.
pub struct IntegerRange {
    hi: DafnyInt,
    current: DafnyInt,
}

impl IntegerRange {
    /// The number that comes next, where one is left.
    pub closed spec fn next_value(&self) -> int {
        self.current@
    }

    /// The bound that the numbers stay below.
    pub closed spec fn upper(&self) -> int {
        self.hi@
    }
}

impl Iterator for IntegerRange {
    type Item = DafnyInt;

    fn next(&mut self) -> (r: Option<DafnyInt>)
        ensures
            final(self).upper() == old(self).upper(),
            old(self).next_value() < old(self).upper() ==> {
                &&& r is Some
                &&& r->0@ == old(self).next_value()
                &&& final(self).next_value() == old(self).next_value() + 1
            },
            old(self).next_value() >= old(self).upper() ==> {
                &&& r is None
                &&& final(self).next_value() == old(self).next_value()
            },
    {
        if self.current < self.hi {
            let result = self.current.clone();
            self.current = self.current.clone() + DafnyInt::one();
            Some(result)
        } else {
            None
        }
    }
}

impl IteratorSpecImpl for IntegerRange {
    open spec fn obeys_prophetic_iter_laws(&self) -> bool {
        false
    }

    open spec fn remaining(&self) -> Seq<DafnyInt> {
        run_up(self.next_value(), self.upper())
    }

    open spec fn will_return_none(&self) -> bool {
        true
    }

    open spec fn decrease(&self) -> Option<nat> {
        Some(run_up(self.next_value(), self.upper()).len())
    }

    open spec fn initial_value_relation(&self, init: &Self) -> bool {
        init.next_value() == self.next_value() && init.upper() == self.upper()
    }

    open spec fn peek(&self, index: int) -> Option<DafnyInt> {
        None
    }
}

/// The integers from `low` up to, and without, `hi`.
pub fn integer_range(low: DafnyInt, hi: DafnyInt) -> (r: IntegerRange)
    ensures
        r.next_value() == low@,
        r.upper() == hi@,
{
    IntegerRange { hi, current: low }
}

/// The integers below an upper bound down to, and with, a lower bound, in
/// falling order.
pub struct IntegerRangeDown {
    current: DafnyInt,
    low: DafnyInt,
}

impl IntegerRangeDown {
    /// One more than the number that comes next, where one is left.
    pub closed spec fn above_next(&self) -> int {
        self.current@
    }

    /// The bound that the numbers do not go below.
    pub closed spec fn lower(&self) -> int {
        self.low@
    }
}

impl Iterator for IntegerRangeDown {
    type Item = DafnyInt;

    fn next(&mut self) -> (r: Option<DafnyInt>)
        ensures
            final(self).lower() == old(self).lower(),
            old(self).above_next() > old(self).lower() ==> {
                &&& r is Some
                &&& r->0@ == old(self).above_next() - 1
                &&& final(self).above_next() == old(self).above_next() - 1
            },
            old(self).above_next() <= old(self).lower() ==> {
                &&& r is None
                &&& final(self).above_next() == old(self).above_next()
            },
    {
        if self.current > self.low {
            self.current = self.current.clone() - DafnyInt::one();
            Some(self.current.clone())
        } else {
            None
        }
    }
}

impl IteratorSpecImpl for IntegerRangeDown {
    open spec fn obeys_prophetic_iter_laws(&self) -> bool {
        false
    }

    open spec fn remaining(&self) -> Seq<DafnyInt> {
        run_down(self.above_next(), self.lower())
    }

    open spec fn will_return_none(&self) -> bool {
        true
    }

    open spec fn decrease(&self) -> Option<nat> {
        Some(run_down(self.above_next(), self.lower()).len())
    }

    open spec fn initial_value_relation(&self, init: &Self) -> bool {
        init.above_next() == self.above_next() && init.lower() == self.lower()
    }

    open spec fn peek(&self, index: int) -> Option<DafnyInt> {
        None
    }
}

/// The integers below `hi` down to, and with, `low`.
pub fn integer_range_down(hi: DafnyInt, low: DafnyInt) -> (r: IntegerRangeDown)
    ensures
        r.above_next() == hi@,
        r.lower() == low@,
{
    IntegerRangeDown { current: hi, low }
}

/// The integers from a lower bound upwards, without end.
pub struct IntegerRangeUnbounded {
    current: DafnyInt,
}

impl IntegerRangeUnbounded {
    /// The number that comes next.
    pub closed spec fn next_value(&self) -> int {
        self.current@
    }
}

impl Iterator for IntegerRangeUnbounded {
    type Item = DafnyInt;

    fn next(&mut self) -> (r: Option<DafnyInt>)
        ensures
            r is Some,
            r->0@ == old(self).next_value(),
            final(self).next_value() == old(self).next_value() + 1,
    {
        let result = self.current.clone();
        self.current = self.current.clone() + DafnyInt::one();
        Some(result)
    }
}

impl IteratorSpecImpl for IntegerRangeUnbounded {
    open spec fn obeys_prophetic_iter_laws(&self) -> bool {
        false
    }

    open spec fn remaining(&self) -> Seq<DafnyInt> {
        Seq::empty()
    }

    open spec fn will_return_none(&self) -> bool {
        false
    }

    open spec fn decrease(&self) -> Option<nat> {
        None
    }

    open spec fn initial_value_relation(&self, init: &Self) -> bool {
        init.next_value() == self.next_value()
    }

    open spec fn peek(&self, index: int) -> Option<DafnyInt> {
        None
    }
}

/// The integers from `low` upwards, without end.
pub fn integer_range_unbounded(low: DafnyInt) -> (r: IntegerRangeUnbounded)
    ensures
        r.next_value() == low@,
{
    IntegerRangeUnbounded { current: low }
}

/// The integers below an upper bound downwards, without end.
pub struct IntegerRangeDownUnbounded {
    current: DafnyInt,
}

impl IntegerRangeDownUnbounded {
    /// One more than the number that comes next.
    pub closed spec fn above_next(&self) -> int {
        self.current@
    }
}

impl Iterator for IntegerRangeDownUnbounded {
    type Item = DafnyInt;

    fn next(&mut self) -> (r: Option<DafnyInt>)
        ensures
            r is Some,
            r->0@ == old(self).above_next() - 1,
            final(self).above_next() == old(self).above_next() - 1,
    {
        self.current = self.current.clone() - DafnyInt::one();
        Some(self.current.clone())
    }
}

impl IteratorSpecImpl for IntegerRangeDownUnbounded {
    open spec fn obeys_prophetic_iter_laws(&self) -> bool {
        false
    }

    open spec fn remaining(&self) -> Seq<DafnyInt> {
        Seq::empty()
    }

    open spec fn will_return_none(&self) -> bool {
        false
    }

    open spec fn decrease(&self) -> Option<nat> {
        None
    }

    open spec fn initial_value_relation(&self, init: &Self) -> bool {
        init.above_next() == self.above_next()
    }

    open spec fn peek(&self, index: int) -> Option<DafnyInt> {
        None
    }
}

/// The integers below `hi` downwards, without end.
pub fn integer_range_down_unbounded(hi: DafnyInt) -> (r: IntegerRangeDownUnbounded)
    ensures
        r.above_next() == hi@,
{
    IntegerRangeDownUnbounded { current: hi }
}

/// An iterator that hands out one value once.
pub struct ExactPool<T: Clone> {
    current: T,
    yielded: bool,
}

impl<T: Clone> ExactPool<T> {
    /// What is still to come: the value, or nothing once it was handed out.
    pub closed spec fn rest(&self) -> Seq<T> {
        if self.yielded {
            Seq::empty()
        } else {
            seq![self.current]
        }
    }
}

impl<T: Clone> Iterator for ExactPool<T> {
    type Item = T;

    fn next(&mut self) -> (r: Option<T>) {
        if self.yielded {
            None
        } else {
            self.yielded = true;
            Some(clone_of(&self.current))
        }
    }
}

impl<T: Clone> IteratorSpecImpl for ExactPool<T> {
    open spec fn obeys_prophetic_iter_laws(&self) -> bool {
        obeys_clone_model::<T>()
    }

    open spec fn remaining(&self) -> Seq<T> {
        self.rest()
    }

    open spec fn will_return_none(&self) -> bool {
        true
    }

    open spec fn decrease(&self) -> Option<nat> {
        Some(self.rest().len())
    }

    open spec fn initial_value_relation(&self, init: &Self) -> bool {
        init.rest() == self.rest()
    }

    open spec fn peek(&self, index: int) -> Option<T> {
        if 0 <= index < self.rest().len() {
            Some(self.rest()[index])
        } else {
            None
        }
    }
}

/// An iterator that hands out `value` once.
pub fn exact_range<T: Clone>(value: T) -> (r: ExactPool<T>)
    ensures
        r.rest() == seq![value],
{
    ExactPool { current: value, yielded: false }
}

} // verus!
