//! Persistent sequences with constant-time concatenation.
//!
//! A sequence is either an array or the concatenation of two sequences. A
//! concatenation is flattened into an array the first time it is asked for
//! its array, and that array is kept in a memo slot for every later read.
//! From then on the two halves are not read again, and a concatenation that
//! is built from a flattened one keeps the array, not the halves.
//!
//! Comparing, hashing and searching read the elements where they lie,
//! without copying them, so they ask nothing of how the elements clone.

use vstd::prelude::*;
use vstd::cell::invcell::InvCell;
use vstd::predicate::Predicate;
use vstd::std_specs::cmp::PartialEqSpec;
use vstd::std_specs::cmp::PartialEqSpecImpl;
use vstd::std_specs::cmp::PartialOrdSpecImpl;
use vstd::std_specs::iter::IteratorSpecImpl;
use vstd::std_specs::ops::AddSpecImpl;
use std::ops::Add;
use std::cmp::Ordering;
use std::hash::Hash;
use std::hash::Hasher;
use std::rc::Rc;
use crate::dafny_int::DafnyInt;
use crate::dafny_type::DafnyType;
use crate::dafny_type::DafnyTypeEq;
use crate::dafny_multiset::DafnyMultiset;
use crate::dafny_type::NontrivialDefault;
use crate::dafny_type::UpcastTo;
use crate::model::obeys_clone_model;
use crate::model::clone_of;
use crate::model::clone_range;
use crate::model::feed;
use crate::images::accepts_each;
use crate::images::converts_each;
use crate::text::push_char;
use crate::text::push_joined;
use crate::text::sequence_text;
use crate::text::texts_of;

verus! {

/// What a concatenation's memo slot may hold: nothing, or an array with the
/// elements of the concatenation.
pub struct Flattened<T> {
    pub elements: Seq<T>,
}

impl<T> Predicate<Option<Rc<Vec<T>>>> for Flattened<T> {
    open spec fn predicate(&self, slot: Option<Rc<Vec<T>>>) -> bool {
        slot matches Some(array) ==> array@ == self.elements
    }
}

/// The two halves of a concatenation, their total length, and the memo slot
/// for the flattened array.
pub struct ConcatNode<T> {
    left: Rc<Sequence<T>>,
    right: Rc<Sequence<T>>,
    length: usize,
    boxed: Rc<InvCell<Option<Rc<Vec<T>>>, Flattened<T>>>,
}

/// An immutable sequence of `T`. Its view is the `Seq` of its elements, in
/// order, whichever way it is stored.
pub enum Sequence<T> {
    ArraySequence { values: Rc<Vec<T>> },
    ConcatSequence { node: ConcatNode<T> },
}

impl<T> ConcatNode<T> {
    /// The elements of the left half followed by those of the right half.
    pub closed spec fn elements(&self) -> Seq<T>
        decreases self,
    {
        self.left.elements() + self.right.elements()
    }

    #[verifier::type_invariant]
    spec fn well_formed(&self) -> bool {
        &&& self.length == self.left.elements().len() + self.right.elements().len()
        &&& self.boxed.predicate() == Flattened { elements: self.elements() }
    }
}

impl<T> Sequence<T> {
    /// The elements, in order.
    pub open spec fn elements(&self) -> Seq<T>
        decreases self,
    {
        match self {
            Sequence::ArraySequence { values } => values@,
            Sequence::ConcatSequence { node } => node.elements(),
        }
    }
}

impl<T> View for Sequence<T> {
    type V = Seq<T>;

    open spec fn view(&self) -> Seq<T> {
        self.elements()
    }
}

impl<T> Clone for ConcatNode<T> {
    fn clone(&self) -> (r: Self)
        ensures
            r == *self,
    {
        proof {
            use_type_invariant(self);
        }
        ConcatNode {
            left: Rc::clone(&self.left),
            right: Rc::clone(&self.right),
            length: self.length,
            boxed: Rc::clone(&self.boxed),
        }
    }
}

impl<T> Clone for Sequence<T> {
    /// A second handle on the same storage.
    fn clone(&self) -> (r: Self)
        ensures
            r == *self,
    {
        match self {
            Sequence::ArraySequence { values } => Sequence::ArraySequence {
                values: Rc::clone(values),
            },
            Sequence::ConcatSequence { node } => Sequence::ConcatSequence { node: node.clone() },
        }
    }
}

impl<T: DafnyType> Sequence<T> {
    /// A sequence with a copy of the elements of `values`.
    pub fn from_array(values: &Vec<T>) -> (r: Sequence<T>)
        requires
            obeys_clone_model::<T>(),
        ensures
            r@ == values@,
    {
        let copy = clone_range(values, 0, values.len());
        Sequence::ArraySequence { values: Rc::new(copy) }
    }

    /// A sequence with the elements of `values`, which it takes over.
    pub fn from_array_owned(values: Vec<T>) -> (r: Sequence<T>)
        ensures
            r@ == values@,
    {
        Sequence::ArraySequence { values: Rc::new(values) }
    }

    /// The concatenation of `left` and `right`, built without copying either.
    pub fn new_concat_sequence(left: &Sequence<T>, right: &Sequence<T>) -> (r: Sequence<T>)
        requires
            left@.len() + right@.len() <= usize::MAX,
        ensures
            r@ == left@ + right@,
    {
        let ghost elements = left@ + right@;
        let length = left.cardinality_usize() + right.cardinality_usize();
        let boxed = Rc::new(InvCell::new(None, Ghost(Flattened { elements })));
        Sequence::ConcatSequence {
            node: ConcatNode {
                left: Rc::new(left.settled()),
                right: Rc::new(right.settled()),
                length,
                boxed,
            },
        }
    }

    /// This sequence as it is best kept by another: its flattened array
    /// where it has one, so that its two halves need not be kept for the
    /// keeper's sake, and itself where it has none.
    fn settled(&self) -> (r: Sequence<T>)
        ensures
            r@ == self@,
    {
        match self {
            Sequence::ArraySequence { values } => Sequence::ArraySequence {
                values: Rc::clone(values),
            },
            Sequence::ConcatSequence { node } => {
                proof {
                    use_type_invariant(node);
                }
                let slot = node.boxed.replace(None);
                match slot {
                    Some(cache) => {
                        let r = Sequence::ArraySequence { values: Rc::clone(&cache) };
                        let _ = node.boxed.replace(Some(cache));
                        r
                    },
                    None => Sequence::ConcatSequence { node: node.clone() },
                }
            },
        }
    }

    /// The number of elements.
    pub fn cardinality_usize(&self) -> (r: usize)
        ensures
            r == self@.len(),
    {
        match self {
            Sequence::ArraySequence { values } => values.len(),
            Sequence::ConcatSequence { node } => {
                proof {
                    use_type_invariant(node);
                }
                node.length
            },
        }
    }
}

impl<T: DafnyType> Sequence<T> {
    /// Pushes a clone of every element of `source` onto `array`.
    fn extend_from(array: &mut Vec<T>, source: &Vec<T>)
        requires
            obeys_clone_model::<T>(),
        ensures
            final(array)@ == old(array)@ + source@,
    {
        let ghost before = array@;
        let mut i: usize = 0;
        while i < source.len()
            invariant
                obeys_clone_model::<T>(),
                i <= source@.len(),
                array@ == before + source@.take(i as int),
            decreases source@.len() - i,
        {
            array.push(clone_of(&source[i]));
            i += 1;
        }
    }

    /// Pushes a clone of every element of `this` onto `array`, reading a
    /// concatenation from its memo slot where that is filled and from its
    /// two halves where it is not.
    fn append_into(array: &mut Vec<T>, this: &Sequence<T>)
        requires
            obeys_clone_model::<T>(),
        ensures
            final(array)@ == old(array)@ + this@,
        decreases this,
    {
        match this {
            Sequence::ArraySequence { values } => {
                Self::extend_from(array, values);
            },
            Sequence::ConcatSequence { node } => {
                proof {
                    use_type_invariant(node);
                }
                let slot = node.boxed.replace(None);
                match slot {
                    Some(values) => {
                        Self::extend_from(array, &values);
                        let _ = node.boxed.replace(Some(values));
                    },
                    None => {
                        Self::append_into(array, &node.left);
                        Self::append_into(array, &node.right);
                    },
                }
            },
        }
    }

    /// The elements as one array. A concatenation is flattened on the first
    /// call and answers from its memo slot on every later one.
    fn flatten(&self) -> (r: Rc<Vec<T>>)
        requires
            obeys_clone_model::<T>(),
        ensures
            r@ == self@,
    {
        match self {
            Sequence::ArraySequence { values } => Rc::clone(values),
            Sequence::ConcatSequence { node } => {
                proof {
                    use_type_invariant(node);
                }
                let slot = node.boxed.replace(None);
                match slot {
                    Some(cache) => {
                        let result = Rc::clone(&cache);
                        let _ = node.boxed.replace(Some(cache));
                        result
                    },
                    None => {
                        let mut array: Vec<T> = Vec::with_capacity(node.length);
                        Self::append_into(&mut array, self);
                        let result = Rc::new(array);
                        let _ = node.boxed.replace(Some(Rc::clone(&result)));
                        result
                    },
                }
            },
        }
    }

    /// The elements as one shared array.
    pub fn to_array(&self) -> (r: Rc<Vec<T>>)
        requires
            obeys_clone_model::<T>(),
        ensures
            r@ == self@,
    {
        self.flatten()
    }

    /// Pushes the elements of `this`, in order, onto `array`.
    pub fn append_recursive(array: &mut Vec<T>, this: &Sequence<T>)
        requires
            obeys_clone_model::<T>(),
        ensures
            final(array)@ == old(array)@ + this@,
    {
        Self::append_into(array, this);
    }

    /// The number of elements, as an unbounded integer.
    pub fn cardinality(&self) -> (r: DafnyInt)
        ensures
            r@ == self@.len(),
    {
        DafnyInt::from_usize(self.cardinality_usize())
    }

    /// The element at `index`.
    pub fn get_usize(&self, index: usize) -> (r: T)
        requires
            obeys_clone_model::<T>(),
            index < self@.len(),
        ensures
            r == self@[index as int],
    {
        let array = self.flatten();
        clone_of(&array[index])
    }

    /// The element at `index`.
    pub fn get(&self, index: &DafnyInt) -> (r: T)
        requires
            obeys_clone_model::<T>(),
            0 <= index@ < self@.len(),
        ensures
            r == self@[index@],
    {
        let length = self.cardinality_usize();
        self.get_usize(index.as_usize())
    }

    /// A sequence with the elements of `values` from `start` up to `end`.
    pub fn from_array_slice(values: &Vec<T>, start: &DafnyInt, end: &DafnyInt) -> (r: Sequence<T>)
        requires
            obeys_clone_model::<T>(),
            0 <= start@ <= end@ <= values@.len(),
        ensures
            r@ == values@.subrange(start@, end@),
    {
        let length = values.len();
        Sequence::ArraySequence {
            values: Rc::new(clone_range(values, start.as_usize(), end.as_usize())),
        }
    }

    /// A sequence with the first `n` elements of `values`.
    pub fn from_array_take(values: &Vec<T>, n: &DafnyInt) -> (r: Sequence<T>)
        requires
            obeys_clone_model::<T>(),
            0 <= n@ <= values@.len(),
        ensures
            r@ == values@.take(n@),
    {
        let length = values.len();
        Sequence::ArraySequence { values: Rc::new(clone_range(values, 0, n.as_usize())) }
    }

    /// A sequence with the elements of `values` but the first `n`.
    pub fn from_array_drop(values: &Vec<T>, n: &DafnyInt) -> (r: Sequence<T>)
        requires
            obeys_clone_model::<T>(),
            0 <= n@ <= values@.len(),
        ensures
            r@ == values@.skip(n@),
    {
        let length = values.len();
        Sequence::ArraySequence { values: Rc::new(clone_range(values, n.as_usize(), length)) }
    }

    /// The elements from `start` up to `end`, as a sequence of its own.
    pub fn slice(&self, start: &DafnyInt, end: &DafnyInt) -> (r: Sequence<T>)
        requires
            obeys_clone_model::<T>(),
            0 <= start@ <= end@ <= self@.len(),
        ensures
            r@ == self@.subrange(start@, end@),
    {
        let array = self.flatten();
        let length = array.len();
        Sequence::from_array_owned(clone_range(&array, start.as_usize(), end.as_usize()))
    }

    /// The first `end` elements, as a sequence of its own.
    pub fn take(&self, end: &DafnyInt) -> (r: Sequence<T>)
        requires
            obeys_clone_model::<T>(),
            0 <= end@ <= self@.len(),
        ensures
            r@ == self@.take(end@),
    {
        let array = self.flatten();
        let length = array.len();
        Sequence::from_array_owned(clone_range(&array, 0, end.as_usize()))
    }

    /// The elements but the first `start`, as a sequence of its own.
    pub fn drop(&self, start: &DafnyInt) -> (r: Sequence<T>)
        requires
            obeys_clone_model::<T>(),
            0 <= start@ <= self@.len(),
        ensures
            r@ == self@.skip(start@),
    {
        let array = self.flatten();
        let length = array.len();
        Sequence::from_array_owned(clone_range(&array, start.as_usize(), length))
    }

    /// A new sequence that holds `value` at `index` and agrees with this one
    /// everywhere else. This sequence is left as it was.
    pub fn update_index(&self, index: &DafnyInt, value: &T) -> (r: Sequence<T>)
        requires
            obeys_clone_model::<T>(),
            0 <= index@ < self@.len(),
        ensures
            r@ == self@.update(index@, *value),
    {
        let array = self.flatten();
        let length = array.len();
        let mut result = clone_range(&array, 0, length);
        result.set(index.as_usize(), clone_of(value));
        Sequence::from_array_owned(result)
    }

    /// This sequence followed by `other`, built without copying either.
    pub fn concat(&self, other: &Sequence<T>) -> (r: Sequence<T>)
        requires
            self@.len() + other@.len() <= usize::MAX,
        ensures
            r@ == self@ + other@,
    {
        Sequence::new_concat_sequence(self, other)
    }
}

/// `a + b` is the concatenation of `a` and `b`; their lengths together must
/// fit a `usize`.
impl<'a, 'b, T: DafnyType> Add<&'b Sequence<T>> for &'a Sequence<T> {
    type Output = Sequence<T>;

    fn add(self, rhs: &'b Sequence<T>) -> (r: Sequence<T>)
        ensures
            r@ == self@ + rhs@,
    {
        Sequence::new_concat_sequence(self, rhs)
    }
}

impl<'a, 'b, T: DafnyType> AddSpecImpl<&'b Sequence<T>> for &'a Sequence<T> {
    open spec fn obeys_add_spec() -> bool {
        false
    }

    open spec fn add_req(self, rhs: &'b Sequence<T>) -> bool {
        self@.len() + rhs@.len() <= usize::MAX
    }

    open spec fn add_spec(self, rhs: &'b Sequence<T>) -> Sequence<T> {
        arbitrary()
    }
}

impl<T: DafnyType> Default for Sequence<T> {
    fn default() -> (r: Sequence<T>)
        ensures
            r@ == Seq::<T>::empty(),
    {
        Sequence::from_array_owned(Vec::new())
    }
}

/// Walks the elements of a sequence from the first to the last.
pub struct SequenceIter<T> {
    array: Rc<Vec<T>>,
    index: usize,
}

impl<T> SequenceIter<T> {
    #[verifier::type_invariant]
    spec fn well_formed(&self) -> bool {
        self.index <= self.array@.len()
    }

    /// The elements still to come, in order.
    pub closed spec fn rest(&self) -> Seq<T> {
        self.array@.skip(self.index as int)
    }
}

impl<T: Clone> Iterator for SequenceIter<T> {
    type Item = T;

    fn next(&mut self) -> (r: Option<T>)
    {
        proof {
            use_type_invariant(&*self);
        }
        if self.index < self.array.len() {
            let result = clone_of(&self.array[self.index]);
            self.index += 1;
            Some(result)
        } else {
            None
        }
    }
}

impl<T: Clone> IteratorSpecImpl for SequenceIter<T> {
    open spec fn obeys_prophetic_iter_laws(&self) -> bool {
        obeys_clone_model::<T>()
    }

    open spec fn remaining(&self) -> Seq<T> {
        self.rest()
    }

    open spec fn will_return_none(&self) -> bool {
        true
    }

    open spec fn decrease(&self) -> Option<nat> {
        Some(self.rest().len())
    }

    open spec fn initial_value_relation(&self, init: &Self) -> bool {
        init.rest() == self.rest()
    }

    open spec fn peek(&self, index: int) -> Option<T> {
        if 0 <= index < self.rest().len() {
            Some(self.rest()[index])
        } else {
            None
        }
    }
}

impl<T: DafnyType> Sequence<T> {
    /// An iterator over the elements, from the first to the last.
    pub fn iter(&self) -> (r: SequenceIter<T>)
        requires
            obeys_clone_model::<T>(),
        ensures
            r.rest() == self@,
    {
        let array = self.flatten();
        SequenceIter { array, index: 0 }
    }
}

/// The elements of the arrays of `leaves`, in a row.
pub open spec fn joined<T>(leaves: Seq<Rc<Vec<T>>>) -> Seq<T>
    decreases leaves.len(),
{
    if leaves.len() == 0 {
        Seq::empty()
    } else {
        joined(leaves.drop_last()) + leaves.last()@
    }
}

/// One more leaf adds its elements at the end.
proof fn lemma_joined_push<T>(leaves: Seq<Rc<Vec<T>>>, leaf: Rc<Vec<T>>)
    ensures
        joined(leaves.push(leaf)) == joined(leaves) + leaf@,
{
    assert(leaves.push(leaf).drop_last() =~= leaves);
}

/// What the references of `refs` point to.
pub open spec fn targets<T>(refs: Seq<&T>) -> Seq<T> {
    refs.unref()
}

impl<T> Sequence<T> {
    /// Pushes onto `leaves` the arrays that hold the elements of `this`,
    /// from left to right: for a concatenation its memo where that is
    /// filled, and the arrays of its two halves where it is not. No element
    /// is copied.
    fn collect_leaves(this: &Sequence<T>, leaves: &mut Vec<Rc<Vec<T>>>)
        ensures
            joined(final(leaves)@) == joined(old(leaves)@) + this@,
        decreases this,
    {
        match this {
            Sequence::ArraySequence { values } => {
                proof {
                    lemma_joined_push(leaves@, *values);
                }
                leaves.push(Rc::clone(values));
            },
            Sequence::ConcatSequence { node } => {
                proof {
                    use_type_invariant(node);
                }
                let slot = node.boxed.replace(None);
                match slot {
                    Some(cache) => {
                        proof {
                            lemma_joined_push(leaves@, cache);
                        }
                        leaves.push(Rc::clone(&cache));
                        let _ = node.boxed.replace(Some(cache));
                    },
                    None => {
                        Self::collect_leaves(&node.left, leaves);
                        Self::collect_leaves(&node.right, leaves);
                    },
                }
            },
        }
    }

    /// A reference to each element held by `leaves`, in order.
    fn element_refs<'a>(leaves: &'a Vec<Rc<Vec<T>>>) -> (r: Vec<&'a T>)
        ensures
            targets(r@) == joined(leaves@),
    {
        let mut refs: Vec<&'a T> = Vec::new();
        let mut k: usize = 0;
        while k < leaves.len()
            invariant
                k <= leaves@.len(),
                targets(refs@) == joined(leaves@.take(k as int)),
            decreases leaves@.len() - k,
        {
            let leaf: &'a Vec<T> = &leaves[k];
            let ghost before = refs@;
            let mut j: usize = 0;
            while j < leaf.len()
                invariant
                    j <= leaf@.len(),
                    targets(refs@) == targets(before) + leaf@.take(j as int),
                decreases leaf@.len() - j,
            {
                let ghost earlier = refs@;
                refs.push(&leaf[j]);
                proof {
                    assert(targets(refs@) =~= targets(earlier).push(leaf@[j as int]));
                }
                j += 1;
            }
            proof {
                assert(leaves@.take(k + 1) =~= leaves@.take(k as int).push(leaves@[k as int]));
                lemma_joined_push(leaves@.take(k as int), leaves@[k as int]);
            }
            k += 1;
        }
        proof {
            assert(leaves@.take(leaves@.len() as int) =~= leaves@);
        }
        refs
    }
}

/// Whether `text` is the text of a sequence of `elements`, each printed by
/// `print`: the printed elements in a row where `bare` is set, and a list
/// of them in square brackets where it is not.
pub open spec fn prints_as_sequence<T, F: Fn(&T) -> String>(
    print: F,
    elements: Seq<T>,
    bare: bool,
    text: Seq<char>,
) -> bool {
    exists|parts: Seq<String>| #[trigger]
        converts_each(print, elements, parts) && text == sequence_text(texts_of(parts), bare)
}

impl<T> Sequence<T> {
    /// The text of this sequence, with each element printed by `print`. A
    /// sequence of characters is printed `bare`, as the text it spells.
    pub fn to_text<F: Fn(&T) -> String>(&self, bare: bool, print: F) -> (r: String)
        requires
            accepts_each(print, self@),
        ensures
            prints_as_sequence(print, self@, bare, r@),
    {
        let mut leaves: Vec<Rc<Vec<T>>> = Vec::new();
        Self::collect_leaves(self, &mut leaves);
        let refs = Self::element_refs(&leaves);
        let mut parts: Vec<String> = Vec::new();
        let mut i: usize = 0;
        while i < refs.len()
            invariant
                i <= refs@.len(),
                targets(refs@) == self@,
                accepts_each(print, self@),
                converts_each(print, self@.take(i as int), parts@),
            decreases refs@.len() - i,
        {
            proof {
                assert(targets(refs@)[i as int] == *refs@[i as int]);
            }
            parts.push(print(refs[i]));
            i += 1;
        }
        let mut out = String::new();
        if !bare {
            push_char(&mut out, '[');
        }
        push_joined(&mut out, &parts, !bare);
        if !bare {
            push_char(&mut out, ']');
        }
        proof {
            assert(self@.take(self@.len() as int) =~= self@);
            assert(out@ =~= sequence_text(texts_of(parts@), bare));
        }
        out
    }
}

/// Whether `a` and `b` agree, by `==` on their elements, at every index
/// below `n`.
pub open spec fn agree_below<T: PartialEq>(a: Seq<T>, b: Seq<T>, n: nat) -> bool {
    forall|i: int| 0 <= i < n ==> (#[trigger] a[i]).eq_spec(&b[i])
}

impl<T: DafnyType + PartialEq> Sequence<T> {
    /// Whether the first `n` elements of `a` and `b` are equal, one by one.
    fn same_prefix(a: &Vec<&T>, b: &Vec<&T>, n: usize) -> (r: bool)
        requires
            n <= a@.len(),
            n <= b@.len(),
        ensures
            T::obeys_eq_spec() ==> r == agree_below(targets(a@), targets(b@), n as nat),
    {
        let mut i: usize = 0;
        while i < n
            invariant
                i <= n <= a@.len(),
                n <= b@.len(),
                T::obeys_eq_spec() ==> agree_below(targets(a@), targets(b@), i as nat),
            decreases n - i,
        {
            if !(*a[i] == *b[i]) {
                proof {
                    assert(targets(a@)[i as int] == *a@[i as int]);
                }
                return false;
            }
            i += 1;
        }
        true
    }

    /// Whether some element equals `value`.
    pub fn contains(&self, value: &T) -> (r: bool)
        requires
            T::obeys_eq_spec(),
        ensures
            r == exists|i: int| 0 <= i < self@.len() && (#[trigger] self@[i]).eq_spec(value),
    {
        let mut leaves: Vec<Rc<Vec<T>>> = Vec::new();
        Self::collect_leaves(self, &mut leaves);
        let refs = Self::element_refs(&leaves);
        let mut i: usize = 0;
        while i < refs.len()
            invariant
                i <= refs@.len(),
                targets(refs@) == self@,
                T::obeys_eq_spec(),
                forall|j: int| 0 <= j < i ==> !(#[trigger] self@[j]).eq_spec(value),
            decreases refs@.len() - i,
        {
            proof {
                assert(targets(refs@)[i as int] == *refs@[i as int]);
            }
            if *refs[i] == *value {
                return true;
            }
            i += 1;
        }
        false
    }
}

impl<T: DafnyType + PartialEq> PartialEq for Sequence<T> {
    /// Two sequences are equal where they hold equal elements in the same
    /// order, however each is stored.
    fn eq(&self, other: &Sequence<T>) -> (r: bool) {
        if self.cardinality_usize() != other.cardinality_usize() {
            return false;
        }
        let mut ours: Vec<Rc<Vec<T>>> = Vec::new();
        Sequence::collect_leaves(self, &mut ours);
        let mut theirs: Vec<Rc<Vec<T>>> = Vec::new();
        Sequence::collect_leaves(other, &mut theirs);
        let a = Sequence::element_refs(&ours);
        let b = Sequence::element_refs(&theirs);
        Sequence::same_prefix(&a, &b, a.len())
    }
}

impl<T: DafnyType + PartialEq> PartialEqSpecImpl for Sequence<T> {
    open spec fn obeys_eq_spec() -> bool {
        T::obeys_eq_spec()
    }

    open spec fn eq_spec(&self, other: &Sequence<T>) -> bool {
        self@.len() == other@.len() && agree_below(self@, other@, self@.len())
    }
}

impl<T: DafnyType + Eq> Eq for Sequence<T> {}

impl<T: DafnyType + PartialEq> PartialOrd for Sequence<T> {
    /// The prefix order: a sequence is less than every proper extension of
    /// itself, and two sequences of which neither extends the other do not
    /// compare.
    fn partial_cmp(&self, other: &Sequence<T>) -> (r: Option<Ordering>) {
        let mut ours: Vec<Rc<Vec<T>>> = Vec::new();
        Sequence::collect_leaves(self, &mut ours);
        let mut theirs: Vec<Rc<Vec<T>>> = Vec::new();
        Sequence::collect_leaves(other, &mut theirs);
        let a = Sequence::element_refs(&ours);
        let b = Sequence::element_refs(&theirs);
        if a.len() == b.len() {
            if Sequence::same_prefix(&a, &b, a.len()) {
                Some(Ordering::Equal)
            } else {
                None
            }
        } else if a.len() < b.len() {
            if Sequence::same_prefix(&a, &b, a.len()) {
                Some(Ordering::Less)
            } else {
                None
            }
        } else {
            if Sequence::same_prefix(&a, &b, b.len()) {
                Some(Ordering::Greater)
            } else {
                None
            }
        }
    }
}

impl<T: DafnyType + PartialEq> PartialOrdSpecImpl for Sequence<T> {
    open spec fn obeys_partial_cmp_spec() -> bool {
        T::obeys_eq_spec()
    }

    open spec fn partial_cmp_spec(&self, other: &Sequence<T>) -> Option<Ordering> {
        if self@.len() == other@.len() {
            if agree_below(self@, other@, self@.len()) {
                Some(Ordering::Equal)
            } else {
                None
            }
        } else if self@.len() < other@.len() {
            if agree_below(self@, other@, self@.len()) {
                Some(Ordering::Less)
            } else {
                None
            }
        } else {
            if agree_below(self@, other@, other@.len()) {
                Some(Ordering::Greater)
            } else {
                None
            }
        }
    }
}

impl<T: DafnyType + Hash> Hash for Sequence<T> {
    /// Hashes the length, then every element in order, so that equal
    /// sequences hash alike however they are stored.
    fn hash<H: Hasher>(&self, state: &mut H) {
        let mut leaves: Vec<Rc<Vec<T>>> = Vec::new();
        Sequence::collect_leaves(self, &mut leaves);
        let refs = Sequence::element_refs(&leaves);
        let length = refs.len();
        feed(&length, state);
        let mut i: usize = 0;
        while i < length
            invariant
                length == refs@.len(),
            decreases length - i,
        {
            feed(refs[i], state);
            i += 1;
        }
    }
}

impl<T: DafnyTypeEq> Sequence<T> {
    /// The multiset of the elements.
    pub fn as_dafny_multiset(&self) -> (r: DafnyMultiset<T>)
        requires
            vstd::std_specs::hash::obeys_key_model::<T>(),
            obeys_clone_model::<T>(),
        ensures
            r@ == self@.to_multiset(),
    {
        let array = self.to_array();
        DafnyMultiset::from_array(&array)
    }
}

/// Whether `to` holds, at each index, the element of `from` at that index
/// seen as a `V`.
pub open spec fn upcast_each<U: UpcastTo<V>, V>(from: Seq<U>, to: Seq<V>) -> bool {
    &&& to.len() == from.len()
    &&& forall|i: int| 0 <= i < from.len() ==> (#[trigger] from[i]).upcasts_to(&to[i])
}

impl<V, U> UpcastTo<Sequence<V>> for Sequence<U> where V: DafnyTypeEq, U: DafnyTypeEq + UpcastTo<V> {
    /// A sequence is seen as one of the wider type, of the same length and
    /// in the same order.
    open spec fn upcasts_to(&self, to: &Sequence<V>) -> bool {
        &&& to@.len() == self@.len()
        &&& obeys_clone_model::<U>() ==> upcast_each(self@, to@)
    }

    fn upcast_to(self) -> (r: Sequence<V>) {
        let mut leaves: Vec<Rc<Vec<U>>> = Vec::new();
        Sequence::collect_leaves(&self, &mut leaves);
        let refs = Sequence::element_refs(&leaves);
        let mut new_seq: Vec<V> = Vec::new();
        let mut i: usize = 0;
        while i < refs.len()
            invariant
                targets(refs@) == self@,
                i <= refs@.len(),
                new_seq@.len() == i,
                obeys_clone_model::<U>() ==> upcast_each(self@.take(i as int), new_seq@),
            decreases refs@.len() - i,
        {
            new_seq.push(clone_of(refs[i]).upcast_to());
            i += 1;
        }
        proof {
            assert(self@.take(self@.len() as int) =~= self@);
        }
        Sequence::from_array_owned(new_seq)
    }
}

impl<T: DafnyType> NontrivialDefault for Sequence<T> {
    fn nontrivial_default() -> (r: Sequence<T>)
        ensures
            r@ == Seq::<T>::empty(),
    {
        Sequence::from_array_owned(Vec::new())
    }
}

} // verus!
