use dafny_runtime::DafnyChar;
use dafny_runtime::DafnyInt;
use dafny_runtime::NontrivialDefault;
use dafny_runtime::Sequence;
use std::cmp::Ordering;
use std::collections::hash_map::DefaultHasher;
use std::hash::Hash;
use std::hash::Hasher;
use std::rc::Rc;

fn seq_of(values: &[i32]) -> Sequence<i32> {
    Sequence::from_array_owned(values.to_vec())
}

fn at(n: usize) -> DafnyInt {
    DafnyInt::from_usize(n)
}

fn hash_of<T: Hash>(value: &T) -> u64 {
    let mut hasher = DefaultHasher::new();
    value.hash(&mut hasher);
    hasher.finish()
}

#[test]
fn concat_adds_cardinalities() {
    let a = seq_of(&[1, 2, 3]);
    let b = seq_of(&[4, 5]);
    let c = a.concat(&b);
    assert_eq!(c.cardinality_usize(), a.cardinality_usize() + b.cardinality_usize());
    assert_eq!(c.cardinality_usize(), 5);
    assert_eq!(c.cardinality().to_usize(), Some(5));
}

#[test]
fn flatten_after_concat_is_concat_of_flattened() {
    let a = seq_of(&[1, 2, 3]);
    let b = seq_of(&[4, 5]);
    let c = a.concat(&b);
    assert_eq!(c.cardinality_usize(), 5);
    let mut expected = a.to_array().as_ref().clone();
    expected.extend(b.to_array().iter().cloned());
    assert_eq!(*c.to_array(), expected);
    assert_eq!(*c.to_array(), vec![1, 2, 3, 4, 5]);
    assert_eq!(c.cardinality_usize(), 5);
}

#[test]
fn concat_of_concats_keeps_the_order() {
    let a = seq_of(&[1]);
    let b = seq_of(&[2, 3]);
    let c = seq_of(&[]);
    let d = seq_of(&[4]);
    let left = a.concat(&b);
    let right = c.concat(&d);
    let all = left.concat(&right);
    assert_eq!(all.cardinality_usize(), 4);
    assert_eq!(*all.to_array(), vec![1, 2, 3, 4]);
    assert_eq!(*left.to_array(), vec![1, 2, 3]);
    assert_eq!(*right.to_array(), vec![4]);
}

#[test]
fn a_half_that_was_flattened_first_is_read_from_its_memo() {
    let left = seq_of(&[1, 2]).concat(&seq_of(&[3]));
    assert_eq!(*left.to_array(), vec![1, 2, 3]);
    let all = left.concat(&seq_of(&[4]));
    assert_eq!(*all.to_array(), vec![1, 2, 3, 4]);
}

#[test]
fn flattening_twice_gives_the_same_array() {
    let c = seq_of(&[1, 2]).concat(&seq_of(&[3]));
    let first = c.to_array();
    let second = c.to_array();
    assert_eq!(*first, *second);
    assert!(Rc::ptr_eq(&first, &second));
}

#[test]
fn a_clone_of_a_concatenation_shares_the_memo() {
    let c = seq_of(&[1, 2]).concat(&seq_of(&[3]));
    let d = c.clone();
    let first = c.to_array();
    let second = d.to_array();
    assert!(Rc::ptr_eq(&first, &second));
}

#[test]
fn an_array_sequence_hands_out_its_own_array() {
    let a = seq_of(&[1, 2]);
    assert!(Rc::ptr_eq(&a.to_array(), &a.to_array()));
}

#[test]
fn concat_with_the_empty_sequence() {
    let a = seq_of(&[1, 2]);
    let e = seq_of(&[]);
    assert_eq!(*a.concat(&e).to_array(), vec![1, 2]);
    assert_eq!(*e.concat(&a).to_array(), vec![1, 2]);
    assert_eq!(e.concat(&e).cardinality_usize(), 0);
    assert_eq!(*e.concat(&e).to_array(), Vec::<i32>::new());
}

#[test]
fn new_concat_sequence_is_concat() {
    let a = seq_of(&[7]);
    let b = seq_of(&[8, 9]);
    let c = Sequence::new_concat_sequence(&a, &b);
    assert_eq!(c.cardinality_usize(), 3);
    assert_eq!(*c.to_array(), vec![7, 8, 9]);
}

#[test]
fn from_array_copies() {
    let mut source = vec![1, 2, 3];
    let s = Sequence::from_array(&source);
    source[0] = 100;
    assert_eq!(*s.to_array(), vec![1, 2, 3]);
}

#[test]
fn from_array_slice_take_and_drop() {
    let source = vec![10, 20, 30, 40, 50];
    assert_eq!(*Sequence::from_array_slice(&source, &at(1), &at(4)).to_array(), vec![20, 30, 40]);
    assert_eq!(*Sequence::from_array_slice(&source, &at(2), &at(2)).to_array(), Vec::<i32>::new());
    assert_eq!(*Sequence::from_array_take(&source, &at(2)).to_array(), vec![10, 20]);
    assert_eq!(*Sequence::from_array_take(&source, &at(0)).to_array(), Vec::<i32>::new());
    assert_eq!(*Sequence::from_array_drop(&source, &at(2)).to_array(), vec![30, 40, 50]);
    assert_eq!(*Sequence::from_array_drop(&source, &at(5)).to_array(), Vec::<i32>::new());
}

#[test]
fn slice_take_and_drop_of_a_concatenation() {
    let s = seq_of(&[10, 20]).concat(&seq_of(&[30, 40, 50]));
    assert_eq!(*s.slice(&at(1), &at(4)).to_array(), vec![20, 30, 40]);
    assert_eq!(*s.slice(&at(0), &at(5)).to_array(), vec![10, 20, 30, 40, 50]);
    assert_eq!(*s.slice(&at(3), &at(3)).to_array(), Vec::<i32>::new());
    assert_eq!(*s.take(&at(3)).to_array(), vec![10, 20, 30]);
    assert_eq!(*s.drop(&at(3)).to_array(), vec![40, 50]);
}

#[test]
fn get_reads_one_element() {
    let s = seq_of(&[10, 20]).concat(&seq_of(&[30]));
    assert_eq!(s.get_usize(0), 10);
    assert_eq!(s.get_usize(2), 30);
    assert_eq!(s.get(&at(1)), 20);
}

#[test]
fn update_index_leaves_its_sequence_alone() {
    let s = seq_of(&[1, 2, 3]);
    let t = s.update_index(&at(1), &20);
    assert_eq!(*t.to_array(), vec![1, 20, 3]);
    assert_eq!(*s.to_array(), vec![1, 2, 3]);
    let c = seq_of(&[1]).concat(&seq_of(&[2]));
    let d = c.update_index(&at(0), &9);
    assert_eq!(*d.to_array(), vec![9, 2]);
    assert_eq!(*c.to_array(), vec![1, 2]);
}

#[test]
fn iter_walks_in_order() {
    let s = seq_of(&[1, 2]).concat(&seq_of(&[3]));
    let walked: Vec<i32> = s.iter().collect();
    assert_eq!(walked, vec![1, 2, 3]);
    let mut it = seq_of(&[]).iter();
    assert_eq!(it.next(), None);
    assert_eq!(it.next(), None);
}

#[test]
fn contains_looks_for_an_equal_element() {
    let s = seq_of(&[1, 2]).concat(&seq_of(&[3]));
    assert!(s.contains(&3));
    assert!(s.contains(&1));
    assert!(!s.contains(&4));
    assert!(!seq_of(&[]).contains(&1));
}

#[test]
fn equality_does_not_see_how_a_sequence_is_stored() {
    let flat = seq_of(&[1, 2, 3]);
    let lazy = seq_of(&[1]).concat(&seq_of(&[2, 3]));
    let other = seq_of(&[1, 2]).concat(&seq_of(&[3]));
    assert!(flat == lazy);
    assert!(lazy == other);
    assert!(flat != seq_of(&[1, 2, 4]));
    assert!(flat != seq_of(&[1, 2]));
    assert!(seq_of(&[]) == seq_of(&[]).concat(&seq_of(&[])));
}

#[test]
fn equal_sequences_hash_alike() {
    let flat = seq_of(&[1, 2, 3]);
    let lazy = seq_of(&[1]).concat(&seq_of(&[2, 3]));
    assert_eq!(hash_of(&flat), hash_of(&lazy));
}

#[test]
fn the_order_is_the_prefix_order() {
    let short = seq_of(&[1, 2]);
    let long = seq_of(&[1, 2, 3]);
    let other = seq_of(&[1, 3]);
    assert_eq!(short.partial_cmp(&long), Some(Ordering::Less));
    assert_eq!(long.partial_cmp(&short), Some(Ordering::Greater));
    assert_eq!(short.partial_cmp(&seq_of(&[1, 2])), Some(Ordering::Equal));
    assert_eq!(short.partial_cmp(&other), None);
    assert_eq!(other.partial_cmp(&long), None);
    assert_eq!(long.partial_cmp(&other), None);
    assert_eq!(seq_of(&[]).partial_cmp(&short), Some(Ordering::Less));
    assert!(short < long);
    assert!(!(other < long));
    assert!(!(other > long));
}

#[test]
fn the_default_sequence_is_empty() {
    let s: Sequence<i32> = Sequence::default();
    assert_eq!(s.cardinality_usize(), 0);
    let t: Sequence<i32> = Sequence::nontrivial_default();
    assert_eq!(t.cardinality_usize(), 0);
}

#[test]
fn sequences_of_sequences() {
    let inner_flat = seq_of(&[1, 2]);
    let inner_lazy = seq_of(&[1]).concat(&seq_of(&[2]));
    let outer = Sequence::from_array_owned(vec![inner_flat.clone(), seq_of(&[3])]);
    assert!(outer.contains(&inner_lazy));
    assert!(outer.get_usize(0) == inner_lazy);
    assert!(!outer.contains(&seq_of(&[4])));
}

#[test]
fn sequences_of_characters() {
    let s = Sequence::from_array_owned(vec![DafnyChar('a'), DafnyChar('b')]);
    assert!(s.contains(&DafnyChar('b')));
    assert!(s.get_usize(0) == DafnyChar('a'));
}

#[test]
fn the_multiset_of_a_sequence_counts_each_element() {
    let s = seq_of(&[1, 2]).concat(&seq_of(&[1]));
    let m = s.as_dafny_multiset();
    assert_eq!(m.get(&1).to_usize(), Some(2));
    assert_eq!(m.get(&2).to_usize(), Some(1));
    assert_eq!(m.get(&3).to_usize(), Some(0));
    assert_eq!(m.cardinality().to_usize(), Some(3));
}

#[test]
fn append_recursive_pushes_every_element() {
    let s = seq_of(&[2]).concat(&seq_of(&[3, 4]));
    let mut array = vec![1];
    Sequence::append_recursive(&mut array, &s);
    assert_eq!(array, vec![1, 2, 3, 4]);
    let _ = s.to_array();
    Sequence::append_recursive(&mut array, &s);
    assert_eq!(array, vec![1, 2, 3, 4, 2, 3, 4]);
}

#[test]
fn a_sequence_that_grows_and_is_read_in_turn() {
    let mut s = seq_of(&[]);
    for i in 0..200 {
        s = s.concat(&seq_of(&[i]));
        assert_eq!(s.get_usize(i as usize), i);
        assert_eq!(s.cardinality_usize(), i as usize + 1);
    }
    let expected: Vec<i32> = (0..200).collect();
    assert_eq!(*s.to_array(), expected);
}

#[test]
fn a_sequence_that_grows_on_both_sides_before_it_is_read() {
    let mut s = seq_of(&[0]);
    for i in 1..100 {
        s = seq_of(&[-i]).concat(&s).concat(&seq_of(&[i]));
    }
    let expected: Vec<i32> = (-99..100).collect();
    assert_eq!(s.cardinality_usize(), 199);
    assert!(s == Sequence::from_array_owned(expected.clone()));
    assert_eq!(*s.to_array(), expected);
}

#[test]
fn a_flattened_concatenation_as_a_half_of_another() {
    let left = seq_of(&[1, 2]).concat(&seq_of(&[3]));
    let flat = left.to_array();
    let all = left.concat(&left);
    assert_eq!(*all.to_array(), vec![1, 2, 3, 1, 2, 3]);
    assert!(Rc::ptr_eq(&flat, &left.to_array()));
    let sum = &all + &left;
    assert_eq!(sum.cardinality_usize(), 9);
    assert_eq!(sum.get_usize(8), 3);
}

#[test]
fn equality_and_hash_do_not_flatten() {
    let lazy = seq_of(&[1]).concat(&seq_of(&[2, 3]));
    assert!(lazy == seq_of(&[1, 2, 3]));
    let _ = hash_of(&lazy);
    assert!(lazy.contains(&2));
    let first = lazy.to_array();
    assert_eq!(*first, vec![1, 2, 3]);
    assert!(lazy == seq_of(&[1, 2, 3]));
    assert_eq!(hash_of(&lazy), hash_of(&seq_of(&[1, 2, 3])));
}
