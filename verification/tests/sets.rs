use dafny_runtime::DafnySet;
use dafny_runtime::NontrivialDefault;
use dafny_runtime::Sequence;
use dafny_runtime::SetBuilder;
use std::cmp::Ordering;
use std::collections::HashSet;
use std::rc::Rc;

fn set_of(values: &[i32]) -> DafnySet<i32> {
    DafnySet::from_array(&values.to_vec())
}

fn sorted(set: &DafnySet<i32>) -> Vec<i32> {
    let mut values: Vec<i32> = set.iter().cloned().collect();
    values.sort();
    values
}

#[test]
fn sets_built_in_any_order_are_equal() {
    let mut up = SetBuilder::new();
    up.add(&1);
    up.add(&2);
    up.add(&3);
    let mut down = SetBuilder::new();
    down.add(&3);
    down.add(&2);
    down.add(&1);
    let a = up.build();
    let b = down.build();
    assert!(a == b);
    assert!(a.equals(&b));
    assert!(b.equals(&a));
    assert!(set_of(&[1, 2, 3]) == set_of(&[3, 2, 1]));
    assert!(set_of(&[2, 1, 3]).equals(&set_of(&[3, 1, 2])));
}

#[test]
fn sets_with_the_same_size_and_other_elements_differ() {
    assert!(set_of(&[1, 2, 3]) != set_of(&[1, 2, 4]));
    assert!(!set_of(&[1, 2, 3]).equals(&set_of(&[1, 2, 4])));
    assert!(!set_of(&[1, 2]).equals(&set_of(&[1, 2, 3])));
    assert!(set_of(&[]).equals(&set_of(&[])));
}

#[test]
fn an_element_counts_once() {
    let s = set_of(&[1, 1, 2, 2, 2]);
    assert_eq!(s.cardinality_usize(), 2);
    assert_eq!(s.cardinality().to_usize(), Some(2));
    assert_eq!(sorted(&s), vec![1, 2]);
}

#[test]
fn the_empty_set() {
    let e: DafnySet<i32> = DafnySet::new_empty();
    assert_eq!(e.cardinality_usize(), 0);
    assert!(!e.contains(&1));
    let d: DafnySet<i32> = DafnySet::default();
    assert!(d.equals(&e));
    let n: DafnySet<i32> = DafnySet::nontrivial_default();
    assert!(n.equals(&e));
}

#[test]
fn contains_tells_members_from_others() {
    let s = set_of(&[1, 2, 3]);
    assert!(s.contains(&2));
    assert!(!s.contains(&4));
}

#[test]
fn merge_is_the_union() {
    assert_eq!(sorted(&set_of(&[1, 2]).merge(&set_of(&[2, 3]))), vec![1, 2, 3]);
    assert_eq!(sorted(&set_of(&[]).merge(&set_of(&[2, 3]))), vec![2, 3]);
    assert_eq!(sorted(&set_of(&[1, 2]).merge(&set_of(&[]))), vec![1, 2]);
    assert_eq!(sorted(&set_of(&[]).merge(&set_of(&[]))), Vec::<i32>::new());
}

#[test]
fn intersect_is_the_intersection() {
    assert_eq!(sorted(&set_of(&[1, 2, 3]).intersect(&set_of(&[2, 3, 4]))), vec![2, 3]);
    assert_eq!(sorted(&set_of(&[1, 2]).intersect(&set_of(&[3, 4]))), Vec::<i32>::new());
    assert_eq!(sorted(&set_of(&[]).intersect(&set_of(&[3, 4]))), Vec::<i32>::new());
    assert_eq!(sorted(&set_of(&[1, 2]).intersect(&set_of(&[]))), Vec::<i32>::new());
}

#[test]
fn subtract_is_the_difference() {
    assert_eq!(sorted(&set_of(&[1, 2, 3]).subtract(&set_of(&[2, 4]))), vec![1, 3]);
    assert_eq!(sorted(&set_of(&[1, 2]).subtract(&set_of(&[1, 2]))), Vec::<i32>::new());
    assert_eq!(sorted(&set_of(&[]).subtract(&set_of(&[1]))), Vec::<i32>::new());
    assert_eq!(sorted(&set_of(&[1, 2]).subtract(&set_of(&[]))), vec![1, 2]);
}

#[test]
fn set_operations_leave_their_operands_alone() {
    let a = set_of(&[1, 2]);
    let b = set_of(&[2, 3]);
    let _ = a.merge(&b);
    let _ = a.intersect(&b);
    let _ = a.subtract(&b);
    assert_eq!(sorted(&a), vec![1, 2]);
    assert_eq!(sorted(&b), vec![2, 3]);
}

#[test]
fn disjoint_sets_share_nothing() {
    assert!(set_of(&[1, 2]).disjoint(&set_of(&[3, 4])));
    assert!(!set_of(&[1, 2]).disjoint(&set_of(&[2, 3])));
    assert!(!set_of(&[1, 2, 3]).disjoint(&set_of(&[3])));
    assert!(!set_of(&[3]).disjoint(&set_of(&[1, 2, 3])));
    assert!(set_of(&[]).disjoint(&set_of(&[1])));
    assert!(set_of(&[1]).disjoint(&set_of(&[])));
    assert!(set_of(&[]).disjoint(&set_of(&[])));
}

#[test]
fn the_order_is_inclusion() {
    let small = set_of(&[1, 2]);
    let large = set_of(&[1, 2, 3]);
    let other = set_of(&[4, 5]);
    let third = set_of(&[1, 4, 5, 6]);
    assert_eq!(small.partial_cmp(&large), Some(Ordering::Less));
    assert_eq!(large.partial_cmp(&small), Some(Ordering::Greater));
    assert_eq!(small.partial_cmp(&set_of(&[2, 1])), Some(Ordering::Equal));
    assert_eq!(small.partial_cmp(&other), None);
    assert_eq!(small.partial_cmp(&third), None);
    assert_eq!(third.partial_cmp(&small), None);
    assert_eq!(set_of(&[]).partial_cmp(&small), Some(Ordering::Less));
    assert!(small < large);
    assert!(small <= large);
    assert!(!(small < other));
}

#[test]
fn elements_is_the_set_itself() {
    let s = set_of(&[1, 2]);
    assert!(s.elements().equals(&s));
}

#[test]
fn peek_hands_out_a_member() {
    let s = set_of(&[5, 6, 7]);
    assert!(s.contains(&s.peek()));
    assert_eq!(set_of(&[9]).peek(), 9);
}

#[test]
fn iter_meets_every_element_once() {
    let s = set_of(&[3, 1, 2]);
    let mut met: Vec<i32> = s.iter().cloned().collect();
    met.sort();
    assert_eq!(met, vec![1, 2, 3]);
    assert_eq!(set_of(&[]).iter().count(), 0);
}

#[test]
fn a_set_from_an_iterator_a_sequence_or_a_hash_set() {
    let from_iter = DafnySet::from_iterator(vec![3, 1, 3].into_iter());
    assert_eq!(sorted(&from_iter), vec![1, 3]);
    let sequence = Rc::new(Sequence::from_array_owned(vec![1, 2]).concat(&Sequence::from_array_owned(vec![2, 5])));
    assert_eq!(sorted(&DafnySet::from_sequence(&sequence)), vec![1, 2, 5]);
    let mut hash_set = HashSet::new();
    hash_set.insert(4);
    hash_set.insert(8);
    let owned = DafnySet::from_hashset_owned(hash_set);
    assert_eq!(sorted(&owned), vec![4, 8]);
    assert_eq!(owned.as_hash_set().len(), 2);
}

#[test]
fn a_builder_gathers_each_element_once() {
    let mut builder = SetBuilder::new();
    builder.add(&1);
    builder.add(&1);
    builder.add(&2);
    let s = builder.build();
    assert_eq!(sorted(&s), vec![1, 2]);
    let empty: DafnySet<i32> = SetBuilder::new().build();
    assert_eq!(empty.cardinality_usize(), 0);
}

#[test]
fn the_multiset_of_a_set_holds_each_element_once() {
    let m = set_of(&[1, 2]).as_dafny_multiset();
    assert_eq!(m.get(&1).to_usize(), Some(1));
    assert_eq!(m.get(&2).to_usize(), Some(1));
    assert_eq!(m.get(&3).to_usize(), Some(0));
    assert_eq!(m.cardinality().to_usize(), Some(2));
}

#[test]
fn sets_of_strings() {
    let a = DafnySet::from_array(&vec!["x".to_string(), "y".to_string()]);
    let b = DafnySet::from_array(&vec!["y".to_string(), "x".to_string()]);
    assert!(a == b);
    assert!(a.contains(&"x".to_string()));
    assert!(!a.contains(&"z".to_string()));
}
