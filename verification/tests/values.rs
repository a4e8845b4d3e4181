use dafny_runtime::array;
use dafny_runtime::char_lt;
use dafny_runtime::exact_range;
use dafny_runtime::integer_range;
use dafny_runtime::integer_range_down;
use dafny_runtime::integer_range_down_unbounded;
use dafny_runtime::integer_range_unbounded;
use dafny_runtime::nullable_referential_equality;
use dafny_runtime::object;
use dafny_runtime::rcmut;
use dafny_runtime::DafnyChar;
use dafny_runtime::DafnyCharUTF16;
use dafny_runtime::DafnyInt;
use dafny_runtime::FunctionWrapper;
use dafny_runtime::MaybePlacebo;
use dafny_runtime::Object;
use std::cmp::Ordering;
use std::collections::hash_map::DefaultHasher;
use std::hash::Hash;
use std::hash::Hasher;
use std::rc::Rc;

fn numbers(values: Vec<DafnyInt>) -> Vec<i64> {
    values.iter().map(|n| n.to_i64().unwrap()).collect()
}

fn hash_of<T: Hash>(value: &T) -> u64 {
    let mut hasher = DefaultHasher::new();
    value.hash(&mut hasher);
    hasher.finish()
}

#[test]
fn characters_are_ordered_by_their_code() {
    assert!(char_lt('a', 'b'));
    assert!(!char_lt('b', 'a'));
    assert!(!char_lt('a', 'a'));
    assert!(char_lt('z', '🙂'));
    assert!(char_lt('\u{D7FF}', '\u{E000}'));
    assert!(DafnyChar('a') < DafnyChar('b'));
    assert!(DafnyChar('a') == DafnyChar('a'));
    assert!(DafnyChar('a') != DafnyChar('b'));
    assert_eq!(DafnyChar('b').partial_cmp(&DafnyChar('a')), Some(Ordering::Greater));
    assert_eq!(DafnyChar('a').partial_cmp(&DafnyChar('a')), Some(Ordering::Equal));
    assert!(DafnyCharUTF16(0x61) < DafnyCharUTF16(0x62));
    assert!(DafnyCharUTF16(0x61) == DafnyCharUTF16(0x61));
    assert_eq!(DafnyCharUTF16(7).partial_cmp(&DafnyCharUTF16(3)), Some(Ordering::Greater));
    assert_eq!(hash_of(&DafnyChar('q')), hash_of(&DafnyChar('q').clone()));
    assert_eq!(DafnyCharUTF16(5).clone().0, 5);
}

#[test]
fn a_range_runs_up_to_its_bound() {
    let run: Vec<DafnyInt> = integer_range(DafnyInt::from(-2i8), DafnyInt::from(2i8)).collect();
    assert_eq!(numbers(run), vec![-2, -1, 0, 1]);
    assert_eq!(integer_range(DafnyInt::from(3u8), DafnyInt::from(3u8)).count(), 0);
    assert_eq!(integer_range(DafnyInt::from(4u8), DafnyInt::from(3u8)).count(), 0);
    let mut it = integer_range(DafnyInt::from(0u8), DafnyInt::from(1u8));
    assert!(it.next().is_some());
    assert!(it.next().is_none());
    assert!(it.next().is_none());
}

#[test]
fn a_range_runs_down_to_its_bound() {
    let run: Vec<DafnyInt> = integer_range_down(DafnyInt::from(2i8), DafnyInt::from(-2i8)).collect();
    assert_eq!(numbers(run), vec![1, 0, -1, -2]);
    assert_eq!(integer_range_down(DafnyInt::from(3u8), DafnyInt::from(3u8)).count(), 0);
    assert_eq!(integer_range_down(DafnyInt::from(3u8), DafnyInt::from(4u8)).count(), 0);
}

#[test]
fn ranges_without_end() {
    let up: Vec<DafnyInt> = integer_range_unbounded(DafnyInt::from(5u8)).take(3).collect();
    assert_eq!(numbers(up), vec![5, 6, 7]);
    let down: Vec<DafnyInt> = integer_range_down_unbounded(DafnyInt::from(1u8)).take(3).collect();
    assert_eq!(numbers(down), vec![0, -1, -2]);
}

#[test]
fn an_exact_range_hands_out_its_value_once() {
    let mut it = exact_range("only".to_string());
    assert_eq!(it.next(), Some("only".to_string()));
    assert_eq!(it.next(), None);
    assert_eq!(it.next(), None);
    assert_eq!(exact_range(7).collect::<Vec<i32>>(), vec![7]);
}

#[test]
fn a_slot_that_is_filled() {
    let slot = MaybePlacebo::from(5);
    assert_eq!(slot.read(), 5);
    assert_eq!(slot.read(), 5);
    let text = MaybePlacebo::from("a".to_string());
    assert_eq!(text.read(), "a".to_string());
    let _empty: MaybePlacebo<i32> = MaybePlacebo::new();
}

#[test]
fn arrays_with_one_owner() {
    let a = array::from_vec(vec![1, 2, 3]);
    assert_eq!(array::length_usize(&a), 3);
    assert_eq!(array::length(&a).to_usize(), Some(3));
    assert_eq!(array::get_usize(&a, 1), 2);
    assert_eq!(array::get(&a, &DafnyInt::from(2u8)), 3);
    let b = array::from_native(vec![4, 5].into_boxed_slice());
    assert_eq!(array::to_vec(b), vec![4, 5]);
    let mut c = array::from_vec(vec![0; 3]);
    array::update_usize(&mut c, 0, 7);
    array::update(&mut c, &DafnyInt::from(2u8), 9);
    assert_eq!(array::to_vec(c), vec![7, 0, 9]);
    assert_eq!(array::length_usize(&array::from_vec(Vec::<u8>::new())), 0);
}

#[test]
fn arrays_filled_by_a_function_of_the_index() {
    let squares = array::initialize_usize(4, |i: usize| i * i);
    assert_eq!(array::to_vec(squares), vec![0, 1, 4, 9]);
    let none = array::initialize_usize(0, |i: usize| i);
    assert_eq!(array::length_usize(&none), 0);
    let doubled = array::initialize_box_usize(3, |i: &DafnyInt| (i.clone() + i.clone()).to_i64().unwrap());
    assert_eq!(array::to_vec(doubled), vec![0, 2, 4]);
    let plus_one = array::initialize_box(&DafnyInt::from(2u8), |i: &DafnyInt| i.to_u8().unwrap() + 1);
    assert_eq!(array::to_vec(plus_one), vec![1, 2]);
    let same = array::initialize(&DafnyInt::from(2u8), |i: &DafnyInt| i.to_u8().unwrap());
    assert_eq!(array::to_vec(same), vec![0, 1]);
}

#[test]
fn handles_are_equal_where_they_are_on_one_object() {
    let a = object::new(5);
    let b = a.clone();
    let c = object::new(5);
    assert!(a == b);
    assert!(a != c);
    assert!(!a.is_null());
    assert_eq!(hash_of(&a), hash_of(&b));
    let null: Object<i32> = Object(None);
    assert!(null.is_null());
    assert!(null != null.clone());
    assert!(a != null);
    assert_eq!(Rc::strong_count(a.0.as_ref().unwrap()), 2);
}

#[test]
fn shared_cells_and_arrays() {
    let cell = rcmut::new(3);
    let other = Rc::clone(&cell);
    assert!(Rc::ptr_eq(&cell, &other));
    let array = rcmut::Array::new(vec![1, 2].into_boxed_slice());
    assert!(!array.is_null());
    let shared = rcmut::ArcMut::new(1);
    let second = shared.clone();
    assert!(std::sync::Arc::ptr_eq(shared.as_cell(), second.as_cell()));
    assert_eq!(std::sync::Arc::strong_count(shared.as_cell()), 2);
}

#[test]
fn a_code_unit_as_a_character() {
    assert_eq!(DafnyCharUTF16(0x61).as_char(), Some('a'));
    assert_eq!(DafnyCharUTF16(0x20AC).as_char(), Some('€'));
    assert_eq!(DafnyCharUTF16(0xD7FF).as_char(), Some('\u{D7FF}'));
    assert_eq!(DafnyCharUTF16(0xD800).as_char(), None);
    assert_eq!(DafnyCharUTF16(0xDFFF).as_char(), None);
    assert_eq!(DafnyCharUTF16(0xE000).as_char(), Some('\u{E000}'));
    assert_eq!(DafnyCharUTF16(0xFFFF).as_char(), Some('\u{FFFF}'));
}

#[test]
fn nullable_handles_are_alike_where_both_are_null_or_on_one_allocation() {
    let a = Rc::new(5);
    let b = Rc::new(5);
    assert!(nullable_referential_equality(Some(a.clone()), Some(a.clone())));
    assert!(!nullable_referential_equality(Some(a.clone()), Some(b)));
    assert!(!nullable_referential_equality(Some(a.clone()), None));
    assert!(!nullable_referential_equality(None, Some(a)));
    assert!(nullable_referential_equality::<i32>(None, None));
}

#[test]
fn wrapped_functions_are_equal_where_they_are_one_function() {
    let f: Rc<dyn Fn(i32) -> i32> = Rc::new(|x| x + 1);
    let g: Rc<dyn Fn(i32) -> i32> = Rc::new(|x| x + 1);
    let a = FunctionWrapper(f.clone());
    let b = FunctionWrapper(f);
    let c = FunctionWrapper(g);
    assert!(a == b);
    assert!(a != c);
    assert!(a.clone() == a);
    assert_eq!((a.0)(1), 2);
}
