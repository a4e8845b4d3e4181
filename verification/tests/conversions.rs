use dafny_runtime::dafny_runtime_conversions::bigint_to_dafny_int;
use dafny_runtime::dafny_runtime_conversions::boxed_struct_to_dafny_class;
use dafny_runtime::dafny_runtime_conversions::dafny_array_to_vec;
use dafny_runtime::dafny_runtime_conversions::dafny_class_to_boxed_struct;
use dafny_runtime::dafny_runtime_conversions::dafny_class_to_struct;
use dafny_runtime::dafny_runtime_conversions::dafny_int_to_bigint;
use dafny_runtime::dafny_runtime_conversions::dafny_map_to_hashmap;
use dafny_runtime::dafny_runtime_conversions::dafny_multiset_to_owned_vec;
use dafny_runtime::dafny_runtime_conversions::dafny_multiset_to_text;
use dafny_runtime::dafny_runtime_conversions::dafny_sequence_to_vec;
use dafny_runtime::dafny_runtime_conversions::dafny_set_to_set;
use dafny_runtime::dafny_runtime_conversions::hashmap_to_dafny_map;
use dafny_runtime::dafny_runtime_conversions::set_to_dafny_set;
use dafny_runtime::dafny_runtime_conversions::struct_to_dafny_class;
use dafny_runtime::dafny_runtime_conversions::unicode_chars_false;
use dafny_runtime::dafny_runtime_conversions::unicode_chars_true;
use dafny_runtime::dafny_runtime_conversions::vec_to_dafny_array;
use dafny_runtime::dafny_runtime_conversions::vec_to_dafny_multiset;
use dafny_runtime::dafny_runtime_conversions::vec_to_dafny_sequence;
use dafny_runtime::string_of;
use dafny_runtime::string_utf16_of;
use dafny_runtime::DafnyChar;
use dafny_runtime::DafnyCharUTF16;
use dafny_runtime::DafnyInt;
use dafny_runtime::DafnyMap;
use dafny_runtime::DafnyMultiset;
use dafny_runtime::DafnySet;
use dafny_runtime::Sequence;
use num::BigInt;
use std::collections::HashMap;
use std::collections::HashSet;

fn units(s: &Sequence<DafnyCharUTF16>) -> Vec<u16> {
    s.to_array().iter().map(|c| c.0).collect()
}

fn chars(s: &Sequence<DafnyChar>) -> Vec<char> {
    s.to_array().iter().map(|c| c.0).collect()
}

#[test]
fn a_sequence_to_a_vector_and_back() {
    let s = Sequence::from_array_owned(vec![1u8, 2]).concat(&Sequence::from_array_owned(vec![3u8]));
    let v: Vec<String> = dafny_sequence_to_vec(&s, |x: &u8| x.to_string());
    assert_eq!(v, vec!["1".to_string(), "2".to_string(), "3".to_string()]);
    let back: Sequence<u8> = vec_to_dafny_sequence(&v, |x: &String| x.parse().unwrap());
    assert!(back == s);
    let empty: Vec<u8> = dafny_sequence_to_vec(&Sequence::<u8>::from_array_owned(vec![]), |x: &u8| *x);
    assert!(empty.is_empty());
}

#[test]
fn a_map_to_a_hash_map_and_back() {
    let m = DafnyMap::from_array(&vec![(1u8, 'a'), (2u8, 'b')]);
    let native: HashMap<u16, String> =
        dafny_map_to_hashmap(&m, |k: &u8| *k as u16 * 10, |v: &char| v.to_string());
    let mut expected = HashMap::new();
    expected.insert(10u16, "a".to_string());
    expected.insert(20u16, "b".to_string());
    assert_eq!(native, expected);
    let back: DafnyMap<u8, char> = hashmap_to_dafny_map(
        &native,
        |k: &u16| (*k / 10) as u8,
        |v: &String| v.chars().next().unwrap(),
    );
    assert!(back == m);
}

#[test]
fn a_set_to_a_hash_set_and_back() {
    let s = DafnySet::from_array(&vec![1u8, 2, 3]);
    let native: HashSet<u16> = dafny_set_to_set(&s, |x: &u8| *x as u16 + 1);
    let expected: HashSet<u16> = [2u16, 3, 4].into_iter().collect();
    assert_eq!(native, expected);
    let back: DafnySet<u8> = set_to_dafny_set(&native, |x: &u16| (*x - 1) as u8);
    assert!(back == s);
}

#[test]
fn a_conversion_that_maps_two_elements_to_one() {
    let s = DafnySet::from_array(&vec![1u8, 2, 3, 4]);
    let halves: HashSet<u8> = dafny_set_to_set(&s, |x: &u8| *x / 2);
    let expected: HashSet<u8> = [0u8, 1, 2].into_iter().collect();
    assert_eq!(halves, expected);
}

#[test]
fn a_multiset_to_a_vector_and_back() {
    let ms = DafnyMultiset::from_array(&vec!['x', 'y', 'x']);
    let mut v: Vec<String> = dafny_multiset_to_owned_vec(&ms, |c: &char| c.to_string());
    v.sort();
    assert_eq!(v, vec!["x".to_string(), "x".to_string(), "y".to_string()]);
    let back: DafnyMultiset<char> = vec_to_dafny_multiset(&v, |s: &String| s.chars().next().unwrap());
    assert!(back == ms);
    let none: Vec<char> = dafny_multiset_to_owned_vec(&DafnyMultiset::<char>::new_empty(), |c: &char| *c);
    assert!(none.is_empty());
}

#[test]
fn integers_to_big_integers_and_back() {
    let n = DafnyInt::from(-12345i32);
    let big = dafny_int_to_bigint(&n);
    assert_eq!(big, BigInt::from(-12345));
    assert!(bigint_to_dafny_int(&big) == n);
    assert_eq!(bigint_to_dafny_int(&BigInt::from(7)).to_i64(), Some(7));
}

#[test]
fn objects_and_arrays_with_one_owner() {
    let object = struct_to_dafny_class(5u8);
    assert_eq!(*object, 5);
    assert_eq!(dafny_class_to_struct(object), 5);
    let boxed = boxed_struct_to_dafny_class(Box::new("a".to_string()));
    assert_eq!(*dafny_class_to_boxed_struct(boxed), "a".to_string());
    let array = vec_to_dafny_array(vec![1, 2, 3]);
    assert_eq!(array.len(), 3);
    assert_eq!(dafny_array_to_vec(array), vec![1, 2, 3]);
}

#[test]
fn text_as_unicode_scalar_values() {
    let s = unicode_chars_true::string_to_dafny_string("héllo 🙂");
    assert_eq!(chars(&s), vec!['h', 'é', 'l', 'l', 'o', ' ', '🙂']);
    assert_eq!(s.cardinality_usize(), 7);
    assert_eq!(unicode_chars_true::dafny_string_to_string(&s), "héllo 🙂".to_string());
    assert_eq!(chars(&string_of("ab")), vec!['a', 'b']);
    assert_eq!(string_of("").cardinality_usize(), 0);
    assert_eq!(unicode_chars_true::dafny_string_to_string(&string_of("")), String::new());
}

#[test]
fn text_as_utf16_code_units() {
    let s = unicode_chars_false::string_to_dafny_string("a€🙂");
    assert_eq!(units(&s), vec![0x0061, 0x20AC, 0xD83D, 0xDE42]);
    assert_eq!(units(&s), "a€🙂".encode_utf16().collect::<Vec<u16>>());
    assert_eq!(unicode_chars_false::dafny_string_to_string(&s), "a€🙂".to_string());
    assert_eq!(units(&string_utf16_of("\u{FFFF}\u{10000}\u{10FFFF}")), vec![0xFFFF, 0xD800, 0xDC00, 0xDBFF, 0xDFFF]);
    assert_eq!(units(&string_utf16_of("\u{D7FF}\u{E000}")), vec![0xD7FF, 0xE000]);
    assert_eq!(string_utf16_of("").cardinality_usize(), 0);
}

#[test]
fn utf16_encoding_agrees_with_the_standard_one() {
    let text = "The quick brown 🦊 jumps over 13 lazy 🐶s — naïvely, ça va? 日本語";
    assert_eq!(units(&string_utf16_of(text)), text.encode_utf16().collect::<Vec<u16>>());
}

#[test]
fn a_code_unit_that_encodes_nothing_becomes_the_replacement_character() {
    let lone = Sequence::from_array_owned(vec![
        DafnyCharUTF16(0x0061),
        DafnyCharUTF16(0xD83D),
        DafnyCharUTF16(0x0062),
    ]);
    assert_eq!(unicode_chars_false::dafny_string_to_string(&lone), "a\u{FFFD}b".to_string());
}

#[test]
fn the_text_of_a_sequence() {
    let s = Sequence::from_array_owned(vec![1, 2]).concat(&Sequence::from_array_owned(vec![3]));
    assert_eq!(s.to_text(false, |x: &i32| x.to_string()), "[1, 2, 3]");
    assert_eq!(s.to_text(true, |x: &i32| x.to_string()), "123");
    let one = Sequence::from_array_owned(vec![7]);
    assert_eq!(one.to_text(false, |x: &i32| x.to_string()), "[7]");
    let none = Sequence::<i32>::from_array_owned(vec![]);
    assert_eq!(none.to_text(false, |x: &i32| x.to_string()), "[]");
    assert_eq!(none.to_text(true, |x: &i32| x.to_string()), "");
    let word = string_of("héllo");
    assert_eq!(word.to_text(true, |c: &DafnyChar| c.0.to_string()), "héllo");
}

#[test]
fn the_text_of_a_set() {
    let s = DafnySet::from_array(&vec![1, 2]);
    let text = s.to_text(|x: &i32| x.to_string());
    assert!(text == "{1, 2}" || text == "{2, 1}", "{}", text);
    assert_eq!(DafnySet::from_array(&vec![5]).to_text(|x: &i32| x.to_string()), "{5}");
    assert_eq!(DafnySet::<i32>::new_empty().to_text(|x: &i32| x.to_string()), "{}");
}

#[test]
fn the_text_of_a_map() {
    let m = DafnyMap::from_array(&vec![(1, 'a'), (2, 'b')]);
    let text = m.to_text(|k: &i32| k.to_string(), |v: &char| format!("'{}'", v));
    assert!(
        text == "map[1 := 'a', 2 := 'b'}" || text == "map[2 := 'b', 1 := 'a'}",
        "{}",
        text
    );
    let one = DafnyMap::from_array(&vec![(1, 2)]);
    assert_eq!(one.to_text(|k: &i32| k.to_string(), |v: &i32| v.to_string()), "map[1 := 2}");
    let none = DafnyMap::<i32, i32>::new_empty();
    assert_eq!(none.to_text(|k: &i32| k.to_string(), |v: &i32| v.to_string()), "map[}");
}

#[test]
fn the_text_of_a_multiset() {
    let ms = DafnyMultiset::from_array(&vec![7, 7, 7]);
    assert_eq!(dafny_multiset_to_text(&ms, |x: &i32| x.to_string()), "multiset{7, 7, 7}");
    let two = DafnyMultiset::from_array(&vec![1, 2, 1]);
    let text = dafny_multiset_to_text(&two, |x: &i32| x.to_string());
    assert!(text == "multiset{1, 1, 2}" || text == "multiset{2, 1, 1}", "{}", text);
    let none = DafnyMultiset::<i32>::new_empty();
    assert_eq!(dafny_multiset_to_text(&none, |x: &i32| x.to_string()), "multiset{}");
}
