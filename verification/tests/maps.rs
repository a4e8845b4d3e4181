use dafny_runtime::DafnyInt;
use dafny_runtime::DafnyMap;
use dafny_runtime::DafnySet;
use dafny_runtime::MapBuilder;
use dafny_runtime::NontrivialDefault;
use std::collections::hash_map::DefaultHasher;
use std::collections::HashMap;
use std::hash::Hash;
use std::hash::Hasher;

fn map_of(pairs: &[(&str, i32)]) -> DafnyMap<String, i32> {
    let owned: Vec<(String, i32)> = pairs.iter().map(|(k, v)| (k.to_string(), *v)).collect();
    DafnyMap::from_array(&owned)
}

fn sorted(map: &DafnyMap<String, i32>) -> Vec<(String, i32)> {
    let mut entries: Vec<(String, i32)> =
        map.iter_raw().map(|(k, v)| (k.clone(), *v)).collect();
    entries.sort();
    entries
}

fn entries(pairs: &[(&str, i32)]) -> Vec<(String, i32)> {
    let mut owned: Vec<(String, i32)> = pairs.iter().map(|(k, v)| (k.to_string(), *v)).collect();
    owned.sort();
    owned
}

fn hash_of<T: Hash>(value: &T) -> u64 {
    let mut hasher = DefaultHasher::new();
    value.hash(&mut hasher);
    hasher.finish()
}

#[test]
fn merge_lets_the_second_map_win() {
    let m1 = map_of(&[("a", 1), ("b", 2)]);
    let m2 = map_of(&[("b", 3), ("c", 4)]);
    let merged = m1.merge(&m2);
    assert!(merged == map_of(&[("a", 1), ("b", 3), ("c", 4)]));
    assert_eq!(sorted(&merged), entries(&[("a", 1), ("b", 3), ("c", 4)]));
    assert_eq!(sorted(&m1), entries(&[("a", 1), ("b", 2)]));
    assert_eq!(sorted(&m2), entries(&[("b", 3), ("c", 4)]));
    let back = m2.merge(&m1);
    assert_eq!(sorted(&back), entries(&[("a", 1), ("b", 2), ("c", 4)]));
}

#[test]
fn merge_with_an_empty_map() {
    let m = map_of(&[("a", 1)]);
    let e = map_of(&[]);
    assert_eq!(sorted(&m.merge(&e)), entries(&[("a", 1)]));
    assert_eq!(sorted(&e.merge(&m)), entries(&[("a", 1)]));
    assert_eq!(sorted(&e.merge(&e)), entries(&[]));
}

#[test]
fn the_empty_map() {
    let e: DafnyMap<String, i32> = DafnyMap::new_empty();
    assert_eq!(e.cardinality_usize(), 0);
    assert!(!e.contains(&"a".to_string()));
    let d: DafnyMap<String, i32> = DafnyMap::default();
    assert!(d == e);
    let n: DafnyMap<String, i32> = DafnyMap::nontrivial_default();
    assert!(n == e);
}

#[test]
fn a_later_pair_replaces_an_earlier_one() {
    let m = map_of(&[("a", 1), ("b", 2), ("a", 3)]);
    assert_eq!(m.cardinality_usize(), 2);
    assert_eq!(m.cardinality().to_usize(), Some(2));
    assert_eq!(m.get(&"a".to_string()), 3);
    let from_iter = DafnyMap::from_iterator(vec![(1, 10), (2, 20), (1, 30)].into_iter());
    assert_eq!(from_iter.get(&1), 30);
    assert_eq!(from_iter.cardinality_usize(), 2);
}

#[test]
fn lookups() {
    let m = map_of(&[("a", 1), ("b", 2)]);
    assert!(m.contains(&"a".to_string()));
    assert!(!m.contains(&"z".to_string()));
    assert_eq!(m.get(&"b".to_string()), 2);
    assert_eq!(m.get_or_none(&"b".to_string()), Some(2));
    assert_eq!(m.get_or_none(&"z".to_string()), None);
}

#[test]
fn subtract_drops_the_given_keys() {
    let m = map_of(&[("a", 1), ("b", 2), ("c", 3)]);
    let keys = DafnySet::from_array(&vec!["a".to_string(), "c".to_string(), "z".to_string()]);
    assert_eq!(sorted(&m.subtract(&keys)), entries(&[("b", 2)]));
    let none: DafnySet<String> = DafnySet::new_empty();
    assert_eq!(sorted(&m.subtract(&none)), entries(&[("a", 1), ("b", 2), ("c", 3)]));
    assert_eq!(sorted(&m), entries(&[("a", 1), ("b", 2), ("c", 3)]));
}

#[test]
fn keys_and_values() {
    let m = map_of(&[("a", 1), ("b", 2), ("c", 1)]);
    let keys = m.keys();
    assert!(keys == DafnySet::from_array(&vec!["a".to_string(), "b".to_string(), "c".to_string()]));
    let values = m.values();
    assert!(values == DafnySet::from_array(&vec![1, 2]));
    assert_eq!(values.cardinality_usize(), 2);
    let mut walked: Vec<String> = m.iter().collect();
    walked.sort();
    assert_eq!(walked, vec!["a".to_string(), "b".to_string(), "c".to_string()]);
}

#[test]
fn update_index_returns_a_new_map() {
    let m = map_of(&[("a", 1)]);
    let changed = m.update_index(&"a".to_string(), &5);
    let grown = m.update_index_owned("b".to_string(), 7);
    assert_eq!(sorted(&changed), entries(&[("a", 5)]));
    assert_eq!(sorted(&grown), entries(&[("a", 1), ("b", 7)]));
    assert_eq!(sorted(&m), entries(&[("a", 1)]));
}

#[test]
fn equality_goes_by_the_entries() {
    assert!(map_of(&[("a", 1), ("b", 2)]) == map_of(&[("b", 2), ("a", 1)]));
    assert!(map_of(&[("a", 1), ("b", 2)]) != map_of(&[("a", 1), ("b", 3)]));
    assert!(map_of(&[("a", 1), ("b", 2)]) != map_of(&[("a", 1), ("c", 2)]));
    assert!(map_of(&[("a", 1)]) != map_of(&[("a", 1), ("b", 2)]));
}

#[test]
fn equal_maps_hash_alike() {
    assert_eq!(
        hash_of(&map_of(&[("a", 1), ("b", 2)])),
        hash_of(&map_of(&[("b", 2), ("a", 1)]))
    );
}

#[test]
fn a_map_from_a_hash_map_and_back() {
    let mut native = HashMap::new();
    native.insert(1u8, 10u8);
    native.insert(2u8, 20u8);
    let owned = DafnyMap::from_hashmap_owned(native.clone());
    assert_eq!(owned.cardinality_usize(), 2);
    assert_eq!(owned.get(&2), 20);
    assert_eq!(owned.as_hash_map().len(), 2);
    let converted: DafnyMap<u16, String> =
        DafnyMap::from_hashmap(&native, |k: &u8| *k as u16 + 100, |v: &u8| v.to_string());
    assert_eq!(converted.cardinality_usize(), 2);
    assert_eq!(converted.get(&101), "10".to_string());
    assert_eq!(converted.get(&102), "20".to_string());
    let back: HashMap<u8, u8> =
        converted.to_hashmap_owned(|k: &u16| (*k - 100) as u8, |v: &String| v.parse().unwrap());
    assert_eq!(back, native);
}

#[test]
fn a_builder_keeps_the_last_value_for_a_key() {
    let mut builder = MapBuilder::new();
    builder.add(&1, &10);
    builder.add(&2, &20);
    builder.add(&1, &30);
    let m = builder.build();
    assert_eq!(m.cardinality_usize(), 2);
    assert_eq!(m.get(&1), 30);
    assert_eq!(m.get(&2), 20);
    let empty: DafnyMap<i32, i32> = MapBuilder::new().build();
    assert_eq!(empty.cardinality_usize(), 0);
}

#[test]
fn a_map_of_counts_as_a_multiset() {
    let mut builder = MapBuilder::new();
    builder.add(&'x', &DafnyInt::from(2u8));
    builder.add(&'y', &DafnyInt::from(1u8));
    let m = builder.build().as_dafny_multiset();
    assert_eq!(m.get(&'x').to_usize(), Some(2));
    assert_eq!(m.get(&'y').to_usize(), Some(1));
    assert_eq!(m.cardinality().to_usize(), Some(3));
}
