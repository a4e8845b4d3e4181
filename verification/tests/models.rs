use dafny_runtime::DafnyMap;
use dafny_runtime::DafnyMultiset;
use dafny_runtime::DafnySet;
use dafny_runtime::Sequence;
use std::collections::BTreeMap;
use std::collections::BTreeSet;

struct Numbers(u64);

impl Numbers {
    fn next(&mut self) -> u64 {
        self.0 = self.0.wrapping_mul(6364136223846793005).wrapping_add(1442695040888963407);
        self.0 >> 33
    }

    fn list(&mut self, longest: u64, largest: u64) -> Vec<u8> {
        let length = self.next() % (longest + 1);
        (0..length).map(|_| (self.next() % largest) as u8).collect()
    }
}

fn as_set(set: &DafnySet<u8>) -> BTreeSet<u8> {
    set.iter().cloned().collect()
}

fn as_counts(bag: &DafnyMultiset<u8>) -> BTreeMap<u8, usize> {
    bag.iter_raw().map(|(v, c)| (*v, c.to_usize().unwrap())).collect()
}

fn counts_of(values: &[u8]) -> BTreeMap<u8, usize> {
    let mut counts = BTreeMap::new();
    for v in values {
        *counts.entry(*v).or_insert(0) += 1;
    }
    counts
}

#[test]
fn set_algebra_agrees_with_a_plain_model() {
    let mut numbers = Numbers(1);
    for _ in 0..200 {
        let a = numbers.list(8, 10);
        let b = numbers.list(8, 10);
        let sa = DafnySet::from_array(&a);
        let sb = DafnySet::from_array(&b);
        let ma: BTreeSet<u8> = a.iter().cloned().collect();
        let mb: BTreeSet<u8> = b.iter().cloned().collect();
        assert_eq!(as_set(&sa.merge(&sb)), ma.union(&mb).cloned().collect());
        assert_eq!(as_set(&sa.intersect(&sb)), ma.intersection(&mb).cloned().collect());
        assert_eq!(as_set(&sa.subtract(&sb)), ma.difference(&mb).cloned().collect());
        assert_eq!(sa.disjoint(&sb), ma.is_disjoint(&mb));
        assert_eq!(sa.equals(&sb), ma == mb);
        assert_eq!(sa == sb, ma == mb);
        assert_eq!(sa.cardinality_usize(), ma.len());
        assert_eq!(sa <= sb, ma.is_subset(&mb));
        assert_eq!(sa < sb, ma.is_subset(&mb) && ma != mb);
        assert_eq!(sa > sb, mb.is_subset(&ma) && ma != mb);
    }
}

#[test]
fn multiset_algebra_agrees_with_a_plain_model() {
    let mut numbers = Numbers(2);
    for _ in 0..200 {
        let a = numbers.list(10, 5);
        let b = numbers.list(10, 5);
        let ba = DafnyMultiset::from_array(&a);
        let bb = DafnyMultiset::from_array(&b);
        let ca = counts_of(&a);
        let cb = counts_of(&b);
        let mut sum = ca.clone();
        for (v, c) in &cb {
            *sum.entry(*v).or_insert(0) += c;
        }
        let mut less = BTreeMap::new();
        let mut both = BTreeMap::new();
        for (v, c) in &ca {
            let other = cb.get(v).cloned().unwrap_or(0);
            if *c > other {
                less.insert(*v, c - other);
            }
            if other > 0 {
                both.insert(*v, std::cmp::min(*c, other));
            }
        }
        let merged = ba.merge(&bb);
        let left = ba.subtract(&bb);
        let common = ba.intersect(&bb);
        assert_eq!(as_counts(&merged), sum);
        assert_eq!(as_counts(&left), less);
        assert_eq!(as_counts(&common), both);
        assert_eq!(merged.cardinality().to_usize(), Some(a.len() + b.len()));
        assert_eq!(left.cardinality().to_usize(), Some(less.values().sum()));
        assert_eq!(common.cardinality().to_usize(), Some(both.values().sum()));
        assert_eq!(ba == bb, ca == cb);
        assert_eq!(ba.disjoint(&bb), ca.keys().all(|v| !cb.contains_key(v)));
    }
}

#[test]
fn map_merge_and_subtract_agree_with_a_plain_model() {
    let mut numbers = Numbers(3);
    for _ in 0..200 {
        let ka = numbers.list(6, 8);
        let kb = numbers.list(6, 8);
        let pa: Vec<(u8, u8)> = ka.iter().map(|k| (*k, k.wrapping_mul(3))).collect();
        let pb: Vec<(u8, u8)> = kb.iter().map(|k| (*k, k.wrapping_mul(5).wrapping_add(1))).collect();
        let ma = DafnyMap::from_array(&pa);
        let mb = DafnyMap::from_array(&pb);
        let mut model: BTreeMap<u8, u8> = pa.iter().cloned().collect();
        for (k, v) in &pb {
            model.insert(*k, *v);
        }
        let merged: BTreeMap<u8, u8> = ma.merge(&mb).iter_raw().map(|(k, v)| (*k, *v)).collect();
        assert_eq!(merged, model);
        let keys = DafnySet::from_array(&kb);
        let rest: BTreeMap<u8, u8> = ma.subtract(&keys).iter_raw().map(|(k, v)| (*k, *v)).collect();
        let expected: BTreeMap<u8, u8> =
            pa.iter().cloned().filter(|(k, _)| !kb.contains(k)).collect();
        assert_eq!(rest, expected);
    }
}

#[test]
fn sequences_built_in_any_shape_agree_with_a_plain_model() {
    let mut numbers = Numbers(4);
    for _ in 0..100 {
        let mut model: Vec<u8> = Vec::new();
        let mut s: Sequence<u8> = Sequence::from_array_owned(vec![]);
        for _ in 0..12 {
            let piece = numbers.list(4, 50);
            let other = Sequence::from_array(&piece);
            match numbers.next() % 4 {
                0 => {
                    model.extend(piece.iter());
                    s = s.concat(&other);
                }
                1 => {
                    let mut front = piece.clone();
                    front.extend(model.iter());
                    model = front;
                    s = other.concat(&s);
                }
                2 => {
                    let _ = s.to_array();
                }
                _ => {
                    let twice = model.clone();
                    model.extend(twice.iter());
                    s = s.concat(&s);
                }
            }
            assert_eq!(s.cardinality_usize(), model.len());
            if model.len() > 300 {
                break;
            }
        }
        assert!(s == Sequence::from_array(&model));
        assert_eq!(*s.to_array(), model);
        let walked: Vec<u8> = s.iter().collect();
        assert_eq!(walked, model);
    }
}
