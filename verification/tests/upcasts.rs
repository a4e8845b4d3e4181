use dafny_runtime::DafnyMap;
use dafny_runtime::DafnyMultiset;
use dafny_runtime::DafnySet;
use dafny_runtime::Sequence;
use dafny_runtime::UpcastTo;

#[derive(Clone, Debug, PartialEq, Eq, Hash)]
struct Cat(u8);

#[derive(Clone, Debug, PartialEq, Eq, Hash)]
struct Dog(u8);

#[derive(Clone, Debug, PartialEq, Eq, Hash)]
enum Animal {
    Cat(u8),
    Dog(u8),
}

#[derive(Clone, Debug, PartialEq, Eq, Hash)]
struct Legs(u8);

impl UpcastTo<Animal> for Cat {
    fn upcast_to(self) -> Animal {
        Animal::Cat(self.0)
    }
}

impl UpcastTo<Animal> for Dog {
    fn upcast_to(self) -> Animal {
        Animal::Dog(self.0)
    }
}

impl UpcastTo<Legs> for Cat {
    fn upcast_to(self) -> Legs {
        Legs(4)
    }
}

#[test]
fn a_sequence_keeps_its_length_and_order() {
    let cats = Sequence::from_array_owned(vec![Cat(3), Cat(1)]).concat(&Sequence::from_array_owned(vec![Cat(2), Cat(1)]));
    let animals: Sequence<Animal> = cats.clone().upcast_to();
    assert_eq!(animals.cardinality_usize(), cats.cardinality_usize());
    assert_eq!(
        *animals.to_array(),
        vec![Animal::Cat(3), Animal::Cat(1), Animal::Cat(2), Animal::Cat(1)]
    );
    assert_eq!(*cats.to_array(), vec![Cat(3), Cat(1), Cat(2), Cat(1)]);
    let none: Sequence<Animal> = Sequence::<Dog>::from_array_owned(vec![]).upcast_to();
    assert_eq!(none.cardinality_usize(), 0);
}

#[test]
fn a_set_keeps_its_members() {
    let cats = DafnySet::from_array(&vec![Cat(1), Cat(2), Cat(3)]);
    let animals: DafnySet<Animal> = cats.clone().upcast_to();
    assert_eq!(animals.cardinality_usize(), 3);
    for cat in cats.iter() {
        assert!(animals.contains(&Animal::Cat(cat.0)));
    }
    assert!(!animals.contains(&Animal::Dog(1)));
    assert!(animals == DafnySet::from_array(&vec![Animal::Cat(3), Animal::Cat(2), Animal::Cat(1)]));
}

#[test]
fn a_set_whose_members_are_seen_as_one() {
    let cats = DafnySet::from_array(&vec![Cat(1), Cat(2), Cat(3)]);
    let legs: DafnySet<Legs> = cats.upcast_to();
    assert_eq!(legs.cardinality_usize(), 1);
    assert!(legs.contains(&Legs(4)));
}

#[test]
fn a_map_keeps_its_keys() {
    let pets = DafnyMap::from_array(&vec![("tom".to_string(), Cat(1)), ("kit".to_string(), Cat(2))]);
    let animals: DafnyMap<String, Animal> = pets.clone().upcast_to();
    assert_eq!(animals.cardinality_usize(), 2);
    assert!(animals.keys() == pets.keys());
    assert_eq!(animals.get(&"tom".to_string()), Animal::Cat(1));
    assert_eq!(animals.get(&"kit".to_string()), Animal::Cat(2));
    assert!(!animals.contains(&"rex".to_string()));
}

#[test]
fn a_multiset_keeps_its_multiplicities() {
    let dogs = DafnyMultiset::from_array(&vec![Dog(1), Dog(2), Dog(1)]);
    let animals: DafnyMultiset<Animal> = dogs.clone().upcast_to();
    assert_eq!(animals.get(&Animal::Dog(1)).to_usize(), Some(2));
    assert_eq!(animals.get(&Animal::Dog(2)).to_usize(), Some(1));
    assert_eq!(animals.get(&Animal::Cat(1)).to_usize(), Some(0));
    assert_eq!(animals.cardinality().to_usize(), Some(3));
    assert_eq!(dogs.cardinality().to_usize(), Some(3));
}

#[test]
fn a_sequence_of_sets() {
    let nested = Sequence::from_array_owned(vec![
        DafnyMultiset::from_array(&vec![Cat(1)]),
        DafnyMultiset::from_array(&vec![Cat(2), Cat(2)]),
    ]);
    let wide: Sequence<DafnyMultiset<Animal>> = nested.upcast_to();
    assert_eq!(wide.cardinality_usize(), 2);
    assert_eq!(wide.get_usize(1).get(&Animal::Cat(2)).to_usize(), Some(2));
    assert_eq!(wide.get_usize(0).get(&Animal::Cat(1)).to_usize(), Some(1));
}
