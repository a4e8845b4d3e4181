//! Mathematical multisets read off a table of counts.
//!
//! A multiset is stored as a map from each of its values to the number of
//! times it occurs. This file says which multiset a table stands for and how
//! that multiset and its size change when one entry of the table changes.

use vstd::prelude::*;
use vstd::multiset::Multiset;
use crate::dafny_int::DafnyInt;

verus! {

/// The mathematical multisets over which the contracts are stated.
pub type Bag<V> = Multiset<V>;

/// The multiset that holds `v` exactly `n` times and nothing else.
pub open spec fn repeat<V>(v: V, n: nat) -> Bag<V> {
    Multiset::from_map(Map::<V, nat>::empty().insert(v, n))
}

/// `repeat(v, n)` has `n` elements.
pub proof fn lemma_repeat_len<V>(v: V, n: nat)
    ensures
        repeat(v, n).len() == n,
    decreases n,
{
    if n == 0 {
        assert forall|w: V| repeat(v, 0).count(w) == Multiset::<V>::empty().count(w) by {}
        assert(repeat(v, 0) =~= Multiset::<V>::empty());
    } else {
        let less = (n - 1) as nat;
        lemma_repeat_len(v, less);
        assert forall|w: V| repeat(v, n).count(w) == repeat(v, less).insert(v).count(w) by {}
        assert(repeat(v, n) =~= repeat(v, less).insert(v));
    }
}

/// The number that a table of counts gives for `v`: what it stores for `v`,
/// and zero where it stores nothing or a negative number.
pub open spec fn count_in<V>(table: Map<V, DafnyInt>, v: V) -> nat {
    if table.contains_key(v) && table[v]@ > 0 {
        table[v]@ as nat
    } else {
        0
    }
}

/// The multiset that a table of counts stands for.
pub open spec fn counts<V>(table: Map<V, DafnyInt>) -> Bag<V> {
    Multiset::from_map(Map::new(|v: V| table.contains_key(v), |v: V| count_in(table, v)))
}

/// The multiset of a table holds each value as often as the table says.
pub proof fn lemma_counts_count<V>(table: Map<V, DafnyInt>, v: V)
    requires
        table.dom().finite(),
    ensures
        counts(table).count(v) == count_in(table, v),
{
    let m = Map::new(|w: V| table.contains_key(w), |w: V| count_in(table, w));
    assert(m.dom() =~= table.dom());
}

/// The empty table stands for the empty multiset.
pub proof fn lemma_counts_empty<V>()
    ensures
        counts(Map::<V, DafnyInt>::empty()) == Multiset::<V>::empty(),
{
    assert forall|v: V|
        counts(Map::<V, DafnyInt>::empty()).count(v) == Multiset::<V>::empty().count(v) by {
        lemma_counts_count(Map::<V, DafnyInt>::empty(), v);
    }
}

/// Two finite tables that give every value the same number stand for the
/// same multiset.
pub proof fn lemma_counts_agree<V>(a: Map<V, DafnyInt>, b: Bag<V>)
    requires
        a.dom().finite(),
        forall|v: V| count_in(a, v) == #[trigger] b.count(v),
    ensures
        counts(a) == b,
{
    assert forall|v: V| counts(a).count(v) == b.count(v) by {
        lemma_counts_count(a, v);
    }
}

/// Writing the number `c` for `k` into a table takes out what the table
/// gave for `k` before and puts in `c` times `k`.
pub proof fn lemma_counts_insert<V>(table: Map<V, DafnyInt>, k: V, c: DafnyInt)
    requires
        table.dom().finite(),
        c@ >= 0,
    ensures
        counts(table.insert(k, c)) == counts(table).sub(repeat(k, count_in(table, k))).add(
            repeat(k, c@ as nat),
        ),
        counts(table.insert(k, c)).len() == counts(table).len() - count_in(table, k) + c@,
{
    let before = count_in(table, k);
    let took = counts(table).sub(repeat(k, before));
    let after = took.add(repeat(k, c@ as nat));
    assert forall|v: V| counts(table.insert(k, c)).count(v) == after.count(v) by {
        lemma_counts_count(table.insert(k, c), v);
        lemma_counts_count(table, v);
    }
    assert(repeat(k, before).subset_of(counts(table))) by {
        assert forall|v: V| repeat(k, before).count(v) <= counts(table).count(v) by {
            lemma_counts_count(table, v);
        }
    }
    lemma_repeat_len(k, before);
    lemma_repeat_len(k, c@ as nat);
}

/// Taking the entry for `k` out of a table takes out what the table gave
/// for `k`.
pub proof fn lemma_counts_remove<V>(table: Map<V, DafnyInt>, k: V)
    requires
        table.dom().finite(),
    ensures
        counts(table.remove(k)) == counts(table).sub(repeat(k, count_in(table, k))),
        counts(table.remove(k)).len() == counts(table).len() - count_in(table, k),
{
    let before = count_in(table, k);
    let took = counts(table).sub(repeat(k, before));
    assert forall|v: V| counts(table.remove(k)).count(v) == took.count(v) by {
        lemma_counts_count(table.remove(k), v);
        lemma_counts_count(table, v);
    }
    assert(repeat(k, before).subset_of(counts(table))) by {
        assert forall|v: V| repeat(k, before).count(v) <= counts(table).count(v) by {
            lemma_counts_count(table, v);
        }
    }
    lemma_repeat_len(k, before);
}

/// A multiset that lies within another of the same size is that other.
pub proof fn lemma_within_same_len<V>(a: Bag<V>, b: Bag<V>)
    requires
        a.subset_of(b),
        a.len() == b.len(),
    ensures
        a == b,
{
    let rest = b.sub(a);
    assert(rest.len() == 0);
    assert forall|v: V| a.count(v) == b.count(v) by {
        assert(rest.count(v) == 0);
    }
}

} // verus!
