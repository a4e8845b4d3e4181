//! Facts about walking a hash set or a hash map once, item by item.
//!
//! The items come in an order that nothing fixes. What is known is that each
//! item of the collection comes exactly once. The loops of this crate state
//! their invariants over the items met so far.

use vstd::prelude::*;
use vstd::std_specs::iter::IteratorSpec;

verus! {

/// `Iterator::next` on the iterator of a `HashSet`: the call hands out the
/// first of the items still to come and leaves the others, or hands out
/// `None` where none is left. This is what vstd states of `next` on every
/// iterator that ends; a `for` loop over the same iterator rests on it too.
#[verifier::external_body]
pub(crate) fn next_in_set<'a, V>(it: &mut std::collections::hash_set::Iter<'a, V>) -> (r: Option<
    &'a V,
>)
    ensures
        (*old(it)).remaining().len() > 0 ==> {
            &&& r == Some((*old(it)).remaining()[0])
            &&& (*final(it)).remaining() == (*old(it)).remaining().drop_first()
        },
        (*old(it)).remaining().len() == 0 ==> {
            &&& r is None
            &&& (*final(it)).remaining() == (*old(it)).remaining()
        },
{
    it.next()
}

/// `Iterator::next` on the iterator of a `HashMap`, stated as for
/// [`next_in_set`].
#[verifier::external_body]
pub(crate) fn next_in_map<'a, K, V>(it: &mut std::collections::hash_map::Iter<'a, K, V>) -> (r:
    Option<(&'a K, &'a V)>)
    ensures
        (*old(it)).remaining().len() > 0 ==> {
            &&& r == Some((*old(it)).remaining()[0])
            &&& (*final(it)).remaining() == (*old(it)).remaining().drop_first()
        },
        (*old(it)).remaining().len() == 0 ==> {
            &&& r is None
            &&& (*final(it)).remaining() == (*old(it)).remaining()
        },
{
    it.next()
}

/// The values among the first `n` of `items`.
pub open spec fn met<V>(items: Seq<&V>, n: int) -> Set<V> {
    Set::new(|v: V| exists|i: int| 0 <= i < n && 0 <= i < items.len() && *#[trigger] items[i] == v)
}

/// Before the first step nothing has been met.
pub proof fn lemma_met_none<V>(items: Seq<&V>)
    ensures
        met(items, 0) == Set::<V>::empty(),
{
}

/// One more step meets one more item.
pub proof fn lemma_met_next<V>(items: Seq<&V>, n: int)
    requires
        0 <= n < items.len(),
    ensures
        met(items, n + 1) == met(items, n).insert(*items[n]),
{
    assert forall|v: V| met(items, n + 1).contains(v) <==> met(items, n).insert(
        *items[n],
    ).contains(v) by {}
}

/// After the last step every item has been met.
pub proof fn lemma_met_all<V>(items: Seq<&V>, all: Set<V>)
    requires
        items.unref().to_set() == all,
    ensures
        met(items, items.len() as int) == all,
{
    let u = items.unref();
    assert forall|v: V| met(items, items.len() as int).contains(v) <==> all.contains(v) by {
        if met(items, items.len() as int).contains(v) {
            let i = choose|i: int|
                0 <= i < items.len() && 0 <= i < items.len() && *#[trigger] items[i] == v;
            assert(u[i] == v);
        }
    }
}

/// What has been met is part of the whole.
pub proof fn lemma_met_within<V>(items: Seq<&V>, n: int, all: Set<V>)
    requires
        items.unref().to_set() == all,
    ensures
        met(items, n).subset_of(all),
{
    let u = items.unref();
    assert forall|v: V| met(items, n).contains(v) implies all.contains(v) by {
        let i = choose|i: int| 0 <= i < n && 0 <= i < items.len() && *#[trigger] items[i] == v;
        assert(u[i] == v);
    }
}

/// The keys among the first `n` of `items`.
pub open spec fn met_keys<K, V>(items: Seq<(&K, &V)>, n: int) -> Set<K> {
    Set::new(
        |k: K| exists|i: int| 0 <= i < n && 0 <= i < items.len() && *(#[trigger] items[i]).0 == k,
    )
}

/// Before the first step no key has been met.
pub proof fn lemma_met_keys_none<K, V>(items: Seq<(&K, &V)>)
    ensures
        met_keys(items, 0) == Set::<K>::empty(),
{
}

/// One more step meets one more key.
pub proof fn lemma_met_keys_next<K, V>(items: Seq<(&K, &V)>, n: int)
    requires
        0 <= n < items.len(),
    ensures
        met_keys(items, n + 1) == met_keys(items, n).insert(*items[n].0),
{
    assert forall|k: K| met_keys(items, n + 1).contains(k) <==> met_keys(items, n).insert(
        *items[n].0,
    ).contains(k) by {}
}

/// Whether `items` lists each entry of `m` once and nothing else.
pub open spec fn lists_map<K, V>(items: Seq<(&K, &V)>, m: Map<K, V>) -> bool {
    &&& items.len() == m.dom().len()
    &&& forall|i: int|
        0 <= i < items.len() ==> m.contains_key(*(#[trigger] items[i]).0) && m[*items[i].0]
            == *items[i].1
    &&& forall|k: K| #[trigger] m.contains_key(k) ==> items.contains((&k, &m[k]))
    &&& items.no_duplicates()
}

/// After the last step every key has been met.
pub proof fn lemma_met_keys_all<K, V>(items: Seq<(&K, &V)>, m: Map<K, V>)
    requires
        lists_map(items, m),
    ensures
        met_keys(items, items.len() as int) == m.dom(),
{
    assert forall|k: K| met_keys(items, items.len() as int).contains(k) <==> m.dom().contains(
        k,
    ) by {}
}

/// A key that is still to come has not been met.
pub proof fn lemma_met_keys_fresh<K, V>(items: Seq<(&K, &V)>, n: int, m: Map<K, V>)
    requires
        0 <= n < items.len(),
        lists_map(items, m),
    ensures
        !met_keys(items, n).contains(*items[n].0),
{
}

} // verus!
