//! What a conversion promises, stated over what the function that
//! converts one element promises of each call.
//!
//! The function is executable and may return different values for one
//! argument, so a conversion cannot name "the" converted value. It says that
//! the result holds a value that the function may return.

use vstd::prelude::*;
use vstd::multiset::Multiset;
use crate::dafny_type::UpcastTo;

verus! {

/// Whether `f` accepts every element of `from`.
pub open spec fn accepts_each<A, B, F: Fn(&A) -> B>(f: F, from: Seq<A>) -> bool {
    forall|i: int| 0 <= i < from.len() ==> f.requires((&#[trigger] from[i],))
}

/// Whether `to` holds, at each index, a value that `f` may return for the
/// element of `from` at that index.
pub open spec fn converts_each<A, B, F: Fn(&A) -> B>(f: F, from: Seq<A>, to: Seq<B>) -> bool {
    &&& from.len() == to.len()
    &&& forall|i: int| 0 <= i < from.len() ==> f.ensures((&#[trigger] from[i],), to[i])
}

/// Whether `f` accepts every element of `from`.
pub open spec fn accepts_all<A, B, F: Fn(&A) -> B>(f: F, from: Set<A>) -> bool {
    forall|a: A| #[trigger] from.contains(a) ==> f.requires((&a,))
}

/// Whether `to` holds a value that `f` may return for `a`.
pub open spec fn has_image<A, B, F: Fn(&A) -> B>(f: F, a: A, to: Set<B>) -> bool {
    exists|b: B| to.contains(b) && #[trigger] f.ensures((&a,), b)
}

/// Whether `from` holds a value for which `f` may return `b`.
pub open spec fn has_source<A, B, F: Fn(&A) -> B>(f: F, from: Set<A>, b: B) -> bool {
    exists|a: A| from.contains(a) && #[trigger] f.ensures((&a,), b)
}

/// Whether `to` is an image of `from` under `f`: it holds, for each element
/// of `from`, a value that `f` may return for it, and nothing else.
pub open spec fn image_of<A, B, F: Fn(&A) -> B>(f: F, from: Set<A>, to: Set<B>) -> bool {
    &&& forall|a: A| from.contains(a) ==> #[trigger] has_image(f, a, to)
    &&& forall|b: B| to.contains(b) ==> #[trigger] has_source(f, from, b)
}

/// Whether `fk` accepts every key of `from` and `fv` every value.
pub open spec fn accepts_entries<K, V, K2, V2, FK: Fn(&K) -> K2, FV: Fn(&V) -> V2>(
    fk: FK,
    fv: FV,
    from: Map<K, V>,
) -> bool {
    forall|k: K| #[trigger]
        from.contains_key(k) ==> fk.requires((&k,)) && fv.requires((&from[k],))
}

/// Whether `from` has an entry whose key `fk` may turn into `k2` and whose
/// value `fv` may turn into `v2`.
pub open spec fn entry_has_source<K, V, K2, V2, FK: Fn(&K) -> K2, FV: Fn(&V) -> V2>(
    fk: FK,
    fv: FV,
    from: Map<K, V>,
    k2: K2,
    v2: V2,
) -> bool {
    exists|k: K|
        from.contains_key(k) && #[trigger] fk.ensures((&k,), k2) && fv.ensures((&from[k],), v2)
}

/// Whether `to` is an image of `from` under `fk` and `fv`: it has, for each
/// key of `from`, a key that `fk` may return for it, and each of its entries
/// comes from an entry of `from`.
pub open spec fn map_image_of<K, V, K2, V2, FK: Fn(&K) -> K2, FV: Fn(&V) -> V2>(
    fk: FK,
    fv: FV,
    from: Map<K, V>,
    to: Map<K2, V2>,
) -> bool {
    &&& forall|k: K| from.contains_key(k) ==> #[trigger] has_image(fk, k, to.dom())
    &&& forall|k2: K2|
        to.contains_key(k2) ==> #[trigger] entry_has_source(fk, fv, from, k2, to[k2])
}

/// Whether `to` holds `u` seen as a `V`.
pub open spec fn seen_as_some<U: UpcastTo<V>, V>(u: U, to: Set<V>) -> bool {
    exists|v: V| to.contains(v) && #[trigger] u.upcasts_to(&v)
}

/// Whether `v` is some element of `from` seen as a `V`.
pub open spec fn seen_from_some<U: UpcastTo<V>, V>(from: Set<U>, v: V) -> bool {
    exists|u: U| from.contains(u) && #[trigger] u.upcasts_to(&v)
}

/// Whether `to` is `from` seen as a set of `V`: it holds each element of
/// `from` seen as a `V`, and nothing else.
pub open spec fn upcast_image<U: UpcastTo<V>, V>(from: Set<U>, to: Set<V>) -> bool {
    &&& forall|u: U| from.contains(u) ==> #[trigger] seen_as_some(u, to)
    &&& forall|v: V| to.contains(v) ==> #[trigger] seen_from_some(from, v)
}

/// Whether `to` is `from` seen as a map to `V`: it has the same keys and,
/// at each, the value of `from` seen as a `V`.
pub open spec fn upcast_values<K, U: UpcastTo<V>, V>(from: Map<K, U>, to: Map<K, V>) -> bool {
    &&& to.dom() == from.dom()
    &&& forall|k: K| #[trigger] from.contains_key(k) ==> from[k].upcasts_to(&to[k])
}

/// Whether `v` is some element of `from` seen as a `V`, and that element
/// occurs `n` times.
pub open spec fn counted_from_some<U: UpcastTo<V>, V>(from: Multiset<U>, v: V, n: nat) -> bool {
    exists|u: U| from.contains(u) && #[trigger] u.upcasts_to(&v) && from.count(u) == n
}

/// Whether `to` is `from` seen as a multiset of `V`: it holds each value of
/// `from` seen as a `V`, and each of its values as often as some value of
/// `from` of which it is the image.
pub open spec fn upcast_counts<U: UpcastTo<V>, V>(from: Multiset<U>, to: Multiset<V>) -> bool {
    &&& forall|u: U| from.contains(u) ==> #[trigger] seen_as_some(u, to.dom())
    &&& forall|v: V| to.contains(v) ==> #[trigger] counted_from_some(from, v, to.count(v))
}

} // verus!
