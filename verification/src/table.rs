//! The hash maps of the routing core: `dashmap::DashMap`, held by one owner at a time.
//!
//! A table is only ever changed through an exclusive reference, so what it holds is a
//! value like any other: a map from the views of its keys to the views of its values.
use core::hash::Hash;
use dashmap::DashMap;
use vstd::prelude::*;

verus! {

/// `dashmap::DashMap`, a sharded hash map.
#[verifier::external_type_specification]
#[verifier::external_body]
#[verifier::reject_recursive_types(K)]
#[verifier::reject_recursive_types(V)]
#[verifier::reject_recursive_types(S)]
pub struct ExDashMap<K, V, S>(dashmap::DashMap<K, V, S>);

/// What a table holds, for each of the kinds of table that the library uses.
///
/// Every implementor has keys of std (integers, strings, pairs of these), which are equal
/// exactly when their views are.
pub trait Contents<K, V> {
    spec fn contents(&self) -> Map<K, V>;
}

/// `keys` lists every key of `contents` once.
pub open spec fn lists_keys<K: View, T>(keys: Seq<K>, contents: Map<K::V, T>) -> bool {
    &&& contents.dom().finite()
    &&& keys.len() == contents.dom().len()
    &&& forall|i: int| 0 <= i < keys.len() ==> contents.contains_key((#[trigger] keys[i])@)
    &&& forall|i: int, j: int|
        0 <= i < j < keys.len() ==> (#[trigger] keys[i])@ != (#[trigger] keys[j])@
    &&& forall|k: K::V| #[trigger]
        contents.contains_key(k) ==> exists|i: int|
            0 <= i < keys.len() && (#[trigger] keys[i])@ == k
}

/// `contents` is finite and has `n` keys.
pub open spec fn has_size<K, V>(contents: Map<K, V>, n: nat) -> bool {
    contents.dom().finite() && contents.dom().len() == n
}

/// `DashMap::insert`: the key now has this value, whatever it had before.
#[verifier::external_body]
pub(crate) fn table_insert<K: Eq + Hash + View, V: View>(m: &mut DashMap<K, V>, key: K, value: V)
    where DashMap<K, V>: Contents<K::V, V::V>,
    ensures
        final(m).contents() == old(m).contents().insert(key@, value@),
{
    m.insert(key, value);
}

/// `DashMap::remove`: takes the key out, and hands back the value that it had.
#[verifier::external_body]
pub(crate) fn table_remove<K: Eq + Hash + View, V: View>(m: &mut DashMap<K, V>, key: &K) -> (r:
    Option<V>)
    where DashMap<K, V>: Contents<K::V, V::V>,
    ensures
        final(m).contents() == old(m).contents().remove(key@),
        r is Some <==> old(m).contents().contains_key(key@),
        r matches Some(v) ==> v@ == old(m).contents()[key@],
{
    m.remove(key).map(|entry| entry.1)
}

/// `DashMap::view`: what `f` makes of the value under the key, or `None` without one.
#[verifier::external_body]
pub(crate) fn table_view<K: Eq + Hash + View, V: View, R, F: FnOnce(&V) -> R>(
    m: &DashMap<K, V>,
    key: &K,
    f: F,
) -> (r: Option<R>)
    where DashMap<K, V>: Contents<K::V, V::V>,
    requires
        forall|v: V| f.requires((&v,)),
    ensures
        r is Some <==> m.contents().contains_key(key@),
        r matches Some(x) ==> exists|v: V|
            v@ == m.contents()[key@] && #[trigger] f.ensures((&v,), x),
{
    m.view(key, |_key, value| f(value))
}

/// `DashMap::contains_key`.
#[verifier::external_body]
pub(crate) fn table_contains<K: Eq + Hash + View, V: View>(m: &DashMap<K, V>, key: &K) -> (r: bool)
    where DashMap<K, V>: Contents<K::V, V::V>,
    ensures
        r == m.contents().contains_key(key@),
{
    m.contains_key(key)
}

/// `DashMap::len`: how many keys the table holds.
#[verifier::external_body]
pub(crate) fn table_len<K: Eq + Hash + View, V: View>(m: &DashMap<K, V>) -> (r: usize)
    where DashMap<K, V>: Contents<K::V, V::V>,
    ensures
        has_size(m.contents(), r as nat),
{
    m.len()
}

/// `DashMap::iter`, for the keys: every key once, in an order that is not fixed.
#[verifier::external_body]
pub(crate) fn table_keys<K: Eq + Hash + View + Clone, V: View>(m: &DashMap<K, V>) -> (r: Vec<K>)
    where DashMap<K, V>: Contents<K::V, V::V>,
    ensures
        lists_keys(r@, m.contents()),
{
    m.iter().map(|entry| entry.key().clone()).collect()
}

/// `DashMap::retain`: keeps, unchanged, the entries on whose value `f` answers yes.
#[verifier::external_body]
pub(crate) fn table_retain<K: Eq + Hash + View, V: View, F: Fn(&V) -> bool>(
    m: &mut DashMap<K, V>,
    f: F,
)
    where DashMap<K, V>: Contents<K::V, V::V>,
    requires
        forall|v: V| f.requires((&v,)),
    ensures
        final(m).contents().submap_of(old(m).contents()),
        forall|k: K::V| #[trigger]
            final(m).contents().contains_key(k) ==> exists|v: V|
                v@ == old(m).contents()[k] && #[trigger] f.ensures((&v,), true),
        forall|k: K::V|
            #![trigger final(m).contents().contains_key(k)]
            old(m).contents().contains_key(k) && !final(m).contents().contains_key(k)
                ==> exists|v: V|
                v@ == old(m).contents()[k] && #[trigger] f.ensures((&v,), false),
{
    m.retain(|_key, value| f(value))
}

} // verus!
