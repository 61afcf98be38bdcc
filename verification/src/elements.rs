//! Collections whose elements can be visited and hashed one by one.

use crate::model::visits_each_once;
use std::collections::{
    btree_map, btree_set, hash_map, hash_set, vec_deque, BTreeMap, BTreeSet, HashMap, HashSet,
    VecDeque,
};
use std::hash::Hash;
use vstd::prelude::*;
use vstd::std_specs::btree::key_obeys_cmp_spec;
use vstd::std_specs::hash::{builds_valid_hashers, obeys_key_model};
use vstd::std_specs::iter::IteratorSpec;

verus! {

/// A reference to a collection: it can be walked, the walk ends, and each element that
/// it yields can be hashed.
pub trait Elements {
    /// What the walk yields
    type Item: Hash;

    /// The walk itself
    type Walk: Iterator<Item = Self::Item>;

    /// Whether a walk over the collection may yield `walk`, element by element.
    spec fn may_yield(self, walk: Seq<Self::Item>) -> bool;

    /// Starts a walk over the elements of the collection.
    fn elements(self) -> (iter: Self::Walk)
        ensures
            iter.obeys_prophetic_iter_laws(),
            iter.decrease() is Some,
            self.may_yield(iter.remaining()),
    ;
}

/// A vector yields its elements from first to last.
impl<'c, T: Hash> Elements for &'c Vec<T> {
    type Item = &'c T;

    type Walk = std::slice::Iter<'c, T>;

    open spec fn may_yield(self, walk: Seq<&'c T>) -> bool {
        walk == self@.as_ref()
    }

    fn elements(self) -> (iter: Self::Walk) {
        self.into_iter()
    }
}

/// An array yields its elements from first to last.
impl<'c, T: Hash, const N: usize> Elements for &'c [T; N] {
    type Item = &'c T;

    type Walk = std::slice::Iter<'c, T>;

    open spec fn may_yield(self, walk: Seq<&'c T>) -> bool {
        walk == self@.as_ref()
    }

    fn elements(self) -> (iter: Self::Walk) {
        self.as_slice().iter()
    }
}

/// A double-ended queue yields its elements from front to back.
impl<'c, T: Hash> Elements for &'c VecDeque<T> {
    type Item = &'c T;

    type Walk = vec_deque::Iter<'c, T>;

    open spec fn may_yield(self, walk: Seq<&'c T>) -> bool {
        walk == self@.as_ref()
    }

    fn elements(self) -> (iter: Self::Walk) {
        self.iter()
    }
}

/// A hash map yields each of its entries once, in an order of its own. This is stated
/// for keys and hashers that behave as a hash map needs them to, as the view of a
/// `HashMap` is.
impl<'c, K: Hash, V: Hash, S> Elements for &'c HashMap<K, V, S> {
    type Item = (&'c K, &'c V);

    type Walk = hash_map::Iter<'c, K, V>;

    open spec fn may_yield(self, walk: Seq<(&'c K, &'c V)>) -> bool {
        obeys_key_model::<K>() && builds_valid_hashers::<S>() ==> visits_each_once(
            walk.unref(),
            self@.kv_pairs(),
        )
    }

    fn elements(self) -> (iter: Self::Walk) {
        walk_map(self)
    }
}

/// A hash set yields each of its members once, in an order of its own. This is stated
/// for members and hashers that behave as a hash set needs them to, as the view of a
/// `HashSet` is.
impl<'c, T: Hash, S> Elements for &'c HashSet<T, S> {
    type Item = &'c T;

    type Walk = hash_set::Iter<'c, T>;

    open spec fn may_yield(self, walk: Seq<&'c T>) -> bool {
        obeys_key_model::<T>() && builds_valid_hashers::<S>() ==> visits_each_once(
            walk.unref(),
            self@,
        )
    }

    fn elements(self) -> (iter: Self::Walk) {
        walk_set(self)
    }
}

/// An ordered map yields each of its entries once. This is stated for keys whose order
/// behaves as an ordered map needs it to, as the view of a `BTreeMap` is.
impl<'c, K: Hash, V: Hash> Elements for &'c BTreeMap<K, V> {
    type Item = (&'c K, &'c V);

    type Walk = btree_map::Iter<'c, K, V>;

    open spec fn may_yield(self, walk: Seq<(&'c K, &'c V)>) -> bool {
        key_obeys_cmp_spec::<K>() ==> visits_each_once(walk.unref(), self@.kv_pairs())
    }

    fn elements(self) -> (iter: Self::Walk) {
        walk_ordered_map(self)
    }
}

/// An ordered set yields each of its members once. This is stated for members whose
/// order behaves as an ordered set needs it to, as the view of a `BTreeSet` is.
impl<'c, T: Hash> Elements for &'c BTreeSet<T> {
    type Item = &'c T;

    type Walk = btree_set::Iter<'c, T>;

    open spec fn may_yield(self, walk: Seq<&'c T>) -> bool {
        key_obeys_cmp_spec::<T>() ==> visits_each_once(walk.unref(), self@)
    }

    fn elements(self) -> (iter: Self::Walk) {
        walk_ordered_set(self)
    }
}

/// `HashMap::iter`, which a walk over a reference to a `HashMap` is. The walk ends,
/// whatever the keys and the hasher are like: the iterator has a measure that every
/// step lowers. The rest is what is already stated of `HashMap::iter` itself: the
/// result is one that it may return for `map`.
#[verifier::external_body]
fn walk_map<'c, K, V, S>(map: &'c HashMap<K, V, S>) -> (iter: hash_map::Iter<'c, K, V>)
    ensures
        iter.decrease() is Some,
        call_ensures(HashMap::<K, V, S>::iter, (map,), iter),
{
    map.iter()
}

/// `HashSet::iter`, which a walk over a reference to a `HashSet` is. The walk ends,
/// whatever the members and the hasher are like: the iterator has a measure that every
/// step lowers. The rest is what is already stated of `HashSet::iter` itself: the
/// result is one that it may return for `set`.
#[verifier::external_body]
fn walk_set<'c, T, S>(set: &'c HashSet<T, S>) -> (iter: hash_set::Iter<'c, T>)
    ensures
        iter.decrease() is Some,
        call_ensures(HashSet::<T, S>::iter, (set,), iter),
{
    set.iter()
}

/// `BTreeMap::iter`, which a walk over a reference to a `BTreeMap` is. The walk ends,
/// whatever the order of the keys is like: the iterator has a measure that every step
/// lowers. The rest is what is already stated of `BTreeMap::iter` itself: the result is
/// one that it may return for `map`.
#[verifier::external_body]
fn walk_ordered_map<'c, K, V>(map: &'c BTreeMap<K, V>) -> (iter: btree_map::Iter<'c, K, V>)
    ensures
        iter.decrease() is Some,
        call_ensures(BTreeMap::<K, V>::iter, (map,), iter),
{
    map.iter()
}

/// `BTreeSet::iter`, which a walk over a reference to a `BTreeSet` is. The walk ends,
/// whatever the order of the members is like: the iterator has a measure that every
/// step lowers. The rest is what is already stated of `BTreeSet::iter` itself: the
/// result is one that it may return for `set`.
#[verifier::external_body]
fn walk_ordered_set<'c, T>(set: &'c BTreeSet<T>) -> (iter: btree_set::Iter<'c, T>)
    ensures
        iter.decrease() is Some,
        call_ensures(BTreeSet::<T>::iter, (set,), iter),
{
    set.iter()
}

} // verus!
