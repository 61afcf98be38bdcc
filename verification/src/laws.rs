//! What the order-independent sum promises: the same elements give the same sum, in
//! whatever order and from whatever kind of collection they come.
//!
//! The laws come twice. First on the model: a collection is the sequence in which its
//! elements are visited, and the hashing of one element is the relation `may_hash`, as
//! in [`hashed_by`](crate::model::hashed_by). Then on what the hashing functions write:
//! the sums that [`sums_to`](crate::combine::sums_to) admits for a collection.
//!
//! The laws that compare two sums ask that the hashing of an element be
//! [`single_valued`](crate::model::single_valued): with a hasher that gives the same
//! element another hash at another time, no sum of hashes can be relied on.

use crate::combine::{hashes_with, sums_to};
use crate::context::BuildHasherFromFriend;
use crate::elements::Elements;
use crate::model::{
    hashed_by, lemma_hashed_by_function, lemma_images_of_reordering, lemma_reordering_of_images,
    lemma_sum_ignores_order, lemma_sum_push,
    single_valued, sum_of_hashes, visits_each_once,
};
use std::collections::{BTreeMap, BTreeSet, HashMap, HashSet, VecDeque};
use std::hash::Hash;
use vstd::prelude::*;
use vstd::seq_lib::group_to_multiset_ensures;
use vstd::std_specs::btree::key_obeys_cmp_spec;
use vstd::std_specs::hash::{builds_valid_hashers, obeys_key_model};

verus! {

/// Two walks over the same set of elements, each visiting every element once, hold the
/// same elements, each as often as the other.
pub proof fn lemma_walks_of_one_set<T>(left: Seq<T>, right: Seq<T>, elements: Set<T>)
    requires
        visits_each_once(left, elements),
        visits_each_once(right, elements),
    ensures
        left.to_multiset() == right.to_multiset(),
{
    broadcast use group_to_multiset_ensures;

    left.lemma_multiset_has_no_duplicates();
    right.lemma_multiset_has_no_duplicates();
    assert forall|element: T| left.to_multiset().count(element) == right.to_multiset().count(
        element,
    ) by {
        assert(left.contains(element) == left.to_set().contains(element));
        assert(right.contains(element) == right.to_set().contains(element));
    }
    assert(left.to_multiset() =~= right.to_multiset());
}

/// Permutation invariance: two collections that hold the same elements, each as often
/// as the other, have the same sum of hashes, whatever the order in which each is
/// visited.
pub proof fn lemma_permutation_invariance<T>(
    left: Seq<T>,
    right: Seq<T>,
    may_hash: spec_fn(T, u64) -> bool,
    left_hashes: Seq<u64>,
    right_hashes: Seq<u64>,
)
    requires
        left.to_multiset() == right.to_multiset(),
        single_valued(may_hash),
        hashed_by(left, may_hash, left_hashes),
        hashed_by(right, may_hash, right_hashes),
    ensures
        sum_of_hashes(left_hashes) == sum_of_hashes(right_hashes),
{
    let digest = |element: T| choose|hash: u64| #[trigger] may_hash(element, hash);
    lemma_hashed_by_function(left, may_hash, left_hashes, digest);
    lemma_hashed_by_function(right, may_hash, right_hashes, digest);
    lemma_images_of_reordering(left, right, digest);
    lemma_sum_ignores_order(left_hashes, right_hashes);
}

/// Consistency across kinds of collection: a map and the set of its key-value pairs
/// have the same sum of hashes, each visited once per element in an order of its own.
pub proof fn lemma_map_and_set_agree<K, V>(
    map: Map<K, V>,
    set: Set<(K, V)>,
    map_walk: Seq<(K, V)>,
    set_walk: Seq<(K, V)>,
    may_hash: spec_fn((K, V), u64) -> bool,
    map_hashes: Seq<u64>,
    set_hashes: Seq<u64>,
)
    requires
        set == map.kv_pairs(),
        visits_each_once(map_walk, map.kv_pairs()),
        visits_each_once(set_walk, set),
        single_valued(may_hash),
        hashed_by(map_walk, may_hash, map_hashes),
        hashed_by(set_walk, may_hash, set_hashes),
    ensures
        sum_of_hashes(map_hashes) == sum_of_hashes(set_hashes),
{
    lemma_walks_of_one_set(map_walk, set_walk, set);
    lemma_permutation_invariance(map_walk, set_walk, may_hash, map_hashes, set_hashes);
}

/// The empty collection: with no element to hash the sum is zero, whatever the hashing
/// of an element would give.
pub proof fn lemma_empty_collection<T>(
    walk: Seq<T>,
    may_hash: spec_fn(T, u64) -> bool,
    hashes: Seq<u64>,
)
    requires
        walk.len() == 0,
        hashed_by(walk, may_hash, hashes),
    ensures
        sum_of_hashes(hashes) == 0,
{
}

/// Determinism: hashing the same collection again, visited in the same order, gives
/// the same sum.
pub proof fn lemma_determinism<T>(
    walk: Seq<T>,
    may_hash: spec_fn(T, u64) -> bool,
    first: Seq<u64>,
    second: Seq<u64>,
)
    requires
        single_valued(may_hash),
        hashed_by(walk, may_hash, first),
        hashed_by(walk, may_hash, second),
    ensures
        sum_of_hashes(first) == sum_of_hashes(second),
{
    assert(first =~= second);
}

/// One changed element: where `right` holds what `left` holds but for one `added` in the
/// place of one `removed`, its sum is that of `left` changed by the difference of the two
/// hashes, with wraparound. The two sums are the same when the two hashes are, and
/// only then.
pub proof fn lemma_one_changed_element<T>(
    left: Seq<T>,
    right: Seq<T>,
    may_hash: spec_fn(T, u64) -> bool,
    left_hashes: Seq<u64>,
    right_hashes: Seq<u64>,
    removed: T,
    added: T,
    removed_hash: u64,
    added_hash: u64,
)
    requires
        left.to_multiset().insert(added) == right.to_multiset().insert(removed),
        single_valued(may_hash),
        hashed_by(left, may_hash, left_hashes),
        hashed_by(right, may_hash, right_hashes),
        may_hash(removed, removed_hash),
        may_hash(added, added_hash),
    ensures
        sum_of_hashes(right_hashes) == (sum_of_hashes(left_hashes) - removed_hash + added_hash)
            % 0x1_0000_0000_0000_0000,
        sum_of_hashes(right_hashes) == sum_of_hashes(left_hashes) <==> removed_hash == added_hash,
{
    broadcast use group_to_multiset_ensures;

    lemma_permutation_invariance(
        left.push(added),
        right.push(removed),
        may_hash,
        left_hashes.push(added_hash),
        right_hashes.push(removed_hash),
    );
    lemma_sum_push(left_hashes, added_hash);
    lemma_sum_push(right_hashes, removed_hash);
    let before = sum_of_hashes(left_hashes);
    let after = sum_of_hashes(right_hashes);
    assert(after == (before - removed_hash + added_hash) % 0x1_0000_0000_0000_0000 && (after == before
        <==> removed_hash == added_hash)) by (nonlinear_arith)
        requires
            (before + added_hash) % 0x1_0000_0000_0000_0000 == (after + removed_hash)
                % 0x1_0000_0000_0000_0000,
            0 <= before < 0x1_0000_0000_0000_0000,
            0 <= after < 0x1_0000_0000_0000_0000,
            0 <= removed_hash < 0x1_0000_0000_0000_0000,
            0 <= added_hash < 0x1_0000_0000_0000_0000,
    ;
}

/// Every walk over `left` and every walk over `right` hold the same elements, each as
/// often as the other.
pub open spec fn same_elements<'a, C>(left: &'a C, right: &'a C) -> bool
    where
        for <'c>&'c C: Elements,
{
    forall|left_walk: Seq<<&'a C as Elements>::Item>, right_walk: Seq<<&'a C as Elements>::Item>|
        #[trigger] left.may_yield(left_walk) && #[trigger] right.may_yield(right_walk)
            ==> left_walk.to_multiset() == right_walk.to_multiset()
}

/// An element has one hash only, whichever of the two collections is the peer from
/// which `BH` builds the hasher.
pub open spec fn hash_alike<'a, C, BH>(left: &'a C, right: &'a C) -> bool
    where
        for <'c>&'c C: Elements,
        BH: BuildHasherFromFriend<C>,
{
    single_valued(
        |element: <&'a C as Elements>::Item, hash: u64|
            hashes_with::<C, BH, <&'a C as Elements>::Item>(left)(element, hash) || hashes_with::<
                C,
                BH,
                <&'a C as Elements>::Item,
            >(right)(element, hash),
    )
}

/// Permutation invariance of what is written: two collections that hold the same
/// elements, and for which an element has one hash only, have the same
/// order-independent sum.
pub proof fn lemma_same_elements_same_sum<'a, C, BH>(
    left: &'a C,
    right: &'a C,
    left_sum: u64,
    right_sum: u64,
)
    where
        for <'c>&'c C: Elements,
        BH: BuildHasherFromFriend<C>,
    requires
        same_elements(left, right),
        hash_alike::<C, BH>(left, right),
        sums_to::<C, BH>(left, left_sum),
        sums_to::<C, BH>(right, right_sum),
    ensures
        left_sum == right_sum,
{
    let (left_walk, left_hashes) = choose|
        walk: Seq<<&'a C as Elements>::Item>,
        hashes: Seq<u64>,
    |
        left.may_yield(walk) && hashed_by(
            walk,
            hashes_with::<C, BH, <&'a C as Elements>::Item>(left),
            hashes,
        ) && left_sum == sum_of_hashes(hashes);
    let (right_walk, right_hashes) = choose|
        walk: Seq<<&'a C as Elements>::Item>,
        hashes: Seq<u64>,
    |
        right.may_yield(walk) && hashed_by(
            walk,
            hashes_with::<C, BH, <&'a C as Elements>::Item>(right),
            hashes,
        ) && right_sum == sum_of_hashes(hashes);
    let either = |element: <&'a C as Elements>::Item, hash: u64|
        hashes_with::<C, BH, <&'a C as Elements>::Item>(left)(element, hash) || hashes_with::<
            C,
            BH,
            <&'a C as Elements>::Item,
        >(right)(element, hash);
    assert(hashed_by(left_walk, either, left_hashes));
    assert(hashed_by(right_walk, either, right_hashes));
    lemma_permutation_invariance(left_walk, right_walk, either, left_hashes, right_hashes);
}

/// Determinism of what is written: a collection whose walks all hold the same
/// elements, and for which an element has one hash only, has one order-independent sum.
pub proof fn lemma_one_sum<'a, C, BH>(collection: &'a C, first: u64, second: u64)
    where
        for <'c>&'c C: Elements,
        BH: BuildHasherFromFriend<C>,
    requires
        same_elements(collection, collection),
        single_valued(hashes_with::<C, BH, <&'a C as Elements>::Item>(collection)),
        sums_to::<C, BH>(collection, first),
        sums_to::<C, BH>(collection, second),
    ensures
        first == second,
{
    lemma_same_elements_same_sum::<C, BH>(collection, collection, first, second);
}

/// The empty collection, as what is written: a collection whose walks yield nothing
/// has the order-independent sum zero.
pub proof fn lemma_no_elements_no_sum<'a, C, BH>(collection: &'a C, sum: u64)
    where
        for <'c>&'c C: Elements,
        BH: BuildHasherFromFriend<C>,
    requires
        forall|walk: Seq<<&'a C as Elements>::Item>| #[trigger]
            collection.may_yield(walk) ==> walk.len() == 0,
        sums_to::<C, BH>(collection, sum),
    ensures
        sum == 0,
{
}

/// A pair has one hash only, whether it is hashed as an entry of `map`, with `BM` to
/// build the hasher, or as a member of `set`, with `BS` to build it.
pub open spec fn pairs_hash_alike<K: Hash, V: Hash, S, R, BM, BS>(
    map: &HashMap<K, V, S>,
    set: &HashSet<(K, V), R>,
) -> bool
    where
        BM: BuildHasherFromFriend<HashMap<K, V, S>>,
        BS: BuildHasherFromFriend<HashSet<(K, V), R>>,
{
    single_valued(
        |pair: (K, V), hash: u64|
            hashes_with::<HashMap<K, V, S>, BM, (&K, &V)>(map)((&pair.0, &pair.1), hash)
                || hashes_with::<HashSet<(K, V), R>, BS, &(K, V)>(set)(&pair, hash),
    )
}

/// Consistency across kinds of collection, as what is written: a hash map and the hash
/// set of its key-value pairs have the same order-independent sum, where a pair has
/// one hash only.
pub proof fn lemma_map_and_set_same_sum<K: Hash, V: Hash, S, R, BM, BS>(
    map: &HashMap<K, V, S>,
    set: &HashSet<(K, V), R>,
    map_sum: u64,
    set_sum: u64,
)
    where
        BM: BuildHasherFromFriend<HashMap<K, V, S>>,
        BS: BuildHasherFromFriend<HashSet<(K, V), R>>,
    requires
        obeys_key_model::<K>(),
        builds_valid_hashers::<S>(),
        obeys_key_model::<(K, V)>(),
        builds_valid_hashers::<R>(),
        set@ == map@.kv_pairs(),
        pairs_hash_alike::<K, V, S, R, BM, BS>(map, set),
        sums_to::<HashMap<K, V, S>, BM>(map, map_sum),
        sums_to::<HashSet<(K, V), R>, BS>(set, set_sum),
    ensures
        map_sum == set_sum,
{
    let (map_walk, map_hashes) = choose|walk: Seq<(&K, &V)>, hashes: Seq<u64>|
        map.may_yield(walk) && hashed_by(
            walk,
            hashes_with::<HashMap<K, V, S>, BM, (&K, &V)>(map),
            hashes,
        ) && map_sum == sum_of_hashes(hashes);
    let (set_walk, set_hashes) = choose|walk: Seq<&(K, V)>, hashes: Seq<u64>|
        set.may_yield(walk) && hashed_by(
            walk,
            hashes_with::<HashSet<(K, V), R>, BS, &(K, V)>(set),
            hashes,
        ) && set_sum == sum_of_hashes(hashes);
    let either = |pair: (K, V), hash: u64|
        hashes_with::<HashMap<K, V, S>, BM, (&K, &V)>(map)((&pair.0, &pair.1), hash)
            || hashes_with::<HashSet<(K, V), R>, BS, &(K, V)>(set)(&pair, hash);
    assert(hashed_by(map_walk.unref(), either, map_hashes)) by {
        assert forall|i: int| 0 <= i < map_walk.len() implies either(
            map_walk.unref()[i],
            #[trigger] map_hashes[i],
        ) by {
            assert((&map_walk.unref()[i].0, &map_walk.unref()[i].1) == map_walk[i]);
        }
    }
    assert(hashed_by(set_walk.unref(), either, set_hashes)) by {
        assert forall|i: int| 0 <= i < set_walk.len() implies either(
            set_walk.unref()[i],
            #[trigger] set_hashes[i],
        ) by {
            assert(&set_walk.unref()[i] == set_walk[i]);
        }
    }
    lemma_map_and_set_agree(
        map@,
        set@,
        map_walk.unref(),
        set_walk.unref(),
        either,
        map_hashes,
        set_hashes,
    );
}

/// Two walks that yield references hold the same references, each as often as the
/// other, where what they refer to is each element of one set once.
pub proof fn lemma_walks_of_references<T>(left: Seq<&T>, right: Seq<&T>, elements: Set<T>)
    requires
        visits_each_once(left.unref(), elements),
        visits_each_once(right.unref(), elements),
    ensures
        left.to_multiset() == right.to_multiset(),
{
    let target = |reference: &T| *reference;
    assert(left.map_values(target) =~= left.unref());
    assert(right.map_values(target) =~= right.unref());
    lemma_walks_of_one_set(left.unref(), right.unref(), elements);
    lemma_reordering_of_images(left, right, target);
}

/// Two walks that yield pairs of references hold the same pairs, each as often as the
/// other, where what they refer to is each pair of one set once.
pub proof fn lemma_walks_of_reference_pairs<K, V>(
    left: Seq<(&K, &V)>,
    right: Seq<(&K, &V)>,
    pairs: Set<(K, V)>,
)
    requires
        visits_each_once(left.unref(), pairs),
        visits_each_once(right.unref(), pairs),
    ensures
        left.to_multiset() == right.to_multiset(),
{
    let target = |pair: (&K, &V)| (*pair.0, *pair.1);
    assert(left.map_values(target) =~= left.unref());
    assert(right.map_values(target) =~= right.unref());
    lemma_walks_of_one_set(left.unref(), right.unref(), pairs);
    lemma_reordering_of_images(left, right, target);
}

/// Two vectors that hold the same elements, each as often as the other, are walked
/// over the same elements.
pub proof fn lemma_vectors_of_same_elements<T: Hash>(left: &Vec<T>, right: &Vec<T>)
    requires
        left@.to_multiset() == right@.to_multiset(),
    ensures
        same_elements(left, right),
{
    let reference = |element: T| &element;
    assert(left@.as_ref() =~= left@.map_values(reference));
    assert(right@.as_ref() =~= right@.map_values(reference));
    lemma_images_of_reordering(left@, right@, reference);
}

/// Two queues that hold the same elements, each as often as the other, are walked over
/// the same elements.
pub proof fn lemma_queues_of_same_elements<T: Hash>(left: &VecDeque<T>, right: &VecDeque<T>)
    requires
        left@.to_multiset() == right@.to_multiset(),
    ensures
        same_elements(left, right),
{
    let reference = |element: T| &element;
    assert(left@.as_ref() =~= left@.map_values(reference));
    assert(right@.as_ref() =~= right@.map_values(reference));
    lemma_images_of_reordering(left@, right@, reference);
}

/// Two hash sets with the same members are walked over the same elements, in whatever
/// order each was filled.
pub proof fn lemma_hash_sets_of_same_elements<T: Hash, S>(left: &HashSet<T, S>, right: &HashSet<T, S>)
    requires
        obeys_key_model::<T>(),
        builds_valid_hashers::<S>(),
        left@ == right@,
    ensures
        same_elements(left, right),
{
    assert forall|left_walk: Seq<&T>, right_walk: Seq<&T>| #[trigger]
        left.may_yield(left_walk) && #[trigger] right.may_yield(
            right_walk,
        ) implies left_walk.to_multiset() == right_walk.to_multiset() by {
        lemma_walks_of_references(left_walk, right_walk, left@);
    }
}

/// Two hash maps with the same entries are walked over the same elements, in whatever
/// order each was filled.
pub proof fn lemma_hash_maps_of_same_elements<K: Hash, V: Hash, S>(
    left: &HashMap<K, V, S>,
    right: &HashMap<K, V, S>,
)
    requires
        obeys_key_model::<K>(),
        builds_valid_hashers::<S>(),
        left@ == right@,
    ensures
        same_elements(left, right),
{
    assert forall|left_walk: Seq<(&K, &V)>, right_walk: Seq<(&K, &V)>| #[trigger]
        left.may_yield(left_walk) && #[trigger] right.may_yield(
            right_walk,
        ) implies left_walk.to_multiset() == right_walk.to_multiset() by {
        lemma_walks_of_reference_pairs(left_walk, right_walk, left@.kv_pairs());
    }
}

/// Two ordered sets with the same members are walked over the same elements.
pub proof fn lemma_ordered_sets_of_same_elements<T: Hash>(left: &BTreeSet<T>, right: &BTreeSet<T>)
    requires
        key_obeys_cmp_spec::<T>(),
        left@ == right@,
    ensures
        same_elements(left, right),
{
    assert forall|left_walk: Seq<&T>, right_walk: Seq<&T>| #[trigger]
        left.may_yield(left_walk) && #[trigger] right.may_yield(
            right_walk,
        ) implies left_walk.to_multiset() == right_walk.to_multiset() by {
        lemma_walks_of_references(left_walk, right_walk, left@);
    }
}

/// Two ordered maps with the same entries are walked over the same elements.
pub proof fn lemma_ordered_maps_of_same_elements<K: Hash, V: Hash>(
    left: &BTreeMap<K, V>,
    right: &BTreeMap<K, V>,
)
    requires
        key_obeys_cmp_spec::<K>(),
        left@ == right@,
    ensures
        same_elements(left, right),
{
    assert forall|left_walk: Seq<(&K, &V)>, right_walk: Seq<(&K, &V)>| #[trigger]
        left.may_yield(left_walk) && #[trigger] right.may_yield(
            right_walk,
        ) implies left_walk.to_multiset() == right_walk.to_multiset() by {
        lemma_walks_of_reference_pairs(left_walk, right_walk, left@.kv_pairs());
    }
}

} // verus!
