//! The mathematical model: the sum of hashes modulo 2^64, and what it means that a
//! sequence of hashes belongs to a sequence of elements.

use vstd::prelude::*;
use vstd::seq_lib::group_to_multiset_ensures;

verus! {

/// The sum of `hashes` as a mathematical integer, without wraparound.
pub open spec fn total(hashes: Seq<u64>) -> int
    decreases hashes.len(),
{
    if hashes.len() == 0 {
        0
    } else {
        total(hashes.drop_last()) + hashes.last()
    }
}

/// The sum of `hashes` modulo 2^64: the value that stands for a collection whose
/// elements hash to `hashes`.
pub open spec fn sum_of_hashes(hashes: Seq<u64>) -> u64 {
    (total(hashes) % 0x1_0000_0000_0000_0000) as u64
}

/// `hashes` holds one hash for each element of `elements`, in the same order, and
/// `may_hash` admits each hash for its element.
///
/// `may_hash(element, hash)` says that hashing `element` may give `hash`. Nothing here
/// asks that it give one value only: see [`single_valued`].
pub open spec fn hashed_by<T>(
    elements: Seq<T>,
    may_hash: spec_fn(T, u64) -> bool,
    hashes: Seq<u64>,
) -> bool {
    &&& hashes.len() == elements.len()
    &&& forall|i: int| 0 <= i < elements.len() ==> may_hash(elements[i], #[trigger] hashes[i])
}

/// Hashing an element gives one value only: the same element always has the same hash.
pub open spec fn single_valued<T>(may_hash: spec_fn(T, u64) -> bool) -> bool {
    forall|element: T, first: u64, second: u64|
        #[trigger] may_hash(element, first) && #[trigger] may_hash(element, second) ==> first
            == second
}

/// `walk` visits each element of `elements` once, and nothing else.
pub open spec fn visits_each_once<T>(walk: Seq<T>, elements: Set<T>) -> bool {
    walk.no_duplicates() && walk.to_set() == elements
}

/// One more hash adds to the sum with wraparound.
pub proof fn lemma_sum_push(hashes: Seq<u64>, hash: u64)
    ensures
        total(hashes.push(hash)) == total(hashes) + hash,
        sum_of_hashes(hashes.push(hash)) == (sum_of_hashes(hashes) + hash)
            % 0x1_0000_0000_0000_0000,
{
    assert(hashes.push(hash).drop_last() =~= hashes);
}

/// Taking the hash at `index` out lowers the total by that hash.
pub proof fn lemma_total_remove(hashes: Seq<u64>, index: int)
    requires
        0 <= index < hashes.len(),
    ensures
        total(hashes) == total(hashes.remove(index)) + hashes[index],
    decreases hashes.len(),
{
    if index == hashes.len() - 1 {
        assert(hashes.remove(index) =~= hashes.drop_last());
    } else {
        lemma_total_remove(hashes.drop_last(), index);
        assert(hashes.remove(index).drop_last() =~= hashes.drop_last().remove(index));
        assert(hashes.remove(index).last() == hashes.last());
    }
}

/// Two sequences that hold the same hashes, each as often as the other, have the same
/// total.
pub proof fn lemma_total_ignores_order(left: Seq<u64>, right: Seq<u64>)
    requires
        left.to_multiset() == right.to_multiset(),
    ensures
        total(left) == total(right),
    decreases left.len(),
{
    broadcast use group_to_multiset_ensures;

    if left.len() == 0 {
        assert(right.to_multiset().len() == 0);
        assert(right.len() == 0);
    } else {
        let hash = left.last();
        assert(left.to_multiset().count(hash) > 0);
        assert(right.contains(hash));
        let index = choose|index: int| 0 <= index < right.len() && right[index] == hash;
        assert(left.drop_last() =~= left.remove(left.len() - 1));
        lemma_total_ignores_order(left.drop_last(), right.remove(index));
        lemma_total_remove(right, index);
    }
}

/// The sum depends only on which hashes are summed and how often, not on their order.
pub proof fn lemma_sum_ignores_order(left: Seq<u64>, right: Seq<u64>)
    requires
        left.to_multiset() == right.to_multiset(),
    ensures
        sum_of_hashes(left) == sum_of_hashes(right),
{
    lemma_total_ignores_order(left, right);
}

/// With a hash function that gives `digest(element)` and nothing else for each
/// element, the hashes of `elements` are `digest` applied to each of them.
pub proof fn lemma_hashed_by_function<T>(
    elements: Seq<T>,
    may_hash: spec_fn(T, u64) -> bool,
    hashes: Seq<u64>,
    digest: spec_fn(T) -> u64,
)
    requires
        hashed_by(elements, may_hash, hashes),
        forall|element: T, hash: u64| #[trigger] may_hash(element, hash) ==> hash == digest(element),
    ensures
        hashes == elements.map_values(digest),
{
    assert(hashes =~= elements.map_values(digest));
}

/// Applying one function to two orderings of the same elements gives the same values,
/// each as often as in the other.
pub proof fn lemma_images_of_reordering<T, B>(left: Seq<T>, right: Seq<T>, image: spec_fn(T) -> B)
    requires
        left.to_multiset() == right.to_multiset(),
    ensures
        left.map_values(image).to_multiset() == right.map_values(image).to_multiset(),
    decreases left.len(),
{
    broadcast use group_to_multiset_ensures;

    let left_images = left.map_values(image);
    let right_images = right.map_values(image);
    if left.len() == 0 {
        assert(right.to_multiset().len() == 0);
        assert(left_images =~= right_images);
    } else {
        let last = left.len() - 1;
        assert(left.to_multiset().count(left[last]) > 0);
        assert(right.contains(left[last]));
        let index = choose|index: int| 0 <= index < right.len() && right[index] == left[last];
        lemma_images_of_reordering(left.remove(last), right.remove(index), image);
        assert(left_images.remove(last) =~= left.remove(last).map_values(image));
        assert(right_images.remove(index) =~= right.remove(index).map_values(image));
        assert(left_images.to_multiset() =~= left_images.remove(last).to_multiset().insert(
            left_images[last],
        ));
        assert(right_images.to_multiset() =~= right_images.remove(index).to_multiset().insert(
            right_images[index],
        ));
    }
}

/// Where a function gives different values for different elements, two sequences
/// whose values are the same, each as often as in the other, hold the same elements,
/// each as often as the other.
pub proof fn lemma_reordering_of_images<T, B>(left: Seq<T>, right: Seq<T>, image: spec_fn(T) -> B)
    requires
        forall|first: T, second: T| #[trigger]
            image(first) == #[trigger] image(second) ==> first == second,
        left.map_values(image).to_multiset() == right.map_values(image).to_multiset(),
    ensures
        left.to_multiset() == right.to_multiset(),
    decreases left.len(),
{
    broadcast use group_to_multiset_ensures;

    let left_images = left.map_values(image);
    let right_images = right.map_values(image);
    if left.len() == 0 {
        assert(right_images.to_multiset().len() == 0);
        assert(left =~= right);
    } else {
        let last = left.len() - 1;
        assert(left_images.to_multiset().count(left_images[last]) > 0);
        assert(right_images.contains(left_images[last]));
        let index = choose|index: int|
            0 <= index < right_images.len() && right_images[index] == left_images[last];
        assert(image(right[index]) == image(left[last]));
        assert(left_images.remove(last) =~= left.remove(last).map_values(image));
        assert(right_images.remove(index) =~= right.remove(index).map_values(image));
        lemma_reordering_of_images(left.remove(last), right.remove(index), image);
        assert(left.to_multiset() =~= left.remove(last).to_multiset().insert(left[last]));
        assert(right.to_multiset() =~= right.remove(index).to_multiset().insert(right[index]));
    }
}

} // verus!
