//! The combiner: hashes each element of a collection on its own and adds the hashes up
//! with wraparound, so that the order of the elements does not matter.

use crate::context::{BuildHasherFromFriend, UseDefaultHasher};
use crate::elements::Elements;
use crate::model::{hashed_by, lemma_sum_push, sum_of_hashes};
use std::hash::{Hash, Hasher};
use vstd::prelude::*;
use vstd::std_specs::iter::IteratorSpec;

verus! {

/// What a call of `hash` may return: `value` for `element`.
pub open spec fn results_of<T, F: Fn(T) -> u64>(hash: F) -> spec_fn(T, u64) -> bool {
    |element: T, value: u64| call_ensures(hash, (element,), value)
}

/// What [`hash_element`] may return with `friend` as the peer and `BH` to build the
/// hasher: `value` for `element`.
pub open spec fn hashes_with<F, BH: BuildHasherFromFriend<F>, T: Hash>(friend: &F) -> spec_fn(
    T,
    u64,
) -> bool {
    |element: T, value: u64| call_ensures(hash_element::<F, BH, T>, (friend, element), value)
}

/// Adds up, with wraparound, the hashes that `hash` gives for the elements that
/// `elements` yields, one call of `hash` per element.
///
/// The walk must be one that ends.
pub fn sum_hashes<I, F>(elements: I, hash: F) -> (sum: u64)
    where
        I: Iterator,
        F: Fn(I::Item) -> u64,
    requires
        elements.obeys_prophetic_iter_laws(),
        elements.decrease() is Some,
        forall|i: int|
            0 <= i < elements.remaining().len() ==> call_requires(
                hash,
                (#[trigger] elements.remaining()[i],),
            ),
    ensures
        exists|hashes: Seq<u64>|
            hashed_by(elements.remaining(), results_of(hash), hashes) && sum == sum_of_hashes(
                hashes,
            ),
        elements.remaining().len() == 0 ==> sum == 0,
{
    let mut walk = elements;
    let mut sum: u64 = 0;
    let ghost mut hashes: Seq<u64> = Seq::empty();
    loop
        invariant
            walk.obeys_prophetic_iter_laws(),
            walk.decrease() is Some,
            hashes.len() + walk.remaining().len() == elements.remaining().len(),
            forall|i: int|
                0 <= i < walk.remaining().len() ==> walk.remaining()[i]
                    == elements.remaining()[hashes.len() + i],
            forall|i: int|
                0 <= i < elements.remaining().len() ==> call_requires(
                    hash,
                    (#[trigger] elements.remaining()[i],),
                ),
            forall|i: int|
                0 <= i < hashes.len() ==> call_ensures(
                    hash,
                    (elements.remaining()[i],),
                    #[trigger] hashes[i],
                ),
            sum == sum_of_hashes(hashes),
        ensures
            hashed_by(elements.remaining(), results_of(hash), hashes),
            sum == sum_of_hashes(hashes),
        decreases walk.decrease()->0,
    {
        match walk.next() {
            Some(element) => {
                assert(element == elements.remaining()[hashes.len() as int]);
                let value = hash(element);
                proof {
                    lemma_sum_push(hashes, value);
                    hashes = hashes.push(value);
                }
                sum = sum.wrapping_add(value);
            },
            None => {
                break ;
            },
        }
    }
    sum
}

/// `sum` is an order-independent sum for `collection`: the sum, with wraparound, of
/// one hash for each element of a walk that the collection may yield, each hash a value
/// that [`hash_element`] may return for its element with the collection as the peer.
pub open spec fn sums_to<'a, C, BH>(collection: &'a C, sum: u64) -> bool
    where
        for <'c>&'c C: Elements,
        BH: BuildHasherFromFriend<C>,
{
    exists|walk: Seq<<&'a C as Elements>::Item>, hashes: Seq<u64>|
        collection.may_yield(walk) && hashed_by(
            walk,
            hashes_with::<C, BH, <&'a C as Elements>::Item>(collection),
            hashes,
        ) && sum == sum_of_hashes(hashes)
}

/// Feeding `element` into the hasher behind `hasher`, as `Hash::hash` does, may take
/// it from the value that the reference holds now to the value that it holds in the
/// end.
pub closed spec fn feeds<T: Hash, H: Hasher>(element: &T, hasher: &mut H) -> bool {
    call_ensures(feed::<T, H>, (element, hasher), ())
}

/// `hash` is a value that `Hasher::finish` may return for `hasher`.
pub closed spec fn finishes<H: Hasher>(hasher: &H, hash: u64) -> bool {
    call_ensures(finish::<H>, (hasher,), hash)
}

/// Writing `value` into the hasher behind `state`, as `Hasher::write_u64` does, may
/// take it from the value that the reference holds now to the value that it holds in
/// the end.
pub closed spec fn writes<H: Hasher>(state: &mut H, value: u64) -> bool {
    call_ensures(write_u64::<H>, (state, value), ())
}

/// Implements hashing by summing the hashes of each element. A new `DefaultHasher`
/// is created for each element, its result added to the total calculation.
///
/// One value is written into `state`: an order-independent sum for `collection`, with
/// `UseDefaultHasher` to build the hasher of each element.
pub fn hash_by_summing_hashes<C, H>(collection: &C, state: &mut H)
    where
        for <'c>&'c C: Elements,
        H: Hasher,
    ensures
        exists|sum: u64, handed: &mut H|
            sums_to::<C, UseDefaultHasher>(collection, sum) && mut_ref_current(handed) == *old(
                state,
            ) && mut_ref_future(handed) == *final(state) && #[trigger] writes(handed, sum),
{
    hash_by_summing_hashes_with::<C, H, UseDefaultHasher>(collection, state)
}

/// The main function implementing hashing by summing the hashes of each element,
/// with a means of specifying which kind of hasher is created per element via the `BH`
/// parameter.
///
/// One value is written into `state`: an order-independent sum for `collection`, with
/// `BH` to build the hasher of each element.
pub fn hash_by_summing_hashes_with<C, H, BH>(collection: &C, state: &mut H)
    where
        for <'c>&'c C: Elements,
        BH: BuildHasherFromFriend<C>,
        H: Hasher,
    ensures
        exists|sum: u64, handed: &mut H|
            sums_to::<C, BH>(collection, sum) && mut_ref_current(handed) == *old(state)
                && mut_ref_future(handed) == *final(state) && #[trigger] writes(handed, sum),
{
    let sum = sum_element_hashes::<C, BH>(collection);
    write_u64(state, sum);
    proof {
        assert forall|handed: &mut H, value: u64| #[trigger]
            call_ensures(write_u64::<H>, (handed, value), ()) implies writes(handed, value) by {}
    }
}

/// The order-independent sum for `collection`: the sum, with wraparound, of one hash
/// for each element that a walk over the collection yields, each hash taken by
/// [`hash_element`] with the collection as the peer.
pub fn sum_element_hashes<'a, C, BH>(collection: &'a C) -> (sum: u64)
    where
        for <'c>&'c C: Elements,
        BH: BuildHasherFromFriend<C>,
    ensures
        sums_to::<C, BH>(collection, sum),
{
    let walk = collection.elements();
    let ghost elements = walk.remaining();
    let hash = |element: <&'a C as Elements>::Item| -> (value: u64)
        ensures
            hashes_with::<C, BH, <&'a C as Elements>::Item>(collection)(element, value),
        { hash_element::<C, BH, _>(collection, element) };
    let sum = sum_hashes(walk, hash);
    proof {
        let hashes = choose|hashes: Seq<u64>|
            hashed_by(elements, results_of(hash), hashes) && sum == sum_of_hashes(hashes);
        assert(hashed_by(
            elements,
            hashes_with::<C, BH, <&'a C as Elements>::Item>(collection),
            hashes,
        ));
    }
    sum
}

/// The hash of one element, taken with a fresh hasher that `BH` builds from `friend`:
/// the element is fed into that hasher and into no other, and the hash is what the
/// hasher gives when it is finished.
pub fn hash_element<F, BH, T>(friend: &F, element: T) -> (hash: u64)
    where
        BH: BuildHasherFromFriend<F>,
        T: Hash,
    ensures
        exists|fresh: BH::Hasher, fed: &mut BH::Hasher|
            #[trigger] call_ensures(BH::build_hasher_from, (friend,), fresh) && mut_ref_current(
                fed,
            ) == fresh && #[trigger] feeds(&element, fed) && finishes(
                &mut_ref_future(fed),
                hash,
            ),
{
    let mut hasher = BH::build_hasher_from(friend);
    feed(&element, &mut hasher);
    let hash = finish(&hasher);
    proof {
        assert forall|fed: &mut BH::Hasher| #[trigger]
            call_ensures(feed::<T, BH::Hasher>, (&element, fed), ()) implies feeds(
            &element,
            fed,
        ) by {}
    }
    hash
}

/// `Hash::hash`: feeds `element` into `hasher`. What reaches the hasher is up to the
/// element's own `Hash`, so nothing is claimed of the hasher afterwards.
#[verifier::external_body]
fn feed<T: Hash, H: Hasher>(element: &T, hasher: &mut H) {
    element.hash(hasher);
}

/// `Hasher::finish`: the hash of what was fed into `hasher`. Which value that is
/// depends on the hasher, so nothing is claimed of it.
#[verifier::external_body]
fn finish<H: Hasher>(hasher: &H) -> u64 {
    hasher.finish()
}

/// `Hasher::write_u64`: feeds `value` into `state`. What the hasher makes of it is its
/// own affair, so nothing is claimed of `state` afterwards.
#[verifier::external_body]
fn write_u64<H: Hasher>(state: &mut H, value: u64) {
    state.write_u64(value);
}

} // verus!
