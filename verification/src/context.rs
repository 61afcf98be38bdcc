//! Where the hasher for one element comes from: always the default one, or the one that
//! the collection itself uses.

use std::collections::hash_map::DefaultHasher;
use std::collections::{HashMap, HashSet};
use std::hash::{BuildHasher, Hasher};
use std::marker::PhantomData;
use vstd::prelude::*;

verus! {

/// Like the standard library's `BuildHasher`, but takes the hashing implementation
/// from a peer.
pub trait BuildHasherFromFriend<F> {
    /// The type of the hasher that will be created
    type Hasher: Hasher;

    /// Creates a hashing implementation
    fn build_hasher_from<'f>(friend: &'f F) -> Self::Hasher where Self::Hasher: 'f;
}

/// Implementation of [`BuildHasherFromFriend`] which uses the default hasher, always
#[derive(Clone, Copy, Debug, Default, Eq, PartialEq)]
pub struct UseDefaultHasher(());

/// The peer is ignored: the hasher is a new default hasher, into which nothing has been
/// written.
impl<F> BuildHasherFromFriend<F> for UseDefaultHasher {
    type Hasher = DefaultHasher;

    fn build_hasher_from<'f>(_friend: &'f F) -> (hasher: Self::Hasher) where Self::Hasher: 'f
        ensures
            hasher@ == Seq::<Seq<u8>>::empty(),
    {
        DefaultHasher::new()
    }
}

/// Implementation of [`BuildHasherFromFriend`] which requires that the peer provides
/// the hasher, i.e. that [`ProvidesHasher`] is implemented for the peer object
#[derive(Debug, Default, Eq, PartialEq)]
pub struct UseProvidedHasher<C: ProvidesHasher>(PhantomData<C>);

impl<C: ProvidesHasher + Clone> Clone for UseProvidedHasher<C> {
    fn clone(&self) -> (copy: Self)
        ensures
            copy == *self,
    {
        UseProvidedHasher(PhantomData)
    }
}

impl<C: ProvidesHasher + Copy> Copy for UseProvidedHasher<C> {}

/// The hasher is built by the `BuildHasher` that the peer hands out.
impl<C: ProvidesHasher> BuildHasherFromFriend<C> for UseProvidedHasher<C> {
    type Hasher = <<C as ProvidesHasher>::Hasher as BuildHasher>::Hasher;

    fn build_hasher_from<'f>(friend: &'f C) -> (hasher: Self::Hasher) where Self::Hasher: 'f
        ensures
            exists|context: &<C as ProvidesHasher>::Hasher|
                friend.provides(context) && builds(context, hasher),
    {
        build_hasher(friend.hasher())
    }
}

/// `hasher` is a hasher that `BuildHasher::build_hasher` may return for `builder`.
pub closed spec fn builds<S: BuildHasher>(builder: &S, hasher: S::Hasher) -> bool {
    call_ensures(build_hasher::<S>, (builder,), hasher)
}

/// Trait for types which provide a hashing implementation. It is implemented for
/// `HashMap` and `HashSet`, and allows the wrapper `SumHashes` to use the same hashing
/// implementation for the elements as the collection uses itself.
pub trait ProvidesHasher {
    /// The type of the hashing implementation
    type Hasher: BuildHasher;

    /// Whether `hasher` is the hashing implementation that the collection uses.
    spec fn provides(&self, hasher: &Self::Hasher) -> bool;

    /// Returns a reference to the used hasher
    fn hasher(&self) -> (hasher: &Self::Hasher)
        ensures
            self.provides(hasher),
    ;
}

impl<K, V, S> ProvidesHasher for HashMap<K, V, S> where S: BuildHasher {
    type Hasher = S;

    /// `hasher` is what `HashMap::hasher` may return for the map.
    closed spec fn provides(&self, hasher: &S) -> bool {
        call_ensures(hasher_of_map::<K, V, S>, (self,), hasher)
    }

    fn hasher(&self) -> (hasher: &Self::Hasher) {
        hasher_of_map(self)
    }
}

impl<O, S> ProvidesHasher for HashSet<O, S> where S: BuildHasher {
    type Hasher = S;

    /// `hasher` is what `HashSet::hasher` may return for the set.
    closed spec fn provides(&self, hasher: &S) -> bool {
        call_ensures(hasher_of_set::<O, S>, (self,), hasher)
    }

    fn hasher(&self) -> (hasher: &Self::Hasher) {
        hasher_of_set(self)
    }
}

/// `BuildHasher::build_hasher`: a new hasher from `builder`. Which hasher that is
/// depends on the builder, so nothing is claimed of it.
#[verifier::external_body]
fn build_hasher<S: BuildHasher>(builder: &S) -> S::Hasher {
    builder.build_hasher()
}

/// `HashMap::hasher`: a reference to the map's own `BuildHasher`. The builder is
/// opaque here, so nothing is claimed of it.
#[verifier::external_body]
fn hasher_of_map<K, V, S>(map: &HashMap<K, V, S>) -> &S {
    map.hasher()
}

/// `HashSet::hasher`: a reference to the set's own `BuildHasher`. The builder is
/// opaque here, so nothing is claimed of it.
#[verifier::external_body]
fn hasher_of_set<T, S>(set: &HashSet<T, S>) -> &S {
    set.hasher()
}

} // verus!
