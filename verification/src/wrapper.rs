//! Wrappers that give a collection an order-independent `Hash`, and leave the rest of
//! it as it is.

use crate::combine::{hash_by_summing_hashes_with, sums_to, writes};
use crate::context::{BuildHasherFromFriend, ProvidesHasher, UseDefaultHasher, UseProvidedHasher};
use crate::elements::Elements;
use std::hash::{Hash, Hasher};
use std::marker::PhantomData;
use std::ops::{Deref, DerefMut};
use vstd::prelude::*;
use vstd::std_specs::cmp::{PartialEqSpec, PartialEqSpecImpl};
use vstd::std_specs::convert::FromSpecImpl;

verus! {

/// Adds hashing to any collection according to the hash of each element, but without
/// respecting iteration order. Always usable with any collection, via the default
/// hasher. `Deref` and `DerefMut` provide access to the wrapped type.
///
/// **Do not use this wrapper with an ordered collection**. The wrapper does not change
/// equality semantics; it affects hashing only.
#[derive(Debug)]
pub struct SumHashesAnyCollection<C, H = UseDefaultHasher>(C, PhantomData<H>);

impl<C, H> View for SumHashesAnyCollection<C, H> {
    type V = C;

    /// The wrapped collection
    closed spec fn view(&self) -> C {
        self.0
    }
}

impl<C, H> SumHashesAnyCollection<C, H> {
    /// Creates the wrapper
    #[inline]
    pub fn new(value: C) -> (wrapper: Self)
        ensures
            wrapper@ == value,
    {
        Self(value, PhantomData)
    }

    /// Destructures into the inner collection
    #[inline]
    pub fn into_inner(self) -> (collection: C)
        ensures
            collection == self@,
    {
        self.0
    }
}

impl<C, H> From<C> for SumHashesAnyCollection<C, H> {
    /// Creates the wrapper
    #[inline]
    fn from(value: C) -> (wrapper: Self)
        ensures
            wrapper@ == value,
    {
        Self(value, PhantomData)
    }
}

impl<C, H> FromSpecImpl<C> for SumHashesAnyCollection<C, H> {
    open spec fn obeys_from_spec() -> bool {
        true
    }

    closed spec fn from_spec(value: C) -> Self {
        SumHashesAnyCollection(value, PhantomData)
    }
}

impl<C: Default, H> Default for SumHashesAnyCollection<C, H> {
    fn default() -> (wrapper: Self)
        ensures
            call_ensures(C::default, (), wrapper@),
    {
        Self(C::default(), PhantomData)
    }
}

impl<C: Clone, H> Clone for SumHashesAnyCollection<C, H> {
    fn clone(&self) -> (copy: Self)
        ensures
            cloned(self@, copy@),
    {
        Self(self.0.clone(), PhantomData)
    }
}

impl<C: PartialEq, H> PartialEq for SumHashesAnyCollection<C, H> {
    fn eq(&self, other: &Self) -> (equal: bool) {
        self.0 == other.0
    }
}

impl<C: PartialEq, H> PartialEqSpecImpl for SumHashesAnyCollection<C, H> {
    open spec fn obeys_eq_spec() -> bool {
        C::obeys_eq_spec()
    }

    open spec fn eq_spec(&self, other: &Self) -> bool {
        self@.eq_spec(&other@)
    }
}

impl<C: Eq, H> Eq for SumHashesAnyCollection<C, H> {}

impl<C, BH> Hash for SumHashesAnyCollection<C, BH>
    where
        for <'c>&'c C: Elements,
        BH: BuildHasherFromFriend<C>,
{
    /// Writes one value into `state` and nothing else: an order-independent sum for the
    /// wrapped collection, with `BH` to build the hasher of each element.
    fn hash<H: Hasher>(&self, state: &mut H)
        ensures
            exists|sum: u64, handed: &mut H|
                sums_to::<C, BH>(&self@, sum) && mut_ref_current(handed) == *old(state)
                    && mut_ref_future(handed) == *final(state) && #[trigger] writes(handed, sum),
    {
        hash_by_summing_hashes_with::<C, H, BH>(&self.0, state)
    }
}

impl<C, H> Deref for SumHashesAnyCollection<C, H> {
    type Target = C;

    fn deref(&self) -> (collection: &C)
        ensures
            *collection == self@,
    {
        &self.0
    }
}

impl<C, H> DerefMut for SumHashesAnyCollection<C, H> {
    fn deref_mut(&mut self) -> (collection: &mut C)
        ensures
            *collection == old(self)@,
            final(self)@ == *final(collection),
    {
        &mut self.0
    }
}

/// Adds hashing to any collection according to the hash of each element, but without
/// respecting iteration order. Instantly usable with `HashMap` or `HashSet`. `Deref` and
/// `DerefMut` provide access to the wrapped type. To create, use the `new` method or
/// `From`.
///
/// This may be used with any collection, although it requires the wrapped collection
/// to implement [`ProvidesHasher`].
#[derive(Debug)]
pub struct SumHashes<C: ProvidesHasher>(SumHashesAnyCollection<C, UseProvidedHasher<C>>);

impl<C: ProvidesHasher> View for SumHashes<C> {
    type V = C;

    /// The wrapped collection
    closed spec fn view(&self) -> C {
        self.0@
    }
}

impl<C: ProvidesHasher> SumHashes<C> {
    /// Creates the wrapper
    #[inline]
    pub fn new(value: C) -> (wrapper: Self)
        ensures
            wrapper@ == value,
    {
        Self::from(value)
    }

    /// Destructures into the inner collection
    #[inline]
    pub fn into_inner(self) -> (collection: C)
        ensures
            collection == self@,
    {
        self.0.0
    }
}

impl<C: ProvidesHasher> From<C> for SumHashes<C> {
    /// Creates the wrapper
    #[inline]
    fn from(value: C) -> (wrapper: Self)
        ensures
            wrapper@ == value,
    {
        Self(SumHashesAnyCollection::from(value))
    }
}

impl<C: ProvidesHasher> FromSpecImpl<C> for SumHashes<C> {
    open spec fn obeys_from_spec() -> bool {
        true
    }

    closed spec fn from_spec(value: C) -> Self {
        SumHashes(SumHashesAnyCollection(value, PhantomData))
    }
}

impl<C: ProvidesHasher + Default> Default for SumHashes<C> {
    fn default() -> (wrapper: Self)
        ensures
            call_ensures(C::default, (), wrapper@),
    {
        Self(SumHashesAnyCollection::default())
    }
}

impl<C: ProvidesHasher + Clone> Clone for SumHashes<C> {
    fn clone(&self) -> (copy: Self)
        ensures
            cloned(self@, copy@),
    {
        Self(self.0.clone())
    }
}

impl<C: ProvidesHasher + PartialEq> PartialEq for SumHashes<C> {
    fn eq(&self, other: &Self) -> (equal: bool) {
        self.0 == other.0
    }
}

impl<C: ProvidesHasher + PartialEq> PartialEqSpecImpl for SumHashes<C> {
    open spec fn obeys_eq_spec() -> bool {
        C::obeys_eq_spec()
    }

    open spec fn eq_spec(&self, other: &Self) -> bool {
        self@.eq_spec(&other@)
    }
}

impl<C: ProvidesHasher + Eq> Eq for SumHashes<C> {}

impl<C: ProvidesHasher> Hash for SumHashes<C>
    where
        for <'c>&'c C: Elements,
{
    /// Writes one value into `state` and nothing else: an order-independent sum for the
    /// wrapped collection, with the collection's own hashing implementation to build
    /// the hasher of each element.
    fn hash<H: Hasher>(&self, state: &mut H)
        ensures
            exists|sum: u64, handed: &mut H|
                sums_to::<C, UseProvidedHasher<C>>(&self@, sum) && mut_ref_current(handed)
                    == *old(state) && mut_ref_future(handed) == *final(state)
                    && #[trigger] writes(handed, sum),
    {
        Hash::hash(&self.0, state)
    }
}

impl<C: ProvidesHasher> Deref for SumHashes<C> {
    type Target = C;

    fn deref(&self) -> (collection: &C)
        ensures
            *collection == self@,
    {
        &self.0.0
    }
}

impl<C: ProvidesHasher> DerefMut for SumHashes<C> {
    fn deref_mut(&mut self) -> (collection: &mut C)
        ensures
            *collection == old(self)@,
            final(self)@ == *final(collection),
    {
        &mut self.0.0
    }
}

} // verus!
