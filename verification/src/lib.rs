//! Hashing of collections without regard to the order in which their elements are
//! visited, for use with maps, sets and other unordered collections.
//!
//! The hash of a collection is the sum, modulo 2^64, of the hashes of its elements,
//! each taken with a fresh hasher. [`model::sum_of_hashes`] is the mathematical model of
//! that sum, [`combine::sum_hashes`] computes it, and [`laws`] shows that it does not
//! depend on the order of the elements nor on the kind of collection that holds them.
//!
//! Documentation referring to a "collection" means any type `C` where `&C` implements
//! [`Elements`].

pub mod combine;
pub mod context;
pub mod elements;
pub mod laws;
pub mod model;
pub mod wrapper;

pub use combine::{
    hash_by_summing_hashes, hash_by_summing_hashes_with, hash_element, sum_element_hashes,
    sum_hashes,
};
pub use context::{BuildHasherFromFriend, ProvidesHasher, UseDefaultHasher, UseProvidedHasher};
pub use elements::Elements;
pub use wrapper::{SumHashes, SumHashesAnyCollection};
