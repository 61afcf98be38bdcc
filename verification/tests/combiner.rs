use hash_that_set::{hash_by_summing_hashes, hash_by_summing_hashes_with, sum_hashes};
use hash_that_set::{SumHashesAnyCollection, UseDefaultHasher, UseProvidedHasher};
use std::collections::hash_map::DefaultHasher;
use std::collections::{HashMap, HashSet};
use std::hash::{Hash, Hasher};

#[test]
fn sum_of_no_hashes_is_zero() {
    let nothing: Vec<u64> = Vec::new();
    assert_eq!(sum_hashes(nothing.into_iter(), |hash| hash), 0);
}

#[test]
fn sum_adds_each_hash() {
    assert_eq!(sum_hashes(vec![1u64, 2, 3].into_iter(), |hash| hash), 6);
    assert_eq!(sum_hashes(vec![5u64].into_iter(), |hash| hash), 5);
    assert_eq!(sum_hashes(vec![2u64, 2, 2].into_iter(), |hash| hash), 6);
    assert_eq!(sum_hashes(vec!["a", "bcd", ""].into_iter(), |text| text.len() as u64), 4);
}

#[test]
fn sum_wraps_around() {
    assert_eq!(sum_hashes(vec![u64::MAX, 1].into_iter(), |hash| hash), 0);
    assert_eq!(sum_hashes(vec![u64::MAX, 2].into_iter(), |hash| hash), 1);
    assert_eq!(sum_hashes(vec![u64::MAX, u64::MAX].into_iter(), |hash| hash), u64::MAX - 1);
    assert_eq!(sum_hashes(vec![u64::MAX, 2, u64::MAX].into_iter(), |hash| hash), 0);
    assert_eq!(
        sum_hashes(vec![0x8000_0000_0000_0000u64, 0x8000_0000_0000_0001].into_iter(), |hash| hash),
        1
    );
}

#[test]
fn sum_ignores_order() {
    let forward = sum_hashes(vec![u64::MAX, 7, 1 << 63, 12].into_iter(), |hash| hash);
    let backward = sum_hashes(vec![12, 1 << 63, 7, u64::MAX].into_iter(), |hash| hash);
    let mixed = sum_hashes(vec![7, u64::MAX, 12, 1 << 63].into_iter(), |hash| hash);
    assert_eq!(forward, 0x8000_0000_0000_0012);
    assert_eq!(backward, forward);
    assert_eq!(mixed, forward);
}

#[test]
fn function_and_wrapper_agree() {
    let map: HashMap<i8, &str> = [(4, ""), (1, "hi"), (-3, "hello")].into_iter().collect();
    let mut direct = DefaultHasher::new();
    hash_by_summing_hashes(&map, &mut direct);
    let mut chosen = DefaultHasher::new();
    hash_by_summing_hashes_with::<_, _, UseDefaultHasher>(&map, &mut chosen);
    let mut wrapped = DefaultHasher::new();
    SumHashesAnyCollection::<_, UseDefaultHasher>::new(map).hash(&mut wrapped);
    assert_eq!(direct.finish(), chosen.finish());
    assert_eq!(direct.finish(), wrapped.finish());
}

#[test]
fn function_with_provided_hasher() {
    let set: HashSet<u16> = [10, 20, 30].into_iter().collect();
    let mut sum = 0u64;
    for member in &set {
        let mut hasher = std::hash::BuildHasher::build_hasher(set.hasher());
        member.hash(&mut hasher);
        sum = sum.wrapping_add(hasher.finish());
    }
    let mut expected = DefaultHasher::new();
    expected.write_u64(sum);
    let mut state = DefaultHasher::new();
    hash_by_summing_hashes_with::<_, _, UseProvidedHasher<HashSet<u16>>>(&set, &mut state);
    assert_eq!(state.finish(), expected.finish());
}

#[test]
fn function_writes_after_what_was_written() {
    let list = vec![1u8, 2, 3];
    let mut sum = 0u64;
    for element in &list {
        let mut hasher = DefaultHasher::new();
        element.hash(&mut hasher);
        sum = sum.wrapping_add(hasher.finish());
    }
    let mut expected = DefaultHasher::new();
    expected.write_u8(9);
    expected.write_u64(sum);
    let mut state = DefaultHasher::new();
    state.write_u8(9);
    hash_by_summing_hashes(&list, &mut state);
    assert_eq!(state.finish(), expected.finish());
}
