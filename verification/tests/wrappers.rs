use hash_that_set::{SumHashes, SumHashesAnyCollection, UseDefaultHasher};
use std::collections::hash_map::{DefaultHasher, RandomState};
use std::collections::{BTreeMap, BTreeSet, HashMap, HashSet, VecDeque};
use std::hash::{Hash, Hasher};

fn is_hash<T: Hash>() {}

fn gen_hash<C>(collection: C) -> u64
where
    SumHashesAnyCollection<C, UseDefaultHasher>: Hash,
{
    let wrapper = SumHashesAnyCollection::<_, UseDefaultHasher>::from(collection);
    let mut hasher = DefaultHasher::new();
    Hash::hash(&wrapper, &mut hasher);
    hasher.finish()
}

fn hash_of<T: Hash>(value: &T) -> u64 {
    let mut hasher = DefaultHasher::new();
    value.hash(&mut hasher);
    hasher.finish()
}

#[test]
fn maps_and_sets_impl_hash() {
    is_hash::<SumHashes<HashMap<i8, &str>>>();
    is_hash::<SumHashes<HashSet<i8>>>();
}

#[test]
fn any_collection_impl_hash() {
    // In general, using an array with our library is a contractual violation
    // However, this is a test, so it doesn't matter
    is_hash::<SumHashesAnyCollection<[&str; 5]>>();
}

#[test]
fn default_if_possible() {
    let _: SumHashes<HashMap<i8, &str>> = Default::default();
}

#[test]
fn same_elements_produce_identical_hash() {
    // To simulate differences in iteration order, use sorting and different data structure
    let unsorted = vec![(4, ""), (1, "hi"), (-3, "hello"), (20, "good bye")];
    let mut sorted = Vec::from_iter(unsorted.clone());
    sorted.sort();
    let map: HashMap<i8, &str> = unsorted.iter().cloned().collect();
    let sorted_map: HashMap<i8, &str> = sorted.iter().cloned().collect();
    let set: HashSet<(i8, &str)> = unsorted.iter().cloned().collect();
    let sorted_set: HashSet<(i8, &str)> = sorted.iter().cloned().collect();

    let all_hashes = [
        gen_hash(unsorted),
        gen_hash(sorted),
        gen_hash(map),
        gen_hash(sorted_map),
        gen_hash(set),
        gen_hash(sorted_set),
    ];
    let hash = all_hashes[0];
    for other in all_hashes {
        assert_eq!(hash, other);
    }
}

#[test]
fn empty_map_and_empty_set_hash_alike() {
    let map: HashMap<i8, &str> = HashMap::new();
    let set: HashSet<(i8, &str)> = HashSet::new();
    assert_eq!(gen_hash(map), gen_hash(set));
}

#[test]
fn empty_collection_writes_zero() {
    let mut baseline = DefaultHasher::new();
    baseline.write_u64(0);
    let empty: Vec<i32> = Vec::new();
    assert_eq!(gen_hash(empty), baseline.finish());
    let map: HashMap<i8, &str> = HashMap::new();
    assert_eq!(gen_hash(map), baseline.finish());
}

#[test]
fn hash_is_sum_of_element_hashes() {
    let elements = vec![(4i8, ""), (1, "hi"), (-3, "hello"), (20, "good bye")];
    let mut sum = 0u64;
    for element in &elements {
        sum = sum.wrapping_add(hash_of(element));
    }
    let mut expected = DefaultHasher::new();
    expected.write_u64(sum);
    let map: HashMap<i8, &str> = elements.iter().cloned().collect();
    assert_eq!(gen_hash(map), expected.finish());
    assert_eq!(gen_hash(elements), expected.finish());
}

#[test]
fn array_hashes_as_its_elements() {
    let array = ["a", "b", "c", "d", "e"];
    let mut sum = 0u64;
    for element in &array {
        sum = sum.wrapping_add(hash_of(element));
    }
    let mut expected = DefaultHasher::new();
    expected.write_u64(sum);
    assert_eq!(gen_hash(array), expected.finish());
    assert_eq!(gen_hash(["e", "c", "a", "d", "b"]), expected.finish());
}

#[test]
fn duplicates_each_count() {
    let once = vec![7u32];
    let twice = vec![7u32, 7u32];
    let sum = hash_of(&7u32).wrapping_add(hash_of(&7u32));
    let mut expected = DefaultHasher::new();
    expected.write_u64(sum);
    assert_eq!(gen_hash(twice), expected.finish());
    assert_ne!(gen_hash(once), expected.finish());
}

#[test]
fn repeated_hashing_gives_the_same_hash() {
    let map: HashMap<i8, &str> = [(4, ""), (1, "hi"), (-3, "hello")].into_iter().collect();
    let wrapper = SumHashesAnyCollection::<_, UseDefaultHasher>::from(map);
    let mut first = DefaultHasher::new();
    wrapper.hash(&mut first);
    let mut second = DefaultHasher::new();
    wrapper.hash(&mut second);
    assert_eq!(first.finish(), second.finish());

    let provided = SumHashes::new(wrapper.into_inner());
    let mut third = DefaultHasher::new();
    provided.hash(&mut third);
    let mut fourth = DefaultHasher::new();
    provided.hash(&mut fourth);
    assert_eq!(third.finish(), fourth.finish());
}

#[test]
fn one_changed_value_changes_the_hash() {
    let map: HashMap<i8, &str> = [(4, ""), (1, "hi"), (-3, "hello")].into_iter().collect();
    let mut changed = map.clone();
    changed.insert(1, "ho");
    assert_ne!(gen_hash(map.clone()), gen_hash(changed));
    let mut larger = map.clone();
    larger.insert(20, "good bye");
    assert_ne!(gen_hash(map), gen_hash(larger));
}

#[test]
fn provided_hasher_is_the_collections_own() {
    let state = RandomState::new();
    let pairs = [(4i8, ""), (1, "hi"), (-3, "hello"), (20, "good bye")];
    let mut forward = HashMap::with_hasher(state.clone());
    for (key, value) in pairs {
        forward.insert(key, value);
    }
    let mut backward = HashMap::with_hasher(state.clone());
    for (key, value) in pairs.into_iter().rev() {
        backward.insert(key, value);
    }
    let mut sum = 0u64;
    for (key, value) in &forward {
        let mut hasher = std::hash::BuildHasher::build_hasher(&state);
        (key, value).hash(&mut hasher);
        sum = sum.wrapping_add(hasher.finish());
    }
    let mut expected = DefaultHasher::new();
    expected.write_u64(sum);

    let forward = SumHashes::new(forward);
    let backward = SumHashes::from(backward);
    let mut first = DefaultHasher::new();
    forward.hash(&mut first);
    let mut second = DefaultHasher::new();
    backward.hash(&mut second);
    assert_eq!(first.finish(), expected.finish());
    assert_eq!(second.finish(), expected.finish());
}

#[test]
fn provided_hasher_of_a_set() {
    let state = RandomState::new();
    let mut set = HashSet::with_hasher(state.clone());
    set.insert("one");
    set.insert("two");
    let mut sum = 0u64;
    for member in &set {
        let mut hasher = std::hash::BuildHasher::build_hasher(&state);
        member.hash(&mut hasher);
        sum = sum.wrapping_add(hasher.finish());
    }
    let mut expected = DefaultHasher::new();
    expected.write_u64(sum);
    let set = SumHashes::new(set);
    let mut hasher = DefaultHasher::new();
    set.hash(&mut hasher);
    assert_eq!(hasher.finish(), expected.finish());
}

#[test]
fn wrapper_gives_the_collection_back() {
    let map: HashMap<i8, String> = [(2, String::from("hello"))].into_iter().collect();
    assert_eq!(SumHashes::new(map.clone()).into_inner(), map);
    assert_eq!(SumHashes::from(map.clone()).into_inner(), map);
    let list = vec![3, 1, 2];
    assert_eq!(SumHashesAnyCollection::<_, UseDefaultHasher>::new(list.clone()).into_inner(), list);
    assert_eq!(SumHashesAnyCollection::<_, UseDefaultHasher>::from(list.clone()).into_inner(), list);
}

#[test]
fn wrapper_derefs_to_the_collection() {
    let my_map: HashMap<i8, String> = HashMap::new();
    let mut my_map = SumHashes::new(my_map);
    my_map.insert(2, String::from("hello"));
    assert_eq!(my_map.len(), 1);
    assert_eq!(my_map.get(&2), Some(&String::from("hello")));
    assert_eq!(my_map.into_inner().remove(&2), Some(String::from("hello")));

    let mut list = SumHashesAnyCollection::<_, UseDefaultHasher>::new(vec![1, 2]);
    list.push(3);
    assert_eq!(list.len(), 3);
    assert_eq!(list.into_inner(), vec![1, 2, 3]);
}

#[test]
fn wrapper_keeps_equality_and_clones() {
    let left = SumHashesAnyCollection::<_, UseDefaultHasher>::new(vec![1, 2]);
    let right = SumHashesAnyCollection::<_, UseDefaultHasher>::new(vec![2, 1]);
    assert!(left == left.clone());
    assert!(left != right);
    let map: HashMap<i8, &str> = [(1, "hi")].into_iter().collect();
    let wrapped = SumHashes::new(map.clone());
    assert!(wrapped == wrapped.clone());
    assert!(wrapped != SumHashes::default());
    assert_eq!(SumHashes::<HashMap<i8, &str>>::default().into_inner(), HashMap::new());
}

#[test]
fn wrapper_serves_as_key() {
    let state = RandomState::new();
    let mut forward = HashSet::with_hasher(state.clone());
    for member in [1i8, 2, 3] {
        forward.insert(member);
    }
    let mut backward = HashSet::with_hasher(state.clone());
    for member in [3i8, 2, 1] {
        backward.insert(member);
    }
    let mut other = HashSet::with_hasher(state);
    other.insert(4i8);
    let mut outer = HashSet::new();
    assert!(outer.insert(SumHashes::new(forward.clone())));
    assert!(outer.contains(&SumHashes::new(forward)));
    assert!(outer.contains(&SumHashes::new(backward.clone())));
    assert!(!outer.insert(SumHashes::new(backward)));
    assert!(!outer.contains(&SumHashes::new(other)));
    assert_eq!(outer.len(), 1);
}

#[test]
fn queue_hashes_as_its_elements() {
    let mut queue = VecDeque::new();
    queue.push_back("b");
    queue.push_back("c");
    queue.push_front("a");
    let mut sum = 0u64;
    for element in &queue {
        sum = sum.wrapping_add(hash_of(element));
    }
    let mut expected = DefaultHasher::new();
    expected.write_u64(sum);
    assert_eq!(gen_hash(queue), expected.finish());
    assert_eq!(gen_hash(vec!["c", "a", "b"]), expected.finish());
}

#[test]
fn ordered_map_and_set_hash_as_their_elements() {
    let pairs = [(4i8, ""), (1, "hi"), (-3, "hello"), (20, "good bye")];
    let mut sum = 0u64;
    for pair in &pairs {
        sum = sum.wrapping_add(hash_of(pair));
    }
    let mut expected = DefaultHasher::new();
    expected.write_u64(sum);
    let map: BTreeMap<i8, &str> = pairs.into_iter().collect();
    let set: BTreeSet<(i8, &str)> = pairs.into_iter().collect();
    let hashed: HashMap<i8, &str> = pairs.into_iter().collect();
    assert_eq!(map.len(), 4);
    assert_eq!(gen_hash(map), expected.finish());
    assert_eq!(gen_hash(set), expected.finish());
    assert_eq!(gen_hash(hashed), expected.finish());
    let empty: BTreeSet<u8> = BTreeSet::new();
    let mut zero = DefaultHasher::new();
    zero.write_u64(0);
    assert_eq!(gen_hash(empty), zero.finish());
}

#[test]
fn one_changed_value_changes_the_sum_by_the_difference() {
    let before = vec![10u32, 20, 30];
    let after = vec![10u32, 25, 30];
    let mut sum = 0u64;
    for element in &before {
        sum = sum.wrapping_add(hash_of(element));
    }
    let changed = sum.wrapping_sub(hash_of(&20u32)).wrapping_add(hash_of(&25u32));
    let mut expected = DefaultHasher::new();
    expected.write_u64(changed);
    assert_eq!(gen_hash(after), expected.finish());
    assert_ne!(gen_hash(before), expected.finish());
}
