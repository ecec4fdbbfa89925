use associative_cache::{
    AssociativeCache, Capacity1, Capacity2, Capacity4, Capacity8, Capacity512, HashDirectMapped,
    PointerDirectMapped, PointerTwoWay, RoundRobinReplacement,
};

#[test]
fn replacement_policy() {
    let mut policy = RoundRobinReplacement::default();
    let mut cache = AssociativeCache::<
        usize,
        usize,
        Capacity4,
        HashDirectMapped,
        _,
    >::with_replacement_policy(policy.clone());
    assert_eq!(cache.replacement_policy(), &policy);
    assert_eq!(cache.replacement_policy_mut(), &mut policy);
}

#[test]
fn capacity() {
    let cache = AssociativeCache::<
        usize,
        usize,
        Capacity2,
        HashDirectMapped,
        RoundRobinReplacement,
    >::default();
    assert_eq!(cache.capacity(), 2);

    let cache = AssociativeCache::<
        usize,
        usize,
        Capacity4,
        HashDirectMapped,
        RoundRobinReplacement,
    >::default();
    assert_eq!(cache.capacity(), 4);

    let cache = AssociativeCache::<
        usize,
        usize,
        Capacity8,
        HashDirectMapped,
        RoundRobinReplacement,
    >::default();
    assert_eq!(cache.capacity(), 8);
}

#[test]
fn len() {
    let mut cache = AssociativeCache::<
        usize,
        usize,
        Capacity512,
        HashDirectMapped,
        RoundRobinReplacement,
    >::default();

    assert_eq!(cache.insert(1, 2), None);
    assert_eq!(cache.len(), 1);
    assert_eq!(cache.insert(3, 4), None);
    assert_eq!(cache.len(), 2);
    assert_eq!(cache.insert(5, 6), None);
    assert_eq!(cache.len(), 3);

    cache.insert(1, 7).unwrap();
    assert_eq!(cache.len(), 3);
    cache.insert(3, 8).unwrap();
    assert_eq!(cache.len(), 3);
    cache.insert(5, 9).unwrap();
    assert_eq!(cache.len(), 3);
}

#[test]
fn insert() {
    let mut cache = AssociativeCache::<
        usize,
        usize,
        Capacity4,
        PointerTwoWay<1>,
        RoundRobinReplacement,
    >::default();

    // Fill all the cache slots.
    assert_eq!(cache.insert(0, 0), None);
    assert_eq!(cache.insert(1, 1), None);
    assert_eq!(cache.insert(2, 2), None);
    assert_eq!(cache.insert(3, 3), None);

    // Start replacing old entries with new insertions.
    assert_eq!(cache.insert(4, 4), Some((2, 2)));
    assert_eq!(cache.insert(6, 6), Some((0, 0)));
    assert_eq!(cache.insert(5, 5), Some((3, 3)));
    assert_eq!(cache.insert(7, 7), Some((1, 1)));
}

#[test]
fn get() {
    let mut cache = AssociativeCache::<
        usize,
        usize,
        Capacity4,
        PointerTwoWay<1>,
        RoundRobinReplacement,
    >::default();

    cache.insert(0, 0);
    assert_eq!(cache.get(&0), Some(&0));
    assert_eq!(cache.get(&1), None);

    cache.insert(4, 4);
    assert_eq!(cache.get(&0), Some(&0));
    assert_eq!(cache.get(&4), Some(&4));
    assert_eq!(cache.get(&1), None);

    assert_eq!(cache.insert(8, 8), Some((4, 4)));
    assert_eq!(cache.get(&0), Some(&0));
    assert_eq!(cache.get(&8), Some(&8));
    assert_eq!(cache.get(&1), None);
}

#[test]
fn get_mut() {
    let mut cache = AssociativeCache::<
        usize,
        usize,
        Capacity4,
        PointerTwoWay<1>,
        RoundRobinReplacement,
    >::default();

    cache.insert(0, 0);
    assert_eq!(cache.get_mut(&0), Some(&mut 0));
    assert_eq!(cache.get_mut(&1), None);

    cache.insert(4, 4);
    assert_eq!(cache.get_mut(&0), Some(&mut 0));
    assert_eq!(cache.get_mut(&4), Some(&mut 4));
    assert_eq!(cache.get_mut(&1), None);

    assert_eq!(cache.insert(8, 8), Some((4, 4)));
    assert_eq!(cache.get_mut(&0), Some(&mut 0));
    assert_eq!(cache.get_mut(&8), Some(&mut 8));
    assert_eq!(cache.get_mut(&1), None);
}

#[test]
fn remove() {
    let mut cache = AssociativeCache::<
        usize,
        usize,
        Capacity4,
        PointerTwoWay<1>,
        RoundRobinReplacement,
    >::default();

    cache.insert(0, 0);
    cache.insert(4, 4);
    assert_eq!(cache.len(), 2);

    assert_eq!(cache.remove(&4), Some(4));
    assert_eq!(cache.remove(&4), None);
    assert_eq!(cache.remove(&0), Some(0));
    assert_eq!(cache.remove(&0), None);
}

#[test]
fn retain() {
    let mut cache = AssociativeCache::<
        usize,
        usize,
        Capacity4,
        PointerTwoWay<1>,
        RoundRobinReplacement,
    >::default();

    cache.insert(0, 0);
    cache.insert(1, 1);
    cache.insert(2, 2);
    cache.insert(3, 3);
    assert_eq!(cache.len(), 4);

    cache.retain(|_, v| *v % 2 == 0);
    assert_eq!(cache.len(), 2);
    assert_eq!(cache.get(&0), Some(&0));
    assert_eq!(cache.get(&1), None);
    assert_eq!(cache.get(&2), Some(&2));
    assert_eq!(cache.get(&3), None);
}

#[test]
fn retain_direct_mapped() {
    let mut cache = AssociativeCache::<
        usize,
        usize,
        Capacity4,
        PointerDirectMapped<1>,
        RoundRobinReplacement,
    >::default();

    cache.insert(0, 0);
    cache.insert(1, 1);
    cache.insert(2, 2);
    cache.insert(3, 3);
    assert_eq!(cache.len(), 4);

    cache.retain(|_, v| *v % 2 == 0);
    assert_eq!(cache.len(), 2);
    assert_eq!(cache.get(&0), Some(&0));
    assert_eq!(cache.get(&1), None);
    assert_eq!(cache.get(&2), Some(&2));
    assert_eq!(cache.get(&3), None);
}

#[test]
fn entry() {
    let mut cache = AssociativeCache::<
        usize,
        usize,
        Capacity1,
        PointerDirectMapped<1>,
        RoundRobinReplacement,
    >::default();

    // Vacant
    let e = cache.entry(&0);
    assert_eq!(e.or_insert_with(&mut cache, || 0, || 0), &mut 0);
    assert_eq!(cache.len(), 1);

    // Occupied
    let e = cache.entry(&0);
    assert_eq!(
        e.or_insert_with(&mut cache, || unreachable!(), || unreachable!()),
        &mut 0
    );
    assert_eq!(cache.len(), 1);

    // Replace
    let mut e = cache.entry(&1);
    assert_eq!(e.take_entry_that_will_be_replaced(&mut cache), Some((0, 0)));
    assert_eq!(e.or_insert_with(&mut cache, || 1, || 1), &mut 1);
    assert_eq!(cache.len(), 1);
}

#[test]
fn iter() {
    let mut cache = AssociativeCache::<
        usize,
        usize,
        Capacity4,
        PointerDirectMapped<1>,
        RoundRobinReplacement,
    >::default();

    cache.insert(0, 0);
    cache.insert(1, 1);
    cache.insert(2, 2);
    cache.insert(3, 3);
    assert_eq!(cache.len(), 4);

    let mut seen = vec![false; 4];
    let mut it = cache.iter();
    assert_eq!(it.size_hint(), (4, Some(4)));
    while let Some((&k, &v)) = it.next() {
        assert!(!seen[v]);
        seen[v] = true;
        assert_eq!(k, v);
    }
    assert!(seen.iter().all(|&b| b));
}

#[test]
fn iter_mut() {
    let mut cache = AssociativeCache::<
        usize,
        usize,
        Capacity4,
        PointerDirectMapped<1>,
        RoundRobinReplacement,
    >::default();

    cache.insert(0, 0);
    cache.insert(1, 1);
    cache.insert(2, 2);
    cache.insert(3, 3);
    assert_eq!(cache.len(), 4);

    let seen = std::cell::RefCell::new(vec![false; 4]);
    cache.iter_mut(|k: &usize, v: &usize| {
        assert!(!seen.borrow()[*v]);
        seen.borrow_mut()[*v] = true;
        assert_eq!(*k, *v);
        *v + 1
    });
    assert!(seen.borrow().iter().all(|&b| b));

    assert_eq!(cache.get(&0), Some(&1));
    assert_eq!(cache.get(&1), Some(&2));
    assert_eq!(cache.get(&2), Some(&3));
    assert_eq!(cache.get(&3), Some(&4));
}

#[test]
fn into_iter() {
    let mut cache = AssociativeCache::<
        usize,
        usize,
        Capacity4,
        PointerDirectMapped<1>,
        RoundRobinReplacement,
    >::default();

    cache.insert(0, 0);
    cache.insert(1, 1);
    cache.insert(2, 2);
    cache.insert(3, 3);
    assert_eq!(cache.len(), 4);

    let mut seen = vec![false; 4];
    let mut it = cache.into_iter();
    assert_eq!(it.size_hint(), (4, Some(4)));
    while let Some((k, v)) = it.next() {
        assert!(!seen[v]);
        seen[v] = true;
        assert_eq!(k, v);
    }
    assert!(seen.iter().all(|&b| b));
}

#[test]
fn direct_mapped_eviction_at_capacity_one() {
    let mut cache = AssociativeCache::<
        usize,
        usize,
        Capacity1,
        HashDirectMapped,
        RoundRobinReplacement,
    >::default();

    assert_eq!(cache.insert(1, 42), None);
    assert_eq!(cache.insert(2, 1337), Some((1, 42)));
    assert_eq!(cache.len(), 1);
}

#[test]
fn insert_prefers_empty_slot() {
    let mut cache = AssociativeCache::<
        usize,
        usize,
        Capacity4,
        PointerTwoWay<1>,
        RoundRobinReplacement,
    >::default();

    // Keys 0 and 2 share the candidate pair {0, 1}; as long as one of the
    // two slots is free, no entry is ever evicted.
    assert_eq!(cache.insert(0, 10), None);
    assert_eq!(cache.insert(2, 20), None);
    assert_eq!(cache.len(), 2);
    assert_eq!(cache.get(&0), Some(&10));
    assert_eq!(cache.get(&2), Some(&20));
}

#[test]
fn hash_lookup_roundtrip() {
    let mut cache = AssociativeCache::<
        usize,
        usize,
        Capacity8,
        HashDirectMapped,
        RoundRobinReplacement,
    >::default();

    assert_eq!(cache.insert(42, 7), None);
    assert_eq!(cache.get(&42), Some(&7));
    assert_eq!(cache.insert(42, 8), Some((42, 7)));
    assert_eq!(cache.get(&42), Some(&8));
    assert_eq!(cache.remove(&42), Some(8));
    assert_eq!(cache.get(&42), None);
    assert_eq!(cache.len(), 0);
}
