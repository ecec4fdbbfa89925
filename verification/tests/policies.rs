use associative_cache::{
    AssociativeCache, Capacity1, Capacity4, Capacity8, PointerDirectMapped, PointerTwoWay,
    RandomReplacement, Replacement, RoundRobinReplacement,
};

#[test]
fn round_robin_cycles_through_positions() {
    let values: Vec<u64> = vec![10, 20, 30];
    let pairs: Vec<(usize, &u64)> = values.iter().enumerate().collect();

    let mut policy = RoundRobinReplacement::default();
    let mut picks = Vec::new();
    for _ in 0..6 {
        picks.push(<RoundRobinReplacement as Replacement<u64, Capacity4>>::choose_for_replacement(
            &mut policy,
            &pairs,
        ));
    }
    assert_eq!(picks, vec![0, 1, 2, 0, 1, 2]);
}

#[test]
fn random_replacement_picks_a_candidate() {
    let mut cache = AssociativeCache::<
        usize,
        usize,
        Capacity1,
        PointerDirectMapped<1>,
        RandomReplacement,
    >::default();

    // With a single slot there is only one candidate the policy can name.
    assert_eq!(cache.insert(1, 1), None);
    assert_eq!(cache.insert(2, 2), Some((1, 1)));
    assert_eq!(cache.len(), 1);
}

#[test]
fn random_replacement_evicts_within_group() {
    let mut cache = AssociativeCache::<
        usize,
        usize,
        Capacity8,
        PointerTwoWay<1>,
        RandomReplacement,
    >::default();

    // Keys 0, 4 and 8 all map to the candidate pair {0, 1}.
    assert_eq!(cache.insert(0, 0), None);
    assert_eq!(cache.insert(4, 4), None);
    let evicted = cache.insert(8, 8).expect("both candidates were occupied");
    assert!(evicted == (0, 0) || evicted == (4, 4));
    assert_eq!(cache.len(), 2);
    assert_eq!(cache.get(&8), Some(&8));
}
