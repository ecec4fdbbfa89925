use associative_cache::{
    AssociativeCache, Capacity4, LruReplacement, LruTimestamp, PointerDirectMapped, Replacement,
    WithLruTimestamp,
};

fn stamped(t: u64) -> WithLruTimestamp<()> {
    let mut w = WithLruTimestamp::new(());
    w.update_timestamp(t);
    w
}

#[test]
fn lru_replacement() {
    // Timestamps decrease with position: the last candidate is the one
    // touched longest ago.
    let candidates = vec![stamped(3), stamped(2), stamped(1), stamped(0)];
    let pairs: Vec<(usize, &WithLruTimestamp<()>)> =
        candidates.iter().enumerate().collect();

    let replacement = &mut LruReplacement::default();

    let index = <LruReplacement as Replacement<_, Capacity4>>::choose_for_replacement(
        replacement,
        &pairs,
    );

    assert_eq!(index, 3);
}

#[test]
fn lru_timestamp_ref() {
    // Timestamps read back through shared borrows drive the choice.
    let candidates = vec![stamped(3), stamped(2), stamped(1), stamped(0)];
    for (i, c) in candidates.iter().enumerate() {
        assert_eq!(c.get_timestamp(), 3 - i as u64);
    }
    let pairs: Vec<(usize, &WithLruTimestamp<()>)> =
        candidates.iter().enumerate().collect();

    let replacement = &mut LruReplacement::default();

    let index = <LruReplacement as Replacement<_, Capacity4>>::choose_for_replacement(
        replacement,
        &pairs,
    );

    assert_eq!(index, 3);
}

#[test]
fn lru_timestamp_owned() {
    // The same choice is made over owned values wrapped just before the
    // call.
    let stamps: Vec<u64> = vec![3, 2, 1, 0];
    let candidates: Vec<WithLruTimestamp<u64>> = stamps
        .into_iter()
        .map(|t| {
            let mut w = WithLruTimestamp::new(t);
            w.update_timestamp(t);
            w
        })
        .collect();
    let pairs: Vec<(usize, &WithLruTimestamp<u64>)> =
        candidates.iter().enumerate().collect();

    let replacement = &mut LruReplacement::default();

    let index = <LruReplacement as Replacement<_, Capacity4>>::choose_for_replacement(
        replacement,
        &pairs,
    );

    assert_eq!(index, 3);
}

#[test]
fn lru_tie_breaks_to_later_candidate() {
    let candidates = vec![stamped(0), stamped(5), stamped(0), stamped(7)];
    let pairs: Vec<(usize, &WithLruTimestamp<()>)> =
        candidates.iter().enumerate().collect();

    let replacement = &mut LruReplacement::default();

    let index = <LruReplacement as Replacement<_, Capacity4>>::choose_for_replacement(
        replacement,
        &pairs,
    );

    // Positions 0 and 2 tie for the minimum; the later one wins.
    assert_eq!(index, 2);
}

#[test]
fn lru_cache_evicts_least_recently_used() {
    let mut cache = AssociativeCache::<
        usize,
        WithLruTimestamp<usize>,
        Capacity4,
        PointerDirectMapped<1>,
        LruReplacement,
    >::default();

    // Capacity 4, direct-mapped on the key itself: key 0 and key 4 fight
    // over slot 0.
    cache.insert(0, WithLruTimestamp::new(10));
    let e = cache.entry(&0);
    let v = e.or_insert_with(&mut cache, || 0, || WithLruTimestamp::new(0));
    assert_eq!(*v.inner(), 10);

    let evicted = cache.insert(4, WithLruTimestamp::new(40));
    let (k, old) = evicted.expect("slot 0 was occupied, so its entry is evicted");
    assert_eq!(k, 0);
    assert_eq!(WithLruTimestamp::into_inner(old), 10);
    assert_eq!(cache.len(), 1);
}

#[test]
fn lru_hit_refreshes_recency() {
    let mut cache = associative_cache::AssociativeCache::<
        usize,
        WithLruTimestamp<usize>,
        associative_cache::Capacity4,
        associative_cache::PointerTwoWay<1>,
        LruReplacement,
    >::default();

    // Keys 0, 2 and 4 all share the candidate pair {0, 1}.
    assert!(cache.insert(0, WithLruTimestamp::new(10)).is_none());
    assert!(cache.insert(2, WithLruTimestamp::new(20)).is_none());

    // Touch key 0: its timestamp is refreshed from the policy's clock, so
    // key 2's entry is now the least recently used of the pair.
    assert!(cache.get(&0).is_some());

    let (k, v) = cache
        .insert(4, WithLruTimestamp::new(40))
        .expect("both candidates were occupied");
    assert_eq!(k, 2);
    assert_eq!(WithLruTimestamp::into_inner(v), 20);
    assert!(cache.get(&0).is_some());
}

#[test]
fn lru_insert_refreshes_recency() {
    let mut cache = associative_cache::AssociativeCache::<
        usize,
        WithLruTimestamp<usize>,
        associative_cache::Capacity4,
        associative_cache::PointerTwoWay<1>,
        LruReplacement,
    >::default();

    // Keys 0, 2, 4 and 6 all share the candidate pair {0, 1}.
    assert!(cache.insert(0, WithLruTimestamp::new(10)).is_none());
    assert!(cache.insert(2, WithLruTimestamp::new(20)).is_none());
    assert!(cache.remove(&0).is_some());
    assert!(cache.insert(6, WithLruTimestamp::new(60)).is_none());

    // Every insert stamped its value from the policy's clock, so key 2's
    // entry — the oldest insert still present — is the one evicted, even
    // though its slot comes first in candidate order.
    let (k, v) = cache
        .insert(4, WithLruTimestamp::new(40))
        .expect("both candidates were occupied");
    assert_eq!(k, 2);
    assert_eq!(WithLruTimestamp::into_inner(v), 20);
    assert!(cache.get(&6).is_some());
    assert!(cache.get(&4).is_some());
}
