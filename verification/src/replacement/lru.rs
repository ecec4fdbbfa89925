//! Least recently used (LRU) replacement policy implementation and traits
//! for working with LRU timestamps.

use crate::{Capacity, Replacement};
use vstd::prelude::*;

verus! {

/// A trait for anything that carries a timestamp usable by an LRU cache
/// replacement policy.
///
/// The entry with the smallest timestamp value is the one that will be
/// replaced. Timestamps here are logical: the LRU policy hands every hit and
/// insert a fresh reading from its own monotonic clock, so "smallest" means
/// "touched longest ago".
///
/// Don't already have a timestamp in your cache value? Consider the
/// [`WithLruTimestamp`] wrapper around your cache value; that is easier than
/// implementing this trait yourself.
pub trait LruTimestamp {
    /// This value's timestamp, as seen by specifications.
    spec fn spec_timestamp(&self) -> u64;

    /// What it means for two values to carry the same entry, timestamps
    /// aside: `update_timestamp` promises to preserve this relation.
    spec fn spec_same_entry(a: &Self, b: &Self) -> bool;

    /// Get this cache value's timestamp.
    fn get_timestamp(&self) -> (r: u64)
        ensures
            r == self.spec_timestamp(),
    ;

    /// Update this cache value's timestamp to `now`, leaving the rest of the
    /// value as it was.
    fn update_timestamp(&mut self, now: u64)
        ensures
            final(self).spec_timestamp() == now,
            Self::spec_same_entry(old(self), final(self)),
    ;
}

/// A wrapper around a `T` cache value that maintains a timestamp for use
/// with LRU cache replacement policies.
///
/// Ownership of the inner `T` value can be recovered via
/// `WithLruTimestamp::into_inner(x)` once a value has been removed from the
/// cache.
pub struct WithLruTimestamp<T> {
    timestamp: u64,
    inner: T,
}

impl<T> WithLruTimestamp<T> {
    /// The wrapped value, as seen by specifications.
    pub closed spec fn spec_inner(&self) -> T {
        self.inner
    }

    /// Construct a new `WithLruTimestamp` wrapper around an inner value,
    /// with the timestamp at its oldest possible reading.
    pub fn new(inner: T) -> (r: WithLruTimestamp<T>)
        ensures
            r.spec_inner() == inner,
            r.spec_timestamp() == 0,
    {
        WithLruTimestamp { timestamp: 0, inner }
    }

    /// Recover the inner `T` value by consuming a `WithLruTimestamp<T>`.
    pub fn into_inner(outer: WithLruTimestamp<T>) -> (r: T)
        ensures
            r == outer.spec_inner(),
    {
        outer.inner
    }

    /// A shared borrow of the wrapped value.
    pub fn inner(&self) -> (r: &T)
        ensures
            *r == self.spec_inner(),
    {
        &self.inner
    }

    /// An exclusive borrow of the wrapped value; the timestamp is untouched.
    pub fn inner_mut(&mut self) -> (r: &mut T)
        ensures
            *r == old(self).spec_inner(),
            final(self).spec_inner() == *final(r),
            final(self).spec_timestamp() == old(self).spec_timestamp(),
    {
        &mut self.inner
    }
}

impl<T: Default> Default for WithLruTimestamp<T> {
    /// Wrap `T`'s default value.
    fn default() -> Self {
        WithLruTimestamp::new(T::default())
    }
}

impl<T> LruTimestamp for WithLruTimestamp<T> {
    closed spec fn spec_timestamp(&self) -> u64 {
        self.timestamp
    }

    open spec fn spec_same_entry(a: &Self, b: &Self) -> bool {
        a.spec_inner() == b.spec_inner()
    }

    fn get_timestamp(&self) -> (r: u64) {
        self.timestamp
    }

    fn update_timestamp(&mut self, now: u64) {
        self.timestamp = now;
    }
}

/// Least recently used (LRU) cache replacement.
///
/// When considering which one of N candidates to replace, choose the one
/// whose timestamp is smallest; when two candidates tie, the later one in
/// the given order wins. Every hit and insert refreshes the touched value's
/// timestamp from the policy's own monotonic clock.
///
/// Requires that the cache value type implement [`LruTimestamp`].
pub struct LruReplacement {
    clock: u64,
}

impl LruReplacement {
    /// The policy's clock, as seen by specifications.
    pub closed spec fn spec_clock(&self) -> u64 {
        self.clock
    }

    /// Advance the clock; it never moves backwards.
    fn tick(&mut self) -> (now: u64)
        ensures
            now == final(self).spec_clock(),
            final(self).spec_clock() >= old(self).spec_clock(),
    {
        if self.clock < u64::MAX {
            self.clock = self.clock + 1;
        }
        self.clock
    }

    /// The LRU choice: the returned index belongs to a candidate holding the
    /// minimum timestamp, and of the candidates that tie for the minimum it
    /// is the last one in the given order. The clock does not move.
    pub fn choose_lru<V: LruTimestamp>(&mut self, candidates: &Vec<(usize, &V)>) -> (r: usize)
        requires
            candidates@.len() > 0,
        ensures
            *final(self) == *old(self),
            exists|i: int|
                {
                    &&& 0 <= i < candidates@.len()
                    &&& r == (#[trigger] candidates@[i]).0
                    &&& forall|j: int|
                        0 <= j < candidates@.len() ==> candidates@[i].1.spec_timestamp() <= (
                        #[trigger] candidates@[j]).1.spec_timestamp()
                    &&& forall|j: int|
                        i < j < candidates@.len() ==> candidates@[i].1.spec_timestamp() < (
                        #[trigger] candidates@[j]).1.spec_timestamp()
                },
    {
        let mut best: usize = 0;
        let mut best_ts: u64 = candidates[0].1.get_timestamp();
        let mut k: usize = 1;
        while k < candidates.len()
            invariant
                candidates@.len() > 0,
                1 <= k <= candidates@.len(),
                best < k,
                best_ts == candidates@[best as int].1.spec_timestamp(),
                forall|j: int| 0 <= j < k ==> best_ts <= (#[trigger] candidates@[j]).1.spec_timestamp(),
                forall|j: int|
                    best < j < k ==> best_ts < (#[trigger] candidates@[j]).1.spec_timestamp(),
            decreases candidates@.len() - k,
        {
            let ts = candidates[k].1.get_timestamp();
            if ts <= best_ts {
                best = k;
                best_ts = ts;
            }
            k += 1;
        }
        candidates[best].0
    }
}

impl Default for LruReplacement {
    /// An LRU policy whose clock starts at zero.
    fn default() -> (r: Self)
        ensures
            r.spec_clock() == 0,
    {
        LruReplacement { clock: 0 }
    }
}

impl<V: LruTimestamp, C: Capacity> Replacement<V, C> for LruReplacement {
    /// A hit preserves the entry itself and refreshes its timestamp to the
    /// policy's clock, which never moves backwards.
    open spec fn spec_hit(pre: Self, v0: V, post: Self, v1: V) -> bool {
        &&& V::spec_same_entry(&v0, &v1)
        &&& v1.spec_timestamp() == post.spec_clock()
        &&& post.spec_clock() >= pre.spec_clock()
    }

    /// An insert notification preserves the entry itself and refreshes its
    /// timestamp to the policy's clock, which never moves backwards.
    open spec fn spec_insert(pre: Self, v0: V, post: Self, v1: V) -> bool {
        &&& V::spec_same_entry(&v0, &v1)
        &&& v1.spec_timestamp() == post.spec_clock()
        &&& post.spec_clock() >= pre.spec_clock()
    }

    /// The last candidate holding the minimum timestamp is picked; the
    /// clock does not move.
    open spec fn spec_choose(
        pre: Self,
        candidates: Seq<(usize, V)>,
        chosen: usize,
        post: Self,
    ) -> bool {
        &&& post == pre
        &&& exists|i: int|
            {
                &&& 0 <= i < candidates.len()
                &&& chosen == (#[trigger] candidates[i]).0
                &&& forall|j: int|
                    0 <= j < candidates.len() ==> candidates[i].1.spec_timestamp() <= (
                    #[trigger] candidates[j]).1.spec_timestamp()
                &&& forall|j: int|
                    i < j < candidates.len() ==> candidates[i].1.spec_timestamp() < (
                    #[trigger] candidates[j]).1.spec_timestamp()
            }
    }

    fn choose_for_replacement(&mut self, candidates: &Vec<(usize, &V)>) -> (r: usize) {
        let r = self.choose_lru(candidates);
        proof {
            let mapped = candidates@.map_values(|p: (usize, &V)| (p.0, *p.1));
            let i = choose|i: int|
                {
                    &&& 0 <= i < candidates@.len()
                    &&& r == (#[trigger] candidates@[i]).0
                    &&& forall|j: int|
                        0 <= j < candidates@.len() ==> candidates@[i].1.spec_timestamp() <= (
                        #[trigger] candidates@[j]).1.spec_timestamp()
                    &&& forall|j: int|
                        i < j < candidates@.len() ==> candidates@[i].1.spec_timestamp() < (
                        #[trigger] candidates@[j]).1.spec_timestamp()
                };
            assert forall|j: int| 0 <= j < mapped.len() implies mapped[i].1.spec_timestamp() <= (
                #[trigger] mapped[j]).1.spec_timestamp() by {
                assert(mapped[j] == (candidates@[j].0, *candidates@[j].1));
            }
            assert forall|j: int| i < j < mapped.len() implies mapped[i].1.spec_timestamp() < (
                #[trigger] mapped[j]).1.spec_timestamp() by {
                assert(mapped[j] == (candidates@[j].0, *candidates@[j].1));
            }
            assert(mapped[i].0 == candidates@[i].0);
        }
        r
    }

    fn on_hit(&mut self, value: &mut V) {
        let now = self.tick();
        value.update_timestamp(now);
    }

    fn on_insert(&mut self, value: &mut V) {
        let now = self.tick();
        value.update_timestamp(now);
    }
}

} // verus!
