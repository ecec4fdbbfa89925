//! A fixed-capacity, set-associative cache: a map from keys to values stored
//! in a preallocated array of slots. A key may only live in a small, fixed
//! set of candidate slots chosen by an [`Indices`] strategy, and when every
//! candidate is occupied a pluggable [`Replacement`] policy chooses which
//! occupant to evict.
//!
//! Dive into the documentation for [`AssociativeCache`] to begin.

pub mod capacity;
pub mod entry;
pub mod indices;
pub mod iter;
pub mod replacement;

pub use capacity::{
    Capacity1, Capacity2, Capacity4, Capacity8, Capacity16, Capacity32, Capacity64, Capacity128,
    Capacity256, Capacity512, Capacity1024, Capacity2048, Capacity4096, Capacity8192,
};
pub use entry::Entry;
use entry::EntryKind;
pub use indices::{
    HashDirectMapped, HashTwoWay, HashFourWay, HashEightWay, HashSixteenWay, HashThirtyTwoWay,
    PointerDirectMapped, PointerTwoWay, PointerFourWay, PointerEightWay, PointerSixteenWay,
    PointerThirtyTwoWay,
};
pub use iter::{IntoIter, Iter};
pub use replacement::{RandomReplacement, RoundRobinReplacement};
pub use replacement::lru::{LruReplacement, LruTimestamp, WithLruTimestamp};

use core::marker::PhantomData;
use vstd::prelude::*;
use vstd::std_specs::cmp::PartialEqSpec;

verus! {

/// A constant cache capacity: the fixed number of slots a cache owns.
///
/// Implementations must report a capacity of at least one; a cache with no
/// slots cannot hold anything, and constructing one is a contract violation
/// that verification rules out.
pub trait Capacity {
    /// The capacity as a specification-level constant.
    spec fn spec_capacity() -> usize;

    /// The constant capacity for a cache. Must be greater than zero.
    fn capacity() -> (r: usize)
        ensures
            r == Self::spec_capacity(),
            r >= 1,
    ;
}

/// Key equality agrees with specification-level equality: the executable
/// `==` on `K` decides exactly whether two keys are the same mathematical
/// value. The cache's contracts speak of keys up to this equality, so they
/// are only meaningful for key types whose `PartialEq` is structural.
pub open spec fn obeys_structural_eq<K: PartialEq>() -> bool {
    &&& K::obeys_eq_spec()
    &&& forall|a: K, b: K| #[trigger] a.eq_spec(&b) <==> a == b
}

/// Given a cache key, name all the slots within the cache where its entry
/// might be.
///
/// The number of indices yielded is the cache's associativity: a
/// direct-mapped strategy yields one slot per key, a two-way strategy two,
/// and so on. The set of candidates is a pure function of the key
/// ([`Indices::spec_indices`]), so it is deterministic by construction; all
/// candidates lie below the capacity, and there is always at least one.
pub trait Indices<K, C: Capacity> {
    /// Whether this strategy can serve a cache of capacity `C` at all
    /// (for the provided strategies: the capacity is at least the
    /// associativity). Every cache operation that computes candidate slots
    /// demands it.
    spec fn compatible() -> bool;

    /// The candidate slots for `key`, as a specification-level sequence.
    spec fn spec_indices(key: K) -> Seq<usize>;

    /// The candidate sequence is non-empty and every candidate is in bounds.
    proof fn lemma_indices_wf(key: K)
        requires
            Self::compatible(),
        ensures
            Self::spec_indices(key).len() > 0,
            forall|j: int|
                0 <= j < Self::spec_indices(key).len() ==> (#[trigger] Self::spec_indices(
                    key,
                )[j]) < C::spec_capacity(),
    ;

    /// Compute the candidate slots for `key`.
    fn indices(key: &K) -> (r: Vec<usize>)
        requires
            Self::compatible(),
        ensures
            r@ == Self::spec_indices(*key),
    ;
}

/// Given that a new entry must replace one of the `candidates`, pick the
/// index whose entry will be replaced; the policy also receives hit and
/// insert notifications for internal bookkeeping such as recency tracking.
///
/// Each operation's whole behaviour is pinned by a relation the
/// implementation defines: what a hit or an insert notification does to the
/// policy's state and to the touched value (`spec_hit`, `spec_insert`), and
/// which candidate an eviction decision picks (`spec_choose`). The cache
/// engine carries these relations through its own contracts, so a caller
/// who knows the concrete policy knows exactly what the cache did.
pub trait Replacement<V, C: Capacity>: Sized {
    /// What `on_hit` does: policy state `pre` becomes `post`, and the hit
    /// value `v0` becomes `v1`.
    spec fn spec_hit(pre: Self, v0: V, post: Self, v1: V) -> bool;

    /// What `on_insert` does: policy state `pre` becomes `post`, and the
    /// freshly stored value `v0` becomes `v1`.
    spec fn spec_insert(pre: Self, v0: V, post: Self, v1: V) -> bool;

    /// What an eviction decision does: from state `pre`, shown `candidates`
    /// as index/value pairs, the policy may pick the index `chosen` and
    /// move to state `post`.
    spec fn spec_choose(pre: Self, candidates: Seq<(usize, V)>, chosen: usize, post: Self) -> bool;

    /// Choose which of the given `(index, entry)` candidates will be
    /// replaced. The returned index is always one of the given candidate
    /// indices, and the pick follows the policy's own choice relation.
    /// Called only when every candidate slot is already occupied.
    fn choose_for_replacement(&mut self, candidates: &Vec<(usize, &V)>) -> (r: usize)
        requires
            candidates@.len() > 0,
        ensures
            exists|i: int| 0 <= i < candidates@.len() && (#[trigger] candidates@[i]).0 == r,
            Self::spec_choose(
                *old(self),
                candidates@.map_values(|p: (usize, &V)| (p.0, *p.1)),
                r,
                *final(self),
            ),
    ;

    /// Called whenever an existing cache entry is hit.
    fn on_hit(&mut self, value: &mut V)
        ensures
            Self::spec_hit(*old(self), *old(value), *final(self), *final(value)),
    ;

    /// Called whenever a new cache entry is inserted.
    fn on_insert(&mut self, value: &mut V)
        ensures
            Self::spec_insert(*old(self), *old(value), *final(self), *final(value)),
    ;
}

/// The number of occupied slots in a slot sequence.
pub open spec fn occupied_slot_count<K, V>(s: Seq<Option<(K, V)>>) -> nat
    decreases s.len(),
{
    if s.len() == 0 {
        0
    } else {
        occupied_slot_count(s.drop_last()) + if s.last() is Some {
            1nat
        } else {
            0nat
        }
    }
}

/// Appending a slot adds its own contribution to the occupied count.
pub proof fn lemma_occupied_slot_count_push<K, V>(s: Seq<Option<(K, V)>>, x: Option<(K, V)>)
    ensures
        occupied_slot_count(s.push(x)) == occupied_slot_count(s) + if x is Some {
            1nat
        } else {
            0nat
        },
{
    assert(s.push(x).drop_last() =~= s);
    assert(s.push(x).last() == x);
}

/// Overwriting one slot changes the occupied count by exactly the difference
/// of the old and new slot's contributions.
pub proof fn lemma_occupied_slot_count_update<K, V>(
    s: Seq<Option<(K, V)>>,
    i: int,
    x: Option<(K, V)>,
)
    requires
        0 <= i < s.len(),
    ensures
        occupied_slot_count(s.update(i, x)) + if s[i] is Some {
            1nat
        } else {
            0nat
        } == occupied_slot_count(s) + if x is Some {
            1nat
        } else {
            0nat
        },
    decreases s.len(),
{
    if i == s.len() - 1 {
        assert(s.update(i, x).drop_last() =~= s.drop_last());
        assert(s.update(i, x).last() == x);
    } else {
        assert(s.update(i, x).drop_last() =~= s.drop_last().update(i, x));
        assert(s.update(i, x).last() == s.last());
        lemma_occupied_slot_count_update(s.drop_last(), i, x);
    }
}

/// The occupied count never exceeds the number of slots.
pub proof fn lemma_occupied_slot_count_le<K, V>(s: Seq<Option<(K, V)>>)
    ensures
        occupied_slot_count(s) <= s.len(),
    decreases s.len(),
{
    if s.len() > 0 {
        lemma_occupied_slot_count_le(s.drop_last());
    }
}

/// An occupied slot witnesses that the occupied count is positive.
pub proof fn lemma_occupied_slot_count_positive<K, V>(s: Seq<Option<(K, V)>>, i: int)
    requires
        0 <= i < s.len(),
        s[i] is Some,
    ensures
        occupied_slot_count(s) >= 1,
    decreases s.len(),
{
    if i == s.len() - 1 {
    } else {
        lemma_occupied_slot_count_positive(s.drop_last(), i);
    }
}

/// The distinct keys that occupy slots of a slot sequence.
pub open spec fn live_keys<K, V>(s: Seq<Option<(K, V)>>) -> Set<K> {
    Set::new(
        |k: K|
            exists|i: int| 0 <= i < s.len() && ((#[trigger] s[i]) matches Some(p) && p.0 == k),
    )
}

/// When no key occupies two slots, the occupied slots are in one-to-one
/// correspondence with the live keys: the occupied count is the number of
/// distinct keys.
pub proof fn lemma_live_keys_count<K, V>(s: Seq<Option<(K, V)>>)
    requires
        forall|i: int, j: int|
            0 <= i < s.len() && 0 <= j < s.len() && i != j ==> ((#[trigger] s[i]) matches Some(p)
                ==> ((#[trigger] s[j]) matches Some(q) ==> p.0 != q.0)),
    ensures
        live_keys(s).finite(),
        live_keys(s).len() == occupied_slot_count(s),
    decreases s.len(),
{
    if s.len() == 0 {
        assert(live_keys(s) =~= Set::<K>::empty());
        broadcast use vstd::set::axiom_set_empty_finite;
        broadcast use vstd::set::axiom_set_empty_len;
    } else {
        let t = s.drop_last();
        lemma_live_keys_count(t);
        match s.last() {
            None => {
                assert(live_keys(s) =~= live_keys(t)) by {
                    assert forall|k: K| live_keys(s).contains(k) implies live_keys(t).contains(
                        k,
                    ) by {
                        let i = choose|i: int|
                            0 <= i < s.len() && ((#[trigger] s[i]) matches Some(q) && q.0 == k);
                        assert(t[i] == s[i]);
                    }
                    assert forall|k: K| live_keys(t).contains(k) implies live_keys(s).contains(
                        k,
                    ) by {
                        let i = choose|i: int|
                            0 <= i < t.len() && ((#[trigger] t[i]) matches Some(q) && q.0 == k);
                        assert(s[i] == t[i]);
                    }
                }
            },
            Some(p) => {
                assert(!live_keys(t).contains(p.0));
                assert(live_keys(s) =~= live_keys(t).insert(p.0)) by {
                    assert forall|k: K| live_keys(s).contains(k) implies live_keys(t).insert(
                        p.0,
                    ).contains(k) by {
                        let i = choose|i: int|
                            0 <= i < s.len() && ((#[trigger] s[i]) matches Some(q) && q.0 == k);
                        if i < s.len() - 1 {
                            assert(t[i] == s[i]);
                        }
                    }
                    assert forall|k: K| live_keys(t).insert(p.0).contains(k) implies live_keys(
                        s,
                    ).contains(k) by {
                        if live_keys(t).contains(k) {
                            let i = choose|i: int|
                                0 <= i < t.len() && ((#[trigger] t[i]) matches Some(q) && q.0
                                    == k);
                            assert(s[i] == t[i]);
                        } else {
                            assert(s[s.len() - 1] == Some(p));
                        }
                    }
                }
                vstd::set::axiom_set_insert_finite(live_keys(t), p.0);
                vstd::set::axiom_set_insert_len(live_keys(t), p.0);
            },
        }
    }
}

/// Pair each candidate slot with a borrow of the value it holds, for the
/// replacement policy to judge. Demands that every candidate is occupied.
fn collect_occupied_candidates<'a, K, V>(
    entries: &'a Vec<Option<(K, V)>>,
    cands: &Vec<usize>,
) -> (r: Vec<(usize, &'a V)>)
    requires
        forall|j: int| 0 <= j < cands@.len() ==> (#[trigger] cands@[j]) < entries@.len(),
        forall|j: int| 0 <= j < cands@.len() ==> entries@[(#[trigger] cands@[j]) as int] is Some,
    ensures
        r@.len() == cands@.len(),
        forall|m: int|
            0 <= m < cands@.len() ==> (#[trigger] r@[m]).0 == cands@[m] && r@[m].1
                == (entries@[cands@[m] as int]->0).1,
{
    let mut r: Vec<(usize, &V)> = Vec::new();
    let mut t: usize = 0;
    while t < cands.len()
        invariant
            forall|j: int| 0 <= j < cands@.len() ==> (#[trigger] cands@[j]) < entries@.len(),
            forall|j: int|
                0 <= j < cands@.len() ==> entries@[(#[trigger] cands@[j]) as int] is Some,
            t <= cands@.len(),
            r@.len() == t,
            forall|m: int|
                0 <= m < t ==> (#[trigger] r@[m]).0 == cands@[m] && r@[m].1 == (entries@[cands@[m]
                    as int]->0).1,
        decreases cands@.len() - t,
    {
        let idx = cands[t];
        match &entries[idx] {
            Some(p) => {
                r.push((idx, &p.1));
            },
            None => {
                proof {
                    assert(false);
                }
            },
        }
        t += 1;
    }
    r
}

/// How one slot fares under `retain`'s predicate `f`: an empty slot stays
/// empty; an occupied slot either survives unchanged, which `f` approved,
/// or is cleared, which `f` rejected.
pub open spec fn retained_slot<K, V, F: Fn(&K, &V) -> bool>(
    f: F,
    before: Option<(K, V)>,
    after: Option<(K, V)>,
) -> bool {
    match before {
        None => after is None,
        Some(p) => (after == before && call_ensures(f, (&p.0, &p.1), true)) || (after is None
            && call_ensures(f, (&p.0, &p.1), false)),
    }
}

/// A fixed-size associative cache mapping `K` keys to `V` values.
///
/// The cache owns a slot array of constant length `C::spec_capacity()`,
/// allocated once at construction and never resized. The `I` strategy maps
/// each key to its candidate slots, and the `R` policy arbitrates evictions
/// among full candidates.
///
/// The abstraction (`self@`) is the slot sequence itself: a sequence of
/// `Option<(K, V)>` of length equal to the capacity. Well-formedness
/// ([`AssociativeCache::wf`]) pins the three structural invariants: the
/// length is the capacity, `len` counts the occupied slots, an occupied
/// slot's key always has that slot among its candidates (placement), and no
/// key occupies two slots at once (uniqueness).
pub struct AssociativeCache<K, V, C, I, R> where C: Capacity, R: Replacement<V, C> {
    entries: Vec<Option<(K, V)>>,
    len: usize,
    replacement_policy: R,
    _capacity: PhantomData<C>,
    _indices: PhantomData<I>,
}

impl<K, V, C, I, R> View for AssociativeCache<K, V, C, I, R> where
    C: Capacity,
    R: Replacement<V, C>,
 {
    type V = Seq<Option<(K, V)>>;

    open(crate) spec fn view(&self) -> Seq<Option<(K, V)>> {
        self.entries@
    }
}

impl<K, V, C, I, R> AssociativeCache<K, V, C, I, R> where
    K: PartialEq,
    C: Capacity,
    I: Indices<K, C>,
    R: Replacement<V, C>,
 {
    /// The number of occupied slots, as recorded by the cache.
    pub open(crate) spec fn spec_len(&self) -> usize {
        self.len
    }

    /// The replacement policy state.
    pub open(crate) spec fn spec_policy(&self) -> R {
        self.replacement_policy
    }

    /// Placement invariant: if slot `i` is occupied by key `k`, then `i` is
    /// one of `k`'s candidate slots.
    pub open spec fn placement_ok(&self) -> bool {
        forall|i: int|
            0 <= i < self@.len() ==> ((#[trigger] self@[i]) matches Some(p)
                ==> I::spec_indices(p.0).contains(i as usize))
    }

    /// Uniqueness invariant: at most one slot holds a given key at a time.
    pub open spec fn keys_unique(&self) -> bool {
        forall|i: int, j: int|
            0 <= i < self@.len() && 0 <= j < self@.len() && i != j
                ==> ((#[trigger] self@[i]) matches Some(p) ==> ((#[trigger] self@[j]) matches Some(
                q,
            ) ==> p.0 != q.0))
    }

    /// Well-formedness: the slot array has exactly the configured capacity,
    /// `len` counts the occupied slots, and the placement and uniqueness
    /// invariants hold.
    pub open spec fn wf(&self) -> bool {
        &&& self@.len() == C::spec_capacity()
        &&& self.spec_len() == occupied_slot_count(self@)
        &&& self.placement_ok()
        &&& self.keys_unique()
    }

    /// Whether some slot holds an entry for `k`.
    pub open spec fn spec_contains_key(&self, k: K) -> bool {
        exists|i: int|
            0 <= i < self@.len() && ((#[trigger] self@[i]) matches Some(p) && p.0 == k)
    }

    /// The slot holding `k`'s entry (meaningful when `spec_contains_key`).
    pub open spec fn slot_of(&self, k: K) -> int {
        choose|i: int|
            0 <= i < self@.len() && ((#[trigger] self@[i]) matches Some(p) && p.0 == k)
    }

    /// The value stored for `k` (meaningful when `spec_contains_key`).
    pub open spec fn spec_value_of(&self, k: K) -> V
        recommends
            self.spec_contains_key(k),
    {
        (self@[self.slot_of(k)]->0).1
    }

    /// Whether some candidate slot for `key` is empty.
    pub open spec fn spec_has_empty_candidate(&self, key: K) -> bool {
        exists|j: int|
            0 <= j < I::spec_indices(key).len() && self@[(#[trigger] I::spec_indices(key)[j])
                as int] is None
    }

    /// The slot an `entry` lookup settles on when `key` is absent but a
    /// candidate slot is still empty: the first empty candidate, in
    /// candidate order. (`insert` prefers the highest-index empty candidate
    /// instead; the asymmetry is deliberate.)
    pub open spec fn spec_is_first_empty_candidate(&self, key: K, e: usize) -> bool {
        exists|j: int|
            {
                &&& 0 <= j < I::spec_indices(key).len()
                &&& #[trigger] I::spec_indices(key)[j] == e
                &&& self@[e as int] is None
                &&& forall|j2: int|
                    0 <= j2 < j ==> self@[(#[trigger] I::spec_indices(key)[j2]) as int] is Some
            }
    }

    /// The slot `insert` fills when `key` is absent but a candidate slot is
    /// still empty: an empty candidate of the highest index.
    pub open spec fn spec_is_insertion_slot(&self, key: K, e: usize) -> bool {
        &&& I::spec_indices(key).contains(e)
        &&& self@[e as int] is None
        &&& forall|j: int|
            0 <= j < I::spec_indices(key).len() && self@[(#[trigger] I::spec_indices(key)[j])
                as int] is None ==> I::spec_indices(key)[j] <= e
    }

    /// What the replacement policy is shown when every candidate slot for
    /// `key` is occupied: each candidate index paired with the value it
    /// holds, in candidate order.
    pub open spec fn spec_eviction_candidates(&self, key: K) -> Seq<(usize, V)> {
        Seq::new(
            I::spec_indices(key).len(),
            |j: int|
                (I::spec_indices(key)[j], (self@[I::spec_indices(key)[j] as int]->0).1),
        )
    }

    /// Under well-formedness a key's slot is unique: any occupied slot
    /// holding `k` is the one `slot_of` names.
    pub proof fn lemma_slot_of(&self, k: K, i: int)
        requires
            self.wf(),
            0 <= i < self@.len(),
            self@[i] matches Some(p) && p.0 == k,
        ensures
            self.spec_contains_key(k),
            self.slot_of(k) == i,
            self@[i] == Some((k, self.spec_value_of(k))),
    {
        assert(self.spec_contains_key(k));
        let j = self.slot_of(k);
        assert(0 <= j < self@.len() && (self@[j] matches Some(q) && q.0 == k));
        if i != j {
            assert(false);
        }
    }

    /// The set of keys currently stored in the cache.
    pub open spec fn spec_key_set(&self) -> Set<K> {
        live_keys(self@)
    }

    /// For every reachable cache state — well-formedness is preserved by
    /// every operation — the recorded length equals the number of distinct
    /// live keys, and lies between zero and the capacity.
    pub proof fn lemma_len_is_live_key_count(&self)
        requires
            self.wf(),
        ensures
            self.spec_key_set().finite(),
            self.spec_len() == self.spec_key_set().len(),
            self.spec_len() <= C::spec_capacity(),
    {
        lemma_live_keys_count(self@);
        lemma_occupied_slot_count_le(self@);
    }

    /// Placement: whenever slot `i` is occupied by a key, `i` is one of that
    /// key's candidate slots.
    pub proof fn lemma_occupied_slot_is_candidate(&self, i: int)
        requires
            self.wf(),
            0 <= i < self@.len(),
        ensures
            self@[i] matches Some(p) ==> I::spec_indices(p.0).contains(i as usize),
    {
    }

    /// Construct an `AssociativeCache` with the given replacement policy.
    ///
    /// The cache starts with every slot empty.
    pub fn with_replacement_policy(replacement_policy: R) -> (r: Self)
        ensures
            r.wf(),
            r.spec_len() == 0,
            r@.len() == C::spec_capacity(),
            forall|i: int| 0 <= i < r@.len() ==> (#[trigger] r@[i]) is None,
            r.spec_policy() == replacement_policy,
    {
        let capacity = C::capacity();
        let mut entries: Vec<Option<(K, V)>> = Vec::with_capacity(capacity);
        let mut i: usize = 0;
        while i < capacity
            invariant
                i <= capacity,
                entries@.len() == i,
                forall|j: int| 0 <= j < i ==> (#[trigger] entries@[j]) is None,
                occupied_slot_count(entries@) == 0,
            decreases capacity - i,
        {
            proof {
                lemma_occupied_slot_count_push(entries@, None::<(K, V)>);
            }
            entries.push(None);
            i += 1;
        }
        AssociativeCache {
            entries,
            len: 0,
            replacement_policy,
            _capacity: PhantomData,
            _indices: PhantomData,
        }
    }

    /// Get a shared reference to this cache's replacement policy.
    pub fn replacement_policy(&self) -> (r: &R)
        ensures
            *r == self.spec_policy(),
    {
        &self.replacement_policy
    }

    /// Get an exclusive reference to this cache's replacement policy.
    ///
    /// Whatever the caller writes through the reference becomes the cache's
    /// policy; the slots and the length are untouched.
    pub fn replacement_policy_mut(&mut self) -> (r: &mut R)
        ensures
            *r == old(self).spec_policy(),
            final(self).spec_policy() == *final(r),
            final(self)@ == old(self)@,
            final(self).spec_len() == old(self).spec_len(),
    {
        &mut self.replacement_policy
    }

    /// Get this cache's constant capacity.
    pub fn capacity(&self) -> (r: usize)
        ensures
            r == C::spec_capacity(),
            r >= 1,
    {
        C::capacity()
    }

    /// Get the number of entries in this cache.
    ///
    /// Under well-formedness this is exactly the number of occupied slots,
    /// and never exceeds the capacity.
    pub fn len(&self) -> (r: usize)
        ensures
            r == self.spec_len(),
    {
        self.len
    }

    /// Insert a new entry into the cache.
    ///
    /// If there is an old entry for this key, or if another entry ends up
    /// getting replaced by this new one, return the old entry.
    ///
    /// The candidate slots are scanned and classified. An occupied candidate
    /// holding this same key always wins: its value is overwritten in place
    /// and the old pair returned — this overwrite-in-place path bypasses the
    /// policy's `on_insert` hook. Otherwise the slot is freshly written and
    /// the policy is notified of the insert: an empty candidate, of the
    /// highest index if there are several, receives the entry and nothing is
    /// returned, or, when every candidate is occupied by another key, the
    /// replacement policy picks the victim, whose pair is returned.
    pub fn insert(&mut self, key: K, value: V) -> (r: Option<(K, V)>)
        requires
            old(self).wf(),
            I::compatible(),
            obeys_structural_eq::<K>(),
        ensures
            final(self).wf(),
            final(self)@.len() == old(self)@.len(),
            old(self).spec_contains_key(key) ==> {
                &&& r == Some((key, old(self).spec_value_of(key)))
                &&& final(self)@ == old(self)@.update(
                    old(self).slot_of(key),
                    Some((key, value)),
                )
                &&& final(self).spec_len() == old(self).spec_len()
                &&& final(self).spec_policy() == old(self).spec_policy()
            },
            !old(self).spec_contains_key(key) && old(self).spec_has_empty_candidate(key) ==> {
                &&& r is None
                &&& exists|e: usize, v1: V|
                    #![trigger old(self).spec_is_insertion_slot(key, e), R::spec_insert(
                        old(self).spec_policy(),
                        value,
                        final(self).spec_policy(),
                        v1,
                    )]
                    {
                        &&& old(self).spec_is_insertion_slot(key, e)
                        &&& R::spec_insert(
                            old(self).spec_policy(),
                            value,
                            final(self).spec_policy(),
                            v1,
                        )
                        &&& final(self)@ == old(self)@.update(e as int, Some((key, v1)))
                    }
                &&& final(self).spec_len() == old(self).spec_len() + 1
            },
            !old(self).spec_contains_key(key) && !old(self).spec_has_empty_candidate(key) ==> {
                &&& exists|j: int, mid: R, v1: V|
                    #![trigger R::spec_choose(
                        old(self).spec_policy(),
                        old(self).spec_eviction_candidates(key),
                        I::spec_indices(key)[j],
                        mid,
                    ), R::spec_insert(mid, value, final(self).spec_policy(), v1)]
                    {
                        &&& 0 <= j < I::spec_indices(key).len()
                        &&& old(self)@[I::spec_indices(key)[j] as int] matches Some(p) && r
                            == Some(p)
                        &&& R::spec_choose(
                            old(self).spec_policy(),
                            old(self).spec_eviction_candidates(key),
                            I::spec_indices(key)[j],
                            mid,
                        )
                        &&& R::spec_insert(mid, value, final(self).spec_policy(), v1)
                        &&& final(self)@ == old(self)@.update(
                            I::spec_indices(key)[j] as int,
                            Some((key, v1)),
                        )
                    }
                &&& final(self).spec_len() == old(self).spec_len()
            },
    {
        proof {
            I::lemma_indices_wf(key);
        }
        let ghost v0 = value;
        let mut stored = value;
        let cands = I::indices(&key);
        let ghost cs = I::spec_indices(key);

        // Scan the candidates for this key's own slot and for the best
        // (highest-index) empty slot.
        let mut same_key: Option<usize> = None;
        let mut empty: Option<usize> = None;
        let mut t: usize = 0;
        while t < cands.len()
            invariant
                self.wf(),
                I::compatible(),
                obeys_structural_eq::<K>(),
                cands@ == cs,
                cs == I::spec_indices(key),
                t <= cs.len(),
                forall|j: int| 0 <= j < cs.len() ==> (#[trigger] cs[j]) < self@.len(),
                match same_key {
                    Some(i) => {
                        &&& cs.contains(i)
                        &&& i < self@.len()
                        &&& self@[i as int] matches Some(p) && p.0 == key
                    },
                    None => forall|j: int|
                        0 <= j < t ==> ((#[trigger] self@[cs[j] as int]) matches Some(p)
                            ==> p.0 != key),
                },
                match empty {
                    Some(e) => {
                        &&& cs.contains(e)
                        &&& self@[e as int] is None
                        &&& forall|j: int|
                            0 <= j < t && self@[(#[trigger] cs[j]) as int] is None ==> cs[j]
                                <= e
                    },
                    None => forall|j: int| 0 <= j < t ==> self@[(#[trigger] cs[j]) as int] is Some,
                },
            decreases cs.len() - t,
        {
            let idx = cands[t];
            match &self.entries[idx] {
                None => {
                    match empty {
                        Some(e) => {
                            if idx > e {
                                empty = Some(idx);
                            }
                        },
                        None => {
                            empty = Some(idx);
                        },
                    }
                },
                Some(p) => {
                    if p.0 == key {
                        same_key = Some(idx);
                    }
                },
            }
            proof {
                assert(cs.contains(cs[t as int]));
            }
            t += 1;
        }

        if let Some(i) = same_key {
            // Overwrite the existing entry for this key in place; the
            // policy's insert hook is bypassed on this path.
            proof {
                self.lemma_slot_of(key, i as int);
                lemma_occupied_slot_count_update(self@, i as int, Some((key, stored)));
            }
            let mut slot: Option<(K, V)> = Some((key, stored));
            self.entries.set_and_swap(i, &mut slot);
            proof {
                assert(final(self)@ =~= old(self)@.update(
                    old(self).slot_of(key),
                    Some((key, v0)),
                ));
            }
            return slot;
        }

        // The key is absent: had it occupied a slot, placement would put that
        // slot among the candidates, and the scan would have found it.
        proof {
            if old(self).spec_contains_key(key) {
                let i = old(self).slot_of(key);
                assert(cs.contains(i as usize));
                let j = choose|j: int| 0 <= j < cs.len() && cs[j] == i as usize;
                assert(false);
            }
        }

        if let Some(e) = empty {
            // A free candidate slot: no other entry is disturbed. The slot
            // is freshly written, so the policy hears about the insert and
            // may stamp the value.
            self.replacement_policy.on_insert(&mut stored);
            let ghost v1 = stored;
            proof {
                lemma_occupied_slot_count_update(self@, e as int, Some((key, stored)));
                lemma_occupied_slot_count_le(self@.update(e as int, Some((key, stored))));
            }
            self.entries.set(e, Some((key, stored)));
            self.len += 1;
            proof {
                assert(old(self).spec_is_insertion_slot(key, e));
                assert(R::spec_insert(old(self).spec_policy(), v0, self.spec_policy(), v1));
            }
            return None;
        }

        // Every candidate is occupied by a different key: ask the policy.
        proof {
            assert forall|j: int| 0 <= j < cs.len() implies self@[(#[trigger] cs[j]) as int]
                is Some by {
                assert(cs.contains(cs[j]));
            }
        }
        let victims = collect_occupied_candidates(&self.entries, &cands);
        let chosen = self.replacement_policy.choose_for_replacement(&victims);
        proof {
            let w = choose|m: int| 0 <= m < victims@.len() && (#[trigger] victims@[m]).0 == chosen;
            assert(cs.contains(cs[w]));
            assert(victims@.map_values(|p: (usize, &V)| (p.0, *p.1)) =~= old(
                self,
            ).spec_eviction_candidates(key)) by {
                assert forall|m: int| 0 <= m < cs.len() implies victims@.map_values(
                    |p: (usize, &V)| (p.0, *p.1),
                )[m] == old(self).spec_eviction_candidates(key)[m] by {
                    assert(victims@.map_values(|p: (usize, &V)| (p.0, *p.1))[m] == (
                        victims@[m].0,
                        *victims@[m].1,
                    ));
                }
            }
        }
        let ghost midp = self.replacement_policy;
        proof {
            assert(R::spec_choose(
                old(self).spec_policy(),
                old(self).spec_eviction_candidates(key),
                chosen,
                midp,
            ));
        }
        // The victim's slot is freshly written with the new entry, so the
        // policy hears about the insert and may stamp the value.
        self.replacement_policy.on_insert(&mut stored);
        let ghost v1 = stored;
        let mut slot: Option<(K, V)> = Some((key, stored));
        self.entries.set_and_swap(chosen, &mut slot);
        proof {
            lemma_occupied_slot_count_update(old(self)@, chosen as int, Some((key, v1)));
            let m = choose|m: int| 0 <= m < cs.len() && (#[trigger] cs[m]) == chosen;
            assert(0 <= m < I::spec_indices(key).len());
            assert(R::spec_choose(
                old(self).spec_policy(),
                old(self).spec_eviction_candidates(key),
                I::spec_indices(key)[m],
                midp,
            ));
            assert(R::spec_insert(midp, v0, self.spec_policy(), v1));
        }
        slot
    }

    /// Find the slot holding `key`'s entry, if any: the candidate scan
    /// behind every lookup.
    fn find_key_slot(&self, key: &K) -> (r: Option<usize>)
        requires
            self.wf(),
            I::compatible(),
            obeys_structural_eq::<K>(),
        ensures
            match r {
                Some(i) => {
                    &&& self.spec_contains_key(*key)
                    &&& i < self@.len()
                    &&& i as int == self.slot_of(*key)
                    &&& self@[i as int] == Some((*key, self.spec_value_of(*key)))
                },
                None => !self.spec_contains_key(*key),
            },
    {
        proof {
            I::lemma_indices_wf(*key);
        }
        let cands = I::indices(key);
        let ghost cs = I::spec_indices(*key);
        let mut t: usize = 0;
        while t < cands.len()
            invariant
                self.wf(),
                obeys_structural_eq::<K>(),
                cands@ == cs,
                cs == I::spec_indices(*key),
                t <= cs.len(),
                forall|j: int| 0 <= j < cs.len() ==> (#[trigger] cs[j]) < self@.len(),
                forall|j: int|
                    0 <= j < t ==> ((#[trigger] self@[cs[j] as int]) matches Some(p) ==> p.0
                        != *key),
            decreases cs.len() - t,
        {
            let idx = cands[t];
            match &self.entries[idx] {
                Some(p) => {
                    if p.0 == *key {
                        proof {
                            self.lemma_slot_of(*key, idx as int);
                        }
                        return Some(idx);
                    }
                },
                None => {},
            }
            proof {
                assert(cs.contains(cs[t as int]));
            }
            t += 1;
        }
        proof {
            if self.spec_contains_key(*key) {
                let i = self.slot_of(*key);
                assert(self@[i] matches Some(p) && p.0 == *key);
                assert(I::spec_indices(*key).contains(i as usize));
                let j = choose|j: int| 0 <= j < cs.len() && cs[j] == i as usize;
                assert(false);
            }
        }
        None
    }

    /// Get a shared reference to the value for a given key, if it exists in
    /// the cache.
    ///
    /// A hit notifies the replacement policy; `R::spec_hit` pins what that
    /// notification does to the policy's state and to the stored value. The
    /// occupancy of the cache never changes.
    pub fn get(&mut self, key: &K) -> (r: Option<&V>)
        requires
            old(self).wf(),
            I::compatible(),
            obeys_structural_eq::<K>(),
        ensures
            final(self).wf(),
            final(self).spec_len() == old(self).spec_len(),
            old(self).spec_contains_key(*key) ==> (r matches Some(v) && {
                &&& R::spec_hit(
                    old(self).spec_policy(),
                    old(self).spec_value_of(*key),
                    final(self).spec_policy(),
                    *v,
                )
                &&& final(self)@ == old(self)@.update(
                    old(self).slot_of(*key),
                    Some((*key, *v)),
                )
            }),
            !old(self).spec_contains_key(*key) ==> {
                &&& r is None
                &&& final(self)@ == old(self)@
                &&& final(self).spec_policy() == old(self).spec_policy()
            },
    {
        match self.find_key_slot(key) {
            Some(i) => {
                let ghost v0 = self.spec_value_of(*key);
                let mut slot: Option<(K, V)> = None;
                self.entries.set_and_swap(i, &mut slot);
                if let Some(p) = &mut slot {
                    self.replacement_policy.on_hit(&mut p.1);
                }
                self.entries.set_and_swap(i, &mut slot);
                proof {
                    lemma_occupied_slot_count_update(old(self)@, i as int, None);
                    lemma_occupied_slot_count_update(
                        old(self)@.update(i as int, None),
                        i as int,
                        self@[i as int],
                    );
                }
                match &self.entries[i] {
                    Some(p) => {
                        proof {
                            assert(self@ =~= old(self)@.update(
                                old(self).slot_of(*key),
                                Some((*key, p.1)),
                            ));
                        }
                        Some(&p.1)
                    },
                    None => {
                        proof {
                            assert(false);
                        }
                        None
                    },
                }
            },
            None => None,
        }
    }

    /// Get an exclusive reference to the value for a given key, if it
    /// exists in the cache.
    ///
    /// As with [`AssociativeCache::get`], a hit notifies the replacement
    /// policy; whatever the caller then writes through the reference becomes
    /// the stored value, under the same key.
    pub fn get_mut(&mut self, key: &K) -> (r: Option<&mut V>)
        requires
            old(self).wf(),
            I::compatible(),
            obeys_structural_eq::<K>(),
        ensures
            final(self).wf(),
            final(self).spec_len() == old(self).spec_len(),
            old(self).spec_contains_key(*key) ==> (r matches Some(v) && {
                &&& R::spec_hit(
                    old(self).spec_policy(),
                    old(self).spec_value_of(*key),
                    final(self).spec_policy(),
                    *v,
                )
                &&& final(self)@ == old(self)@.update(
                    old(self).slot_of(*key),
                    Some((*key, *final(v))),
                )
            }),
            !old(self).spec_contains_key(*key) ==> {
                &&& r is None
                &&& final(self)@ == old(self)@
                &&& final(self).spec_policy() == old(self).spec_policy()
            },
    {
        match self.find_key_slot(key) {
            Some(i) => {
                let mut slot: Option<(K, V)> = None;
                self.entries.set_and_swap(i, &mut slot);
                if let Some(p) = &mut slot {
                    self.replacement_policy.on_hit(&mut p.1);
                }
                self.entries.set_and_swap(i, &mut slot);
                proof {
                    lemma_occupied_slot_count_update(old(self)@, i as int, None);
                    lemma_occupied_slot_count_update(
                        old(self)@.update(i as int, None),
                        i as int,
                        self@[i as int],
                    );
                }
                proof {
                    assert forall|x: (K, V)|
                        occupied_slot_count(self@.update(i as int, Some(x)))
                            == occupied_slot_count(self@) by {
                        lemma_occupied_slot_count_update(self@, i as int, Some(x));
                    }
                }
                let entry = &mut self.entries[i];
                match entry {
                    Some(p) => Some(&mut p.1),
                    None => {
                        proof {
                            assert(false);
                        }
                        None
                    },
                }
            },
            None => None,
        }
    }

    /// Remove an entry from the cache.
    ///
    /// If an entry for the key existed in the cache, it is removed and its
    /// value returned; otherwise nothing happens and nothing is returned.
    pub fn remove(&mut self, key: &K) -> (r: Option<V>)
        requires
            old(self).wf(),
            I::compatible(),
            obeys_structural_eq::<K>(),
        ensures
            final(self).wf(),
            final(self).spec_policy() == old(self).spec_policy(),
            old(self).spec_contains_key(*key) ==> {
                &&& r == Some(old(self).spec_value_of(*key))
                &&& final(self)@ == old(self)@.update(old(self).slot_of(*key), None)
                &&& final(self).spec_len() == old(self).spec_len() - 1
            },
            !old(self).spec_contains_key(*key) ==> {
                &&& r is None
                &&& final(self)@ == old(self)@
                &&& final(self).spec_len() == old(self).spec_len()
            },
    {
        match self.find_key_slot(key) {
            Some(i) => {
                proof {
                    lemma_occupied_slot_count_positive(self@, i as int);
                    lemma_occupied_slot_count_update(self@, i as int, None);
                }
                let mut slot: Option<(K, V)> = None;
                self.entries.set_and_swap(i, &mut slot);
                self.len = self.len - 1;
                match slot {
                    Some((_, v)) => Some(v),
                    None => {
                        proof {
                            assert(false);
                        }
                        None
                    },
                }
            },
            None => None,
        }
    }

    /// Get the key's corresponding slot within the cache, for in-place
    /// mutation and get-or-create operations.
    ///
    /// If the key is present, the handle is occupied over its slot and the
    /// hit is reported to the replacement policy. Otherwise, if a candidate
    /// slot is free, the handle is vacant over the first free candidate.
    /// Otherwise the replacement policy picks the candidate whose entry an
    /// insertion through the handle would evict; the slot itself is not yet
    /// touched.
    pub fn entry(&mut self, key: &K) -> (e: Entry<K>)
        requires
            old(self).wf(),
            I::compatible(),
            obeys_structural_eq::<K>(),
        ensures
            final(self).wf(),
            final(self).spec_len() == old(self).spec_len(),
            final(self)@.len() == old(self)@.len(),
            e.spec_key() == *key,
            e.valid_for(*final(self)),
            old(self).spec_contains_key(*key) ==> {
                &&& e.is_occupied()
                &&& e.spec_index() as int == old(self).slot_of(*key)
                &&& exists|v1: V|
                    #[trigger] R::spec_hit(
                        old(self).spec_policy(),
                        old(self).spec_value_of(*key),
                        final(self).spec_policy(),
                        v1,
                    ) && final(self)@ == old(self)@.update(
                        old(self).slot_of(*key),
                        Some((*key, v1)),
                    )
            },
            !old(self).spec_contains_key(*key) && old(self).spec_has_empty_candidate(*key) ==> {
                &&& e.is_vacant()
                &&& old(self).spec_is_first_empty_candidate(*key, e.spec_index())
                &&& final(self)@ == old(self)@
                &&& final(self).spec_policy() == old(self).spec_policy()
            },
            !old(self).spec_contains_key(*key) && !old(self).spec_has_empty_candidate(*key) ==> {
                &&& e.is_replace()
                &&& I::spec_indices(*key).contains(e.spec_index())
                &&& final(self)@ == old(self)@
                &&& R::spec_choose(
                    old(self).spec_policy(),
                    old(self).spec_eviction_candidates(*key),
                    e.spec_index(),
                    final(self).spec_policy(),
                )
            },
    {
        match self.find_key_slot(key) {
            Some(i) => {
                let mut slot: Option<(K, V)> = None;
                self.entries.set_and_swap(i, &mut slot);
                if let Some(p) = &mut slot {
                    self.replacement_policy.on_hit(&mut p.1);
                }
                self.entries.set_and_swap(i, &mut slot);
                proof {
                    lemma_occupied_slot_count_update(old(self)@, i as int, None);
                    lemma_occupied_slot_count_update(
                        old(self)@.update(i as int, None),
                        i as int,
                        self@[i as int],
                    );
                    assert(self@ =~= old(self)@.update(i as int, self@[i as int]));
                    assert(R::spec_hit(
                        old(self).spec_policy(),
                        old(self).spec_value_of(*key),
                        self.spec_policy(),
                        (self@[i as int]->0).1,
                    ));
                }
                Entry { index: i, kind: EntryKind::Occupied, key: Ghost(*key) }
            },
            None => {
                proof {
                    I::lemma_indices_wf(*key);
                }
                let cands = I::indices(key);
                let ghost cs = I::spec_indices(*key);
                let mut t: usize = 0;
                while t < cands.len()
                    invariant
                        self.wf(),
                        *self == *old(self),
                        !old(self).spec_contains_key(*key),
                        cands@ == cs,
                        cs == I::spec_indices(*key),
                        t <= cs.len(),
                        forall|j: int| 0 <= j < cs.len() ==> (#[trigger] cs[j]) < self@.len(),
                        forall|j: int| 0 <= j < t ==> self@[(#[trigger] cs[j]) as int] is Some,
                    decreases cs.len() - t,
                {
                    let idx = cands[t];
                    match &self.entries[idx] {
                        None => {
                            proof {
                                assert(cs.contains(cs[t as int]));
                            }
                            return Entry { index: idx, kind: EntryKind::Vacant, key: Ghost(*key) };
                        },
                        Some(_) => {},
                    }
                    proof {
                        assert(cs.contains(cs[t as int]));
                    }
                    t += 1;
                }
                proof {
                    assert forall|j: int| 0 <= j < cs.len() implies self@[(#[trigger] cs[j]) as int]
                        is Some by {
                        assert(cs.contains(cs[j]));
                    }
                }
                let victims = collect_occupied_candidates(&self.entries, &cands);
                let chosen = self.replacement_policy.choose_for_replacement(&victims);
                proof {
                    let w = choose|m: int|
                        0 <= m < victims@.len() && (#[trigger] victims@[m]).0 == chosen;
                    assert(cs.contains(cs[w]));
                    assert(victims@.map_values(|p: (usize, &V)| (p.0, *p.1)) =~= old(
                        self,
                    ).spec_eviction_candidates(*key)) by {
                        assert forall|m: int| 0 <= m < cs.len() implies victims@.map_values(
                            |p: (usize, &V)| (p.0, *p.1),
                        )[m] == old(self).spec_eviction_candidates(*key)[m] by {
                            assert(victims@.map_values(|p: (usize, &V)| (p.0, *p.1))[m] == (
                                victims@[m].0,
                                *victims@[m].1,
                            ));
                        }
                    }
                }
                Entry { index: chosen, kind: EntryKind::Replace, key: Ghost(*key) }
            },
        }
    }

    /// Retain only the cache entries approved by the predicate.
    ///
    /// Visits every occupied slot in storage order; each entry for which `f`
    /// returns false is cleared, and every other entry stays exactly where
    /// and as it was.
    pub fn retain<F: Fn(&K, &V) -> bool>(&mut self, f: F)
        requires
            old(self).wf(),
            forall|k: K, v: V| #[trigger] call_requires(f, (&k, &v)),
        ensures
            final(self).wf(),
            final(self)@.len() == old(self)@.len(),
            final(self).spec_policy() == old(self).spec_policy(),
            forall|i: int|
                0 <= i < old(self)@.len() ==> retained_slot(
                    f,
                    old(self)@[i],
                    #[trigger] final(self)@[i],
                ),
    {
        let capacity = self.entries.len();
        let mut i: usize = 0;
        while i < capacity
            invariant
                forall|k: K, v: V| #[trigger] call_requires(f, (&k, &v)),
                capacity == self@.len(),
                self@.len() == old(self)@.len(),
                i <= capacity,
                self.spec_len() == occupied_slot_count(self@),
                self.spec_policy() == old(self).spec_policy(),
                self.placement_ok(),
                self.keys_unique(),
                forall|j: int|
                    0 <= j < i ==> retained_slot(f, old(self)@[j], #[trigger] self@[j]),
                forall|j: int| i <= j < capacity ==> self@[j] == old(self)@[j],
            decreases capacity - i,
        {
            let keep = match &self.entries[i] {
                Some(p) => Some(f(&p.0, &p.1)),
                None => None,
            };
            if let Some(false) = keep {
                proof {
                    lemma_occupied_slot_count_positive(self@, i as int);
                    lemma_occupied_slot_count_update(self@, i as int, None);
                }
                self.entries.set(i, None);
                self.len = self.len - 1;
            }
            i += 1;
        }
    }
}

impl<K, V, C, I, R> Default for AssociativeCache<K, V, C, I, R> where
    K: PartialEq,
    C: Capacity,
    I: Indices<K, C>,
    R: Default + Replacement<V, C>,
 {
    /// An empty cache using the policy type's default value.
    fn default() -> (r: Self)
        ensures
            r.wf(),
            r.spec_len() == 0,
            r@.len() == C::spec_capacity(),
            forall|i: int| 0 <= i < r@.len() ==> (#[trigger] r@[i]) is None,
    {
        AssociativeCache::with_replacement_policy(R::default())
    }
}

} // verus!
