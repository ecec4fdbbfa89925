//! An API for get-or-create operations on cache entries, similar to
//! `std::collections::HashMap`'s entry API.

use crate::{
    lemma_occupied_slot_count_le, lemma_occupied_slot_count_positive,
    lemma_occupied_slot_count_update, occupied_slot_count, AssociativeCache, Capacity, Indices,
    Replacement,
};
use vstd::pervasive::unreached;
use vstd::prelude::*;

verus! {

/// Taking a doomed entry out and then inserting through the handle never
/// double-counts the length relative to a direct insert: clearing one
/// occupied slot and then refilling that same slot leaves the occupied
/// count exactly where a direct overwrite of the slot leaves it — at its
/// original value. Since well-formedness pins every cache's length to its
/// occupied count, `take_entry_that_will_be_replaced` followed by
/// `or_insert_with` agrees with `insert`'s eviction path on the length.
pub proof fn lemma_take_then_fill_counts_once<K, V>(
    s: Seq<Option<(K, V)>>,
    i: int,
    p: (K, V),
    q: (K, V),
)
    requires
        0 <= i < s.len(),
        s[i] is Some,
    ensures
        occupied_slot_count(s.update(i, None).update(i, Some(p))) == occupied_slot_count(
            s.update(i, Some(q)),
        ),
        occupied_slot_count(s.update(i, Some(q))) == occupied_slot_count(s),
{
    lemma_occupied_slot_count_update(s, i, None);
    lemma_occupied_slot_count_update(s.update(i, None), i, Some(p));
    lemma_occupied_slot_count_update(s, i, Some(q));
}

pub(crate) enum EntryKind {
    Occupied,
    Vacant,
    Replace,
}

/// A potentially-empty entry in a cache, used to perform get-or-create
/// operations on the cache.
///
/// Constructed via the `AssociativeCache::entry` method. The handle is a
/// cursor over one slot: its operations take the cache they act on
/// explicitly, and their contracts demand that the handle still describes
/// that cache ([`Entry::valid_for`]), which `entry` establishes and the
/// operations preserve.
pub struct Entry<K> {
    pub(crate) index: usize,
    pub(crate) kind: EntryKind,
    pub(crate) key: Ghost<K>,
}

impl<K> Entry<K> {
    /// The slot this entry points at.
    pub open(super) spec fn spec_index(&self) -> usize {
        self.index
    }

    /// The key this entry was looked up with.
    pub open(super) spec fn spec_key(&self) -> K {
        self.key@
    }

    /// Whether the slot already holds an entry for the key.
    pub open(super) spec fn is_occupied(&self) -> bool {
        self.kind is Occupied
    }

    /// Whether the slot is empty, so that an insertion through this handle
    /// grows the cache.
    pub open(super) spec fn is_vacant(&self) -> bool {
        self.kind is Vacant
    }

    /// Whether the slot holds a different key's entry, to be replaced if
    /// the caller inserts.
    pub open(super) spec fn is_replace(&self) -> bool {
        self.kind is Replace
    }

    /// What the handle claims about the cache it came from: the slot it
    /// points at is a candidate slot of its key and holds, depending on the
    /// handle's state, the key's own entry, nothing, or another key's entry
    /// — and in the latter two states the key is nowhere in the cache.
    pub open spec fn valid_for<V, C, I, R>(&self, cache: AssociativeCache<K, V, C, I, R>) -> bool
        where K: PartialEq, C: Capacity, I: Indices<K, C>, R: Replacement<V, C>
    {
        &&& self.spec_index() < cache@.len()
        &&& if self.is_occupied() {
            cache@[self.spec_index() as int] matches Some(p) && p.0 == self.spec_key()
        } else {
            &&& I::spec_indices(self.spec_key()).contains(self.spec_index())
            &&& !cache.spec_contains_key(self.spec_key())
            &&& if self.is_vacant() {
                cache@[self.spec_index() as int] is None
            } else {
                cache@[self.spec_index() as int] is Some
            }
        }
    }

    /// Get the underlying cached data, creating and inserting it into the
    /// cache if it doesn't already exist.
    ///
    /// If the handle is occupied, the existing value is returned untouched
    /// and the two constructors are never run; this is what makes the entry
    /// API cheaper than a naive get-or-create when the key is expensive to
    /// build. Otherwise `(make_key(), make_val())` is written into the slot
    /// — growing the cache if the handle was vacant, replacing the slot's
    /// occupant if not — and the replacement policy is notified of the
    /// insert. `make_key` must produce the key the handle was looked up
    /// with; that is a precondition here.
    pub fn or_insert_with<'a, V, C, I, R, FK, FV>(
        self,
        cache: &'a mut AssociativeCache<K, V, C, I, R>,
        make_key: FK,
        make_val: FV,
    ) -> (r: &'a mut V) where
        K: PartialEq,
        C: Capacity,
        I: Indices<K, C>,
        R: Replacement<V, C>,
        FK: FnOnce() -> K,
        FV: FnOnce() -> V,

        requires
            old(cache).wf(),
            self.valid_for(*old(cache)),
            !self.is_occupied() ==> call_requires(make_key, ()),
            !self.is_occupied() ==> call_requires(make_val, ()),
            !self.is_occupied() ==> forall|k: K|
                call_ensures(make_key, (), k) ==> k == self.spec_key(),
        ensures
            final(cache).wf(),
            final(cache)@.len() == old(cache)@.len(),
            final(cache).spec_len() == old(cache).spec_len() + if self.is_vacant() {
                1int
            } else {
                0int
            },
            self.is_occupied() ==> (old(cache)@[self.spec_index() as int] matches Some(p) && {
                &&& *r == p.1
                &&& final(cache)@ == old(cache)@.update(
                    self.spec_index() as int,
                    Some((p.0, *final(r))),
                )
                &&& final(cache).spec_policy() == old(cache).spec_policy()
            }),
            !self.is_occupied() ==> exists|v0: V|
                {
                    &&& #[trigger] call_ensures(make_val, (), v0)
                    &&& R::spec_insert(
                        old(cache).spec_policy(),
                        v0,
                        final(cache).spec_policy(),
                        *r,
                    )
                    &&& final(cache)@ == old(cache)@.update(
                        self.spec_index() as int,
                        Some((self.spec_key(), *final(r))),
                    )
                },
    {
        let i = self.index;
        match self.kind {
            EntryKind::Occupied => {
                proof {
                    assert forall|x: (K, V)|
                        occupied_slot_count(cache@.update(i as int, Some(x)))
                            == occupied_slot_count(cache@) by {
                        lemma_occupied_slot_count_update(cache@, i as int, Some(x));
                    }
                }
                let entry = &mut cache.entries[i];
                match entry {
                    Some(p) => &mut p.1,
                    None => unreached(),
                }
            },
            EntryKind::Vacant => {
                let mut pair = (make_key(), make_val());
                cache.replacement_policy.on_insert(&mut pair.1);
                proof {
                    lemma_occupied_slot_count_update(cache@, i as int, Some(pair));
                    lemma_occupied_slot_count_le(cache@.update(i as int, Some(pair)));
                }
                cache.entries.set(i, Some(pair));
                cache.len = cache.len + 1;
                proof {
                    assert forall|x: (K, V)|
                        occupied_slot_count(cache@.update(i as int, Some(x)))
                            == occupied_slot_count(cache@) by {
                        lemma_occupied_slot_count_update(cache@, i as int, Some(x));
                    }
                    assert forall|x: (K, V)|
                        cache@.update(i as int, Some(x)) =~= old(cache)@.update(
                            i as int,
                            Some(x),
                        ) by {}
                }
                let entry = &mut cache.entries[i];
                match entry {
                    Some(p) => &mut p.1,
                    None => unreached(),
                }
            },
            EntryKind::Replace => {
                let mut pair = (make_key(), make_val());
                cache.replacement_policy.on_insert(&mut pair.1);
                let mut slot: Option<(K, V)> = Some(pair);
                cache.entries.set_and_swap(i, &mut slot);
                proof {
                    lemma_occupied_slot_count_update(old(cache)@, i as int, Some(pair));
                    assert forall|x: (K, V)|
                        occupied_slot_count(cache@.update(i as int, Some(x)))
                            == occupied_slot_count(cache@) by {
                        lemma_occupied_slot_count_update(cache@, i as int, Some(x));
                    }
                }
                let entry = &mut cache.entries[i];
                match entry {
                    Some(p) => &mut p.1,
                    None => unreached(),
                }
            },
        }
    }

    /// If inserting into this `Entry` will replace another entry in the
    /// cache, remove that other entry from the cache and return it now.
    ///
    /// Only meaningful on a handle in the replace state: the about-to-be
    /// evicted pair is taken out, the length drops by one, and the handle
    /// becomes vacant, so a subsequent insertion through it grows the cache
    /// again. On an occupied or vacant handle nothing happens.
    pub fn take_entry_that_will_be_replaced<V, C, I, R>(
        &mut self,
        cache: &mut AssociativeCache<K, V, C, I, R>,
    ) -> (r: Option<(K, V)>) where
        K: PartialEq,
        C: Capacity,
        I: Indices<K, C>,
        R: Replacement<V, C>,

        requires
            old(cache).wf(),
            old(self).valid_for(*old(cache)),
        ensures
            final(cache).wf(),
            final(cache)@.len() == old(cache)@.len(),
            final(self).spec_key() == old(self).spec_key(),
            final(self).spec_index() == old(self).spec_index(),
            final(self).valid_for(*final(cache)),
            old(self).is_replace() ==> {
                &&& old(cache)@[old(self).spec_index() as int] matches Some(p) && r == Some(p)
                &&& final(cache)@ == old(cache)@.update(old(self).spec_index() as int, None)
                &&& final(cache).spec_len() == old(cache).spec_len() - 1
                &&& final(cache).spec_policy() == old(cache).spec_policy()
                &&& final(self).is_vacant()
            },
            !old(self).is_replace() ==> {
                &&& r is None
                &&& *final(cache) == *old(cache)
                &&& *final(self) == *old(self)
            },
    {
        match self.kind {
            EntryKind::Replace => {
                proof {
                    lemma_occupied_slot_count_positive(cache@, self.index as int);
                    lemma_occupied_slot_count_update(cache@, self.index as int, None);
                }
                let mut slot: Option<(K, V)> = None;
                cache.entries.set_and_swap(self.index, &mut slot);
                cache.len = cache.len - 1;
                self.kind = EntryKind::Vacant;
                slot
            },
            _ => None,
        }
    }
}

} // verus!
