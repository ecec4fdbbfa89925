//! Iteration over the occupied subset of a cache's slots.
//!
//! [`Iter`] yields shared borrows and [`IntoIter`] yields owned pairs; both
//! walk the slots in storage order, skip the holes, and know exactly how
//! many pairs remain. In-place mutation of every entry is offered by
//! `AssociativeCache::iter_mut`, which visits the occupied slots with a
//! rewriting function.

use crate::{
    lemma_occupied_slot_count_update, occupied_slot_count, AssociativeCache, Capacity, Indices,
    Replacement,
};
use vstd::prelude::*;

verus! {

/// The occupied slots of a slot sequence, in storage order, as `(key,
/// value)` pairs.
pub open spec fn occupied_pairs<K, V>(s: Seq<Option<(K, V)>>) -> Seq<(K, V)>
    decreases s.len(),
{
    if s.len() == 0 {
        Seq::empty()
    } else {
        (match s.first() {
            Some(p) => seq![p],
            None => Seq::empty(),
        }) + occupied_pairs(s.drop_first())
    }
}

/// Appending a slot appends its pair, if any, to the occupied pairs.
pub proof fn lemma_occupied_pairs_push<K, V>(s: Seq<Option<(K, V)>>, x: Option<(K, V)>)
    ensures
        occupied_pairs(s.push(x)) == occupied_pairs(s) + (match x {
            Some(p) => seq![p],
            None => Seq::empty(),
        }),
    decreases s.len(),
{
    if s.len() == 0 {
        assert(s.push(x).first() == x);
        assert(s.push(x).drop_first() =~= Seq::<Option<(K, V)>>::empty());
        match x {
            Some(p) => {
                assert(s.push(x).len() == 1);
                assert(occupied_pairs(s.push(x).drop_first()) =~= Seq::<(K, V)>::empty());
                assert(occupied_pairs(s.push(x)) == seq![p] + occupied_pairs(
                    s.push(x).drop_first(),
                ));
                assert(occupied_pairs(s) =~= Seq::<(K, V)>::empty());
                assert(occupied_pairs(s.push(x)) =~= occupied_pairs(s) + seq![p]);
            },
            None => {
                assert(s.push(x).len() == 1);
                assert(occupied_pairs(s.push(x).drop_first()) =~= Seq::<(K, V)>::empty());
                assert(occupied_pairs(s.push(x)) == Seq::<(K, V)>::empty() + occupied_pairs(
                    s.push(x).drop_first(),
                ));
                assert(occupied_pairs(s) =~= Seq::<(K, V)>::empty());
                assert(occupied_pairs(s.push(x)) =~= occupied_pairs(s) + Seq::<(K, V)>::empty());
            },
        }
    } else {
        assert(s.push(x).first() == s.first());
        assert(s.push(x).drop_first() =~= s.drop_first().push(x));
        lemma_occupied_pairs_push(s.drop_first(), x);
        match x {
            Some(p) => {
                assert(occupied_pairs(s.push(x)) =~= occupied_pairs(s) + seq![p]);
            },
            None => {
                assert(occupied_pairs(s.push(x)) =~= occupied_pairs(s) + Seq::<(K, V)>::empty());
            },
        }
    }
}

/// There are exactly as many occupied pairs as occupied slots.
pub proof fn lemma_occupied_pairs_len<K, V>(s: Seq<Option<(K, V)>>)
    ensures
        occupied_pairs(s).len() == occupied_slot_count(s),
    decreases s.len(),
{
    if s.len() > 0 {
        lemma_occupied_pairs_len(s.drop_last());
        assert(s.drop_last().push(s.last()) =~= s);
        lemma_occupied_pairs_push(s.drop_last(), s.last());
    }
}

/// An iterator over shared borrows of the cache keys and values.
///
/// See `AssociativeCache::iter` for details.
pub struct Iter<'a, K, V> {
    items: Vec<(&'a K, &'a V)>,
    pos: usize,
}

impl<'a, K, V> Iter<'a, K, V> {
    /// The pairs not yet yielded, in order.
    pub closed spec fn spec_remaining(&self) -> Seq<(K, V)> {
        self.items@.skip(self.pos as int).map_values(|p: (&'a K, &'a V)| (*p.0, *p.1))
    }

    /// The iterator's bookkeeping: the cursor is within its items.
    pub closed spec fn wf(&self) -> bool {
        self.pos <= self.items@.len()
    }

    /// Yield the next not-yet-visited occupied entry, or nothing once every
    /// occupied entry has been seen.
    pub fn next(&mut self) -> (r: Option<(&'a K, &'a V)>)
        requires
            old(self).wf(),
        ensures
            final(self).wf(),
            old(self).spec_remaining().len() == 0 ==> r is None && final(self).spec_remaining()
                == old(self).spec_remaining(),
            old(self).spec_remaining().len() > 0 ==> (r matches Some(pr) && {
                &&& (*pr.0, *pr.1) == old(self).spec_remaining().first()
                &&& final(self).spec_remaining() == old(self).spec_remaining().drop_first()
            }),
    {
        if self.pos < self.items.len() {
            let pr = self.items[self.pos];
            self.pos = self.pos + 1;
            proof {
                let f = |p: (&'a K, &'a V)| (*p.0, *p.1);
                assert(old(self).items@.skip(old(self).pos as int)[0] == old(self).items@[old(
                    self,
                ).pos as int]);
                assert(old(self).spec_remaining()[0] == f(pr));
                assert(self.items@.skip(self.pos as int).map_values(f) =~= old(
                    self,
                ).items@.skip(old(self).pos as int).map_values(f).drop_first());
            }
            Some(pr)
        } else {
            None
        }
    }

    /// How many pairs remain: the exact count, as both bounds.
    pub fn size_hint(&self) -> (r: (usize, Option<usize>))
        requires
            self.wf(),
        ensures
            r.0 == self.spec_remaining().len(),
            r.1 == Some(r.0),
    {
        (self.items.len() - self.pos, Some(self.items.len() - self.pos))
    }
}

/// An iterator that consumes and takes ownership of a cache's keys and
/// values.
///
/// See `AssociativeCache::into_iter` for details.
pub struct IntoIter<K, V> {
    entries: Vec<Option<(K, V)>>,
    pos: usize,
    remaining: usize,
}

impl<K, V> IntoIter<K, V> {
    /// The pairs not yet yielded, in order.
    pub closed spec fn spec_remaining(&self) -> Seq<(K, V)> {
        occupied_pairs(self.entries@.skip(self.pos as int))
    }

    /// The iterator's exact bookkeeping: the stored count matches the pairs
    /// still to come, and the cursor is within the slots.
    pub closed spec fn wf(&self) -> bool {
        &&& self.remaining == self.spec_remaining().len()
        &&& self.pos <= self.entries@.len()
    }

    /// Yield the next not-yet-visited occupied entry, taking ownership of
    /// it, or nothing once every occupied entry has been seen.
    pub fn next(&mut self) -> (r: Option<(K, V)>)
        requires
            old(self).wf(),
        ensures
            final(self).wf(),
            old(self).spec_remaining().len() == 0 ==> r is None && final(self).spec_remaining()
                == old(self).spec_remaining(),
            old(self).spec_remaining().len() > 0 ==> (r matches Some(pr) && {
                &&& pr == old(self).spec_remaining().first()
                &&& final(self).spec_remaining() == old(self).spec_remaining().drop_first()
            }),
    {
        while self.pos < self.entries.len()
            invariant
                old(self).wf(),
                self.pos <= self.entries@.len(),
                self.remaining == old(self).remaining,
                self.entries@ == old(self).entries@,
                self.spec_remaining() == old(self).spec_remaining(),
            decreases self.entries@.len() - self.pos,
        {
            let ghost cur = self.spec_remaining();
            let occupied = match &self.entries[self.pos] {
                Some(_) => true,
                None => false,
            };
            if occupied {
                proof {
                    assert(self.entries@.skip(self.pos as int).first() == self.entries@[
                        self.pos as int]);
                    assert(self.entries@.skip(self.pos as int).drop_first() =~= self.entries@.skip(
                        self.pos as int + 1));
                }
                let mut slot: Option<(K, V)> = None;
                self.entries.set_and_swap(self.pos, &mut slot);
                self.pos = self.pos + 1;
                self.remaining = self.remaining - 1;
                proof {
                    assert(self.entries@.skip(self.pos as int) =~= old(self).entries@.skip(
                        self.pos as int));
                    assert(self.spec_remaining() == cur.drop_first());
                }
                return slot;
            } else {
                proof {
                    assert(self.entries@.skip(self.pos as int).first() == self.entries@[
                        self.pos as int]);
                    assert(self.entries@.skip(self.pos as int).drop_first() =~= self.entries@.skip(
                        self.pos as int + 1));
                }
                self.pos = self.pos + 1;
            }
        }
        proof {
            assert(self.entries@.skip(self.pos as int) =~= Seq::<Option<(K, V)>>::empty());
        }
        None
    }

    /// How many pairs remain: the exact count, as both bounds.
    pub fn size_hint(&self) -> (r: (usize, Option<usize>))
        requires
            self.wf(),
        ensures
            r.0 == self.spec_remaining().len(),
            r.1 == Some(r.0),
    {
        (self.remaining, Some(self.remaining))
    }
}

/// How one slot fares under `iter_mut`'s rewriting function `f`: an empty
/// slot stays empty; an occupied slot keeps its key and holds a value that
/// `f` produced from the old entry.
pub open spec fn mapped_slot<K, V, F: Fn(&K, &V) -> V>(
    f: F,
    before: Option<(K, V)>,
    after: Option<(K, V)>,
) -> bool {
    match before {
        None => after is None,
        Some(p) => after matches Some(q) && q.0 == p.0 && call_ensures(f, (&p.0, &p.1), q.1),
    }
}

impl<K, V, C, I, R> AssociativeCache<K, V, C, I, R> where
    K: PartialEq,
    C: Capacity,
    I: Indices<K, C>,
    R: Replacement<V, C>,
 {
    /// Iterate over shared references to this cache's keys and values.
    ///
    /// The iterator yields exactly the occupied slots' pairs, in storage
    /// order: as many pairs as the cache's length, and no others.
    pub fn iter(&self) -> (r: Iter<K, V>)
        requires
            self.wf(),
        ensures
            r.wf(),
            r.spec_remaining() == occupied_pairs(self@),
            r.spec_remaining().len() == self.spec_len(),
    {
        let ghost f = |p: (&K, &V)| (*p.0, *p.1);
        let mut items: Vec<(&K, &V)> = Vec::new();
        let mut i: usize = 0;
        while i < self.entries.len()
            invariant
                self.wf(),
                i <= self@.len(),
                items@.map_values(|p: (&K, &V)| (*p.0, *p.1)) == occupied_pairs(
                    self@.take(i as int),
                ),
            decreases self@.len() - i,
        {
            proof {
                assert(self@.take(i as int).push(self@[i as int]) =~= self@.take(i as int + 1));
                lemma_occupied_pairs_push(self@.take(i as int), self@[i as int]);
            }
            let ghost prev = items@;
            match &self.entries[i] {
                Some(p) => {
                    items.push((&p.0, &p.1));
                    proof {
                        assert(items@.map_values(|q: (&K, &V)| (*q.0, *q.1)) =~= prev.map_values(
                            |q: (&K, &V)| (*q.0, *q.1),
                        ).push((p.0, p.1)));
                        assert(prev.map_values(|q: (&K, &V)| (*q.0, *q.1)).push((p.0, p.1))
                            =~= prev.map_values(|q: (&K, &V)| (*q.0, *q.1)) + seq![(p.0, p.1)]);
                    }
                },
                None => {},
            }
            i += 1;
        }
        proof {
            assert(self@.take(self@.len() as int) =~= self@);
            lemma_occupied_pairs_len(self@);
        }
        let r = Iter { items, pos: 0 };
        proof {
            assert(r.items@.skip(0) =~= r.items@);
        }
        r
    }

    /// Consume this cache and iterate over its keys and values.
    ///
    /// The iterator yields exactly the occupied slots' pairs, in storage
    /// order, now owned by the caller.
    pub fn into_iter(self) -> (r: IntoIter<K, V>)
        requires
            self.wf(),
        ensures
            r.wf(),
            r.spec_remaining() == occupied_pairs(self@),
            r.spec_remaining().len() == self.spec_len(),
    {
        proof {
            lemma_occupied_pairs_len(self@);
        }
        let len = self.len;
        let entries = self.entries;
        let r = IntoIter { entries, pos: 0, remaining: len };
        proof {
            assert(r.entries@.skip(0) =~= r.entries@);
        }
        r
    }

    /// Visit every occupied entry in storage order and replace its value
    /// with what `f` makes of it; keys and occupancy are untouched. This is
    /// the mutation pass over all entries that a mutable iterator would
    /// drive.
    pub fn iter_mut<F: Fn(&K, &V) -> V>(&mut self, f: F)
        requires
            old(self).wf(),
            forall|k: K, v: V| #[trigger] call_requires(f, (&k, &v)),
        ensures
            final(self).wf(),
            final(self)@.len() == old(self)@.len(),
            final(self).spec_len() == old(self).spec_len(),
            final(self).spec_policy() == old(self).spec_policy(),
            forall|i: int|
                0 <= i < old(self)@.len() ==> mapped_slot(
                    f,
                    old(self)@[i],
                    #[trigger] final(self)@[i],
                ),
    {
        let capacity = self.entries.len();
        let mut i: usize = 0;
        while i < capacity
            invariant
                forall|k: K, v: V| #[trigger] call_requires(f, (&k, &v)),
                capacity == self@.len(),
                self@.len() == old(self)@.len(),
                i <= capacity,
                self.spec_len() == occupied_slot_count(self@),
                self.spec_len() == old(self).spec_len(),
                self.spec_policy() == old(self).spec_policy(),
                self.placement_ok(),
                self.keys_unique(),
                forall|j: int| 0 <= j < i ==> mapped_slot(f, old(self)@[j], #[trigger] self@[j]),
                forall|j: int| i <= j < capacity ==> self@[j] == old(self)@[j],
            decreases capacity - i,
        {
            let ghost pre = self@;
            let mut slot: Option<(K, V)> = None;
            self.entries.set_and_swap(i, &mut slot);
            proof {
                lemma_occupied_slot_count_update(pre, i as int, None);
            }
            match slot {
                Some((k, v)) => {
                    let nv = f(&k, &v);
                    let mut back: Option<(K, V)> = Some((k, nv));
                    let ghost stored = back;
                    proof {
                        lemma_occupied_slot_count_update(self@, i as int, stored);
                    }
                    self.entries.set_and_swap(i, &mut back);
                    proof {
                        assert(self@ =~= pre.update(i as int, stored));
                    }
                },
                None => {
                    proof {
                        assert(self@ =~= pre);
                    }
                },
            }
            i += 1;
        }
    }
}

} // verus!
