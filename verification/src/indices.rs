//! Various kinds of associativity and [`Indices`] implementations.
//!
//! Two families are provided. The hash-based family mixes the key through
//! std's `DefaultHasher` and places the key's group by the hash; the
//! address-based family treats the key as a plain numeric address, divides
//! out the known alignment of what it addresses (whose low bits are always
//! zero) and places the group by the resulting dense index. An address key
//! is only ever used as a number: it is never dereferenced, so dangling or
//! invalid addresses are fine as opaque identifiers.

use crate::{Capacity, Indices};
use std::collections::hash_map::DefaultHasher;
use std::hash::Hasher;
use vstd::arithmetic::div_mod::{lemma_div_non_zero, lemma_fundamental_div_mod, lemma_mod_bound};
use vstd::arithmetic::mul::lemma_mul_inequality;
use vstd::bytes::{spec_u64_to_le_bytes, u64_to_le_bytes};
use vstd::prelude::*;
use vstd::std_specs::hash::DefaultHasherAdditionalSpecFns;

verus! {

/// The candidate group for dense index `i` in a cache of capacity `cap`
/// split into groups of `ways` consecutive slots: the group base is
/// `i % (cap / ways) * ways`, and the group is the next `ways` slots.
pub open spec fn spec_group_indices(i: nat, ways: usize, cap: usize) -> Seq<usize>
    recommends
        1 <= ways <= cap,
{
    let base = i % ((cap / ways) as nat) * (ways as nat);
    Seq::new(ways as nat, |j: int| (base + j) as usize)
}

/// Every group lies within the capacity: the group has exactly `ways`
/// members, in increasing order, all below `cap`.
pub proof fn lemma_group_indices_wf(i: nat, ways: usize, cap: usize)
    requires
        1 <= ways <= cap,
    ensures
        spec_group_indices(i, ways, cap).len() == ways,
        forall|j: int|
            0 <= j < ways ==> (#[trigger] spec_group_indices(i, ways, cap)[j]) == i % ((cap
                / ways) as nat) * (ways as nat) + j,
        forall|j: int| 0 <= j < ways ==> (#[trigger] spec_group_indices(i, ways, cap)[j]) < cap,
        cap / ways >= 1,
        i % ((cap / ways) as nat) * (ways as nat) + ways <= cap,
{
    let groups = (cap / ways) as nat;
    let base = i % groups * (ways as nat);
    lemma_div_non_zero(cap as int, ways as int);
    lemma_mod_bound(i as int, groups as int);
    lemma_mul_inequality((i % groups) as int, groups as int - 1, ways as int);
    lemma_fundamental_div_mod(cap as int, ways as int);
    lemma_mod_bound(cap as int, ways as int);
    assert(base + ways <= cap) by {
        assert(base <= (groups - 1) * (ways as nat));
        assert((groups - 1) * (ways as nat) == groups * (ways as nat) - ways) by (nonlinear_arith);
        assert(groups * (ways as nat) <= cap);
    }
    assert(forall|j: int|
        0 <= j < ways ==> (#[trigger] spec_group_indices(i, ways, cap)[j]) == base + j);
}

/// Compute the candidate group for dense index `i`.
fn group_indices(i: usize, ways: usize, cap: usize) -> (r: Vec<usize>)
    requires
        1 <= ways <= cap,
    ensures
        r@ == spec_group_indices(i as nat, ways, cap),
{
    proof {
        lemma_group_indices_wf(i as nat, ways, cap);
    }
    let groups = cap / ways;
    let base = i % groups * ways;
    let mut r: Vec<usize> = Vec::with_capacity(ways);
    let mut j: usize = 0;
    while j < ways
        invariant
            j <= ways,
            base == i as nat % ((cap / ways) as nat) * (ways as nat),
            base + ways <= cap,
            r@.len() == j,
            forall|m: int| 0 <= m < j ==> (#[trigger] r@[m]) == base + m,
        decreases ways - j,
    {
        r.push(base + j);
        j += 1;
    }
    assert(r@ =~= spec_group_indices(i as nat, ways, cap)) by {
        lemma_group_indices_wf(i as nat, ways, cap);
    }
    r
}

/// The hash of a key: what std's `DefaultHasher` yields after being fed the
/// key's eight little-endian bytes. A pure function of the key, so the
/// candidate groups it induces are deterministic.
pub open spec fn spec_hash_of(key: usize) -> u64 {
    DefaultHasher::spec_finish(seq![spec_u64_to_le_bytes(key as u64)])
}

/// Hash a key down to a slot-index-sized number with std's `DefaultHasher`.
pub fn hash_to_usize(key: usize) -> (r: usize)
    ensures
        r == spec_hash_of(key) as usize,
{
    let mut hasher = DefaultHasher::new();
    let bytes = u64_to_le_bytes(key as u64);
    hasher.write(bytes.as_slice());
    let h = hasher.finish();
    assert(hasher@ =~= seq![spec_u64_to_le_bytes(key as u64)]);
    h as usize
}

/// Direct-mapped (i.e. one-way associative) caching based on the key's hash.
pub struct HashDirectMapped;

impl<C: Capacity> Indices<usize, C> for HashDirectMapped {
    open spec fn compatible() -> bool {
        C::spec_capacity() >= 1
    }

    open spec fn spec_indices(key: usize) -> Seq<usize> {
        spec_group_indices((spec_hash_of(key) as usize) as nat, 1, C::spec_capacity())
    }

    proof fn lemma_indices_wf(key: usize) {
        lemma_group_indices_wf((spec_hash_of(key) as usize) as nat, 1, C::spec_capacity());
    }

    fn indices(key: &usize) -> (r: Vec<usize>) {
        group_indices(hash_to_usize(*key), 1, C::capacity())
    }
}

/// Two-way set associative caching based on the key's hash.
pub struct HashTwoWay;

impl<C: Capacity> Indices<usize, C> for HashTwoWay {
    open spec fn compatible() -> bool {
        C::spec_capacity() >= 2
    }

    open spec fn spec_indices(key: usize) -> Seq<usize> {
        spec_group_indices((spec_hash_of(key) as usize) as nat, 2, C::spec_capacity())
    }

    proof fn lemma_indices_wf(key: usize) {
        lemma_group_indices_wf((spec_hash_of(key) as usize) as nat, 2, C::spec_capacity());
    }

    fn indices(key: &usize) -> (r: Vec<usize>) {
        group_indices(hash_to_usize(*key), 2, C::capacity())
    }
}

/// Four-way set associative caching based on the key's hash.
pub struct HashFourWay;

impl<C: Capacity> Indices<usize, C> for HashFourWay {
    open spec fn compatible() -> bool {
        C::spec_capacity() >= 4
    }

    open spec fn spec_indices(key: usize) -> Seq<usize> {
        spec_group_indices((spec_hash_of(key) as usize) as nat, 4, C::spec_capacity())
    }

    proof fn lemma_indices_wf(key: usize) {
        lemma_group_indices_wf((spec_hash_of(key) as usize) as nat, 4, C::spec_capacity());
    }

    fn indices(key: &usize) -> (r: Vec<usize>) {
        group_indices(hash_to_usize(*key), 4, C::capacity())
    }
}

/// Eight-way set associative caching based on the key's hash.
pub struct HashEightWay;

impl<C: Capacity> Indices<usize, C> for HashEightWay {
    open spec fn compatible() -> bool {
        C::spec_capacity() >= 8
    }

    open spec fn spec_indices(key: usize) -> Seq<usize> {
        spec_group_indices((spec_hash_of(key) as usize) as nat, 8, C::spec_capacity())
    }

    proof fn lemma_indices_wf(key: usize) {
        lemma_group_indices_wf((spec_hash_of(key) as usize) as nat, 8, C::spec_capacity());
    }

    fn indices(key: &usize) -> (r: Vec<usize>) {
        group_indices(hash_to_usize(*key), 8, C::capacity())
    }
}

/// Sixteen-way set associative caching based on the key's hash.
pub struct HashSixteenWay;

impl<C: Capacity> Indices<usize, C> for HashSixteenWay {
    open spec fn compatible() -> bool {
        C::spec_capacity() >= 16
    }

    open spec fn spec_indices(key: usize) -> Seq<usize> {
        spec_group_indices((spec_hash_of(key) as usize) as nat, 16, C::spec_capacity())
    }

    proof fn lemma_indices_wf(key: usize) {
        lemma_group_indices_wf((spec_hash_of(key) as usize) as nat, 16, C::spec_capacity());
    }

    fn indices(key: &usize) -> (r: Vec<usize>) {
        group_indices(hash_to_usize(*key), 16, C::capacity())
    }
}

/// 32-way set associative caching based on the key's hash.
pub struct HashThirtyTwoWay;

impl<C: Capacity> Indices<usize, C> for HashThirtyTwoWay {
    open spec fn compatible() -> bool {
        C::spec_capacity() >= 32
    }

    open spec fn spec_indices(key: usize) -> Seq<usize> {
        spec_group_indices((spec_hash_of(key) as usize) as nat, 32, C::spec_capacity())
    }

    proof fn lemma_indices_wf(key: usize) {
        lemma_group_indices_wf((spec_hash_of(key) as usize) as nat, 32, C::spec_capacity());
    }

    fn indices(key: &usize) -> (r: Vec<usize>) {
        group_indices(hash_to_usize(*key), 32, C::capacity())
    }
}

/// Direct-mapped (i.e. one-way associative) caching based on the key's
/// numeric address value. `ALIGN` is the alignment of the addressed data:
/// its always-zero low bits are divided out before grouping.
pub struct PointerDirectMapped<const ALIGN: usize>;

impl<const ALIGN: usize, C: Capacity> Indices<usize, C> for PointerDirectMapped<ALIGN> {
    open spec fn compatible() -> bool {
        ALIGN >= 1 && C::spec_capacity() >= 1
    }

    open spec fn spec_indices(key: usize) -> Seq<usize> {
        spec_group_indices((key / ALIGN) as nat, 1, C::spec_capacity())
    }

    proof fn lemma_indices_wf(key: usize) {
        lemma_group_indices_wf((key / ALIGN) as nat, 1, C::spec_capacity());
    }

    fn indices(key: &usize) -> (r: Vec<usize>) {
        group_indices(*key / ALIGN, 1, C::capacity())
    }
}

/// Two-way set associative caching based on the key's numeric address value.
pub struct PointerTwoWay<const ALIGN: usize>;

impl<const ALIGN: usize, C: Capacity> Indices<usize, C> for PointerTwoWay<ALIGN> {
    open spec fn compatible() -> bool {
        ALIGN >= 1 && C::spec_capacity() >= 2
    }

    open spec fn spec_indices(key: usize) -> Seq<usize> {
        spec_group_indices((key / ALIGN) as nat, 2, C::spec_capacity())
    }

    proof fn lemma_indices_wf(key: usize) {
        lemma_group_indices_wf((key / ALIGN) as nat, 2, C::spec_capacity());
    }

    fn indices(key: &usize) -> (r: Vec<usize>) {
        group_indices(*key / ALIGN, 2, C::capacity())
    }
}

/// Four-way set associative caching based on the key's numeric address
/// value.
pub struct PointerFourWay<const ALIGN: usize>;

impl<const ALIGN: usize, C: Capacity> Indices<usize, C> for PointerFourWay<ALIGN> {
    open spec fn compatible() -> bool {
        ALIGN >= 1 && C::spec_capacity() >= 4
    }

    open spec fn spec_indices(key: usize) -> Seq<usize> {
        spec_group_indices((key / ALIGN) as nat, 4, C::spec_capacity())
    }

    proof fn lemma_indices_wf(key: usize) {
        lemma_group_indices_wf((key / ALIGN) as nat, 4, C::spec_capacity());
    }

    fn indices(key: &usize) -> (r: Vec<usize>) {
        group_indices(*key / ALIGN, 4, C::capacity())
    }
}

/// Eight-way set associative caching based on the key's numeric address
/// value.
pub struct PointerEightWay<const ALIGN: usize>;

impl<const ALIGN: usize, C: Capacity> Indices<usize, C> for PointerEightWay<ALIGN> {
    open spec fn compatible() -> bool {
        ALIGN >= 1 && C::spec_capacity() >= 8
    }

    open spec fn spec_indices(key: usize) -> Seq<usize> {
        spec_group_indices((key / ALIGN) as nat, 8, C::spec_capacity())
    }

    proof fn lemma_indices_wf(key: usize) {
        lemma_group_indices_wf((key / ALIGN) as nat, 8, C::spec_capacity());
    }

    fn indices(key: &usize) -> (r: Vec<usize>) {
        group_indices(*key / ALIGN, 8, C::capacity())
    }
}

/// Sixteen-way set associative caching based on the key's numeric address
/// value.
pub struct PointerSixteenWay<const ALIGN: usize>;

impl<const ALIGN: usize, C: Capacity> Indices<usize, C> for PointerSixteenWay<ALIGN> {
    open spec fn compatible() -> bool {
        ALIGN >= 1 && C::spec_capacity() >= 16
    }

    open spec fn spec_indices(key: usize) -> Seq<usize> {
        spec_group_indices((key / ALIGN) as nat, 16, C::spec_capacity())
    }

    proof fn lemma_indices_wf(key: usize) {
        lemma_group_indices_wf((key / ALIGN) as nat, 16, C::spec_capacity());
    }

    fn indices(key: &usize) -> (r: Vec<usize>) {
        group_indices(*key / ALIGN, 16, C::capacity())
    }
}

/// 32-way set associative caching based on the key's numeric address value.
pub struct PointerThirtyTwoWay<const ALIGN: usize>;

impl<const ALIGN: usize, C: Capacity> Indices<usize, C> for PointerThirtyTwoWay<ALIGN> {
    open spec fn compatible() -> bool {
        ALIGN >= 1 && C::spec_capacity() >= 32
    }

    open spec fn spec_indices(key: usize) -> Seq<usize> {
        spec_group_indices((key / ALIGN) as nat, 32, C::spec_capacity())
    }

    proof fn lemma_indices_wf(key: usize) {
        lemma_group_indices_wf((key / ALIGN) as nat, 32, C::spec_capacity());
    }

    fn indices(key: &usize) -> (r: Vec<usize>) {
        group_indices(*key / ALIGN, 32, C::capacity())
    }
}

} // verus!
