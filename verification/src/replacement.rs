//! Implementations of various replacement algorithms used when inserting into
//! a full cache.

pub mod lru;

use crate::{Capacity, Replacement};
use rand::RngCore;
use rand::SeedableRng;
use rand::Rng;
use vstd::arithmetic::div_mod::{lemma_add_mod_noop, lemma_small_mod};
use vstd::prelude::*;

verus! {

/// Choose cache entries to replace in a round-robin order.
///
/// The policy keeps one rotating counter shared across all calls: when
/// considering `n` candidates it replaces the `(counter % n)`-th one, in the
/// order the candidates were given, and then advances the counter. The cycle
/// is over call order, not per slot group, so callers presenting varying
/// candidate counts should expect the cycle to follow the calls.
#[derive(Debug, PartialEq, Eq, Structural)]
pub struct RoundRobinReplacement {
    n: usize,
}

impl RoundRobinReplacement {
    /// The rotating counter, as seen by specifications.
    pub closed spec fn spec_counter(&self) -> usize {
        self.n
    }

    /// The round-robin choice: with candidate count `len` and counter `c`,
    /// the `(c % len)`-th candidate is replaced, and the counter moves to
    /// `c % len + 1`.
    pub fn choose_round_robin<V>(&mut self, candidates: &Vec<(usize, &V)>) -> (r: usize)
        requires
            candidates@.len() > 0,
        ensures
            r == (candidates@[old(self).spec_counter() as int % candidates@.len() as int]).0,
            final(self).spec_counter() == old(self).spec_counter() as int % candidates@.len()
                as int + 1,
    {
        let len = candidates.len();
        let k = self.n % len;
        let r = candidates[k].0;
        self.n = k + 1;
        r
    }
}

impl Default for RoundRobinReplacement {
    /// A round-robin policy whose counter starts at zero.
    fn default() -> (r: Self)
        ensures
            r.spec_counter() == 0,
    {
        RoundRobinReplacement { n: 0 }
    }
}

impl Clone for RoundRobinReplacement {
    fn clone(&self) -> (r: Self)
        ensures
            r == *self,
    {
        RoundRobinReplacement { n: self.n }
    }
}

impl<V, C: Capacity> Replacement<V, C> for RoundRobinReplacement {
    /// A hit leaves both the value and the counter untouched.
    open spec fn spec_hit(pre: Self, v0: V, post: Self, v1: V) -> bool {
        v1 == v0 && post == pre
    }

    /// An insert notification leaves both the value and the counter
    /// untouched.
    open spec fn spec_insert(pre: Self, v0: V, post: Self, v1: V) -> bool {
        v1 == v0 && post == pre
    }

    /// The `(counter % n)`-th candidate is picked and the counter advances
    /// to `counter % n + 1`.
    open spec fn spec_choose(
        pre: Self,
        candidates: Seq<(usize, V)>,
        chosen: usize,
        post: Self,
    ) -> bool {
        &&& chosen == candidates[pre.spec_counter() as int % candidates.len() as int].0
        &&& post.spec_counter() == pre.spec_counter() as int % candidates.len() as int + 1
    }

    fn choose_for_replacement(&mut self, candidates: &Vec<(usize, &V)>) -> (r: usize) {
        let r = self.choose_round_robin(candidates);
        proof {
            let mapped = candidates@.map_values(|p: (usize, &V)| (p.0, *p.1));
            assert(mapped[old(self).spec_counter() as int % candidates@.len() as int].0
                == candidates@[old(self).spec_counter() as int % candidates@.len() as int].0);
        }
        r
    }

    fn on_hit(&mut self, value: &mut V) {
    }

    fn on_insert(&mut self, value: &mut V) {
    }
}

/// The counter a fresh round-robin policy holds before its `k`-th eviction
/// decision, when every decision is made over `len` candidates.
pub open spec fn round_robin_counter(k: nat, len: nat) -> nat
    decreases k,
{
    if k == 0 {
        0
    } else {
        round_robin_counter((k - 1) as nat, len) % len + 1
    }
}

/// Round-robin replacement, invoked repeatedly with the same fixed candidate
/// count `len`, selects candidate positions `0, 1, ..., len - 1, 0, 1, ...`
/// in that exact cyclic order: starting from a fresh counter, the `k`-th
/// call picks position `k % len`.
///
/// `round_robin_counter` mirrors `choose_round_robin`'s counter contract
/// (each call moves the counter from `c` to `c % len + 1` and picks position
/// `c % len`), so this pins the whole cyclic schedule.
pub proof fn lemma_round_robin_cycles(k: nat, len: nat)
    requires
        len > 0,
    ensures
        round_robin_counter(k, len) % len == k % len,
    decreases k,
{
    if k > 0 {
        lemma_round_robin_cycles((k - 1) as nat, len);
        let c = round_robin_counter((k - 1) as nat, len) % len;
        lemma_add_mod_noop((k - 1) as int, 1int, len as int);
        if len > 1 {
            lemma_small_mod(1nat, len);
        }
    }
}

/// Choose a random cache entry to replace.
///
/// When considering `n` candidates, one is sampled from the supplied random
/// number generator; the default policy seeds its generator from operating
/// system entropy.
pub struct RandomReplacement {
    rng: rand::rngs::StdRng,
}

#[verifier::external_type_specification]
#[verifier::external_body]
pub struct ExStdRng(rand::rngs::StdRng);

/// Relies on rand's `Rng::gen_range` over `0..n`: the sample lies in the
/// range, and the call panics only on an empty range, which the precondition
/// rules out.
#[verifier::external_body]
fn random_index(rng: &mut rand::rngs::StdRng, n: usize) -> (r: usize)
    requires
        n > 0,
    ensures
        r < n,
{
    rng.gen_range(0..n)
}

/// Relies on rand's `OsRng` (`RngCore::next_u64`) for an operating-system
/// entropy sample; nothing is promised of the result. The call panics only
/// if the operating system's entropy source fails — an environmental fault
/// no precondition over arguments can exclude.
#[verifier::external_body]
fn entropy_seed() -> u64 {
    rand::rngs::OsRng.next_u64()
}

/// Relies on rand's `SeedableRng::seed_from_u64` to build a deterministically
/// seeded generator; nothing is promised of the generator's future draws.
#[verifier::external_body]
fn rng_from_seed(seed: u64) -> rand::rngs::StdRng {
    rand::rngs::StdRng::seed_from_u64(seed)
}

impl RandomReplacement {
    /// Construct a `RandomReplacement` with the given random number
    /// generator.
    pub fn with_rng(rng: rand::rngs::StdRng) -> Self {
        RandomReplacement { rng }
    }
}

impl Default for RandomReplacement {
    /// A random policy seeded from operating system entropy.
    fn default() -> Self {
        RandomReplacement::with_rng(rng_from_seed(entropy_seed()))
    }
}

impl<V, C: Capacity> Replacement<V, C> for RandomReplacement {
    /// A hit leaves both the value and the generator untouched.
    open spec fn spec_hit(pre: Self, v0: V, post: Self, v1: V) -> bool {
        v1 == v0 && post == pre
    }

    /// An insert notification leaves both the value and the generator
    /// untouched.
    open spec fn spec_insert(pre: Self, v0: V, post: Self, v1: V) -> bool {
        v1 == v0 && post == pre
    }

    /// Some candidate is picked; which one, and what the generator becomes,
    /// depends on the random draw, so nothing more is promised.
    open spec fn spec_choose(
        pre: Self,
        candidates: Seq<(usize, V)>,
        chosen: usize,
        post: Self,
    ) -> bool {
        exists|i: int| 0 <= i < candidates.len() && (#[trigger] candidates[i]).0 == chosen
    }

    fn choose_for_replacement(&mut self, candidates: &Vec<(usize, &V)>) -> (r: usize) {
        let k = random_index(&mut self.rng, candidates.len());
        let r = candidates[k].0;
        proof {
            let mapped = candidates@.map_values(|p: (usize, &V)| (p.0, *p.1));
            assert(mapped[k as int].0 == candidates@[k as int].0);
        }
        r
    }

    fn on_hit(&mut self, value: &mut V) {
    }

    fn on_insert(&mut self, value: &mut V) {
    }
}

} // verus!
