//! Deterministic random stream.
//!
//! All randomness in the generator derives from one `rand_chacha::ChaCha8Rng`
//! seeded with a caller-supplied `u64`. ChaCha is a pure, portable stream
//! cipher: the value a draw returns, and the stream state it leaves behind,
//! are functions of the stream state it started from and of the draw's
//! arguments alone. The trusted items below record exactly that. Each
//! `RandStream` carries a ghost abstraction of its concrete stream state;
//! every constructor and every draw pins the ghost state of its result, so
//! two streams with equal ghost states hold equal concrete states and yield
//! equal draws from then on.

use vstd::prelude::*;

use rand::seq::SliceRandom;
use rand::{Rng, SeedableRng};

verus! {

#[verifier::external_type_specification]
#[verifier::external_body]
pub struct ExChaCha8Rng(rand_chacha::ChaCha8Rng);

/// State of a ChaCha8 stream right after seeding from a `u64`: the seed
/// determines the state, so the seed itself stands for it.
pub open spec fn rng_seed_state(seed: u64) -> nat {
    seed as nat
}

/// Draw of a `u8` from an inclusive range: the value drawn and the state the
/// stream moves to.
pub uninterp spec fn rng_u8_incl(state: nat, lo: u8, hi: u8) -> (u8, nat);

/// Draw of a `u8` from a half-open range.
pub uninterp spec fn rng_u8_excl(state: nat, lo: u8, hi: u8) -> (u8, nat);

/// Draw of an `i8` from a half-open range.
pub uninterp spec fn rng_i8_excl(state: nat, lo: i8, hi: i8) -> (i8, nat);

/// Draw of a `usize` from an inclusive range.
pub uninterp spec fn rng_usize_incl(state: nat, lo: usize, hi: usize) -> (usize, nat);

/// Draw of a `usize` from a half-open range.
pub uninterp spec fn rng_usize_excl(state: nat, lo: usize, hi: usize) -> (usize, nat);

/// Fisher-Yates shuffle of a sequence: the permuted sequence and the state
/// the stream moves to.
pub uninterp spec fn rng_shuffle(state: nat, v: Seq<usize>) -> (Seq<usize>, nat);

/// Weighted discrete choice over a sequence of weights: the index chosen and
/// the state the stream moves to.
pub uninterp spec fn rng_weighted(state: nat, weights: Seq<u32>) -> (usize, nat);

/// Sum of a sequence of weights.
pub open spec fn sum_weights(s: Seq<u32>) -> int
    decreases s.len(),
{
    if s.len() == 0 {
        0
    } else {
        sum_weights(s.drop_last()) + s.last()
    }
}

/// A seeded, cloneable pseudo-random stream. The ghost `state` abstracts the
/// concrete ChaCha8 state; equal ghost states mean equal concrete states.
/// That coupling holds because `from_seed` and `clone_stream` are the only
/// ways the library builds a stream, and every draw advances both sides in
/// step.
pub struct RandStream {
    pub inner: rand_chacha::ChaCha8Rng,
    pub state: Ghost<nat>,
}

/// Relies on `ChaCha8Rng::seed_from_u64` (rand_core's `SeedableRng`): seeding
/// is a pure function of the seed, so equal seeds give equal stream states.
#[verifier::external_body]
fn chacha_from_seed(seed: u64) -> rand_chacha::ChaCha8Rng {
    rand_chacha::ChaCha8Rng::seed_from_u64(seed)
}

/// Relies on `ChaCha8Rng::clone`: the clone holds the same stream state as
/// the original and draws the same values from then on.
#[verifier::external_body]
fn chacha_clone(c: &rand_chacha::ChaCha8Rng) -> rand_chacha::ChaCha8Rng {
    c.clone()
}

impl RandStream {
    /// A fresh stream whose state is a function of the seed alone.
    pub fn from_seed(seed: u64) -> (r: RandStream)
        ensures
            r.state@ == rng_seed_state(seed),
    {
        RandStream { inner: chacha_from_seed(seed), state: Ghost(rng_seed_state(seed)) }
    }

    /// An independent stream starting from the same state; draws from the
    /// clone do not advance `self`.
    pub fn clone_stream(&self) -> (r: RandStream)
        ensures
            r.state@ == self.state@,
    {
        RandStream { inner: chacha_clone(&self.inner), state: Ghost(self.state@) }
    }

    /// Relies on `Rng::gen_range` over `lo..=hi`: returns a value of the
    /// range, a pure function of the stream state and the bounds; panics
    /// only on an empty range.
    #[verifier::external_body]
    pub fn gen_u8_incl(&mut self, lo: u8, hi: u8) -> (r: u8)
        requires
            lo <= hi,
        ensures
            lo <= r <= hi,
            r == rng_u8_incl(old(self).state@, lo, hi).0,
            final(self).state@ == rng_u8_incl(old(self).state@, lo, hi).1,
    {
        self.inner.gen_range(lo..=hi)
    }

    /// Relies on `Rng::gen_range` over `lo..hi`: returns a value of the
    /// range, a pure function of the stream state and the bounds.
    #[verifier::external_body]
    pub fn gen_u8_excl(&mut self, lo: u8, hi: u8) -> (r: u8)
        requires
            lo < hi,
        ensures
            lo <= r < hi,
            r == rng_u8_excl(old(self).state@, lo, hi).0,
            final(self).state@ == rng_u8_excl(old(self).state@, lo, hi).1,
    {
        self.inner.gen_range(lo..hi)
    }

    /// Relies on `Rng::gen_range` over `lo..hi` for `i8` values.
    #[verifier::external_body]
    pub fn gen_i8_excl(&mut self, lo: i8, hi: i8) -> (r: i8)
        requires
            lo < hi,
        ensures
            lo <= r < hi,
            r == rng_i8_excl(old(self).state@, lo, hi).0,
            final(self).state@ == rng_i8_excl(old(self).state@, lo, hi).1,
    {
        self.inner.gen_range(lo..hi)
    }

    /// Relies on `Rng::gen_range` over `lo..=hi` for `usize` values.
    #[verifier::external_body]
    pub fn gen_usize_incl(&mut self, lo: usize, hi: usize) -> (r: usize)
        requires
            lo <= hi,
        ensures
            lo <= r <= hi,
            r == rng_usize_incl(old(self).state@, lo, hi).0,
            final(self).state@ == rng_usize_incl(old(self).state@, lo, hi).1,
    {
        self.inner.gen_range(lo..=hi)
    }

    /// Relies on `Rng::gen_range` over `lo..hi` for `usize` values.
    #[verifier::external_body]
    pub fn gen_usize_excl(&mut self, lo: usize, hi: usize) -> (r: usize)
        requires
            lo < hi,
        ensures
            lo <= r < hi,
            r == rng_usize_excl(old(self).state@, lo, hi).0,
            final(self).state@ == rng_usize_excl(old(self).state@, lo, hi).1,
    {
        self.inner.gen_range(lo..hi)
    }

    /// Relies on `SliceRandom::shuffle` (Fisher-Yates, in-place swaps): the
    /// result is a permutation of the input, a pure function of the stream
    /// state and the input.
    #[verifier::external_body]
    pub fn shuffle_usizes(&mut self, v: &mut Vec<usize>)
        ensures
            final(v)@ == rng_shuffle(old(self).state@, old(v)@).0,
            final(self).state@ == rng_shuffle(old(self).state@, old(v)@).1,
            final(v)@.to_multiset() == old(v)@.to_multiset(),
            final(v)@.len() == old(v)@.len(),
    {
        v.shuffle(&mut self.inner);
    }

    /// Relies on `WeightedIndex::new` and `Distribution::sample`: with a
    /// positive total weight that fits in `u32`, construction succeeds and a
    /// sample returns an index below `weights.len()`, a pure function of the
    /// stream state and the weights.
    #[verifier::external_body]
    pub fn weighted_choice(&mut self, weights: &Vec<u32>) -> (r: usize)
        requires
            0 < sum_weights(weights@) <= u32::MAX,
        ensures
            r < weights@.len(),
            r == rng_weighted(old(self).state@, weights@).0,
            final(self).state@ == rng_weighted(old(self).state@, weights@).1,
    {
        let dist = rand::distributions::WeightedIndex::new(weights).unwrap();
        rand::distributions::Distribution::sample(&dist, &mut self.inner)
    }
}

/// Elements of a permutation of a bounded sequence stay bounded.
pub proof fn lemma_permutation_bound(a: Seq<usize>, b: Seq<usize>, bound: int)
    requires
        a.to_multiset() == b.to_multiset(),
        forall|k: int| 0 <= k < a.len() ==> (#[trigger] a[k]) < bound,
    ensures
        forall|k: int| 0 <= k < b.len() ==> (#[trigger] b[k]) < bound,
{
    broadcast use vstd::seq_lib::group_to_multiset_ensures;

    assert forall|k: int| 0 <= k < b.len() implies (#[trigger] b[k]) < bound by {
        assert(b.contains(b[k]));
        assert(b.to_multiset().count(b[k]) > 0);
        assert(a.contains(b[k]));
    }
}

} // verus!
