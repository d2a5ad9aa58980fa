//! Reproducible randomness: the process seed, the seeds derived from it, and the
//! generators that start from them.

use rand::seq::SliceRandom;
use rand::SeedableRng;
use rand_chacha::ChaCha8Rng;
use vstd::prelude::*;

verus! {

/// The multiplier that spreads consecutive stream numbers over all seeds.
pub const STREAM_MULTIPLIER: u64 = 0x9E37_79B9_7F4A_7C15;

/// The seed that a process starts with.
pub const DEFAULT_SEED: u64 = 42;

/// The ChaCha generator with eight rounds, of the crate `rand_chacha`.
#[verifier::external_type_specification]
#[verifier::external_body]
pub struct ExChaCha8Rng(ChaCha8Rng);

/// The generator that `ChaCha8Rng::seed_from_u64` makes of a seed.
pub uninterp spec fn seeded_generator(seed: u64) -> ChaCha8Rng;

/// The order in which `SliceRandom::shuffle` leaves `items` when it draws from the
/// generator that `ChaCha8Rng::seed_from_u64` makes of `seed`.
pub uninterp spec fn shuffled_by_seed(seed: u64, items: Seq<u32>) -> Seq<u32>;

/// `ChaCha8Rng::seed_from_u64`: the generator depends on the seed alone.
#[verifier::external_body]
fn generator_from_seed(seed: u64) -> (rng: ChaCha8Rng)
    ensures
        rng == seeded_generator(seed),
{
    ChaCha8Rng::seed_from_u64(seed)
}

/// `SliceRandom::shuffle` with a generator fresh from `ChaCha8Rng::seed_from_u64`:
/// the new order depends on the seed and the items alone, and holds each item as
/// often as before.
#[verifier::external_body]
pub(crate) fn shuffle_by_seed(seed: u64, items: Vec<u32>) -> (result: Vec<u32>)
    ensures
        result@ == shuffled_by_seed(seed, items@),
        result@.to_multiset() == items@.to_multiset(),
{
    let mut result = items;
    let mut rng = ChaCha8Rng::seed_from_u64(seed);
    result.shuffle(&mut rng);
    result
}

/// The seed of stream number `index` under `seed`.
pub open spec fn mixed_seed(seed: u64, index: u64) -> u64 {
    seed.wrapping_add(index.wrapping_mul(STREAM_MULTIPLIER))
}

/// The seed of stream number `index` under `seed`.
pub fn mix_seed(seed: u64, index: u64) -> (result: u64)
    ensures
        result == mixed_seed(seed, index),
{
    seed.wrapping_add(index.wrapping_mul(STREAM_MULTIPLIER))
}

proof fn lemma_multiplier_is_invertible(a: int)
    requires
        0 <= a < 0x1_0000_0000_0000_0000,
    ensures
        (((a * STREAM_MULTIPLIER) % 0x1_0000_0000_0000_0000) * 0xf1de_83e1_9937_733d)
            % 0x1_0000_0000_0000_0000 == a,
{
    let m: int = 0x1_0000_0000_0000_0000;
    let c: int = STREAM_MULTIPLIER as int;
    let inverse: int = 0xf1de_83e1_9937_733d;
    let k: int = 10771413168148108919;
    assert(c * inverse == 1 + k * m) by (nonlinear_arith)
        requires
            c == 0x9E37_79B9_7F4A_7C15,
            inverse == 0xf1de_83e1_9937_733d,
            k == 10771413168148108919,
            m == 0x1_0000_0000_0000_0000,
    ;
    vstd::arithmetic::div_mod::lemma_mul_mod_noop_left(a * c, inverse, m);
    assert((a * c) * inverse == m * (a * k) + a) by (nonlinear_arith)
        requires
            c * inverse == 1 + k * m,
    ;
    vstd::arithmetic::div_mod::lemma_mod_multiples_vanish(a * k, a, m);
    vstd::arithmetic::div_mod::lemma_small_mod(a as nat, m as nat);
}

/// Different streams under one seed have different seeds.
pub proof fn streams_have_different_seeds(seed: u64, first: u64, second: u64)
    requires
        first != second,
    ensures
        mixed_seed(seed, first) != mixed_seed(seed, second),
{
    lemma_multiplier_is_invertible(first as int);
    lemma_multiplier_is_invertible(second as int);
}

/// Stream zero has the seed itself.
pub proof fn stream_zero_keeps_the_seed(seed: u64)
    ensures
        mixed_seed(seed, 0) == seed,
{
}

/// One stream of different seeds has different seeds.
pub proof fn seeds_stay_apart(first: u64, second: u64, stream: u64)
    requires
        first != second,
    ensures
        mixed_seed(first, stream) != mixed_seed(second, stream),
{
}

/// From one stream to the next the seed moves by one fixed step, whatever the seed.
pub proof fn streams_step_evenly(seed: u64, stream: u64)
    requires
        stream < u64::MAX,
    ensures
        mixed_seed(seed, (stream + 1) as u64) == (mixed_seed(seed, stream) + 0x9E37_79B9_7F4A_7C15)
            % 0x1_0000_0000_0000_0000,
{
    let m: int = 0x1_0000_0000_0000_0000;
    let c: int = STREAM_MULTIPLIER as int;
    let k: int = stream as int;
    assert((k + 1) * c == k * c + c) by (nonlinear_arith);
    vstd::arithmetic::div_mod::lemma_add_mod_noop(k * c, c, m);
    vstd::arithmetic::div_mod::lemma_add_mod_noop(seed as int, k * c, m);
    vstd::arithmetic::div_mod::lemma_add_mod_noop(seed as int, (k + 1) * c, m);
    vstd::arithmetic::div_mod::lemma_add_mod_noop(seed + k * c, c, m);
}

/// Setting the process seed changes the seed to the one that was asked for and moves on to
/// another generation, so that every worker starts over from that seed.
pub proof fn seeding_starts_a_generation(state: SeedState, seed: u64, local: LocalGenerator)
    ensures
        reseeded(state, seed).seed == seed,
        reseeded(state, seed).generation != state.generation,
        state.generation < u64::MAX ==> reseeded(state, seed).generation == state.generation + 1,
        local.generation == state.generation ==> local.refreshed(reseeded(state, seed)).rng
            == seeded_generator(seed),
        local.generation == state.generation ==> local.refreshed(state) == local,
        local.refreshed(state).generation == state.generation,
{
}

/// The process seed, and how often it has been set.
#[derive(Clone, Copy, Debug, PartialEq, Eq, Structural)]
pub struct SeedState {
    pub seed: u64,
    pub generation: u64,
}

/// The seed asked for on the command line.
#[derive(Clone, Copy, Debug, PartialEq, Eq, Structural)]
pub struct SeedArgs {
    pub seed: u64,
}

impl SeedArgs {
    /// The seed that was given, or the one a process starts with.
    pub fn resolve(given: Option<u64>) -> (result: SeedArgs)
        ensures
            result.seed == given.unwrap_or(DEFAULT_SEED),
    {
        match given {
            Some(seed) => SeedArgs { seed },
            None => SeedArgs { seed: DEFAULT_SEED },
        }
    }
}

impl SeedState {
    /// The state of a process that has not been seeded.
    pub fn initial() -> (result: SeedState)
        ensures
            result.seed == DEFAULT_SEED,
            result.generation == 0,
    {
        SeedState { seed: DEFAULT_SEED, generation: 0 }
    }
}

/// The state after the process seed has been set.
pub open spec fn reseeded(state: SeedState, seed: u64) -> SeedState {
    SeedState { seed, generation: state.generation.wrapping_add(1) }
}

/// Sets the process seed and starts a new generation.
pub fn set_global_seed(state: &mut SeedState, seed: u64)
    ensures
        *final(state) == reseeded(*old(state), seed),
{
    state.seed = seed;
    state.generation = state.generation.wrapping_add(1);
}

/// The process seed.
pub fn get_global_seed(state: &SeedState) -> (seed: u64)
    ensures
        seed == state.seed,
{
    state.seed
}

/// A generator that starts from the process seed.
pub fn get_seeded_rng(state: &SeedState) -> (rng: ChaCha8Rng)
    ensures
        rng == seeded_generator(state.seed),
{
    generator_from_seed(get_global_seed(state))
}

/// A generator for task number `index`, which starts from a seed of its own.
pub fn derive_sub_rng(state: &SeedState, index: u64) -> (rng: ChaCha8Rng)
    ensures
        rng == seeded_generator(mixed_seed(state.seed, index)),
{
    generator_from_seed(mix_seed(get_global_seed(state), index))
}

/// A worker's generator, and the seed generation that it was made in.
pub struct LocalGenerator {
    pub generation: u64,
    pub rng: ChaCha8Rng,
}

impl LocalGenerator {
    /// The generator of a worker that starts under `state`.
    pub fn new(state: &SeedState) -> (result: LocalGenerator)
        ensures
            result.generation == state.generation,
            result.rng == seeded_generator(state.seed),
    {
        LocalGenerator { generation: state.generation, rng: generator_from_seed(state.seed) }
    }

    /// This generator after it has looked at `state`: unchanged within one seed
    /// generation, else fresh from the process seed.
    pub open spec fn refreshed(self, state: SeedState) -> LocalGenerator {
        if self.generation != state.generation {
            LocalGenerator { generation: state.generation, rng: seeded_generator(state.seed) }
        } else {
            self
        }
    }

    /// Starts over from the process seed if it has been set since this generator
    /// was made.
    pub fn refresh(&mut self, state: &SeedState)
        ensures
            *final(self) == old(self).refreshed(*state),
    {
        if self.generation != state.generation {
            self.generation = state.generation;
            self.rng = generator_from_seed(state.seed);
        }
    }
}

/// Seeds the process and marks a worker's generator as out of date.
pub fn reset_for_testing(state: &mut SeedState, local: &mut LocalGenerator, seed: u64)
    ensures
        *final(state) == reseeded(*old(state), seed),
        *final(local) == (LocalGenerator { generation: u64::MAX, rng: old(local).rng }),
{
    set_global_seed(state, seed);
    local.generation = u64::MAX;
}

/// Workers that look at the state after it has been seeded start alike, whatever
/// they have drawn before.
pub proof fn workers_start_alike_after_seeding(
    state: SeedState,
    seed: u64,
    first: LocalGenerator,
    second: LocalGenerator,
)
    requires
        first.generation != reseeded(state, seed).generation,
        second.generation != reseeded(state, seed).generation,
    ensures
        first.refreshed(reseeded(state, seed)) == second.refreshed(reseeded(state, seed)),
        first.refreshed(reseeded(state, seed)).rng == seeded_generator(seed),
{
}

/// A second look at the same state changes nothing.
pub proof fn refreshing_is_idempotent(local: LocalGenerator, state: SeedState)
    ensures
        local.refreshed(state).refreshed(state) == local.refreshed(state),
{
}

/// The items in the order that the process seed gives them.
pub fn shuffle_under_seed(state: &SeedState, items: Vec<u32>) -> (result: Vec<u32>)
    ensures
        result@ == shuffled_by_seed(state.seed, items@),
        result@.to_multiset() == items@.to_multiset(),
{
    shuffle_by_seed(state.seed, items)
}

} // verus!
