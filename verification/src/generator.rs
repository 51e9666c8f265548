//! The seeded pseudorandom generator and the draws that the library makes
//! from it.
//!
//! The generator is `Pcg64` of `rand_pcg`, seeded from a text by `rand_seeder`.
//! Nothing here is proved: each item states what the outside function is
//! documented to return. Every draw is a function of the generator's state and
//! of the arguments alone, so each has a name under which contracts can speak
//! of it.

use vstd::prelude::*;
use rand::seq::IteratorRandom;
use rand::Rng;
use rand_pcg::Pcg64;
use rand_seeder::Seeder;

verus! {

/// `rand_pcg::Lcg128Xsl64`, which `rand_pcg` also calls `Pcg64`.
#[verifier::external_type_specification]
#[verifier::external_body]
pub struct ExPcg64(rand_pcg::Lcg128Xsl64);

/// What a generator holds: the state of its recurrence and its increment.
pub type GeneratorState = (u128, u128);

/// The state that a generator is in.
pub uninterp spec fn generator_state(generator: Pcg64) -> GeneratorState;

/// The state of a generator freshly seeded from `seed`.
pub uninterp spec fn seeded_state(seed: Seq<char>) -> GeneratorState;

/// The index that a generator in `state` picks below `bound`, and the state
/// that it is in afterwards.
pub uninterp spec fn chosen_index(state: GeneratorState, bound: nat) -> (nat, GeneratorState);

/// The number up to and including `high` that a generator in `state` draws,
/// and the state that it is in afterwards.
pub uninterp spec fn ranged_draw(state: GeneratorState, high: nat) -> (nat, GeneratorState);

/// The `amount` indices below `length` that a generator in `state` samples,
/// and the state that it is in afterwards.
pub uninterp spec fn sampled_indices(state: GeneratorState, length: nat, amount: nat) -> (
    Seq<nat>,
    GeneratorState,
);

/// The numbers of a list of indices.
pub open spec fn index_values(indices: Seq<usize>) -> Seq<nat> {
    Seq::new(indices.len(), |i: int| indices[i] as nat)
}

/// `Seeder::from` hashes the text into a seeder, and `Seeder::make_rng` seeds a
/// new generator from it. The generator's state depends on the text alone.
#[verifier::external_body]
pub(crate) fn seeded_generator(seed: &str) -> (generator: Pcg64)
    ensures
        generator_state(generator) == seeded_state(seed@),
{
    Seeder::from(seed).make_rng()
}

/// `IteratorRandom::choose` on the range `0..bound` returns one of its numbers,
/// and `None` exactly when the range is empty, in which case the generator is
/// not advanced.
#[verifier::external_body]
pub(crate) fn choose_index(generator: &mut Pcg64, bound: usize) -> (picked: Option<usize>)
    ensures
        bound == 0 ==> picked is None && generator_state(*final(generator)) == generator_state(
            *old(generator),
        ),
        bound > 0 ==> picked is Some && picked->0 < bound && (
            picked->0 as nat,
            generator_state(*final(generator)),
        ) == chosen_index(generator_state(*old(generator)), bound as nat),
{
    (0..bound).choose(generator)
}

/// `Rng::gen_range` on the range `0..=high` returns a number of that range.
#[verifier::external_body]
pub(crate) fn draw_up_to(generator: &mut Pcg64, high: u64) -> (drawn: u64)
    ensures
        drawn <= high,
        (drawn as nat, generator_state(*final(generator))) == ranged_draw(
            generator_state(*old(generator)),
            high as nat,
        ),
{
    generator.gen_range(0..=high)
}

/// `rand::seq::index::sample` returns exactly `amount` distinct indices below
/// `length`; it panics where `amount` exceeds `length`. Up to `u32::MAX` it
/// samples with 32-bit numbers on every machine.
#[verifier::external_body]
pub(crate) fn sample_indices(generator: &mut Pcg64, length: usize, amount: usize) -> (indices: Vec<
    usize,
>)
    requires
        amount <= length <= u32::MAX,
    ensures
        indices.len() == amount,
        forall|i: int| 0 <= i < indices.len() ==> indices[i] < length,
        forall|i: int, j: int| 0 <= i < j < indices.len() ==> indices[i] != indices[j],
        (index_values(indices@), generator_state(*final(generator))) == sampled_indices(
            generator_state(*old(generator)),
            length as nat,
            amount as nat,
        ),
{
    rand::seq::index::sample(generator, length, amount).into_vec()
}

} // verus!
