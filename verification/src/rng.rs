use vstd::prelude::*;
use rand::RngExt;
use rand::SeedableRng;

verus! {

/// Source of the random draws that one simulation tick consumes: a fresh
/// fall delay for a flake that just moved, a kind for a newly spawned
/// flake, and the per-column spawn decision at the top edge.
pub trait RandomSource {
    /// A fresh fall delay, uniform over `[1, 5]`.
    fn fall_delay(&mut self) -> (r: u8)
        ensures
            1 <= r <= 5,
    ;

    /// A flake kind variant, uniform over `[1, 3]`.
    fn flake_kind(&mut self) -> (r: u8)
        ensures
            1 <= r <= 3,
    ;

    /// Whether a new flake spawns in one top-row column this tick
    /// (probability 1/500); nothing is assumed of the outcome.
    fn spawn_flake(&mut self) -> (r: bool);
}

#[verifier::external_type_specification]
#[verifier::external_body]
pub struct ExStdRng(rand::rngs::StdRng);

/// Relies on rand::SeedableRng::seed_from_u64: builds a generator from a
/// 64-bit seed. The generator value is opaque here, so nothing is stated
/// of the result.
#[verifier::external_body]
fn seed_std_rng(seed: u64) -> rand::rngs::StdRng {
    rand::rngs::StdRng::seed_from_u64(seed)
}

/// Relies on rand::RngExt::random_range over the non-empty inclusive range
/// `1..=5`: the result lies in that range.
#[verifier::external_body]
fn draw_fall_delay(rng: &mut rand::rngs::StdRng) -> (r: u8)
    ensures
        1 <= r <= 5,
{
    rng.random_range(1..=5)
}

/// Relies on rand::RngExt::random_range over the non-empty inclusive range
/// `1..=3`: the result lies in that range.
#[verifier::external_body]
fn draw_kind(rng: &mut rand::rngs::StdRng) -> (r: u8)
    ensures
        1 <= r <= 3,
{
    rng.random_range(1..=3)
}

/// Relies on rand::RngExt::random_ratio with numerator 1 and denominator
/// 500: a Bernoulli draw, true with probability 1/500. Nothing is assumed
/// of the outcome.
#[verifier::external_body]
fn draw_spawn(rng: &mut rand::rngs::StdRng) -> (r: bool) {
    rng.random_ratio(1, 500)
}

/// A `RandomSource` backed by rand's standard generator, reproducible from
/// a 64-bit seed.
pub struct SeededRandom {
    rng: rand::rngs::StdRng,
}

impl SeededRandom {
    pub fn from_seed(seed: u64) -> SeededRandom {
        SeededRandom { rng: seed_std_rng(seed) }
    }
}

impl RandomSource for SeededRandom {
    fn fall_delay(&mut self) -> (r: u8) {
        draw_fall_delay(&mut self.rng)
    }

    fn flake_kind(&mut self) -> (r: u8) {
        draw_kind(&mut self.rng)
    }

    fn spawn_flake(&mut self) -> (r: bool) {
        draw_spawn(&mut self.rng)
    }
}

/// A `RandomSource` that always answers with the smallest value of each
/// range and never spawns: every draw is deterministic.
pub struct MinRandom {}

impl RandomSource for MinRandom {
    fn fall_delay(&mut self) -> (r: u8)
        ensures
            r == 1,
    {
        1
    }

    fn flake_kind(&mut self) -> (r: u8)
        ensures
            r == 1,
    {
        1
    }

    fn spawn_flake(&mut self) -> (r: bool)
        ensures
            r == false,
    {
        false
    }
}

} // verus!
