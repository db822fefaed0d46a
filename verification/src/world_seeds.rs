//! Per-world seeds for domain randomization: each parallel world draws its
//! physics perturbations from its own deterministic random stream.
use vstd::prelude::*;

verus! {

/// Multiplier that spreads consecutive world seeds over the 64-bit range
/// (the 64-bit golden-ratio constant).
pub const SEED_SPREAD: u64 = 0x9E3779B97F4A7C15;

/// The inverse of [`SEED_SPREAD`] modulo 2^64.
pub const SEED_SPREAD_INVERSE: u64 = 0xF1DE83E19937733D;

/// The seed stored in a randomized world's configuration:
/// `base_seed + world_index`, wrapping.
pub open spec fn world_config_seed_spec(base_seed: u64, world_index: u64) -> u64 {
    ((base_seed + world_index) % 0x1_0000_0000_0000_0000) as u64
}

/// The seed of a world's random stream: the configuration seed times
/// [`SEED_SPREAD`], wrapping.
pub open spec fn world_rng_seed_spec(base_seed: u64, world_index: u64) -> u64 {
    ((world_config_seed_spec(base_seed, world_index) * SEED_SPREAD) % 0x1_0000_0000_0000_0000) as u64
}

/// See [`world_config_seed_spec`].
pub fn world_config_seed(base_seed: u64, world_index: u64) -> (res: u64)
    ensures
        res == world_config_seed_spec(base_seed, world_index),
{
    base_seed.wrapping_add(world_index)
}

/// See [`world_rng_seed_spec`].
pub fn world_rng_seed(base_seed: u64, world_index: u64) -> (res: u64)
    ensures
        res == world_rng_seed_spec(base_seed, world_index),
{
    let s = base_seed.wrapping_add(world_index);
    s.wrapping_mul(SEED_SPREAD)
}

proof fn lemma_spread_invertible(x: u64)
    ensures
        ((((x * SEED_SPREAD) % 0x1_0000_0000_0000_0000) as u64) * SEED_SPREAD_INVERSE)
            % 0x1_0000_0000_0000_0000 == x,
{
    assert(((((x * 0x9E3779B97F4A7C15u64) % 0x1_0000_0000_0000_0000) as u64) * 0xF1DE83E19937733Du64)
        % 0x1_0000_0000_0000_0000 == x) by (bit_vector);
}

/// Different worlds of one run get different random streams: two world
/// indices give the same stream seed only when they are equal.
pub proof fn distinct_worlds_distinct_streams(base_seed: u64, a: u64, b: u64)
    requires
        a != b,
    ensures
        world_rng_seed_spec(base_seed, a) != world_rng_seed_spec(base_seed, b),
        world_config_seed_spec(base_seed, a) != world_config_seed_spec(base_seed, b),
{
    let sa = world_config_seed_spec(base_seed, a);
    let sb = world_config_seed_spec(base_seed, b);
    lemma_spread_invertible(sa);
    lemma_spread_invertible(sb);
}

} // verus!
