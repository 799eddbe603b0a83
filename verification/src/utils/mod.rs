//! Constants, errors, traits and the seeded draws that the generator rests on.

use vstd::prelude::*;
use crate::utils::constants::UNIT;
use crate::utils::random::{byte_at, drawn_at, seeded_byte_at, seeded_draw_at};

pub mod constants;
pub mod errors;
pub mod random;
pub mod traits;

verus! {

/// `thread_rng().gen::<u64>()`: a seed from the operating system's entropy.
/// Nothing is known of it. The call fails only where the system has no
/// entropy to give.
#[verifier::external_body]
pub fn generate_random_seed() -> u64 {
    rand::Rng::gen::<u64>(&mut rand::thread_rng())
}

/// The height multiplier that a seed stands for: a fraction below one whole,
/// in millionths. It is the first number that the seed's stream gives from
/// the numbers below one million, and so is fixed by the seed.
pub fn multiplier_from_seed(seed: u64) -> (r: i64)
    ensures
        r == drawn_at(seed, 0, 0, 999_999),
        0 <= r < UNIT,
{
    let drawn: (u64, u128) = seeded_draw_at(seed, 0, 0, 999_999);
    drawn.0 as i64
}

/// The world size that a seed stands for. It is the first byte that the
/// seed's stream gives from the bytes below 255, and so is fixed by the
/// seed.
pub fn generate_random_world_size(seed: u64) -> (r: usize)
    ensures
        r == byte_at(seed, 0, 0, 254),
        r < 255,
{
    let drawn: (u8, u128) = seeded_byte_at(seed, 0, 0, 254);
    drawn.0 as usize
}

} // verus!
