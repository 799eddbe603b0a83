//! The seeded generator of pseudorandom numbers that every pass draws from.
//!
//! The functions here call the `rand` and `rand_chacha` crates; Verus takes
//! their contracts on trust. A draw from a generator in use depends on what was drawn from it
//! before, and its contract states only what holds of every draw. A draw
//! that begins at a given word of a seed's stream is fixed by the seed, the
//! word and the range, and has a name; `SeedDraws` makes such draws one
//! after another.

use vstd::prelude::*;
use rand::rngs::StdRng;
use rand_chacha::ChaCha12Rng;

verus! {

#[verifier::external_type_specification]
#[verifier::external_body]
pub struct ExStdRng(StdRng);

/// `StdRng::seed_from_u64`: a generator whose draws are fixed by `seed`.
#[verifier::external_body]
pub(crate) fn seeded(seed: u64) -> StdRng {
    rand::SeedableRng::seed_from_u64(seed)
}

// The number from `low` to `high` that the stream of `seed` gives when the
// draw begins at word `pos` of the stream.
pub uninterp spec fn drawn_at(seed: u64, pos: u128, low: u64, high: u64) -> u64;

// The word of the stream of `seed` at which that draw ends, and the next
// draw begins.
pub uninterp spec fn drawn_to(seed: u64, pos: u128, low: u64, high: u64) -> u128;

/// `ChaCha12Rng::seed_from_u64`, `set_word_pos`, `Rng::gen_range` over the
/// inclusive range from `low` to `high`, which must not be empty, and
/// `get_word_pos`. The seeding, the stream and the draw are fixed
/// computations on 32-bit words, the same on every machine, so that the
/// number drawn and the word at which the draw ends are fixed by the seed,
/// the word at which the draw begins and the range: they are
/// `drawn_at(seed, pos, low, high)` and `drawn_to(seed, pos, low, high)`.
/// The number lies in the range. `StdRng` is this generator, so that a
/// `StdRng` of the same seed gives the same numbers in the same order.
#[verifier::external_body]
pub(crate) fn seeded_draw_at(seed: u64, pos: u128, low: u64, high: u64) -> (r: (u64, u128))
    requires
        low <= high,
    ensures
        r.0 == drawn_at(seed, pos, low, high),
        r.1 == drawn_to(seed, pos, low, high),
        low <= r.0 <= high,
{
    let mut rng: ChaCha12Rng = rand::SeedableRng::seed_from_u64(seed);
    rng.set_word_pos(pos);
    let value: u64 = rand::Rng::gen_range(&mut rng, low..=high);
    (value, rng.get_word_pos())
}

// The byte from `low` to `high` that the stream of `seed` gives when the
// draw begins at word `pos` of the stream.
pub uninterp spec fn byte_at(seed: u64, pos: u128, low: u8, high: u8) -> u8;

// The word of the stream of `seed` at which that draw ends.
pub uninterp spec fn byte_to(seed: u64, pos: u128, low: u8, high: u8) -> u128;

/// `ChaCha12Rng::seed_from_u64`, `set_word_pos`, `Rng::gen_range` over the
/// bytes from `low` to `high`, which must not be empty, and `get_word_pos`.
/// A byte is drawn otherwise than a longer number, but as fixed by the
/// seed, the word at which the draw begins and the range: the byte and the
/// word at which the draw ends are `byte_at(seed, pos, low, high)` and
/// `byte_to(seed, pos, low, high)`. The byte lies in the range.
#[verifier::external_body]
pub(crate) fn seeded_byte_at(seed: u64, pos: u128, low: u8, high: u8) -> (r: (u8, u128))
    requires
        low <= high,
    ensures
        r.0 == byte_at(seed, pos, low, high),
        r.1 == byte_to(seed, pos, low, high),
        low <= r.0 <= high,
{
    let mut rng: ChaCha12Rng = rand::SeedableRng::seed_from_u64(seed);
    rng.set_word_pos(pos);
    let value: u8 = rand::Rng::gen_range(&mut rng, low..=high);
    (value, rng.get_word_pos())
}

// Whether a toss with a chance of `numerator` in `denominator` comes out
// true when it begins at word `pos` of the stream of `seed`.
pub uninterp spec fn tossed_at(seed: u64, pos: u128, numerator: u32, denominator: u32) -> bool;

// The word of the stream of `seed` at which that toss ends.
pub uninterp spec fn tossed_to(seed: u64, pos: u128, numerator: u32, denominator: u32) -> u128;

/// `ChaCha12Rng::seed_from_u64`, `set_word_pos`, `Rng::gen_ratio` and
/// `get_word_pos`. The denominator must not be 0 and the numerator must
/// not exceed it. The toss compares a number of the stream with a threshold
/// computed from the ratio, so that its outcome and the word at which it
/// ends are fixed by the seed, the word at which it begins and the ratio:
/// they are `tossed_at(seed, pos, numerator, denominator)` and
/// `tossed_to(seed, pos, numerator, denominator)`. The toss is always true
/// when the two numbers are equal, never when `numerator` is 0.
#[verifier::external_body]
pub(crate) fn seeded_toss_at(seed: u64, pos: u128, numerator: u32, denominator: u32) -> (r: (
    bool,
    u128,
))
    requires
        denominator > 0,
        numerator <= denominator,
    ensures
        r.0 == tossed_at(seed, pos, numerator, denominator),
        r.1 == tossed_to(seed, pos, numerator, denominator),
        numerator == denominator ==> r.0,
        numerator == 0 ==> !r.0,
{
    let mut rng: ChaCha12Rng = rand::SeedableRng::seed_from_u64(seed);
    rng.set_word_pos(pos);
    let value: bool = rand::Rng::gen_ratio(&mut rng, numerator, denominator);
    (value, rng.get_word_pos())
}

// The byte that the stream of `seed` gives at word `pos`.
pub uninterp spec fn octet_at(seed: u64, pos: u128) -> u8;

// The word of the stream of `seed` at which the draw of that byte ends.
pub uninterp spec fn octet_to(seed: u64, pos: u128) -> u128;

/// `ChaCha12Rng::seed_from_u64`, `set_word_pos`, `Rng::gen` for a byte and
/// `get_word_pos`. The byte is cut from the word of the stream at which
/// the draw begins, so that it and the word at which the draw ends are
/// fixed by the seed and that word: they are `octet_at(seed, pos)` and
/// `octet_to(seed, pos)`.
#[verifier::external_body]
pub(crate) fn seeded_octet_at(seed: u64, pos: u128) -> (r: (u8, u128))
    ensures
        r.0 == octet_at(seed, pos),
        r.1 == octet_to(seed, pos),
{
    let mut rng: ChaCha12Rng = rand::SeedableRng::seed_from_u64(seed);
    rng.set_word_pos(pos);
    let value: u8 = rand::Rng::gen::<u8>(&mut rng);
    (value, rng.get_word_pos())
}

/// The draws that a seed stands for, one after another: the seed, and the
/// word of its stream at which the next draw begins.
#[derive(Clone, Copy, Debug)]
pub struct SeedDraws {
    pub seed: u64,
    pub pos: u128,
}

impl SeedDraws {
    /// The draws of `seed`, from the first on.
    pub open spec fn start(seed: u64) -> SeedDraws {
        SeedDraws { seed, pos: 0 }
    }

    /// The number from `low` to `high` that is drawn next.
    pub open spec fn value(self, low: u64, high: u64) -> u64 {
        drawn_at(self.seed, self.pos, low, high)
    }

    /// The draws that are left once a number from `low` to `high` is drawn.
    pub open spec fn after(self, low: u64, high: u64) -> SeedDraws {
        SeedDraws { seed: self.seed, pos: drawn_to(self.seed, self.pos, low, high) }
    }

    /// The byte from `low` to `high` that is drawn next.
    pub open spec fn byte_value(self, low: u8, high: u8) -> u8 {
        byte_at(self.seed, self.pos, low, high)
    }

    /// The draws that are left once a byte from `low` to `high` is drawn.
    pub open spec fn after_byte(self, low: u8, high: u8) -> SeedDraws {
        SeedDraws { seed: self.seed, pos: byte_to(self.seed, self.pos, low, high) }
    }

    /// Whether the next toss with a chance of `numerator` in `denominator`
    /// comes out true.
    pub open spec fn tossed(self, numerator: u32, denominator: u32) -> bool {
        tossed_at(self.seed, self.pos, numerator, denominator)
    }

    /// The draws that are left after such a toss.
    pub open spec fn after_toss(self, numerator: u32, denominator: u32) -> SeedDraws {
        SeedDraws { seed: self.seed, pos: tossed_to(self.seed, self.pos, numerator, denominator) }
    }

    /// The byte that is drawn next from all bytes.
    pub open spec fn octet(self) -> u8 {
        octet_at(self.seed, self.pos)
    }

    /// The draws that are left once a byte is drawn from all bytes.
    pub open spec fn after_octet(self) -> SeedDraws {
        SeedDraws { seed: self.seed, pos: octet_to(self.seed, self.pos) }
    }

    /// The draws of `seed`, from the first on.
    pub fn new(seed: u64) -> (r: SeedDraws)
        ensures
            r == SeedDraws::start(seed),
    {
        SeedDraws { seed, pos: 0 }
    }

    /// Draws a number from `low` to `high`.
    pub fn between(&mut self, low: u64, high: u64) -> (r: u64)
        requires
            low <= high,
        ensures
            r == old(self).value(low, high),
            *final(self) == old(self).after(low, high),
            low <= r <= high,
    {
        let drawn: (u64, u128) = seeded_draw_at(self.seed, self.pos, low, high);
        self.pos = drawn.1;
        drawn.0
    }

    /// Draws a byte from `low` to `high`.
    pub fn byte_between(&mut self, low: u8, high: u8) -> (r: u8)
        requires
            low <= high,
        ensures
            r == old(self).byte_value(low, high),
            *final(self) == old(self).after_byte(low, high),
            low <= r <= high,
    {
        let drawn: (u8, u128) = seeded_byte_at(self.seed, self.pos, low, high);
        self.pos = drawn.1;
        drawn.0
    }

    /// Tosses with a chance of `numerator` in `denominator`.
    pub fn toss(&mut self, numerator: u32, denominator: u32) -> (r: bool)
        requires
            denominator > 0,
            numerator <= denominator,
        ensures
            r == old(self).tossed(numerator, denominator),
            *final(self) == old(self).after_toss(numerator, denominator),
            numerator == denominator ==> r,
            numerator == 0 ==> !r,
    {
        let drawn: (bool, u128) = seeded_toss_at(self.seed, self.pos, numerator, denominator);
        self.pos = drawn.1;
        drawn.0
    }

    /// Draws a byte from all bytes.
    pub fn byte(&mut self) -> (r: u8)
        ensures
            r == old(self).octet(),
            *final(self) == old(self).after_octet(),
    {
        let drawn: (u8, u128) = seeded_octet_at(self.seed, self.pos);
        self.pos = drawn.1;
        drawn.0
    }
}

/// `Rng::gen_range` on the inclusive range from `low` to `high`, which must
/// not be empty: the draw lies in it.
#[verifier::external_body]
pub(crate) fn draw_between(rng: &mut StdRng, low: usize, high: usize) -> (r: usize)
    requires
        low <= high,
    ensures
        low <= r <= high,
{
    rand::Rng::gen_range(rng, low..=high)
}

/// `Rng::gen_ratio`: true with a chance of `numerator` in `denominator`;
/// always true when the two are equal, never when `numerator` is 0.
#[verifier::external_body]
pub(crate) fn chance(rng: &mut StdRng, numerator: u32, denominator: u32) -> (r: bool)
    requires
        denominator > 0,
        numerator <= denominator,
    ensures
        numerator == denominator ==> r,
        numerator == 0 ==> !r,
{
    rand::Rng::gen_ratio(rng, numerator, denominator)
}

/// `RngCore::next_u32`: the next word of the stream.
#[verifier::external_body]
pub(crate) fn next_word(rng: &mut StdRng) -> u32 {
    rand::RngCore::next_u32(rng)
}

/// `SliceRandom::shuffle`: reorders `items` by swaps, so that it holds what
/// it held before.
#[verifier::external_body]
pub(crate) fn shuffle(rng: &mut StdRng, items: &mut Vec<u8>)
    ensures
        final(items)@.to_multiset() == old(items)@.to_multiset(),
{
    rand::seq::SliceRandom::shuffle(items.as_mut_slice(), rng)
}

/// A draw below `bound`, which must be positive.
pub(crate) fn draw_below(rng: &mut StdRng, bound: usize) -> (r: usize)
    requires
        bound > 0,
    ensures
        r < bound,
{
    draw_between(rng, 0, bound - 1)
}

} // verus!
