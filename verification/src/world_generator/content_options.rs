//! The options that decide how one kind of content is spread over a world.

use vstd::prelude::*;
use crate::utils::constants::{
    CHANCE_SCALE, DEFAULT_BATCH_DISTANCE, DEFAULT_SPAWN_RADIUS,
    DEFAULT_TILE_CONTENT_IN_BATCH_CHANCE, DEFAULT_TILE_CONTENT_IS_PRESENT_CHANCE,
    DEFAULT_TILE_CONTENT_MIN_SPAWN_NUMBER, UNIT,
};
use crate::utils::errors::OxAgError;
use crate::utils::random::SeedDraws;
use crate::utils::traits::Validator;
use crate::world::tile::Content;

verus! {

/// How one kind of content spawns.
#[derive(Clone, Copy, Debug, PartialEq, Eq, Structural)]
pub struct OxAgContentOptions {
    /// Whether the content spawns in batches rather than cell by cell.
    pub in_batches: bool,
    /// Whether the content spawns at all.
    pub is_present: bool,
    /// The least number of placements, or of batches.
    pub min_spawn_number: usize,
    /// The radius of a batch.
    pub max_radius: usize,
    /// Whether `max_spawn_number` fixes the number of placements.
    pub with_max_spawn_number: bool,
    /// The number of placements, or of batches, when it is fixed.
    pub max_spawn_number: usize,
    /// The share, in millionths, of the cells that can hold the content on
    /// which it may spawn.
    pub percentage: i64,
}

/// A list of content kinds, each with its options. Its order is the order
/// in which the kinds are placed.
pub type ContentOptionList = Vec<(Content, OxAgContentOptions)>;

impl OxAgContentOptions {
    /// The percentage is a share: between nothing and one whole.
    pub open spec fn valid(self) -> bool {
        0 <= self.percentage <= UNIT
    }

    pub fn is_valid(&self) -> (r: bool)
        ensures
            r == self.valid(),
    {
        0 <= self.percentage && self.percentage <= UNIT
    }

    /// The options of an absent content.
    pub open spec fn default_spec() -> Self {
        OxAgContentOptions {
            in_batches: false,
            is_present: false,
            min_spawn_number: 0,
            max_radius: 0,
            with_max_spawn_number: true,
            max_spawn_number: 0,
            percentage: UNIT,
        }
    }

    /// What holds of the list of options derived from a seed for a world of
    /// side `size`: it has every kind but `Empty` once, in the order of the
    /// kinds, with valid options, a batch radius from 1 to 4, and a fixed
    /// number below the limit that the side and the radius set.
    pub open spec fn seeded_list(list: Seq<(Content, OxAgContentOptions)>, size: int) -> bool {
        &&& list.len() == 15
        &&& forall|k: int|
            0 <= k < 15 ==> {
                &&& (#[trigger] list[k]).0 == Content::all_spec()[k]
                &&& list[k].1.valid()
                &&& list[k].1.percentage < UNIT
                &&& 1 <= list[k].1.max_radius < DEFAULT_SPAWN_RADIUS
                &&& list[k].1.min_spawn_number == DEFAULT_TILE_CONTENT_MIN_SPAWN_NUMBER
                &&& list[k].1.max_spawn_number < Self::spawn_limit_spec(
                    size,
                    list[k].1.max_radius as int,
                )
            }
    }

    /// The number of disks of radius `radius` that fit a world of side `size`,
    /// a disk of radius `radius` taking 3.14 times its squared radius, and
    /// the room of one batch on top.
    pub open spec fn spawn_limit_spec(size: int, radius: int) -> int {
        size * size / (radius * radius * 314 / 100)
            + DEFAULT_BATCH_DISTANCE as int
    }

    pub(crate) fn spawn_limit(size: usize, radius: usize) -> (r: usize)
        requires
            1 <= radius < DEFAULT_SPAWN_RADIUS,
        ensures
            r >= 1,
            r == Self::spawn_limit_spec(size as int, radius as int) || (r == usize::MAX
                && Self::spawn_limit_spec(size as int, radius as int) > usize::MAX),
    {
        let side: u128 = size as u128;
        assert(side * side <= 0xffff_ffff_ffff_ffff * 0xffff_ffff_ffff_ffff) by (nonlinear_arith)
            requires
                0 <= side <= 0xffff_ffff_ffff_ffff,
        ;
        let area: u128 = side * side;
        assert(1 <= radius * radius <= 16) by (nonlinear_arith)
            requires
                1 <= radius <= 4,
        ;
        let square: u128 = (radius * radius) as u128;
        assert(3 <= square * 314 / 100 <= 50);
        let disk: u128 = square * 314 / 100;
        let limit: u128 = area / disk + DEFAULT_BATCH_DISTANCE as u128;
        if limit > usize::MAX as u128 {
            usize::MAX
        } else {
            limit as usize
        }
    }

    /// The limit that `spawn_limit` gives: `spawn_limit_spec`, or the
    /// greatest number that the machine can hold where that is less.
    pub open spec fn spawn_limit_capped(size: int, radius: int) -> int {
        if Self::spawn_limit_spec(size, radius) > usize::MAX {
            usize::MAX as int
        } else {
            Self::spawn_limit_spec(size, radius)
        }
    }

    /// The options that are drawn next for a world of side `size`, and the
    /// draws that are left then. Drawn are, in this order: the batch radius
    /// from 1 to 4; whether the kind spawns in batches, with a chance of
    /// `DEFAULT_TILE_CONTENT_IN_BATCH_CHANCE` in `CHANCE_SCALE`; whether it
    /// is present, with a chance of `DEFAULT_TILE_CONTENT_IS_PRESENT_CHANCE`
    /// in `CHANCE_SCALE`; whether its number is fixed, on the toss of a
    /// coin; that number, below the limit that the side and the radius set;
    /// and the share, below one whole.
    pub open spec fn drawn(draws: SeedDraws, size: usize) -> (OxAgContentOptions, SeedDraws) {
        let max_radius = draws.value(1, 4);
        let d1 = draws.after(1, 4);
        let in_batches = d1.tossed(DEFAULT_TILE_CONTENT_IN_BATCH_CHANCE, CHANCE_SCALE);
        let d2 = d1.after_toss(DEFAULT_TILE_CONTENT_IN_BATCH_CHANCE, CHANCE_SCALE);
        let is_present = d2.tossed(DEFAULT_TILE_CONTENT_IS_PRESENT_CHANCE, CHANCE_SCALE);
        let d3 = d2.after_toss(DEFAULT_TILE_CONTENT_IS_PRESENT_CHANCE, CHANCE_SCALE);
        let with_max_spawn_number = d3.tossed(1, 2);
        let d4 = d3.after_toss(1, 2);
        let top = (Self::spawn_limit_capped(size as int, max_radius as int) - 1) as u64;
        let max_spawn_number = d4.value(0, top);
        let d5 = d4.after(0, top);
        (
            OxAgContentOptions {
                in_batches,
                is_present,
                min_spawn_number: DEFAULT_TILE_CONTENT_MIN_SPAWN_NUMBER,
                max_radius: max_radius as usize,
                with_max_spawn_number,
                max_spawn_number: max_spawn_number as usize,
                percentage: d5.value(0, 999_999) as i64,
            },
            d5.after(0, 999_999),
        )
    }

    /// The first `k` entries of the list that `seed` stands for in a world
    /// of side `size`, and the draws that are left after them: one entry
    /// for each kind of content but `Empty`, in the order of the kinds, its
    /// options drawn one after another.
    pub open spec fn seeded_upto(seed: u64, size: usize, k: nat) -> (
        Seq<(Content, OxAgContentOptions)>,
        SeedDraws,
    )
        decreases k,
    {
        if k == 0 {
            (Seq::empty(), SeedDraws::start(seed))
        } else {
            let before = Self::seeded_upto(seed, size, (k - 1) as nat);
            let entry = Self::drawn(before.1, size);
            (before.0.push((Content::all_spec()[k - 1], entry.0)), entry.1)
        }
    }

    /// The list of options that `seed` stands for in a world of side
    /// `size`.
    pub open spec fn seeded_options(seed: u64, size: usize) -> Seq<(Content, OxAgContentOptions)> {
        Self::seeded_upto(seed, size, 15).0
    }

    /// Draws the options of one kind for a world of side `size`.
    pub fn draw(draws: &mut SeedDraws, size: usize) -> (r: OxAgContentOptions)
        ensures
            (r, *final(draws)) == Self::drawn(*old(draws), size),
            r.valid(),
            r.percentage < UNIT,
            1 <= r.max_radius < DEFAULT_SPAWN_RADIUS,
            r.min_spawn_number == DEFAULT_TILE_CONTENT_MIN_SPAWN_NUMBER,
            r.max_spawn_number < Self::spawn_limit_spec(size as int, r.max_radius as int),
    {
        let max_radius: usize = draws.between(1, 4) as usize;
        let in_batches = draws.toss(DEFAULT_TILE_CONTENT_IN_BATCH_CHANCE, CHANCE_SCALE);
        let is_present = draws.toss(DEFAULT_TILE_CONTENT_IS_PRESENT_CHANCE, CHANCE_SCALE);
        let with_max_spawn_number = draws.toss(1, 2);
        let limit: usize = Self::spawn_limit(size, max_radius);
        let max_spawn_number: u64 = draws.between(0, (limit - 1) as u64);
        let percentage: u64 = draws.between(0, 999_999);
        OxAgContentOptions {
            in_batches,
            is_present,
            min_spawn_number: DEFAULT_TILE_CONTENT_MIN_SPAWN_NUMBER,
            max_radius,
            with_max_spawn_number,
            max_spawn_number: max_spawn_number as usize,
            percentage: percentage as i64,
        }
    }

    /// The list of options that `seed` stands for in a world of side
    /// `size`: one entry for each kind of content but `Empty`.
    pub fn new_from_seed(seed: u64, size: usize) -> (r: ContentOptionList)
        ensures
            r@ == Self::seeded_options(seed, size),
            Self::seeded_list(r@, size as int),
            r.validation() is Ok,
    {
        let mut draws = SeedDraws::new(seed);
        let kinds: Vec<Content> = Content::all();
        let mut list: ContentOptionList = Vec::new();
        let mut k: usize = 0;
        while k < 15
            invariant
                k <= 15,
                kinds@ == Content::all_spec(),
                list.len() == k,
                (list@, draws) == Self::seeded_upto(seed, size, k as nat),
                forall|j: int|
                    0 <= j < k ==> {
                        &&& (#[trigger] list[j]).0 == Content::all_spec()[j]
                        &&& list[j].1.valid()
                        &&& list[j].1.percentage < UNIT
                        &&& 1 <= list[j].1.max_radius < DEFAULT_SPAWN_RADIUS
                        &&& list[j].1.min_spawn_number == DEFAULT_TILE_CONTENT_MIN_SPAWN_NUMBER
                        &&& list[j].1.max_spawn_number < Self::spawn_limit_spec(
                            size as int,
                            list[j].1.max_radius as int,
                        )
                    },
            decreases 15 - k,
        {
            let options = Self::draw(&mut draws, size);
            list.push((kinds[k], options));
            k += 1;
        }
        proof {
            lemma_all_valid(list@);
        }
        list
    }
}

impl Default for OxAgContentOptions {
    fn default() -> (r: Self)
        ensures
            r == OxAgContentOptions::default_spec(),
    {
        OxAgContentOptions {
            in_batches: false,
            is_present: false,
            min_spawn_number: 0,
            max_radius: 0,
            with_max_spawn_number: true,
            max_spawn_number: 0,
            percentage: UNIT,
        }
    }
}

/// The position of the first entry from `from` on whose options are not
/// valid, or the length of the list when there is none.
pub open spec fn first_invalid(list: Seq<(Content, OxAgContentOptions)>, from: int) -> int
    decreases list.len() - from,
{
    if from < 0 || from >= list.len() {
        list.len() as int
    } else if !list[from].1.valid() {
        from
    } else {
        first_invalid(list, from + 1)
    }
}

/// `first_invalid` is the least position of an entry that is not valid.
pub proof fn lemma_first_invalid(list: Seq<(Content, OxAgContentOptions)>, from: int)
    requires
        0 <= from <= list.len(),
    ensures
        from <= first_invalid(list, from) <= list.len(),
        forall|j: int| from <= j < first_invalid(list, from) ==> (#[trigger] list[j]).1.valid(),
        first_invalid(list, from) < list.len() ==> !list[first_invalid(list, from)].1.valid(),
    decreases list.len() - from,
{
    if from < list.len() && list[from].1.valid() {
        lemma_first_invalid(list, from + 1);
    }
}

/// A list whose entries are all valid has no first invalid entry.
pub proof fn lemma_all_valid(list: Seq<(Content, OxAgContentOptions)>)
    requires
        forall|j: int| 0 <= j < list.len() ==> (#[trigger] list[j]).1.valid(),
    ensures
        first_invalid(list, 0) == list.len(),
{
    lemma_first_invalid(list, 0);
}

impl Validator for OxAgContentOptions {
    open spec fn validation(&self) -> Result<(), OxAgError> {
        if self.valid() {
            Ok(())
        } else {
            Err(OxAgError::InvalidContentOptionProvided)
        }
    }

    fn validate(&self) -> (r: Result<(), OxAgError>) {
        if self.is_valid() {
            Ok(())
        } else {
            Err(OxAgError::InvalidContentOptionProvided)
        }
    }
}

impl Validator for Vec<(Content, OxAgContentOptions)> {
    /// The list is valid when all its options are; otherwise the error
    /// names the kind of the first entry whose options are not.
    open spec fn validation(&self) -> Result<(), OxAgError> {
        let at = first_invalid(self@, 0);
        if at == self@.len() {
            Ok(())
        } else {
            Err(OxAgError::InvalidContentOption(self@[at].0.to_default_spec()))
        }
    }

    fn validate(&self) -> (r: Result<(), OxAgError>) {
        let mut i: usize = 0;
        while i < self.len()
            invariant
                i <= self.len(),
                first_invalid(self@, 0) == first_invalid(self@, i as int),
            decreases self.len() - i,
        {
            let (content, options) = self[i];
            if !options.is_valid() {
                return Err(OxAgError::InvalidContentOption(content.to_default()));
            }
            i += 1;
        }
        Ok(())
    }
}

} // verus!
