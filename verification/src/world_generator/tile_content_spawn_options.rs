//! How one kind of content spawns, without its share of the cells.

use vstd::prelude::*;
use crate::utils::constants::{
    CHANCE_SCALE, DEFAULT_SPAWN_RADIUS, DEFAULT_TILE_CONTENT_IN_BATCH_CHANCE,
    DEFAULT_TILE_CONTENT_IS_PRESENT_CHANCE, DEFAULT_TILE_CONTENT_MIN_SPAWN_NUMBER,
};
use crate::utils::random::SeedDraws;
use crate::world::tile::Content;
use crate::world_generator::content_options::OxAgContentOptions;

verus! {

/// How one kind of content spawns.
#[derive(Clone, Copy, Debug, PartialEq, Eq, Structural)]
pub struct OxAgTileContentSpawnOptions {
    /// Whether the content spawns in batches rather than cell by cell.
    pub in_batches: bool,
    /// Whether the content spawns at all.
    pub is_present: bool,
    /// The least number of placements, or of batches.
    pub min_spawn_number: usize,
    /// The radius of a batch.
    pub max_radius: usize,
    /// Whether `max_spawn_number` fixes the number of placements.
    pub with_max_spawn_number: bool,
    /// The number of placements, or of batches, when it is fixed.
    pub max_spawn_number: usize,
}

/// The presets of these options.
#[derive(Clone, Copy, Debug, PartialEq, Eq, Structural)]
pub enum OxAgTileContentSpawnOptionPresets {
    DEFAULT,
}

impl OxAgTileContentSpawnOptions {
    /// The options of an absent content.
    pub open spec fn default_spec() -> Self {
        OxAgTileContentSpawnOptions {
            in_batches: false,
            is_present: false,
            min_spawn_number: 0,
            max_radius: 0,
            with_max_spawn_number: true,
            max_spawn_number: 0,
        }
    }

    /// The list that the preset `DEFAULT` stands for.
    pub open spec fn default_list() -> Seq<(Content, OxAgTileContentSpawnOptions)> {
        seq![
            (
                Content::Rock(0),
                OxAgTileContentSpawnOptions {
                    in_batches: false,
                    is_present: true,
                    min_spawn_number: 20,
                    max_radius: 0,
                    with_max_spawn_number: false,
                    max_spawn_number: 0,
                },
            ),
            (
                Content::Tree(0),
                OxAgTileContentSpawnOptions {
                    in_batches: true,
                    is_present: true,
                    min_spawn_number: 3,
                    max_radius: 40,
                    with_max_spawn_number: false,
                    max_spawn_number: 100,
                },
            ),
            (
                Content::Garbage(0),
                OxAgTileContentSpawnOptions {
                    in_batches: true,
                    is_present: true,
                    min_spawn_number: 2,
                    max_radius: 0,
                    with_max_spawn_number: false,
                    max_spawn_number: 0,
                },
            ),
            (
                Content::Fire,
                OxAgTileContentSpawnOptions {
                    in_batches: true,
                    is_present: true,
                    min_spawn_number: 10,
                    max_radius: 10,
                    with_max_spawn_number: true,
                    max_spawn_number: 40,
                },
            ),
            (
                Content::Coin(0),
                OxAgTileContentSpawnOptions {
                    in_batches: false,
                    is_present: true,
                    min_spawn_number: 2,
                    max_radius: 3,
                    with_max_spawn_number: false,
                    max_spawn_number: 0,
                },
            ),
            (
                Content::Bin(0, 0),
                OxAgTileContentSpawnOptions {
                    in_batches: false,
                    is_present: true,
                    min_spawn_number: 1,
                    max_radius: 3,
                    with_max_spawn_number: false,
                    max_spawn_number: 0,
                },
            ),
            (
                Content::Crate(0, 0),
                OxAgTileContentSpawnOptions {
                    in_batches: false,
                    is_present: true,
                    min_spawn_number: 1,
                    max_radius: 1,
                    with_max_spawn_number: false,
                    max_spawn_number: 0,
                },
            ),
            (
                Content::Bank(0, 0),
                OxAgTileContentSpawnOptions {
                    in_batches: false,
                    is_present: true,
                    min_spawn_number: 1,
                    max_radius: 3,
                    with_max_spawn_number: false,
                    max_spawn_number: 0,
                },
            ),
            (
                Content::Water(0),
                OxAgTileContentSpawnOptions {
                    in_batches: false,
                    is_present: true,
                    min_spawn_number: 4,
                    max_radius: 1,
                    with_max_spawn_number: false,
                    max_spawn_number: 0,
                },
            ),
            (
                Content::Fish(0),
                OxAgTileContentSpawnOptions {
                    in_batches: false,
                    is_present: true,
                    min_spawn_number: 0,
                    max_radius: 1,
                    with_max_spawn_number: false,
                    max_spawn_number: 0,
                },
            ),
        ]
    }

    /// What holds of the list of options derived from a seed: it has every
    /// kind but `Empty` once, in the order of the kinds, with a batch
    /// radius from 1 to 4.
    pub open spec fn seeded_list(list: Seq<(Content, OxAgTileContentSpawnOptions)>) -> bool {
        &&& list.len() == 15
        &&& forall|k: int|
            0 <= k < 15 ==> {
                &&& (#[trigger] list[k]).0 == Content::all_spec()[k]
                &&& 1 <= list[k].1.max_radius < DEFAULT_SPAWN_RADIUS
                &&& list[k].1.min_spawn_number == DEFAULT_TILE_CONTENT_MIN_SPAWN_NUMBER
            }
    }

    /// The options that are drawn next for a world of side `size`, and the
    /// draws that are left then. Drawn are, in this order: the batch radius
    /// from 1 to 4; whether the kind spawns in batches, with a chance of
    /// `DEFAULT_TILE_CONTENT_IN_BATCH_CHANCE` in `CHANCE_SCALE`; whether it
    /// is present, with a chance of `DEFAULT_TILE_CONTENT_IS_PRESENT_CHANCE`
    /// in `CHANCE_SCALE`; whether its number is fixed, on the toss of a
    /// coin; and that number, below the limit that the side and the radius
    /// set.
    pub open spec fn drawn(draws: SeedDraws, size: usize) -> (
        OxAgTileContentSpawnOptions,
        SeedDraws,
    ) {
        let max_radius = draws.value(1, 4);
        let d1 = draws.after(1, 4);
        let in_batches = d1.tossed(DEFAULT_TILE_CONTENT_IN_BATCH_CHANCE, CHANCE_SCALE);
        let d2 = d1.after_toss(DEFAULT_TILE_CONTENT_IN_BATCH_CHANCE, CHANCE_SCALE);
        let is_present = d2.tossed(DEFAULT_TILE_CONTENT_IS_PRESENT_CHANCE, CHANCE_SCALE);
        let d3 = d2.after_toss(DEFAULT_TILE_CONTENT_IS_PRESENT_CHANCE, CHANCE_SCALE);
        let with_max_spawn_number = d3.tossed(1, 2);
        let d4 = d3.after_toss(1, 2);
        let top = (OxAgContentOptions::spawn_limit_capped(size as int, max_radius as int)
            - 1) as u64;
        (
            OxAgTileContentSpawnOptions {
                in_batches,
                is_present,
                min_spawn_number: DEFAULT_TILE_CONTENT_MIN_SPAWN_NUMBER,
                max_radius: max_radius as usize,
                with_max_spawn_number,
                max_spawn_number: d4.value(0, top) as usize,
            },
            d4.after(0, top),
        )
    }

    /// The first `k` entries of the list that `seed` stands for in a world
    /// of side `size`, and the draws that are left after them.
    pub open spec fn seeded_upto(seed: u64, size: usize, k: nat) -> (
        Seq<(Content, OxAgTileContentSpawnOptions)>,
        SeedDraws,
    )
        decreases k,
    {
        if k == 0 {
            (Seq::empty(), SeedDraws::start(seed))
        } else {
            let before = Self::seeded_upto(seed, size, (k - 1) as nat);
            let entry = Self::drawn(before.1, size);
            (before.0.push((Content::all_spec()[k - 1], entry.0)), entry.1)
        }
    }

    /// Draws the options of one kind for a world of side `size`.
    pub fn draw(draws: &mut SeedDraws, size: usize) -> (r: OxAgTileContentSpawnOptions)
        ensures
            (r, *final(draws)) == Self::drawn(*old(draws), size),
            1 <= r.max_radius < DEFAULT_SPAWN_RADIUS,
            r.min_spawn_number == DEFAULT_TILE_CONTENT_MIN_SPAWN_NUMBER,
    {
        let max_radius: usize = draws.between(1, 4) as usize;
        let in_batches = draws.toss(DEFAULT_TILE_CONTENT_IN_BATCH_CHANCE, CHANCE_SCALE);
        let is_present = draws.toss(DEFAULT_TILE_CONTENT_IS_PRESENT_CHANCE, CHANCE_SCALE);
        let with_max_spawn_number = draws.toss(1, 2);
        let limit: usize = OxAgContentOptions::spawn_limit(size, max_radius);
        let max_spawn_number: u64 = draws.between(0, (limit - 1) as u64);
        OxAgTileContentSpawnOptions {
            in_batches,
            is_present,
            min_spawn_number: DEFAULT_TILE_CONTENT_MIN_SPAWN_NUMBER,
            max_radius,
            with_max_spawn_number,
            max_spawn_number: max_spawn_number as usize,
        }
    }

    /// The list of options that `seed` stands for in a world of side
    /// `size`: one entry for each kind of content but `Empty`, in the order
    /// of the kinds, its options drawn one after another.
    pub fn new_from_seed(seed: u64, size: usize) -> (r: Vec<(Content, Self)>)
        ensures
            r@ == Self::seeded_upto(seed, size, 15).0,
            Self::seeded_list(r@),
    {
        let mut draws = SeedDraws::new(seed);
        let kinds: Vec<Content> = Content::all();
        let mut list: Vec<(Content, Self)> = Vec::new();
        let mut k: usize = 0;
        while k < 15
            invariant
                k <= 15,
                kinds@ == Content::all_spec(),
                list.len() == k,
                (list@, draws) == Self::seeded_upto(seed, size, k as nat),
                forall|j: int|
                    0 <= j < k ==> {
                        &&& (#[trigger] list[j]).0 == Content::all_spec()[j]
                        &&& 1 <= list[j].1.max_radius < DEFAULT_SPAWN_RADIUS
                        &&& list[j].1.min_spawn_number == DEFAULT_TILE_CONTENT_MIN_SPAWN_NUMBER
                    },
            decreases 15 - k,
        {
            let options = Self::draw(&mut draws, size);
            list.push((kinds[k], options));
            k += 1;
        }
        list
    }

    /// The list that a preset stands for.
    pub fn new_from_preset(preset: OxAgTileContentSpawnOptionPresets) -> (r: Vec<(Content, Self)>)
        ensures
            r@ == Self::default_list(),
    {
        match preset {
            OxAgTileContentSpawnOptionPresets::DEFAULT => {
                let list: Vec<(Content, Self)> = vec![
                    (
                        Content::Rock(0),
                        OxAgTileContentSpawnOptions {
                            in_batches: false,
                            is_present: true,
                            min_spawn_number: 20,
                            max_radius: 0,
                            with_max_spawn_number: false,
                            max_spawn_number: 0,
                        },
                    ),
                    (
                        Content::Tree(0),
                        OxAgTileContentSpawnOptions {
                            in_batches: true,
                            is_present: true,
                            min_spawn_number: 3,
                            max_radius: 40,
                            with_max_spawn_number: false,
                            max_spawn_number: 100,
                        },
                    ),
                    (
                        Content::Garbage(0),
                        OxAgTileContentSpawnOptions {
                            in_batches: true,
                            is_present: true,
                            min_spawn_number: 2,
                            max_radius: 0,
                            with_max_spawn_number: false,
                            max_spawn_number: 0,
                        },
                    ),
                    (
                        Content::Fire,
                        OxAgTileContentSpawnOptions {
                            in_batches: true,
                            is_present: true,
                            min_spawn_number: 10,
                            max_radius: 10,
                            with_max_spawn_number: true,
                            max_spawn_number: 40,
                        },
                    ),
                    (
                        Content::Coin(0),
                        OxAgTileContentSpawnOptions {
                            in_batches: false,
                            is_present: true,
                            min_spawn_number: 2,
                            max_radius: 3,
                            with_max_spawn_number: false,
                            max_spawn_number: 0,
                        },
                    ),
                    (
                        Content::Bin(0, 0),
                        OxAgTileContentSpawnOptions {
                            in_batches: false,
                            is_present: true,
                            min_spawn_number: 1,
                            max_radius: 3,
                            with_max_spawn_number: false,
                            max_spawn_number: 0,
                        },
                    ),
                    (
                        Content::Crate(0, 0),
                        OxAgTileContentSpawnOptions {
                            in_batches: false,
                            is_present: true,
                            min_spawn_number: 1,
                            max_radius: 1,
                            with_max_spawn_number: false,
                            max_spawn_number: 0,
                        },
                    ),
                    (
                        Content::Bank(0, 0),
                        OxAgTileContentSpawnOptions {
                            in_batches: false,
                            is_present: true,
                            min_spawn_number: 1,
                            max_radius: 3,
                            with_max_spawn_number: false,
                            max_spawn_number: 0,
                        },
                    ),
                    (
                        Content::Water(0),
                        OxAgTileContentSpawnOptions {
                            in_batches: false,
                            is_present: true,
                            min_spawn_number: 4,
                            max_radius: 1,
                            with_max_spawn_number: false,
                            max_spawn_number: 0,
                        },
                    ),
                    (
                        Content::Fish(0),
                        OxAgTileContentSpawnOptions {
                            in_batches: false,
                            is_present: true,
                            min_spawn_number: 0,
                            max_radius: 1,
                            with_max_spawn_number: false,
                            max_spawn_number: 0,
                        },
                    ),
                ];
                assert(list@ =~= Self::default_list());
                list
            },
        }
    }
}

impl Default for OxAgTileContentSpawnOptions {
    fn default() -> (r: Self)
        ensures
            r == OxAgTileContentSpawnOptions::default_spec(),
    {
        OxAgTileContentSpawnOptions {
            in_batches: false,
            is_present: false,
            min_spawn_number: 0,
            max_radius: 0,
            with_max_spawn_number: true,
            max_spawn_number: 0,
        }
    }
}

} // verus!
