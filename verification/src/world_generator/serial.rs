//! What is kept of a generated world, and how a generator comes back from
//! it.

use vstd::prelude::*;
use crate::utils::traits::FromSeed;
use crate::utils::generate_random_seed;
use crate::world::environmental_conditions::EnvironmentalConditions;
use crate::world::tile::{Content, Tile};
use crate::world_generator::tile_type_options::{CountRange, LevelRange, OxAgTileTypeOptions};
use crate::world_generator::world_generator_builder::OxAgWorldGeneratorBuilder;
use crate::world_generator::{
    same_conditions, same_grid, same_scores, Generation, OxAgWorldGenerator, World,
};

verus! {

/// What is kept of a generated world: its grid, its start, its score and
/// its score map. The environmental conditions are not kept.
#[derive(Debug)]
pub struct SavedWorld {
    pub map: Vec<Vec<Tile>>,
    pub spawn: (usize, usize),
    pub score: i64,
    pub score_map: Option<Vec<(Content, i64)>>,
}

impl SavedWorld {
    /// The two hold the same grid, start, score and score map.
    pub open spec fn same(self, other: SavedWorld) -> bool {
        &&& same_grid(self.map, other.map)
        &&& self.spawn == other.spawn
        &&& self.score == other.score
        &&& same_scores(self.score_map, other.score_map)
    }

    /// `world` has the grid, start, score and score map kept here.
    pub open spec fn kept_of(self, world: World) -> bool {
        &&& same_grid(self.map, world.map)
        &&& self.spawn == world.spawn
        &&& self.score == world.score
        &&& same_scores(self.score_map, world.score_map)
    }
}

/// The options of a generator that hands out a kept world: every band and
/// every count is nothing but 0.
pub open spec fn no_options() -> OxAgTileTypeOptions {
    OxAgTileTypeOptions {
        deep_water_level: LevelRange { start: 0, end: 0 },
        shallow_water_level: LevelRange { start: 0, end: 0 },
        sand_level: LevelRange { start: 0, end: 0 },
        grass_level: LevelRange { start: 0, end: 0 },
        hill_level: LevelRange { start: 0, end: 0 },
        mountain_level: LevelRange { start: 0, end: 0 },
        snow_level: LevelRange { start: 0, end: 0 },
        river_n: CountRange { start: 0, end: 0 },
        street_n: CountRange { start: 0, end: 0 },
        street_len: CountRange { start: 0, end: 0 },
        lava_n: CountRange { start: 0, end: 0 },
        lava_radius: CountRange { start: 0, end: 0 },
    }
}

impl OxAgWorldGenerator {
    /// What is kept of `world`, a world that this generator has made.
    pub fn save(&self, world: World) -> (saved: SavedWorld)
        ensures
            saved.map == world.map,
            saved.spawn == world.spawn,
            saved.score == world.score,
            saved.score_map == world.score_map,
            saved.kept_of(world),
    {
        SavedWorld {
            map: world.map,
            spawn: world.spawn,
            score: world.score,
            score_map: world.score_map,
        }
    }
}

impl OxAgWorldGeneratorBuilder {
    /// A generator that hands out the kept world as it is. Of the builder
    /// only the environmental conditions count: they become those of the
    /// world; where none are set, they are derived from the seed of the
    /// builder, or from a random seed where that is not set either. The
    /// size of the generator is the number of rows kept.
    pub fn load(self, saved: SavedWorld) -> (g: OxAgWorldGenerator)
        ensures
            g.map_save == Some(saved),
            g.size == saved.map.len(),
            g.seed == 0,
            g.tile_type_options == no_options(),
            g.content_options.len() == 0,
            g.height_multiplier == 0,
            g.score == 0,
            !g.with_info,
            !g.maze,
            g.score_map is None,
            self.environmental_conditions matches Some(e) ==> g.environmental_conditions == e,
            self.environmental_conditions is None && self.seed is Some
                ==> g.environmental_conditions.seeded(self.seed.unwrap()),
            self.environmental_conditions is None && self.seed is None ==> exists|seed: u64|
                g.environmental_conditions.seeded(seed),
    {
        let ghost mut from: u64 = 0;
        let environmental_conditions = match self.environmental_conditions {
            Some(e) => e,
            None => {
                let seed: u64 = match self.seed {
                    Some(s) => s,
                    None => generate_random_seed(),
                };
                proof {
                    from = seed;
                }
                EnvironmentalConditions::new_from_seed(seed)
            },
        };
        let g = OxAgWorldGenerator {
            size: saved.map.len(),
            seed: 0,
            tile_type_options: OxAgTileTypeOptions {
                deep_water_level: LevelRange { start: 0, end: 0 },
                shallow_water_level: LevelRange { start: 0, end: 0 },
                sand_level: LevelRange { start: 0, end: 0 },
                grass_level: LevelRange { start: 0, end: 0 },
                hill_level: LevelRange { start: 0, end: 0 },
                mountain_level: LevelRange { start: 0, end: 0 },
                snow_level: LevelRange { start: 0, end: 0 },
                river_n: CountRange { start: 0, end: 0 },
                street_n: CountRange { start: 0, end: 0 },
                street_len: CountRange { start: 0, end: 0 },
                lava_n: CountRange { start: 0, end: 0 },
                lava_radius: CountRange { start: 0, end: 0 },
            },
            content_options: Vec::new(),
            environmental_conditions,
            height_multiplier: 0,
            score: 0,
            with_info: false,
            maze: false,
            score_map: None,
            map_save: Some(saved),
        };
        proof {
            if self.environmental_conditions is None {
                assert(g.environmental_conditions.seeded(from));
            }
        }
        g
    }
}

/// A world that is kept and loaded comes back as it was, but for its
/// environmental conditions, which are those of the generator that
/// loaded it: where `kept` is what `save` keeps of the world `made`, where
/// `loaded` is a generator that `load` makes of `kept`, where `run` is what
/// `start` begins for `loaded`, and where `back` is what `finish` hands out
/// of `run`, `back` has the grid, the start, the score and the score map of
/// `made`.
pub proof fn lemma_kept_world_comes_back(
    made: World,
    kept: SavedWorld,
    loaded: OxAgWorldGenerator,
    run: Generation,
    back: World,
)
    requires
        kept.kept_of(made),
        loaded.map_save == Some(kept),
        run.saved is Some,
        run.saved.unwrap().same(loaded.map_save.unwrap()),
        same_conditions(run.environmental_conditions, loaded.environmental_conditions),
        back.map == run.saved.unwrap().map,
        back.spawn == run.saved.unwrap().spawn,
        back.score == run.saved.unwrap().score,
        back.score_map == run.saved.unwrap().score_map,
        back.environmental_conditions == run.environmental_conditions,
    ensures
        same_grid(back.map, made.map),
        back.spawn == made.spawn,
        back.score == made.score,
        same_scores(back.score_map, made.score_map),
        same_conditions(back.environmental_conditions, loaded.environmental_conditions),
{
    let saved = run.saved.unwrap();
    assert forall|r: int| 0 <= r < back.map.len() implies (#[trigger] back.map[r])@
        == made.map[r]@ by {
        assert(saved.map[r]@ == kept.map[r]@);
        assert(kept.map[r]@ == made.map[r]@);
    }
}

} // verus!
