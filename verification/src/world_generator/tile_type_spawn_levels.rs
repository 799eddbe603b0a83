//! The levels at which each terrain spawns, without the counts of rivers,
//! streets and lava lakes.

use vstd::prelude::*;
use crate::utils::constants::{LEVEL_MAX, LEVEL_MIN};
use crate::utils::errors::OxAgError;
use crate::utils::random::SeedDraws;
use crate::utils::traits::{Loadable, Validator};
use crate::world_generator::presets::tile_type_presets::OxAgTileTypePresets;
use crate::world_generator::tile_type_options::{
    draw_level, CountRange, LevelRange, OxAgTileTypeOptions,
};

verus! {

/// The seven bands of levels, from deep water up to snow.
#[derive(Clone, Copy, Debug, PartialEq, Eq, Structural)]
pub struct OxAgTileTypeSpawnLevels {
    pub deep_water_level: LevelRange,
    pub shallow_water_level: LevelRange,
    pub sand_level: LevelRange,
    pub grass_level: LevelRange,
    pub hill_level: LevelRange,
    pub mountain_level: LevelRange,
    pub snow_level: LevelRange,
}

/// The presets of the bands: those of the terrain presets of the same
/// names.
#[derive(Clone, Copy, Debug, PartialEq, Eq, Structural)]
pub enum OxAgTileTypeSpawnLevelPresets {
    DEFAULT,
    WATERWORLD,
    LOWWATERWORLD,
    HILL,
}

impl OxAgTileTypeSpawnLevelPresets {
    /// The terrain preset of the same name.
    pub open spec fn terrain_preset(self) -> OxAgTileTypePresets {
        match self {
            OxAgTileTypeSpawnLevelPresets::DEFAULT => OxAgTileTypePresets::Default,
            OxAgTileTypeSpawnLevelPresets::WATERWORLD => OxAgTileTypePresets::WaterWorld,
            OxAgTileTypeSpawnLevelPresets::LOWWATERWORLD => OxAgTileTypePresets::LowWaterWorld,
            OxAgTileTypeSpawnLevelPresets::HILL => OxAgTileTypePresets::Hill,
        }
    }
}

impl OxAgTileTypeSpawnLevels {
    /// Terrain options with these bands and no rivers, streets or lava.
    pub open spec fn as_options(self) -> OxAgTileTypeOptions {
        OxAgTileTypeOptions {
            deep_water_level: self.deep_water_level,
            shallow_water_level: self.shallow_water_level,
            sand_level: self.sand_level,
            grass_level: self.grass_level,
            hill_level: self.hill_level,
            mountain_level: self.mountain_level,
            snow_level: self.snow_level,
            river_n: CountRange { start: 0, end: 0 },
            street_n: CountRange { start: 0, end: 0 },
            street_len: CountRange { start: 0, end: 0 },
            lava_n: CountRange { start: 0, end: 0 },
            lava_radius: CountRange { start: 0, end: 0 },
        }
    }

    /// The bands of the given terrain options.
    pub open spec fn of_options(options: OxAgTileTypeOptions) -> Self {
        OxAgTileTypeSpawnLevels {
            deep_water_level: options.deep_water_level,
            shallow_water_level: options.shallow_water_level,
            sand_level: options.sand_level,
            grass_level: options.grass_level,
            hill_level: options.hill_level,
            mountain_level: options.mountain_level,
            snow_level: options.snow_level,
        }
    }

    fn to_options(&self) -> (r: OxAgTileTypeOptions)
        ensures
            r == self.as_options(),
    {
        OxAgTileTypeOptions {
            deep_water_level: self.deep_water_level,
            shallow_water_level: self.shallow_water_level,
            sand_level: self.sand_level,
            grass_level: self.grass_level,
            hill_level: self.hill_level,
            mountain_level: self.mountain_level,
            snow_level: self.snow_level,
            river_n: CountRange { start: 0, end: 0 },
            street_n: CountRange { start: 0, end: 0 },
            street_len: CountRange { start: 0, end: 0 },
            lava_n: CountRange { start: 0, end: 0 },
            lava_radius: CountRange { start: 0, end: 0 },
        }
    }

    /// The bands of `options`.
    pub open spec fn bands_of(options: OxAgTileTypeOptions) -> Self {
        OxAgTileTypeSpawnLevels {
            deep_water_level: options.deep_water_level,
            shallow_water_level: options.shallow_water_level,
            sand_level: options.sand_level,
            grass_level: options.grass_level,
            hill_level: options.hill_level,
            mountain_level: options.mountain_level,
            snow_level: options.snow_level,
        }
    }

    /// The bands that `seed` stands for: those of the terrain options that
    /// it stands for. They follow one another from the lowest level to the
    /// highest, each starting where the one before ends.
    pub fn new_from_seed(seed: u64) -> (r: Self)
        ensures
            r == Self::bands_of(OxAgTileTypeOptions::seeded_options(seed)),
            r.as_options().validation() is Ok,
            r.deep_water_level.start == LEVEL_MIN,
            r.snow_level.end == LEVEL_MAX,
            r.deep_water_level.end == r.shallow_water_level.start,
            r.shallow_water_level.end == r.sand_level.start,
            r.sand_level.end == r.grass_level.start,
            r.grass_level.end == r.hill_level.start,
            r.hill_level.end == r.mountain_level.start,
            r.mountain_level.end == r.snow_level.start,
    {
        let mut draws = SeedDraws::new(seed);
        let dw_end: i64 = draw_level(&mut draws, LEVEL_MIN, LEVEL_MAX);
        let sw_end: i64 = draw_level(&mut draws, dw_end, LEVEL_MAX);
        let sd_end: i64 = draw_level(&mut draws, sw_end, LEVEL_MAX);
        let gr_end: i64 = draw_level(&mut draws, sd_end, LEVEL_MAX);
        let hl_end: i64 = draw_level(&mut draws, gr_end, LEVEL_MAX);
        let mt_end: i64 = draw_level(&mut draws, hl_end, LEVEL_MAX);
        let r = OxAgTileTypeSpawnLevels {
            deep_water_level: LevelRange { start: LEVEL_MIN, end: dw_end },
            shallow_water_level: LevelRange { start: dw_end, end: sw_end },
            sand_level: LevelRange { start: sw_end, end: sd_end },
            grass_level: LevelRange { start: sd_end, end: gr_end },
            hill_level: LevelRange { start: gr_end, end: hl_end },
            mountain_level: LevelRange { start: hl_end, end: mt_end },
            snow_level: LevelRange { start: mt_end, end: LEVEL_MAX },
        };
        proof {
            let o = r.as_options();
            let l = o.levels();
            assert(l[0].start == LEVEL_MIN);
            assert(l[6].end == LEVEL_MAX);
            assert(o.has_lower_bound());
            assert(o.has_upper_bound());
            assert(o.all_within_bounds());
        }
        r
    }

    /// Checks the bands as the terrain options check theirs.
    pub fn validate(&self) -> (r: Result<(), OxAgError>)
        ensures
            r == self.as_options().validation(),
    {
        self.to_options().validate()
    }

    /// The bands that a preset stands for.
    pub fn from_preset(preset: OxAgTileTypeSpawnLevelPresets) -> (r: Self)
        ensures
            r == Self::of_options(preset.terrain_preset().options()),
    {
        let options = match preset {
            OxAgTileTypeSpawnLevelPresets::DEFAULT => OxAgTileTypePresets::Default.load(),
            OxAgTileTypeSpawnLevelPresets::WATERWORLD => OxAgTileTypePresets::WaterWorld.load(),
            OxAgTileTypeSpawnLevelPresets::LOWWATERWORLD => OxAgTileTypePresets::LowWaterWorld.load(),
            OxAgTileTypeSpawnLevelPresets::HILL => OxAgTileTypePresets::Hill.load(),
        };
        OxAgTileTypeSpawnLevels {
            deep_water_level: options.deep_water_level,
            shallow_water_level: options.shallow_water_level,
            sand_level: options.sand_level,
            grass_level: options.grass_level,
            hill_level: options.hill_level,
            mountain_level: options.mountain_level,
            snow_level: options.snow_level,
        }
    }
}

} // verus!
