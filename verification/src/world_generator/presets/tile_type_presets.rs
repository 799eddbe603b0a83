//! Ready-made terrain bands and counts.

use vstd::prelude::*;
use crate::utils::traits::{Loadable, Validator};
use crate::world_generator::tile_type_options::{CountRange, LevelRange, OxAgTileTypeOptions};

verus! {

/// The terrain presets. Levels are given here in whole numbers; the
/// options hold them in millionths.
///
/// | options               | `Default`      | `WaterWorld`  | `LowWaterWorld` | `Hill`        |
/// |-----------------------|----------------|---------------|-----------------|---------------|
/// | `deep_water_level`    | -1.0 to -0.75  | -1.0 to -0.5  | -1.0 to -0.8    | -1.0 to -1.0  |
/// | `shallow_water_level` | -0.75 to -0.5  | -0.5 to 0.0   | -0.8 to -0.6    | -1.0 to -1.0  |
/// | `sand_level`          | -0.5 to -0.25  | 0.0 to 0.2    | -0.6 to -0.3    | -1.0 to -1.0  |
/// | `grass_level`         | -0.25 to 0.25  | 0.2 to 0.4    | -0.3 to 0.1     | -1.0 to -1.0  |
/// | `hill_level`          | 0.25 to 0.5    | 0.4 to 0.6    | 0.1 to 0.4      | -1.0 to 1.0   |
/// | `mountain_level`      | 0.5 to 0.75    | 0.6 to 0.8    | 0.4 to 0.7      | 1.0 to 1.0    |
/// | `snow_level`          | 0.75 to 1.0    | 0.8 to 1.0    | 0.7 to 1.0      | 1.0 to 1.0    |
/// | `river_n`             | 1 to 4         | 1 to 4        | 0 to 10         | 0 to 0        |
/// | `street_n`            | 1 to 3         | 1 to 3        | 0 to 10         | 0 to 0        |
/// | `street_len`          | 6 to 15        | 6 to 15       | 16 to 25        | 16 to 25      |
/// | `lava_n`              | 2 to 2         | 1 to 2        | 0 to 3          | 0 to 3        |
/// | `lava_radius`         | 2 to 4         | 2 to 4        | 2 to 5          | 2 to 5        |
#[derive(Clone, Copy, Debug, PartialEq, Eq, Structural)]
pub enum OxAgTileTypePresets {
    Default,
    WaterWorld,
    LowWaterWorld,
    Hill,
}

impl OxAgTileTypePresets {
    /// The options that a preset stands for.
    pub open spec fn options(self) -> OxAgTileTypeOptions {
        match self {
            OxAgTileTypePresets::Default => OxAgTileTypeOptions {
                deep_water_level: LevelRange { start: -1_000_000i64, end: -750_000i64 },
                shallow_water_level: LevelRange { start: -750_000i64, end: -500_000i64 },
                sand_level: LevelRange { start: -500_000i64, end: -250_000i64 },
                grass_level: LevelRange { start: -250_000i64, end: 250_000 },
                hill_level: LevelRange { start: 250_000, end: 500_000 },
                mountain_level: LevelRange { start: 500_000, end: 750_000 },
                snow_level: LevelRange { start: 750_000, end: 1_000_000 },
                river_n: CountRange { start: 1, end: 4 },
                street_n: CountRange { start: 1, end: 3 },
                street_len: CountRange { start: 6, end: 15 },
                lava_n: CountRange { start: 2, end: 2 },
                lava_radius: CountRange { start: 2, end: 4 },
            },
            OxAgTileTypePresets::WaterWorld => OxAgTileTypeOptions {
                deep_water_level: LevelRange { start: -1_000_000i64, end: -500_000i64 },
                shallow_water_level: LevelRange { start: -500_000i64, end: 0 },
                sand_level: LevelRange { start: 0, end: 200_000 },
                grass_level: LevelRange { start: 200_000, end: 400_000 },
                hill_level: LevelRange { start: 400_000, end: 600_000 },
                mountain_level: LevelRange { start: 600_000, end: 800_000 },
                snow_level: LevelRange { start: 800_000, end: 1_000_000 },
                river_n: CountRange { start: 1, end: 4 },
                street_n: CountRange { start: 1, end: 3 },
                street_len: CountRange { start: 6, end: 15 },
                lava_n: CountRange { start: 1, end: 2 },
                lava_radius: CountRange { start: 2, end: 4 },
            },
            OxAgTileTypePresets::LowWaterWorld => OxAgTileTypeOptions {
                deep_water_level: LevelRange { start: -1_000_000i64, end: -800_000i64 },
                shallow_water_level: LevelRange { start: -800_000i64, end: -600_000i64 },
                sand_level: LevelRange { start: -600_000i64, end: -300_000i64 },
                grass_level: LevelRange { start: -300_000i64, end: 100_000 },
                hill_level: LevelRange { start: 100_000, end: 400_000 },
                mountain_level: LevelRange { start: 400_000, end: 700_000 },
                snow_level: LevelRange { start: 700_000, end: 1_000_000 },
                river_n: CountRange { start: 0, end: 10 },
                street_n: CountRange { start: 0, end: 10 },
                street_len: CountRange { start: 16, end: 25 },
                lava_n: CountRange { start: 0, end: 3 },
                lava_radius: CountRange { start: 2, end: 5 },
            },
            OxAgTileTypePresets::Hill => OxAgTileTypeOptions {
                deep_water_level: LevelRange { start: -1_000_000i64, end: -1_000_000i64 },
                shallow_water_level: LevelRange { start: -1_000_000i64, end: -1_000_000i64 },
                sand_level: LevelRange { start: -1_000_000i64, end: -1_000_000i64 },
                grass_level: LevelRange { start: -1_000_000i64, end: -1_000_000i64 },
                hill_level: LevelRange { start: -1_000_000i64, end: 1_000_000 },
                mountain_level: LevelRange { start: 1_000_000, end: 1_000_000 },
                snow_level: LevelRange { start: 1_000_000, end: 1_000_000 },
                river_n: CountRange { start: 0, end: 0 },
                street_n: CountRange { start: 0, end: 0 },
                street_len: CountRange { start: 16, end: 25 },
                lava_n: CountRange { start: 0, end: 3 },
                lava_radius: CountRange { start: 2, end: 5 },
            },
        }
    }
}

impl Loadable<OxAgTileTypeOptions> for OxAgTileTypePresets {
    open spec fn loads(&self, value: &OxAgTileTypeOptions) -> bool {
        *value == self.options()
    }

    fn load(&self) -> (r: OxAgTileTypeOptions) {
        match self {
            OxAgTileTypePresets::Default => OxAgTileTypeOptions {
                deep_water_level: LevelRange { start: -1_000_000i64, end: -750_000i64 },
                shallow_water_level: LevelRange { start: -750_000i64, end: -500_000i64 },
                sand_level: LevelRange { start: -500_000i64, end: -250_000i64 },
                grass_level: LevelRange { start: -250_000i64, end: 250_000 },
                hill_level: LevelRange { start: 250_000, end: 500_000 },
                mountain_level: LevelRange { start: 500_000, end: 750_000 },
                snow_level: LevelRange { start: 750_000, end: 1_000_000 },
                river_n: CountRange { start: 1, end: 4 },
                street_n: CountRange { start: 1, end: 3 },
                street_len: CountRange { start: 6, end: 15 },
                lava_n: CountRange { start: 2, end: 2 },
                lava_radius: CountRange { start: 2, end: 4 },
            },
            OxAgTileTypePresets::WaterWorld => OxAgTileTypeOptions {
                deep_water_level: LevelRange { start: -1_000_000i64, end: -500_000i64 },
                shallow_water_level: LevelRange { start: -500_000i64, end: 0 },
                sand_level: LevelRange { start: 0, end: 200_000 },
                grass_level: LevelRange { start: 200_000, end: 400_000 },
                hill_level: LevelRange { start: 400_000, end: 600_000 },
                mountain_level: LevelRange { start: 600_000, end: 800_000 },
                snow_level: LevelRange { start: 800_000, end: 1_000_000 },
                river_n: CountRange { start: 1, end: 4 },
                street_n: CountRange { start: 1, end: 3 },
                street_len: CountRange { start: 6, end: 15 },
                lava_n: CountRange { start: 1, end: 2 },
                lava_radius: CountRange { start: 2, end: 4 },
            },
            OxAgTileTypePresets::LowWaterWorld => OxAgTileTypeOptions {
                deep_water_level: LevelRange { start: -1_000_000i64, end: -800_000i64 },
                shallow_water_level: LevelRange { start: -800_000i64, end: -600_000i64 },
                sand_level: LevelRange { start: -600_000i64, end: -300_000i64 },
                grass_level: LevelRange { start: -300_000i64, end: 100_000 },
                hill_level: LevelRange { start: 100_000, end: 400_000 },
                mountain_level: LevelRange { start: 400_000, end: 700_000 },
                snow_level: LevelRange { start: 700_000, end: 1_000_000 },
                river_n: CountRange { start: 0, end: 10 },
                street_n: CountRange { start: 0, end: 10 },
                street_len: CountRange { start: 16, end: 25 },
                lava_n: CountRange { start: 0, end: 3 },
                lava_radius: CountRange { start: 2, end: 5 },
            },
            OxAgTileTypePresets::Hill => OxAgTileTypeOptions {
                deep_water_level: LevelRange { start: -1_000_000i64, end: -1_000_000i64 },
                shallow_water_level: LevelRange { start: -1_000_000i64, end: -1_000_000i64 },
                sand_level: LevelRange { start: -1_000_000i64, end: -1_000_000i64 },
                grass_level: LevelRange { start: -1_000_000i64, end: -1_000_000i64 },
                hill_level: LevelRange { start: -1_000_000i64, end: 1_000_000 },
                mountain_level: LevelRange { start: 1_000_000, end: 1_000_000 },
                snow_level: LevelRange { start: 1_000_000, end: 1_000_000 },
                river_n: CountRange { start: 0, end: 0 },
                street_n: CountRange { start: 0, end: 0 },
                street_len: CountRange { start: 16, end: 25 },
                lava_n: CountRange { start: 0, end: 3 },
                lava_radius: CountRange { start: 2, end: 5 },
            },
        }
    }
}

/// Every preset is valid, covers every level from the lowest to the
/// highest, and has counts to draw from.
pub proof fn lemma_presets_valid(preset: OxAgTileTypePresets)
    ensures
        preset.options().validation() is Ok,
        preset.options().counts_wf(),
        forall|level: int| -1_000_000 <= level <= 1_000_000 ==> preset.options().covers(level),
{
    let o = preset.options();
    let l = o.levels();
    assert(l[0].start == -1_000_000);
    assert(l[6].end == 1_000_000);
    assert(o.has_lower_bound());
    assert(o.has_upper_bound());
    assert(o.all_within_bounds());
    assert forall|level: int| -1_000_000 <= level <= 1_000_000 implies o.covers(level) by {
        if l[0].contains_spec(level) {
        } else if l[1].contains_spec(level) {
        } else if l[2].contains_spec(level) {
        } else if l[3].contains_spec(level) {
        } else if l[4].contains_spec(level) {
        } else if l[5].contains_spec(level) {
        } else {
            assert(l[6].contains_spec(level));
        }
    }
}

} // verus!
