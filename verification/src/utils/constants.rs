//! The constants of the generator. Fractions and levels count millionths.

use vstd::prelude::*;

verus! {

/// One whole, in millionths.
pub const UNIT: i64 = 1_000_000;

/// The lowest level a band may reach.
pub const LEVEL_MIN: i64 = -1_000_000;

/// The highest level a band may reach.
pub const LEVEL_MAX: i64 = 1_000_000;

/// The largest side that a world may have.
pub const MAX_WORLD_SIZE: usize = 32_768;

/// The chance, out of `CHANCE_SCALE`, that a content made from a seed spawns
/// in batches.
pub const DEFAULT_TILE_CONTENT_IN_BATCH_CHANCE: u32 = 5;

/// The chance, out of `CHANCE_SCALE`, that a content made from a seed is
/// present.
pub const DEFAULT_TILE_CONTENT_IS_PRESENT_CHANCE: u32 = 5;

/// The chance, out of `CHANCE_SCALE`, that a weather type is part of the
/// conditions made from a seed.
pub const DEFAULT_WEATHER_CHANCE: u32 = 7;

/// The chance, out of `CHANCE_SCALE`, that a street goes on straight.
pub const SAME_DIR_CHANCE: u32 = 5;

/// What the chances above are out of.
pub const CHANCE_SCALE: u32 = 10;

pub const DEFAULT_TILE_CONTENT_MIN_SPAWN_NUMBER: usize = 0;

/// Batches made from a seed have a radius below this.
pub const DEFAULT_SPAWN_RADIUS: usize = 5;

/// The room, in cells, that a batch takes beyond its disk.
pub const DEFAULT_BATCH_DISTANCE: usize = 12;

/// The score of a world when none is set: one hundred.
pub const DEFAULT_SCORE: i64 = 100_000_000;

/// How often a cell is drawn at random before the grid is searched in order.
pub const MAX_REDRAWS: u64 = 0x1_0000_0000;

} // verus!
