//! The options that decide which terrain a level becomes, and how many
//! rivers, streets and lava lakes a world gets.

use vstd::prelude::*;
use rand::rngs::StdRng;
use crate::utils::constants::{LEVEL_MAX, LEVEL_MIN};
use crate::utils::errors::OxAgError;
use crate::utils::random::{draw_between, SeedDraws};
use crate::utils::traits::{Container, FromSeed, Validator};
use crate::world::tile::TileType;

verus! {

/// A closed interval of levels, in millionths. It is empty when `start`
/// lies above `end`.
#[derive(Clone, Copy, Debug, PartialEq, Eq, Structural)]
pub struct LevelRange {
    pub start: i64,
    pub end: i64,
}

/// A closed interval of counts.
#[derive(Clone, Copy, Debug, PartialEq, Eq, Structural)]
pub struct CountRange {
    pub start: usize,
    pub end: usize,
}

impl LevelRange {
    pub open spec fn contains_spec(self, level: int) -> bool {
        self.start <= level <= self.end
    }

    /// Twice the distance from `level` to the middle of the interval.
    pub open spec fn distance_spec(self, level: int) -> int {
        let d = 2 * level - (self.start + self.end);
        if d < 0 {
            -d
        } else {
            d
        }
    }

    pub fn new(start: i64, end: i64) -> (r: Self)
        ensures
            r.start == start,
            r.end == end,
    {
        LevelRange { start, end }
    }

    pub fn contains(&self, level: i64) -> (r: bool)
        ensures
            r == self.contains_spec(level as int),
    {
        self.start <= level && level <= self.end
    }

    /// Twice the distance from `level` to the middle of the interval.
    pub fn distance(&self, level: i64) -> (r: i128)
        ensures
            r == self.distance_spec(level as int),
    {
        let d: i128 = 2 * (level as i128) - (self.start as i128 + self.end as i128);
        if d < 0 {
            -d
        } else {
            d
        }
    }
}

impl Container<LevelRange> for LevelRange {
    open spec fn within_spec(&self, range: &LevelRange) -> bool {
        range.start <= self.start && range.end >= self.end
    }

    fn within(&self, range: &LevelRange) -> (r: bool) {
        range.start <= self.start && range.end >= self.end
    }
}

impl CountRange {
    /// The interval holds at least one count.
    pub open spec fn wf(self) -> bool {
        self.start <= self.end
    }

    pub open spec fn contains_spec(self, count: int) -> bool {
        self.start <= count <= self.end
    }

    pub fn new(start: usize, end: usize) -> (r: Self)
        ensures
            r.start == start,
            r.end == end,
    {
        CountRange { start, end }
    }

    pub fn is_empty(&self) -> (r: bool)
        ensures
            r == !self.wf(),
    {
        self.start > self.end
    }

    /// A count drawn from the interval, which must not be empty.
    pub fn draw(&self, rng: &mut StdRng) -> (r: usize)
        requires
            self.wf(),
        ensures
            self.contains_spec(r as int),
    {
        draw_between(rng, self.start, self.end)
    }
}

/// The levels at which each terrain spawns, and the numbers of rivers,
/// streets and lava lakes.
#[derive(Clone, Copy, Debug, PartialEq, Eq, Structural)]
pub struct OxAgTileTypeOptions {
    pub deep_water_level: LevelRange,
    pub shallow_water_level: LevelRange,
    pub sand_level: LevelRange,
    pub grass_level: LevelRange,
    pub hill_level: LevelRange,
    pub mountain_level: LevelRange,
    pub snow_level: LevelRange,
    /// How many rivers to carve.
    pub river_n: CountRange,
    /// How many streets to lay.
    pub street_n: CountRange,
    /// How long a street is.
    pub street_len: CountRange,
    /// How many lava lakes to pour.
    pub lava_n: CountRange,
    /// The radius of a lava lake.
    pub lava_radius: CountRange,
}

/// All the levels there are.
pub open spec fn level_bounds() -> LevelRange {
    LevelRange { start: LEVEL_MIN, end: LEVEL_MAX }
}

impl OxAgTileTypeOptions {
    /// The seven bands, from deep water up to snow.
    pub open spec fn levels(self) -> Seq<LevelRange> {
        seq![
            self.deep_water_level,
            self.shallow_water_level,
            self.sand_level,
            self.grass_level,
            self.hill_level,
            self.mountain_level,
            self.snow_level,
        ]
    }

    /// The terrain of each band, in the order of `levels`.
    pub open spec fn band_terrain(k: int) -> TileType {
        if k == 0 {
            TileType::DeepWater
        } else if k == 1 {
            TileType::ShallowWater
        } else if k == 2 {
            TileType::Sand
        } else if k == 3 {
            TileType::Grass
        } else if k == 4 {
            TileType::Hill
        } else if k == 5 {
            TileType::Mountain
        } else {
            TileType::Snow
        }
    }

    pub open spec fn has_lower_bound(self) -> bool {
        exists|k: int| 0 <= k < 7 && (#[trigger] self.levels()[k]).start == LEVEL_MIN
    }

    pub open spec fn has_upper_bound(self) -> bool {
        exists|k: int| 0 <= k < 7 && (#[trigger] self.levels()[k]).end == LEVEL_MAX
    }

    pub open spec fn all_within_bounds(self) -> bool {
        forall|k: int| 0 <= k < 7 ==> (#[trigger] self.levels()[k]).within_spec(&level_bounds())
    }

    /// Every count interval holds at least one count, so that a count can be
    /// drawn from each.
    pub open spec fn counts_wf(self) -> bool {
        &&& self.river_n.wf()
        &&& self.street_n.wf()
        &&& self.street_len.wf()
        &&& self.lava_n.wf()
        &&& self.lava_radius.wf()
    }

    /// Some band holds `level`.
    pub open spec fn covers(self, level: int) -> bool {
        exists|k: int| 0 <= k < 7 && (#[trigger] self.levels()[k]).contains_spec(level)
    }

    /// Band `k` lies strictly nearer to `level` than every other band.
    pub open spec fn strictly_nearest(self, k: int, level: int) -> bool {
        forall|j: int|
            0 <= j < 7 && j != k ==> self.levels()[k].distance_spec(level) < (
            #[trigger] self.levels()[j]).distance_spec(level)
    }

    /// The terrain of the band whose middle lies nearest to `level`; grass
    /// when two bands tie for it.
    pub open spec fn nearest_spec(self, level: int) -> TileType {
        if self.strictly_nearest(0, level) {
            TileType::DeepWater
        } else if self.strictly_nearest(1, level) {
            TileType::ShallowWater
        } else if self.strictly_nearest(2, level) {
            TileType::Sand
        } else if self.strictly_nearest(4, level) {
            TileType::Hill
        } else if self.strictly_nearest(5, level) {
            TileType::Mountain
        } else if self.strictly_nearest(6, level) {
            TileType::Snow
        } else {
            TileType::Grass
        }
    }

    /// The terrain of a level: that of the band that holds it, deep water
    /// before shallow water before the others where bands meet, and that of
    /// the nearest band where none holds it.
    pub open spec fn classify_spec(self, level: int) -> TileType {
        if self.deep_water_level.contains_spec(level) {
            TileType::DeepWater
        } else if self.shallow_water_level.contains_spec(level) {
            TileType::ShallowWater
        } else if self.sand_level.contains_spec(level) {
            TileType::Sand
        } else if self.hill_level.contains_spec(level) {
            TileType::Hill
        } else if self.mountain_level.contains_spec(level) {
            TileType::Mountain
        } else if self.snow_level.contains_spec(level) {
            TileType::Snow
        } else if self.grass_level.contains_spec(level) {
            TileType::Grass
        } else {
            self.nearest_spec(level)
        }
    }

    /// The terrain of the band whose middle lies nearest to `level`.
    pub fn nearest(&self, level: i64) -> (r: TileType)
        ensures
            r == self.nearest_spec(level as int),
    {
        let d0: i128 = self.deep_water_level.distance(level);
        let d1: i128 = self.shallow_water_level.distance(level);
        let d2: i128 = self.sand_level.distance(level);
        let d3: i128 = self.grass_level.distance(level);
        let d4: i128 = self.hill_level.distance(level);
        let d5: i128 = self.mountain_level.distance(level);
        let d6: i128 = self.snow_level.distance(level);
        proof {
            let l = self.levels();
            assert(l[0] == self.deep_water_level && l[1] == self.shallow_water_level && l[2]
                == self.sand_level && l[3] == self.grass_level && l[4] == self.hill_level && l[5]
                == self.mountain_level && l[6] == self.snow_level);
        }
        if d0 < d1 && d0 < d2 && d0 < d3 && d0 < d4 && d0 < d5 && d0 < d6 {
            TileType::DeepWater
        } else if d1 < d0 && d1 < d2 && d1 < d3 && d1 < d4 && d1 < d5 && d1 < d6 {
            TileType::ShallowWater
        } else if d2 < d0 && d2 < d1 && d2 < d3 && d2 < d4 && d2 < d5 && d2 < d6 {
            TileType::Sand
        } else if d4 < d0 && d4 < d1 && d4 < d2 && d4 < d3 && d4 < d5 && d4 < d6 {
            TileType::Hill
        } else if d5 < d0 && d5 < d1 && d5 < d2 && d5 < d3 && d5 < d4 && d5 < d6 {
            TileType::Mountain
        } else if d6 < d0 && d6 < d1 && d6 < d2 && d6 < d3 && d6 < d4 && d6 < d5 {
            TileType::Snow
        } else {
            TileType::Grass
        }
    }

    /// The terrain of a level.
    pub fn classify(&self, level: i64) -> (r: TileType)
        ensures
            r == self.classify_spec(level as int),
    {
        if self.deep_water_level.contains(level) {
            TileType::DeepWater
        } else if self.shallow_water_level.contains(level) {
            TileType::ShallowWater
        } else if self.sand_level.contains(level) {
            TileType::Sand
        } else if self.hill_level.contains(level) {
            TileType::Hill
        } else if self.mountain_level.contains(level) {
            TileType::Mountain
        } else if self.snow_level.contains(level) {
            TileType::Snow
        } else if self.grass_level.contains(level) {
            TileType::Grass
        } else {
            self.nearest(level)
        }
    }
}

/// A level that some band holds gets the terrain of a band that holds it,
/// and every level gets the terrain of one of the seven bands.
pub proof fn lemma_classify_covers(options: OxAgTileTypeOptions, level: int)
    ensures
        exists|k: int|
            0 <= k < 7 && options.classify_spec(level) == OxAgTileTypeOptions::band_terrain(k),
        options.covers(level) ==> exists|k: int|
            0 <= k < 7 && (#[trigger] options.levels()[k]).contains_spec(level)
                && options.classify_spec(level) == OxAgTileTypeOptions::band_terrain(k),
{
    let l = options.levels();
    let t = options.classify_spec(level);
    let k: int = if t == TileType::DeepWater {
        0
    } else if t == TileType::ShallowWater {
        1
    } else if t == TileType::Sand {
        2
    } else if t == TileType::Grass {
        3
    } else if t == TileType::Hill {
        4
    } else if t == TileType::Mountain {
        5
    } else {
        6
    };
    assert(options.classify_spec(level) == OxAgTileTypeOptions::band_terrain(k));
    if options.covers(level) {
        let j = choose|j: int| 0 <= j < 7 && (#[trigger] l[j]).contains_spec(level);
        assert(l[k].contains_spec(level));
    }
}

/// The level that lies `steps` millionths above `low`.
pub fn level_above(low: i64, steps: usize) -> (r: i64)
    requires
        LEVEL_MIN <= low,
        low + steps <= LEVEL_MAX,
    ensures
        r == low + steps,
{
    low + steps as i64
}

/// The level that is drawn next between `low` and `high`, and the draws
/// that are left then: the level lies above `low` by a number of millionths
/// drawn from 0 up to the distance of the two.
pub open spec fn level_drawn(draws: SeedDraws, low: i64, high: i64) -> (i64, SeedDraws) {
    let span = (high - low) as u64;
    ((low + draws.value(0, span)) as i64, draws.after(0, span))
}

/// The count interval that is drawn next under `limit`, and the draws that
/// are left then: the interval goes from 0 up to a count drawn below a
/// bound that is itself drawn from 1 up to, but not including, `limit`.
pub open spec fn counts_drawn(draws: SeedDraws, limit: usize) -> (CountRange, SeedDraws) {
    let top = (limit - 1) as u64;
    let bound = draws.value(1, top);
    let rest = draws.after(1, top);
    let last = (bound - 1) as u64;
    (CountRange { start: 0, end: rest.value(0, last) as usize }, rest.after(0, last))
}

/// Draws a level between `low` and `high`.
pub(crate) fn draw_level(draws: &mut SeedDraws, low: i64, high: i64) -> (r: i64)
    requires
        LEVEL_MIN <= low <= high <= LEVEL_MAX,
    ensures
        (r, *final(draws)) == level_drawn(*old(draws), low, high),
        low <= r <= high,
{
    let span: u64 = (high - low) as u64;
    let drawn: u64 = draws.between(0, span);
    level_above(low, drawn as usize)
}

/// Draws a count interval under `limit`.
fn draw_counts(draws: &mut SeedDraws, limit: usize) -> (r: CountRange)
    requires
        limit >= 2,
    ensures
        (r, *final(draws)) == counts_drawn(*old(draws), limit),
        r.start == 0,
        r.end + 2 <= limit,
{
    let bound: u64 = draws.between(1, (limit - 1) as u64);
    let end: u64 = draws.between(0, bound - 1);
    CountRange::new(0, end as usize)
}

impl OxAgTileTypeOptions {
    /// The options whose bands follow one another from the lowest level to
    /// the highest, each starting where the one before ends, the first six
    /// ending at the given levels, with the given count intervals.
    pub open spec fn chained_spec(
        ends: (i64, i64, i64, i64, i64, i64),
        river_n: CountRange,
        street_n: CountRange,
        street_len: CountRange,
        lava_n: CountRange,
        lava_radius: CountRange,
    ) -> OxAgTileTypeOptions {
        OxAgTileTypeOptions {
            deep_water_level: LevelRange { start: LEVEL_MIN, end: ends.0 },
            shallow_water_level: LevelRange { start: ends.0, end: ends.1 },
            sand_level: LevelRange { start: ends.1, end: ends.2 },
            grass_level: LevelRange { start: ends.2, end: ends.3 },
            hill_level: LevelRange { start: ends.3, end: ends.4 },
            mountain_level: LevelRange { start: ends.4, end: ends.5 },
            snow_level: LevelRange { start: ends.5, end: LEVEL_MAX },
            river_n,
            street_n,
            street_len,
            lava_n,
            lava_radius,
        }
    }

    /// The options with chained bands that end at the given levels, with
    /// the given count intervals.
    pub fn chained(
        ends: (i64, i64, i64, i64, i64, i64),
        river_n: CountRange,
        street_n: CountRange,
        street_len: CountRange,
        lava_n: CountRange,
        lava_radius: CountRange,
    ) -> (r: OxAgTileTypeOptions)
        ensures
            r == Self::chained_spec(ends, river_n, street_n, street_len, lava_n, lava_radius),
    {
        OxAgTileTypeOptions {
            deep_water_level: LevelRange { start: LEVEL_MIN, end: ends.0 },
            shallow_water_level: LevelRange { start: ends.0, end: ends.1 },
            sand_level: LevelRange { start: ends.1, end: ends.2 },
            grass_level: LevelRange { start: ends.2, end: ends.3 },
            hill_level: LevelRange { start: ends.3, end: ends.4 },
            mountain_level: LevelRange { start: ends.4, end: ends.5 },
            snow_level: LevelRange { start: ends.5, end: LEVEL_MAX },
            river_n,
            street_n,
            street_len,
            lava_n,
            lava_radius,
        }
    }

    /// The options that `seed` stands for. From the draws of the seed come,
    /// in this order: the levels at which the first six bands end, each
    /// drawn between the one before and the highest level, the first from
    /// the lowest level on; then the counts of rivers under 64, of streets
    /// under 64, of lakes of lava under 30, the radius of such a lake under
    /// 8 and the length of a street under 20.
    pub open spec fn seeded_options(seed: u64) -> OxAgTileTypeOptions {
        let dw = level_drawn(SeedDraws::start(seed), LEVEL_MIN, LEVEL_MAX);
        let sw = level_drawn(dw.1, dw.0, LEVEL_MAX);
        let sd = level_drawn(sw.1, sw.0, LEVEL_MAX);
        let gr = level_drawn(sd.1, sd.0, LEVEL_MAX);
        let hl = level_drawn(gr.1, gr.0, LEVEL_MAX);
        let mt = level_drawn(hl.1, hl.0, LEVEL_MAX);
        let river_n = counts_drawn(mt.1, 64);
        let street_n = counts_drawn(river_n.1, 64);
        let lava_n = counts_drawn(street_n.1, 30);
        let lava_radius = counts_drawn(lava_n.1, 8);
        let street_len = counts_drawn(lava_radius.1, 20);
        Self::chained_spec(
            (dw.0, sw.0, sd.0, gr.0, hl.0, mt.0),
            river_n.0,
            street_n.0,
            street_len.0,
            lava_n.0,
            lava_radius.0,
        )
    }

    /// The bands follow one another from the lowest level to the highest,
    /// each starting where the one before ends; every count interval starts
    /// at 0 and ends under its limit; and the options are valid.
    pub open spec fn well_chained(self) -> bool {
        &&& self.validation() is Ok
        &&& self.counts_wf()
        &&& self.deep_water_level.start == LEVEL_MIN
        &&& self.snow_level.end == LEVEL_MAX
        &&& forall|k: int|
            0 <= k < 6 ==> (#[trigger] self.levels()[k]).end == self.levels()[k + 1].start
        &&& forall|k: int| 0 <= k < 7 ==> (#[trigger] self.levels()[k]).start <= self.levels()[k].end
        &&& self.river_n.start == 0 && self.river_n.end < 63
        &&& self.street_n.start == 0 && self.street_n.end < 63
        &&& self.lava_n.start == 0 && self.lava_n.end < 29
        &&& self.lava_radius.start == 0 && self.lava_radius.end < 7
        &&& self.street_len.start == 0 && self.street_len.end < 19
    }
}

impl FromSeed for OxAgTileTypeOptions {
    /// These are the options that `seed` stands for, and they are well
    /// chained.
    open spec fn seeded(&self, seed: u64) -> bool {
        &&& *self == Self::seeded_options(seed)
        &&& self.well_chained()
    }

    fn new_from_seed(seed: u64) -> (r: Self) {
        let mut draws = SeedDraws::new(seed);
        let dw_end: i64 = draw_level(&mut draws, LEVEL_MIN, LEVEL_MAX);
        let sw_end: i64 = draw_level(&mut draws, dw_end, LEVEL_MAX);
        let sd_end: i64 = draw_level(&mut draws, sw_end, LEVEL_MAX);
        let gr_end: i64 = draw_level(&mut draws, sd_end, LEVEL_MAX);
        let hl_end: i64 = draw_level(&mut draws, gr_end, LEVEL_MAX);
        let mt_end: i64 = draw_level(&mut draws, hl_end, LEVEL_MAX);
        let river_n = draw_counts(&mut draws, 64);
        let street_n = draw_counts(&mut draws, 64);
        let lava_n = draw_counts(&mut draws, 30);
        let lava_radius = draw_counts(&mut draws, 8);
        let street_len = draw_counts(&mut draws, 20);
        let r = OxAgTileTypeOptions::chained(
            (dw_end, sw_end, sd_end, gr_end, hl_end, mt_end),
            river_n,
            street_n,
            street_len,
            lava_n,
            lava_radius,
        );
        proof {
            let l = r.levels();
            assert(l[0].start == LEVEL_MIN);
            assert(l[6].end == LEVEL_MAX);
            assert(r.has_lower_bound());
            assert(r.has_upper_bound());
            assert(r.all_within_bounds());
        }
        r
    }
}

/// Equal seeds stand for equal options: two values derived from one seed
/// are the same.
pub proof fn lemma_seed_decides_options(a: OxAgTileTypeOptions, b: OxAgTileTypeOptions, seed: u64)
    requires
        a.seeded(seed),
        b.seeded(seed),
    ensures
        a == b,
{
}

impl Validator for OxAgTileTypeOptions {
    /// Some band must start at the lowest level, some band must end at the
    /// highest, and every band must lie within the two.
    open spec fn validation(&self) -> Result<(), OxAgError> {
        if !self.has_lower_bound() {
            Err(OxAgError::WrongLowerBound)
        } else if !self.has_upper_bound() {
            Err(OxAgError::WrongUpperBound)
        } else if !self.all_within_bounds() {
            Err(OxAgError::RangesAreOutOfBounds)
        } else {
            Ok(())
        }
    }

    fn validate(&self) -> (r: Result<(), OxAgError>) {
        let bounds = LevelRange { start: LEVEL_MIN, end: LEVEL_MAX };
        proof {
            let l = self.levels();
            assert(l[0] == self.deep_water_level && l[1] == self.shallow_water_level && l[2]
                == self.sand_level && l[3] == self.grass_level && l[4] == self.hill_level && l[5]
                == self.mountain_level && l[6] == self.snow_level);
        }
        let lower = self.deep_water_level.start == LEVEL_MIN || self.shallow_water_level.start
            == LEVEL_MIN || self.sand_level.start == LEVEL_MIN || self.grass_level.start
            == LEVEL_MIN || self.hill_level.start == LEVEL_MIN || self.mountain_level.start
            == LEVEL_MIN || self.snow_level.start == LEVEL_MIN;
        if !lower {
            return Err(OxAgError::WrongLowerBound);
        }
        let upper = self.deep_water_level.end == LEVEL_MAX || self.shallow_water_level.end
            == LEVEL_MAX || self.sand_level.end == LEVEL_MAX || self.grass_level.end == LEVEL_MAX
            || self.hill_level.end == LEVEL_MAX || self.mountain_level.end == LEVEL_MAX
            || self.snow_level.end == LEVEL_MAX;
        if !upper {
            return Err(OxAgError::WrongUpperBound);
        }
        let inside = self.deep_water_level.within(&bounds) && self.shallow_water_level.within(
            &bounds,
        ) && self.sand_level.within(&bounds) && self.grass_level.within(&bounds)
            && self.hill_level.within(&bounds) && self.mountain_level.within(&bounds)
            && self.snow_level.within(&bounds);
        if !inside {
            return Err(OxAgError::RangesAreOutOfBounds);
        }
        Ok(())
    }
}

} // verus!
