//! From a field of heights to a grid of tiles.

use vstd::prelude::*;
use rand::rngs::StdRng;
use crate::utils::constants::{MAX_WORLD_SIZE, UNIT};
use crate::utils::random::draw_below;
use crate::world::tile::{Content, Tile, TileType};
use crate::world_generator::spawning_tools::grid::{
    content_fits, inside, pick_cell, some_wanted, square, unmarked, wanted_at, water_kept, Land,
    Wanted,
};
use crate::world_generator::spawning_tools::lava_spawn::{
    lakes_ran, lava, lemma_lava_keeps_water,
};
use crate::world_generator::spawning_tools::river_spawn::{
    carved, flowed_from, lemma_carved_has_flowed, lemma_flowed_stays, lemma_river_stays,
    lemma_river_trace_chain, river_flowed, river_lies, river_link, river_ran, river_trace,
    rivers_ran,
};
use crate::world_generator::spawning_tools::street_spawn::{
    lemma_street_keeps_water, lemma_street_trace_chain, paved, street_laid, street_link,
    street_ran, street_trace, streets_ran, Direction,
};
use crate::world_generator::spawning_tools::circle_spawn::stamped;
use crate::world_generator::spawning_tools::TileMat;
use crate::world_generator::tile_type_options::{lemma_classify_covers, OxAgTileTypeOptions};

verus! {

/// A square field of heights, in millionths, with the least and the
/// greatest of them, and a mark on each cell that a river or a street has
/// taken.
#[derive(Debug)]
pub struct HeightMap {
    pub heights: Vec<Vec<i64>>,
    pub claimed: Vec<Vec<bool>>,
    pub min: i64,
    pub max: i64,
    pub seed: u64,
    pub size: usize,
    pub with_info: bool,
}

/// A height relative to the extremes of its field: heights above zero are
/// measured against the greatest height, the others against the least, so
/// that the result lies between minus one and one whole. There is none for
/// a height of zero in a field that nowhere goes below zero.
pub open spec fn normalized_spec(height: int, min: int, max: int) -> Option<int> {
    if height > 0 {
        if max > 0 {
            Some(height * UNIT as int / max)
        } else {
            None
        }
    } else if min < 0 {
        Some(-((-height) * UNIT as int / (-min)))
    } else {
        None
    }
}

/// The elevation of a water cell at level `level`: the whole part of the
/// level above minus one, scaled by `multiplier`.
pub open spec fn elevation_spec(level: int, multiplier: int) -> int {
    let raised = (level + UNIT as int) * multiplier;
    if raised <= 0 {
        0
    } else if raised / 1_000_000_000_000 > usize::MAX as int {
        usize::MAX as int
    } else {
        raised / 1_000_000_000_000
    }
}

pub fn normalize(height: i64, min: i64, max: i64) -> (r: Option<i64>)
    requires
        min <= height <= max,
    ensures
        r matches Some(v) ==> -UNIT <= v <= UNIT,
        match r {
            Some(v) => normalized_spec(height as int, min as int, max as int) == Some(v as int),
            None => normalized_spec(height as int, min as int, max as int) is None,
        },
{
    if height > 0 {
        let scaled: i128 = (height as i128) * 1_000_000;
        let v: i128 = scaled / (max as i128);
        assert(0 <= v <= 1_000_000) by (nonlinear_arith)
            requires
                0 < height <= max,
                scaled == height * 1_000_000,
                v == (scaled as int) / (max as int),
        ;
        Some(v as i64)
    } else if min < 0 {
        let scaled: i128 = (-(height as i128)) * 1_000_000;
        let v: i128 = scaled / (-(min as i128));
        assert(0 <= v <= 1_000_000) by (nonlinear_arith)
            requires
                0 <= -height <= -min,
                0 < -min,
                scaled == (-height) * 1_000_000,
                v == (scaled as int) / (-(min as int)),
        ;
        Some((-v) as i64)
    } else {
        None
    }
}

pub fn elevation(level: i64, multiplier: i64) -> (r: usize)
    requires
        -UNIT <= level <= UNIT,
    ensures
        r == elevation_spec(level as int, multiplier as int),
{
    let above: i128 = level as i128 + 1_000_000;
    let factor: i128 = multiplier as i128;
    assert(-2_000_000 * 0x8000_0000_0000_0000int <= above * factor <= 2_000_000
        * 0x8000_0000_0000_0000int) by (nonlinear_arith)
        requires
            0 <= above <= 2_000_000,
            -0x8000_0000_0000_0000int <= factor <= 0x8000_0000_0000_0000int,
    ;
    let raised: i128 = above * factor;
    if raised <= 0 {
        0
    } else {
        let whole: i128 = raised / 1_000_000_000_000;
        if whole > usize::MAX as i128 {
            usize::MAX
        } else {
            whole as usize
        }
    }
}

impl HeightMap {
    /// The field is square, not empty and no larger than a world may be;
    /// `min` and `max` are its least and greatest height.
    pub open spec fn wf(self) -> bool {
        &&& 0 < self.size <= MAX_WORLD_SIZE
        &&& square(self.heights, self.size as int)
        &&& square(self.claimed, self.size as int)
        &&& forall|r: int, c: int|
            inside(self.size as int, r, c) ==> self.min <= (#[trigger] self.heights[r][c])
                <= self.max
        &&& exists|r: int, c: int|
            inside(self.size as int, r, c) && (#[trigger] self.heights[r][c]) == self.min
        &&& exists|r: int, c: int|
            inside(self.size as int, r, c) && (#[trigger] self.heights[r][c]) == self.max
    }

    /// A field with the heights and extremes of a well-formed one is well
    /// formed, whatever cells are taken.
    pub proof fn lemma_marks_keep_wf(self, other: HeightMap)
        requires
            self.wf(),
            other.heights == self.heights,
            other.min == self.min,
            other.max == self.max,
            other.size == self.size,
            square(other.claimed, other.size as int),
        ensures
            other.wf(),
    {
        let n = self.size as int;
        let low = choose|r: int, c: int|
            inside(n, r, c) && (#[trigger] self.heights[r][c]) == self.min;
        let high = choose|r: int, c: int|
            inside(n, r, c) && (#[trigger] self.heights[r][c]) == self.max;
        assert(other.heights[low.0][low.1] == other.min);
        assert(other.heights[high.0][high.1] == other.max);
    }

    /// No cell is taken.
    pub open spec fn fresh(self) -> bool {
        forall|r: int, c: int| inside(self.size as int, r, c) ==> !(#[trigger] self.claimed[r][c])
    }

    /// The level of the cell at `(r, c)`.
    pub open spec fn level_spec(self, r: int, c: int) -> Option<int> {
        normalized_spec(self.heights[r][c] as int, self.min as int, self.max as int)
    }

    /// The terrain that the options give the cell at `(r, c)`: that of its
    /// level, and grass where it has none.
    pub open spec fn terrain_spec(self, options: OxAgTileTypeOptions, r: int, c: int) -> TileType {
        match self.level_spec(r, c) {
            Some(v) => options.classify_spec(v),
            None => TileType::Grass,
        }
    }

    /// The level of the cell at `(r, c)` lies in one of the two water bands.
    pub open spec fn in_water_band(self, options: OxAgTileTypeOptions, r: int, c: int) -> bool {
        match self.level_spec(r, c) {
            Some(v) => options.deep_water_level.contains_spec(v)
                || options.shallow_water_level.contains_spec(v),
            None => false,
        }
    }

    /// The tile at `(r, c)` is what classification makes of the cell: the
    /// terrain of its level; in a water band, some amount of water and the
    /// elevation of the level; elsewhere, no content and no elevation.
    pub open spec fn classified(
        self,
        options: OxAgTileTypeOptions,
        multiplier: int,
        r: int,
        c: int,
        tile: Tile,
    ) -> bool {
        &&& tile.tile_type == self.terrain_spec(options, r, c)
        &&& if self.in_water_band(options, r, c) {
            &&& tile.content matches Content::Water(k)
            &&& k < Content::Water(0).max_spec()
            &&& tile.elevation == elevation_spec(self.level_spec(r, c).unwrap(), multiplier)
        } else {
            tile.content is Empty && tile.elevation == 0
        }
    }

    /// The grid `map` is what classification makes of the field.
    pub open spec fn all_classified(
        self,
        options: OxAgTileTypeOptions,
        multiplier: int,
        map: Vec<Vec<Tile>>,
    ) -> bool {
        &&& square(map, self.size as int)
        &&& forall|r: int, c: int|
            inside(self.size as int, r, c) ==> self.classified(
                options,
                multiplier,
                r,
                c,
                #[trigger] map[r][c],
            )
    }

    /// The passes over the land have led from the field to the grid `map`:
    /// classification made the grid that the first river found, with the
    /// marks of the field; the rivers had their turns, their number within
    /// `river_n`, and left the lands `rivers`; the lakes of lava had theirs
    /// on the grid that the rivers left, their number within `lava_n`, and
    /// left the grids `lakes`; the streets had theirs on what the lakes
    /// left, with the marks that the rivers left, their number within
    /// `street_n`, and left the lands `streets`, the last of which has the
    /// grid `map`.
    pub open spec fn passed(
        self,
        options: OxAgTileTypeOptions,
        multiplier: int,
        rivers: Seq<Land>,
        lakes: Seq<Vec<Vec<Tile>>>,
        streets: Seq<Land>,
        map: Vec<Vec<Tile>>,
    ) -> bool {
        &&& rivers_ran(self.heights, self.size as int, rivers)
        &&& options.river_n.contains_spec(rivers.len() - 1)
        &&& rivers[0].claimed == self.claimed
        &&& self.all_classified(options, multiplier, rivers[0].map)
        &&& lakes_ran(self.size as int, options.lava_radius, lakes)
        &&& options.lava_n.contains_spec(lakes.len() - 1)
        &&& lakes[0] == rivers.last().map
        &&& streets_ran(self.size as int, options.street_len, streets)
        &&& options.street_n.contains_spec(streets.len() - 1)
        &&& streets[0] == (Land { claimed: rivers.last().claimed, map: lakes.last() })
        &&& streets.last().map == map
    }

    /// The grid `map` is what the passes over the land make of the field
    /// for some draws: classification, then the rivers, the lakes of lava
    /// and the streets, each as `passed` says.
    pub open spec fn made_into(
        self,
        options: OxAgTileTypeOptions,
        multiplier: int,
        map: Vec<Vec<Tile>>,
    ) -> bool {
        exists|rivers: Seq<Land>, lakes: Seq<Vec<Vec<Tile>>>, streets: Seq<Land>| #[trigger]
            self.passed(options, multiplier, rivers, lakes, streets, map)
    }

    /// Whether `samples` is a square of a side that a world may have.
    pub fn fits(samples: &Vec<Vec<i64>>) -> (r: bool)
        ensures
            r == (0 < samples.len() <= MAX_WORLD_SIZE && square(*samples, samples.len() as int)),
    {
        let size: usize = samples.len();
        if size == 0 || size > MAX_WORLD_SIZE {
            return false;
        }
        let mut r: usize = 0;
        while r < size
            invariant
                size == samples.len(),
                r <= size,
                forall|i: int| 0 <= i < r ==> (#[trigger] samples[i]).len() == size,
            decreases size - r,
        {
            if samples[r].len() != size {
                return false;
            }
            r += 1;
        }
        true
    }

    /// The field of the given heights, with its extremes found and no cell
    /// taken; `None` unless the heights form a square of a side from 1 to
    /// `MAX_WORLD_SIZE`.
    pub fn new(samples: Vec<Vec<i64>>, seed: u64, with_info: bool) -> (r: Option<HeightMap>)
        ensures
            r is Some <==> 0 < samples.len() <= MAX_WORLD_SIZE && square(
                samples,
                samples.len() as int,
            ),
            r matches Some(h) ==> h.wf() && h.fresh() && h.heights == samples && h.size
                == samples.len() && h.seed == seed && h.with_info == with_info,
    {
        if !Self::fits(&samples) {
            return None;
        }
        let size: usize = samples.len();
        let mut min: i64 = samples[0][0];
        let mut max: i64 = samples[0][0];
        let ghost mut at_min: (int, int) = (0, 0);
        let ghost mut at_max: (int, int) = (0, 0);
        let mut r: usize = 0;
        while r < size
            invariant
                0 < size == samples.len(),
                square(samples, size as int),
                r <= size,
                forall|i: int, j: int|
                    0 <= i < r && 0 <= j < size ==> min <= (#[trigger] samples[i][j]) <= max,
                inside(size as int, at_min.0, at_min.1) && samples[at_min.0][at_min.1] == min,
                inside(size as int, at_max.0, at_max.1) && samples[at_max.0][at_max.1] == max,
            decreases size - r,
        {
            let mut c: usize = 0;
            while c < size
                invariant
                    0 < size == samples.len(),
                    square(samples, size as int),
                    r < size,
                    c <= size,
                    forall|i: int, j: int|
                        0 <= i < r && 0 <= j < size ==> min <= (#[trigger] samples[i][j]) <= max,
                    forall|j: int| 0 <= j < c ==> min <= (#[trigger] samples[r as int][j]) <= max,
                    inside(size as int, at_min.0, at_min.1) && samples[at_min.0][at_min.1] == min,
                    inside(size as int, at_max.0, at_max.1) && samples[at_max.0][at_max.1] == max,
                decreases size - c,
            {
                let h: i64 = samples[r][c];
                if h < min {
                    min = h;
                    proof {
                        at_min = (r as int, c as int);
                    }
                }
                if h > max {
                    max = h;
                    proof {
                        at_max = (r as int, c as int);
                    }
                }
                c += 1;
            }
            r += 1;
        }
        let claimed = unmarked(size);
        let h = HeightMap { heights: samples, claimed, min, max, seed, size, with_info };
        assert(h.heights[at_min.0][at_min.1] == h.min);
        assert(h.heights[at_max.0][at_max.1] == h.max);
        Some(h)
    }

    /// The tile that classification makes of the cell at `(r, c)`.
    pub fn classify_cell(
        &self,
        options: &OxAgTileTypeOptions,
        multiplier: i64,
        r: usize,
        c: usize,
        rng: &mut StdRng,
    ) -> (tile: Tile)
        requires
            self.wf(),
            r < self.size,
            c < self.size,
        ensures
            self.classified(*options, multiplier as int, r as int, c as int, tile),
    {
        match normalize(self.heights[r][c], self.min, self.max) {
            Some(level) => {
                if options.deep_water_level.contains(level)
                    || options.shallow_water_level.contains(level) {
                    let tile_type = if options.deep_water_level.contains(level) {
                        TileType::DeepWater
                    } else {
                        TileType::ShallowWater
                    };
                    let amount: usize = draw_below(rng, Content::Water(0).max());
                    Tile {
                        tile_type,
                        content: Content::Water(amount),
                        elevation: elevation(level, multiplier),
                    }
                } else {
                    Tile {
                        tile_type: options.classify(level),
                        content: Content::Empty,
                        elevation: 0,
                    }
                }
            },
            None => Tile { tile_type: TileType::Grass, content: Content::Empty, elevation: 0 },
        }
    }

    /// The grid of tiles that classification makes of the field, cell by
    /// cell and row by row.
    pub fn classify_cells(
        &self,
        options: &OxAgTileTypeOptions,
        multiplier: i64,
        rng: &mut StdRng,
    ) -> (map: Vec<Vec<Tile>>)
        requires
            self.wf(),
        ensures
            square(map, self.size as int),
            forall|r: int, c: int|
                inside(self.size as int, r, c) ==> self.classified(
                    *options,
                    multiplier as int,
                    r,
                    c,
                    #[trigger] map[r][c],
                ),
    {
        let size: usize = self.size;
        let mut map: Vec<Vec<Tile>> = Vec::new();
        let mut r: usize = 0;
        while r < size
            invariant
                self.wf(),
                size == self.size,
                r <= size,
                map.len() == r,
                forall|i: int| 0 <= i < r ==> (#[trigger] map[i]).len() == size,
                forall|i: int, j: int|
                    0 <= i < r && 0 <= j < size ==> self.classified(
                        *options,
                        multiplier as int,
                        i,
                        j,
                        #[trigger] map[i][j],
                    ),
            decreases size - r,
        {
            let mut row: Vec<Tile> = Vec::new();
            let mut c: usize = 0;
            while c < size
                invariant
                    self.wf(),
                    size == self.size,
                    r < size,
                    c <= size,
                    row.len() == c,
                    forall|j: int|
                        0 <= j < c ==> self.classified(
                            *options,
                            multiplier as int,
                            r as int,
                            j,
                            #[trigger] row[j],
                        ),
                decreases size - c,
            {
                let tile = self.classify_cell(options, multiplier, r, c, rng);
                row.push(tile);
                c += 1;
            }
            map.push(row);
            r += 1;
        }
        map
    }
}

/// What the passes make of a field hangs on its heights, their extremes
/// and its marks alone: two fields that agree in these are made into the
/// same grids.
pub proof fn lemma_made_alike(
    a: HeightMap,
    b: HeightMap,
    options: OxAgTileTypeOptions,
    multiplier: int,
    map: Vec<Vec<Tile>>,
)
    requires
        a.heights == b.heights,
        a.claimed == b.claimed,
        a.min == b.min,
        a.max == b.max,
        a.size == b.size,
        a.made_into(options, multiplier, map),
    ensures
        b.made_into(options, multiplier, map),
{
    let (rivers, lakes, streets) = choose|
        rivers: Seq<Land>,
        lakes: Seq<Vec<Vec<Tile>>>,
        streets: Seq<Land>,
    | #[trigger] a.passed(options, multiplier, rivers, lakes, streets, map);
    let first = rivers[0].map;
    assert forall|r: int, c: int| inside(b.size as int, r, c) implies b.classified(
        options,
        multiplier,
        r,
        c,
        #[trigger] first[r][c],
    ) by {
        assert(a.classified(options, multiplier, r, c, first[r][c]));
    }
    assert(b.passed(options, multiplier, rivers, lakes, streets, map));
}

/// Classification is decided by the field, the options and the multiplier
/// but for the amounts of water: two grids classified from one field have
/// the same terrain and the same elevation in every cell, and the same
/// content wherever the level lies in no water band.
pub proof fn lemma_classified_alike(
    field: HeightMap,
    options: OxAgTileTypeOptions,
    multiplier: int,
    a: Vec<Vec<Tile>>,
    b: Vec<Vec<Tile>>,
)
    requires
        field.all_classified(options, multiplier, a),
        field.all_classified(options, multiplier, b),
    ensures
        forall|r: int, c: int|
            inside(field.size as int, r, c) ==> {
                &&& (#[trigger] a[r][c]).tile_type == b[r][c].tile_type
                &&& a[r][c].elevation == b[r][c].elevation
                &&& a[r][c].content is Water <==> b[r][c].content is Water
                &&& !field.in_water_band(options, r, c) ==> a[r][c] == b[r][c]
            },
{
    assert forall|r: int, c: int| inside(field.size as int, r, c) implies {
        &&& (#[trigger] a[r][c]).tile_type == b[r][c].tile_type
        &&& a[r][c].elevation == b[r][c].elevation
        &&& a[r][c].content is Water <==> b[r][c].content is Water
        &&& !field.in_water_band(options, r, c) ==> a[r][c] == b[r][c]
    } by {
        assert(field.classified(options, multiplier, r, c, a[r][c]));
        assert(field.classified(options, multiplier, r, c, b[r][c]));
    }
}

impl HeightMap {
    /// `terrain` is what the passes over the land make of the terrain of the
    /// cell at `(r, c)`: that of its level, unless a river has carved the
    /// cell into shallow water, lava has been poured on it or a street has
    /// been laid on it, none of which happens to water.
    pub open spec fn shaped(
        self,
        options: OxAgTileTypeOptions,
        r: int,
        c: int,
        terrain: TileType,
    ) -> bool {
        let classified = self.terrain_spec(options, r, c);
        terrain == classified || (!classified.is_water_spec() && (terrain == TileType::ShallowWater
            || terrain == TileType::Lava || terrain == TileType::Street))
    }

    /// `terrain` is no more than the options allow the passes over the land
    /// to make of the cell at `(r, c)`: where they allow no river, it is
    /// shallow water only if its level makes it so; where they allow no
    /// lake of lava, it is no lava; and where they allow no street or no
    /// length of one, it is no street.
    pub open spec fn spared(
        self,
        options: OxAgTileTypeOptions,
        r: int,
        c: int,
        terrain: TileType,
    ) -> bool {
        &&& options.river_n.end == 0 && terrain == TileType::ShallowWater ==> self.terrain_spec(
            options,
            r,
            c,
        ) == TileType::ShallowWater
        &&& options.lava_n.end == 0 ==> terrain != TileType::Lava
        &&& options.street_n.end == 0 || options.street_len.end == 0 ==> terrain
            != TileType::Street
    }

    /// The tile at `(r, c)` is what the passes over the land make of the
    /// cell: its terrain is shaped from that of its level, and its content
    /// and elevation are those that classification gave it.
    pub open spec fn landscaped(
        self,
        options: OxAgTileTypeOptions,
        multiplier: int,
        r: int,
        c: int,
        tile: Tile,
    ) -> bool {
        &&& self.shaped(options, r, c, tile.tile_type)
        &&& if self.in_water_band(options, r, c) {
            &&& tile.content matches Content::Water(k)
            &&& k < Content::Water(0).max_spec()
            &&& tile.elevation == elevation_spec(self.level_spec(r, c).unwrap(), multiplier)
        } else {
            tile.content is Empty && tile.elevation == 0
        }
    }

    /// Carves `rivers` rivers, each from a cell of hill or mountain that is
    /// not taken, drawn from the grid. A river for which there is no such
    /// cell is not carved.
    ///
    /// Every cell is left as it was or carved into shallow water and taken.
    /// Where at least one river is asked for and the grid has a source, a
    /// river has flowed from a source as `river_flow` gives, and what it
    /// carved has stayed.
    pub fn rivers_carve(&mut self, map: &mut Vec<Vec<Tile>>, rivers: usize, rng: &mut StdRng)
        requires
            old(self).wf(),
            square(*old(map), old(self).size as int),
        ensures
            final(self).wf(),
            final(self).heights == old(self).heights,
            final(self).min == old(self).min,
            final(self).max == old(self).max,
            final(self).size == old(self).size,
            final(self).seed == old(self).seed,
            final(self).with_info == old(self).with_info,
            river_trace(
                old(self).claimed,
                *old(map),
                final(self).claimed,
                *final(map),
                old(self).size as int,
            ),
            rivers > 0 && some_wanted(
                *old(map),
                Some(&old(self).claimed),
                Wanted::RiverSource,
                0,
                old(self).size as int,
            ) ==> river_flowed(old(self).ground(*old(map)), final(self).claimed, *final(map)),
            rivers == 0 ==> *final(map) == *old(map) && final(self).claimed == old(self).claimed,
            exists|lands: Seq<Land>|
                #[trigger] rivers_ran(old(self).heights, old(self).size as int, lands)
                    && lands.len() == rivers + 1 && lands[0] == (Land {
                    claimed: old(self).claimed,
                    map: *old(map),
                }) && lands[rivers as int] == (Land { claimed: final(self).claimed, map: *final(map) }),
    {
        let size: usize = self.size;
        let ghost claimed0 = self.claimed;
        let ghost map0 = *map;
        let ghost ground = self.ground(map0);
        let ghost mut source: (int, int) = (0, 0);
        let ghost mut lands: Seq<Land> = seq![Land { claimed: self.claimed, map: *map }];
        let mut done: usize = 0;
        while done < rivers
            invariant
                lands.len() == done + 1,
                lands[0] == (Land { claimed: claimed0, map: map0 }),
                lands[done as int] == (Land { claimed: self.claimed, map: *map }),
                rivers_ran(self.heights, size as int, lands),
                self.wf(),
                size == self.size == old(self).size,
                self.heights == old(self).heights,
                self.min == old(self).min,
                self.max == old(self).max,
                self.seed == old(self).seed,
                self.with_info == old(self).with_info,
                claimed0 == old(self).claimed,
                map0 == *old(map),
                ground == old(self).ground(map0),
                river_trace(claimed0, map0, self.claimed, *map, size as int),
                done <= rivers,
                done == 0 ==> *map == map0 && self.claimed == claimed0,
                done > 0 && some_wanted(
                    map0,
                    Some(&claimed0),
                    Wanted::RiverSource,
                    0,
                    size as int,
                ) ==> inside(size as int, source.0, source.1) && wanted_at(
                    map0,
                    Some(&claimed0),
                    Wanted::RiverSource,
                    source.0,
                    source.1,
                ) && flowed_from(ground, self.claimed, *map, source),
            decreases rivers - done,
        {
            let ghost claimed1 = self.claimed;
            let ghost map1 = *map;
            match pick_cell(map, Some(&self.claimed), Wanted::RiverSource, 0, size, rng) {
                Some((row, col)) => {
                    self.river_spawn(map, row, col);
                    proof {
                        if done == 0 {
                            source = (row as int, col as int);
                            lemma_carved_has_flowed(ground, self.claimed, *map, source);
                        } else if some_wanted(
                            map0,
                            Some(&claimed0),
                            Wanted::RiverSource,
                            0,
                            size as int,
                        ) {
                            lemma_flowed_stays(
                                ground,
                                claimed1,
                                map1,
                                self.claimed,
                                *map,
                                source,
                            );
                        }
                        lemma_river_trace_chain(
                            claimed0,
                            map0,
                            claimed1,
                            map1,
                            self.claimed,
                            *map,
                            size as int,
                        );
                    }
                },
                None => {},
            }
            proof {
                let before = Land { claimed: claimed1, map: map1 };
                let after = Land { claimed: self.claimed, map: *map };
                let longer = lands.push(after);
                assert(river_ran(self.heights, size as int, before, after));
                assert forall|i: int| 0 <= i < longer.len() - 1 implies #[trigger] river_link(
                    self.heights,
                    size as int,
                    longer,
                    i,
                ) by {
                    if i < done {
                        assert(river_link(self.heights, size as int, lands, i));
                        assert(longer[i] == lands[i] && longer[i + 1] == lands[i + 1]);
                    } else {
                        assert(longer[i] == before && longer[i + 1] == after);
                    }
                }
                lands = longer;
            }
            done += 1;
        }
        proof {
            assert(rivers_ran(self.heights, size as int, lands) && lands.len() == rivers + 1);
            if rivers > 0 && some_wanted(map0, Some(&claimed0), Wanted::RiverSource, 0, size as int) {
                assert(ground.map == map0 && ground.claimed == claimed0 && ground.size == size);
                assert(wanted_at(
                    ground.map,
                    Some(&ground.claimed),
                    Wanted::RiverSource,
                    source.0,
                    source.1,
                ));
                assert(river_flowed(ground, self.claimed, *map));
            }
        }
    }

    /// Carves a number of rivers drawn from `river_n`, as `rivers_carve`
    /// carves them.
    ///
    /// Every cell is left as it was or carved into shallow water and taken.
    /// Where `river_n` holds no count below one and the grid has a source, a
    /// river has flowed from a source as `river_flow` gives, and what it
    /// carved has stayed.
    pub fn rivers_spawn(
        &mut self,
        map: &mut Vec<Vec<Tile>>,
        spawn_levels: &OxAgTileTypeOptions,
        rng: &mut StdRng,
    )
        requires
            old(self).wf(),
            square(*old(map), old(self).size as int),
            spawn_levels.river_n.wf(),
        ensures
            final(self).wf(),
            final(self).heights == old(self).heights,
            final(self).min == old(self).min,
            final(self).max == old(self).max,
            final(self).size == old(self).size,
            final(self).seed == old(self).seed,
            final(self).with_info == old(self).with_info,
            river_trace(
                old(self).claimed,
                *old(map),
                final(self).claimed,
                *final(map),
                old(self).size as int,
            ),
            spawn_levels.river_n.start > 0 && some_wanted(
                *old(map),
                Some(&old(self).claimed),
                Wanted::RiverSource,
                0,
                old(self).size as int,
            ) ==> river_flowed(old(self).ground(*old(map)), final(self).claimed, *final(map)),
            spawn_levels.river_n.end == 0 ==> *final(map) == *old(map) && final(self).claimed
                == old(self).claimed,
            exists|lands: Seq<Land>|
                #[trigger] rivers_ran(old(self).heights, old(self).size as int, lands)
                    && spawn_levels.river_n.contains_spec(lands.len() - 1) && lands[0] == (Land {
                    claimed: old(self).claimed,
                    map: *old(map),
                }) && lands.last() == (Land { claimed: final(self).claimed, map: *final(map) }),
    {
        let rivers: usize = spawn_levels.river_n.draw(rng);
        self.rivers_carve(map, rivers, rng);
    }

    /// Some cell of the grid is a street.
    pub open spec fn has_street(map: Vec<Vec<Tile>>, size: int) -> bool {
        exists|r: int, c: int|
            inside(size, r, c) && (#[trigger] map[r][c]).tile_type == TileType::Street
    }

    /// Lays a number of streets drawn from `street_n`, each from a cell of
    /// hill or grass that is not taken, with a length drawn from
    /// `street_len` and a heading drawn from the four directions. A street
    /// for which there is no such cell is not laid, and where `street_n`
    /// allows no street or `street_len` no length, the grid and its marks
    /// stay as they are.
    pub fn streets_spawn(
        &mut self,
        map: &mut Vec<Vec<Tile>>,
        spawn_levels: &OxAgTileTypeOptions,
        rng: &mut StdRng,
    )
        requires
            old(self).wf(),
            square(*old(map), old(self).size as int),
            spawn_levels.street_n.wf(),
            spawn_levels.street_len.wf(),
        ensures
            final(self).wf(),
            final(self).heights == old(self).heights,
            final(self).min == old(self).min,
            final(self).max == old(self).max,
            final(self).size == old(self).size,
            final(self).seed == old(self).seed,
            final(self).with_info == old(self).with_info,
            street_trace(
                old(self).claimed,
                *old(map),
                final(self).claimed,
                *final(map),
                old(self).size as int,
            ),
            spawn_levels.street_n.start > 0 && spawn_levels.street_len.start > 0 && some_wanted(
                *old(map),
                Some(&old(self).claimed),
                Wanted::StreetStart,
                0,
                old(self).size as int,
            ) ==> Self::has_street(*final(map), old(self).size as int),
            spawn_levels.street_n.end == 0 || spawn_levels.street_len.end == 0 ==> *final(map)
                == *old(map) && final(self).claimed == old(self).claimed,
            exists|lands: Seq<Land>|
                #[trigger] streets_ran(old(self).size as int, spawn_levels.street_len, lands)
                    && spawn_levels.street_n.contains_spec(lands.len() - 1) && lands[0] == (Land {
                    claimed: old(self).claimed,
                    map: *old(map),
                }) && lands.last() == (Land { claimed: final(self).claimed, map: *final(map) }),
    {
        let size: usize = self.size;
        let ghost claimed0 = self.claimed;
        let ghost map0 = *map;
        let ghost mut witness: (int, int) = (0, 0);
        let streets: usize = spawn_levels.street_n.draw(rng);
        let ghost mut lands: Seq<Land> = seq![Land { claimed: self.claimed, map: *map }];
        let mut done: usize = 0;
        while done < streets
            invariant
                lands.len() == done + 1,
                lands[0] == (Land { claimed: claimed0, map: map0 }),
                lands[done as int] == (Land { claimed: self.claimed, map: *map }),
                streets_ran(size as int, spawn_levels.street_len, lands),
                self.wf(),
                size == self.size == old(self).size,
                self.heights == old(self).heights,
                self.min == old(self).min,
                self.max == old(self).max,
                self.seed == old(self).seed,
                self.with_info == old(self).with_info,
                spawn_levels.street_len.wf(),
                street_trace(claimed0, map0, self.claimed, *map, size as int),
                done <= streets,
                streets <= spawn_levels.street_n.end,
                done == 0 || spawn_levels.street_len.end == 0 ==> *map == map0 && self.claimed
                    == claimed0,
                done > 0 && spawn_levels.street_len.start > 0 && some_wanted(
                    map0,
                    Some(&claimed0),
                    Wanted::StreetStart,
                    0,
                    size as int,
                ) ==> inside(size as int, witness.0, witness.1)
                    && map[witness.0][witness.1].tile_type == TileType::Street,
            decreases streets - done,
        {
            let ghost claimed1 = self.claimed;
            let ghost map1 = *map;
            match pick_cell(map, Some(&self.claimed), Wanted::StreetStart, 0, size, rng) {
                Some((row, col)) => {
                    let length: usize = spawn_levels.street_len.draw(rng);
                    let heading = Direction::from_draw(draw_below(rng, 4));
                    self.street_spawn(map, row, col, rng, heading, length);
                    proof {
                        let (path, heads) = choose|path: Seq<(int, int)>, heads: Seq<Direction>|
                            #[trigger] street_laid(
                                claimed1,
                                map1,
                                self.claimed,
                                *map,
                                size as int,
                                (row as int, col as int),
                                heading,
                                length as int,
                                path,
                                heads,
                            );
                        let before = Land { claimed: claimed1, map: map1 };
                        let after = Land { claimed: self.claimed, map: *map };
                        let start = (row as int, col as int);
                        assert(wanted_at(
                            before.map,
                            Some(&before.claimed),
                            Wanted::StreetStart,
                            start.0,
                            start.1,
                        ));
                        assert(some_wanted(
                            before.map,
                            Some(&before.claimed),
                            Wanted::StreetStart,
                            0,
                            size as int,
                        ));
                        assert(spawn_levels.street_len.contains_spec(length as int));
                        assert(street_laid(
                            before.claimed,
                            before.map,
                            after.claimed,
                            after.map,
                            size as int,
                            start,
                            heading,
                            length as int,
                            path,
                            heads,
                        ));
                        assert(street_ran(size as int, spawn_levels.street_len, before, after));
                        if done == 0 {
                            witness = (row as int, col as int);
                            assert(wanted_at(
                                map1,
                                Some(&claimed1),
                                Wanted::StreetStart,
                                row as int,
                                col as int,
                            ));
                        } else {
                            let t = map1[witness.0][witness.1];
                        }
                        lemma_street_trace_chain(
                            claimed0,
                            map0,
                            claimed1,
                            map1,
                            self.claimed,
                            *map,
                            size as int,
                        );
                    }
                },
                None => {},
            }
            proof {
                let before = Land { claimed: claimed1, map: map1 };
                let after = Land { claimed: self.claimed, map: *map };
                let longer = lands.push(after);
                assert(street_ran(size as int, spawn_levels.street_len, before, after));
                assert forall|i: int| 0 <= i < longer.len() - 1 implies #[trigger] street_link(
                    size as int,
                    spawn_levels.street_len,
                    longer,
                    i,
                ) by {
                    if i < done {
                        assert(street_link(size as int, spawn_levels.street_len, lands, i));
                        assert(longer[i] == lands[i] && longer[i + 1] == lands[i + 1]);
                    } else {
                        assert(longer[i] == before && longer[i + 1] == after);
                    }
                }
                lands = longer;
            }
            done += 1;
        }
    }

    /// Turns the field into a grid of tiles: classifies every cell, then
    /// carves the rivers, pours the lava and lays the streets.
    ///
    /// Each tile is what the passes make of the cell. Where the options
    /// allow no river, no shallow water lies outside its band; where they
    /// allow no lake of lava, there is no lava; where they allow no street
    /// or no length of one, there is no street. Where they hold no count of
    /// rivers below one and classification leaves a source, a river has
    /// flowed over the classified grid as `river_flow` gives and lies on
    /// the grid as shallow water. And the grid is made as `made_into`
    /// says: each river, each lake and each street has had its turn on
    /// what the one before left.
    pub fn to_tile_mat(
        self,
        spawn_levels: &OxAgTileTypeOptions,
        multiplier: i64,
        rng: &mut StdRng,
    ) -> (mat: TileMat)
        requires
            self.wf(),
            spawn_levels.counts_wf(),
        ensures
            mat.wf(),
            mat.size == self.size,
            mat.seed == self.seed,
            mat.with_info == self.with_info,
            forall|r: int, c: int|
                inside(self.size as int, r, c) ==> self.landscaped(
                    *spawn_levels,
                    multiplier as int,
                    r,
                    c,
                    #[trigger] mat.map[r][c],
                ),
            content_fits(mat.map),
            spawn_levels.river_n.end == 0 ==> forall|r: int, c: int|
                inside(self.size as int, r, c) && (#[trigger] mat.map[r][c]).tile_type
                    == TileType::ShallowWater ==> self.terrain_spec(*spawn_levels, r, c)
                    == TileType::ShallowWater,
            spawn_levels.lava_n.end == 0 ==> forall|r: int, c: int|
                inside(self.size as int, r, c) ==> (#[trigger] mat.map[r][c]).tile_type
                    != TileType::Lava,
            spawn_levels.street_n.end == 0 || spawn_levels.street_len.end == 0 ==> forall|
                r: int,
                c: int,
            |
                inside(self.size as int, r, c) ==> (#[trigger] mat.map[r][c]).tile_type
                    != TileType::Street,
            exists|first: Vec<Vec<Tile>>| #[trigger]
                self.all_classified(*spawn_levels, multiplier as int, first) && (
                spawn_levels.river_n.start > 0 && some_wanted(
                    first,
                    Some(&self.claimed),
                    Wanted::RiverSource,
                    0,
                    self.size as int,
                ) ==> river_lies(self.ground(first), mat.map)),
            self.made_into(*spawn_levels, multiplier as int, mat.map),
    {
        let mut field = self;
        let size: usize = field.size;
        let mut map: Vec<Vec<Tile>> = field.classify_cells(spawn_levels, multiplier, rng);
        let ghost classified = map;
        let ghost claimed0 = field.claimed;
        field.rivers_spawn(&mut map, spawn_levels, rng);
        let ghost rivered = map;
        let ghost claimed1 = field.claimed;
        let ghost rivers = choose|lands: Seq<Land>|
            #[trigger] rivers_ran(self.heights, size as int, lands)
                && spawn_levels.river_n.contains_spec(lands.len() - 1) && lands[0] == (Land {
                claimed: claimed0,
                map: classified,
            }) && lands.last() == (Land { claimed: claimed1, map: rivered });
        field.lava_spawn(&mut map, spawn_levels, rng);
        let ghost poured = map;
        let ghost lakes = choose|grids: Seq<Vec<Vec<Tile>>>|
            #[trigger] lakes_ran(size as int, spawn_levels.lava_radius, grids)
                && spawn_levels.lava_n.contains_spec(grids.len() - 1) && grids[0] == rivered
                && grids.last() == poured;
        field.streets_spawn(&mut map, spawn_levels, rng);
        let ghost streets = choose|lands: Seq<Land>|
            #[trigger] streets_ran(size as int, spawn_levels.street_len, lands)
                && spawn_levels.street_n.contains_spec(lands.len() - 1) && lands[0] == (Land {
                claimed: claimed1,
                map: poured,
            }) && lands.last() == (Land { claimed: field.claimed, map });
        proof {
            assert(self.all_classified(*spawn_levels, multiplier as int, classified));
            assert(self.passed(*spawn_levels, multiplier as int, rivers, lakes, streets, map));
            assert forall|r: int, c: int| inside(size as int, r, c) implies self.landscaped(
                *spawn_levels,
                multiplier as int,
                r,
                c,
                #[trigger] map[r][c],
            ) by {
                let t0 = classified[r][c];
                let t1 = rivered[r][c];
                let t2 = poured[r][c];
                assert(self.classified(*spawn_levels, multiplier as int, r, c, t0));
                assert(t1 == t0 || carved(t0, t1));
                assert(t2 == t1 || stamped(lava(), t1, t2));
                assert(map[r][c] == t2 || paved(t2, map[r][c]));
            }
            assert forall|r: int, c: int|
                0 <= r < map.len() && 0 <= c < map[r].len() && !((
                #[trigger] map[r][c]).content is Empty) implies map[r][c].tile_type.can_hold_spec(
                map[r][c].content,
            ) by {
                assert(inside(size as int, r, c));
                assert(self.landscaped(*spawn_levels, multiplier as int, r, c, map[r][c]));
                assert(self.in_water_band(*spawn_levels, r, c));
            }
            assert forall|r: int, c: int| inside(size as int, r, c) implies {
                let t = #[trigger] classified[r][c];
                t.tile_type != TileType::Lava && t.tile_type != TileType::Street
            } by {
                assert(self.classified(*spawn_levels, multiplier as int, r, c, classified[r][c]));
                match self.level_spec(r, c) {
                    Some(v) => {
                        lemma_classify_covers(*spawn_levels, v);
                    },
                    None => {},
                }
            }
            if spawn_levels.river_n.end == 0 {
                assert forall|r: int, c: int|
                    inside(size as int, r, c) && (#[trigger] map[r][c]).tile_type
                        == TileType::ShallowWater implies self.terrain_spec(*spawn_levels, r, c)
                    == TileType::ShallowWater by {
                    let t0 = classified[r][c];
                    let t2 = poured[r][c];
                    assert(self.classified(*spawn_levels, multiplier as int, r, c, t0));
                    assert(t2 == t0 || stamped(lava(), t0, t2));
                    assert(map[r][c] == t2 || paved(t2, map[r][c]));
                }
            }
            if spawn_levels.lava_n.end == 0 {
                assert forall|r: int, c: int| inside(size as int, r, c) implies (
                #[trigger] map[r][c]).tile_type != TileType::Lava by {
                    let t0 = classified[r][c];
                    let t1 = rivered[r][c];
                    assert(t1 == t0 || carved(t0, t1));
                    assert(map[r][c] == t1 || paved(t1, map[r][c]));
                }
            }
            if spawn_levels.street_n.end == 0 || spawn_levels.street_len.end == 0 {
                assert forall|r: int, c: int| inside(size as int, r, c) implies (
                #[trigger] map[r][c]).tile_type != TileType::Street by {
                    let t0 = classified[r][c];
                    let t1 = rivered[r][c];
                    assert(t1 == t0 || carved(t0, t1));
                    assert(map[r][c] == t1 || stamped(lava(), t1, map[r][c]));
                }
            }
            assert(self.all_classified(*spawn_levels, multiplier as int, classified));
            if spawn_levels.river_n.start > 0 && some_wanted(
                classified,
                Some(&self.claimed),
                Wanted::RiverSource,
                0,
                size as int,
            ) {
                lemma_lava_keeps_water(rivered, poured, size as int);
                lemma_street_keeps_water(claimed1, poured, field.claimed, map, size as int);
                assert(water_kept(rivered, map)) by {
                    assert forall|r: int, c: int|
                        0 <= r < rivered.len() && 0 <= c < rivered[r].len() && (
                        #[trigger] rivered[r][c]).tile_type.is_water_spec() implies map[r][c].tile_type
                        == rivered[r][c].tile_type by {
                        let t = poured[r][c];
                    }
                }
                lemma_river_stays(self.ground(classified), claimed1, rivered, map);
            }
        }
        TileMat { map, with_info: field.with_info, seed: field.seed, size }
    }
}

} // verus!
