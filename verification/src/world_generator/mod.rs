//! The world generator, its options and its builder.

use vstd::prelude::*;
use rand::rngs::StdRng;
use crate::utils::constants::MAX_WORLD_SIZE;
use crate::utils::random::seeded;
use crate::utils::traits::Validator;
use crate::world::environmental_conditions::EnvironmentalConditions;
use crate::world::tile::{lemma_kind_decides, Content, Tile, TileType};
use crate::world_generator::content_options::{lemma_first_invalid, OxAgContentOptions};
use crate::world_generator::presets::content_presets::OxAgContentPresets;
use crate::world_generator::serial::SavedWorld;
use crate::world_generator::spawning_tools::grid::{content_fits, inside, square};
use crate::world_generator::spawning_tools::matrix_spawn::{lemma_made_alike, HeightMap};
use crate::world_generator::spawning_tools::maze::{
    all_nodes_open, fits_but_jolly, has_jolly, jolly, jolly_bounded, jolly_whole,
    lemma_terrain_decides_maze,
    maze_builder_init, pillars, tree_count, walls_bare,
};
use crate::world_generator::spawning_tools::paths::{connected, framed, lemma_terrain_decides};
use crate::world_generator::spawning_tools::measure::lemma_count_shrinks;
use crate::world_generator::spawning_tools::{
    handed, lemma_spread_fits, placed_kind, placed_on, placing_begun, served, spread,
    spread_only, stepped,
    ContentSpawner, Placing, SpawnStep, TileMat,
};
use crate::world_generator::tile_type_options::{lemma_classify_covers, OxAgTileTypeOptions};
use crate::world_generator::world_generator_builder::{copy_list, OxAgWorldGeneratorBuilder};

pub mod content_options;
pub mod environmental_condition_options;
pub mod presets;
pub mod serial;
pub mod spawning_tools;
pub mod tile_content_spawn_options;
pub mod tile_type_options;
pub mod tile_type_spawn_levels;
pub mod world_generator_builder;

verus! {

/// A generated world: its grid, where a robot starts, its environmental
/// conditions, its score and the score of each content, both in millionths.
#[derive(Debug)]
pub struct World {
    pub map: Vec<Vec<Tile>>,
    pub spawn: (usize, usize),
    pub environmental_conditions: EnvironmentalConditions,
    pub score: i64,
    pub score_map: Option<Vec<(Content, i64)>>,
}

/// A generator of worlds. It comes from an `OxAgWorldGeneratorBuilder`.
#[derive(Debug)]
pub struct OxAgWorldGenerator {
    /// The side of the world.
    pub size: usize,
    /// The seed that fixes every draw.
    pub seed: u64,
    pub tile_type_options: OxAgTileTypeOptions,
    /// The kinds of content to place, in order, each with its options.
    pub content_options: Vec<(Content, OxAgContentOptions)>,
    pub environmental_conditions: EnvironmentalConditions,
    /// What the level above minus one is scaled by to give an elevation, in
    /// millionths.
    pub height_multiplier: i64,
    /// In millionths.
    pub score: i64,
    /// Whether progress is to be reported.
    pub with_info: bool,
    /// Whether the world is a maze.
    pub maze: bool,
    pub score_map: Option<Vec<(Content, i64)>>,
    /// A world kept from before, which the generator hands out in place of
    /// a new one.
    pub map_save: Option<SavedWorld>,
}

/// Where the making of a world stands.
pub enum Stage {
    /// It waits for the field of heights of the world.
    Heights,
    /// The terrain is made and contents are being placed.
    Contents(ContentSpawner),
    /// The world is made: its grid and its start.
    Finished(TileMat, (usize, usize)),
    /// The world is one kept from before.
    Cached,
    /// The generator cannot make a world.
    Failed,
}

/// The making of one world, step by step. Each step either asks for a field
/// of heights, which only the caller can make, or ends the making.
pub struct Generation {
    pub seed: u64,
    /// The side of the world: that of the generator, or one more for a maze
    /// of an even side.
    pub size: usize,
    pub maze: bool,
    pub with_info: bool,
    pub tile_type_options: OxAgTileTypeOptions,
    pub height_multiplier: i64,
    pub content_options: Vec<(Content, OxAgContentOptions)>,
    pub rng: StdRng,
    pub stage: Stage,
    pub environmental_conditions: EnvironmentalConditions,
    pub score: i64,
    pub score_map: Option<Vec<(Content, i64)>>,
    pub saved: Option<SavedWorld>,
    /// The heights that the terrain was made from, once it is made.
    pub given: Ghost<HeightMap>,
    /// The grid as it was when the terrain was made and no content placed.
    pub made: Ghost<Vec<Vec<Tile>>>,
}

/// What the making of a world does next.
#[derive(Clone, Copy, Debug, PartialEq, Eq, Structural)]
pub enum GenerationStep {
    /// It waits for a square field of heights of side `size`: fractal
    /// Brownian motion over Perlin noise made from `seed`, with 12 octaves,
    /// a frequency of 2.5, a lacunarity of 2 and a persistence of 0.6,
    /// sampled at `(column / size, row / size)`.
    NeedField { seed: u32, size: usize },
    /// The world is made, or cannot be made.
    Done,
}

/// The two grids have the same tiles.
pub open spec fn same_grid(a: Vec<Vec<Tile>>, b: Vec<Vec<Tile>>) -> bool {
    &&& a.len() == b.len()
    &&& forall|r: int| 0 <= r < a.len() ==> (#[trigger] a[r])@ == b[r]@
}

/// The two score maps are both absent or hold the same scores.
pub open spec fn same_scores(a: Option<Vec<(Content, i64)>>, b: Option<Vec<(Content, i64)>>) -> bool {
    match (a, b) {
        (Some(x), Some(y)) => x@ == y@,
        (None, None) => true,
        _ => false,
    }
}

/// The two hold the same weather, ticks and start hour.
pub open spec fn same_conditions(a: EnvironmentalConditions, b: EnvironmentalConditions) -> bool {
    a.weather() == b.weather() && a.ticks() == b.ticks() && a.hour() == b.hour()
}

/// No cell of the grid is a wall or a teleport: each has one of the terrains
/// that heights, rivers, lava and streets give.
pub open spec fn all_land(map: Vec<Vec<Tile>>, size: int) -> bool {
    forall|r: int, c: int|
        inside(size, r, c) ==> (#[trigger] map[r][c]).tile_type != TileType::Wall && !(
        map[r][c].tile_type is Teleport)
}

/// What holds of the grid of a world of side `size`. Of a maze: the cells
/// that are not walls hang together; the frame and the cells in an even
/// row and column are walls; the cells off the frame in an odd row and
/// column are not, and one fewer cells link them than there are of them,
/// so that the corridors form a tree that spans them; every content but a
/// jolly block lies on a terrain that can hold it, and no wall carries a
/// content. Of any other world: every cell has a terrain, and
/// every content lies on a terrain that can hold it.
pub open spec fn grid_ok(maze: bool, map: Vec<Vec<Tile>>, size: int) -> bool {
    &&& square(map, size)
    &&& if maze {
        &&& connected(map, size)
        &&& framed(map, size)
        &&& pillars(map, size)
        &&& all_nodes_open(map, size)
        &&& tree_count(map, size)
        &&& fits_but_jolly(map)
        &&& walls_bare(map, size)
    } else {
        all_land(map, size) && content_fits(map)
    }
}

/// The terrain of the grid comes from the heights of `field`. In a maze,
/// each cell is a wall or has the terrain of its height, taken as a level.
/// In any other world, each cell has the terrain of its level, relative to
/// the extremes of the field, unless it has become shallow water, lava or
/// a street, which water never does, and which no cell does where the
/// options allow no river, no lake of lava or no street.
pub open spec fn terrain_from(
    maze: bool,
    options: OxAgTileTypeOptions,
    field: HeightMap,
    map: Vec<Vec<Tile>>,
    size: int,
) -> bool {
    forall|r: int, c: int|
        inside(size, r, c) ==> if maze {
            (#[trigger] map[r][c]).tile_type == TileType::Wall || map[r][c].tile_type
                == options.classify_spec(field.heights[r][c] as int)
        } else {
            field.shaped(options, r, c, map[r][c].tile_type) && field.spared(
                options,
                r,
                c,
                map[r][c].tile_type,
            )
        }
}

/// Where the options allow no river, no lake of lava and no street, the
/// terrain of a world that is no maze is decided by its heights: two grids
/// whose terrain comes from one field have the same terrain in every cell,
/// that of the level of the cell.
pub proof fn lemma_plain_terrain_is_decided(
    options: OxAgTileTypeOptions,
    field: HeightMap,
    a: Vec<Vec<Tile>>,
    b: Vec<Vec<Tile>>,
    size: int,
)
    requires
        terrain_from(false, options, field, a, size),
        terrain_from(false, options, field, b, size),
        options.river_n.end == 0,
        options.lava_n.end == 0,
        options.street_n.end == 0 || options.street_len.end == 0,
    ensures
        forall|r: int, c: int|
            inside(size, r, c) ==> (#[trigger] a[r][c]).tile_type == field.terrain_spec(
                options,
                r,
                c,
            ) && b[r][c].tile_type == a[r][c].tile_type,
{
    assert forall|r: int, c: int| inside(size, r, c) implies (#[trigger] a[r][c]).tile_type
        == field.terrain_spec(options, r, c) && b[r][c].tile_type == a[r][c].tile_type by {
        assert(field.shaped(options, r, c, a[r][c].tile_type));
        assert(field.spared(options, r, c, a[r][c].tile_type));
        assert(field.shaped(options, r, c, b[r][c].tile_type));
        assert(field.spared(options, r, c, b[r][c].tile_type));
    }
}

/// Placing contents leaves the terrain as the heights made it.
pub proof fn lemma_spread_keeps_terrain(
    maze: bool,
    options: OxAgTileTypeOptions,
    field: HeightMap,
    kinds: Seq<(Content, OxAgContentOptions)>,
    before: Vec<Vec<Tile>>,
    now: Vec<Vec<Tile>>,
    size: int,
)
    requires
        spread_only(kinds, before, now, size),
        terrain_from(maze, options, field, before, size),
    ensures
        terrain_from(maze, options, field, now, size),
{
    assert forall|r: int, c: int| inside(size, r, c) implies if maze {
        (#[trigger] now[r][c]).tile_type == TileType::Wall || now[r][c].tile_type
            == options.classify_spec(field.heights[r][c] as int)
    } else {
        field.shaped(options, r, c, now[r][c].tile_type) && field.spared(
            options,
            r,
            c,
            now[r][c].tile_type,
        )
    } by {
        assert(spread(kinds, before[r][c], now[r][c]));
    }
}

/// A copy of `grid`.
pub fn copy_grid(grid: &Vec<Vec<Tile>>) -> (r: Vec<Vec<Tile>>)
    ensures
        same_grid(r, *grid),
{
    let mut copy: Vec<Vec<Tile>> = Vec::new();
    let mut k: usize = 0;
    while k < grid.len()
        invariant
            k <= grid.len(),
            copy.len() == k,
            forall|r: int| 0 <= r < k ==> (#[trigger] copy[r])@ == grid[r]@,
        decreases grid.len() - k,
    {
        copy.push(copy_list(&grid[k]));
        k += 1;
    }
    copy
}

/// A copy of `scores`.
pub fn copy_scores(scores: &Option<Vec<(Content, i64)>>) -> (r: Option<Vec<(Content, i64)>>)
    ensures
        same_scores(r, *scores),
{
    match scores {
        Some(list) => Some(copy_list(list)),
        None => None,
    }
}

/// Placing contents keeps what holds of the grid of a world.
pub proof fn lemma_spread_keeps_grid(
    maze: bool,
    kinds: Seq<(Content, OxAgContentOptions)>,
    before: Vec<Vec<Tile>>,
    now: Vec<Vec<Tile>>,
    size: int,
)
    requires
        spread_only(kinds, before, now, size),
        grid_ok(maze, before, size),
    ensures
        grid_ok(maze, now, size),
{
    lemma_spread_fits(kinds, before, now, size);
    if maze {
        lemma_terrain_decides(before, now, size);
        lemma_terrain_decides_maze(before, now, size);
        assert forall|r: int, c: int|
            0 <= r < now.len() && 0 <= c < now[r].len() && !((#[trigger] now[r][c]).content is Empty)
                && !(now[r][c].content is JollyBlock) implies now[r][c].tile_type.can_hold_spec(
            now[r][c].content,
        ) by {
            assert(inside(size, r, c));
            let b = before[r][c];
            let n = now[r][c];
            assert(spread(kinds, b, n));
            if n != b {
                let k = choose|k: int|
                    0 <= k < kinds.len() && b.tile_type.can_hold_spec((#[trigger] kinds[k]).0)
                        && n.content.placed_as(kinds[k].0.to_default_spec());
                lemma_kind_decides(n.content, kinds[k].0, b.tile_type);
            }
        }
        assert forall|r: int, c: int|
            inside(size, r, c) && (#[trigger] now[r][c]).tile_type
                == TileType::Wall implies now[r][c].content is Empty by {
            assert(spread(kinds, before[r][c], now[r][c]));
        }
    } else {
        assert forall|r: int, c: int| inside(size, r, c) implies (#[trigger] now[r][c]).tile_type
            != TileType::Wall && !(now[r][c].tile_type is Teleport) by {
            assert(before[r][c].tile_type == now[r][c].tile_type);
        }
    }
}

/// No kind of `kinds` that is present with a share is the jolly block.
pub open spec fn no_jolly_kind(kinds: Seq<(Content, OxAgContentOptions)>) -> bool {
    forall|k: int|
        0 <= k < kinds.len() && placed_kind(#[trigger] kinds[k]) ==> !(kinds[k].0 is JollyBlock)
}

/// The grid of a maze whose contents hold no jolly block carries no more
/// jolly blocks than the maze was given: a tenth of its side, and one for
/// the goal. Each of them is one block.
pub open spec fn jolly_ok(
    maze: bool,
    kinds: Seq<(Content, OxAgContentOptions)>,
    map: Vec<Vec<Tile>>,
    size: int,
) -> bool {
    maze && no_jolly_kind(kinds) ==> jolly_bounded(map, size) && jolly_whole(map, size)
}

/// No list of a preset holds the jolly block, so that a maze with the
/// contents of a preset carries no more jolly blocks than it was given.
pub proof fn lemma_presets_hold_no_jolly(preset: OxAgContentPresets)
    ensures
        no_jolly_kind(preset.list()),
{
    let list = preset.list();
    assert forall|k: int| 0 <= k < list.len() && placed_kind(#[trigger] list[k]) implies !(
    list[k].0 is JollyBlock) by {}
}

/// Placing contents that hold no jolly block adds no jolly block.
pub proof fn lemma_spread_keeps_jolly(
    maze: bool,
    kinds: Seq<(Content, OxAgContentOptions)>,
    before: Vec<Vec<Tile>>,
    now: Vec<Vec<Tile>>,
    size: int,
)
    requires
        spread_only(kinds, before, now, size),
        jolly_ok(maze, kinds, before, size),
        0 <= size,
    ensures
        jolly_ok(maze, kinds, now, size),
{
    if maze && no_jolly_kind(kinds) {
        assert forall|r: int, c: int| inside(size, r, c) && jolly()(#[trigger] now[r][c]) implies jolly()(
            before[r][c],
        ) by {
            let b = before[r][c];
            let n = now[r][c];
            assert(spread(kinds, b, n));
            if n != b {
                let k = choose|k: int|
                    0 <= k < kinds.len() && b.tile_type.can_hold_spec((#[trigger] kinds[k]).0)
                        && n.content.placed_as(kinds[k].0.to_default_spec()) && placed_kind(
                        kinds[k],
                    );
                lemma_kind_decides(n.content, kinds[k].0, b.tile_type);
            }
        }
        lemma_count_shrinks(before, now, size, jolly());
        assert forall|r: int, c: int|
            inside(size, r, c) && (#[trigger] now[r][c]).content is JollyBlock implies now[r][c].content
            == Content::JollyBlock(1) by {
            let b = before[r][c];
            let n = now[r][c];
            assert(spread(kinds, b, n));
            if n != b {
                let k = choose|k: int|
                    0 <= k < kinds.len() && b.tile_type.can_hold_spec((#[trigger] kinds[k]).0)
                        && n.content.placed_as(kinds[k].0.to_default_spec()) && placed_kind(
                        kinds[k],
                    );
                lemma_kind_decides(n.content, kinds[k].0, b.tile_type);
            }
        }
    }
}

/// The grid of a world before any content is placed: a maze carved from
/// the heights, with its goal, or the land that the passes make of them.
fn make_grid(
    seed: u64,
    size: usize,
    maze: bool,
    with_info: bool,
    options: &OxAgTileTypeOptions,
    multiplier: i64,
    heights: HeightMap,
    rng: &mut StdRng,
) -> (mat: TileMat)
    requires
        heights.wf(),
        heights.size == size,
        maze ==> size >= 5 && size % 2 == 1,
        options.counts_wf(),
    ensures
        mat.wf(),
        mat.size == size,
        mat.seed == seed,
        grid_ok(maze, mat.map, size as int),
        terrain_from(maze, *options, heights, mat.map, size as int),
        maze ==> has_jolly(mat.map, size as int) && jolly_bounded(mat.map, size as int)
            && jolly_whole(mat.map, size as int),
        !maze ==> heights.made_into(*options, multiplier as int, mat.map),
{
    let ghost given = heights;
    let mut heights = heights;
    heights.seed = seed;
    heights.with_info = with_info;
    proof {
        given.lemma_marks_keep_wf(heights);
    }
    if maze {
        let builder = maze_builder_init(seed, size, heights);
        builder.builder(options, rng)
    } else {
        let ghost origin = heights;
        let mat = heights.to_tile_mat(options, multiplier, rng);
        proof {
            assert forall|r: int, c: int| inside(size as int, r, c) implies (
            #[trigger] mat.map[r][c]).tile_type != TileType::Wall && !(
            mat.map[r][c].tile_type is Teleport) by {
                assert(origin.landscaped(*options, multiplier as int, r, c, mat.map[r][c]));
                match origin.level_spec(r, c) {
                    Some(v) => {
                        lemma_classify_covers(*options, v);
                    },
                    None => {},
                }
            }
            lemma_made_alike(origin, given, *options, multiplier as int, mat.map);
            assert(terrain_from(false, *options, given, mat.map, size as int));
        }
        mat
    }
}

impl OxAgWorldGenerator {
    /// A builder with nothing set.
    pub fn builder() -> (b: OxAgWorldGeneratorBuilder)
        ensures
            b.size is None,
            b.seed is None,
            b.tile_type_options is None,
            b.content_options is None,
            b.environmental_conditions is None,
            b.height_multiplier is None,
            b.score is None,
            b.maze is None,
            b.with_info is None,
            b.score_map is None,
    {
        OxAgWorldGeneratorBuilder::new()
    }

    pub fn get_size(&self) -> (r: usize)
        ensures
            r == self.size,
    {
        self.size
    }

    /// The score, in millionths.
    pub fn get_score(&self) -> (r: i64)
        ensures
            r == self.score,
    {
        self.score
    }

    pub fn get_maze(&self) -> (r: bool)
        ensures
            r == self.maze,
    {
        self.maze
    }

    pub fn get_with_info(&self) -> (r: bool)
        ensures
            r == self.with_info,
    {
        self.with_info
    }

    pub fn get_seed(&self) -> (r: u64)
        ensures
            r == self.seed,
    {
        self.seed
    }

    pub fn get_tile_type_options(&self) -> (r: &OxAgTileTypeOptions)
        ensures
            *r == self.tile_type_options,
    {
        &self.tile_type_options
    }

    pub fn get_content_options(&self) -> (r: &Vec<(Content, OxAgContentOptions)>)
        ensures
            *r == self.content_options,
    {
        &self.content_options
    }

    pub fn get_environmental_conditions(&self) -> (r: &EnvironmentalConditions)
        ensures
            *r == self.environmental_conditions,
    {
        &self.environmental_conditions
    }

    pub fn get_score_map(&self) -> (r: &Option<Vec<(Content, i64)>>)
        ensures
            *r == self.score_map,
    {
        &self.score_map
    }

    /// The side of the world that the generator makes: its size, or one
    /// more where a maze is asked for and the size is even.
    pub open spec fn world_size(self) -> int {
        if self.maze && self.size % 2 == 0 {
            self.size + 1
        } else {
            self.size as int
        }
    }

    /// The generator can make a world: the side is at least 1, for a maze
    /// at least 5, and no larger than a world may be; counts can be drawn;
    /// the content options are valid.
    pub open spec fn usable(self) -> bool {
        &&& 1 <= self.world_size() <= MAX_WORLD_SIZE
        &&& self.maze ==> self.size >= 5
        &&& self.tile_type_options.counts_wf()
        &&& self.content_options.validation() is Ok
    }

    /// Begins the making of a world. A generator that holds a kept world
    /// hands that out; one that cannot make a world fails; any other waits
    /// for the heights of the world.
    pub fn start(&self) -> (run: Generation)
        ensures
            run.wf(),
            run.seed == self.seed,
            run.size == self.world_size() || !(run.stage is Heights),
            run.maze == self.maze,
            run.with_info == self.with_info,
            run.tile_type_options == self.tile_type_options,
            run.height_multiplier == self.height_multiplier,
            run.content_options@ == self.content_options@,
            same_conditions(run.environmental_conditions, self.environmental_conditions),
            run.score == self.score,
            same_scores(run.score_map, self.score_map),
            self.map_save matches Some(kept) ==> run.stage is Cached && run.saved is Some
                && run.saved.unwrap().same(kept),
            self.map_save is None && self.usable() ==> run.stage is Heights,
            self.map_save is None && !self.usable() ==> run.stage is Failed,
    {
        let saved = match &self.map_save {
            Some(kept) => Some(
                SavedWorld {
                    map: copy_grid(&kept.map),
                    spawn: kept.spawn,
                    score: kept.score,
                    score_map: copy_scores(&kept.score_map),
                },
            ),
            None => None,
        };
        let even: bool = self.size % 2 == 0;
        let size: usize = if self.maze && even && self.size <= MAX_WORLD_SIZE {
            self.size + 1
        } else {
            self.size
        };
        let valid: bool = self.content_options.validate().is_ok();
        let stage = if saved.is_some() {
            Stage::Cached
        } else if size == 0 || size > MAX_WORLD_SIZE || (self.maze && self.size < 5)
            || self.tile_type_options.river_n.is_empty()
            || self.tile_type_options.street_n.is_empty()
            || self.tile_type_options.street_len.is_empty()
            || self.tile_type_options.lava_n.is_empty()
            || self.tile_type_options.lava_radius.is_empty() || !valid {
            Stage::Failed
        } else {
            proof {
                lemma_first_invalid(self.content_options@, 0);
            }
            Stage::Heights
        };
        let content_options = copy_list(&self.content_options);
        Generation {
            seed: self.seed,
            size,
            maze: self.maze,
            with_info: self.with_info,
            tile_type_options: self.tile_type_options,
            height_multiplier: self.height_multiplier,
            content_options,
            rng: seeded(self.seed),
            stage,
            environmental_conditions: self.environmental_conditions.duplicate(),
            score: self.score,
            score_map: copy_scores(&self.score_map),
            saved,
            given: Ghost(vstd::pervasive::arbitrary()),
            made: Ghost(vstd::pervasive::arbitrary()),
        }
    }
}

impl Generation {
    /// What the making rests on while it is under way.
    pub open spec fn config_ok(self) -> bool {
        &&& 1 <= self.size <= MAX_WORLD_SIZE
        &&& self.maze ==> self.size >= 5 && self.size % 2 == 1
        &&& self.tile_type_options.counts_wf()
        &&& forall|k: int|
            0 <= k < self.content_options.len() ==> (#[trigger] self.content_options[k]).1.valid()
    }

    /// What holds of the making at every stage: while it waits for heights,
    /// that it can make a world; while contents are placed and once the
    /// world is made, what holds of the grid of a world, that its terrain
    /// comes from the heights given, that the grid before the placing was
    /// made as `made_ok` says, and that since then contents were placed
    /// and nothing else was done; of a world kept from before, that there
    /// is one.
    pub open spec fn wf(self) -> bool {
        match self.stage {
            Stage::Heights => self.config_ok(),
            Stage::Contents(spawner) => {
                &&& self.config_ok()
                &&& spawner.wf()
                &&& spawner.spawn is None
                &&& spawner.mat.size == self.size
                &&& spawner.mat.seed == self.seed
                &&& spawner.content_options@ == self.content_options@
                &&& spawner.origin@ == self.made@
                &&& self.made_ok()
                &&& grid_ok(self.maze, spawner.mat.map, self.size as int)
                &&& jolly_ok(
                    self.maze,
                    self.content_options@,
                    spawner.mat.map,
                    self.size as int,
                )
                &&& terrain_from(
                    self.maze,
                    self.tile_type_options,
                    self.given@,
                    spawner.mat.map,
                    self.size as int,
                )
            },
            Stage::Finished(mat, at) => {
                &&& mat.wf()
                &&& mat.size == self.size
                &&& self.made_ok()
                &&& spread_only(self.content_options@, self.made@, mat.map, self.size as int)
                &&& served(
                    self.content_options@,
                    0,
                    self.content_options.len() as int,
                    self.made@,
                    mat.map,
                    self.size as int,
                )
                &&& grid_ok(self.maze, mat.map, self.size as int)
                &&& jolly_ok(self.maze, self.content_options@, mat.map, self.size as int)
                &&& terrain_from(
                    self.maze,
                    self.tile_type_options,
                    self.given@,
                    mat.map,
                    self.size as int,
                )
                &&& at.0 < self.size && at.1 < self.size
                &&& mat.has_walkable() ==> mat.map[at.0 as int][at.1 as int].tile_type.walk_spec()
            },
            Stage::Cached => self.saved is Some,
            Stage::Failed => true,
        }
    }

    /// The grid on which the contents were placed is, in a maze, a maze
    /// carved from the heights given, with its goal and with no more jolly
    /// blocks than a maze gets, and in any other world what the passes
    /// over the land make of the heights given.
    pub open spec fn made_ok(self) -> bool {
        if self.maze {
            &&& grid_ok(true, self.made@, self.size as int)
            &&& terrain_from(true, self.tile_type_options, self.given@, self.made@, self.size as int)
            &&& has_jolly(self.made@, self.size as int)
            &&& jolly_bounded(self.made@, self.size as int)
            &&& jolly_whole(self.made@, self.size as int)
        } else {
            self.given@.made_into(
                self.tile_type_options,
                self.height_multiplier as int,
                self.made@,
            )
        }
    }

    /// The making is over: a world is made, is handed out from before, or
    /// cannot be made.
    pub open spec fn is_over(self) -> bool {
        self.stage is Finished || self.stage is Cached || self.stage is Failed
    }

    /// `other` differs from this making in nothing but its stage and the
    /// state of its draws.
    pub open spec fn same_order(self, other: Generation) -> bool {
        &&& other.seed == self.seed
        &&& other.size == self.size
        &&& other.maze == self.maze
        &&& other.with_info == self.with_info
        &&& other.tile_type_options == self.tile_type_options
        &&& other.height_multiplier == self.height_multiplier
        &&& other.content_options == self.content_options
        &&& other.environmental_conditions == self.environmental_conditions
        &&& other.score == self.score
        &&& other.score_map == self.score_map
        &&& other.saved == self.saved
        &&& (self.stage is Heights || other.given@ == self.given@)
        &&& (self.stage is Heights || other.made@ == self.made@)
    }

    /// The placing of the contents has come to the state `state`: that of
    /// the placing while it goes on; and once the world is made, a state
    /// with the grid of the world, every entry taken up and the start
    /// chosen.
    pub open spec fn shows(self, state: Placing) -> bool {
        match self.stage {
            Stage::Contents(spawner) => spawner.state() == state,
            Stage::Finished(mat, at) => state.map == mat.map && state.next
                == self.content_options.len() && state.spawn == Some(at) && state.pending is None,
            _ => false,
        }
    }

    /// How many entries of the content options have been taken up.
    pub open spec fn taken(self) -> int {
        match self.stage {
            Stage::Contents(spawner) => spawner.next as int,
            Stage::Finished(_, _) => self.content_options.len() as int,
            _ => 0,
        }
    }

    /// The grid of the making, while contents are placed and once the world
    /// is made.
    pub open spec fn grid(self) -> Option<Vec<Vec<Tile>>> {
        match self.stage {
            Stage::Contents(spawner) => Some(spawner.mat.map),
            Stage::Finished(mat, _) => Some(mat.map),
            _ => None,
        }
    }

    /// Takes the making one step on, with the field that the step before
    /// asked for.
    ///
    /// While it waits for the heights of the world, a step without a field
    /// asks for them, and a step with a field of another side than the
    /// world's ends the making in failure. With the heights, a maze is
    /// carved from them, and any other world is classified from them and
    /// given its rivers, lava and streets; then the contents are placed,
    /// from one request for a batch's field to the next. Once the making
    /// is over, a step changes nothing.
    ///
    /// A step with heights of the world's side leads to the placing of the
    /// contents or to the finished world. A step of the placing does
    /// nothing to the grid but place contents of the kinds that are present
    /// and have a share; it leads to the finished world or to a request for
    /// a field of twice the radius of the batch in hand, and then a further
    /// kind is taken up or fewer batches of the kind in hand are left, so
    /// that the making comes to its end.
    #[verifier::rlimit(30)]
    pub fn step(self, field: Option<HeightMap>) -> (r: (Generation, GenerationStep))
        requires
            self.wf(),
            field matches Some(f) ==> f.wf(),
        ensures
            r.0.wf(),
            self.same_order(r.0),
            r.1 is Done <==> r.0.is_over(),
            self.is_over() ==> r.0.stage == self.stage,
            self.stage is Heights && field is None ==> r.0.stage is Heights && r.1 == (
            GenerationStep::NeedField {
                seed: (self.seed & 0xffff_ffff) as u32,
                size: self.size,
            }),
            self.stage is Heights && field is Some ==> (r.0.stage is Failed <==> field.unwrap().size
                != self.size),
            self.stage is Heights && field is Some && !(r.0.stage is Failed) ==> r.0.given@
                == field.unwrap(),
            !(self.stage is Failed) && !(self.stage is Heights) ==> !(r.0.stage is Failed),
            self.stage is Heights && field is Some && field.unwrap().size == self.size ==> (
            r.0.stage is Contents || r.0.stage is Finished),
            self.stage is Contents ==> r.0.stage is Finished || (r.0.stage is Contents && (
            r.0.stage->Contents_0.next > self.stage->Contents_0.next || (
            r.0.stage->Contents_0.next == self.stage->Contents_0.next
                && r.0.stage->Contents_0.batches_left < self.stage->Contents_0.batches_left))),
            r.0.stage is Contents ==> r.1 is NeedField && r.1->size == 2
                * r.0.stage->Contents_0.batch_radius,
            self.stage is Contents ==> r.0.grid() is Some && placed_on(
                self.content_options@,
                self.taken(),
                r.0.taken(),
                self.stage->Contents_0.pending,
                self.stage->Contents_0.batch_kind,
                self.stage->Contents_0.batch_radius as int,
                field,
                self.grid().unwrap(),
                r.0.grid().unwrap(),
                self.size as int,
            ),
            self.stage is Contents ==> exists|state: Placing|
                #[trigger] stepped(
                    self.content_options@,
                    self.size as int,
                    field,
                    self.stage->Contents_0.state(),
                    state,
                ) && r.0.shows(state),
            self.stage is Heights && field is Some && field.unwrap().size == self.size ==> exists|
                state: Placing,
            |
                #[trigger] stepped(
                    self.content_options@,
                    self.size as int,
                    None,
                    placing_begun(r.0.made@),
                    state,
                ) && r.0.shows(state),
            self.stage is Heights && field is Some && field.unwrap().size == self.size ==> {
                &&& r.0.grid() is Some
                &&& r.0.made_ok()
                &&& spread_only(
                    self.content_options@,
                    r.0.made@,
                    r.0.grid().unwrap(),
                    self.size as int,
                )
                &&& served(
                    self.content_options@,
                    0,
                    r.0.taken(),
                    r.0.made@,
                    r.0.grid().unwrap(),
                    self.size as int,
                )
            },
    {
        let Generation {
            seed,
            size,
            maze,
            with_info,
            tile_type_options,
            height_multiplier,
            content_options,
            rng,
            stage,
            environmental_conditions,
            score,
            score_map,
            saved,
            given,
            made,
        } = self;
        let mut rng = rng;
        let ghost mut given = given@;
        let ghost mut made = made@;
        let mut action = GenerationStep::Done;
        let next: Stage = match stage {
            Stage::Heights => match field {
                None => {
                    let low: u64 = seed & 0xffff_ffff;
                    assert(low <= 0xffff_ffff) by (bit_vector)
                        requires
                            low == seed & 0xffff_ffff,
                    ;
                    action = GenerationStep::NeedField { seed: low as u32, size };
                    Stage::Heights
                },
                Some(heights) => {
                    if heights.size != size {
                        Stage::Failed
                    } else {
                        proof {
                            given = heights;
                        }
                        let mat: TileMat = make_grid(
                            seed,
                            size,
                            maze,
                            with_info,
                            &tile_type_options,
                            height_multiplier,
                            heights,
                            &mut rng,
                        );
                        proof {
                            made = mat.map;
                        }
                        assert(terrain_from(maze, tile_type_options, given, made, size as int));
                        let mut spawner = mat.spawn_contents(&content_options);
                        let ghost began = spawner.state();
                        let first = spawner.step(None, &mut rng);
                        let ghost ended = spawner.state();
                        proof {
                            assert(began == placing_begun(made));
                            assert(handed(None) == None::<HeightMap>);
                            assert(stepped(
                                content_options@,
                                size as int,
                                None,
                                placing_begun(made),
                                ended,
                            ));
                            lemma_spread_keeps_terrain(
                                maze,
                                tile_type_options,
                                given,
                                content_options@,
                                made,
                                spawner.mat.map,
                                size as int,
                            );
                            lemma_spread_keeps_grid(
                                maze,
                                content_options@,
                                made,
                                spawner.mat.map,
                                size as int,
                            );
                            lemma_spread_keeps_jolly(
                                maze,
                                content_options@,
                                made,
                                spawner.mat.map,
                                size as int,
                            );
                        }
                        match first {
                            SpawnStep::NeedField { seed: s, size: d } => {
                                action = GenerationStep::NeedField { seed: s, size: d };
                                Stage::Contents(spawner)
                            },
                            SpawnStep::Done => {
                                let (mat, at) = spawner.finish();
                                assert(ended.map == mat.map && ended.spawn == Some(at) && ended.next
                                    == content_options.len() && ended.pending is None);
                                Stage::Finished(mat, at)
                            },
                        }
                    }
                },
            },
            Stage::Contents(spawner) => {
                let mut spawner = spawner;
                let ghost before = spawner.mat.map;
                let ghost began = spawner;
                let step = match &field {
                    Some(f) => spawner.step(Some(f), &mut rng),
                    None => spawner.step(None, &mut rng),
                };
                proof {
                    let lent = match field {
                        Some(f) => handed(Some(&f)),
                        None => handed(None),
                    };
                    assert(lent == field);
                    assert(stepped(
                        content_options@,
                        size as int,
                        field,
                        began.state(),
                        spawner.state(),
                    ));
                    assert(placed_on(
                        content_options@,
                        began.next as int,
                        spawner.next as int,
                        began.pending,
                        began.batch_kind,
                        began.batch_radius as int,
                        field,
                        before,
                        spawner.mat.map,
                        size as int,
                    ));
                    lemma_spread_keeps_terrain(
                        maze,
                        tile_type_options,
                        given,
                        content_options@,
                        before,
                        spawner.mat.map,
                        size as int,
                    );
                    lemma_spread_keeps_grid(
                        maze,
                        content_options@,
                        before,
                        spawner.mat.map,
                        size as int,
                    );
                    lemma_spread_keeps_jolly(
                        maze,
                        content_options@,
                        before,
                        spawner.mat.map,
                        size as int,
                    );
                }
                let ghost ended = spawner.state();
                match step {
                    SpawnStep::NeedField { seed: s, size: d } => {
                        action = GenerationStep::NeedField { seed: s, size: d };
                        Stage::Contents(spawner)
                    },
                    SpawnStep::Done => {
                        let (mat, at) = spawner.finish();
                        assert(ended.map == mat.map && ended.spawn == Some(at) && ended.next
                            == content_options.len() && ended.pending is None);
                        Stage::Finished(mat, at)
                    },
                }
            },
            Stage::Finished(mat, at) => Stage::Finished(mat, at),
            Stage::Cached => Stage::Cached,
            Stage::Failed => Stage::Failed,
        };
        (
            Generation {
                seed,
                size,
                maze,
                with_info,
                tile_type_options,
                height_multiplier,
                content_options,
                rng,
                stage: next,
                environmental_conditions,
                score,
                score_map,
                saved,
                given: Ghost(given),
                made: Ghost(made),
            },
            action,
        )
    }

    /// The world, once the making is over: the one made, or the one kept
    /// from before; `None` where none could be made or the making is still
    /// under way.
    ///
    /// Of a world that was made, its grid is a square of the side of the
    /// making for which `grid_ok` and `jolly_ok` hold. Its terrain comes
    /// from the heights that were given. Nothing has happened to the grid
    /// that the terrain passes or the maze left but that contents were
    /// placed, and each kind that the options demand was placed on it.
    /// Its start lies on the grid, on a cell that a robot can stand on if
    /// the grid has one.
    pub fn finish(self) -> (world: Option<World>)
        requires
            self.wf(),
        ensures
            world is Some <==> self.stage is Finished || self.stage is Cached,
            world matches Some(w) ==> {
                &&& w.environmental_conditions == self.environmental_conditions
                &&& match self.stage {
                    Stage::Finished(mat, at) => {
                        &&& w.map == mat.map
                        &&& w.spawn == at
                        &&& w.score == self.score
                        &&& w.score_map == self.score_map
                        &&& grid_ok(self.maze, w.map, self.size as int)
                        &&& jolly_ok(self.maze, self.content_options@, w.map, self.size as int)
                        &&& self.made_ok()
                        &&& spread_only(
                            self.content_options@,
                            self.made@,
                            w.map,
                            self.size as int,
                        )
                        &&& served(
                            self.content_options@,
                            0,
                            self.content_options.len() as int,
                            self.made@,
                            w.map,
                            self.size as int,
                        )
                        &&& terrain_from(
                            self.maze,
                            self.tile_type_options,
                            self.given@,
                            w.map,
                            self.size as int,
                        )
                        &&& w.spawn.0 < self.size && w.spawn.1 < self.size
                        &&& mat.has_walkable() ==> w.map[w.spawn.0 as int][w.spawn.1 as int].tile_type.walk_spec()
                    },
                    _ => self.saved matches Some(s) && w.map == s.map && w.spawn == s.spawn
                        && w.score == s.score && w.score_map == s.score_map,
                }
            },
    {
        match self.stage {
            Stage::Finished(mat, at) => Some(
                World {
                    map: mat.map,
                    spawn: at,
                    environmental_conditions: self.environmental_conditions,
                    score: self.score,
                    score_map: self.score_map,
                },
            ),
            Stage::Cached => {
                let saved = self.saved.unwrap();
                Some(
                    World {
                        map: saved.map,
                        spawn: saved.spawn,
                        environmental_conditions: self.environmental_conditions,
                        score: saved.score,
                        score_map: saved.score_map,
                    },
                )
            },
            _ => None,
        }
    }
}

} // verus!
