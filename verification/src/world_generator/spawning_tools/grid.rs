//! Square grids of tiles: what it means for one to be well formed, what the
//! passes leave untouched, and how a cell is drawn from one.

use vstd::prelude::*;
use rand::rngs::StdRng;
use crate::utils::constants::MAX_REDRAWS;
use crate::utils::random::draw_between;
use crate::world::tile::{Content, Tile, TileType};

verus! {

/// `map` has `size` rows of `size` cells.
pub open spec fn square<T>(map: Vec<Vec<T>>, size: int) -> bool {
    &&& map.len() == size
    &&& forall|r: int| 0 <= r < size ==> (#[trigger] map[r]).len() == size
}

/// The cell at `(r, c)` lies on a grid of side `size`.
pub open spec fn inside(size: int, r: int, c: int) -> bool {
    0 <= r < size && 0 <= c < size
}

/// Every content on the grid lies on a terrain that can hold it.
pub open spec fn content_fits(map: Vec<Vec<Tile>>) -> bool {
    forall|r: int, c: int|
        0 <= r < map.len() && 0 <= c < map[r].len() && !((#[trigger] map[r][c]).content is Empty)
            ==> map[r][c].tile_type.can_hold_spec(map[r][c].content)
}

/// The two grids have the same terrain everywhere.
pub open spec fn same_terrain(a: Vec<Vec<Tile>>, b: Vec<Vec<Tile>>) -> bool {
    &&& a.len() == b.len()
    &&& forall|r: int| 0 <= r < a.len() ==> (#[trigger] a[r]).len() == b[r].len()
    &&& forall|r: int, c: int|
        0 <= r < a.len() && 0 <= c < a[r].len() ==> (#[trigger] a[r][c]).tile_type
            == b[r][c].tile_type
}

/// The two grids have the same content and elevation everywhere.
pub open spec fn same_filling(a: Vec<Vec<Tile>>, b: Vec<Vec<Tile>>) -> bool {
    &&& a.len() == b.len()
    &&& forall|r: int| 0 <= r < a.len() ==> (#[trigger] a[r]).len() == b[r].len()
    &&& forall|r: int, c: int|
        0 <= r < a.len() && 0 <= c < a[r].len() ==> (#[trigger] a[r][c]).content
            == b[r][c].content && a[r][c].elevation == b[r][c].elevation
}

/// Every cell that is water in `before` has the same terrain in `after`.
pub open spec fn water_kept(before: Vec<Vec<Tile>>, after: Vec<Vec<Tile>>) -> bool {
    forall|r: int, c: int|
        0 <= r < before.len() && 0 <= c < before[r].len() && (
        #[trigger] before[r][c]).tile_type.is_water_spec() ==> after[r][c].tile_type
            == before[r][c].tile_type
}

/// Every cell that is marked in `before` is marked in `after`.
pub open spec fn marks_kept(before: Vec<Vec<bool>>, after: Vec<Vec<bool>>) -> bool {
    forall|r: int, c: int|
        0 <= r < before.len() && 0 <= c < before[r].len() && (#[trigger] before[r][c])
            ==> after[r][c]
}

/// A grid of side `size` whose every cell is `tile`.
pub fn filled(size: usize, tile: Tile) -> (map: Vec<Vec<Tile>>)
    ensures
        square(map, size as int),
        forall|r: int, c: int| inside(size as int, r, c) ==> (#[trigger] map[r][c]) == tile,
{
    let mut map: Vec<Vec<Tile>> = Vec::new();
    let mut r: usize = 0;
    while r < size
        invariant
            r <= size,
            map.len() == r,
            forall|i: int| 0 <= i < r ==> (#[trigger] map[i]).len() == size,
            forall|i: int, c: int| 0 <= i < r && 0 <= c < size ==> (#[trigger] map[i][c]) == tile,
        decreases size - r,
    {
        let mut row: Vec<Tile> = Vec::new();
        let mut c: usize = 0;
        while c < size
            invariant
                c <= size,
                row.len() == c,
                forall|j: int| 0 <= j < c ==> (#[trigger] row[j]) == tile,
            decreases size - c,
        {
            row.push(tile);
            c += 1;
        }
        map.push(row);
        r += 1;
    }
    map
}

/// A grid of side `size` on which no cell is marked.
pub fn unmarked(size: usize) -> (marks: Vec<Vec<bool>>)
    ensures
        square(marks, size as int),
        forall|r: int, c: int| inside(size as int, r, c) ==> !(#[trigger] marks[r][c]),
{
    let mut marks: Vec<Vec<bool>> = Vec::new();
    let mut r: usize = 0;
    while r < size
        invariant
            r <= size,
            marks.len() == r,
            forall|i: int| 0 <= i < r ==> (#[trigger] marks[i]).len() == size,
            forall|i: int, c: int| 0 <= i < r && 0 <= c < size ==> !(#[trigger] marks[i][c]),
        decreases size - r,
    {
        let mut row: Vec<bool> = Vec::new();
        let mut c: usize = 0;
        while c < size
            invariant
                c <= size,
                row.len() == c,
                forall|j: int| 0 <= j < c ==> !(#[trigger] row[j]),
            decreases size - c,
        {
            row.push(false);
            c += 1;
        }
        marks.push(row);
        r += 1;
    }
    marks
}

/// The land between two passes: the grid, and the marks on the cells that
/// a river or a street has taken.
pub struct Land {
    pub claimed: Vec<Vec<bool>>,
    pub map: Vec<Vec<Tile>>,
}

/// What a pass looks for in a cell.
#[derive(Clone, Copy, Debug, PartialEq, Eq, Structural)]
pub enum Wanted {
    /// High ground that no river or street has taken: where a river starts.
    RiverSource,
    /// Grass or hill: where a lava lake is poured.
    LakeCenter,
    /// Hill or grass that no river or street has taken: where a street
    /// starts.
    StreetStart,
    /// A terrain that can hold the content.
    Holder(Content),
    /// A terrain on which a robot can stand.
    Walkable,
    /// Anything but a wall.
    Corridor,
}

impl Wanted {
    pub open spec fn accepts_spec(self, tile: Tile, taken: bool) -> bool {
        match self {
            Wanted::RiverSource => (tile.tile_type == TileType::Hill || tile.tile_type
                == TileType::Mountain) && !taken,
            Wanted::LakeCenter => tile.tile_type == TileType::Grass || tile.tile_type
                == TileType::Hill,
            Wanted::StreetStart => (tile.tile_type == TileType::Hill || tile.tile_type
                == TileType::Grass) && !taken,
            Wanted::Holder(content) => tile.tile_type.can_hold_spec(content),
            Wanted::Walkable => tile.tile_type.walk_spec(),
            Wanted::Corridor => tile.tile_type != TileType::Wall,
        }
    }

    pub fn accepts(self, tile: Tile, taken: bool) -> (r: bool)
        ensures
            r == self.accepts_spec(tile, taken),
    {
        match self {
            Wanted::RiverSource => (tile.tile_type == TileType::Hill || tile.tile_type
                == TileType::Mountain) && !taken,
            Wanted::LakeCenter => tile.tile_type == TileType::Grass || tile.tile_type
                == TileType::Hill,
            Wanted::StreetStart => (tile.tile_type == TileType::Hill || tile.tile_type
                == TileType::Grass) && !taken,
            Wanted::Holder(content) => tile.tile_type.can_hold(content),
            Wanted::Walkable => tile.tile_type.walk(),
            Wanted::Corridor => tile.tile_type != TileType::Wall,
        }
    }
}

/// Whether the cell at `(r, c)` is marked; no cell is where there are no
/// marks.
pub open spec fn taken_at(marks: Option<&Vec<Vec<bool>>>, r: int, c: int) -> bool {
    match marks {
        Some(m) => m[r][c],
        None => false,
    }
}

/// The cell at `(r, c)` is what `wanted` looks for.
pub open spec fn wanted_at(
    map: Vec<Vec<Tile>>,
    marks: Option<&Vec<Vec<bool>>>,
    wanted: Wanted,
    r: int,
    c: int,
) -> bool {
    wanted.accepts_spec(map[r][c], taken_at(marks, r, c))
}

/// Some cell with both coordinates from `low` up to, but not including,
/// `high` is what `wanted` looks for.
pub open spec fn some_wanted(
    map: Vec<Vec<Tile>>,
    marks: Option<&Vec<Vec<bool>>>,
    wanted: Wanted,
    low: int,
    high: int,
) -> bool {
    exists|r: int, c: int|
        low <= r < high && low <= c < high && #[trigger] wanted_at(map, marks, wanted, r, c)
}

/// Whether the cell at `(r, c)` is what `wanted` looks for.
pub fn check_cell(
    map: &Vec<Vec<Tile>>,
    marks: Option<&Vec<Vec<bool>>>,
    wanted: Wanted,
    r: usize,
    c: usize,
) -> (ok: bool)
    requires
        r < map.len(),
        c < map[r as int].len(),
        marks matches Some(m) ==> r < m.len() && c < m[r as int].len(),
    ensures
        ok == wanted_at(*map, marks, wanted, r as int, c as int),
{
    let taken = match marks {
        Some(m) => m[r][c],
        None => false,
    };
    wanted.accepts(map[r][c], taken)
}

/// The first cell, row by row, with both coordinates from `low` up to, but
/// not including, `high`, that is what `wanted` looks for.
pub fn first_wanted(
    map: &Vec<Vec<Tile>>,
    marks: Option<&Vec<Vec<bool>>>,
    wanted: Wanted,
    low: usize,
    high: usize,
) -> (found: Option<(usize, usize)>)
    requires
        high <= map.len(),
        square(*map, map.len() as int),
        marks matches Some(m) ==> square(*m, map.len() as int),
    ensures
        found is Some <==> some_wanted(*map, marks, wanted, low as int, high as int),
        found matches Some((r, c)) ==> low <= r < high && low <= c < high && wanted_at(
            *map,
            marks,
            wanted,
            r as int,
            c as int,
        ) && forall|i: int, j: int|
            low <= i < high && low <= j < high && (i < r || (i == r && j < c)) ==> !#[trigger] wanted_at(
                *map,
                marks,
                wanted,
                i,
                j,
            ),
{
    let mut r: usize = low;
    while r < high
        invariant
            high <= map.len(),
            square(*map, map.len() as int),
            marks matches Some(m) ==> square(*m, map.len() as int),
            low <= r,
            forall|i: int, j: int|
                low <= i < r && low <= j < high ==> !#[trigger] wanted_at(*map, marks, wanted, i, j),
        decreases high - r,
    {
        let mut c: usize = low;
        while c < high
            invariant
                high <= map.len(),
                square(*map, map.len() as int),
                marks matches Some(m) ==> square(*m, map.len() as int),
                low <= r < high,
                low <= c,
                forall|i: int, j: int|
                    low <= i < r && low <= j < high ==> !#[trigger] wanted_at(
                        *map,
                        marks,
                        wanted,
                        i,
                        j,
                    ),
                forall|j: int|
                    low <= j < c ==> !#[trigger] wanted_at(*map, marks, wanted, r as int, j),
            decreases high - c,
        {
            if check_cell(map, marks, wanted, r, c) {
                return Some((r, c));
            }
            c += 1;
        }
        r += 1;
    }
    None
}

/// Draws cells with both coordinates from `low` up to, but not including,
/// `high`, until `check_cell` finds that one is what `wanted` looks for, and
/// returns that one. Where `MAX_REDRAWS` draws found none, returns `known`,
/// which is one.
pub fn draw_cell(
    map: &Vec<Vec<Tile>>,
    marks: Option<&Vec<Vec<bool>>>,
    wanted: Wanted,
    low: usize,
    high: usize,
    known: (usize, usize),
    rng: &mut StdRng,
) -> (found: (usize, usize))
    requires
        high <= map.len(),
        square(*map, map.len() as int),
        marks matches Some(m) ==> square(*m, map.len() as int),
        low <= known.0 < high,
        low <= known.1 < high,
        wanted_at(*map, marks, wanted, known.0 as int, known.1 as int),
    ensures
        low <= found.0 < high,
        low <= found.1 < high,
        wanted_at(*map, marks, wanted, found.0 as int, found.1 as int),
{
    let mut tries: u64 = 0;
    while tries < MAX_REDRAWS
        invariant
            low < high <= map.len(),
            square(*map, map.len() as int),
            marks matches Some(m) ==> square(*m, map.len() as int),
        decreases MAX_REDRAWS - tries,
    {
        let r: usize = draw_between(rng, low, high - 1);
        let c: usize = draw_between(rng, low, high - 1);
        if check_cell(map, marks, wanted, r, c) {
            return (r, c);
        }
        tries += 1;
    }
    known
}

/// Draws cells with both coordinates from `low` up to, but not including,
/// `high`, until one is what `wanted` looks for, and returns it. Where no
/// such cell exists, returns `None` without a draw; where `MAX_REDRAWS`
/// draws found none, returns the first one, row by row.
pub fn pick_cell(
    map: &Vec<Vec<Tile>>,
    marks: Option<&Vec<Vec<bool>>>,
    wanted: Wanted,
    low: usize,
    high: usize,
    rng: &mut StdRng,
) -> (found: Option<(usize, usize)>)
    requires
        high <= map.len(),
        square(*map, map.len() as int),
        marks matches Some(m) ==> square(*m, map.len() as int),
    ensures
        found is Some <==> some_wanted(*map, marks, wanted, low as int, high as int),
        found matches Some((r, c)) ==> low <= r < high && low <= c < high && wanted_at(
            *map,
            marks,
            wanted,
            r as int,
            c as int,
        ),
{
    match first_wanted(map, marks, wanted, low, high) {
        Some(known) => Some(draw_cell(map, marks, wanted, low, high, known, rng)),
        None => None,
    }
}

} // verus!
